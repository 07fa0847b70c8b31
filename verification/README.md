# maplibre

Parts of a vector map renderer, written in Verus: the parts that work on plain values
(schedules of stages, text handling for signed-distance-field labels, symbol layout decisions,
the cell structure of the collision grid). Where a function computes a result, its contract
states it and Verus proves it; a few constructors and property values whose types hold a single
value carry no `ensures`.

## Layout

- `src/` — the verified library.
  - `schedule.rs`, `tcs.rs`: an ordered schedule of labelled stages (add, remove, insert
    before/after, look up, run in order), and systems, with laws relating these operations.
  - `coords.rs`, `euclid.rs`: tile coordinates, zoom levels and plain geometry records.
  - `sdf/`: text rendering with signed distance fields — glyph ranges and packing of glyph
    bitmaps into a texture (`gray_image.rs` holds the contracts of the `image` operations it
    uses), UTF-16 strings of the `widestring` crate (`u16_string.rs`), font stack hashing,
    tagged (formatted) strings, line breaking, the cell structure of the collision grid index,
    wrapping of world tiles onto the canonical tile pyramid, the layout of a symbol layer's
    features with their glyph and image dependencies, and the layout properties of symbol
    layers. `key_order.rs` holds the order of string keys and of font stacks; the layers' properties
    and the glyph and image dependencies are kept as ordered maps and sets in that order, in
    vectors whose contracts state that they are sorted and what they hold (the code units of
    each font stack in a `BTreeSet`).
  - `style/`: enumerations and records of the map style.
- `app/` — the layer around the library: serialisable copies of style records, the
  floating-point geometry of the grid index and of numeric style properties, type-based stage
  lookup, and decoding of glyph font files (protocol buffers).
- `tests/` — tests of the library on concrete values.
