use maplibre::sdf::bidi::BiDi;
use widestring::U16String;
use maplibre::sdf::font_stack::{fontStackToString, FontStackHasher};
use maplibre::sdf::glyph::getGlyphRange;
use maplibre::sdf::i18n::isWhitespace;
use maplibre::sdf::text::{layout_glyphs, Glyph, GlyphPlacement, GlyphSet, PbfGlyph};
use maplibre::sdf::util::{hash, hash_combine};
use std::collections::BTreeSet;
use std::hash::{DefaultHasher, Hash, Hasher};

fn std_hash(s: &str) -> u64 {
    let mut h = DefaultHasher::new();
    s.to_string().hash(&mut h);
    h.finish()
}

fn combine(seed: u64, h: u64) -> u64 {
    seed ^ h
        .wrapping_add(0x9e3779b9)
        .wrapping_add(seed << 6)
        .wrapping_add(seed >> 2)
}

#[test]
fn glyph_range_is_the_block_of_256() {
    assert_eq!(getGlyphRange(0), 0..255);
    assert_eq!(getGlyphRange(300), 256..511);
    assert_eq!(getGlyphRange(65535), 65280..65535);
}

#[test]
fn whitespace_code_units() {
    for c in [0x20u16, 0x09, 0x0A, 0x0B, 0x0C, 0x0D] {
        assert!(isWhitespace(c));
    }
    assert!(!isWhitespace(0x41));
    assert!(!isWhitespace(0xA0));
}

#[test]
fn font_stack_joins_names_with_commas() {
    let stack = vec![
        "Open Sans Regular".to_string(),
        "Arial Unicode MS Regular".to_string(),
    ];
    assert_eq!(
        fontStackToString(&stack),
        "Open Sans Regular,Arial Unicode MS Regular"
    );
    assert_eq!(fontStackToString(&vec![]), "");
    assert_eq!(fontStackToString(&vec!["a".to_string()]), "a");
}

#[test]
fn font_stack_hash_combines_name_hashes() {
    let stack = vec!["a".to_string(), "b".to_string()];
    let expected = combine(combine(0, std_hash("a")), std_hash("b"));
    assert_eq!(FontStackHasher::new(&stack), expected);
    assert_eq!(hash(&stack), expected);
    assert_eq!(hash(&[]), 0);
    let mut seed = 5u64;
    hash_combine(&mut seed, &"a".to_string());
    assert_eq!(seed, combine(5, std_hash("a")));
    assert_ne!(seed, 5);
}

#[test]
fn glyph_from_pbf_keeps_metrics_and_origin() {
    let g = PbfGlyph {
        id: 65,
        bitmap: None,
        width: 10,
        height: 12,
        left: -1,
        top: -8,
        advance: 11,
    };
    let glyph = Glyph::from_pbf(g, 30, 0);
    assert_eq!(glyph.codepoint, 'A');
    assert_eq!(glyph.buffered_dimensions(), (16, 18));
    assert_eq!(glyph.origin_offset(), (30, 0));
    assert_eq!(glyph.advance(), 11);
    assert_eq!(glyph.left_bearing, -1);
}

fn pbf(id: u32, width: u32, height: u32, bitmap: Option<Vec<u8>>) -> PbfGlyph {
    PbfGlyph {
        id,
        bitmap,
        width,
        height,
        left: 1,
        top: -2,
        advance: width + 1,
    }
}

/// A bordered bitmap of the given size whose pixel at (x, y) is `base + y * width + x`.
fn ramp(width: u32, height: u32, base: u8) -> Vec<u8> {
    (0..width * height).map(|i| base.wrapping_add(i as u8)).collect()
}

#[test]
fn glyphs_are_laid_out_side_by_side() {
    let stacks = vec![
        vec![
            pbf(65, 1, 2, Some(ramp(7, 8, 0))),
            pbf(66, 1, 1, None),
            pbf(67, 1, 1, Some(vec![0; 10])),
        ],
        vec![pbf(68, 0, 0, Some(ramp(6, 6, 100)))],
    ];
    let layout = layout_glyphs(&stacks);
    assert_eq!(layout.width, 13);
    assert_eq!(layout.height, 8);
    assert_eq!(
        layout.placements,
        vec![
            GlyphPlacement { stack: 0, index: 0, x: 0, width: 7, height: 8 },
            GlyphPlacement { stack: 1, index: 0, x: 7, width: 6, height: 6 },
        ]
    );
}

#[test]
fn glyph_set_packs_bitmaps_into_its_texture() {
    let stacks = vec![
        vec![
            pbf(65, 1, 2, Some(ramp(7, 8, 0))),
            pbf(66, 1, 1, None),
            pbf(67, 1, 1, Some(vec![0; 10])),
        ],
        vec![pbf(68, 0, 0, Some(ramp(6, 6, 100)))],
    ];
    let set = GlyphSet::from_glyph_stacks(stacks);
    assert_eq!(set.get_texture_dimensions(), (13, 8));
    let bytes = set.get_texture_bytes();
    assert_eq!(bytes.len(), 13 * 8);
    for y in 0..8usize {
        for x in 0..13usize {
            let expected = if x < 7 {
                (y * 7 + x) as u8
            } else if y < 6 {
                100 + (y * 6 + (x - 7)) as u8
            } else {
                0
            };
            assert_eq!(bytes[y * 13 + x], expected, "pixel ({x}, {y})");
        }
    }
    let keys: Vec<u32> = set.glyphs.keys().copied().collect();
    assert_eq!(keys, vec![65, 68]);
    assert_eq!(set.glyphs[&65].origin_offset(), (0, 0));
    assert_eq!(set.glyphs[&68].origin_offset(), (7, 0));
    assert_eq!(set.glyphs[&68].advance(), 1);
}

#[test]
fn glyph_set_of_no_packed_glyph_is_empty() {
    let set = GlyphSet::from_glyph_stacks(vec![vec![pbf(65, 2, 2, None)], vec![]]);
    assert_eq!(set.get_texture_dimensions(), (0, 0));
    assert!(set.get_texture_bytes().is_empty());
    assert!(set.glyphs.is_empty());
}

#[test]
fn a_later_glyph_with_the_same_code_point_replaces_an_earlier_one() {
    let stacks = vec![
        vec![pbf(65, 0, 0, Some(vec![1; 36]))],
        vec![pbf(65, 1, 0, Some(vec![2; 42]))],
    ];
    let set = GlyphSet::from_glyph_stacks(stacks);
    assert_eq!(set.get_texture_dimensions(), (13, 6));
    assert_eq!(set.glyphs.len(), 1);
    assert_eq!(set.glyphs[&65].origin_offset(), (6, 0));
    assert_eq!(set.get_texture_bytes()[5], 1);
    assert_eq!(set.get_texture_bytes()[6], 2);
}

#[test]
fn bidi_splits_text_at_break_points() {
    let text = U16String::from_str("abcdef");
    let lines = BiDi.processText(&text, BTreeSet::from([4, 2]));
    let expected: Vec<U16String> = vec![
        U16String::from_str("ab"),
        U16String::from_str("cd"),
        U16String::from_str("ef"),
    ];
    assert_eq!(lines, expected);
    let single = BiDi.processText(&text, BTreeSet::new());
    assert_eq!(single, vec![text.clone()]);
    let with_end = BiDi.processText(&text, BTreeSet::from([6, 0]));
    assert_eq!(with_end, vec![U16String::new(), text.clone()]);
}

#[test]
fn bidi_styled_text_skips_points_beyond_styles() {
    let text = U16String::from_str("abcdef");
    let styles: Vec<u8> = vec![0, 0, 1, 1];
    let lines = BiDi.processStyledText(&(text.clone(), styles), BTreeSet::from([2]));
    assert_eq!(lines.len(), 1);
    assert_eq!(lines[0].0, U16String::from_str("ab"));
    assert_eq!(lines[0].1, vec![0, 0]);

    let full: Vec<u8> = vec![0, 0, 1, 1, 2, 2];
    let lines = BiDi.processStyledText(&(text.clone(), full), BTreeSet::from([2]));
    assert_eq!(lines.len(), 2);
    assert_eq!(lines[1].0, U16String::from_str("cdef"));
    assert_eq!(lines[1].1, vec![1, 1, 2, 2]);
}

#[test]
fn bidi_lines_join_back_to_the_text() {
    let text = U16String::from_str("a line, and another");
    let lines = BiDi.processText(&text, BTreeSet::from([7, 2, 19, 12]));
    assert_eq!(lines.len(), 4);
    let joined: Vec<u16> = lines.iter().flat_map(|l| l.as_slice().to_vec()).collect();
    assert_eq!(joined, text.as_slice().to_vec());
}
