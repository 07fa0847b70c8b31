//! Glyphs of a signed-distance-field font and the set that packs them into one texture.
use vstd::prelude::*;
use std::collections::BTreeMap;
use crate::sdf::bidi::copy_range;
use crate::sdf::gray_image::{
    gray_image_copy_from, gray_image_data, gray_image_dims, gray_image_from_vec, gray_image_new,
    gray_image_top_left, pixel_at, copied_over,
};

verus! {

pub type UnicodePoint = char;

/// A glyph as the font file describes it (`id` is a Unicode code point).
#[derive(Clone, Debug, Default)]
pub struct PbfGlyph {
    pub id: u32,
    pub bitmap: Option<Vec<u8>>,
    pub width: u32,
    pub height: u32,
    pub left: i32,
    pub top: i32,
    pub advance: u32,
}

/// `v` is a Unicode scalar value: at most `0x10FFFF` and not a surrogate.
pub open spec fn is_unicode_scalar(v: u32) -> bool {
    v < 0xD800 || (0xE000 <= v && v <= 0x10FFFF)
}

/// `char::try_from(u32)`: the `char` with this code point, if it is a Unicode scalar value.
#[verifier::external_body]
fn char_from_u32(v: u32) -> (r: Option<char>)
    ensures
        r is Some <==> is_unicode_scalar(v),
        r matches Some(c) ==> c as u32 == v && c == v as char,
{
    char::try_from(v).ok()
}

/// The border, in pixels, that surrounds each glyph bitmap on every side.
pub const GLYPH_BORDER: u32 = 3;

/// The side length of the square texture into which the glyph bitmaps are copied.
pub const TEXTURE_SIZE: u32 = 4096;

/// Where the bitmap of one glyph goes: glyph `index` of font stack `stack` is copied with its
/// border (`width` by `height` pixels) to column `x` of the first texture row.
#[derive(Clone, Copy, Debug, PartialEq, Eq, Structural)]
pub struct GlyphPlacement {
    pub stack: usize,
    pub index: usize,
    pub x: u32,
    pub width: u32,
    pub height: u32,
}

/// The placements of the glyphs that are packed, and the size of the packed area.
#[derive(Clone, Debug)]
pub struct GlyphLayout {
    pub placements: Vec<GlyphPlacement>,
    pub width: u32,
    pub height: u32,
}

/// A glyph is packed when it has a bitmap large enough for its size with the border.
pub open spec fn is_packed(g: PbfGlyph) -> bool {
    g.bitmap is Some && (g.width + 2 * GLYPH_BORDER) * (g.height + 2 * GLYPH_BORDER) <= g.bitmap->0@.len()
}

/// The (stack, glyph) positions of all glyphs, stack by stack, each stack in order.
pub open spec fn glyph_entries(stacks: Seq<Vec<PbfGlyph>>) -> Seq<(usize, usize)>
    decreases stacks.len(),
{
    if stacks.len() == 0 {
        Seq::empty()
    } else {
        glyph_entries(stacks.drop_last()) + Seq::new(
            stacks.last()@.len(),
            |j: int| ((stacks.len() - 1) as usize, j as usize),
        )
    }
}

/// The glyph at an entry.
pub open spec fn glyph_at(stacks: Seq<Vec<PbfGlyph>>, e: (usize, usize)) -> PbfGlyph {
    stacks[e.0 as int]@[e.1 as int]
}

/// Packs the glyphs at the entries from left to right: the width used, the height used, and
/// the placements.
pub open spec fn pack(stacks: Seq<Vec<PbfGlyph>>, es: Seq<(usize, usize)>) -> (int, int, Seq<
    GlyphPlacement,
>)
    decreases es.len(),
{
    if es.len() == 0 {
        (0, 0, Seq::empty())
    } else {
        let (x, h, ps) = pack(stacks, es.drop_last());
        let e = es.last();
        let g = glyph_at(stacks, e);
        if is_packed(g) {
            let w = g.width + 2 * GLYPH_BORDER;
            let gh = g.height + 2 * GLYPH_BORDER;
            (
                x + w,
                if gh > h {
                    gh as int
                } else {
                    h
                },
                ps.push(
                    GlyphPlacement {
                        stack: e.0,
                        index: e.1,
                        x: x as u32,
                        width: w as u32,
                        height: gh as u32,
                    },
                ),
            )
        } else {
            (x, h, ps)
        }
    }
}

/// What packing needs of each glyph with a bitmap: a valid code point and a size whose
/// border does not overflow.
pub open spec fn glyph_well_formed(g: PbfGlyph) -> bool {
    g.bitmap is Some ==> {
        &&& is_unicode_scalar(g.id)
        &&& g.width + 2 * GLYPH_BORDER <= u32::MAX
        &&& g.height + 2 * GLYPH_BORDER <= u32::MAX
    }
}

/// Lays the glyph bitmaps of all font stacks out side by side on the first row of the texture,
/// skipping glyphs without a bitmap or with a bitmap too small for their size.
///
/// The bitmaps are copied into a texture of `TEXTURE_SIZE` pixels square, so the packed area
/// must fit in it.
pub fn layout_glyphs(stacks: &Vec<Vec<PbfGlyph>>) -> (r: GlyphLayout)
    requires
        forall|e: (usize, usize)|
            glyph_entries(stacks@).contains(e) ==> glyph_well_formed(glyph_at(stacks@, e)),
        pack(stacks@, glyph_entries(stacks@)).0 <= TEXTURE_SIZE,
        pack(stacks@, glyph_entries(stacks@)).1 <= TEXTURE_SIZE,
    ensures
        r.width == pack(stacks@, glyph_entries(stacks@)).0,
        r.height == pack(stacks@, glyph_entries(stacks@)).1,
        r.placements@ == pack(stacks@, glyph_entries(stacks@)).2,
{
    let ghost all = glyph_entries(stacks@);
    let mut placements: Vec<GlyphPlacement> = Vec::new();
    let mut last_x: u32 = 0;
    let mut max_height: u32 = 0;
    let mut i: usize = 0;
    proof {
        lemma_pack_prefix_bounded(stacks@, all, 0);
    }
    while i < stacks.len()
        invariant
            i <= stacks@.len(),
            all == glyph_entries(stacks@),
            forall|e: (usize, usize)|
                all.contains(e) ==> glyph_well_formed(glyph_at(stacks@, e)),
            pack(stacks@, all).0 <= TEXTURE_SIZE,
            pack(stacks@, all).1 <= TEXTURE_SIZE,
            glyph_entries(stacks@.subrange(0, i as int)).len() <= all.len(),
            all.subrange(0, glyph_entries(stacks@.subrange(0, i as int)).len() as int)
                == glyph_entries(stacks@.subrange(0, i as int)),
            pack(stacks@, glyph_entries(stacks@.subrange(0, i as int))) == (
                last_x as int,
                max_height as int,
                placements@,
            ),
        decreases stacks@.len() - i,
    {
        let ghost done = glyph_entries(stacks@.subrange(0, i as int));
        proof {
            lemma_entries_step(stacks@, i as int);
        }
        let stack = &stacks[i];
        let mut j: usize = 0;
        while j < stack.len()
            invariant
                i < stacks@.len(),
                *stack == stacks@[i as int],
                j <= stack@.len(),
                all == glyph_entries(stacks@),
                forall|e: (usize, usize)|
                    all.contains(e) ==> glyph_well_formed(glyph_at(stacks@, e)),
                pack(stacks@, all).0 <= TEXTURE_SIZE,
                pack(stacks@, all).1 <= TEXTURE_SIZE,
                done.len() + stack@.len() <= all.len(),
                all.subrange(0, (done.len() + stack@.len()) as int) == done + Seq::new(
                    stack@.len(),
                    |k: int| (i, k as usize),
                ),
                pack(stacks@, done + Seq::new(j as nat, |k: int| (i, k as usize))) == (
                    last_x as int,
                    max_height as int,
                    placements@,
                ),
            decreases stack@.len() - j,
        {
            let ghost cur = done + Seq::new(j as nat, |k: int| (i, k as usize));
            let ghost next = done + Seq::new((j + 1) as nat, |k: int| (i, k as usize));
            proof {
                assert(next.drop_last() =~= cur);
                assert(next.last() == (i, j));
                assert(all.subrange(0, (done.len() + stack@.len()) as int)[done.len() + j] == (i, j));
                assert(all[done.len() + j] == (i, j));
                assert(all.contains((i, j)));
                assert(next =~= all.subrange(0, (done.len() + j + 1) as int));
                lemma_pack_prefix_bounded(stacks@, all, (done.len() + j + 1) as int);
            }
            let g = &stack[j];
            match &g.bitmap {
                Some(bitmap) => {
                    let w: u32 = g.width + 6;
                    let h: u32 = g.height + 6;
                    let w64: u64 = w as u64;
                    let h64: u64 = h as u64;
                    assert(w64 * h64 <= u64::MAX) by (nonlinear_arith)
                        requires
                            w64 <= u32::MAX,
                            h64 <= u32::MAX,
                    ;
                    if w64 * h64 <= bitmap.len() as u64 {
                        placements.push(
                            GlyphPlacement { stack: i, index: j, x: last_x, width: w, height: h },
                        );
                        last_x = last_x + w;
                        if h > max_height {
                            max_height = h;
                        }
                    }
                },
                None => {},
            }
            j = j + 1;
        }
        proof {
            assert(done + Seq::new(stack@.len(), |k: int| (i, k as usize)) =~= glyph_entries(
                stacks@.subrange(0, i + 1),
            ));
        }
        i = i + 1;
    }
    proof {
        assert(stacks@.subrange(0, stacks@.len() as int) =~= stacks@);
    }
    GlyphLayout { placements, width: last_x, height: max_height }
}

/// The entries of the first `i + 1` stacks are those of the first `i`, then those of stack `i`.
proof fn lemma_entries_step(stacks: Seq<Vec<PbfGlyph>>, i: int)
    requires
        0 <= i < stacks.len(),
    ensures
        glyph_entries(stacks.subrange(0, i + 1)) == glyph_entries(stacks.subrange(0, i)) + Seq::new(
            stacks[i]@.len(),
            |k: int| (i as usize, k as usize),
        ),
        glyph_entries(stacks.subrange(0, i + 1)).len() <= glyph_entries(stacks).len(),
        glyph_entries(stacks).subrange(0, glyph_entries(stacks.subrange(0, i + 1)).len() as int)
            == glyph_entries(stacks.subrange(0, i + 1)),
{
    assert(stacks.subrange(0, i + 1).drop_last() =~= stacks.subrange(0, i));
    lemma_entries_prefix(stacks, i + 1);
}

/// The entries of a prefix of the stacks are a prefix of all entries.
proof fn lemma_entries_prefix(stacks: Seq<Vec<PbfGlyph>>, n: int)
    requires
        0 <= n <= stacks.len(),
    ensures
        glyph_entries(stacks.subrange(0, n)).len() <= glyph_entries(stacks).len(),
        glyph_entries(stacks).subrange(0, glyph_entries(stacks.subrange(0, n)).len() as int)
            == glyph_entries(stacks.subrange(0, n)),
    decreases stacks.len(),
{
    if n == stacks.len() {
        assert(stacks.subrange(0, n) =~= stacks);
        assert(glyph_entries(stacks).subrange(0, glyph_entries(stacks).len() as int) =~= glyph_entries(stacks));
    } else {
        let d = stacks.drop_last();
        assert(d.subrange(0, n) =~= stacks.subrange(0, n));
        lemma_entries_prefix(d, n);
        let a = glyph_entries(d);
        let p = glyph_entries(stacks.subrange(0, n));
        assert(glyph_entries(stacks) == a + Seq::new(
            stacks.last()@.len(),
            |j: int| ((stacks.len() - 1) as usize, j as usize),
        ));
        assert(glyph_entries(stacks).subrange(0, p.len() as int) =~= a.subrange(0, p.len() as int));
    }
}

/// Packing a prefix of the entries uses no more room than packing all of them.
proof fn lemma_pack_prefix_bounded(stacks: Seq<Vec<PbfGlyph>>, es: Seq<(usize, usize)>, n: int)
    requires
        0 <= n <= es.len(),
    ensures
        pack(stacks, es.subrange(0, n)).0 <= pack(stacks, es).0,
        pack(stacks, es.subrange(0, n)).1 <= pack(stacks, es).1,
        0 <= pack(stacks, es.subrange(0, n)).0,
        0 <= pack(stacks, es.subrange(0, n)).1,
    decreases es.len(),
{
    if n == es.len() {
        assert(es.subrange(0, n) =~= es);
        lemma_pack_nonneg(stacks, es);
    } else {
        assert(es.drop_last().subrange(0, n) =~= es.subrange(0, n));
        lemma_pack_prefix_bounded(stacks, es.drop_last(), n);
    }
}

proof fn lemma_pack_nonneg(stacks: Seq<Vec<PbfGlyph>>, es: Seq<(usize, usize)>)
    ensures
        0 <= pack(stacks, es).0,
        0 <= pack(stacks, es).1,
    decreases es.len(),
{
    if es.len() > 0 {
        lemma_pack_nonneg(stacks, es.drop_last());
    }
}

/// Every entry names a glyph of the stacks.
proof fn lemma_entries_valid(stacks: Seq<Vec<PbfGlyph>>)
    requires
        stacks.len() <= usize::MAX,
        forall|i: int| 0 <= i < stacks.len() ==> stacks[i]@.len() <= usize::MAX,
    ensures
        forall|e: (usize, usize)|
            #[trigger] glyph_entries(stacks).contains(e) ==> e.0 < stacks.len() && e.1
                < stacks[e.0 as int]@.len(),
    decreases stacks.len(),
{
    if stacks.len() > 0 {
        let d = stacks.drop_last();
        assert forall|i: int| 0 <= i < d.len() implies d[i]@.len() <= usize::MAX by {
            assert(d[i] == stacks[i]);
        }
        lemma_entries_valid(d);
        let tail = Seq::new(
            stacks.last()@.len(),
            |j: int| ((stacks.len() - 1) as usize, j as usize),
        );
        assert forall|e: (usize, usize)| #[trigger]
            glyph_entries(stacks).contains(e) implies e.0 < stacks.len() && e.1 < stacks[e.0 as int]@.len() by {
            assert(glyph_entries(stacks) == glyph_entries(d) + tail);
            let k = choose|k: int|
                0 <= k < glyph_entries(stacks).len() && glyph_entries(stacks)[k] == e;
            if k < glyph_entries(d).len() {
                assert(glyph_entries(d)[k] == e);
                assert(glyph_entries(d).contains(e));
                assert(e.0 < d.len());
                assert(d[e.0 as int] == stacks[e.0 as int]);
                assert(e.1 < stacks[e.0 as int]@.len());
            } else {
                let j = k - glyph_entries(d).len();
                assert(tail[j] == e);
                assert(stacks.last() == stacks[stacks.len() - 1]);
            }
        }
    }
}

/// What packing guarantees of each placement: it names a packed glyph of the entries, has that
/// glyph's size with the border, and lies within the packed area, which is empty when no
/// glyph is packed.
proof fn lemma_pack_placements(stacks: Seq<Vec<PbfGlyph>>, es: Seq<(usize, usize)>)
    requires
        forall|e: (usize, usize)| es.contains(e) ==> glyph_well_formed(glyph_at(stacks, e)),
        pack(stacks, es).0 <= u32::MAX,
    ensures
        pack(stacks, es).0 == 0 ==> pack(stacks, es).1 == 0,
        forall|k: int|
            0 <= k < pack(stacks, es).2.len() ==> {
                let p = #[trigger] pack(stacks, es).2[k];
                let g = glyph_at(stacks, (p.stack, p.index));
                &&& es.contains((p.stack, p.index))
                &&& is_packed(g)
                &&& p.width == g.width + 2 * GLYPH_BORDER
                &&& p.height == g.height + 2 * GLYPH_BORDER
                &&& p.x + p.width <= pack(stacks, es).0
                &&& p.height <= pack(stacks, es).1
            },
    decreases es.len(),
{
    if es.len() > 0 {
        let d = es.drop_last();
        assert(d =~= es.subrange(0, es.len() - 1));
        lemma_pack_prefix_bounded(stacks, es, es.len() - 1);
        assert forall|e: (usize, usize)| d.contains(e) implies glyph_well_formed(glyph_at(stacks, e)) by {
            let k = choose|k: int| 0 <= k < d.len() && d[k] == e;
            assert(es[k] == e);
            assert(es.contains(e));
        }
        lemma_pack_placements(stacks, d);
        lemma_pack_nonneg(stacks, d);
        let e = es.last();
        assert(es[es.len() - 1] == e);
        assert(es.contains(e));
        assert forall|k: int| 0 <= k < pack(stacks, d).2.len() implies es.contains(
            ((#[trigger] pack(stacks, d).2[k]).stack, pack(stacks, d).2[k].index),
        ) by {
            let p = pack(stacks, d).2[k];
            let j = choose|j: int| 0 <= j < d.len() && d[j] == (p.stack, p.index);
            assert(es[j] == (p.stack, p.index));
        }
    }
}

/// The packed texture at column `px` of row `py`: the bordered bitmap of the last glyph placed
/// over that pixel, and 0 where no glyph lies.
pub open spec fn texel(stacks: Seq<Vec<PbfGlyph>>, ps: Seq<GlyphPlacement>, px: int, py: int) -> u8
    decreases ps.len(),
{
    if ps.len() == 0 {
        0
    } else {
        let p = ps.last();
        if p.x <= px < p.x + p.width && 0 <= py < p.height {
            glyph_at(stacks, (p.stack, p.index)).bitmap->0@[py * p.width + (px - p.x)]
        } else {
            texel(stacks, ps.drop_last(), px, py)
        }
    }
}

#[derive(Debug)]
pub struct Glyph {
    pub codepoint: UnicodePoint,
    pub width: u32,
    pub height: u32,
    pub left_bearing: i32,
    pub top_bearing: i32,
    h_advance: u32,
    /// x origin coordinate within the packed texture
    tex_origin_x: u32,
    /// y origin coordinate within the packed texture
    tex_origin_y: u32,
}

impl Glyph {
    pub closed spec fn spec_codepoint(&self) -> char {
        self.codepoint
    }

    /// Width, height, left bearing and top bearing: the fields `width`, `height`,
    /// `left_bearing` and `top_bearing`. (Verus does not let a public specification read the
    /// fields of this type, whose other fields are private; `from_pbf` states their values.)
    pub closed spec fn spec_metrics(&self) -> (u32, u32, i32, i32) {
        (self.width, self.height, self.left_bearing, self.top_bearing)
    }

    pub closed spec fn spec_advance(&self) -> u32 {
        self.h_advance
    }

    pub closed spec fn spec_origin(&self) -> (u32, u32) {
        (self.tex_origin_x, self.tex_origin_y)
    }

    /// The glyph of the font file, placed at the given texture origin.
    ///
    /// The code point `id` must be a Unicode scalar value.
    pub fn from_pbf(g: PbfGlyph, origin_x: u32, origin_y: u32) -> (r: Self)
        requires
            is_unicode_scalar(g.id),
        ensures
            r.spec_codepoint() as u32 == g.id,
            r.spec_metrics() == (g.width, g.height, g.left, g.top),
            r.spec_advance() == g.advance,
            r.spec_origin() == (origin_x, origin_y),
            origin_y == 0 ==> r == placed_glyph(g, origin_x),
    {
        let codepoint = char_from_u32(g.id).unwrap();
        Self {
            codepoint,
            width: g.width,
            height: g.height,
            left_bearing: g.left,
            top_bearing: g.top,
            h_advance: g.advance,
            tex_origin_x: origin_x,
            tex_origin_y: origin_y,
        }
    }

    /// The size of the bitmap including its border on each side.
    pub fn buffered_dimensions(&self) -> (r: (u32, u32))
        requires
            self.spec_metrics().0 + 2 * GLYPH_BORDER <= u32::MAX,
            self.spec_metrics().1 + 2 * GLYPH_BORDER <= u32::MAX,
        ensures
            r.0 == self.spec_metrics().0 + 2 * GLYPH_BORDER,
            r.1 == self.spec_metrics().1 + 2 * GLYPH_BORDER,
    {
        (self.width + 3 * 2, self.height + 3 * 2)
    }

    /// Where the glyph's bitmap starts within the packed texture.
    pub fn origin_offset(&self) -> (r: (u32, u32))
        ensures
            r == self.spec_origin(),
    {
        (self.tex_origin_x, self.tex_origin_y)
    }

    /// The horizontal advance of the glyph.
    pub fn advance(&self) -> (r: u32)
        ensures
            r == self.spec_advance(),
    {
        self.h_advance
    }
}

/// The glyph of the font file `g`, placed at column `x` of the texture's first row.
pub closed spec fn placed_glyph(g: PbfGlyph, x: u32) -> Glyph {
    Glyph {
        codepoint: g.id as char,
        width: g.width,
        height: g.height,
        left_bearing: g.left,
        top_bearing: g.top,
        h_advance: g.advance,
        tex_origin_x: x,
        tex_origin_y: 0,
    }
}

/// Code points as `u32` keys are ordered as `Ord` promises, so a map keyed by them behaves
/// as a map.
proof fn lemma_u32_keys_ordered()
    ensures
        vstd::laws_cmp::obeys_cmp::<u32>(),
{
    broadcast use vstd::laws_cmp::group_laws_cmp;
}

/// The placed glyphs by code point; a later placement of a code point replaces an earlier one.
pub open spec fn glyph_map(stacks: Seq<Vec<PbfGlyph>>, ps: Seq<GlyphPlacement>) -> Map<u32, Glyph>
    decreases ps.len(),
{
    if ps.len() == 0 {
        Map::empty()
    } else {
        let p = ps.last();
        let g = glyph_at(stacks, (p.stack, p.index));
        glyph_map(stacks, ps.drop_last()).insert(g.id, placed_glyph(g, p.x))
    }
}

/// The glyphs of a font, by code point, together with the texture that holds their bitmaps.
pub struct GlyphSet {
    texture_bytes: Vec<u8>,
    texture_dimensions: (usize, usize),
    pub glyphs: BTreeMap<u32, Glyph>,
}

impl GlyphSet {
    pub closed spec fn spec_texture_bytes(&self) -> Seq<u8> {
        self.texture_bytes@
    }

    pub closed spec fn spec_texture_dimensions(&self) -> (usize, usize) {
        self.texture_dimensions
    }

    pub closed spec fn spec_glyphs(&self) -> BTreeMap<u32, Glyph> {
        self.glyphs
    }

    /// Packs the glyph bitmaps of all font stacks side by side into one texture, as
    /// `layout_glyphs` lays them out, and keeps each packed glyph, placed at its column of the
    /// texture, under its code point.
    ///
    /// The texture is the packed area: each pixel holds the bordered bitmap of the glyph placed
    /// over it, and 0 where no glyph lies.
    pub fn from_glyph_stacks(stacks: Vec<Vec<PbfGlyph>>) -> (r: Self)
        requires
            forall|e: (usize, usize)|
                glyph_entries(stacks@).contains(e) ==> glyph_well_formed(glyph_at(stacks@, e)),
            pack(stacks@, glyph_entries(stacks@)).0 <= TEXTURE_SIZE,
            pack(stacks@, glyph_entries(stacks@)).1 <= TEXTURE_SIZE,
        ensures
            ({
                let (w, h, ps) = pack(stacks@, glyph_entries(stacks@));
                &&& r.spec_texture_dimensions() == (w as usize, h as usize)
                &&& r.spec_texture_bytes().len() == w * h
                &&& r.spec_texture_bytes().len() == r.spec_texture_dimensions().0
                    * r.spec_texture_dimensions().1
                &&& forall|px: int, py: int|
                    0 <= px < w && 0 <= py < h ==> #[trigger] pixel_at(
                        r.spec_texture_bytes(),
                        w,
                        px,
                        py,
                    ) == texel(stacks@, ps, px, py)
                &&& r.spec_glyphs()@ == glyph_map(
                    stacks@,
                    ps,
                )
            }),
    {
        let layout = layout_glyphs(&stacks);
        let ghost all = glyph_entries(stacks@);
        let ghost ps = layout.placements@;
        proof {
            assert(stacks.len() == stacks@.len());
            assert forall|i: int| 0 <= i < stacks@.len() implies stacks@[i]@.len() <= usize::MAX by {
                assert(stacks@[i].len() == stacks@[i]@.len());
            }
            lemma_entries_valid(stacks@);
            lemma_pack_placements(stacks@, all);
        }
        let mut texture = gray_image_new(TEXTURE_SIZE, TEXTURE_SIZE);
        let mut glyphs: BTreeMap<u32, Glyph> = BTreeMap::new();
        let mut k: usize = 0;
        while k < layout.placements.len()
            invariant
                k <= layout.placements@.len(),
                ps == layout.placements@,
                all == glyph_entries(stacks@),
                ps == pack(stacks@, all).2,
                layout.width == pack(stacks@, all).0,
                layout.height == pack(stacks@, all).1,
                layout.width <= TEXTURE_SIZE,
                layout.height <= TEXTURE_SIZE,
                forall|e: (usize, usize)|
                    #[trigger] all.contains(e) ==> e.0 < stacks@.len() && e.1 < stacks@[e.0 as int]@.len(),
                forall|e: (usize, usize)|
                    all.contains(e) ==> glyph_well_formed(glyph_at(stacks@, e)),
                forall|j: int|
                    0 <= j < ps.len() ==> {
                        let p = #[trigger] ps[j];
                        let g = glyph_at(stacks@, (p.stack, p.index));
                        &&& all.contains((p.stack, p.index))
                        &&& is_packed(g)
                        &&& p.width == g.width + 2 * GLYPH_BORDER
                        &&& p.height == g.height + 2 * GLYPH_BORDER
                        &&& p.x + p.width <= layout.width
                        &&& p.height <= layout.height
                    },
                gray_image_dims(texture) == (TEXTURE_SIZE, TEXTURE_SIZE),
                gray_image_data(texture).len() == TEXTURE_SIZE * TEXTURE_SIZE,
                forall|px: int, py: int|
                    0 <= px < TEXTURE_SIZE && 0 <= py < TEXTURE_SIZE ==> #[trigger] pixel_at(
                        gray_image_data(texture),
                        TEXTURE_SIZE as int,
                        px,
                        py,
                    ) == texel(stacks@, ps.take(k as int), px, py),
                glyphs@ == glyph_map(
                    stacks@,
                    ps.take(k as int),
                ),
            decreases layout.placements@.len() - k,
        {
            let p = layout.placements[k];
            proof {
                assert(ps[k as int] == p);
                assert(all.contains((p.stack, p.index)));
            }
            let g = &stacks[p.stack][p.index];
            let bitmap = match &g.bitmap {
                Some(b) => {
                    let copy = copy_range(b, 0, b.len());
                    proof {
                        assert(copy@ =~= b@);
                    }
                    copy
                },
                None => Vec::new(),
            };
            proof {
                assert(*g == glyph_at(stacks@, (p.stack, p.index)));
                assert(bitmap@ == g.bitmap->0@);
            }
            let ghost before = texture;
            let placed = gray_image_from_vec(p.width, p.height, bitmap);
            match placed {
                Some(img) => {
                    let copied = gray_image_copy_from(&mut texture, &img, p.x, 0);
                    proof {
                        assert(copied is Ok);
                        assert forall|px: int, py: int|
                            0 <= px < TEXTURE_SIZE && 0 <= py < TEXTURE_SIZE implies #[trigger] pixel_at(
                            gray_image_data(texture),
                            TEXTURE_SIZE as int,
                            px,
                            py,
                        ) == texel(stacks@, ps.take(k + 1), px, py) by {
                            assert(ps.take(k + 1).drop_last() =~= ps.take(k as int));
                            assert(ps.take(k + 1).last() == p);
                            assert(pixel_at(gray_image_data(texture), TEXTURE_SIZE as int, px, py)
                                == copied_over(before, img, p.x as int, 0, px, py));
                            assert(pixel_at(gray_image_data(before), TEXTURE_SIZE as int, px, py)
                                == texel(stacks@, ps.take(k as int), px, py));
                            assert(gray_image_data(img) == bitmap@);
                            assert(gray_image_dims(img) == (p.width, p.height));
                            if p.x <= px < p.x + p.width && 0 <= py < p.height {
                                assert(copied_over(before, img, p.x as int, 0, px, py)
                                    == bitmap@[py * p.width + (px - p.x)]);
                            }
                        }
                    }
                },
                None => {
                    proof {
                        assert(false);
                    }
                },
            }
            let glyph = Glyph::from_pbf(
                PbfGlyph {
                    id: g.id,
                    bitmap: None,
                    width: g.width,
                    height: g.height,
                    left: g.left,
                    top: g.top,
                    advance: g.advance,
                },
                p.x,
                0,
            );
            let codepoint = g.id;
            proof {
                lemma_u32_keys_ordered();
            }
            glyphs.insert(codepoint, glyph);
            proof {
                assert(ps.take(k + 1).drop_last() =~= ps.take(k as int));
                assert(ps.take(k + 1).last() == p);
            }
            k = k + 1;
        }
        let texture_bytes = gray_image_top_left(&texture, layout.width, layout.height);
        proof {
            assert(ps.take(ps.len() as int) =~= ps);
        }
        GlyphSet {
            texture_bytes,
            texture_dimensions: (layout.width as usize, layout.height as usize),
            glyphs,
        }
    }

    /// The width and height of the packed texture.
    pub fn get_texture_dimensions(&self) -> (r: (usize, usize))
        ensures
            r == self.spec_texture_dimensions(),
    {
        self.texture_dimensions
    }

    /// The packed texture, one byte per pixel, row by row.
    pub fn get_texture_bytes(&self) -> (r: &[u8])
        ensures
            r@ == self.spec_texture_bytes(),
    {
        self.texture_bytes.as_slice()
    }
}

} // verus!
