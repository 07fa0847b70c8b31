//! Symbol layers and their properties.
use vstd::prelude::*;
use crate::sdf::style_types::{
    AlignmentType, IconPitchAlignment, IconRotationAlignment, SymbolLayoutProperties_PossiblyEvaluated,
    SymbolLayoutProperties_Unevaluated, SymbolPlacement, SymbolPlacementType, SymbolZOrderType,
    TextPitchAlignment, TextRotationAlignment, TextWritingModeType,
};
use crate::sdf::bidi::{applyArabicShaping, encode_utf16, utf16_of, Char16};
use crate::sdf::u16_string::{u16_units, u16string_from_vec};
use crate::sdf::font_stack::{font_names, FontStack};
use crate::sdf::key_order::{
    insert_text, lemma_names_order, lemma_names_transitive, lemma_sorted_determined, names_before,
    names_less, texts_of, texts_sorted,
};
use std::collections::BTreeSet;
use crate::sdf::style_types::{
    DataDrivenLayoutProperty, HeldInLayout, IconImage, TextField, TextFont, TextTransform,
    TextTransformType, LayoutProperty,
};
use crate::sdf::tagged_string::{SectionOptions, TaggedString};
use crate::sdf::layout::symbol_feature::{copy_geometry, geometry_view, SymbolGeometryTileFeature};
use crate::sdf::style_types::{
    IconAllowOverlap, IconIgnorePlacement, PropertyValue, SymbolSortKey, SymbolZOrder,
    TextAllowOverlap, TextIgnorePlacement, TextWritingMode,
};

verus! {

#[derive(Clone, Debug)]
pub struct SymbolLayer {
    pub layout: SymbolLayoutProperties_Unevaluated,
}

pub type SymbolLayer_Impl = SymbolLayer;

#[derive(Clone, Debug)]
pub struct LayerProperties {
    pub id: String,
    pub layer: SymbolLayer_Impl,
}

pub type SymbolLayerProperties = LayerProperties;

impl LayerProperties {
    /// The symbol layer these properties belong to.
    pub fn layerImpl(&self) -> (r: &SymbolLayer_Impl)
        ensures
            *r == self.layer,
    {
        &self.layer
    }

    /// The properties themselves, seen as the properties of a layer of any kind.
    pub fn baseImpl(&self) -> (r: &Self)
        ensures
            *r == *self,
    {
        self
    }
}

/// Views generic layer properties as symbol layer properties (they are the same value).
pub fn toSymbolLayerProperties(layer: &LayerProperties) -> (r: &SymbolLayerProperties)
    ensures
        *r == *layer,
{
    layer
}

/// Evaluates a layer's layout. An `auto` rotation alignment becomes `map` for symbols placed
/// along lines and `viewport` for symbols placed at points; an `auto` pitch alignment takes the
/// rotation alignment of the same kind of symbol part.
pub fn createLayout(unevaluated: &SymbolLayoutProperties_Unevaluated) -> (r:
    SymbolLayoutProperties_PossiblyEvaluated)
    ensures
        r == SymbolLayoutProperties_PossiblyEvaluated,
{
    let mut layout = unevaluated.evaluate();

    if layout.get::<IconRotationAlignment>() == AlignmentType::Auto {
        if layout.get::<SymbolPlacement>() != SymbolPlacementType::Point {
            layout.set::<IconRotationAlignment>(AlignmentType::MapAlign);
        } else {
            layout.set::<IconRotationAlignment>(AlignmentType::Viewport);
        }
    }
    if layout.get::<TextRotationAlignment>() == AlignmentType::Auto {
        if layout.get::<SymbolPlacement>() != SymbolPlacementType::Point {
            layout.set::<TextRotationAlignment>(AlignmentType::MapAlign);
        } else {
            layout.set::<TextRotationAlignment>(AlignmentType::Viewport);
        }
    }
    // An unspecified pitch alignment inherits the rotation alignment.
    if layout.get::<TextPitchAlignment>() == AlignmentType::Auto {
        let rotation = layout.get::<TextRotationAlignment>();
        layout.set::<TextPitchAlignment>(rotation);
    }
    if layout.get::<IconPitchAlignment>() == AlignmentType::Auto {
        let rotation = layout.get::<IconRotationAlignment>();
        layout.set::<IconPitchAlignment>(rotation);
    }
    layout
}

/// How a symbol layout orders its features: by their sort key (first component) and by their
/// position on the screen (second component).
///
/// Features are sorted by key when the z-order is not `viewport-y` and the layer has a sort key.
/// They are sorted by their screen position when the z-order asks for it (`viewport-y`, or `auto`
/// without sorting by key) and symbols may overlap or ignore placement.
pub fn feature_sort_flags(
    symbolZOrder: SymbolZOrderType,
    hasSymbolSortKey: bool,
    textAllowOverlap: bool,
    iconAllowOverlap: bool,
    textIgnorePlacement: bool,
    iconIgnorePlacement: bool,
) -> (r: (bool, bool))
    ensures
        r.0 == (symbolZOrder != SymbolZOrderType::ViewportY && hasSymbolSortKey),
        r.1 == ((symbolZOrder == SymbolZOrderType::ViewportY || (symbolZOrder
            == SymbolZOrderType::Auto && !r.0)) && (textAllowOverlap || iconAllowOverlap
            || textIgnorePlacement || iconIgnorePlacement)),
{
    let sortFeaturesByKey = symbolZOrder != SymbolZOrderType::ViewportY && hasSymbolSortKey;
    let zOrderByViewportY = symbolZOrder == SymbolZOrderType::ViewportY || (symbolZOrder
        == SymbolZOrderType::Auto && !sortFeaturesByKey);
    let sortFeaturesByY = zOrderByViewportY && (textAllowOverlap || iconAllowOverlap
        || textIgnorePlacement || iconIgnorePlacement);
    (sortFeaturesByKey, sortFeaturesByY)
}

/// The elements of `s`, each once, in the order in which they first occur.
pub open spec fn first_occurrences<A>(s: Seq<A>) -> Seq<A>
    decreases s.len(),
{
    if s.len() == 0 {
        Seq::empty()
    } else {
        let earlier = first_occurrences(s.drop_last());
        if earlier.contains(s.last()) {
            earlier
        } else {
            earlier.push(s.last())
        }
    }
}

/// Keeping the first occurrence of each element leaves no element twice and loses none.
pub proof fn lemma_first_occurrences<A>(s: Seq<A>)
    ensures
        first_occurrences(s).no_duplicates(),
        forall|x: A| #[trigger] first_occurrences(s).contains(x) <==> s.contains(x),
    decreases s.len(),
{
    if s.len() > 0 {
        let init = s.drop_last();
        let e = s.last();
        lemma_first_occurrences(init);
        let earlier = first_occurrences(init);
        assert forall|x: A| s.contains(x) <==> (init.contains(x) || x == e) by {
            if s.contains(x) {
                let k = choose|k: int| 0 <= k < s.len() && s[k] == x;
                if k < s.len() - 1 {
                    assert(init[k] == x);
                }
            }
            if init.contains(x) {
                let k = choose|k: int| 0 <= k < init.len() && init[k] == x;
                assert(s[k] == x);
            }
            if x == e {
                assert(s[s.len() - 1] == x);
            }
        }
        if !earlier.contains(e) {
            let pushed = earlier.push(e);
            assert forall|x: A| pushed.contains(x) <==> (earlier.contains(x) || x == e) by {
                if pushed.contains(x) {
                    let k = choose|k: int| 0 <= k < pushed.len() && pushed[k] == x;
                    if k < earlier.len() {
                        assert(earlier[k] == x);
                    }
                }
                if earlier.contains(x) {
                    let k = choose|k: int| 0 <= k < earlier.len() && earlier[k] == x;
                    assert(pushed[k] == x);
                }
                if x == e {
                    assert(pushed[earlier.len() as int] == x);
                }
            }
            assert forall|i: int, j: int| 0 <= i < pushed.len() && 0 <= j < pushed.len() && i
                != j implies pushed[i] != pushed[j] by {
                if i < earlier.len() && j < earlier.len() {
                    assert(earlier[i] != earlier[j]);
                } else if i < earlier.len() {
                    assert(earlier.contains(earlier[i]));
                } else {
                    assert(earlier.contains(earlier[j]));
                }
            }
        }
    }
}

/// The text writing modes of a point-placed layer without repetitions, in the order of their
/// first occurrence, and whether vertical placement is allowed (a mode is vertical).
pub fn unique_placement_modes(modes: &Vec<TextWritingModeType>) -> (r: (
    Vec<TextWritingModeType>,
    bool,
))
    ensures
        r.0@ == first_occurrences(modes@),
        r.0@.no_duplicates(),
        forall|m: TextWritingModeType| #[trigger] r.0@.contains(m) <==> modes@.contains(m),
        r.1 == modes@.contains(TextWritingModeType::Vertical),
{
    let mut placementModes: Vec<TextWritingModeType> = Vec::new();
    let mut allowVerticalPlacement = false;
    let mut i: usize = 0;
    while i < modes.len()
        invariant
            i <= modes.len(),
            placementModes@ == first_occurrences(modes@.take(i as int)),
            allowVerticalPlacement <==> exists|k: int|
                0 <= k < i && modes@[k] == TextWritingModeType::Vertical,
        decreases modes.len() - i,
    {
        let mode = modes[i];
        allowVerticalPlacement = allowVerticalPlacement || mode == TextWritingModeType::Vertical;
        let mut seen = false;
        let mut j: usize = 0;
        while j < placementModes.len()
            invariant
                j <= placementModes.len(),
                seen <==> exists|k: int| 0 <= k < j && placementModes@[k] == mode,
            decreases placementModes.len() - j,
        {
            if placementModes[j] == mode {
                seen = true;
            }
            j += 1;
        }
        proof {
            assert(modes@.take(i + 1).drop_last() =~= modes@.take(i as int));
            assert(modes@.take(i + 1).last() == mode);
        }
        if !seen {
            placementModes.push(mode);
        }
        i += 1;
    }
    proof {
        assert(modes@.take(modes.len() as int) =~= modes@);
        lemma_first_occurrences(modes@);
    }
    (placementModes, allowVerticalPlacement)
}

/// `str::to_uppercase`: the text in upper case, by Unicode's case mapping.
pub uninterp spec fn uppercase_of(text: Seq<char>) -> Seq<char>;

/// `str::to_lowercase`: the text in lower case, by Unicode's case mapping.
pub uninterp spec fn lowercase_of(text: Seq<char>) -> Seq<char>;

/// `str::to_uppercase`: the text in upper case (a function of the text alone).
#[verifier::external_body]
fn str_to_uppercase(text: &str) -> (r: String)
    ensures
        r@ == uppercase_of(text@),
{
    text.to_uppercase()
}

/// `str::to_lowercase`: the text in lower case (a function of the text alone).
#[verifier::external_body]
fn str_to_lowercase(text: &str) -> (r: String)
    ensures
        r@ == lowercase_of(text@),
{
    text.to_lowercase()
}

/// The glyph dependencies as plain values: each font stack's names with the code units that
/// are needed from it.
pub open spec fn glyph_deps_view(deps: Seq<(FontStack, BTreeSet<Char16>)>) -> Seq<(Seq<Seq<char>>, Set<Char16>)> {
    deps.map_values(|e: (FontStack, BTreeSet<Char16>)| (font_names(e.0@), e.1@))
}

/// The glyph dependencies have the form of an ordered map from font stacks to sets of code
/// units: the stacks strictly increase in the order of lists of names, and each entry holds at
/// least one code unit.
pub open spec fn glyph_deps_sorted(deps: Seq<(Seq<Seq<char>>, Set<Char16>)>) -> bool {
    &&& forall|i: int, j: int|
        0 <= i < j < deps.len() ==> names_before(#[trigger] deps[i].0, #[trigger] deps[j].0)
    &&& forall|i: int| 0 <= i < deps.len() ==> holds_a_unit((#[trigger] deps[i]).1)
}

/// The set holds at least one code unit.
pub open spec fn holds_a_unit(units: Set<Char16>) -> bool {
    exists|u: Char16| units.contains(u)
}

/// Code unit `unit` is recorded as needed from font stack `stack`.
pub open spec fn needs_glyph(
    deps: Seq<(Seq<Seq<char>>, Set<Char16>)>,
    stack: Seq<Seq<char>>,
    unit: Char16,
) -> bool {
    exists|i: int| 0 <= i < deps.len() && (#[trigger] deps[i]).0 == stack && deps[i].1.contains(unit)
}

/// The glyph dependencies `after` need what `before` needs and the code units `units` from font
/// stack `stack`, and nothing else.
pub open spec fn adds_glyphs(
    before: Seq<(Seq<Seq<char>>, Set<Char16>)>,
    after: Seq<(Seq<Seq<char>>, Set<Char16>)>,
    stack: Seq<Seq<char>>,
    units: Seq<Char16>,
) -> bool {
    forall|s: Seq<Seq<char>>, u: Char16|
        #![trigger needs_glyph(after, s, u)]
        #![trigger needs_glyph(before, s, u)]
        needs_glyph(after, s, u) <==> (needs_glyph(before, s, u) || (s == stack && units.contains(u)))
}

proof fn lemma_push_contains<A>(s: Seq<A>, x: A)
    ensures
        forall|y: A| s.push(x).contains(y) <==> (s.contains(y) || y == x),
{
    assert forall|y: A| s.push(x).contains(y) <==> (s.contains(y) || y == x) by {
        if s.push(x).contains(y) {
            let k = choose|k: int| 0 <= k < s.push(x).len() && s.push(x)[k] == y;
            if k < s.len() {
                assert(s[k] == y);
            }
        }
        if s.contains(y) {
            let k = choose|k: int| 0 <= k < s.len() && s[k] == y;
            assert(s.push(x)[k] == y);
        }
        if y == x {
            assert(s.push(x)[s.len() as int] == y);
        }
    }
}

/// Whether two font stacks hold the same names in the same order.
fn same_font_stack(a: &FontStack, b: &FontStack) -> (r: bool)
    ensures
        r == (font_names(a@) == font_names(b@)),
{
    if a.len() != b.len() {
        proof {
            assert(font_names(a@).len() != font_names(b@).len());
        }
        return false;
    }
    let mut i: usize = 0;
    while i < a.len()
        invariant
            i <= a@.len(),
            a@.len() == b@.len(),
            forall|k: int| 0 <= k < i ==> a@[k]@ == b@[k]@,
        decreases a@.len() - i,
    {
        if a[i] != b[i] {
            proof {
                assert(font_names(a@)[i as int] != font_names(b@)[i as int]);
            }
            return false;
        }
        i = i + 1;
    }
    proof {
        assert(font_names(a@) =~= font_names(b@));
    }
    true
}

/// A copy of a font stack.
fn copy_font_stack(s: &FontStack) -> (r: FontStack)
    ensures
        font_names(r@) == font_names(s@),
{
    let mut r: FontStack = Vec::new();
    let mut i: usize = 0;
    while i < s.len()
        invariant
            i <= s@.len(),
            font_names(r@) == font_names(s@).take(i as int),
        decreases s@.len() - i,
    {
        let name = s[i].clone();
        let ghost before = r@;
        assert(font_names(r@).len() == r@.len());
        r.push(name);
        proof {
            assert(r@ == before.push(name));
            assert(font_names(r@) =~= font_names(s@).take(i + 1));
        }
        i = i + 1;
    }
    proof {
        assert(font_names(s@).take(s@.len() as int) =~= font_names(s@));
    }
    r
}

/// Each entry of `a` is an entry of `b`, when both have the form of an ordered map and need the
/// same code units from the same font stacks.
proof fn lemma_entries_contained(
    a: Seq<(Seq<Seq<char>>, Set<Char16>)>,
    b: Seq<(Seq<Seq<char>>, Set<Char16>)>,
)
    requires
        glyph_deps_sorted(a),
        glyph_deps_sorted(b),
        forall|s: Seq<Seq<char>>, u: Char16| needs_glyph(a, s, u) <==> needs_glyph(b, s, u),
    ensures
        forall|e: (Seq<Seq<char>>, Set<Char16>)| a.contains(e) ==> b.contains(e),
{
    assert forall|e: (Seq<Seq<char>>, Set<Char16>)| a.contains(e) implies b.contains(e) by {
        let i = choose|i: int| 0 <= i < a.len() && a[i] == e;
        let u0 = choose|u: Char16| a[i].1.contains(u);
        assert(needs_glyph(a, e.0, u0));
        let j = choose|j: int| 0 <= j < b.len() && (#[trigger] b[j]).0 == e.0 && b[j].1.contains(u0);
        assert forall|u: Char16| e.1.contains(u) <==> b[j].1.contains(u) by {
            if e.1.contains(u) {
                assert(needs_glyph(a, e.0, u));
                let j2 = choose|j2: int| 0 <= j2 < b.len() && (#[trigger] b[j2]).0 == e.0 && b[j2].1.contains(u);
                if j2 != j {
                    lemma_names_order(e.0, e.0);
                    if j2 < j {
                        assert(names_before(b[j2].0, b[j].0));
                    } else {
                        assert(names_before(b[j].0, b[j2].0));
                    }
                }
            }
            if b[j].1.contains(u) {
                assert(needs_glyph(b, e.0, u));
                let i2 = choose|i2: int| 0 <= i2 < a.len() && (#[trigger] a[i2]).0 == e.0 && a[i2].1.contains(u);
                if i2 != i {
                    lemma_names_order(e.0, e.0);
                    if i2 < i {
                        assert(names_before(a[i2].0, a[i].0));
                    } else {
                        assert(names_before(a[i].0, a[i2].0));
                    }
                }
            }
        }
        assert(e.1 =~= b[j].1);
        assert(b[j] == e);
    }
}

/// Glyph dependencies in the form of an ordered map from font stacks to ordered sets of code
/// units are determined by what they need: two that need the same code units from the same
/// font stacks are equal.
pub proof fn law_glyph_deps_determined(
    a: Seq<(Seq<Seq<char>>, Set<Char16>)>,
    b: Seq<(Seq<Seq<char>>, Set<Char16>)>,
)
    requires
        glyph_deps_sorted(a),
        glyph_deps_sorted(b),
        forall|s: Seq<Seq<char>>, u: Char16| needs_glyph(a, s, u) <==> needs_glyph(b, s, u),
    ensures
        a == b,
{
    lemma_entries_contained(a, b);
    lemma_entries_contained(b, a);
    let lt = |x: (Seq<Seq<char>>, Set<Char16>), y: (Seq<Seq<char>>, Set<Char16>)| names_before(x.0, y.0);
    assert forall|x: (Seq<Seq<char>>, Set<Char16>)| !#[trigger] lt(x, x) by {
        lemma_names_order(x.0, x.0);
    }
    assert forall|x: (Seq<Seq<char>>, Set<Char16>), y: (Seq<Seq<char>>, Set<Char16>), z: (Seq<Seq<char>>, Set<Char16>)|
        #[trigger] lt(x, y) && #[trigger] lt(y, z) implies lt(x, z) by {
        lemma_names_transitive(x.0, y.0, z.0);
    }
    lemma_sorted_determined(a, b, lt);
}

/// Code units obey the laws of `Ord` that ordered sets rest on.
proof fn lemma_code_units_ordered()
    ensures
        vstd::laws_cmp::obeys_cmp::<Char16>(),
{
    broadcast use vstd::laws_cmp::group_laws_cmp;

}

/// Records that code unit `unit` is needed from font stack `stack`: the unit joins the set of
/// the stack's entry, or a new entry for the stack is put in its place in the order of font
/// stacks.
fn insert_glyph(deps: &mut Vec<(FontStack, BTreeSet<Char16>)>, stack: &FontStack, unit: Char16)
    requires
        glyph_deps_sorted(glyph_deps_view(old(deps)@)),
    ensures
        glyph_deps_sorted(glyph_deps_view(final(deps)@)),
        forall|s: Seq<Seq<char>>, u: Char16|
            needs_glyph(glyph_deps_view(final(deps)@), s, u) <==> (needs_glyph(
                glyph_deps_view(old(deps)@),
                s,
                u,
            ) || (s == font_names(stack@) && u == unit)),
{
    let ghost dv = glyph_deps_view(deps@);
    let ghost names = font_names(stack@);
    proof {
        assert(texts_of(stack@) =~= names);
    }
    let mut p: usize = 0;
    while p < deps.len() && names_less(&deps[p].0, stack)
        invariant
            p <= deps@.len(),
            deps@ == old(deps)@,
            dv == glyph_deps_view(deps@),
            names == font_names(stack@),
            texts_of(stack@) == names,
            forall|i: int| 0 <= i < p ==> names_before(#[trigger] dv[i].0, names),
        decreases deps@.len() - p,
    {
        proof {
            assert(texts_of(deps@[p as int].0@) =~= dv[p as int].0);
        }
        p = p + 1;
    }
    proof {
        if p < deps@.len() {
            assert(texts_of(deps@[p as int].0@) =~= dv[p as int].0);
            assert(!names_before(dv[p as int].0, names));
        }
    }
    if p < deps.len() && same_font_stack(&deps[p].0, stack) {
        let ghost old_units = deps@[p as int].1@;
        proof {
            assert(dv[p as int].0 == names);
            assert(dv[p as int].1 == old_units);
        }
        proof {
            lemma_code_units_ordered();
        }
        let entry = &mut deps[p];
        entry.1.insert(unit);
        proof {
            let w = glyph_deps_view(deps@);
            let nu = deps@[p as int].1@;
            assert(nu == old_units.insert(unit));
            assert(w =~= dv.update(p as int, (names, nu)));
            assert forall|i: int, j: int| 0 <= i < j < w.len() implies names_before(
                #[trigger] w[i].0,
                #[trigger] w[j].0,
            ) by {
                assert(w[i].0 == dv[i].0 && w[j].0 == dv[j].0);
            }
            assert forall|i: int| 0 <= i < w.len() implies holds_a_unit((#[trigger] w[i]).1) by {
                if i != p {
                    assert(w[i] == dv[i]);
                } else {
                    assert(w[i].1.contains(unit));
                }
            }
            assert forall|s: Seq<Seq<char>>, u: Char16| needs_glyph(w, s, u) <==> (needs_glyph(
                dv,
                s,
                u,
            ) || (s == names && u == unit)) by {
                if needs_glyph(w, s, u) {
                    let k = choose|k: int| 0 <= k < w.len() && (#[trigger] w[k]).0 == s && w[k].1.contains(u);
                    if k != p {
                        assert(dv[k] == w[k]);
                    } else if u != unit {
                        assert(old_units.contains(u));
                        assert(dv[k].0 == s && dv[k].1.contains(u));
                    }
                }
                if needs_glyph(dv, s, u) {
                    let k = choose|k: int| 0 <= k < dv.len() && (#[trigger] dv[k]).0 == s && dv[k].1.contains(u);
                    if k != p {
                        assert(dv[k] == w[k]);
                    } else {
                        assert(nu.contains(u));
                        assert(w[k].0 == s && w[k].1.contains(u));
                    }
                }
                if s == names && u == unit {
                    assert(nu.contains(u));
                    assert(w[p as int].0 == s && w[p as int].1.contains(u));
                }
            }
        }
    } else {
        proof {
            if p < dv.len() {
                assert(dv[p as int].0 != names);
                lemma_names_order(dv[p as int].0, names);
            }
        }
        let copy = copy_font_stack(stack);
        proof {
            lemma_code_units_ordered();
        }
        let mut units: BTreeSet<Char16> = BTreeSet::new();
        units.insert(unit);
        deps.insert(p, (copy, units));
        proof {
            let w = glyph_deps_view(deps@);
            assert(w =~= dv.insert(p as int, (names, Set::empty().insert(unit))));
            assert forall|i: int, j: int| 0 <= i < j < w.len() implies names_before(
                #[trigger] w[i].0,
                #[trigger] w[j].0,
            ) by {
                if j < p {
                    assert(w[i] == dv[i] && w[j] == dv[j]);
                } else if i > p {
                    assert(w[i] == dv[i - 1] && w[j] == dv[j - 1]);
                } else if j == p {
                    assert(w[i] == dv[i]);
                } else if i == p {
                    assert(w[j] == dv[j - 1]);
                    if j - 1 > p {
                        lemma_names_transitive(names, dv[p as int].0, dv[j - 1].0);
                    }
                } else {
                    assert(w[i] == dv[i] && w[j] == dv[j - 1]);
                    if j - 1 > p {
                        lemma_names_transitive(names, dv[p as int].0, dv[j - 1].0);
                    }
                    lemma_names_transitive(dv[i].0, names, dv[j - 1].0);
                }
            }
            assert forall|i: int| 0 <= i < w.len() implies holds_a_unit((#[trigger] w[i]).1) by {
                if i < p {
                    assert(w[i] == dv[i]);
                } else if i > p {
                    assert(w[i] == dv[i - 1]);
                } else {
                    assert(w[i].1.contains(unit));
                }
            }
            assert forall|s: Seq<Seq<char>>, u: Char16| needs_glyph(w, s, u) <==> (needs_glyph(
                dv,
                s,
                u,
            ) || (s == names && u == unit)) by {
                if needs_glyph(w, s, u) {
                    let k = choose|k: int| 0 <= k < w.len() && (#[trigger] w[k]).0 == s && w[k].1.contains(u);
                    if k < p {
                        assert(dv[k] == w[k]);
                    } else if k > p {
                        assert(dv[k - 1] == w[k]);
                    }
                }
                if needs_glyph(dv, s, u) {
                    let k = choose|k: int| 0 <= k < dv.len() && (#[trigger] dv[k]).0 == s && dv[k].1.contains(u);
                    if k < p {
                        assert(dv[k] == w[k]);
                    } else {
                        assert(dv[k] == w[k + 1]);
                    }
                }
                if s == names && u == unit {
                    assert(w[p as int].0 == s && w[p as int].1.contains(u));
                }
            }
        }
    }
}

/// The text in the given transform.
pub open spec fn transformed(text: Seq<char>, transform: TextTransformType) -> Seq<char> {
    match transform {
        TextTransformType::Uppercase => uppercase_of(text),
        TextTransformType::Lowercase => lowercase_of(text),
        TextTransformType::NoTransform => text,
    }
}

/// The code units of a feature's text: the text field evaluates to its default, one section of
/// text in the layer's font, which is transformed as the text transform asks.
pub open spec fn text_field_units() -> Seq<Char16> {
    utf16_of(transformed(TextField::default_spec()[0].0, TextTransform::default_spec()))
}

/// The formatted text of a feature, as the layout evaluates it: its sections are appended to an
/// empty tagged string (a text section in its font stack, or the layer's, once transformed and
/// shaped; an image section for an image, whose image is recorded as needed). Each code unit of
/// a text section is recorded as needed from that section's font stack.
fn formatted_text_of(
    layout: &SymbolLayoutProperties_PossiblyEvaluated,
    glyph_deps: &mut Vec<(FontStack, BTreeSet<Char16>)>,
    image_deps: &mut Vec<String>,
    allowVerticalPlacement: bool,
) -> (r: TaggedString<SectionOptions>)
    requires
        !allowVerticalPlacement,
        glyph_deps_sorted(glyph_deps_view(old(glyph_deps)@)),
    ensures
        u16_units(r.styledText.0) == text_field_units(),
        r.styledText.1@ == Seq::new(text_field_units().len(), |i: int| 0u8),
        r.sections@.len() == 1,
        font_names(r.sections@[0].fontStack@) == TextFont::default_spec(),
        r.sections@[0].imageID is None,
        glyph_deps_sorted(glyph_deps_view(final(glyph_deps)@)),
        adds_glyphs(
            glyph_deps_view(old(glyph_deps)@),
            glyph_deps_view(final(glyph_deps)@),
            TextFont::default_spec(),
            text_field_units(),
        ),
        final(image_deps)@ == old(image_deps)@,
{
    let formatted = layout.evaluate4::<TextField>();
    let textTransform = layout.evaluate::<TextTransform>();
    let baseFontStack = layout.evaluate::<TextFont>();
    proof {
        assert(font_names(baseFontStack@) =~= baseFontStack.deep_view());
        assert(formatted.deep_view() == TextField::default_spec());
        assert(formatted.sections.deep_view() == TextField::default_spec());
        assert(formatted.sections.deep_view().len() == 1);
        assert(formatted.sections@.len() == 1);
        assert(formatted.sections@[0].deep_view() == TextField::default_spec()[0]);
    }
    let mut text: TaggedString<SectionOptions> = TaggedString::new_empty();
    let mut k: usize = 0;
    while k < formatted.sections.len()
        invariant
            formatted.deep_view() == TextField::default_spec(),
            formatted.sections@.len() == 1,
            textTransform.deep_view() == TextTransform::default_spec(),
            font_names(baseFontStack@) == TextFont::default_spec(),
            k <= 1,
            k == 0 ==> u16_units(text.styledText.0).len() == 0 && text.styledText.1@.len() == 0
                && text.sections@.len() == 0 && text.imageSectionID == 0,
            k == 1 ==> {
                &&& u16_units(text.styledText.0) == text_field_units()
                &&& text.styledText.1@ == Seq::new(text_field_units().len(), |i: int| 0u8)
                &&& text.sections@.len() == 1
                &&& font_names(text.sections@[0].fontStack@) == TextFont::default_spec()
                &&& text.sections@[0].imageID is None
            },
            image_deps@ == old(image_deps)@,
            glyph_deps@ == old(glyph_deps)@,
        decreases formatted.sections@.len() - k,
    {
        let section = &formatted.sections[k];
        proof {
            assert(section.deep_view() == TextField::default_spec()[0]);
        }
        match &section.image {
            Some(image) => {
                insert_text(image_deps, &image.imageID);
                text.addImageSection(SectionOptions::from_image_id(image.imageID.clone()));
            },
            None => {
                let mut u8string = section.text.clone();
                if textTransform == TextTransformType::Uppercase {
                    u8string = str_to_uppercase(u8string.as_str());
                } else if textTransform == TextTransformType::Lowercase {
                    u8string = str_to_lowercase(u8string.as_str());
                }
                let units = applyArabicShaping(&u16string_from_vec(encode_utf16(u8string.as_str())));
                let fontStack = match &section.fontStack {
                    Some(fs) => copy_font_stack(fs),
                    None => copy_font_stack(&baseFontStack),
                };
                proof {
                    assert(u16_units(units) == text_field_units());
                }
                let ghost old_styles = text.styledText.1@;
                text.addTextSection(&units, SectionOptions::new(fontStack));
                proof {
                    assert(old_styles =~= Seq::<u8>::empty());
                    assert(u16_units(text.styledText.0) =~= u16_units(units));
                    assert(text.styledText.1@ =~= Seq::new(text_field_units().len(), |i: int| 0u8));
                }
            },
        }
        k = k + 1;
    }
    // A text can be verticalized only where it is rotated with the map and placed along lines;
    // the evaluated rotation alignment is `auto` and vertical placement is not allowed, so no
    // vertical punctuation is ever needed.
    let rotatedWithMap = layout.get::<TextRotationAlignment>() == AlignmentType::MapAlign;
    proof {
        assert(!rotatedWithMap);
    }
    let ghost start = glyph_deps_view(glyph_deps@);
    let mut j: usize = 0;
    while j < text.length()
        invariant
            formatted.deep_view() == TextField::default_spec(),
            formatted.sections@.len() == 1,
            font_names(baseFontStack@) == TextFont::default_spec(),
            u16_units(text.styledText.0) == text_field_units(),
            text.styledText.1@ == Seq::new(text_field_units().len(), |i: int| 0u8),
            j <= u16_units(text.styledText.0).len(),
            start == glyph_deps_view(old(glyph_deps)@),
            glyph_deps_sorted(glyph_deps_view(glyph_deps@)),
            adds_glyphs(
                start,
                glyph_deps_view(glyph_deps@),
                TextFont::default_spec(),
                u16_units(text.styledText.0).take(j as int),
            ),
            image_deps@ == old(image_deps)@,
        decreases u16_units(text.styledText.0).len() - j,
    {
        let index = text.getSectionIndex(j) as usize;
        let section = &formatted.sections[index];
        proof {
            assert(section.deep_view() == TextField::default_spec()[0]);
        }
        if section.image.is_none() {
            let stack: &FontStack = match &section.fontStack {
                Some(fs) => fs,
                None => &baseFontStack,
            };
            let codePoint = text.getCharCodeAt(j);
            insert_glyph(glyph_deps, stack, codePoint);
            proof {
                let units = u16_units(text.styledText.0);
                assert(font_names(stack@) == TextFont::default_spec());
                assert(units.take(j + 1) =~= units.take(j as int).push(codePoint));
                lemma_push_contains(units.take(j as int), codePoint);
                assert(adds_glyphs(
                    start,
                    glyph_deps_view(glyph_deps@),
                    TextFont::default_spec(),
                    units.take(j + 1),
                ));
            }
        }
        j = j + 1;
    }
    proof {
        assert(u16_units(text.styledText.0).take(j as int) =~= u16_units(text.styledText.0));

    }
    text
}

/// The layer has text: its layout holds a text field and a text font.
pub open spec fn has_text(layout: SymbolLayoutProperties_PossiblyEvaluated) -> bool {
    TextField::held_spec() && TextFont::held_spec()
}

/// The layer has icons: its layout holds an icon image.
pub open spec fn has_icon(layout: SymbolLayoutProperties_PossiblyEvaluated) -> bool {
    IconImage::held_spec()
}

/// The ids of the layers.
pub open spec fn layer_ids(layers: Seq<LayerProperties>) -> Seq<Seq<char>> {
    layers.map_values(|l: LayerProperties| l.id@)
}

/// Feature `f`, the layer's feature at `index`, as layout leaves it: with its index, its text
/// when the layer has text and its icon when the layer has icons.
pub open spec fn laid_out(
    ft: SymbolGeometryTileFeature,
    f: SymbolGeometryTileFeature,
    index: int,
    layout: SymbolLayoutProperties_PossiblyEvaluated,
) -> bool {
    &&& ft.index == index
    &&& geometry_view(ft.geometry) == geometry_view(f.geometry)
    &&& has_text(layout) ==> (ft.formattedText matches Some(t) && u16_units(t.styledText.0) == text_field_units()
        && t.styledText.1@ == Seq::new(text_field_units().len(), |i: int| 0u8) && t.sections@.len()
        == 1 && font_names(t.sections@[0].fontStack@) == TextFont::default_spec())
    &&& !has_text(layout) ==> ft.formattedText == f.formattedText
    &&& has_icon(layout) ==> (ft.icon matches Some(icon) && icon.deep_view()
        == IconImage::default_spec())
    &&& !has_icon(layout) ==> ft.icon == f.icon
}

/// What laying out a symbol layer keeps: the id of its leading layer, the properties of its
/// layers by id, how its features are ordered, its placement modes and its features.
pub struct SymbolLayoutData {
    pub bucketLeaderID: String,
    pub layerPaintProperties: Vec<LayerProperties>,
    pub sortFeaturesByKey: bool,
    pub sortFeaturesByY: bool,
    pub allowVerticalPlacement: bool,
    pub placementModes: Vec<TextWritingModeType>,
    pub features: Vec<SymbolGeometryTileFeature>,
}

/// Lays out the features of a symbol layer, the part of creating a symbol layout that does not
/// depend on the tile's size: whether the layer has text or icons at all, the layers' properties
/// by id, the order of features, the placement modes, and for each feature its formatted text
/// and icon. The glyphs and images that the features need are added to `glyph_deps` and
/// `image_deps`, which are kept as ordered maps and sets: font stacks and image ids in the order
/// of `key_order`, each stack with its set of code units; the layers' properties come in the
/// order of their ids, one per id. A layer with neither text nor icons has no layout.
///
/// Features are sorted by key when the z-order asks for it; every feature's sort key is the
/// property's default, so each one goes before those laid out earlier, as a lower bound of equal
/// keys puts it.
pub fn symbol_layout_features(
    layers: &Vec<LayerProperties>,
    features: Vec<SymbolGeometryTileFeature>,
    layout: &SymbolLayoutProperties_PossiblyEvaluated,
    glyph_deps: &mut Vec<(FontStack, BTreeSet<Char16>)>,
    image_deps: &mut Vec<String>,
) -> (r: Option<SymbolLayoutData>)
    requires
        layers@.len() > 0,
        glyph_deps_sorted(glyph_deps_view(old(glyph_deps)@)),
        texts_sorted(texts_of(old(image_deps)@)),
    ensures
        r is None <==> !(has_text(*layout) || has_icon(*layout)),
        r is None ==> final(glyph_deps)@ == old(glyph_deps)@ && final(image_deps)@ == old(
            image_deps,
        )@,
        r matches Some(l) ==> {
            let n = features@.len();
            &&& l.bucketLeaderID@ == layers@[0].id@
            &&& texts_sorted(layer_ids(l.layerPaintProperties@))
            &&& forall|t: Seq<char>|
                layer_ids(l.layerPaintProperties@).contains(t) <==> layer_ids(layers@).contains(t)
            &&& l.sortFeaturesByKey == (SymbolZOrder::default_spec() != SymbolZOrderType::ViewportY)
            &&& l.sortFeaturesByY == ((SymbolZOrder::default_spec() == SymbolZOrderType::ViewportY
                || (SymbolZOrder::default_spec() == SymbolZOrderType::Auto && !l.sortFeaturesByKey))
                && (TextAllowOverlap::default_spec() || IconAllowOverlap::default_spec()
                || TextIgnorePlacement::default_spec() || IconIgnorePlacement::default_spec()))
            &&& l.placementModes@ == (if SymbolPlacement::default_spec() == SymbolPlacementType::Point {
                first_occurrences(TextWritingMode::default_spec())
            } else {
                Seq::empty()
            })
            &&& l.allowVerticalPlacement == (SymbolPlacement::default_spec()
                == SymbolPlacementType::Point && TextWritingMode::default_spec().contains(
                TextWritingModeType::Vertical,
            ))
            &&& l.features@.len() == n
            &&& forall|k: int|
                0 <= k < n ==> {
                    let index = if l.sortFeaturesByKey {
                        n - 1 - k
                    } else {
                        k
                    };
                    laid_out(#[trigger] l.features@[k], features@[index], index, *layout)
                }
            &&& glyph_deps_sorted(glyph_deps_view(final(glyph_deps)@))
            &&& adds_glyphs(
                glyph_deps_view(old(glyph_deps)@),
                glyph_deps_view(final(glyph_deps)@),
                TextFont::default_spec(),
                if has_text(*layout) && n > 0 {
                    text_field_units()
                } else {
                    Seq::empty()
                },
            )
            &&& texts_sorted(texts_of(final(image_deps)@))
            &&& forall|t: Seq<char>|
                texts_of(final(image_deps)@).contains(t) <==> (texts_of(old(image_deps)@).contains(t)
                    || (has_icon(*layout) && n > 0 && t == IconImage::default_spec().0))
        },
{
    let hasText = layout.has::<TextField>() && layout.has::<TextFont>();
    let hasIcon = layout.has::<IconImage>();
    if !hasText && !hasIcon {
        return None;
    }
    let bucketLeaderID = layers[0].id.clone();

    // The leader's sort key, as a property value: it is never undefined.
    let sortKey: PropertyValue<SymbolSortKey> = PropertyValue::new();
    let hasSymbolSortKey = !sortKey.isUndefined();
    let symbolZOrder = layout.get::<SymbolZOrder>();
    let (sortFeaturesByKey, sortFeaturesByY) = feature_sort_flags(
        symbolZOrder,
        hasSymbolSortKey,
        layout.get::<TextAllowOverlap>(),
        layout.get::<IconAllowOverlap>(),
        layout.get::<TextIgnorePlacement>(),
        layout.get::<IconIgnorePlacement>(),
    );
    let mut placementModes: Vec<TextWritingModeType> = Vec::new();
    let mut allowVerticalPlacement = false;
    if layout.get::<SymbolPlacement>() == SymbolPlacementType::Point {
        let modes = layout.get::<TextWritingMode>();
        proof {
            assert(modes@ =~= modes.deep_view());
        }
        let (unique, vertical) = unique_placement_modes(&modes);
        placementModes = unique;
        allowVerticalPlacement = vertical;
    }

    // The layers' properties by id, in the order of ids; a later layer with an id already seen
    // stands for it.
    let ghost ids = layer_ids(layers@);
    let mut sortedIds: Vec<String> = Vec::new();
    let mut i: usize = 0;
    while i < layers.len()
        invariant
            i <= layers@.len(),
            ids == layer_ids(layers@),
            texts_sorted(texts_of(sortedIds@)),
            forall|t: Seq<char>| texts_of(sortedIds@).contains(t) <==> ids.take(i as int).contains(t),
        decreases layers@.len() - i,
    {
        insert_text(&mut sortedIds, &layers[i].id);
        proof {
            assert(ids.take(i + 1) =~= ids.take(i as int).push(layers@[i as int].id@));
            lemma_push_contains(ids.take(i as int), layers@[i as int].id@);
        }
        i = i + 1;
    }
    proof {
        assert(ids.take(layers@.len() as int) =~= ids);
    }
    let mut layerPaintProperties: Vec<LayerProperties> = Vec::new();
    let mut k: usize = 0;
    while k < sortedIds.len()
        invariant
            k <= sortedIds@.len(),
            layer_ids(layerPaintProperties@) == texts_of(sortedIds@).take(k as int),
        decreases sortedIds@.len() - k,
    {
        let id = sortedIds[k].clone();
        let ghost before = layerPaintProperties@;
        layerPaintProperties.push(
            LayerProperties { id, layer: SymbolLayer { layout: SymbolLayoutProperties_Unevaluated } },
        );
        proof {
            assert(layer_ids(layerPaintProperties@) =~= layer_ids(before).push(sortedIds@[k as int]@));
            assert(texts_of(sortedIds@).take(k + 1) =~= texts_of(sortedIds@).take(k as int).push(
                sortedIds@[k as int]@,
            ));
        }
        k = k + 1;
    }
    proof {
        assert(texts_of(sortedIds@).take(sortedIds@.len() as int) =~= texts_of(sortedIds@));
    }

    let ghost input = features@;
    let ghost glyphs_before = glyph_deps_view(glyph_deps@);
    let ghost images_before = texts_of(image_deps@);
    let n = features.len();
    let mut laidOut: Vec<SymbolGeometryTileFeature> = Vec::new();
    let mut k: usize = 0;
    for f in it: features.into_iter()
        invariant
            it.seq() == input,
            n == input.len(),
            k == it.index(),
            hasText == has_text(*layout),
            hasIcon == has_icon(*layout),
            !allowVerticalPlacement,
            laidOut@.len() == it.index(),
            forall|m: int|
                0 <= m < it.index() ==> {
                    let index = if sortFeaturesByKey {
                        it.index() - 1 - m
                    } else {
                        m
                    };
                    laid_out(#[trigger] laidOut@[m], input[index], index, *layout)
                },
            glyph_deps_sorted(glyph_deps_view(glyph_deps@)),
            adds_glyphs(
                glyphs_before,
                glyph_deps_view(glyph_deps@),
                TextFont::default_spec(),
                if hasText && it.index() > 0 {
                    text_field_units()
                } else {
                    Seq::empty()
                },
            ),
            texts_sorted(texts_of(image_deps@)),
            forall|t: Seq<char>|
                texts_of(image_deps@).contains(t) <==> (images_before.contains(t) || (hasIcon
                    && it.index() > 0 && t == IconImage::default_spec().0)),
    {
        let ghost idx = it.index() as int;
        let mut ft = f;
        ft.index = k;
        if hasText {
            let text = formatted_text_of(layout, glyph_deps, image_deps, allowVerticalPlacement);
            ft.formattedText = Some(text);
        }
        if hasIcon {
            let icon = layout.evaluate4::<IconImage>();
            insert_text(image_deps, &icon.imageID);
            ft.icon = Some(icon);
        }
        proof {
            assert(laid_out(ft, input[idx], idx, *layout));
        }
        if sortFeaturesByKey {
            laidOut.insert(0, ft);
        } else {
            laidOut.push(ft);
        }
        k = k + 1;
    }
    Some(
        SymbolLayoutData {
            bucketLeaderID,
            layerPaintProperties,
            sortFeaturesByKey,
            sortFeaturesByY,
            allowVerticalPlacement,
            placementModes,
            features: laidOut,
        },
    )
}

} // verus!
