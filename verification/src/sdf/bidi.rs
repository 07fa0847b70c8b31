//! Bidirectional text: line breaking of logically ordered text.
use vstd::prelude::*;
use std::collections::BTreeSet;
use vstd::std_specs::iter::IteratorSpec;
use crate::sdf::u16_string::{u16_units, u16string_as_vec, u16string_from_vec};

verus! {

broadcast use vstd::std_specs::btree::group_btree_axioms;

pub type Char16 = u16;

/// Text paired with one style number per code unit.
pub type StyledText = (widestring::U16String, Vec<u8>);

/// `points` lists the elements of `set` in strictly increasing order.
pub open spec fn sorted_elements(points: Seq<usize>, set: Set<usize>) -> bool {
    &&& points.to_set() == set
    &&& forall|i: int, j: int| 0 <= i < j < points.len() ==> points[i] < points[j]
}

/// Where line `k` starts: at the previous break point, or at 0 for the first line.
pub open spec fn line_start(points: Seq<usize>, k: int) -> int {
    if k == 0 {
        0
    } else {
        points[k - 1] as int
    }
}

/// The pieces of `s` between consecutive break points (the first piece starts at 0).
pub open spec fn split_at_points<A>(s: Seq<A>, points: Seq<usize>) -> Seq<Seq<A>> {
    Seq::new(points.len(), |k: int| s.subrange(line_start(points, k), points[k] as int))
}

/// The break points, in order, that do not exceed `bound`.
pub open spec fn points_upto(points: Seq<usize>, bound: int) -> Seq<usize>
    decreases points.len(),
{
    if points.len() == 0 {
        Seq::empty()
    } else {
        let k = points_upto(points.drop_last(), bound);
        if points.last() <= bound {
            k.push(points.last())
        } else {
            k
        }
    }
}

/// The keys of a set of `usize`, as its iterator yields them, increase strictly and are the
/// set's elements.
proof fn lemma_keys_increasing(m: &BTreeSet<usize>)
    ensures
        ({
            let points = vstd::std_specs::btree::spec_btree_keys_iter(m).remaining().unref();
            &&& points.to_set() == m@
            &&& forall|i: int, j: int| 0 <= i < j < points.len() ==> points[i] < points[j]
        }),
{
    broadcast use vstd::laws_cmp::group_laws_cmp;

    let rem = vstd::std_specs::btree::spec_btree_keys_iter(m).remaining();
    let points = rem.unref();
    vstd::std_specs::btree::axiom_spec_btree_keys_iter(m);
    vstd::std_specs::btree::axiom_increasing_seq_meaning(rem);
    assert forall|i: int, j: int| 0 <= i < j < points.len() implies points[i] < points[j] by {
        assert(vstd::std_specs::cmp::OrdSpec::cmp_spec(&rem[i], &rem[j]) is Less);
    }
}

/// The first `k` pieces of a split, joined, are the text up to the start of piece `k`.
proof fn lemma_pieces_join<A>(s: Seq<A>, points: Seq<usize>, k: int)
    requires
        0 <= k <= points.len(),
        forall|i: int, j: int| 0 <= i < j < points.len() ==> points[i] < points[j],
        forall|i: int| 0 <= i < points.len() ==> points[i] <= s.len(),
    ensures
        split_at_points(s, points).take(k).flatten_alt() == s.subrange(0, line_start(points, k)),
    decreases k,
{
    let pieces = split_at_points(s, points);
    if k == 0 {
        assert(pieces.take(0) =~= Seq::<Seq<A>>::empty());
        assert(s.subrange(0, 0) =~= Seq::<A>::empty());
    } else {
        lemma_pieces_join(s, points, k - 1);
        assert(pieces.take(k).drop_last() =~= pieces.take(k - 1));
        assert(pieces.take(k).last() == pieces[k - 1]);
        if k > 1 {
            assert(points[k - 2] < points[k - 1]);
        }
        assert(s.subrange(0, line_start(points, k - 1)) + s.subrange(
            line_start(points, k - 1),
            points[k - 1] as int,
        ) =~= s.subrange(0, points[k - 1] as int));
    }
}

/// Splitting a text at its break points and at its end loses nothing and repeats nothing:
/// the lines, joined in order, give the text back.
pub proof fn law_lines_join_to_text<A>(s: Seq<A>, breaks: Set<usize>, points: Seq<usize>)
    requires
        s.len() <= usize::MAX,
        forall|p: usize| breaks.contains(p) ==> p <= s.len(),
        sorted_elements(points, breaks.insert(s.len() as usize)),
    ensures
        split_at_points(s, points).flatten() == s,
{
    let n = s.len() as usize;
    assert(points.to_set().contains(n));
    let i = choose|i: int| 0 <= i < points.len() && points[i] == n;
    assert forall|j: int| 0 <= j < points.len() implies points[j] <= s.len() by {
        assert(points.to_set().contains(points[j]));
    }
    if i < points.len() - 1 {
        assert(points[i] < points[points.len() - 1]);
    }
    lemma_pieces_join(s, points, points.len() as int);
    let pieces = split_at_points(s, points);
    assert(pieces.take(points.len() as int) =~= pieces);
    pieces.lemma_flatten_and_flatten_alt_are_equivalent();
    assert(s.subrange(0, s.len() as int) =~= s);
}

/// A copy of `v[start..end]`.
pub(crate) fn copy_range<T: Copy>(v: &Vec<T>, start: usize, end: usize) -> (r: Vec<T>)
    requires
        start <= end <= v@.len(),
    ensures
        r@ == v@.subrange(start as int, end as int),
{
    let mut r: Vec<T> = Vec::new();
    let mut i: usize = start;
    while i < end
        invariant
            start <= i <= end <= v@.len(),
            r@ == v@.subrange(start as int, i as int),
        decreases end - i,
    {
        r.push(v[i]);
        proof {
            assert(r@ =~= v@.subrange(start as int, i + 1));
        }
        i = i + 1;
    }
    r
}

/// The UTF-16 code units of one character: itself below `0x10000`, a surrogate pair above.
pub open spec fn char_utf16(c: char) -> Seq<Char16> {
    let v = c as u32;
    if v < 0x10000 {
        seq![v as u16]
    } else {
        let w = v - 0x10000;
        seq![(0xD800 + w / 0x400) as u16, (0xDC00 + w % 0x400) as u16]
    }
}

/// The UTF-16 code units of a text.
pub open spec fn utf16_of(s: Seq<char>) -> Seq<Char16>
    decreases s.len(),
{
    if s.len() == 0 {
        Seq::empty()
    } else {
        utf16_of(s.drop_last()) + char_utf16(s.last())
    }
}

/// The text as UTF-16 code units.
pub fn encode_utf16(s: &str) -> (r: Vec<Char16>)
    ensures
        r@ == utf16_of(s@),
{
    let mut r: Vec<Char16> = Vec::new();
    for c in it: s.chars()
        invariant
            it.seq() == s@,
            r@ == utf16_of(s@.take(it.index() as int)),
    {
        let ghost k = it.index() as int;
        proof {
            assert(s@.take(k + 1).drop_last() =~= s@.take(k));
            assert(s@.take(k + 1).last() == c);
        }
        let v: u32 = c as u32;
        if v < 0x10000 {
            r.push(v as u16);
        } else {
            let w: u32 = v - 0x10000;
            r.push((0xD800 + w / 0x400) as u16);
            r.push((0xDC00 + w % 0x400) as u16);
        }
        proof {
            assert(r@ =~= utf16_of(s@.take(k + 1)));
        }
    }
    proof {
        assert(s@.take(s@.len() as int) =~= s@);
    }
    r
}

/// Arabic shaping of the text: without shaping support the text is returned as it is.
pub fn applyArabicShaping(text: &widestring::U16String) -> (r: widestring::U16String)
    ensures
        u16_units(r) == u16_units(*text),
{
    let units = u16string_as_vec(text);
    let copy = copy_range(units, 0, units.len());
    proof {
        assert(copy@ =~= units@);
    }
    u16string_from_vec(copy)
}

/// Bidirectional text processing (without ICU support: lines keep logical order).
pub struct BiDi;

impl BiDi {
    /// Splits `input` at the given break points and at its end, in increasing order: line `k`
    /// runs from the previous break point (or the start) to the `k`-th one.
    ///
    /// The text is cut at each break point, so none may lie beyond its end.
    pub fn processText(&self, input: &widestring::U16String, lineBreakPoints: BTreeSet<usize>) -> (r: Vec<
        widestring::U16String,
    >)
        requires
            forall|p: usize| lineBreakPoints@.contains(p) ==> p <= u16_units(*input).len(),
        ensures
            exists|points: Seq<usize>|
                {
                    &&& sorted_elements(points, lineBreakPoints@.insert(u16_units(*input).len() as usize))
                    &&& r@.map_values(|l: widestring::U16String| u16_units(l)) == split_at_points(u16_units(*input), points)
                },
    {
        let mut lineBreakPoints = lineBreakPoints;
        let units = u16string_as_vec(input);
        let n = units.len();
        lineBreakPoints.insert(n);
        let ghost all = lineBreakPoints@;
        let ghost points = vstd::std_specs::btree::spec_btree_keys_iter(&lineBreakPoints).remaining().unref();
        proof {
            lemma_keys_increasing(&lineBreakPoints);
        }
        let mut transformedLines: Vec<widestring::U16String> = Vec::new();
        let mut start: usize = 0;
        for lineBreakPoint in it: lineBreakPoints.iter()
            invariant
                n == units@.len(),
                units@ == u16_units(*input),
                all == lineBreakPoints@,
                points == it.seq().unref(),
                points.to_set() == all,
                forall|i: int, j: int| 0 <= i < j < points.len() ==> points[i] < points[j],
                forall|p: usize| all.contains(p) ==> p <= n,
                transformedLines@.len() == it.index(),
                start == line_start(points, it.index() as int),
                forall|k: int|
                    0 <= k < it.index() ==> u16_units(#[trigger] transformedLines@[k]) == units@.subrange(
                        line_start(points, k),
                        points[k] as int,
                    ),
        {
            let bp: usize = *lineBreakPoint;
            proof {
                assert(points[it.index() as int] == bp);
                assert(points.to_set().contains(bp));
                if it.index() > 0 {
                    assert(points[it.index() - 1] < points[it.index() as int]);
                }
            }
            transformedLines.push(u16string_from_vec(copy_range(units, start, bp)));
            start = bp;
        }
        proof {
            let res = transformedLines@.map_values(|l: widestring::U16String| u16_units(l));
            assert(res =~= split_at_points(u16_units(*input), points));
            assert(sorted_elements(points, all));
        }
        transformedLines
    }
    /// Like `processText`, keeping the style numbers of each piece. Break points beyond the end
    /// of the styles, the end of the text among them, are skipped: no line ends there, and the
    /// text after the last point that is kept is not returned.
    ///
    /// Every kept break point must lie within the text, since both are cut there.
    pub fn processStyledText(&self, input: &StyledText, lineBreakPoints: BTreeSet<usize>) -> (r: Vec<
        StyledText,
    >)
        requires
            forall|p: usize|
                lineBreakPoints@.contains(p) && p <= input.1@.len() ==> p <= u16_units(input.0).len(),
        ensures
            exists|points: Seq<usize>|
                {
                    &&& sorted_elements(points, lineBreakPoints@.insert(u16_units(input.0).len() as usize))
                    &&& r@.map_values(|l: StyledText| u16_units(l.0)) == split_at_points(
                        u16_units(input.0),
                        points_upto(points, input.1@.len() as int),
                    )
                    &&& r@.map_values(|l: StyledText| l.1@) == split_at_points(
                        input.1@,
                        points_upto(points, input.1@.len() as int),
                    )
                },
    {
        let mut lineBreakPoints = lineBreakPoints;
        let text = u16string_as_vec(&input.0);
        let n = text.len();
        let m = input.1.len();
        lineBreakPoints.insert(n);
        let ghost all = lineBreakPoints@;
        let ghost points = vstd::std_specs::btree::spec_btree_keys_iter(&lineBreakPoints).remaining().unref();
        proof {
            lemma_keys_increasing(&lineBreakPoints);
        }
        let mut transformedLines: Vec<StyledText> = Vec::new();
        let mut start: usize = 0;
        let ghost mut kept: Seq<usize> = Seq::empty();
        for lineBreakPoint in it: lineBreakPoints.iter()
            invariant
                n == u16_units(input.0).len(),
                text@ == u16_units(input.0),
                m == input.1@.len(),
                all == lineBreakPoints@,
                points == it.seq().unref(),
                points.to_set() == all,
                forall|i: int, j: int| 0 <= i < j < points.len() ==> points[i] < points[j],
                forall|p: usize| all.contains(p) && p <= m ==> p <= n,
                kept == points_upto(points.subrange(0, it.index() as int), m as int),
                forall|i: int| 0 <= i < kept.len() ==> kept[i] <= m,
                kept.len() > 0 ==> exists|j: int| 0 <= j < it.index() && points[j] == kept.last(),
                forall|i: int, j: int| 0 <= i < j < kept.len() ==> kept[i] < kept[j],
                transformedLines@.len() == kept.len(),
                start == line_start(kept, kept.len() as int),
                forall|k: int|
                    0 <= k < kept.len() ==> u16_units((#[trigger] transformedLines@[k]).0) == u16_units(input.0).subrange(
                        line_start(kept, k),
                        kept[k] as int,
                    ) && transformedLines@[k].1@ == input.1@.subrange(
                        line_start(kept, k),
                        kept[k] as int,
                    ),
        {
            let bp: usize = *lineBreakPoint;
            let ghost idx = it.index() as int;
            proof {
                assert(points[idx] == bp);
                assert(points.to_set().contains(bp));
                assert(points.subrange(0, idx + 1).drop_last() =~= points.subrange(0, idx));
                assert(points.subrange(0, idx + 1).last() == bp);
                if kept.len() > 0 {
                    let j = choose|j: int| 0 <= j < idx && points[j] == kept.last();
                    assert(points[j] < points[idx]);
                }
            }
            if bp <= m {
                proof {
                    let old_kept = kept;
                    kept = kept.push(bp);
                    assert forall|i: int, j: int| 0 <= i < j < kept.len() implies kept[i] < kept[j] by {
                        if j == kept.len() - 1 && i < j {
                            if i < old_kept.len() - 1 {
                                assert(old_kept[i] < old_kept.last());
                            }
                        }
                    }
                    assert(points[idx] == kept.last());
                }
                transformedLines.push((u16string_from_vec(copy_range(text, start, bp)), copy_range(&input.1, start, bp)));
                start = bp;
            }
        }
        proof {
            assert(points.subrange(0, points.len() as int) =~= points);
            let kp = points_upto(points, m as int);
            assert(kept == kp);
            assert(transformedLines@.map_values(|l: StyledText| u16_units(l.0)) =~= split_at_points(u16_units(input.0), kp));
            assert(transformedLines@.map_values(|l: StyledText| l.1@) =~= split_at_points(input.1@, kp));
            assert(sorted_elements(points, all));
        }
        transformedLines
    }
}

} // verus!
