//! The order of `String` keys and of font stacks (lists of names) in ordered maps and sets:
//! texts compare code point by code point, a proper prefix first; lists compare element by
//! element, a proper prefix first.
use vstd::prelude::*;

verus! {

/// Text `a` comes before text `b`: at the first position where they differ the code point of
/// `a` is smaller, or `a` is a proper prefix of `b`.
pub open spec fn text_before(a: Seq<char>, b: Seq<char>) -> bool
    decreases a.len(),
{
    if b.len() == 0 {
        false
    } else if a.len() == 0 {
        true
    } else if a[0] != b[0] {
        (a[0] as u32) < (b[0] as u32)
    } else {
        text_before(a.drop_first(), b.drop_first())
    }
}

/// List of names `a` comes before list `b`: at the first position where they differ the name
/// of `a` comes first, or `a` is a proper prefix of `b`.
pub open spec fn names_before(a: Seq<Seq<char>>, b: Seq<Seq<char>>) -> bool
    decreases a.len(),
{
    if b.len() == 0 {
        false
    } else if a.len() == 0 {
        true
    } else if a[0] != b[0] {
        text_before(a[0], b[0])
    } else {
        names_before(a.drop_first(), b.drop_first())
    }
}

/// No text comes before itself, of two different texts one comes before the other, and never
/// both.
pub proof fn lemma_text_order(a: Seq<char>, b: Seq<char>)
    ensures
        !text_before(a, a),
        a != b ==> text_before(a, b) || text_before(b, a),
        !(text_before(a, b) && text_before(b, a)),
    decreases a.len(),
{
    if a.len() > 0 {
        lemma_text_order(a.drop_first(), a.drop_first());
    }
    if a.len() == 0 && b.len() == 0 {
        assert(a =~= b);
    }
    if a.len() > 0 && b.len() > 0 && a[0] != b[0] {
        // Code points of different characters differ.
        vstd::utf8::char_u32_cast(a[0], a[0] as u32);
        vstd::utf8::char_u32_cast(b[0], b[0] as u32);
    }
    if a.len() > 0 && b.len() > 0 && a[0] == b[0] {
        lemma_text_order(a.drop_first(), b.drop_first());
        if a.drop_first() == b.drop_first() {
            assert(a =~= seq![a[0]] + a.drop_first());
            assert(b =~= seq![b[0]] + b.drop_first());
        }
    }
}

/// The order of texts is transitive.
pub proof fn lemma_text_transitive(a: Seq<char>, b: Seq<char>, c: Seq<char>)
    requires
        text_before(a, b),
        text_before(b, c),
    ensures
        text_before(a, c),
    decreases a.len(),
{
    if a.len() > 0 && a[0] == b[0] && b[0] == c[0] {
        lemma_text_transitive(a.drop_first(), b.drop_first(), c.drop_first());
    }
}

/// No list comes before itself, of two different lists one comes before the other, and never
/// both.
pub proof fn lemma_names_order(a: Seq<Seq<char>>, b: Seq<Seq<char>>)
    ensures
        !names_before(a, a),
        a != b ==> names_before(a, b) || names_before(b, a),
        !(names_before(a, b) && names_before(b, a)),
    decreases a.len(),
{
    if a.len() > 0 {
        lemma_names_order(a.drop_first(), a.drop_first());
    }
    if a.len() == 0 && b.len() == 0 {
        assert(a =~= b);
    }
    if a.len() > 0 && b.len() > 0 {
        lemma_text_order(a[0], b[0]);
        if a[0] == b[0] {
            lemma_names_order(a.drop_first(), b.drop_first());
            if a.drop_first() == b.drop_first() {
                assert(a =~= seq![a[0]] + a.drop_first());
                assert(b =~= seq![b[0]] + b.drop_first());
            }
        }
    }
}

/// The order of lists of names is transitive.
pub proof fn lemma_names_transitive(a: Seq<Seq<char>>, b: Seq<Seq<char>>, c: Seq<Seq<char>>)
    requires
        names_before(a, b),
        names_before(b, c),
    ensures
        names_before(a, c),
    decreases a.len(),
{
    if a.len() > 0 {
        if a[0] == b[0] && b[0] == c[0] {
            lemma_names_transitive(a.drop_first(), b.drop_first(), c.drop_first());
        } else if a[0] == b[0] {
            lemma_text_order(b[0], c[0]);
        } else if b[0] == c[0] {
            lemma_text_order(a[0], b[0]);
        } else {
            lemma_text_order(a[0], c[0]);
            lemma_text_transitive(a[0], b[0], c[0]);
            lemma_text_order(a[0], a[0]);
            if a[0] == c[0] {
                lemma_text_order(a[0], b[0]);
            }
        }
    }
}

/// After a common prefix of length `i`, texts compare as their remainders.
proof fn lemma_text_after_prefix(a: Seq<char>, b: Seq<char>, i: int)
    requires
        0 <= i <= a.len(),
        i <= b.len(),
        a.take(i) == b.take(i),
    ensures
        text_before(a, b) == text_before(a.skip(i), b.skip(i)),
    decreases i,
{
    if i == 0 {
        assert(a.skip(0) =~= a);
        assert(b.skip(0) =~= b);
    } else {
        assert(a[0] == a.take(i)[0]);
        assert(b[0] == b.take(i)[0]);
        assert(a.drop_first().take(i - 1) =~= a.take(i).drop_first());
        assert(b.drop_first().take(i - 1) =~= b.take(i).drop_first());
        assert(text_before(a, b) == text_before(a.drop_first(), b.drop_first()));
        lemma_text_after_prefix(a.drop_first(), b.drop_first(), i - 1);
        assert(a.drop_first().skip(i - 1) =~= a.skip(i));
        assert(b.drop_first().skip(i - 1) =~= b.skip(i));
    }
}

/// After a common prefix of length `i`, lists compare as their remainders.
proof fn lemma_names_after_prefix(a: Seq<Seq<char>>, b: Seq<Seq<char>>, i: int)
    requires
        0 <= i <= a.len(),
        i <= b.len(),
        a.take(i) == b.take(i),
    ensures
        names_before(a, b) == names_before(a.skip(i), b.skip(i)),
    decreases i,
{
    if i == 0 {
        assert(a.skip(0) =~= a);
        assert(b.skip(0) =~= b);
    } else {
        assert(a[0] == a.take(i)[0]);
        assert(b[0] == b.take(i)[0]);
        assert(a.drop_first().take(i - 1) =~= a.take(i).drop_first());
        assert(b.drop_first().take(i - 1) =~= b.take(i).drop_first());
        assert(names_before(a, b) == names_before(a.drop_first(), b.drop_first()));
        lemma_names_after_prefix(a.drop_first(), b.drop_first(), i - 1);
        assert(a.drop_first().skip(i - 1) =~= a.skip(i));
        assert(b.drop_first().skip(i - 1) =~= b.skip(i));
    }
}

/// The characters of a text.
pub fn chars_of(s: &String) -> (r: Vec<char>)
    ensures
        r@ == s@,
{
    let mut r: Vec<char> = Vec::new();
    for c in it: s.as_str().chars()
        invariant
            it.seq() == s@,
            r@ == s@.take(it.index() as int),
    {
        proof {
            assert(s@.take(it.index() + 1) =~= s@.take(it.index() as int).push(c));
        }
        r.push(c);
    }
    proof {
        assert(s@.take(s@.len() as int) =~= s@);
    }
    r
}

/// Whether text `a` comes before text `b` (the order of `String`).
pub fn text_less(a: &String, b: &String) -> (r: bool)
    ensures
        r == text_before(a@, b@),
{
    let ca = chars_of(a);
    let cb = chars_of(b);
    let mut i: usize = 0;
    while i < ca.len() && i < cb.len() && ca[i] == cb[i]
        invariant
            i <= ca@.len(),
            i <= cb@.len(),
            ca@.take(i as int) == cb@.take(i as int),
        decreases ca@.len() - i,
    {
        proof {
            assert(ca@.take(i + 1) =~= ca@.take(i as int).push(ca@[i as int]));
            assert(cb@.take(i + 1) =~= cb@.take(i as int).push(cb@[i as int]));
        }
        i = i + 1;
    }
    proof {
        lemma_text_after_prefix(ca@, cb@, i as int);
    }
    if i == cb.len() {
        false
    } else if i == ca.len() {
        true
    } else {
        (ca[i] as u32) < (cb[i] as u32)
    }
}

/// The texts of a list of strings.
pub open spec fn texts_of(v: Seq<String>) -> Seq<Seq<char>> {
    v.map_values(|s: String| s@)
}

/// Whether list `a` comes before list `b` (the order of `Vec<String>`).
pub fn names_less(a: &Vec<String>, b: &Vec<String>) -> (r: bool)
    ensures
        r == names_before(texts_of(a@), texts_of(b@)),
{
    let ghost na = texts_of(a@);
    let ghost nb = texts_of(b@);
    let mut i: usize = 0;
    while i < a.len() && i < b.len() && a[i] == b[i]
        invariant
            na == texts_of(a@),
            nb == texts_of(b@),
            i <= a@.len(),
            i <= b@.len(),
            na.take(i as int) == nb.take(i as int),
        decreases a@.len() - i,
    {
        proof {
            assert(na.take(i + 1) =~= na.take(i as int).push(na[i as int]));
            assert(nb.take(i + 1) =~= nb.take(i as int).push(nb[i as int]));
        }
        i = i + 1;
    }
    proof {
        lemma_names_after_prefix(na, nb, i as int);
    }
    if i == b.len() {
        false
    } else if i == a.len() {
        true
    } else {
        text_less(&a[i], &b[i])
    }
}

/// The texts are in strictly increasing order, so that none occurs twice: the form of the keys
/// of an ordered set or map of strings.
pub open spec fn texts_sorted(v: Seq<Seq<char>>) -> bool {
    forall|i: int, j: int| 0 <= i < j < v.len() ==> text_before(#[trigger] v[i], #[trigger] v[j])
}

/// Adds text `x` to the ordered set of texts `set`: it is put in its place in the order, unless
/// it is there already.
pub fn insert_text(set: &mut Vec<String>, x: &String)
    requires
        texts_sorted(texts_of(old(set)@)),
    ensures
        texts_sorted(texts_of(final(set)@)),
        forall|t: Seq<char>|
            texts_of(final(set)@).contains(t) <==> (texts_of(old(set)@).contains(t) || t == x@),
{
    let ghost v = texts_of(set@);
    let mut p: usize = 0;
    while p < set.len() && text_less(&set[p], x)
        invariant
            p <= set@.len(),
            set@ == old(set)@,
            v == texts_of(set@),
            forall|i: int| 0 <= i < p ==> text_before(#[trigger] v[i], x@),
        decreases set@.len() - p,
    {
        p = p + 1;
    }
    if p < set.len() && set[p] == *x {
        proof {
            assert(v[p as int] == x@);
        }
        return;
    }
    proof {
        if p < v.len() {
            lemma_text_order(v[p as int], x@);
        }
    }
    set.insert(p, x.clone());
    let ghost w = texts_of(set@);
    proof {
        assert(w =~= v.insert(p as int, x@));
        assert forall|i: int, j: int| 0 <= i < j < w.len() implies text_before(
            #[trigger] w[i],
            #[trigger] w[j],
        ) by {
            if j < p {
            } else if i > p {
            } else if j == p {
            } else if i == p {
                if j - 1 > p {
                    lemma_text_transitive(x@, v[p as int], v[j - 1]);
                }
            } else {
                if j - 1 > p {
                    lemma_text_transitive(x@, v[p as int], v[j - 1]);
                }
                lemma_text_transitive(v[i], x@, v[j - 1]);
            }
        }
        assert forall|t: Seq<char>| w.contains(t) <==> (v.contains(t) || t == x@) by {
            if w.contains(t) {
                let k = choose|k: int| 0 <= k < w.len() && w[k] == t;
                if k < p {
                    assert(v[k] == t);
                } else if k > p {
                    assert(v[k - 1] == t);
                }
            }
            if v.contains(t) {
                let k = choose|k: int| 0 <= k < v.len() && v[k] == t;
                if k < p {
                    assert(w[k] == t);
                } else {
                    assert(w[k + 1] == t);
                }
            }
            if t == x@ {
                assert(w[p as int] == t);
            }
        }
    }
}


/// A sequence that strictly increases in the order `lt` (irreflexive and transitive) is
/// determined by what it holds.
pub proof fn lemma_sorted_determined<A>(a: Seq<A>, b: Seq<A>, lt: spec_fn(A, A) -> bool)
    requires
        forall|x: A| !#[trigger] lt(x, x),
        forall|x: A, y: A, z: A| #[trigger] lt(x, y) && #[trigger] lt(y, z) ==> lt(x, z),
        forall|i: int, j: int| 0 <= i < j < a.len() ==> lt(#[trigger] a[i], #[trigger] a[j]),
        forall|i: int, j: int| 0 <= i < j < b.len() ==> lt(#[trigger] b[i], #[trigger] b[j]),
        forall|x: A| a.contains(x) <==> b.contains(x),
    ensures
        a == b,
    decreases a.len(),
{
    if a.len() == 0 {
        if b.len() > 0 {
            assert(b.contains(b[0]));
        }
        assert(a =~= b);
    } else {
        assert(a.contains(a[0]));
        let k = choose|k: int| 0 <= k < b.len() && b[k] == a[0];
        assert(b.contains(b[0]));
        let m = choose|m: int| 0 <= m < a.len() && a[m] == b[0];
        if k > 0 {
            assert(lt(b[0], b[k]));
            if m > 0 {
                assert(lt(a[0], a[m]));
            }
        }
        assert(a[0] == b[0]);
        let a1 = a.drop_first();
        let b1 = b.drop_first();
        assert forall|x: A| a1.contains(x) <==> b1.contains(x) by {
            if a1.contains(x) {
                let i = choose|i: int| 0 <= i < a1.len() && a1[i] == x;
                assert(lt(a[0], a[i + 1]));
                assert(a.contains(x));
                let j = choose|j: int| 0 <= j < b.len() && b[j] == x;
                assert(j != 0);
                assert(b1[j - 1] == x);
            }
            if b1.contains(x) {
                let i = choose|i: int| 0 <= i < b1.len() && b1[i] == x;
                assert(lt(b[0], b[i + 1]));
                assert(b.contains(x));
                let j = choose|j: int| 0 <= j < a.len() && a[j] == x;
                assert(j != 0);
                assert(a1[j - 1] == x);
            }
        }
        assert forall|i: int, j: int| 0 <= i < j < a1.len() implies lt(#[trigger] a1[i], #[trigger] a1[j]) by {
            assert(a1[i] == a[i + 1] && a1[j] == a[j + 1]);
        }
        assert forall|i: int, j: int| 0 <= i < j < b1.len() implies lt(#[trigger] b1[i], #[trigger] b1[j]) by {
            assert(b1[i] == b[i + 1] && b1[j] == b[j + 1]);
        }
        lemma_sorted_determined(a1, b1, lt);
        assert(a =~= seq![a[0]] + a1);
        assert(b =~= seq![b[0]] + b1);
    }
}

/// Texts in strictly increasing order are determined by what they hold: an ordered set of
/// strings has one form only.
pub proof fn law_sorted_texts_determined(a: Seq<Seq<char>>, b: Seq<Seq<char>>)
    requires
        texts_sorted(a),
        texts_sorted(b),
        forall|t: Seq<char>| a.contains(t) <==> b.contains(t),
    ensures
        a == b,
{
    let lt = |x: Seq<char>, y: Seq<char>| text_before(x, y);
    assert forall|x: Seq<char>| !#[trigger] lt(x, x) by {
        lemma_text_order(x, x);
    }
    assert forall|x: Seq<char>, y: Seq<char>, z: Seq<char>| #[trigger] lt(x, y) && #[trigger] lt(y, z) implies lt(x, z) by {
        lemma_text_transitive(x, y, z);
    }
    lemma_sorted_determined(a, b, lt);
}

} // verus!
