//! Font stacks: ordered lists of font names, their hashes and their display form.
use vstd::prelude::*;
use crate::sdf::util::{combined_hash, hash};

verus! {

/// An array of font names.
pub type FontStack = Vec<String>;

pub type FontStackHash = u64;

/// Joins the strings with `sep` between each two neighbours.
pub open spec fn join(items: Seq<Seq<char>>, sep: Seq<char>) -> Seq<char>
    decreases items.len(),
{
    if items.len() == 0 {
        Seq::empty()
    } else if items.len() == 1 {
        items[0]
    } else {
        join(items.drop_last(), sep) + sep + items.last()
    }
}

/// The total number of characters of the texts.
pub open spec fn total_len(items: Seq<Seq<char>>) -> nat
    decreases items.len(),
{
    if items.len() == 0 {
        0
    } else {
        total_len(items.drop_last()) + items.last().len()
    }
}

/// Joining one more text after at least one adds the separator and the text at the end: the
/// join of `names` followed by `x` is the join of `names`, then `sep`, then `x`.
pub proof fn law_join_appends(names: Seq<Seq<char>>, x: Seq<char>, sep: Seq<char>)
    requires
        names.len() > 0,
    ensures
        join(names.push(x), sep) == join(names, sep) + sep + x,
{
    assert(names.push(x).drop_last() =~= names);
}

/// The join holds the texts' characters and one separator between each two neighbours: its
/// length is the texts' total length plus `n - 1` separators for `n > 0` texts, and a single
/// text joins to itself.
pub proof fn law_join_len(items: Seq<Seq<char>>, sep: Seq<char>)
    requires
        items.len() > 0,
    ensures
        join(items, sep).len() == total_len(items) + (items.len() - 1) * sep.len(),
        items.len() == 1 ==> join(items, sep) == items[0],
    decreases items.len(),
{
    let n = items.len() as int;
    let k = sep.len() as int;
    if n > 1 {
        law_join_len(items.drop_last(), sep);
        assert((n - 1) * k == (n - 2) * k + k) by (nonlinear_arith);
        assert(join(items, sep) == join(items.drop_last(), sep) + sep + items.last());
        assert(total_len(items) == total_len(items.drop_last()) + items.last().len());
        assert(items.drop_last().len() == n - 1);
    } else {
        assert(total_len(items.drop_last()) == 0);
        assert((n - 1) * k == 0);
    }
}

/// The font names of a stack as character sequences.
pub open spec fn font_names(fontStack: Seq<String>) -> Seq<Seq<char>> {
    fontStack.map_values(|s: String| s@)
}

pub struct FontStackHasher;

impl FontStackHasher {
    /// The hash of a font stack: its names combined in order from seed 0.
    pub fn new(fontStack: &FontStack) -> (r: u64)
        ensures
            r == combined_hash(font_names(fontStack@)),
    {
        hash(fontStack.as_slice())
    }
}

/// The names of the stack separated by commas.
pub fn fontStackToString(fontStack: &FontStack) -> (r: String)
    ensures
        r@ == join(font_names(fontStack@), ","@),
{
    let mut res = String::new();
    let ghost names = font_names(fontStack@);
    let mut i: usize = 0;
    while i < fontStack.len()
        invariant
            i <= fontStack@.len(),
            names == font_names(fontStack@),
            res@ == join(names.subrange(0, i as int), ","@),
        decreases fontStack@.len() - i,
    {
        proof {
            assert(names.subrange(0, i + 1).drop_last() =~= names.subrange(0, i as int));
        }
        if i != 0 {
            res.append(",");
        }
        res.append(fontStack[i].as_str());
        proof {
            if i == 0 {
                assert(res@ =~= names.subrange(0, 1)[0]);
            }
        }
        i = i + 1;
    }
    proof {
        assert(names.subrange(0, i as int) =~= names);
    }
    res
}

} // verus!
