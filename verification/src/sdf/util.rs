//! Hash combination in the style of `boost::hash_combine`.
use vstd::prelude::*;
use std::hash::{Hash, Hasher};

verus! {

/// The value that `std`'s `DefaultHasher`, created by `DefaultHasher::new` (whose keys are
/// fixed), finishes with after a string with these characters was fed to it by `Hash::hash`.
pub uninterp spec fn default_string_hash(s: Seq<char>) -> u64;

/// Hashes a string with a fresh `std::hash::DefaultHasher` (`DefaultHasher::new`, `Hash::hash`,
/// `Hasher::finish`). The contract claims only that the result is a function of the string's
/// characters, named `default_string_hash`.
#[verifier::external_body]
fn hash_string(s: &String) -> (r: u64)
    ensures
        r == default_string_hash(s@),
{
    let mut hasher = std::hash::DefaultHasher::new();
    s.hash(&mut hasher);
    hasher.finish()
}

/// One step of the combination: `seed ^ (h + 0x9e3779b9 + (seed << 6) + (seed >> 2))`,
/// with the additions wrapping around `u64`.
pub open spec fn combine(seed: u64, h: u64) -> u64 {
    seed ^ h.wrapping_add(0x9e3779b9).wrapping_add(seed << 6).wrapping_add(seed >> 2)
}

/// The hash of a sequence of strings, combined from seed 0 in order.
pub open spec fn combined_hash(items: Seq<Seq<char>>) -> u64
    decreases items.len(),
{
    if items.len() == 0 {
        0
    } else {
        combine(combined_hash(items.drop_last()), default_string_hash(items.last()))
    }
}

/// Mixes the hash of `v` into `seed`.
pub fn hash_combine(seed: &mut u64, v: &String)
    ensures
        *final(seed) == combine(*old(seed), default_string_hash(v@)),
{
    let h = hash_string(v);
    let s = *seed;
    *seed = s ^ h.wrapping_add(0x9e3779b9).wrapping_add(s << 6).wrapping_add(s >> 2);
}

/// The combined hash of all `args`, in order, starting from seed 0.
pub fn hash(args: &[String]) -> (r: u64)
    ensures
        r == combined_hash(args@.map_values(|s: String| s@)),
{
    let mut seed: u64 = 0;
    let mut i: usize = 0;
    while i < args.len()
        invariant
            i <= args@.len(),
            seed == combined_hash(args@.subrange(0, i as int).map_values(|s: String| s@)),
        decreases args@.len() - i,
    {
        proof {
            let next = args@.subrange(0, i + 1).map_values(|s: String| s@);
            assert(next.drop_last() =~= args@.subrange(0, i as int).map_values(|s: String| s@));
            assert(next.last() == args@[i as int]@);
        }
        hash_combine(&mut seed, &args[i]);
        i = i + 1;
    }
    proof {
        assert(args@.subrange(0, i as int) =~= args@);
    }
    seed
}

} // verus!
