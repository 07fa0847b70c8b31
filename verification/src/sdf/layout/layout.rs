//! Tile identifiers and parameters of bucket layout.
use vstd::prelude::*;
use crate::sdf::CanonicalTileID;

verus! {

/// A tile of the canonical pyramid shown at a (possibly higher) zoom level.
#[derive(Copy, Clone)]
pub struct OverscaledTileID {
    pub canonical: CanonicalTileID,
    pub overscaledZ: u8,
}

impl OverscaledTileID {
    /// `2^(overscaledZ - canonical.z)`: how much the tile is magnified.
    ///
    /// The overscaled zoom must be at least the canonical zoom, and the difference below 32.
    pub fn overscaleFactor(&self) -> (r: u32)
        requires
            self.canonical.z <= self.overscaledZ,
            self.overscaledZ - self.canonical.z < 32,
        ensures
            r == vstd::arithmetic::power2::pow2((self.overscaledZ - self.canonical.z) as nat),
    {
        let d: u32 = (self.overscaledZ - self.canonical.z) as u32;
        proof {
            vstd::bits::lemma_u32_pow2_no_overflow(d as nat);
            vstd::bits::lemma_u32_shl_is_mul(1, d);
        }
        1u32 << d
    }
}

} // verus!
