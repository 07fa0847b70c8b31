//! Symbol collision detection across the tiles in view.
use vstd::prelude::*;
use vstd::arithmetic::power2::pow2;
use crate::coords::{tiles_per_axis, lemma_zoom_bounds, TileCoords, WorldTileCoords, ZOOM_BOUNDS};

verus! {

/// The system that hides symbols which collide with symbols placed before them.
pub struct CollisionSystem {}

impl CollisionSystem {
    pub fn new() -> (r: Self)
        ensures
            r == (CollisionSystem {}),
    {
        Self {}
    }

    /// The system's name.
    pub fn name(&self) -> (r: String)
        ensures
            r@ == "sdf_populate_world_system"@,
    {
        "sdf_populate_world_system".to_owned()
    }
}

impl Default for CollisionSystem {
    fn default() -> (r: Self)
        ensures
            r == (CollisionSystem {}),
    {
        Self::new()
    }
}

/// The canonical tile that a world tile shows: the column wraps around the antimeridian,
/// rows beyond the poles have none, nor do zoom levels whose tile count exceeds `i32`.
pub open spec fn spec_canonical_tile(coords: WorldTileCoords) -> Option<TileCoords> {
    let n = tiles_per_axis(coords.z.0 as nat) as int;
    if n > i32::MAX || coords.y < 0 || coords.y >= n {
        None
    } else {
        Some(TileCoords { x: ((coords.x as int) % n) as u32, y: coords.y as u32, z: coords.z })
    }
}

/// Maps tile coordinates of the repeated world onto the canonical tile pyramid.
///
/// The zoom level must be covered by [`ZOOM_BOUNDS`], which gives the tile count.
pub fn canonical_tile(coords: WorldTileCoords) -> (r: Option<TileCoords>)
    requires
        coords.z.0 < 32,
    ensures
        r == spec_canonical_tile(coords),
{
    let z: u8 = coords.z.0;
    proof {
        lemma_zoom_bounds(z as int);
    }
    let bound: u32 = ZOOM_BOUNDS[z as usize];
    if bound > 2147483647 {
        return None;
    }
    let tile_count: i32 = bound as i32;
    if coords.y < 0 || coords.y >= tile_count {
        return None;
    }
    let x: i32 = match coords.x.checked_rem_euclid(tile_count) {
        Some(r) => r,
        None => 0,
    };
    Some(TileCoords { x: x as u32, y: coords.y as u32, z: coords.z })
}

/// The canonical tile of a world tile lies in the pyramid at the same zoom level and row: it
/// exists exactly when there are at most `i32::MAX` columns and the row lies within the
/// `2^z` rows, and then its column is the one among `0..2^z` that differs from the world
/// column by a whole number of world copies (`2^z` columns each).
pub proof fn law_canonical_tile_wraps(coords: WorldTileCoords)
    ensures
        spec_canonical_tile(coords) is Some <==> (pow2(coords.z.0 as nat) <= i32::MAX && 0
            <= coords.y < pow2(coords.z.0 as nat)),
        spec_canonical_tile(coords) matches Some(t) ==> {
            &&& 0 <= t.x < pow2(coords.z.0 as nat)
            &&& exists|copies: int| #[trigger] (copies * pow2(coords.z.0 as nat)) + t.x == coords.x
            &&& t.y == coords.y
            &&& t.z == coords.z
        },
{
    let n = pow2(coords.z.0 as nat) as int;
    vstd::arithmetic::power2::lemma_pow2_pos(coords.z.0 as nat);
    if n <= i32::MAX && 0 <= coords.y < n {
        let x = coords.x as int;
        vstd::arithmetic::div_mod::lemma_fundamental_div_mod(x, n);
        vstd::arithmetic::div_mod::lemma_mod_bound(x, n);
        let q = x / n;
        assert((q * n) + (x % n) == x) by (nonlinear_arith)
            requires
                x == n * (x / n) + (x % n),
                q == x / n,
        ;
        let t = spec_canonical_tile(coords)->0;
        assert(t.x == x % n);
        assert((q * pow2(coords.z.0 as nat)) + t.x == coords.x);
    }
}

} // verus!
