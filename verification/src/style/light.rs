//! Root light properties used by atmosphere and lit globe rendering.
use vstd::prelude::*;

verus! {

/// Coordinate frame in which the root light position is expressed.
#[derive(Clone, Copy, Debug, Eq, PartialEq, Structural)]
pub enum LightAnchor {
    /// Light remains fixed relative to the viewport.
    Viewport,
    /// Light rotates with the geographic map.
    MapAnchor,
}

impl Default for LightAnchor {
    fn default() -> (r: Self)
        ensures
            r == LightAnchor::Viewport,
    {
        LightAnchor::Viewport
    }
}

} // verus!
