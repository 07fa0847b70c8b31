//! Vector tile source descriptions.
use vstd::prelude::*;

verus! {

/// Tiles can be positioned using either the xyz coordinates or the TMS (Tile Map Service) protocol.
#[derive(Debug, Clone, Copy, PartialEq, Eq, Structural)]
pub enum TileAddressingScheme {
    XYZ,
    TMS,
}

impl Default for TileAddressingScheme {
    fn default() -> (r: Self)
        ensures
            r == TileAddressingScheme::XYZ,
    {
        TileAddressingScheme::XYZ
    }
}

} // verus!
