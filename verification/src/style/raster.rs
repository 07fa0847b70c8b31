//! Raster tile layer description.
use vstd::prelude::*;

verus! {

#[derive(Debug, Clone, Copy, PartialEq, Eq, Structural)]
pub enum RasterResampling {
    Linear,
    Nearest,
}

} // verus!
