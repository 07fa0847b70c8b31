//! Vector tile layer drawing properties.
use vstd::prelude::*;

verus! {

#[derive(Debug, Clone, Copy, PartialEq, Eq, Structural)]
pub enum RasterResampling {
    Linear,
    Nearest,
}

#[derive(Debug, Clone)]
pub struct SymbolPaint {
    pub text_field: Option<String>,
}

} // verus!
