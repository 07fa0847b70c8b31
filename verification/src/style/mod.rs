//! Style specification records (the serialisable forms live with the application layer).
pub mod layer;
pub mod light;
pub mod raster;
pub mod source;
pub mod styledraft;
