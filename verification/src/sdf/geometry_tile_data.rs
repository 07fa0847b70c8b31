//! Geometry of the features of a tile.
use vstd::prelude::*;
use crate::euclid::Point2D;

verus! {

pub type GeometryCoordinate = Point2D<i16>;

/// The vertices of one line or ring of a feature, in tile coordinates.
#[derive(Default, Clone, Debug)]
pub struct GeometryCoordinates(pub Vec<GeometryCoordinate>);

impl GeometryCoordinates {
    pub fn len(&self) -> (r: usize)
        ensures
            r == self.0@.len(),
    {
        self.0.len()
    }

    /// The vertex at `index`, which must lie within the coordinates.
    pub fn index(&self, index: usize) -> (r: &GeometryCoordinate)
        requires
            index < self.0@.len(),
        ensures
            *r == self.0@[index as int],
    {
        &self.0[index]
    }
}

pub type GeometryCollection = Vec<GeometryCoordinates>;

/// The kind of geometry a feature has (in this order: unknown, point, line string, polygon).
#[derive(PartialEq, Eq, Structural, Clone, Copy, Debug)]
pub enum FeatureType {
    Unknown,
    Point,
    LineString,
    Polygon,
}

} // verus!
