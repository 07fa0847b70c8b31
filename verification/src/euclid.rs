//! Plain two-dimensional geometry records (points, sizes, rectangles and boxes).
use vstd::prelude::*;

verus! {

/// A point with coordinates of type `T`.
#[derive(Clone, Copy, Debug, Default, PartialEq, Eq, Structural)]
pub struct Point2D<T> {
    pub x: T,
    pub y: T,
}

impl<T> Point2D<T> {
    pub fn new(x: T, y: T) -> (r: Point2D<T>)
        ensures
            r.x == x,
            r.y == y,
    {
        Point2D { x, y }
    }
}

/// A width and a height.
#[derive(Clone, Copy, Debug, Default, PartialEq, Eq, Structural)]
pub struct Size2D<T> {
    pub width: T,
    pub height: T,
}

/// A rectangle given by its origin and size.
#[derive(Clone, Copy, Debug, Default, PartialEq, Eq, Structural)]
pub struct Rect<T> {
    pub origin: Point2D<T>,
    pub size: Size2D<T>,
}

/// An axis-aligned box given by its minimum and maximum corners.
#[derive(Clone, Copy, Debug, Default, PartialEq, Eq, Structural)]
pub struct Box2D<T> {
    pub min: Point2D<T>,
    pub max: Point2D<T>,
}

impl<T> Box2D<T> {
    pub fn new(min: Point2D<T>, max: Point2D<T>) -> (r: Box2D<T>)
        ensures
            r.min == min,
            r.max == max,
    {
        Box2D { min, max }
    }
}

} // verus!
