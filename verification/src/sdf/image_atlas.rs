//! Where each image lies in the image atlas.
use vstd::prelude::*;
use crate::euclid::Box2D;

verus! {

/// The place of an image in the atlas: its rectangle there, padding included, given by its
/// minimum and maximum corners, and the version of the image that was placed.
#[derive(Clone, Copy, Debug, PartialEq, Eq, Structural)]
pub struct ImagePosition {
    pub paddedRect: Box2D<u16>,
    pub version: u32,
}

impl ImagePosition {
    /// The padding around each image in the atlas, in pixels.
    pub const padding: u16 = 1;

    /// The padded rectangle is a rectangle: its minimum corner is not beyond its maximum.
    pub open spec fn wf(&self) -> bool {
        &&& self.paddedRect.min.x <= self.paddedRect.max.x
        &&& self.paddedRect.min.y <= self.paddedRect.max.y
    }

    /// The top-left corner of the image inside its padding.
    pub fn tl(&self) -> (r: [u16; 2])
        requires
            self.paddedRect.min.x < u16::MAX,
            self.paddedRect.min.y < u16::MAX,
        ensures
            r@[0] == self.paddedRect.min.x + 1,
            r@[1] == self.paddedRect.min.y + 1,
    {
        [self.paddedRect.min.x + Self::padding, self.paddedRect.min.y + Self::padding]
    }

    /// The bottom-right corner of the image inside its padding.
    pub fn br(&self) -> (r: [u16; 2])
        requires
            self.wf(),
            self.paddedRect.max.x >= 1,
            self.paddedRect.max.y >= 1,
        ensures
            r@[0] == self.paddedRect.max.x - 1,
            r@[1] == self.paddedRect.max.y - 1,
    {
        let width = self.paddedRect.max.x - self.paddedRect.min.x;
        let height = self.paddedRect.max.y - self.paddedRect.min.y;
        [
            self.paddedRect.min.x + width - Self::padding,
            self.paddedRect.min.y + height - Self::padding,
        ]
    }

    /// Both corners of the image inside its padding: top-left, then bottom-right.
    pub fn tlbr(&self) -> (r: [u16; 4])
        requires
            self.wf(),
            self.paddedRect.min.x < u16::MAX,
            self.paddedRect.min.y < u16::MAX,
            self.paddedRect.max.x >= 1,
            self.paddedRect.max.y >= 1,
        ensures
            r@ == seq![
                (self.paddedRect.min.x + 1) as u16,
                (self.paddedRect.min.y + 1) as u16,
                (self.paddedRect.max.x - 1) as u16,
                (self.paddedRect.max.y - 1) as u16,
            ],
    {
        let tl = self.tl();
        let br = self.br();
        let r = [tl[0], tl[1], br[0], br[1]];
        proof {
            assert(r@ =~= seq![
                (self.paddedRect.min.x + 1) as u16,
                (self.paddedRect.min.y + 1) as u16,
                (self.paddedRect.max.x - 1) as u16,
                (self.paddedRect.max.y - 1) as u16,
            ]);
        }
        r
    }
}

} // verus!
