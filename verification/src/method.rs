//! A rectangle with whole-number sides.

use vstd::prelude::*;

verus! {

#[derive(Debug, Clone, Copy)]
pub struct Rectangle {
    pub width: u32,
    pub height: u32,
}

impl Rectangle {
    /// The area, as a mathematical integer.
    pub open spec fn area_spec(&self) -> int {
        self.width * self.height
    }

    /// Width times height. The product has to fit in a `u32`.
    pub fn area(&self) -> (area: u32)
        requires
            self.area_spec() <= u32::MAX,
        ensures
            area == self.area_spec(),
    {
        self.width * self.height
    }

    /// Replaces the width and leaves the height as it was.
    pub fn set_width(&mut self, new_width: u32)
        ensures
            final(self).width == new_width,
            final(self).height == old(self).height,
    {
        self.width = new_width;
    }

    /// A rectangle of the given sides.
    pub fn square(width: u32, height: u32) -> (rectangle: Self)
        ensures
            rectangle.width == width,
            rectangle.height == height,
    {
        Self { width, height }
    }
}

} // verus!
