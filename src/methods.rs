use vstd::prelude::*;

verus! {

/// An axis-aligned rectangle given by its sides.
#[derive(Clone, Copy, Debug, PartialEq, Eq, Structural)]
pub struct Rectangle {
    pub width: i32,
    pub height: i32,
}

impl Rectangle {
    /// The area, `height * width`; the product must fit in an `i32`.
    pub fn area(&self) -> (r: i32)
        requires
            i32::MIN <= self.height * self.width <= i32::MAX,
        ensures
            r == self.height * self.width,
    {
        self.height * self.width
    }

    /// Tells whether `other` fits strictly inside this rectangle, side by side.
    pub fn can_hold(&self, other: &Rectangle) -> (r: bool)
        ensures
            r == (self.width > other.width && self.height > other.height),
    {
        self.width > other.width && self.height > other.height
    }
}

} // verus!
