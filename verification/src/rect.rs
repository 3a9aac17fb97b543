//! Rectangles measured in whole pixels.

use vstd::prelude::*;

verus! {

/// A rectangle with its sides in whole pixels.
#[derive(Clone, Copy, Debug, PartialEq, Eq, Structural)]
pub struct Rectangle {
    pub width: u32,
    pub height: u32,
}

impl Rectangle {
    /// The area in square pixels.
    pub fn area(&self) -> (a: u32)
        requires
            self.width * self.height <= u32::MAX,
        ensures
            a == self.width * self.height,
    {
        self.width * self.height
    }

    /// Whether `other` fits strictly inside `self` in both directions.
    pub fn can_hold(&self, other: &Rectangle) -> (b: bool)
        ensures
            b == (self.width > other.width && self.height > other.height),
    {
        self.width > other.width && self.height > other.height
    }
}

} // verus!
