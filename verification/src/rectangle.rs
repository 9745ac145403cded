use crate::area::Area;
use crate::size::Size;
use vstd::prelude::*;

verus! {

/// A rectangle in the integer plane, the mathematical model of a [`Rectangle`].
///
/// `x` and `y` are the top-left corner; the rectangle reaches from `x` to `x + width`
/// and from `y` to `y + height`.
pub struct Region {
    pub x: int,
    pub y: int,
    pub width: int,
    pub height: int,
}

impl Region {
    /// `other` lies entirely within `self`. The bounds are closed: a rectangle that
    /// touches the edge of `self` from inside is contained.
    pub open spec fn contains(self, other: Region) -> bool {
        &&& self.x <= other.x
        &&& self.y <= other.y
        &&& self.x + self.width >= other.x + other.width
        &&& self.y + self.height >= other.y + other.height
    }

    /// The interiors of `self` and `other` overlap on both axes. The bounds are open:
    /// rectangles that only share an edge or a corner do not intersect.
    pub open spec fn intersects(self, other: Region) -> bool {
        &&& self.x < other.x + other.width
        &&& self.x + self.width > other.x
        &&& self.y < other.y + other.height
        &&& self.y + self.height > other.y
    }
}

/// A rectangle in a 2D space.
#[derive(Debug, Clone, Copy, PartialEq, Eq, Structural)]
pub struct Rectangle {
    /// The x coordinate of the rectangle.
    pub x: usize,
    /// The y coordinate of the rectangle.
    pub y: usize,
    /// The width of the rectangle.
    pub width: usize,
    /// The height of the rectangle.
    pub height: usize,
}

impl View for Rectangle {
    type V = Region;

    open spec fn view(&self) -> Region {
        Region {
            x: self.x as int,
            y: self.y as int,
            width: self.width as int,
            height: self.height as int,
        }
    }
}

impl Rectangle {
    /// Creates a new rectangle.
    /// `x` and `y` are the coordinates of the top-left corner.
    pub fn new(x: usize, y: usize, width: usize, height: usize) -> (rect: Rectangle)
        ensures
            rect == (Rectangle { x, y, width, height }),
    {
        Rectangle { x, y, width, height }
    }

    /// Creates a rectangle of the given `size` with its top-left corner at `x`, `y`.
    pub fn from_size(x: usize, y: usize, size: &Size) -> (rect: Rectangle)
        ensures
            rect == (Rectangle { x, y, width: size.width, height: size.height }),
    {
        Rectangle { x, y, width: size.width, height: size.height }
    }

    /// Checks if `other` is completely inside the rectangle, edges included.
    pub fn contains(&self, other: &Rectangle) -> (inside: bool)
        ensures
            inside == self@.contains(other@),
    {
        self.x <= other.x && self.y <= other.y
            && self.x as u128 + self.width as u128 >= other.x as u128 + other.width as u128
            && self.y as u128 + self.height as u128 >= other.y as u128 + other.height as u128
    }

    /// Checks if the rectangle and `other` overlap in more than an edge.
    pub fn intersects(&self, other: &Rectangle) -> (overlap: bool)
        ensures
            overlap == self@.intersects(other@),
    {
        (self.x as u128) < other.x as u128 + other.width as u128
            && self.x as u128 + self.width as u128 > other.x as u128
            && (self.y as u128) < other.y as u128 + other.height as u128
            && self.y as u128 + self.height as u128 > other.y as u128
    }

    /// Returns the width and height of the rectangle as a [`Size`].
    pub fn to_size(&self) -> (size: Size)
        ensures
            size.width == self.width,
            size.height == self.height,
    {
        Size::new(self.width, self.height)
    }
}

impl Area for Rectangle {
    open spec fn spec_area(&self) -> nat {
        (self.width * self.height) as nat
    }

    fn area(&self) -> (area: usize) {
        self.width * self.height
    }
}

/// Every rectangle contains itself.
pub proof fn lemma_contains_reflexive(a: Region)
    ensures
        a.contains(a),
{
}

/// Two rectangles that meet in an edge, one ending where the other begins, do not
/// intersect, whichever is asked.
pub proof fn lemma_touching_do_not_intersect(a: Region, b: Region)
    requires
        a.x + a.width == b.x || a.y + a.height == b.y,
    ensures
        !a.intersects(b),
        !b.intersects(a),
{
}

} // verus!
