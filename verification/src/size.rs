use std::cmp::Ordering;
use vstd::prelude::*;
use vstd::std_specs::cmp::PartialOrdSpecImpl;

verus! {

/// A width and a height.
///
/// Sizes are totally ordered: by height first, by width among equal heights, so the
/// greater of two sizes is the taller one, or the wider one of two equally tall.
/// The fields are declared in that order to make the derived `Ord` agree with
/// [`Size::precedes`] and with `partial_cmp`.
#[derive(Debug, Clone, Copy, PartialEq, Eq, Structural, Ord)]
pub struct Size {
    /// The height of the size.
    pub height: usize,
    /// The width of the size.
    pub width: usize,
}

impl Size {
    /// The area as a mathematical integer.
    pub open spec fn spec_area(self) -> nat {
        (self.width * self.height) as nat
    }

    /// The order on sizes: `self` is `other` or comes before it.
    pub open spec fn precedes(self, other: Size) -> bool {
        self.height < other.height || (self.height == other.height && self.width <= other.width)
    }

    /// How `self` compares to `other` in the order on sizes.
    pub open spec fn compared_to(self, other: Size) -> Ordering {
        if self == other {
            Ordering::Equal
        } else if self.precedes(other) {
            Ordering::Less
        } else {
            Ordering::Greater
        }
    }

    /// Creates a size from its `width` and `height`.
    pub fn new(width: usize, height: usize) -> (size: Size)
        ensures
            size.width == width,
            size.height == height,
    {
        Size { height, width }
    }

    /// Returns the area of the size.
    pub fn area(&self) -> (area: usize)
        requires
            self.spec_area() <= usize::MAX,
        ensures
            area == self.spec_area(),
    {
        self.width * self.height
    }

    /// Returns `true` if the size is a square.
    pub fn is_square(&self) -> (square: bool)
        ensures
            square == (self.width == self.height),
    {
        self.width == self.height
    }
}

impl PartialOrd for Size {
    fn partial_cmp(&self, other: &Size) -> (order: Option<Ordering>) {
        if self.height < other.height {
            Some(Ordering::Less)
        } else if self.height > other.height {
            Some(Ordering::Greater)
        } else if self.width < other.width {
            Some(Ordering::Less)
        } else if self.width > other.width {
            Some(Ordering::Greater)
        } else {
            Some(Ordering::Equal)
        }
    }
}

impl PartialOrdSpecImpl for Size {
    open spec fn obeys_partial_cmp_spec() -> bool {
        true
    }

    open spec fn partial_cmp_spec(&self, other: &Size) -> Option<Ordering> {
        Some(self.compared_to(*other))
    }
}

/// The order on sizes as a relation: height first, then width.
pub open spec fn size_order() -> spec_fn(Size, Size) -> bool {
    |a: Size, b: Size| a.precedes(b)
}

/// The order on sizes is total: reflexive, antisymmetric, transitive, and any two sizes
/// are comparable.
pub proof fn lemma_size_order_total()
    ensures
        vstd::relations::total_ordering(size_order()),
{
}

} // verus!
