use vstd::prelude::*;

verus! {

/// A shape that covers a whole number of unit squares.
pub trait Area {
    /// The area as a mathematical integer.
    spec fn spec_area(&self) -> nat;

    /// Returns the area of the shape, which has to fit in a machine word.
    fn area(&self) -> (area: usize)
        requires
            self.spec_area() <= usize::MAX,
        ensures
            area == self.spec_area(),
    ;
}

} // verus!
