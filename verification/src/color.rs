//! Colors: four eight-bit channels plus an alpha.

use vstd::prelude::*;
use crate::number::Number;

verus! {

#[derive(Clone, Copy, Debug)]
pub struct Color {
    pub red: u8,
    pub green: u8,
    pub blue: u8,
    pub alpha: Number,
}

impl Color {
    /// Well-formedness: the alpha is a valid rational between zero and one.
    pub open spec fn inv(self) -> bool {
        &&& self.alpha.inv()
        &&& 0 <= self.alpha.numer <= self.alpha.denom
    }

    /// Channel equality; the alphas are compared as rationals.
    pub open spec fn same_value(self, other: Color) -> bool {
        &&& self.red == other.red
        &&& self.green == other.green
        &&& self.blue == other.blue
        &&& self.alpha.same_value(other.alpha)
    }

    pub fn new(red: u8, green: u8, blue: u8, alpha: Number) -> (c: Color)
        requires
            alpha.inv(),
            0 <= alpha.numer <= alpha.denom,
        ensures
            c.inv(),
            c.red == red,
            c.green == green,
            c.blue == blue,
            c.alpha == alpha,
    {
        Color { red, green, blue, alpha }
    }

    pub fn same_value_as(&self, other: &Color) -> (r: bool)
        ensures
            r == self.same_value(*other),
    {
        self.red == other.red && self.green == other.green && self.blue == other.blue
            && self.alpha.same_value_as(&other.alpha)
    }
}

} // verus!
