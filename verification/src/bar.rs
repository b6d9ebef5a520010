//! A minimal bar record: a market observation of which only the close
//! reading is consumed.

use vstd::prelude::*;

use crate::rational::{rat_zero, Rat};
use crate::Close;

verus! {

/// A bar with a rational close reading.
#[derive(Clone, Copy, Debug, PartialEq, Eq, Structural)]
pub struct Bar {
    pub close: Rat,
}

impl Bar {
    /// Builds a bar with a zero close.
    pub fn new() -> (b: Bar)
        ensures
            b.close == rat_zero(),
    {
        Bar { close: Rat { num: 0, den: 1 } }
    }

    /// Returns this bar with the given close reading.
    pub fn close(self, close: Rat) -> (b: Bar)
        ensures
            b.close == close,
    {
        Bar { close }
    }
}

impl Close for Bar {
    open spec fn close_spec(&self) -> Rat {
        self.close
    }

    fn close(&self) -> (r: Rat)
        ensures
            r == self.close_spec(),
    {
        self.close
    }
}

} // verus!
