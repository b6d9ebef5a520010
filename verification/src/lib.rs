//! Streaming technical-analysis indicators over exact rational samples.
//!
//! Each indicator consumes one sample per step and emits an updated value in
//! constant state per instance. Samples are exact rationals (`Rat`) with
//! bounded components; every step is specified exactly, including the
//! fallback taken when an intermediate result would leave the bounded range.

use vstd::prelude::*;

pub mod bar;
pub mod errors;
pub mod indicators;
pub mod rational;
pub mod text;

pub use crate::bar::Bar;
pub use crate::errors::TaError;

verus! {

use crate::rational::Rat;

/// A record that exposes a rational "close" reading.
pub trait Close {
    /// The close value this record carries.
    spec fn close_spec(&self) -> Rat;

    /// Returns the close value.
    fn close(&self) -> (r: Rat)
        ensures
            r == self.close_spec(),
    ;
}

} // verus!
