//! The single error surfaced by indicator construction.

use vstd::prelude::*;

verus! {

/// Rejection of an invalid construction parameter (a zero period).
#[derive(Clone, Copy, Debug, PartialEq, Eq, Structural)]
pub enum TaError {
    InvalidParameter,
}

} // verus!
