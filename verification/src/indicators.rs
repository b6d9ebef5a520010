//! The indicator components.

pub mod relative_strength_index;
pub mod simple_moving_average;
pub mod smoothed_simple_moving_average;

pub use relative_strength_index::RelativeStrengthIndex;
pub use simple_moving_average::SimpleMovingAverage;
pub use smoothed_simple_moving_average::SmoothedSimpleMovingAverage;
