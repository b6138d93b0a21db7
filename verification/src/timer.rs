//! Time: the millisecond clock, sleeping and periodic wake-ups.
pub mod period;
pub mod sleep;
pub mod timer;
