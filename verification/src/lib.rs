//! Time arithmetic on a watch: a start time, an accumulated offset, and a
//! rendering in 12-hour or 24-hour form with the days gained or lost.

pub mod format;
pub mod laws;
pub mod numeral;
pub mod parse;
pub mod watch;

pub use watch::Watch;
