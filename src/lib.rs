//! Places the outputs of a sway session side by side, left to right, in one
//! row: each output's X coordinate is the sum of the widths of the outputs
//! before it, and its Y coordinate is 0.
//!
//! The library holds the decisions; talking to the compositor is left to the
//! caller, who hands in what the compositor reported and sends the commands
//! that come back.

pub mod error;
pub mod output;
pub mod layout;

pub use error::Error;
pub use output::{Output, RawOutput};
