//! Client-side protocol logic for the vector-search commands of a key-value
//! store: building the commands, framing and unframing vectors, driving
//! cursor scans, and planning bulk loads.
//!
//! Nothing here performs I/O. Commands are built as `redis::Cmd` values for a
//! caller to send; replies are handed in as values.

pub mod arg;
pub mod bulk;
pub mod codec;
pub mod command;
pub mod cursor;
mod queue;
pub mod scan;
pub mod tally;
pub mod vector;
pub mod wire;

pub use arg::Arg;
pub use vector::{NdArrayVector, TypeError, Vector};
