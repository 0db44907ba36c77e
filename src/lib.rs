//! A line reader whose memory use per line is bounded by a fixed capacity,
//! however long the lines of its source are.
//!
//! Each call hands out at most `capacity` bytes of the next line, discards and
//! counts the rest, and keeps the true length of every line it went through.

pub mod laws;
pub mod lines;
pub mod machine;
pub mod model;
pub mod reader;
pub mod source;

pub use machine::LineMachine;
pub use model::{Phase, Step};
pub use reader::{LineOutcome, ReadTruncatedLines, SourceError};
pub use source::{ByteCursor, MyTrait};
