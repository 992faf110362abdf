//! A verified console-input helper: the decision core of a prompt/read/parse
//! retry loop.
//!
//! The library trims a freshly read line, parses it into a caller-chosen
//! target type, and models the retry loop over a stream of lines. The
//! blocking I/O shell around it lives outside the library.

pub mod numbers;
pub mod parse;
pub mod reader;
pub mod text;
