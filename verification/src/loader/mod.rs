//! Loading binary WebAssembly modules.

pub mod parser;
pub mod reader;
pub mod streaming;

pub use parser::Parser;
pub use reader::BinaryReader;
pub use streaming::{ParseState, StreamingParser};
