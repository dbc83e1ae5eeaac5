//! Column projection for delimiter-separated text.
//!
//! A table arrives as lines of text whose fields are separated by commas or
//! tabs. The library infers the delimiter, resolves the header, selects and
//! reorders columns by name, and produces the lines to write.

pub mod delimiter;
pub mod header;
pub mod laws;
pub mod outcome;
pub mod projection;
pub mod run;
pub mod stream;
pub mod text;
