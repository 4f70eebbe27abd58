//! Embedding a file's contents as a base64 string: the size guard, the
//! encoding in either RFC 4648 alphabet, and the text of each failure.
pub mod codec;
pub mod error;
pub mod file;
pub mod laws;
