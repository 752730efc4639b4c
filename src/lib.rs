//! Whitespace normalisation of text: outer whitespace removed, each inner run
//! of whitespace replaced by one space.
pub mod whitespace;
pub mod words;
pub mod clean;
pub mod laws;

pub use clean::clean_text;
