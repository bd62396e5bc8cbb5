//! A tokenizer for CSS-selector-like text.
//!
//! The scanner walks a byte buffer once, from left to right, and cuts it into
//! tokens that carry their byte range, line range and column range. What the
//! scanner returns is stated against a mathematical model of the token stream
//! (module `model`), and the properties of that stream are proved in `laws`.

pub mod chars;
pub mod search;
pub mod words;
pub mod model;
pub mod tokenizer;
pub mod laws;
pub mod parser;
pub mod util;
