//! The parsers of the grammar, each reading at a place of a text.

pub mod dtd;
pub mod markup;
pub mod tokens;
