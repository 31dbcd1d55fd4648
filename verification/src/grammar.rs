//! The grammar of XML, as functions of a text and a place in it. Each says
//! what a parser finds at that place: the token and where it ends, or how
//! the text fails to be the token.
//!
//! The text is read as far as it goes. Where a token could be longer if the
//! text were, the outcome is `Incomplete`: a run of name characters that
//! reaches the end of the text may go on in the text that follows.

pub mod dtd;
pub mod laws;
pub mod markup;
pub mod tokens;
