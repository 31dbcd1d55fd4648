//! An XML document model: the lexical grammar of XML 1.0/1.1 as parsers over
//! borrowed text, and a node arena with mark-and-sweep collection that holds
//! the document tree.

pub mod errors;
pub mod object;
pub mod chars;
pub mod qname;
pub mod model;
pub mod node;
pub mod records;
pub mod tree_laws;
pub mod gc_laws;
pub mod arena;
pub mod gc;
pub mod symbols;
pub mod parse;
pub mod grammar;
pub mod reader;
pub mod ebnf;
pub mod block;
pub mod tree;
pub mod encoding;
pub mod stream;
pub mod lexer;
