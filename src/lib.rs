//! A small language for the layout of paired-end sequencing reads
//! ("geometry strings"), its parser, and a compiler from each read
//! description to an ordered list of field-extraction operations.
pub mod ast;
pub mod compile;
pub mod grammar;
pub mod laws;
pub mod names;
pub mod ops;
pub mod parser;
