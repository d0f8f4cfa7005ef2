//! A calculator core: arithmetic text is compiled, by recursive descent, into a
//! postfix program of stack-machine operations.
pub mod grammar;
pub mod laws;
pub mod ops;
pub mod parser;
pub mod report;
pub mod text;
