//! A source-preserving pretty-printer for VHDL configuration declarations.
//!
//! The printer walks an already-parsed syntax tree whose nodes record the
//! token positions they were parsed from. Keywords and delimiters are copied
//! from the token stream; whitespace, line breaks and indentation are chosen
//! by the printer. What each printer appends is stated by the spec functions
//! of `layout`.
pub mod ast;
pub mod buffer;
pub mod configuration;
pub mod formatter;
pub mod laws;
pub mod layout;
pub mod token;
