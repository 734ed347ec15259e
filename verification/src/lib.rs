//! A scanner for JSON text that may also hold `//` line comments and
//! `/* */` block comments.
//!
//! [`scanner::Scanner`] walks the characters of an input text and hands out
//! one [`tokens::Token`] per call. What each call returns is fixed by the
//! grammar in [`grammar`], a set of spec functions over `Seq<char>`; the
//! general facts that follow from that grammar are proved in [`laws`]. The
//! few things that are taken on trust from the standard library stand in
//! [`std_specs`].

pub mod char_class;
pub mod common;
pub mod grammar;
pub mod laws;
pub mod scanner;
pub mod std_specs;
pub mod tokens;
