//! Core of a keypad calculator: a guarded expression buffer.
//!
//! The buffer holds an arithmetic expression built one character at a time
//! from button presses (digits, operators, a decimal point, parentheses).
//! Every insertion is gated by an adjacency guard so the text always stays a
//! prefix of a syntactically valid expression; a retroactive validator covers
//! text typed directly into the field; a completeness check gates evaluation,
//! which is handed to the `meval` crate.

pub mod calculator;
pub mod eval;
pub mod rules;
