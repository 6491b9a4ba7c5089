//! Lexical analysis for a small scripting language: source text in, an
//! ordered sequence of classified tokens and a list of diagnostics out.
//!
//! `grammar` says what a pass over a text yields, `scanner` computes it,
//! and `laws` states what holds of every pass.

pub mod err_report;
pub mod grammar;
pub mod laws;
pub mod scanner;
pub mod text;
pub mod token;
