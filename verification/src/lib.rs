//! A line/word/character/byte counting library in the style of the classic
//! `wc` tool.
//!
//! The counting engine, the accumulation model and the formatter are all
//! verified: every public function carries a contract describing exactly what
//! it computes, stated over sequence-level models of the input text.

pub mod cli_args;
pub mod display_options;
pub mod file_result;
pub mod text;
