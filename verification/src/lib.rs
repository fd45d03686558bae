//! Parsing engine for a wiki markup dialect.
//!
//! Turns a stream of lexical tokens into a structured, renderer-agnostic
//! syntax tree, recovering locally from malformed input instead of aborting.

use vstd::prelude::*;

pub mod blockquote;
pub mod blocks;
pub mod collect;
pub mod consume;
pub mod data;
pub mod depth;
pub mod element;
pub mod errors;
pub mod filter;
pub mod line;
pub mod outside;
pub mod paragraph;
pub mod parse;
pub mod parser;
pub mod partial;
pub mod render;
pub mod result;
pub mod strings;
pub mod tokens;
pub mod variable;
pub mod variables;

verus! {

} // verus!
