//! Lexical tokens, as handed to the engine by a tokenizer.
//!
//! The tokenizer itself is an external collaborator: the engine only reads
//! tokens, it never produces them. A token is a kind tag plus the source
//! slice it covers and the byte span of that slice.

use vstd::prelude::*;

verus! {

/// The kind of a lexical token.
#[derive(Debug, Clone, Copy, PartialEq, Eq, Structural)]
pub enum Token {
    /// The designated end-of-input marker. Always the last token.
    InputEnd,
    /// A single line break.
    LineBreak,
    /// Two or more consecutive line breaks.
    ParagraphBreak,
    /// A run of spaces or tabs.
    Whitespace,
    /// A run of ordinary text.
    Word,
    /// A run of one or more `>` markers opening a quoted line.
    Quote,
    /// A variable reference of the form `{$name}`.
    Variable,
    /// `[[`, opening a block head.
    LeftBlock,
    /// `[[/`, opening a block end tag.
    LeftBlockEnd,
    /// `]]`, closing a block head or end tag.
    RightBlock,
    /// A name inside a block head (block name or argument key).
    Identifier,
    /// `=` between an argument key and its value.
    Equals,
    /// A double-quoted argument value, quotes stripped.
    QuotedString,
    /// Any token kind this engine has no rule for.
    Other,
}

/// A classified lexical unit: kind, source slice, and byte span.
#[derive(Debug)]
pub struct ExtractedToken {
    pub token: Token,
    pub slice: String,
    pub span_start: usize,
    pub span_end: usize,
}

impl ExtractedToken {
    pub fn new(token: Token, slice: String, span_start: usize, span_end: usize) -> (r:
        ExtractedToken)
        ensures
            r.token == token,
            r.slice@ == slice@,
            r.span_start == span_start,
            r.span_end == span_end,
    {
        ExtractedToken { token, slice, span_start, span_end }
    }
}

} // verus!
