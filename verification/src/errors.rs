//! Parse errors: the reason a rule attempt failed, and where.

use vstd::prelude::*;

use crate::tokens::Token;

verus! {

/// Identifies the rule that was being attempted when an error arose.
#[derive(Debug, Clone, Copy, PartialEq, Eq, Structural)]
pub enum Rule {
    /// Nested native blockquotes built from `>` markers.
    Blockquote,
    /// Substitution of a `{$name}` variable reference.
    Variable,
    /// Literal text fallback: one token becomes a text element.
    Text,
    /// Dispatch of a `[[name ...]]` block to the matching block rule.
    Block,
    /// The `[[embed]]` block.
    BlockEmbed,
    /// The `[[hidden]]` block.
    BlockHidden,
    /// The `[[ifcategory]]` block.
    BlockIfCategory,
    /// The `[[include-elements]]` block.
    BlockIncludeElements,
    /// The `[[ins]]` block.
    BlockIns,
    /// The `[[lines]]` block.
    BlockLines,
    /// The `[[radio]]` block.
    BlockRadio,
    /// The `[[tabview]]` block.
    BlockTabView,
    /// The `[[tab]]` block.
    BlockTab,
}

/// Whether a rule may start anywhere or only at the start of a line.
#[derive(Debug, Clone, Copy, PartialEq, Eq, Structural)]
pub enum LineRequirement {
    Any,
    StartOfLine,
}

/// The reason a rule attempt failed or a diagnostic was recorded.
///
/// Most of these are recoverable: they are gathered alongside a successful
/// parse and reported at the end. A few abort the enclosing rule attempt,
/// in which case the dispatcher falls back to the next candidate rule or to
/// literal text.
#[derive(Debug, Clone, Copy, PartialEq, Eq, Structural)]
pub enum ParseErrorKind {
    /// The rule did not apply to the tokens it was attempted on.
    RuleFailed,
    /// Input ended before the rule could complete.
    EndOfInput,
    /// A block required arguments in its head, but none were given.
    BlockMissingArguments,
    /// A block's head arguments could not be understood.
    BlockMalformedArguments,
    /// A nested-quote marker run was deeper than the allowed maximum.
    BlockquoteDepthExceeded,
    /// A tab view block contained no tabs.
    TabViewEmpty,
    /// A tab view block contained something other than tabs.
    TabViewContainsNonTab,
    /// A list item fragment appeared outside of a list.
    ListItemOutsideList,
    /// A table row fragment appeared outside of a table.
    TableRowOutsideTable,
    /// A table cell fragment appeared outside of a table row.
    TableCellOutsideTable,
    /// A tab fragment appeared outside of a tab view.
    TabOutsideTabView,
    /// A ruby-text fragment appeared outside of a ruby annotation.
    RubyTextOutsideRuby,
    /// An embed block named a service this engine does not know.
    NoSuchEmbed,
    /// An included page could not be resolved.
    NoSuchPage,
}

/// A recoverable diagnostic: which rule failed, on which token, and why.
///
/// Carrying the token kind and span lets a consumer report *where* and *why*
/// without the parse having been aborted.
#[derive(Debug, Clone, Copy, PartialEq, Eq, Structural)]
pub struct ParseError {
    pub token: Token,
    pub rule: Rule,
    pub span_start: usize,
    pub span_end: usize,
    pub kind: ParseErrorKind,
}

impl ParseError {
    pub fn new(
        token: Token,
        rule: Rule,
        span_start: usize,
        span_end: usize,
        kind: ParseErrorKind,
    ) -> (r: ParseError)
        ensures
            r == (ParseError { token, rule, span_start, span_end, kind }),
    {
        ParseError { token, rule, span_start, span_end, kind }
    }

    pub fn kind(&self) -> (r: ParseErrorKind)
        ensures
            r == self.kind,
    {
        self.kind
    }
}

} // verus!
