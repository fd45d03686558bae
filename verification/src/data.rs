//! Read-only context records handed to the engine, and the resolver data
//! for page inclusion.
//!
//! Page-inclusion fetching is an external collaborator: the host resolves
//! page references ahead of time and hands the outcomes in as plain data.
//! A page reference missing from the resolver data is a "no such page"
//! condition.

use vstd::prelude::*;

use crate::element::Element;

verus! {

/// Read-only information about the page being parsed.
#[derive(Debug)]
pub struct PageInfo {
    /// The category the page belongs to, if any.
    pub category: Option<String>,
    /// The name of the page.
    pub page: String,
}

/// The parsing mode/layout variant.
#[derive(Debug, Clone, Copy, PartialEq, Eq, Structural)]
pub enum WikitextMode {
    /// A full page: all constructs are allowed.
    Page,
    /// A draft or message: page-level constructs (inclusion) are refused.
    Draft,
}

/// Settings for one parse run.
#[derive(Debug)]
pub struct WikitextSettings {
    pub mode: WikitextMode,
    /// Whether page-level syntax (inclusion) is allowed.
    pub enable_page_syntax: bool,
}

impl WikitextSettings {
    /// The settings conventionally used for the given mode.
    pub fn from_mode(mode: WikitextMode) -> (r: WikitextSettings)
        ensures
            r.mode == mode,
            r.enable_page_syntax == (mode is Page),
    {
        let enable_page_syntax = match mode {
            WikitextMode::Page => true,
            WikitextMode::Draft => false,
        };
        WikitextSettings { mode, enable_page_syntax }
    }
}

/// The outcome of resolving one included page: its parsed elements plus the
/// side collections its own parse gathered.
#[derive(Debug)]
pub struct IncludedPage {
    /// The included page's top-level elements.
    pub elements: Vec<Element>,
    /// Whether all its elements are paragraph safe.
    pub paragraph_safe: bool,
    /// Raw HTML blocks discovered while parsing it.
    pub html_blocks: Vec<String>,
    /// Raw code blocks discovered while parsing it.
    pub code_blocks: Vec<String>,
    /// Table-of-contents depth markers discovered while parsing it.
    pub table_of_contents_depths: Vec<usize>,
    /// Footnote bodies discovered while parsing it.
    pub footnotes: Vec<Vec<Element>>,
    /// Bibliography blocks discovered while parsing it.
    pub bibliographies: Vec<Vec<Element>>,
    /// Whether it contained an explicit footnote block.
    pub has_footnote_block: bool,
}

} // verus!
