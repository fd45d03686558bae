//! Partial elements: fragments only valid inside a specific parent.
//!
//! Certain rules (table rows, list items, tabs, ruby text) hand back
//! fragments that no other context may accept. Each fragment kind carries
//! the error kind to raise if it is ever found outside its required context,
//! and a marker flag says which kind (if any) the enclosing rule currently
//! expects.

use vstd::prelude::*;

use crate::element::{ListItem, RubyText, Tab, TableCell, TableRow};
use crate::errors::ParseErrorKind;

verus! {

/// Part of an element, as returned by a rule that only makes sense nested
/// inside a specific parent construct.
#[derive(Debug, PartialEq)]
pub enum PartialElement {
    /// An item or sub-list within some list.
    ListItem(ListItem),
    /// A row within some table.
    TableRow(TableRow),
    /// A cell within some table row.
    TableCell(TableCell),
    /// A particular tab within a tab view.
    Tab(Tab),
    /// Text associated with a ruby annotation.
    RubyText(RubyText),
}

/// The error kind a fragment raises when found outside its required context.
pub open spec fn partial_error_kind(p: PartialElement) -> ParseErrorKind {
    match p {
        PartialElement::ListItem(_) => ParseErrorKind::ListItemOutsideList,
        PartialElement::TableRow(_) => ParseErrorKind::TableRowOutsideTable,
        PartialElement::TableCell(_) => ParseErrorKind::TableCellOutsideTable,
        PartialElement::Tab(_) => ParseErrorKind::TabOutsideTabView,
        PartialElement::RubyText(_) => ParseErrorKind::RubyTextOutsideRuby,
    }
}

impl PartialElement {
    /// A display name for this fragment kind.
    pub fn name(&self) -> (r: &'static str)
        ensures
            self is ListItem ==> r@ == "ListItem"@,
            self is TableRow ==> r@ == "TableRow"@,
            self is TableCell ==> r@ == "TableCell"@,
            self is Tab ==> r@ == "Tab"@,
            self is RubyText ==> r@ == "RubyText"@,
    {
        match self {
            PartialElement::ListItem(_) => "ListItem",
            PartialElement::TableRow(_) => "TableRow",
            PartialElement::TableCell(_) => "TableCell",
            PartialElement::Tab(_) => "Tab",
            PartialElement::RubyText(_) => "RubyText",
        }
    }

    /// A structurally equivalent owned copy of this fragment.
    pub fn to_owned(&self) -> (r: PartialElement)
        ensures
            crate::element::partial_equiv(r, *self),
    {
        clone_partial(self)
    }

    /// The error kind to raise if this fragment is found outside its
    /// required context.
    pub fn parse_error_kind(&self) -> (r: ParseErrorKind)
        ensures
            r == partial_error_kind(*self),
    {
        match self {
            PartialElement::ListItem(_) => ParseErrorKind::ListItemOutsideList,
            PartialElement::TableRow(_) => ParseErrorKind::TableRowOutsideTable,
            PartialElement::TableCell(_) => ParseErrorKind::TableCellOutsideTable,
            PartialElement::Tab(_) => ParseErrorKind::TabOutsideTabView,
            PartialElement::RubyText(_) => ParseErrorKind::RubyTextOutsideRuby,
        }
    }
}

/// Which fragment kind (if any) the enclosing rule currently expects.
///
/// Exactly one value is active at a time; entering a nested scope saves the
/// previous value and restores it unconditionally on exit.
#[derive(Debug, Clone, Copy, PartialEq, Eq, Structural)]
pub enum AcceptsPartial {
    /// No fragment is expected: any partial element is an error.
    Nothing,
    ListItem,
    TableRow,
    TableCell,
    Tab,
    Ruby,
}

/// Copy one partial element.
pub fn clone_partial(p: &PartialElement) -> (r: PartialElement)
    ensures
        crate::element::partial_equiv(r, *p),
    decreases *p,
{
    match p {
        PartialElement::ListItem(item) => PartialElement::ListItem(
            crate::element::clone_list_item(item),
        ),
        PartialElement::TableRow(row) => PartialElement::TableRow(
            crate::element::clone_table_row(row),
        ),
        PartialElement::TableCell(cell) => PartialElement::TableCell(
            crate::element::clone_table_cell(cell),
        ),
        PartialElement::Tab(tab) => PartialElement::Tab(crate::element::clone_tab(tab)),
        PartialElement::RubyText(text) => PartialElement::RubyText(
            crate::element::clone_ruby_text(text),
        ),
    }
}

/// Whether the active flag accepts the given fragment kind.
pub open spec fn accepts_matches(accepts: AcceptsPartial, p: PartialElement) -> bool {
    match (accepts, p) {
        (AcceptsPartial::ListItem, PartialElement::ListItem(_)) => true,
        (AcceptsPartial::TableRow, PartialElement::TableRow(_)) => true,
        (AcceptsPartial::TableCell, PartialElement::TableCell(_)) => true,
        (AcceptsPartial::Tab, PartialElement::Tab(_)) => true,
        (AcceptsPartial::Ruby, PartialElement::RubyText(_)) => true,
        _ => false,
    }
}

impl AcceptsPartial {
    /// Whether this flag accepts the given fragment.
    pub fn matches(self, partial: &PartialElement) -> (r: bool)
        ensures
            r == accepts_matches(self, *partial),
    {
        match (self, partial) {
            (AcceptsPartial::ListItem, PartialElement::ListItem(_)) => true,
            (AcceptsPartial::TableRow, PartialElement::TableRow(_)) => true,
            (AcceptsPartial::TableCell, PartialElement::TableCell(_)) => true,
            (AcceptsPartial::Tab, PartialElement::Tab(_)) => true,
            (AcceptsPartial::Ruby, PartialElement::RubyText(_)) => true,
            _ => false,
        }
    }
}

} // verus!
