//! The syntax tree: typed nodes produced by the engine.
//!
//! Containers own their children; children never reference a parent. Each
//! node is either *paragraph safe* (it may be nested inside an automatically
//! generated paragraph wrapper) or not; a container is paragraph safe only
//! if its type permits it and every child is paragraph safe.

use vstd::prelude::*;

use crate::partial::PartialElement;
use crate::strings::str_eq;

verus! {

broadcast use vstd::std_specs::vec::axiom_vec_index_decreases, vstd::std_specs::vec::axiom_vec_decreases_to_view;

/// The type tag of a container node. It determines whether the container
/// is inherently paragraph safe.
#[derive(Debug, Clone, Copy, PartialEq, Eq, Structural)]
pub enum ContainerType {
    /// An automatically generated paragraph wrapper.
    Paragraph,
    /// A nested native blockquote.
    Blockquote,
    /// Contents hidden from display.
    Hidden,
    /// An insertion (`<ins>`-style) span.
    Insertion,
    /// Bold inline styling.
    Bold,
    /// Italic inline styling.
    Italics,
    /// Underline inline styling.
    Underline,
    /// Superscript inline styling.
    Superscript,
    /// Subscript inline styling.
    Subscript,
}

impl ContainerType {
    /// Whether a container of this type may itself sit inside a paragraph.
    pub open spec fn spec_paragraph_safe(self) -> bool {
        match self {
            ContainerType::Paragraph => false,
            ContainerType::Blockquote => false,
            ContainerType::Hidden => false,
            ContainerType::Insertion => true,
            ContainerType::Bold => true,
            ContainerType::Italics => true,
            ContainerType::Underline => true,
            ContainerType::Superscript => true,
            ContainerType::Subscript => true,
        }
    }

    pub fn paragraph_safe(self) -> (r: bool)
        ensures
            r == self.spec_paragraph_safe(),
    {
        match self {
            ContainerType::Insertion => true,
            ContainerType::Bold => true,
            ContainerType::Italics => true,
            ContainerType::Underline => true,
            ContainerType::Superscript => true,
            ContainerType::Subscript => true,
            _ => false,
        }
    }
}

/// An ordered attribute list: `(key, value)` pairs in insertion order.
#[derive(Debug, PartialEq)]
pub struct AttributeMap {
    pub entries: Vec<(String, String)>,
}

impl AttributeMap {
    /// An empty attribute map.
    pub fn new() -> (r: AttributeMap)
        ensures
            r.entries@ =~= Seq::<(String, String)>::empty(),
    {
        AttributeMap { entries: Vec::new() }
    }

    /// Wrap an entry list as an attribute map.
    pub fn from_entries(entries: Vec<(String, String)>) -> (r: AttributeMap)
        ensures
            r.entries@ == entries@,
    {
        AttributeMap { entries }
    }

    /// The value of the first entry with the given key, if any.
    pub fn get(&self, key: &str) -> (r: Option<&String>)
        ensures
            match r {
                Some(v) => exists|i: int|
                    0 <= i < self.entries@.len() && #[trigger] self.entries@[i].0@ == key@
                        && self.entries@[i].1 == v
                        && forall|j: int|
                        0 <= j < i ==> #[trigger] self.entries@[j].0@ != key@,
                None => forall|i: int|
                    0 <= i < self.entries@.len() ==> #[trigger] self.entries@[i].0@ != key@,
            },
    {
        let mut i: usize = 0;
        while i < self.entries.len()
            invariant
                0 <= i <= self.entries@.len(),
                forall|j: int| 0 <= j < i ==> #[trigger] self.entries@[j].0@ != key@,
            decreases self.entries@.len() - i,
        {
            if str_eq(self.entries[i].0.as_str(), key) {
                return Some(&self.entries[i].1);
            }
            i = i + 1;
        }
        None
    }
}

/// A container node: a type tag, ordered children, and attributes.
#[derive(Debug, PartialEq)]
pub struct Container {
    pub ctype: ContainerType,
    pub elements: Vec<Element>,
    pub attributes: AttributeMap,
}

impl Container {
    pub fn new(ctype: ContainerType, elements: Vec<Element>, attributes: AttributeMap) -> (r:
        Container)
        ensures
            r.ctype == ctype,
            r.elements == elements,
            r.attributes == attributes,
    {
        Container { ctype, elements, attributes }
    }
}

/// An embedded external media reference.
#[derive(Debug, PartialEq)]
pub enum Embed {
    Youtube { video_id: String },
    Vimeo { video_id: String },
    GithubGist { username: String, hash: String },
    GitlabSnippet { snippet_id: String },
}

/// One tab within a tab view.
#[derive(Debug, PartialEq)]
pub struct Tab {
    pub label: String,
    pub elements: Vec<Element>,
}

/// One item of a list: either direct contents or a nested sub-list.
#[derive(Debug, PartialEq)]
pub enum ListItem {
    Elements { elements: Vec<Element>, attributes: AttributeMap },
    SubList { element: Box<Element> },
}

/// The flavor of a list.
#[derive(Debug, Clone, Copy, PartialEq, Eq, Structural)]
pub enum ListType {
    Bullet,
    Numbered,
}

/// A row within a table.
#[derive(Debug, PartialEq)]
pub struct TableRow {
    pub cells: Vec<TableCell>,
    pub attributes: AttributeMap,
}

/// A cell within a table row.
#[derive(Debug, PartialEq)]
pub struct TableCell {
    pub elements: Vec<Element>,
    pub attributes: AttributeMap,
}

/// Text attached to a ruby annotation.
#[derive(Debug, PartialEq)]
pub struct RubyText {
    pub elements: Vec<Element>,
    pub attributes: AttributeMap,
}

/// One key/value pair of a definition list.
#[derive(Debug, PartialEq)]
pub struct DefinitionListItem {
    pub key_elements: Vec<Element>,
    pub value_elements: Vec<Element>,
}

/// A node of the produced syntax tree.
#[derive(Debug, PartialEq)]
pub enum Element {
    /// A literal text run.
    Text(String),
    /// A container holding ordered children.
    Container(Container),
    /// A single line break.
    LineBreak,
    /// A requested run of line breaks; the count is between 1 and 100.
    LineBreaks(u32),
    /// A variable reference `{$name}`, holding the name.
    Variable(String),
    /// Elements included from another page.
    Include {
        paragraph_safe: bool,
        location: String,
        variables: Vec<(String, String)>,
        elements: Vec<Element>,
    },
    /// Embedded external media.
    Embed(Embed),
    /// A tab view and its tabs.
    TabView(Vec<Tab>),
    /// A fragment only valid inside a specific parent construct.
    Partial(PartialElement),
    /// A radio button input.
    RadioButton { name: String, attributes: AttributeMap },
    /// A raw code block.
    Code { contents: String, language: Option<String> },
    /// A display-style mathematics block.
    MathBlock { name: Option<String>, latex_source: String },
    /// Inline mathematics.
    MathInline { latex_source: String },
    /// A reference to a numbered equation.
    EquationReference(String),
    /// A footnote reference marker.
    Footnote,
    /// The block listing all footnotes.
    FootnoteBlock { title: Option<String> },
    /// A user info reference.
    User { name: String, show_avatar: bool },
    /// A definition list.
    DefinitionList(Vec<DefinitionListItem>),
    /// A bulleted or numbered list.
    List { ltype: ListType, items: Vec<ListItem>, attributes: AttributeMap },
}

/// Zero or more elements produced by one rule attempt.
#[derive(Debug, PartialEq)]
pub enum Elements {
    /// No elements were produced.
    Nothing,
    /// Exactly one element.
    Single(Element),
    /// Any number of elements.
    Multiple(Vec<Element>),
}

/// The elements produced, as a sequence.
pub open spec fn elements_seq(e: Elements) -> Seq<Element> {
    match e {
        Elements::Nothing => Seq::empty(),
        Elements::Single(elem) => seq![elem],
        Elements::Multiple(v) => v@,
    }
}

impl Elements {
    /// Unwrap into a plain element list.
    pub fn into_vec(self) -> (r: Vec<Element>)
        ensures
            r@ == elements_seq(self),
    {
        match self {
            Elements::Nothing => Vec::new(),
            Elements::Single(elem) => {
                let mut v = Vec::new();
                v.push(elem);
                proof {
                    assert(v@ =~= elements_seq(self));
                }
                v
            },
            Elements::Multiple(v) => v,
        }
    }
}

/// Whether an element may be nested inside an automatically generated
/// paragraph wrapper.
pub open spec fn elem_paragraph_safe(e: Element) -> bool
    decreases e,
{
    match e {
        Element::Text(_) => true,
        Element::Container(c) => c.ctype.spec_paragraph_safe() && elems_paragraph_safe(
            c.elements@,
        ),
        Element::LineBreak => true,
        Element::LineBreaks(_) => false,
        Element::Variable(_) => true,
        Element::Include { paragraph_safe, .. } => paragraph_safe,
        Element::Embed(_) => false,
        Element::TabView(_) => false,
        Element::Partial(_) => false,
        Element::RadioButton { .. } => true,
        Element::Code { .. } => false,
        Element::MathBlock { .. } => false,
        Element::MathInline { .. } => true,
        Element::EquationReference(_) => true,
        Element::Footnote => true,
        Element::FootnoteBlock { .. } => false,
        Element::User { .. } => true,
        Element::DefinitionList(_) => false,
        Element::List { .. } => false,
    }
}

/// Whether every element of a sequence is paragraph safe.
pub open spec fn elems_paragraph_safe(elems: Seq<Element>) -> bool
    decreases elems,
{
    forall|i: int| 0 <= i < elems.len() ==> elem_paragraph_safe(#[trigger] elems[i])
}

impl Element {
    /// Compute paragraph safety of this node.
    #[verifier::loop_isolation(false)]
    pub fn paragraph_safe(&self) -> (r: bool)
        ensures
            r == elem_paragraph_safe(*self),
        decreases *self,
    {
        match self {
            Element::Text(_) => true,
            Element::Container(c) => {
                if !c.ctype.paragraph_safe() {
                    false
                } else {
                    let mut i: usize = 0;
                    let mut all_safe = true;
                    while i < c.elements.len()
                        invariant
                            0 <= i <= c.elements@.len(),
                            all_safe == (forall|j: int|
                                0 <= j < i ==> elem_paragraph_safe(#[trigger] c.elements@[j])),
                        decreases c.elements@.len() - i,
                    {
                        proof {
                            assert(*c == self->Container_0);
                            assert(decreases_to!(*self => self->Container_0));
                            assert(decreases_to!(*c => c.elements));
                            assert(decreases_to!(c.elements => c.elements@));
                            assert(decreases_to!(c.elements@ => c.elements@[i as int]));
                            assert(decreases_to!(*self => c.elements@[i as int]));
                        }
                        let safe = c.elements[i].paragraph_safe();
                        all_safe = all_safe && safe;
                        i = i + 1;
                    }
                    all_safe
                }
            },
            Element::LineBreak => true,
            Element::LineBreaks(_) => false,
            Element::Variable(_) => true,
            Element::Include { paragraph_safe, .. } => *paragraph_safe,
            Element::Embed(_) => false,
            Element::TabView(_) => false,
            Element::Partial(_) => false,
            Element::RadioButton { .. } => true,
            Element::Code { .. } => false,
            Element::MathBlock { .. } => false,
            Element::MathInline { .. } => true,
            Element::EquationReference(_) => true,
            Element::Footnote => true,
            Element::FootnoteBlock { .. } => false,
            Element::User { .. } => true,
            Element::DefinitionList(_) => false,
            Element::List { .. } => false,
        }
    }
}

// Structural equivalence: two values are equivalent when they hold the
// same data, looking through container identity (a copy of a vector is a
// different vector value holding an equal sequence). The deep-copy helpers
// below are verified to produce equivalent values.

/// Equivalence of optional strings, by contents.
pub open spec fn opt_string_equiv(a: Option<String>, b: Option<String>) -> bool {
    match (a, b) {
        (Some(x), Some(y)) => x@ == y@,
        (None, None) => true,
        _ => false,
    }
}

/// Equivalence of attribute maps, by entries.
pub open spec fn attrs_equiv(a: AttributeMap, b: AttributeMap) -> bool {
    a.entries@ == b.entries@
}

/// Equivalence of embeds, by contents.
pub open spec fn embed_equiv(a: Embed, b: Embed) -> bool {
    match (a, b) {
        (Embed::Youtube { video_id: x }, Embed::Youtube { video_id: y }) => x@ == y@,
        (Embed::Vimeo { video_id: x }, Embed::Vimeo { video_id: y }) => x@ == y@,
        (
            Embed::GithubGist { username: ua, hash: ha },
            Embed::GithubGist { username: ub, hash: hb },
        ) => ua@ == ub@ && ha@ == hb@,
        (
            Embed::GitlabSnippet { snippet_id: x },
            Embed::GitlabSnippet { snippet_id: y },
        ) => x@ == y@,
        _ => false,
    }
}

/// Structural equivalence of element sequences.
pub open spec fn elems_equiv(a: Seq<Element>, b: Seq<Element>) -> bool
    decreases a,
{
    a.len() == b.len() && forall|i: int|
        0 <= i < a.len() ==> elem_equiv(#[trigger] a[i], b[i])
}

/// Structural equivalence of tabs.
pub open spec fn tab_equiv(a: Tab, b: Tab) -> bool
    decreases a,
{
    a.label@ == b.label@ && elems_equiv(a.elements@, b.elements@)
}

/// Structural equivalence of tab sequences.
pub open spec fn tabs_equiv(a: Seq<Tab>, b: Seq<Tab>) -> bool
    decreases a,
{
    a.len() == b.len() && forall|i: int| 0 <= i < a.len() ==> tab_equiv(#[trigger] a[i], b[i])
}

/// Structural equivalence of list items.
pub open spec fn list_item_equiv(a: ListItem, b: ListItem) -> bool
    decreases a,
{
    match (a, b) {
        (
            ListItem::Elements { elements: ea, attributes: aa },
            ListItem::Elements { elements: eb, attributes: ab },
        ) => elems_equiv(ea@, eb@) && attrs_equiv(aa, ab),
        (ListItem::SubList { element: xa }, ListItem::SubList { element: xb }) => elem_equiv(
            *xa,
            *xb,
        ),
        _ => false,
    }
}

/// Structural equivalence of list-item sequences.
pub open spec fn list_items_equiv(a: Seq<ListItem>, b: Seq<ListItem>) -> bool
    decreases a,
{
    a.len() == b.len() && forall|i: int|
        0 <= i < a.len() ==> list_item_equiv(#[trigger] a[i], b[i])
}

/// Structural equivalence of table cells.
pub open spec fn table_cell_equiv(a: TableCell, b: TableCell) -> bool
    decreases a,
{
    elems_equiv(a.elements@, b.elements@) && attrs_equiv(a.attributes, b.attributes)
}

/// Structural equivalence of table rows.
pub open spec fn table_row_equiv(a: TableRow, b: TableRow) -> bool
    decreases a,
{
    &&& a.cells@.len() == b.cells@.len()
    &&& forall|i: int| 0 <= i < a.cells@.len() ==> table_cell_equiv(#[trigger] a.cells@[i], b.cells@[i])
    &&& attrs_equiv(a.attributes, b.attributes)
}

/// Structural equivalence of ruby text.
pub open spec fn ruby_text_equiv(a: RubyText, b: RubyText) -> bool
    decreases a,
{
    elems_equiv(a.elements@, b.elements@) && attrs_equiv(a.attributes, b.attributes)
}

/// Structural equivalence of definition-list items.
pub open spec fn definition_list_items_equiv(
    a: Seq<DefinitionListItem>,
    b: Seq<DefinitionListItem>,
) -> bool
    decreases a,
{
    a.len() == b.len() && forall|i: int|
        0 <= i < a.len() ==> elems_equiv(#[trigger] a[i].key_elements@, b[i].key_elements@)
            && elems_equiv(a[i].value_elements@, b[i].value_elements@)
}

/// Structural equivalence of partial elements.
pub open spec fn partial_equiv(a: PartialElement, b: PartialElement) -> bool
    decreases a,
{
    match (a, b) {
        (PartialElement::ListItem(x), PartialElement::ListItem(y)) => list_item_equiv(x, y),
        (PartialElement::TableRow(x), PartialElement::TableRow(y)) => table_row_equiv(x, y),
        (PartialElement::TableCell(x), PartialElement::TableCell(y)) => table_cell_equiv(x, y),
        (PartialElement::Tab(x), PartialElement::Tab(y)) => tab_equiv(x, y),
        (PartialElement::RubyText(x), PartialElement::RubyText(y)) => ruby_text_equiv(x, y),
        _ => false,
    }
}

/// Structural equivalence of elements.
pub open spec fn elem_equiv(a: Element, b: Element) -> bool
    decreases a,
{
    match (a, b) {
        (Element::Text(x), Element::Text(y)) => x@ == y@,
        (Element::Container(c), Element::Container(d)) => c.ctype == d.ctype && elems_equiv(
            c.elements@,
            d.elements@,
        ) && attrs_equiv(c.attributes, d.attributes),
        (Element::LineBreak, Element::LineBreak) => true,
        (Element::LineBreaks(m), Element::LineBreaks(n)) => m == n,
        (Element::Variable(x), Element::Variable(y)) => x@ == y@,
        (
            Element::Include { paragraph_safe: pa, location: la, variables: va, elements: ea },
            Element::Include { paragraph_safe: pb, location: lb, variables: vb, elements: eb },
        ) => pa == pb && la@ == lb@ && va@ == vb@ && elems_equiv(ea@, eb@),
        (Element::Embed(x), Element::Embed(y)) => embed_equiv(x, y),
        (Element::TabView(x), Element::TabView(y)) => tabs_equiv(x@, y@),
        (Element::Partial(p), Element::Partial(q)) => partial_equiv(p, q),
        (
            Element::RadioButton { name: na, attributes: aa },
            Element::RadioButton { name: nb, attributes: ab },
        ) => na@ == nb@ && attrs_equiv(aa, ab),
        (
            Element::Code { contents: ca, language: la },
            Element::Code { contents: cb, language: lb },
        ) => ca@ == cb@ && opt_string_equiv(la, lb),
        (
            Element::MathBlock { name: na, latex_source: sa },
            Element::MathBlock { name: nb, latex_source: sb },
        ) => opt_string_equiv(na, nb) && sa@ == sb@,
        (
            Element::MathInline { latex_source: sa },
            Element::MathInline { latex_source: sb },
        ) => sa@ == sb@,
        (Element::EquationReference(x), Element::EquationReference(y)) => x@ == y@,
        (Element::Footnote, Element::Footnote) => true,
        (Element::FootnoteBlock { title: ta }, Element::FootnoteBlock { title: tb }) => opt_string_equiv(
            ta,
            tb,
        ),
        (
            Element::User { name: na, show_avatar: sa },
            Element::User { name: nb, show_avatar: sb },
        ) => na@ == nb@ && sa == sb,
        (Element::DefinitionList(x), Element::DefinitionList(y)) => definition_list_items_equiv(
            x@,
            y@,
        ),
        (
            Element::List { ltype: ta, items: ia, attributes: aa },
            Element::List { ltype: tb, items: ib, attributes: ab },
        ) => ta == tb && list_items_equiv(ia@, ib@) && attrs_equiv(aa, ab),
        _ => false,
    }
}

// Deep-copy helpers, each verified to produce a value structurally
// equivalent to its input. The engine copies element trees when merging an
// included page's contents into the current parse.

/// Copy an optional string.
pub fn clone_opt_string(v: &Option<String>) -> (r: Option<String>)
    ensures
        opt_string_equiv(r, *v),
{
    match v {
        Some(s) => Some(s.clone()),
        None => None,
    }
}

/// Copy a list of string pairs.
pub fn clone_string_pairs(v: &Vec<(String, String)>) -> (r: Vec<(String, String)>)
    ensures
        r@ == v@,
{
    let mut out: Vec<(String, String)> = Vec::new();
    let mut i: usize = 0;
    while i < v.len()
        invariant
            0 <= i <= v@.len(),
            out@ =~= v@.subrange(0, i as int),
        decreases v@.len() - i,
    {
        out.push((v[i].0.clone(), v[i].1.clone()));
        proof {
            assert(out@ =~= v@.subrange(0, i as int + 1));
        }
        i = i + 1;
    }
    proof {
        assert(out@ =~= v@);
    }
    out
}

/// Copy a list of strings.
pub fn clone_strings(v: &Vec<String>) -> (r: Vec<String>)
    ensures
        r@ == v@,
{
    let mut out: Vec<String> = Vec::new();
    let mut i: usize = 0;
    while i < v.len()
        invariant
            0 <= i <= v@.len(),
            out@ =~= v@.subrange(0, i as int),
        decreases v@.len() - i,
    {
        out.push(v[i].clone());
        proof {
            assert(out@ =~= v@.subrange(0, i as int + 1));
        }
        i = i + 1;
    }
    proof {
        assert(out@ =~= v@);
    }
    out
}

/// Copy an attribute map.
pub fn clone_attribute_map(m: &AttributeMap) -> (r: AttributeMap)
    ensures
        attrs_equiv(r, *m),
{
    AttributeMap { entries: clone_string_pairs(&m.entries) }
}

/// Copy an element list.
#[verifier::loop_isolation(false)]
pub fn clone_elements(v: &Vec<Element>) -> (r: Vec<Element>)
    ensures
        elems_equiv(r@, v@),
    decreases *v,
{
    let mut out: Vec<Element> = Vec::new();
    let mut i: usize = 0;
    while i < v.len()
        invariant
            0 <= i <= v@.len(),
            out@.len() == i,
            forall|j: int| 0 <= j < i ==> elem_equiv(#[trigger] out@[j], v@[j]),
        decreases v@.len() - i,
    {
        proof {
            assert(decreases_to!(*v => v@));
            assert(decreases_to!(v@ => v@[i as int]));
        }
        out.push(clone_element(&v[i]));
        i = i + 1;
    }
    out
}

/// Copy one tab.
pub fn clone_tab(t: &Tab) -> (r: Tab)
    ensures
        tab_equiv(r, *t),
    decreases *t,
{
    Tab { label: t.label.clone(), elements: clone_elements(&t.elements) }
}

/// Copy a tab list.
#[verifier::loop_isolation(false)]
pub fn clone_tabs(v: &Vec<Tab>) -> (r: Vec<Tab>)
    ensures
        tabs_equiv(r@, v@),
    decreases *v,
{
    let mut out: Vec<Tab> = Vec::new();
    let mut i: usize = 0;
    while i < v.len()
        invariant
            0 <= i <= v@.len(),
            out@.len() == i,
            forall|j: int| 0 <= j < i ==> tab_equiv(#[trigger] out@[j], v@[j]),
        decreases v@.len() - i,
    {
        proof {
            assert(decreases_to!(*v => v@));
            assert(decreases_to!(v@ => v@[i as int]));
        }
        out.push(clone_tab(&v[i]));
        i = i + 1;
    }
    out
}

/// Copy one list item.
pub fn clone_list_item(item: &ListItem) -> (r: ListItem)
    ensures
        list_item_equiv(r, *item),
    decreases *item,
{
    match item {
        ListItem::Elements { elements, attributes } => ListItem::Elements {
            elements: clone_elements(elements),
            attributes: clone_attribute_map(attributes),
        },
        ListItem::SubList { element } => ListItem::SubList {
            element: Box::new(clone_element(element)),
        },
    }
}

/// Copy a list-item list.
#[verifier::loop_isolation(false)]
pub fn clone_list_items(v: &Vec<ListItem>) -> (r: Vec<ListItem>)
    ensures
        list_items_equiv(r@, v@),
    decreases *v,
{
    let mut out: Vec<ListItem> = Vec::new();
    let mut i: usize = 0;
    while i < v.len()
        invariant
            0 <= i <= v@.len(),
            out@.len() == i,
            forall|j: int| 0 <= j < i ==> list_item_equiv(#[trigger] out@[j], v@[j]),
        decreases v@.len() - i,
    {
        proof {
            assert(decreases_to!(*v => v@));
            assert(decreases_to!(v@ => v@[i as int]));
        }
        out.push(clone_list_item(&v[i]));
        i = i + 1;
    }
    out
}

/// Copy one table cell.
pub fn clone_table_cell(c: &TableCell) -> (r: TableCell)
    ensures
        table_cell_equiv(r, *c),
    decreases *c,
{
    TableCell {
        elements: clone_elements(&c.elements),
        attributes: clone_attribute_map(&c.attributes),
    }
}

/// Copy one table row.
#[verifier::loop_isolation(false)]
pub fn clone_table_row(row: &TableRow) -> (r: TableRow)
    ensures
        table_row_equiv(r, *row),
    decreases *row,
{
    let mut cells: Vec<TableCell> = Vec::new();
    let mut i: usize = 0;
    while i < row.cells.len()
        invariant
            0 <= i <= row.cells@.len(),
            cells@.len() == i,
            forall|j: int| 0 <= j < i ==> table_cell_equiv(#[trigger] cells@[j], row.cells@[j]),
        decreases row.cells@.len() - i,
    {
        proof {
            assert(decreases_to!(*row => row.cells));
            assert(decreases_to!(row.cells => row.cells@));
            assert(decreases_to!(row.cells@ => row.cells@[i as int]));
        }
        cells.push(clone_table_cell(&row.cells[i]));
        i = i + 1;
    }
    TableRow { cells, attributes: clone_attribute_map(&row.attributes) }
}

/// Copy ruby-annotation text.
pub fn clone_ruby_text(t: &RubyText) -> (r: RubyText)
    ensures
        ruby_text_equiv(r, *t),
    decreases *t,
{
    RubyText {
        elements: clone_elements(&t.elements),
        attributes: clone_attribute_map(&t.attributes),
    }
}

/// Copy a definition-list item list.
#[verifier::loop_isolation(false)]
pub fn clone_definition_list_items(v: &Vec<DefinitionListItem>) -> (r: Vec<DefinitionListItem>)
    ensures
        definition_list_items_equiv(r@, v@),
    decreases *v,
{
    let mut out: Vec<DefinitionListItem> = Vec::new();
    let mut i: usize = 0;
    while i < v.len()
        invariant
            0 <= i <= v@.len(),
            out@.len() == i,
            forall|j: int|
                0 <= j < i ==> elems_equiv(#[trigger] out@[j].key_elements@, v@[j].key_elements@),
            forall|j: int|
                0 <= j < i ==> elems_equiv(
                    #[trigger] out@[j].value_elements@,
                    v@[j].value_elements@,
                ),
        decreases v@.len() - i,
    {
        proof {
            assert(decreases_to!(*v => v@));
            assert(decreases_to!(v@ => v@[i as int]));
        }
        let item = DefinitionListItem {
            key_elements: clone_elements(&v[i].key_elements),
            value_elements: clone_elements(&v[i].value_elements),
        };
        out.push(item);
        i = i + 1;
    }
    out
}

/// Whether an element is nothing but whitespace: a line break, or a text
/// run of whitespace characters.
pub open spec fn all_whitespace_element(e: Element) -> bool {
    ||| e is LineBreak
    ||| (e is Text && crate::strings::all_whitespace(e->Text_0@))
}

/// Copy a list of values that copy freely.
pub fn clone_copy_vec<T: Copy>(v: &Vec<T>) -> (r: Vec<T>)
    ensures
        r@ == v@,
{
    let mut out: Vec<T> = Vec::new();
    let mut i: usize = 0;
    while i < v.len()
        invariant
            0 <= i <= v@.len(),
            out@ =~= v@.subrange(0, i as int),
        decreases v@.len() - i,
    {
        out.push(v[i]);
        proof {
            assert(out@ =~= v@.subrange(0, i as int + 1));
        }
        i = i + 1;
    }
    proof {
        assert(out@ =~= v@);
    }
    out
}

/// Copy a footnote list: one element list per footnote.
#[verifier::loop_isolation(false)]
pub fn clone_footnotes(v: &Vec<Vec<Element>>) -> (r: Vec<Vec<Element>>)
    ensures
        r@.len() == v@.len(),
        forall|i: int| 0 <= i < v@.len() ==> elems_equiv(#[trigger] r@[i]@, v@[i]@),
{
    let mut out: Vec<Vec<Element>> = Vec::new();
    let mut i: usize = 0;
    while i < v.len()
        invariant
            0 <= i <= v@.len(),
            out@.len() == i,
            forall|j: int| 0 <= j < i ==> elems_equiv(#[trigger] out@[j]@, v@[j]@),
        decreases v@.len() - i,
    {
        out.push(clone_elements(&v[i]));
        i = i + 1;
    }
    out
}

/// Copy one element tree.
pub fn clone_element(e: &Element) -> (r: Element)
    ensures
        elem_equiv(r, *e),
    decreases *e,
{
    match e {
        Element::Text(s) => Element::Text(s.clone()),
        Element::Container(c) => Element::Container(
            Container {
                ctype: c.ctype,
                elements: clone_elements(&c.elements),
                attributes: clone_attribute_map(&c.attributes),
            },
        ),
        Element::LineBreak => Element::LineBreak,
        Element::LineBreaks(n) => Element::LineBreaks(*n),
        Element::Variable(s) => Element::Variable(s.clone()),
        Element::Include { paragraph_safe, location, variables, elements } => Element::Include {
            paragraph_safe: *paragraph_safe,
            location: location.clone(),
            variables: clone_string_pairs(variables),
            elements: clone_elements(elements),
        },
        Element::Embed(embed) => Element::Embed(
            match embed {
                Embed::Youtube { video_id } => Embed::Youtube { video_id: video_id.clone() },
                Embed::Vimeo { video_id } => Embed::Vimeo { video_id: video_id.clone() },
                Embed::GithubGist { username, hash } => Embed::GithubGist {
                    username: username.clone(),
                    hash: hash.clone(),
                },
                Embed::GitlabSnippet { snippet_id } => Embed::GitlabSnippet {
                    snippet_id: snippet_id.clone(),
                },
            },
        ),
        Element::TabView(tabs) => Element::TabView(clone_tabs(tabs)),
        Element::Partial(p) => Element::Partial(crate::partial::clone_partial(p)),
        Element::RadioButton { name, attributes } => Element::RadioButton {
            name: name.clone(),
            attributes: clone_attribute_map(attributes),
        },
        Element::Code { contents, language } => Element::Code {
            contents: contents.clone(),
            language: clone_opt_string(language),
        },
        Element::MathBlock { name, latex_source } => Element::MathBlock {
            name: clone_opt_string(name),
            latex_source: latex_source.clone(),
        },
        Element::MathInline { latex_source } => Element::MathInline {
            latex_source: latex_source.clone(),
        },
        Element::EquationReference(s) => Element::EquationReference(s.clone()),
        Element::Footnote => Element::Footnote,
        Element::FootnoteBlock { title } => Element::FootnoteBlock {
            title: clone_opt_string(title),
        },
        Element::User { name, show_avatar } => Element::User {
            name: name.clone(),
            show_avatar: *show_avatar,
        },
        Element::DefinitionList(items) => Element::DefinitionList(
            clone_definition_list_items(items),
        ),
        Element::List { ltype, items, attributes } => Element::List {
            ltype: *ltype,
            items: clone_list_items(items),
            attributes: clone_attribute_map(attributes),
        },
    }
}

} // verus!
