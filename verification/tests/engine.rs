//! Tests for the core engine: cursor, collection, paragraph stack, depth
//! lists, blockquotes, partial scoping, and the top-level driver.

use ftml::data::{IncludedPage, PageInfo, WikitextMode, WikitextSettings};
use ftml::depth::{process_depths, DepthItem};
use ftml::element::{AttributeMap, Container, ContainerType, Element};
use ftml::errors::ParseErrorKind;
use ftml::paragraph::ParagraphStack;
use ftml::parse::{parse, SyntaxTree};
use ftml::parser::{Parser, ParserWrap};
use ftml::partial::{AcceptsPartial, PartialElement};
use ftml::tokens::{ExtractedToken, Token};

fn tok(kind: Token, slice: &str) -> ExtractedToken {
    ExtractedToken::new(kind, slice.to_string(), 0, slice.len())
}

fn page_info() -> PageInfo {
    PageInfo {
        category: None,
        page: "page".to_string(),
    }
}

fn settings() -> WikitextSettings {
    WikitextSettings::from_mode(WikitextMode::Page)
}

fn parse_tokens(tokens: Vec<ExtractedToken>) -> SyntaxTree {
    parse(tokens, page_info(), settings(), Vec::new())
}

fn text(s: &str) -> Element {
    Element::Text(s.to_string())
}

fn paragraph(elements: Vec<Element>) -> Element {
    Element::Container(Container::new(
        ContainerType::Paragraph,
        elements,
        AttributeMap::new(),
    ))
}

fn blockquote(elements: Vec<Element>) -> Element {
    Element::Container(Container::new(
        ContainerType::Blockquote,
        elements,
        AttributeMap::new(),
    ))
}

#[test]
fn wrap() {
    let tokens = vec![tok(Token::Word, "Test"), tok(Token::Whitespace, " "), tok(Token::Word, "input")];
    let mut parser = Parser::new(tokens, page_info(), settings(), Vec::new());

    assert_eq!(
        parser.accepts_partial(),
        AcceptsPartial::Nothing,
        "Initial partial flag is not none",
    );

    {
        let wrap = ParserWrap::new(&mut parser, AcceptsPartial::ListItem);

        assert_eq!(
            parser.accepts_partial(),
            AcceptsPartial::ListItem,
            "Partial flag wasn't set",
        );

        parser.step().expect("Unable to step");
        wrap.finish(&mut parser);
    }

    assert_eq!(
        parser.accepts_partial(),
        AcceptsPartial::Nothing,
        "Partial flag wasn't cleared after drop",
    );
}

#[test]
fn depth_triples_build_nested_tree() {
    let triples = vec![
        (0usize, (), "a".to_string()),
        (1usize, (), "b".to_string()),
        (0usize, (), "c".to_string()),
    ];
    let lists = process_depths((), triples);
    assert_eq!(lists.len(), 1);
    let (_, list) = &lists[0];
    let expected = vec![
        DepthItem::Item("a".to_string()),
        DepthItem::List((), vec![DepthItem::Item("b".to_string())]),
        DepthItem::Item("c".to_string()),
    ];
    assert_eq!(*list, expected);
}

fn flatten_items(list: &Vec<DepthItem<(), String>>, out: &mut Vec<String>) {
    for item in list {
        match item {
            DepthItem::Item(v) => out.push(v.clone()),
            DepthItem::List(_, sub) => flatten_items(sub, out),
        }
    }
}

#[test]
fn depth_round_trip_preserves_order() {
    let payloads = ["p", "q", "r", "s", "t", "u"];
    let depths = [2usize, 0, 3, 3, 1, 0];
    let mut triples = Vec::new();
    for (i, p) in payloads.iter().enumerate() {
        triples.push((depths[i], (), p.to_string()));
    }
    let lists = process_depths((), triples);
    assert_eq!(lists.len(), 1);
    let mut flat = Vec::new();
    flatten_items(&lists[0].1, &mut flat);
    let expected: Vec<String> = payloads.iter().map(|p| p.to_string()).collect();
    assert_eq!(flat, expected);
}

#[test]
fn depth_empty_input_builds_nothing() {
    let lists = process_depths::<(), String>((), Vec::new());
    assert!(lists.is_empty());
}

#[test]
fn paragraph_stack_wraps_safe_elements() {
    let mut stack = ParagraphStack::new();
    stack.push_element(text("a"), true);
    stack.push_element(text("b"), true);
    stack.push_element(text("c"), true);
    let result = stack.into_result().expect("paragraph stack never fails");
    let (elements, errors, paragraph_safe) = result.into_parts();
    assert_eq!(elements, vec![paragraph(vec![text("a"), text("b"), text("c")])]);
    assert!(errors.is_empty());
    // A paragraph container is itself not paragraph safe.
    assert!(!paragraph_safe);
}

#[test]
fn paragraph_stack_flushes_on_unsafe_element() {
    let mut stack = ParagraphStack::new();
    stack.push_element(text("a"), true);
    stack.push_element(Element::LineBreaks(2), false);
    stack.push_element(text("b"), true);
    let result = stack.into_result().expect("paragraph stack never fails");
    let (elements, _, _) = result.into_parts();
    assert_eq!(
        elements,
        vec![
            paragraph(vec![text("a")]),
            Element::LineBreaks(2),
            paragraph(vec![text("b")]),
        ],
    );
}

#[test]
fn paragraph_stack_pops_trailing_line_break() {
    let mut stack = ParagraphStack::new();
    stack.push_element(text("a"), true);
    stack.push_element(Element::LineBreak, true);
    stack.pop_line_break();
    let elements = stack.into_elements();
    assert_eq!(elements, vec![paragraph(vec![text("a")])]);
}

#[test]
fn paragraph_stack_empty_builds_nothing() {
    let mut stack = ParagraphStack::new();
    assert!(stack.current_empty());
    assert!(stack.build_paragraph().is_none());
    let elements = stack.into_elements();
    assert!(elements.is_empty());
}

#[test]
fn unmatched_token_becomes_text_without_errors() {
    let tree = parse_tokens(vec![tok(Token::Other, "???")]);
    assert!(tree.errors.is_empty());
    assert_eq!(tree.elements, vec![paragraph(vec![text("???")])]);
}

#[test]
fn empty_input_yields_empty_tree() {
    let tree = parse_tokens(Vec::new());
    assert!(tree.errors.is_empty());
    assert!(tree.elements.is_empty());
}

#[test]
fn driver_terminates_on_malformed_stream() {
    // An unclosed block, stray terminators, and a lone quote marker:
    // everything degrades, nothing loops.
    let tree = parse_tokens(vec![
        tok(Token::LeftBlock, "[["),
        tok(Token::Identifier, "hidden"),
        tok(Token::Word, "x"),
        tok(Token::RightBlock, "]]"),
        tok(Token::LeftBlockEnd, "[[/"),
        tok(Token::Equals, "="),
        tok(Token::Word, "y"),
    ]);
    assert!(!tree.elements.is_empty());
}

#[test]
fn paragraph_break_splits_paragraphs() {
    let tree = parse_tokens(vec![
        tok(Token::Word, "a"),
        tok(Token::ParagraphBreak, "\n\n"),
        tok(Token::Word, "b"),
    ]);
    assert!(tree.errors.is_empty());
    assert_eq!(
        tree.elements,
        vec![paragraph(vec![text("a")]), paragraph(vec![text("b")])],
    );
}

#[test]
fn blockquote_single_line() {
    let tree = parse_tokens(vec![
        tok(Token::Quote, ">"),
        tok(Token::Whitespace, " "),
        tok(Token::Word, "a"),
    ]);
    assert!(tree.errors.is_empty());
    assert_eq!(tree.elements, vec![blockquote(vec![paragraph(vec![text("a")])])]);
}

#[test]
fn blockquote_nested_lines() {
    let tree = parse_tokens(vec![
        tok(Token::Quote, ">"),
        tok(Token::Word, "a"),
        tok(Token::LineBreak, "\n"),
        tok(Token::Quote, ">>"),
        tok(Token::Word, "b"),
    ]);
    assert!(tree.errors.is_empty());
    assert_eq!(
        tree.elements,
        vec![blockquote(vec![
            paragraph(vec![text("a")]),
            blockquote(vec![paragraph(vec![text("b")])]),
        ])],
    );
}

#[test]
fn blockquote_quote_not_at_line_start_is_text() {
    let tree = parse_tokens(vec![tok(Token::Word, "a"), tok(Token::Quote, ">")]);
    assert!(tree.errors.is_empty());
    assert_eq!(tree.elements, vec![paragraph(vec![text("a"), text(">")])]);
}

#[test]
fn blockquote_depth_at_maximum_parses() {
    let markers = ">".repeat(30);
    let tree = parse_tokens(vec![tok(Token::Quote, &markers), tok(Token::Word, "deep")]);
    assert!(tree.errors.is_empty());
    // Thirty nested blockquote containers.
    let mut element = &tree.elements[0];
    let mut depth = 0;
    loop {
        match element {
            Element::Container(c) if c.ctype == ContainerType::Blockquote => {
                depth += 1;
                element = &c.elements[0];
            }
            _ => break,
        }
    }
    assert_eq!(depth, 30);
}

#[test]
fn blockquote_depth_beyond_maximum_fails() {
    let markers = ">".repeat(31);
    let tree = parse_tokens(vec![tok(Token::Quote, &markers), tok(Token::Word, "deep")]);
    assert!(tree
        .errors
        .iter()
        .any(|e| e.kind == ParseErrorKind::BlockquoteDepthExceeded));
    // The quote run degraded to literal text.
    assert_eq!(
        tree.elements,
        vec![paragraph(vec![text(&markers), text("deep")])],
    );
}

#[test]
fn variable_token_extracts_name() {
    let tree = parse_tokens(vec![tok(Token::Variable, "{$abc}")]);
    assert!(tree.errors.is_empty());
    assert_eq!(tree.elements, vec![paragraph(vec![Element::Variable("abc".to_string())])]);
}

#[test]
fn variable_token_with_bad_shape_degrades_to_text() {
    let tree = parse_tokens(vec![tok(Token::Variable, "junk")]);
    assert!(tree.errors.iter().any(|e| e.kind == ParseErrorKind::RuleFailed));
    assert_eq!(tree.elements, vec![paragraph(vec![text("junk")])]);
}

#[test]
fn tab_outside_tab_view_is_rejected() {
    let tree = parse_tokens(vec![
        tok(Token::LeftBlock, "[["),
        tok(Token::Identifier, "tab"),
        tok(Token::Word, "One"),
        tok(Token::RightBlock, "]]"),
        tok(Token::Word, "x"),
        tok(Token::LeftBlockEnd, "[[/"),
        tok(Token::Identifier, "tab"),
        tok(Token::RightBlock, "]]"),
    ]);
    assert!(tree
        .errors
        .iter()
        .any(|e| e.kind == ParseErrorKind::TabOutsideTabView));
    assert!(!tree.elements.is_empty());
}

#[test]
fn accepts_partial_matches_only_its_kind() {
    let tab = PartialElement::Tab(ftml::element::Tab {
        label: "t".to_string(),
        elements: Vec::new(),
    });
    assert!(AcceptsPartial::Tab.matches(&tab));
    assert!(!AcceptsPartial::Nothing.matches(&tab));
    assert!(!AcceptsPartial::ListItem.matches(&tab));
    assert_eq!(tab.parse_error_kind(), ParseErrorKind::TabOutsideTabView);
    assert_eq!(tab.name(), "Tab");
    assert_eq!(tab.to_owned(), tab);
}

#[test]
fn include_of_missing_page_records_one_error() {
    let tree = parse_tokens(vec![
        tok(Token::Word, "x"),
        tok(Token::LeftBlock, "[["),
        tok(Token::Identifier, "include-elements"),
        tok(Token::Whitespace, " "),
        tok(Token::Identifier, "mypage"),
        tok(Token::RightBlock, "]]"),
        tok(Token::Word, "y"),
    ]);
    let no_such: Vec<_> = tree
        .errors
        .iter()
        .filter(|e| e.kind == ParseErrorKind::NoSuchPage)
        .collect();
    assert_eq!(no_such.len(), 1);
    assert_eq!(tree.errors.len(), 1);
    // The include site contributed no elements; the rest still parsed.
    assert_eq!(tree.elements, vec![paragraph(vec![text("x"), text("y")])]);
}

#[test]
fn include_of_known_page_splices_elements() {
    let included = IncludedPage {
        elements: vec![text("inc")],
        paragraph_safe: true,
        html_blocks: vec!["<b>".to_string()],
        code_blocks: Vec::new(),
        table_of_contents_depths: vec![2],
        footnotes: vec![vec![text("note")]],
        bibliographies: vec![vec![text("source")]],
        has_footnote_block: true,
    };
    let tree = parse(
        vec![
            tok(Token::LeftBlock, "[["),
            tok(Token::Identifier, "include-elements"),
            tok(Token::Whitespace, " "),
            tok(Token::Identifier, "mypage"),
            tok(Token::RightBlock, "]]"),
        ],
        page_info(),
        settings(),
        vec![("mypage".to_string(), included)],
    );
    assert!(tree.errors.is_empty());
    assert_eq!(
        tree.elements,
        vec![paragraph(vec![Element::Include {
            paragraph_safe: true,
            location: "mypage".to_string(),
            variables: Vec::new(),
            elements: vec![text("inc")],
        }])],
    );
    assert_eq!(tree.html_blocks, vec!["<b>".to_string()]);
    assert_eq!(tree.table_of_contents_depths, vec![2]);
    assert_eq!(tree.footnotes, vec![vec![text("note")]]);
    assert_eq!(tree.bibliographies, vec![vec![text("source")]]);
    assert!(tree.has_footnote_block);
}

#[test]
fn include_is_refused_without_page_syntax() {
    let tree = parse(
        vec![
            tok(Token::LeftBlock, "[["),
            tok(Token::Identifier, "include-elements"),
            tok(Token::Whitespace, " "),
            tok(Token::Identifier, "mypage"),
            tok(Token::RightBlock, "]]"),
        ],
        page_info(),
        WikitextSettings::from_mode(WikitextMode::Draft),
        Vec::new(),
    );
    // The rule fails and the block head degrades to text.
    assert!(tree.errors.iter().any(|e| e.kind == ParseErrorKind::RuleFailed));
}

#[test]
fn variable_scopes_shadow_innermost_first() {
    let mut scopes = ftml::variables::VariableScopes::new();
    assert!(scopes.get("a").is_none());
    scopes.push_scope(&vec![
        ("a".to_string(), "1".to_string()),
        ("b".to_string(), "2".to_string()),
    ]);
    scopes.push_scope(&vec![("a".to_string(), "3".to_string())]);
    assert_eq!(scopes.get("a").map(|s| s.as_str()), Some("3"));
    assert_eq!(scopes.get("b").map(|s| s.as_str()), Some("2"));
    assert!(scopes.get("c").is_none());
    scopes.pop_scope();
    assert_eq!(scopes.get("a").map(|s| s.as_str()), Some("1"));
}

#[test]
fn attribute_map_returns_first_match() {
    let map = AttributeMap::from_entries(vec![
        ("k".to_string(), "1".to_string()),
        ("k".to_string(), "2".to_string()),
    ]);
    assert_eq!(map.get("k").map(|s| s.as_str()), Some("1"));
    assert!(map.get("missing").is_none());
}

#[test]
fn element_paragraph_safety() {
    assert!(text("x").paragraph_safe());
    assert!(Element::LineBreak.paragraph_safe());
    assert!(!Element::LineBreaks(3).paragraph_safe());
    assert!(!paragraph(vec![]).paragraph_safe());
    let safe_container = Element::Container(Container::new(
        ContainerType::Bold,
        vec![text("x")],
        AttributeMap::new(),
    ));
    assert!(safe_container.paragraph_safe());
    let unsafe_inside = Element::Container(Container::new(
        ContainerType::Bold,
        vec![Element::LineBreaks(1)],
        AttributeMap::new(),
    ));
    assert!(!unsafe_inside.paragraph_safe());
}
