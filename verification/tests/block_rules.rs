//! Tests for the block rules, the prefilter passes, and the text helpers.

use ftml::data::{PageInfo, WikitextMode, WikitextSettings};
use ftml::element::{AttributeMap, Container, ContainerType, Element, Embed, Tab};
use ftml::errors::ParseErrorKind;
use ftml::parse::{parse, SyntaxTree};
use ftml::blocks::{check_ifcategory, parse_conditions};
use ftml::strings::{parse_line_count, str_all_whitespace, str_eq, str_eq_ignore_ascii_case};
use ftml::tokens::{ExtractedToken, Token};

fn tok(kind: Token, slice: &str) -> ExtractedToken {
    ExtractedToken::new(kind, slice.to_string(), 0, slice.len())
}

fn page_with_category(category: Option<&str>) -> PageInfo {
    PageInfo {
        category: category.map(|c| c.to_string()),
        page: "page".to_string(),
    }
}

fn parse_tokens_on(tokens: Vec<ExtractedToken>, category: Option<&str>) -> SyntaxTree {
    parse(
        tokens,
        page_with_category(category),
        WikitextSettings::from_mode(WikitextMode::Page),
        Vec::new(),
    )
}

fn parse_tokens(tokens: Vec<ExtractedToken>) -> SyntaxTree {
    parse_tokens_on(tokens, None)
}

fn text(s: &str) -> Element {
    Element::Text(s.to_string())
}

fn paragraph(elements: Vec<Element>) -> Element {
    Element::Container(Container::new(
        ContainerType::Paragraph,
        elements,
        AttributeMap::new(),
    ))
}

#[test]
fn test_fn() {
    // The substitution passes share one shape.
    let _: fn(&mut String) = ftml::filter::misc_substitute;
    let _: fn(&mut String) = ftml::filter::quote_block_substitute;
    let _: fn(&mut String) = ftml::filter::typography_substitute;
}

#[test]
fn embed_builder_types() {
    let _: fn(&ftml::parser::Parser, &ftml::blocks::Arguments) -> Result<Embed, ftml::errors::ParseError> =
        ftml::blocks::build_youtube;
    let _: fn(&ftml::parser::Parser, &ftml::blocks::Arguments) -> Result<Embed, ftml::errors::ParseError> =
        ftml::blocks::build_vimeo;
}

#[test]
fn embed_youtube_block() {
    let tree = parse_tokens(vec![
        tok(Token::LeftBlock, "[["),
        tok(Token::Identifier, "embed"),
        tok(Token::Whitespace, " "),
        tok(Token::Identifier, "YouTube"),
        tok(Token::Whitespace, " "),
        tok(Token::Identifier, "video"),
        tok(Token::Equals, "="),
        tok(Token::QuotedString, "abc123"),
        tok(Token::RightBlock, "]]"),
    ]);
    assert!(tree.errors.is_empty());
    assert_eq!(
        tree.elements,
        vec![Element::Embed(Embed::Youtube {
            video_id: "abc123".to_string(),
        })],
    );
}

#[test]
fn embed_vimeo_block() {
    let tree = parse_tokens(vec![
        tok(Token::LeftBlock, "[["),
        tok(Token::Identifier, "embed"),
        tok(Token::Whitespace, " "),
        tok(Token::Identifier, "vimeo"),
        tok(Token::Whitespace, " "),
        tok(Token::Identifier, "video"),
        tok(Token::Equals, "="),
        tok(Token::QuotedString, "55555"),
        tok(Token::RightBlock, "]]"),
    ]);
    assert!(tree.errors.is_empty());
    assert_eq!(
        tree.elements,
        vec![Element::Embed(Embed::Vimeo {
            video_id: "55555".to_string(),
        })],
    );
}

#[test]
fn embed_unknown_service_is_refused() {
    let tree = parse_tokens(vec![
        tok(Token::LeftBlock, "[["),
        tok(Token::Identifier, "embed"),
        tok(Token::Whitespace, " "),
        tok(Token::Identifier, "dailymotion"),
        tok(Token::RightBlock, "]]"),
    ]);
    assert!(tree.errors.iter().any(|e| e.kind == ParseErrorKind::NoSuchEmbed));
}

#[test]
fn embed_without_video_is_missing_arguments() {
    let tree = parse_tokens(vec![
        tok(Token::LeftBlock, "[["),
        tok(Token::Identifier, "embed"),
        tok(Token::Whitespace, " "),
        tok(Token::Identifier, "youtube"),
        tok(Token::RightBlock, "]]"),
    ]);
    assert!(tree
        .errors
        .iter()
        .any(|e| e.kind == ParseErrorKind::BlockMissingArguments));
}

#[test]
fn hidden_block_builds_container() {
    let tree = parse_tokens(vec![
        tok(Token::LeftBlock, "[["),
        tok(Token::Identifier, "hidden"),
        tok(Token::RightBlock, "]]"),
        tok(Token::Word, "secret"),
        tok(Token::LeftBlockEnd, "[[/"),
        tok(Token::Identifier, "hidden"),
        tok(Token::RightBlock, "]]"),
    ]);
    assert!(tree.errors.is_empty());
    assert_eq!(
        tree.elements,
        vec![Element::Container(Container::new(
            ContainerType::Hidden,
            vec![text("secret")],
            AttributeMap::new(),
        ))],
    );
}

#[test]
fn ins_block_builds_insertion_inside_paragraph() {
    let tree = parse_tokens(vec![
        tok(Token::LeftBlock, "[["),
        tok(Token::Identifier, "ins"),
        tok(Token::RightBlock, "]]"),
        tok(Token::Word, "new"),
        tok(Token::LeftBlockEnd, "[[/"),
        tok(Token::Identifier, "ins"),
        tok(Token::RightBlock, "]]"),
    ]);
    assert!(tree.errors.is_empty());
    // Insertions are paragraph safe, so the driver wraps them.
    assert_eq!(
        tree.elements,
        vec![paragraph(vec![Element::Container(Container::new(
            ContainerType::Insertion,
            vec![text("new")],
            AttributeMap::new(),
        ))])],
    );
}

#[test]
fn lines_block_produces_line_breaks() {
    let tree = parse_tokens(vec![
        tok(Token::LeftBlock, "[["),
        tok(Token::Identifier, "lines"),
        tok(Token::Whitespace, " "),
        tok(Token::Word, "3"),
        tok(Token::RightBlock, "]]"),
    ]);
    assert!(tree.errors.is_empty());
    assert_eq!(tree.elements, vec![Element::LineBreaks(3)]);
}

#[test]
fn lines_block_accepts_alias_and_bound() {
    let tree = parse_tokens(vec![
        tok(Token::LeftBlock, "[["),
        tok(Token::Identifier, "newlines"),
        tok(Token::Whitespace, " "),
        tok(Token::Word, "100"),
        tok(Token::RightBlock, "]]"),
    ]);
    assert!(tree.errors.is_empty());
    assert_eq!(tree.elements, vec![Element::LineBreaks(100)]);
}

#[test]
fn lines_block_rejects_bad_counts() {
    for bad in ["0", "101", "abc", "99999999999999999999"] {
        let tree = parse_tokens(vec![
            tok(Token::LeftBlock, "[["),
            tok(Token::Identifier, "lines"),
            tok(Token::Whitespace, " "),
            tok(Token::Word, bad),
            tok(Token::RightBlock, "]]"),
        ]);
        assert!(
            tree.errors
                .iter()
                .any(|e| e.kind == ParseErrorKind::BlockMalformedArguments),
            "count {:?} should be malformed",
            bad,
        );
    }
}

#[test]
fn parse_line_count_trims_and_bounds() {
    assert_eq!(parse_line_count("3"), Some(3));
    assert_eq!(parse_line_count("  10  "), Some(10));
    assert_eq!(parse_line_count("100"), Some(100));
    assert_eq!(parse_line_count("1"), Some(1));
    assert_eq!(parse_line_count("0"), None);
    assert_eq!(parse_line_count("101"), None);
    assert_eq!(parse_line_count(""), None);
    assert_eq!(parse_line_count("  "), None);
    assert_eq!(parse_line_count("12x"), None);
    assert_eq!(parse_line_count("4 2"), None);
    assert_eq!(parse_line_count("999999999999"), None);
    assert_eq!(parse_line_count("café"), None);
    assert_eq!(parse_line_count("+5"), Some(5));
    assert_eq!(parse_line_count(" +100 "), Some(100));
    assert_eq!(parse_line_count("++5"), None);
    assert_eq!(parse_line_count("+"), None);
    assert_eq!(parse_line_count("\u{a0}7\u{a0}"), Some(7));
}

#[test]
fn radio_block_builds_button() {
    let tree = parse_tokens(vec![
        tok(Token::LeftBlock, "[["),
        tok(Token::Identifier, "radio"),
        tok(Token::Whitespace, " "),
        tok(Token::Identifier, "group"),
        tok(Token::Whitespace, " "),
        tok(Token::Identifier, "checked"),
        tok(Token::Equals, "="),
        tok(Token::QuotedString, "true"),
        tok(Token::RightBlock, "]]"),
    ]);
    assert!(tree.errors.is_empty());
    assert_eq!(
        tree.elements,
        vec![paragraph(vec![Element::RadioButton {
            name: "group".to_string(),
            attributes: AttributeMap::from_entries(vec![(
                "checked".to_string(),
                "true".to_string(),
            )]),
        }])],
    );
}

fn tabview_tokens(inner: Vec<ExtractedToken>) -> Vec<ExtractedToken> {
    let mut tokens = vec![
        tok(Token::LeftBlock, "[["),
        tok(Token::Identifier, "tabview"),
        tok(Token::RightBlock, "]]"),
    ];
    tokens.extend(inner);
    tokens.push(tok(Token::LeftBlockEnd, "[[/"));
    tokens.push(tok(Token::Identifier, "tabview"));
    tokens.push(tok(Token::RightBlock, "]]"));
    tokens
}

#[test]
fn tabview_with_one_tab() {
    let tree = parse_tokens(tabview_tokens(vec![
        tok(Token::LeftBlock, "[["),
        tok(Token::Identifier, "tab"),
        tok(Token::Word, "One"),
        tok(Token::RightBlock, "]]"),
        tok(Token::Word, "contents"),
        tok(Token::LeftBlockEnd, "[[/"),
        tok(Token::Identifier, "tab"),
        tok(Token::RightBlock, "]]"),
    ]));
    assert!(tree.errors.is_empty(), "errors: {:?}", tree.errors);
    assert_eq!(
        tree.elements,
        vec![Element::TabView(vec![Tab {
            label: "One".to_string(),
            elements: vec![text("contents")],
        }])],
    );
}

#[test]
fn tabview_ignores_internal_whitespace() {
    let tree = parse_tokens(tabview_tokens(vec![
        tok(Token::LineBreak, "\n"),
        tok(Token::LeftBlock, "[["),
        tok(Token::Identifier, "tab"),
        tok(Token::Word, "One"),
        tok(Token::RightBlock, "]]"),
        tok(Token::LeftBlockEnd, "[[/"),
        tok(Token::Identifier, "tab"),
        tok(Token::RightBlock, "]]"),
        tok(Token::Whitespace, "  "),
    ]));
    assert!(tree.errors.is_empty(), "errors: {:?}", tree.errors);
    assert_eq!(
        tree.elements,
        vec![Element::TabView(vec![Tab {
            label: "One".to_string(),
            elements: Vec::new(),
        }])],
    );
}

#[test]
fn tabview_without_tabs_is_empty_error() {
    let tree = parse_tokens(tabview_tokens(vec![]));
    assert!(tree.errors.iter().any(|e| e.kind == ParseErrorKind::TabViewEmpty));
}

#[test]
fn tabview_with_non_tab_content_is_refused() {
    let tree = parse_tokens(tabview_tokens(vec![tok(Token::Word, "stray")]));
    assert!(tree
        .errors
        .iter()
        .any(|e| e.kind == ParseErrorKind::TabViewContainsNonTab));
}

fn ifcategory_tokens(spec: &[&str]) -> Vec<ExtractedToken> {
    let mut tokens = vec![
        tok(Token::LeftBlock, "[["),
        tok(Token::Identifier, "ifcategory"),
    ];
    for word in spec {
        tokens.push(tok(Token::Whitespace, " "));
        tokens.push(tok(Token::Identifier, word));
    }
    tokens.push(tok(Token::RightBlock, "]]"));
    tokens.push(tok(Token::Word, "inside"));
    tokens.push(tok(Token::LeftBlockEnd, "[[/"));
    tokens.push(tok(Token::Identifier, "ifcategory"));
    tokens.push(tok(Token::RightBlock, "]]"));
    tokens
}

#[test]
fn ifcategory_keeps_elements_on_match() {
    let tree = parse_tokens_on(ifcategory_tokens(&["mycat"]), Some("mycat"));
    assert!(tree.errors.is_empty());
    assert_eq!(tree.elements, vec![paragraph(vec![text("inside")])]);
}

#[test]
fn ifcategory_drops_elements_on_mismatch() {
    let tree = parse_tokens_on(ifcategory_tokens(&["othercat"]), Some("mycat"));
    assert!(tree.errors.is_empty());
    assert!(tree.elements.is_empty());
}

#[test]
fn ifcategory_prohibited_category() {
    let tree = parse_tokens_on(ifcategory_tokens(&["-mycat"]), Some("mycat"));
    assert!(tree.elements.is_empty());
    let tree = parse_tokens_on(ifcategory_tokens(&["-othercat"]), Some("mycat"));
    assert_eq!(tree.elements, vec![paragraph(vec![text("inside")])]);
}

#[test]
fn ifcategory_required_acts_as_present() {
    let tree = parse_tokens_on(ifcategory_tokens(&["+mycat", "+othercat"]), Some("mycat"));
    // Required conditions are softened to presence: one match suffices.
    assert_eq!(tree.elements, vec![paragraph(vec![text("inside")])]);
}

#[test]
fn ifcategory_default_category() {
    let tree = parse_tokens_on(ifcategory_tokens(&["_default"]), None);
    assert_eq!(tree.elements, vec![paragraph(vec![text("inside")])]);
}

#[test]
fn check_ifcategory_logic() {
    let words = vec!["a".to_string(), "-b".to_string()];
    let conditions = parse_conditions(&words);
    assert!(check_ifcategory(&page_with_category(Some("a")), &conditions));
    assert!(!check_ifcategory(&page_with_category(Some("b")), &conditions));
    assert!(!check_ifcategory(&page_with_category(Some("c")), &conditions));
}

#[test]
fn malformed_block_head_degrades_to_text() {
    let tree = parse_tokens(vec![
        tok(Token::LeftBlock, "[["),
        tok(Token::Identifier, "hidden"),
        tok(Token::Whitespace, " "),
        tok(Token::Identifier, "key"),
        tok(Token::Word, "oops"),
        tok(Token::RightBlock, "]]"),
    ]);
    assert!(tree
        .errors
        .iter()
        .any(|e| e.kind == ParseErrorKind::BlockMalformedArguments));
    assert!(!tree.elements.is_empty());
}

#[test]
fn unknown_block_name_degrades_to_text() {
    let tree = parse_tokens(vec![
        tok(Token::LeftBlock, "[["),
        tok(Token::Identifier, "nosuchblock"),
        tok(Token::RightBlock, "]]"),
    ]);
    assert!(tree.errors.iter().any(|e| e.kind == ParseErrorKind::RuleFailed));
    assert_eq!(
        tree.elements,
        vec![paragraph(vec![text("[["), text("nosuchblock"), text("]]")])],
    );
}

#[test]
fn misc_substitute_normalizes_newlines_and_tabs() {
    let mut s = "a\r\nb\rc\td".to_string();
    ftml::filter::misc_substitute(&mut s);
    assert_eq!(s, "a\nb\nc    d");
}

#[test]
fn typography_substitute_curls_quotes() {
    let mut s = "``hello'' and...".to_string();
    ftml::filter::typography_substitute(&mut s);
    assert_eq!(s, "\u{201c}hello\u{201d} and\u{2026}");
}

#[test]
fn quote_block_substitute_leaves_text_alone() {
    let mut s = "> quoted\n>> nested".to_string();
    ftml::filter::quote_block_substitute(&mut s);
    assert_eq!(s, "> quoted\n>> nested");
}

#[test]
fn prefilter_composes_all_passes() {
    let mut s = "x\r\ny\t``z''".to_string();
    ftml::filter::prefilter(&mut s);
    assert_eq!(s, "x\ny    \u{201c}z\u{201d}");
}

#[test]
fn str_helpers_behave() {
    assert!(str_eq("abc", "abc"));
    assert!(!str_eq("abc", "abd"));
    assert!(str_eq_ignore_ascii_case("YouTube", "youtube"));
    assert!(!str_eq_ignore_ascii_case("youtubes", "youtube"));
    assert!(str_all_whitespace(" \t\n\r"));
    assert!(str_all_whitespace(""));
    assert!(!str_all_whitespace(" x "));
    assert!(!str_all_whitespace("\u{00a0}"));
}
