//! Tests for the line-level tree.

use ftml::line::{Alignment, Line, LineInner, PairRule, ParsePair, Word};

fn pair(rule: PairRule, slice: &str, children: Vec<ParsePair>) -> ParsePair {
    ParsePair {
        rule,
        slice: slice.to_string(),
        children,
    }
}

fn line_pair(inner: ParsePair, newlines: &str) -> ParsePair {
    pair(
        PairRule::Line,
        "",
        vec![inner, pair(PairRule::Newlines, newlines, Vec::new())],
    )
}

#[test]
fn text_line_gathers_words() {
    let inner = pair(
        PairRule::LineInner,
        "alpha beta",
        vec![
            pair(PairRule::Word, "alpha", Vec::new()),
            pair(PairRule::Word, "beta", Vec::new()),
        ],
    );
    let line = Line::from_pair(line_pair(inner, "\n"));
    assert_eq!(line.newlines, 1);
    assert_eq!(
        line.inner,
        LineInner::Text {
            contents: vec![
                Word {
                    slice: "alpha".to_string(),
                },
                Word {
                    slice: "beta".to_string(),
                },
            ],
        },
    );
}

#[test]
fn clear_float_reads_direction() {
    let inner = pair(
        PairRule::LineInner,
        "~~~~<",
        vec![pair(PairRule::ClearFloat, "~~~~<", Vec::new())],
    );
    let line = Line::from_pair(line_pair(inner, "\n\n"));
    assert_eq!(line.newlines, 2);
    assert_eq!(
        line.inner,
        LineInner::ClearFloat {
            direction: Some(Alignment::Left),
        },
    );
}

#[test]
fn clear_float_without_direction() {
    let inner = pair(
        PairRule::LineInner,
        "~~~~~",
        vec![pair(PairRule::ClearFloat, "~~~~~", Vec::new())],
    );
    let line = Line::from_pair(line_pair(inner, ""));
    assert_eq!(line.newlines, 0);
    assert_eq!(line.inner, LineInner::ClearFloat { direction: None });
}

#[test]
fn horizontal_line_variant() {
    let inner = pair(
        PairRule::LineInner,
        "----",
        vec![pair(PairRule::HorizontalLine, "----", Vec::new())],
    );
    let line = Line::from_pair(line_pair(inner, "\n"));
    assert_eq!(line.inner, LineInner::HorizontalLine);
}

#[test]
fn div_reads_arguments_and_contents() {
    let nested_inner = pair(
        PairRule::LineInner,
        "x",
        vec![pair(PairRule::Word, "x", Vec::new())],
    );
    let nested = line_pair(nested_inner, "\n");
    let inner = pair(
        PairRule::LineInner,
        "[[div id=\"main\" class=\"wide\"]]",
        vec![
            pair(PairRule::Div, "[[div]]", Vec::new()),
            pair(
                PairRule::DivArg,
                "id",
                vec![pair(PairRule::StringValue, "main", Vec::new())],
            ),
            pair(
                PairRule::DivArg,
                "class",
                vec![pair(PairRule::StringValue, "wide", Vec::new())],
            ),
            nested,
        ],
    );
    let line = Line::from_pair(line_pair(inner, "\n"));
    match line.inner {
        LineInner::Div {
            id,
            class,
            style,
            contents,
        } => {
            assert_eq!(id.as_deref(), Some("main"));
            assert_eq!(class.as_deref(), Some("wide"));
            assert!(style.is_none());
            assert_eq!(contents.len(), 1);
            assert!(matches!(
                contents[0].inner,
                LineInner::Text { .. }
            ));
        }
        other => panic!("expected div, got {:?}", other),
    }
}

#[test]
fn alignment_markers() {
    assert_eq!(Alignment::from_str("<"), Some(Alignment::Left));
    assert_eq!(Alignment::from_str(">"), Some(Alignment::Right));
    assert_eq!(Alignment::from_str("="), Some(Alignment::Center));
    assert_eq!(Alignment::from_str("=="), Some(Alignment::Justify));
    assert_eq!(Alignment::from_str("?"), None);
}

#[test]
fn centered_line() {
    let inner = pair(
        PairRule::LineInner,
        "= hello",
        vec![
            pair(PairRule::Center, "=", Vec::new()),
            pair(PairRule::Word, "hello", Vec::new()),
        ],
    );
    let line = Line::from_pair(line_pair(inner, "\n"));
    assert_eq!(
        line.inner,
        LineInner::Center {
            contents: vec![Word {
                slice: "hello".to_string(),
            }],
        },
    );
}
