//! The top-level driver: turn a token stream into a syntax tree.
//!
//! The driver repeatedly dispatches the current token to the rules until
//! the input is exhausted, folding the produced elements through a
//! paragraph stack. Every finite token sequence terminates and yields a
//! tree: malformed constructs degrade to literal text or recorded
//! diagnostics, never a hard stop.

use vstd::prelude::*;

use crate::consume::{consume, token_has_rule};
use crate::data::{IncludedPage, PageInfo, WikitextSettings};
use crate::element::{Element, Elements};
use crate::errors::ParseError;
use crate::paragraph::{wraps_paragraph, ParagraphStack};
use crate::parser::{drop_input_end, Parser};
use crate::tokens::{ExtractedToken, Token};

verus! {

/// A token kind no rule is registered for: it can only become literal
/// text.
pub open spec fn plain_token(t: Token) -> bool {
    match t {
        Token::LineBreak => false,
        Token::ParagraphBreak => false,
        Token::Quote => false,
        Token::Variable => false,
        Token::LeftBlock => false,
        Token::InputEnd => false,
        _ => true,
    }
}

/// The text elements a token sequence degrades to.
pub open spec fn text_elements(toks: Seq<ExtractedToken>) -> Seq<Element> {
    toks.map(|i: int, t: ExtractedToken| Element::Text(t.slice))
}

/// The final tree plus everything gathered while producing it.
#[derive(Debug)]
pub struct SyntaxTree {
    /// The top-level elements, in document order.
    pub elements: Vec<Element>,
    /// Every recoverable diagnostic, in encounter order.
    pub errors: Vec<ParseError>,
    /// Raw HTML blocks discovered during the parse.
    pub html_blocks: Vec<String>,
    /// Raw code blocks discovered during the parse.
    pub code_blocks: Vec<String>,
    /// Table-of-contents depth markers discovered during the parse.
    pub table_of_contents_depths: Vec<usize>,
    /// Footnote bodies discovered during the parse.
    pub footnotes: Vec<Vec<Element>>,
    /// Bibliography blocks discovered during the parse.
    pub bibliographies: Vec<Vec<Element>>,
    /// Whether an explicit footnote block was seen.
    pub has_footnote_block: bool,
}

/// Parse a token stream into a syntax tree.
///
/// Total: any finite token sequence terminates and produces a tree. When
/// no token has a rule, the whole stream degrades to literal text inside
/// a single paragraph, with no recorded errors.
#[verifier::loop_isolation(false)]
pub fn parse(
    tokens: Vec<ExtractedToken>,
    page_info: PageInfo,
    settings: WikitextSettings,
    included_pages: Vec<(String, IncludedPage)>,
) -> (r: SyntaxTree)
    ensures
        (forall|i: int|
            0 <= i < drop_input_end(tokens@).len() ==> plain_token(
                #[trigger] drop_input_end(tokens@)[i].token,
            )) ==> {
            &&& r.errors@.len() == 0
            &&& if drop_input_end(tokens@).len() == 0 {
                r.elements@.len() == 0
            } else {
                r.elements@.len() == 1 && wraps_paragraph(
                    r.elements@[0],
                    text_elements(drop_input_end(tokens@)),
                )
            }
        },
{
    let ghost input = tokens@;
    let mut parser = Parser::new(tokens, page_info, settings, included_pages);
    let ghost body = parser.tokens@.drop_last();
    let ghost plain = forall|i: int|
        0 <= i < body.len() ==> plain_token(#[trigger] body[i].token);
    let mut stack = ParagraphStack::new();

    proof {
        assert(text_elements(parser.tokens@.take(0)) =~= Seq::<Element>::empty());
    }
    let mut at_end = match parser.current().token {
        Token::InputEnd => true,
        _ => false,
    };
    while !at_end
        invariant
            parser.wf(),
            parser.tokens@.drop_last() == body,
            at_end == (parser.spec_current().token is InputEnd),
            at_end ==> parser.position == parser.tokens@.len() - 1,
            plain ==> {
                &&& stack.current@ == text_elements(
                    parser.tokens@.take(parser.position as int),
                )
                &&& stack.finished@ == Seq::<Element>::empty()
                &&& stack.errors@ == Seq::<ParseError>::empty()
            },
        decreases parser.spec_remaining(),
    {
        proof {
            if parser.position < parser.tokens@.len() - 1 {
                assert(parser.spec_current() == body[parser.position as int]);
            }
        }
        let (outcome, _) = consume(&mut parser);
        match outcome {
            Ok(success) => {
                let crate::result::ParseSuccess { item, errors: mut new_errors, paragraph_safe } =
                    success;
                let ghost pre_cur = stack.current@;
                let is_nothing = match &item {
                    Elements::Nothing => true,
                    _ => false,
                };
                if is_nothing && !paragraph_safe {
                    // A paragraph break: flush the paragraph being built.
                    stack.end_paragraph();
                } else {
                    let mut produced = item.into_vec();
                    while produced.len() > 0
                        invariant
                            plain && produced@.len() == 0 ==> {
                                &&& stack.current@ == pre_cur + seq![
                                    Element::Text(
                                        parser.tokens@[parser.position as int - 1].slice,
                                    ),
                                ]
                                &&& stack.finished@ == Seq::<Element>::empty()
                                &&& stack.errors@ == Seq::<ParseError>::empty()
                            },
                            plain && produced@.len() > 0 ==> {
                                &&& produced@ =~= seq![
                                    Element::Text(
                                        parser.tokens@[parser.position as int - 1].slice,
                                    ),
                                ]
                                &&& paragraph_safe
                                &&& stack.current@ == pre_cur
                                &&& stack.finished@ == Seq::<Element>::empty()
                                &&& stack.errors@ == Seq::<ParseError>::empty()
                            },
                        decreases produced@.len(),
                    {
                        let element = produced.remove(0);
                        stack.push_element(element, paragraph_safe);
                    }
                }
                stack.push_errors(&mut new_errors);
            },
            Err(e) => {
                proof {
                    assert(false);
                }
            },
        }
        at_end = match parser.current().token {
            Token::InputEnd => true,
            _ => false,
        };
        proof {
            if plain {
                assert(parser.tokens@.take(parser.position as int).drop_last()
                    =~= parser.tokens@.take(parser.position as int - 1));
                assert(text_elements(parser.tokens@.take(parser.position as int))
                    =~= text_elements(parser.tokens@.take(parser.position as int - 1)).push(
                    Element::Text(parser.tokens@[parser.position as int - 1].slice),
                ));
            }
        }
    }

    let outcome = stack.into_result();
    let (elements, errors, _paragraph_safe) = match outcome {
        Ok(success) => success.into_parts(),
        Err(e) => {
            proof {
                assert(false);
            }
            (Vec::new(), Vec::new(), true)
        },
    };

    proof {
        if plain {
            assert(parser.tokens@.take(parser.position as int) =~= body);
        }
    }

    let Parser {
        html_blocks,
        code_blocks,
        table_of_contents_depths,
        footnotes,
        bibliographies,
        has_footnote_block,
        ..
    } = parser;

    SyntaxTree {
        elements,
        errors,
        html_blocks,
        code_blocks,
        table_of_contents_depths,
        footnotes,
        bibliographies,
        has_footnote_block,
    }
}

} // verus!
