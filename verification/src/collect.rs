//! The generic collection loop and its specializations.
//!
//! [`collect`] repeatedly invokes a per-token action until a close
//! condition fires (success), an invalid condition fires or input ends
//! (failure), accumulating errors and paragraph safety. If an action does
//! not advance the cursor, the loop advances it by exactly one token: this
//! forced-advance invariant is what makes the engine total.

use vstd::prelude::*;

use crate::consume::consume;
use crate::element::{elements_seq, Element};
use crate::errors::{ParseError, ParseErrorKind, Rule};
use crate::parser::{
    any_condition_holds, artifacts_extended, artifacts_unchanged, ctx_unchanged,
    lemma_artifacts_extended_refl,
    lemma_artifacts_extended_trans, ParseCondition, Parser,
};
use crate::result::{ParseOutcome, ParseSuccess};
use crate::strings::concat_token_slices;
use crate::tokens::Token;

verus! {

/// What the per-token action of the collection loop does.
#[derive(Debug, Clone, Copy, PartialEq, Eq, Structural)]
pub enum CollectKind {
    /// Dispatch the token to the rules and gather the produced elements.
    Consume,
    /// Only record the touched span; the tokens become one text slice.
    Text,
}

/// One collection step as the dispatcher reported it: the elements it
/// produced, its soft errors, and its paragraph-safety flag.
pub type CollectStep = (Seq<Element>, Seq<ParseError>, bool);

/// The elements of a step log, concatenated in call order.
pub open spec fn log_elements(log: Seq<CollectStep>) -> Seq<Element>
    decreases log,
{
    if log.len() == 0 {
        Seq::empty()
    } else {
        log_elements(log.drop_last()) + log.last().0
    }
}

/// The soft errors of a step log, concatenated in call order.
pub open spec fn log_errors(log: Seq<CollectStep>) -> Seq<ParseError>
    decreases log,
{
    if log.len() == 0 {
        Seq::empty()
    } else {
        log_errors(log.drop_last()) + log.last().1
    }
}

/// Whether every step of a log was paragraph safe.
pub open spec fn log_all_safe(log: Seq<CollectStep>) -> bool
    decreases log,
{
    if log.len() == 0 {
        true
    } else {
        log_all_safe(log.drop_last()) && log.last().2
    }
}

/// Collect tokens until a close or invalid condition fires.
///
/// On success the result item is the index of the token that closed the
/// collection; the cursor then sits one past it (unless it is the
/// end-of-input marker, which is never stepped past). Elements produced by
/// the `Consume` action are appended to `elements`; the `Text` action
/// touches nothing and produces no errors.
#[verifier::loop_isolation(false)]
pub fn collect(
    parser: &mut Parser,
    rule: Rule,
    close_conditions: &[ParseCondition],
    invalid_conditions: &[ParseCondition],
    error_kind: Option<ParseErrorKind>,
    kind: CollectKind,
    elements: &mut Vec<Element>,
) -> (r: (ParseOutcome<usize>, Ghost<Seq<CollectStep>>))
    requires
        old(parser).wf(),
    ensures
        final(elements)@ == old(elements)@ + log_elements(r.1@),
        r.0 is Ok ==> r.0->Ok_0.errors@ == log_errors(r.1@) && r.0->Ok_0.paragraph_safe
            == log_all_safe(r.1@),
        final(parser).wf(),
        ctx_unchanged(old(parser), final(parser)),
        artifacts_extended(old(parser), final(parser)),
        final(parser).accepts_partial == old(parser).accepts_partial,
        final(parser).position >= old(parser).position,
        old(elements)@.is_prefix_of(final(elements)@),
        kind is Text ==> final(elements)@ == old(elements)@,
        kind is Text ==> artifacts_unchanged(old(parser), final(parser)),
        match r.0 {
            Ok(s) => {
                &&& old(parser).position <= s.item < final(parser).tokens@.len()
                &&& any_condition_holds(final(parser).tokens@, s.item as int, close_conditions@)
                &&& final(parser).position == if final(parser).tokens@[s.item as int].token
                    is InputEnd {
                    s.item as int
                } else {
                    s.item + 1
                }
                &&& (kind is Text ==> s.errors@.len() == 0 && s.paragraph_safe)
                &&& (kind is Text ==> forall|p: int|
                    old(parser).position <= p < s.item ==> !any_condition_holds(
                        final(parser).tokens@,
                        p,
                        close_conditions@,
                    ) && !any_condition_holds(final(parser).tokens@, p, invalid_conditions@))
            },
            Err(e) => {
                &&& !any_condition_holds(
                    final(parser).tokens@,
                    final(parser).position as int,
                    close_conditions@,
                )
                &&& ({
                    ||| any_condition_holds(
                        final(parser).tokens@,
                        final(parser).position as int,
                        invalid_conditions@,
                    ) && e.kind == (match error_kind {
                        Some(k) => k,
                        None => ParseErrorKind::RuleFailed,
                    })
                    ||| final(parser).spec_current().token is InputEnd && e.kind
                        == ParseErrorKind::EndOfInput
                })
                &&& (kind is Text ==> forall|p: int|
                    old(parser).position <= p < final(parser).position ==> !any_condition_holds(
                        final(parser).tokens@,
                        p,
                        close_conditions@,
                    ) && !any_condition_holds(final(parser).tokens@, p, invalid_conditions@))
            },
        },
    decreases old(parser).spec_remaining(), 10int,
{
    let ghost entry = *parser;
    let mut errors: Vec<ParseError> = Vec::new();
    let mut paragraph_safe = true;
    let ghost mut log: Seq<CollectStep> = Seq::empty();
    proof {
        lemma_artifacts_extended_refl(&entry, parser);
        assert(log_elements(log) =~= Seq::<Element>::empty());
        assert(log_errors(log) =~= Seq::<ParseError>::empty());
        assert(elements@ =~= old(elements)@ + log_elements(log));
        assert(errors@ =~= log_errors(log));
    }
    loop
        invariant
            parser.wf(),
            ctx_unchanged(&entry, parser),
            artifacts_extended(&entry, parser),
            parser.accepts_partial == entry.accepts_partial,
            parser.position >= entry.position,
            old(elements)@.is_prefix_of(elements@),
            elements@ == old(elements)@ + log_elements(log),
            errors@ == log_errors(log),
            paragraph_safe == log_all_safe(log),
            kind is Text ==> elements@ == old(elements)@,
            kind is Text ==> artifacts_unchanged(&entry, parser),
            kind is Text ==> errors@.len() == 0 && paragraph_safe,
            kind is Text ==> forall|p: int|
                entry.position <= p < parser.position ==> !any_condition_holds(
                    parser.tokens@,
                    p,
                    close_conditions@,
                ) && !any_condition_holds(parser.tokens@, p, invalid_conditions@),
        decreases parser.spec_remaining(),
    {
        // Has a closing condition fired? Then succeed, stepping past the
        // closing token unless it is the end-of-input marker.
        if parser.evaluate_any(close_conditions) {
            let last = parser.position;
            let is_end = match parser.current().token {
                Token::InputEnd => true,
                _ => false,
            };
            if !is_end {
                match parser.step() {
                    Ok(()) => {},
                    Err(e) => {
                        return (Err(e), Ghost(log));
                    },
                }
            }
            return (Ok(ParseSuccess::new(last, errors, paragraph_safe)), Ghost(log));
        }

        // Has an invalid condition fired? Then abort fatally.
        if parser.evaluate_any(invalid_conditions) {
            let k = match error_kind {
                Some(k) => k,
                None => ParseErrorKind::RuleFailed,
            };
            return (Err(parser.make_err(k)), Ghost(log));
        }

        // Is the input exhausted? Then abort fatally.
        let at_end = match parser.current().token {
            Token::InputEnd => true,
            _ => false,
        };
        if at_end {
            return (Err(parser.make_err(ParseErrorKind::EndOfInput)), Ghost(log));
        }

        // Process the current token, then force progress if the action
        // did not advance the cursor itself.
        let before = parser.position;
        let ghost pre_action = *parser;
        match kind {
            CollectKind::Consume => {
                let (outcome, _) = consume(parser);
                match outcome {
                    Ok(success) => {
                        let ghost step: CollectStep = (
                            elements_seq(success.item),
                            success.errors@,
                            success.paragraph_safe,
                        );
                        let ghost pre_elems = elements@;
                        let produced = success.chain(&mut errors, &mut paragraph_safe);
                        let mut vec = produced.into_vec();
                        elements.append(&mut vec);
                        proof {
                            let log0 = log;
                            log = log.push(step);
                            assert(log.drop_last() =~= log0);
                            assert(log.last() == step);
                            assert(elements@.subrange(0, old(elements)@.len() as int)
                                =~= old(elements)@);
                            assert(elements@ =~= old(elements)@ + log_elements(log));
                            assert(errors@ =~= log_errors(log));
                        }
                    },
                    Err(e) => {
                        return (Err(e), Ghost(log));
                    },
                }
            },
            CollectKind::Text => {},
        }
        proof {
            lemma_artifacts_extended_trans(&entry, &pre_action, parser);
        }
        if parser.position == before {
            match parser.step() {
                Ok(()) => {},
                Err(e) => {
                    return (Err(e), Ghost(log));
                },
            }
        }
    }
}

/// Collect tokens, dispatching each to the rules, and gather the produced
/// elements into a list.
pub fn collect_consume(
    parser: &mut Parser,
    rule: Rule,
    close_conditions: &[ParseCondition],
    invalid_conditions: &[ParseCondition],
    error_kind: Option<ParseErrorKind>,
) -> (r: (ParseOutcome<Vec<Element>>, Ghost<Seq<CollectStep>>))
    requires
        old(parser).wf(),
    ensures
        final(parser).wf(),
        ctx_unchanged(old(parser), final(parser)),
        artifacts_extended(old(parser), final(parser)),
        final(parser).accepts_partial == old(parser).accepts_partial,
        final(parser).position >= old(parser).position,
        r.0 is Ok ==> r.0->Ok_0.item@ == log_elements(r.1@) && r.0->Ok_0.errors@ == log_errors(
            r.1@,
        ) && r.0->Ok_0.paragraph_safe == log_all_safe(r.1@),
        r.0 is Ok ==> exists|close: int|
            {
                &&& old(parser).position <= close < final(parser).tokens@.len()
                &&& #[trigger] any_condition_holds(
                    final(parser).tokens@,
                    close,
                    close_conditions@,
                )
                &&& final(parser).position as int == if final(
                    parser).tokens@[close].token is InputEnd {
                    close
                } else {
                    close + 1
                }
            },
        r.0 is Err ==> {
            &&& !any_condition_holds(
                final(parser).tokens@,
                final(parser).position as int,
                close_conditions@,
            )
            &&& ({
                ||| any_condition_holds(
                    final(parser).tokens@,
                    final(parser).position as int,
                    invalid_conditions@,
                ) && r.0->Err_0.kind == (match error_kind {
                    Some(k) => k,
                    None => ParseErrorKind::RuleFailed,
                })
                ||| final(parser).spec_current().token is InputEnd && r.0->Err_0.kind
                    == ParseErrorKind::EndOfInput
            })
        },
    decreases old(parser).spec_remaining(), 12int,
{
    let (outcome, log) = collect_consume_keep(
        parser,
        rule,
        close_conditions,
        invalid_conditions,
        error_kind,
    );
    match outcome {
        Ok(success) => {
            let (pair, errors, paragraph_safe) = success.into_parts();
            (Ok(ParseSuccess::new(pair.0, errors, paragraph_safe)), log)
        },
        Err(e) => (Err(e), log),
    }
}

/// Like [`collect_consume`], but also hands back the index of the token
/// that closed the collection.
pub fn collect_consume_keep(
    parser: &mut Parser,
    rule: Rule,
    close_conditions: &[ParseCondition],
    invalid_conditions: &[ParseCondition],
    error_kind: Option<ParseErrorKind>,
) -> (r: (ParseOutcome<(Vec<Element>, usize)>, Ghost<Seq<CollectStep>>))
    requires
        old(parser).wf(),
    ensures
        r.0 is Ok ==> r.0->Ok_0.item.0@ == log_elements(r.1@) && r.0->Ok_0.errors@ == log_errors(
            r.1@,
        ) && r.0->Ok_0.paragraph_safe == log_all_safe(r.1@),
        final(parser).wf(),
        ctx_unchanged(old(parser), final(parser)),
        artifacts_extended(old(parser), final(parser)),
        final(parser).accepts_partial == old(parser).accepts_partial,
        final(parser).position >= old(parser).position,
        r.0 is Ok ==> {
            let close = r.0->Ok_0.item.1;
            &&& old(parser).position <= close < final(parser).tokens@.len()
            &&& any_condition_holds(final(parser).tokens@, close as int, close_conditions@)
            &&& final(parser).position == if final(parser).tokens@[close as int].token
                is InputEnd {
                close as int
            } else {
                close + 1
            }
        },
        r.0 is Err ==> {
            &&& !any_condition_holds(
                final(parser).tokens@,
                final(parser).position as int,
                close_conditions@,
            )
            &&& ({
                ||| any_condition_holds(
                    final(parser).tokens@,
                    final(parser).position as int,
                    invalid_conditions@,
                ) && r.0->Err_0.kind == (match error_kind {
                    Some(k) => k,
                    None => ParseErrorKind::RuleFailed,
                })
                ||| final(parser).spec_current().token is InputEnd && r.0->Err_0.kind
                    == ParseErrorKind::EndOfInput
            })
        },
    decreases old(parser).spec_remaining(), 11int,
{
    let mut all_elements: Vec<Element> = Vec::new();
    let (outcome, log) = collect(
        parser,
        rule,
        close_conditions,
        invalid_conditions,
        error_kind,
        CollectKind::Consume,
        &mut all_elements,
    );
    match outcome {
        Ok(success) => {
            let (last, errors, paragraph_safe) = success.into_parts();
            (Ok(ParseSuccess::new((all_elements, last), errors, paragraph_safe)), log)
        },
        Err(e) => (Err(e), log),
    }
}

/// Collect tokens into a single raw text string: the concatenation of the
/// slices of every token before the closing one. Text collection never
/// produces errors and is always paragraph safe.
pub fn collect_text(
    parser: &mut Parser,
    rule: Rule,
    close_conditions: &[ParseCondition],
    invalid_conditions: &[ParseCondition],
    error_kind: Option<ParseErrorKind>,
) -> (r: Result<String, ParseError>)
    requires
        old(parser).wf(),
    ensures
        final(parser).wf(),
        ctx_unchanged(old(parser), final(parser)),
        artifacts_extended(old(parser), final(parser)),
        final(parser).accepts_partial == old(parser).accepts_partial,
        final(parser).position >= old(parser).position,
        artifacts_unchanged(old(parser), final(parser)),
        r is Ok ==> exists|close: int|
            {
                &&& old(parser).position <= close < final(parser).tokens@.len()
                &&& any_condition_holds(final(parser).tokens@, close, close_conditions@)
                &&& r->Ok_0@ == concat_token_slices(
                    final(parser).tokens@,
                    old(parser).position as int,
                    close,
                )
            },
        r is Err ==> {
            &&& !any_condition_holds(
                final(parser).tokens@,
                final(parser).position as int,
                close_conditions@,
            )
            &&& ({
                ||| any_condition_holds(
                    final(parser).tokens@,
                    final(parser).position as int,
                    invalid_conditions@,
                ) && r->Err_0.kind == (match error_kind {
                    Some(k) => k,
                    None => ParseErrorKind::RuleFailed,
                })
                ||| final(parser).spec_current().token is InputEnd && r->Err_0.kind
                    == ParseErrorKind::EndOfInput
            })
        },
    decreases old(parser).spec_remaining(), 12int,
{
    let outcome = collect_text_keep(
        parser,
        rule,
        close_conditions,
        invalid_conditions,
        error_kind,
    );
    match outcome {
        Ok((text, close)) => {
            proof {
                assert(old(parser).position <= close < final(parser).tokens@.len());
            }
            Ok(text)
        },
        Err(e) => Err(e),
    }
}

/// Like [`collect_text`], but also hands back the index of the token that
/// closed the collection.
#[verifier::loop_isolation(false)]
pub fn collect_text_keep(
    parser: &mut Parser,
    rule: Rule,
    close_conditions: &[ParseCondition],
    invalid_conditions: &[ParseCondition],
    error_kind: Option<ParseErrorKind>,
) -> (r: Result<(String, usize), ParseError>)
    requires
        old(parser).wf(),
    ensures
        final(parser).wf(),
        ctx_unchanged(old(parser), final(parser)),
        artifacts_extended(old(parser), final(parser)),
        final(parser).accepts_partial == old(parser).accepts_partial,
        final(parser).position >= old(parser).position,
        artifacts_unchanged(old(parser), final(parser)),
        r is Ok ==> {
            let close = r->Ok_0.1;
            &&& old(parser).position <= close < final(parser).tokens@.len()
            &&& any_condition_holds(final(parser).tokens@, close as int, close_conditions@)
            &&& (forall|p: int|
                old(parser).position <= p < close ==> !any_condition_holds(
                    final(parser).tokens@,
                    p,
                    close_conditions@,
                ) && !any_condition_holds(final(parser).tokens@, p, invalid_conditions@))
            &&& final(parser).position == if final(parser).tokens@[close as int].token
                is InputEnd {
                close as int
            } else {
                close + 1
            }
            &&& r->Ok_0.0@ == concat_token_slices(
                final(parser).tokens@,
                old(parser).position as int,
                close as int,
            )
        },
        r is Err ==> forall|p: int|
            old(parser).position <= p < final(parser).position ==> !any_condition_holds(
                final(parser).tokens@,
                p,
                close_conditions@,
            ) && !any_condition_holds(final(parser).tokens@, p, invalid_conditions@),
        r is Err ==> {
            &&& !any_condition_holds(
                final(parser).tokens@,
                final(parser).position as int,
                close_conditions@,
            )
            &&& ({
                ||| any_condition_holds(
                    final(parser).tokens@,
                    final(parser).position as int,
                    invalid_conditions@,
                ) && r->Err_0.kind == (match error_kind {
                    Some(k) => k,
                    None => ParseErrorKind::RuleFailed,
                })
                ||| final(parser).spec_current().token is InputEnd && r->Err_0.kind
                    == ParseErrorKind::EndOfInput
            })
        },
    decreases old(parser).spec_remaining(), 11int,
{
    let start = parser.position;
    let mut scratch: Vec<Element> = Vec::new();
    let (outcome, _) = collect(
        parser,
        rule,
        close_conditions,
        invalid_conditions,
        error_kind,
        CollectKind::Text,
        &mut scratch,
    );
    match outcome {
        Ok(success) => {
            let (close, _errors, _paragraph_safe) = success.into_parts();
            let mut text = String::new();
            let mut i: usize = start;
            while i < close
                invariant
                    start <= i <= close,
                    text@ == concat_token_slices(parser.tokens@, start as int, i as int),
                decreases close - i,
            {
                text.append(token_slice(parser, i).as_str());
                i = i + 1;
            }
            Ok((text, close))
        },
        Err(e) => Err(e),
    }
}

/// The slice of the token at `i`.
fn token_slice(parser: &Parser, i: usize) -> (r: &String)
    requires
        parser.wf(),
        i < parser.tokens@.len(),
    ensures
        *r == parser.tokens@[i as int].slice,
{
    &parser.tokens[i].slice
}

/// Collect tokens into a container element of the given type.
///
/// The container is paragraph safe only if its type permits it and every
/// collected child was.
pub fn collect_container(
    parser: &mut Parser,
    rule: Rule,
    container_type: crate::element::ContainerType,
    close_conditions: &[ParseCondition],
    invalid_conditions: &[ParseCondition],
    error_kind: Option<ParseErrorKind>,
) -> (r: (ParseOutcome<crate::element::Elements>, Ghost<Seq<CollectStep>>))
    requires
        old(parser).wf(),
    ensures
        final(parser).wf(),
        ctx_unchanged(old(parser), final(parser)),
        artifacts_extended(old(parser), final(parser)),
        final(parser).accepts_partial == old(parser).accepts_partial,
        final(parser).position >= old(parser).position,
        r.0 is Ok ==> {
            let item = r.0->Ok_0.item;
            &&& item is Single
            &&& item->Single_0 is Container
            &&& item->Single_0->Container_0.ctype == container_type
            &&& item->Single_0->Container_0.attributes.entries@ == Seq::<(
                String,
                String,
            )>::empty()
            &&& item->Single_0->Container_0.elements@ == log_elements(r.1@)
            &&& r.0->Ok_0.errors@ == log_errors(r.1@)
            &&& r.0->Ok_0.paragraph_safe == (log_all_safe(r.1@)
                && container_type.spec_paragraph_safe())
        },
        r.0 is Err ==> {
            &&& !any_condition_holds(
                final(parser).tokens@,
                final(parser).position as int,
                close_conditions@,
            )
            &&& ({
                ||| any_condition_holds(
                    final(parser).tokens@,
                    final(parser).position as int,
                    invalid_conditions@,
                ) && r.0->Err_0.kind == (match error_kind {
                    Some(k) => k,
                    None => ParseErrorKind::RuleFailed,
                })
                ||| final(parser).spec_current().token is InputEnd && r.0->Err_0.kind
                    == ParseErrorKind::EndOfInput
            })
        },
    decreases old(parser).spec_remaining(), 13int,
{
    let (outcome, log) = collect_consume(
        parser,
        rule,
        close_conditions,
        invalid_conditions,
        error_kind,
    );
    match outcome {
        Ok(success) => {
            let (elements, errors, paragraph_safe) = success.into_parts();
            let container = crate::element::Container::new(
                container_type,
                elements,
                crate::element::AttributeMap::new(),
            );
            let safe = paragraph_safe && container_type.paragraph_safe();
            (
                Ok(
                    ParseSuccess::new(
                        crate::element::Elements::Single(
                            crate::element::Element::Container(container),
                        ),
                        errors,
                        safe,
                    ),
                ),
                log,
            )
        },
        Err(e) => (Err(e), log),
    }
}

} // verus!
