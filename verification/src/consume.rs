//! Rule dispatch: one token-consumption step.
//!
//! The dispatcher tries the candidate rules for the current token in
//! priority order. A candidate that fails fatally aborts only that
//! candidate; if none produces an element, the token is consumed as
//! literal text, so a consumption step always succeeds and always
//! advances the cursor.

use vstd::prelude::*;

use crate::element::{elements_seq, Element, Elements};
use crate::errors::{ParseError, ParseErrorKind, Rule};
use crate::partial::{accepts_matches, partial_error_kind, AcceptsPartial, PartialElement};
use crate::parser::{artifacts_extended, artifacts_unchanged, ctx_unchanged, Parser};
use crate::result::{ParseOutcome, ParseSuccess};
use crate::tokens::Token;

verus! {

/// Whether any candidate rule exists for the token under the cursor.
pub open spec fn token_has_rule(p: &Parser) -> bool {
    match p.spec_current().token {
        Token::LineBreak => true,
        Token::ParagraphBreak => true,
        Token::Quote => p.spec_start_of_line(),
        Token::Variable => true,
        Token::LeftBlock => true,
        _ => false,
    }
}

/// Whether some element of `elems` is a partial element that the active
/// flag does not accept.
pub open spec fn has_partial_violation(elems: Seq<Element>, accepts: AcceptsPartial) -> bool {
    exists|i: int|
        0 <= i < elems.len() && (#[trigger] elems[i]) is Partial && !accepts_matches(
            accepts,
            elems[i]->Partial_0,
        )
}

/// Find a produced fragment that the active accepts-partial flag does not
/// expect, handing back that fragment's associated error kind together
/// with a ghost copy of the offending fragment itself.
#[verifier::loop_isolation(false)]
pub fn partial_violation(elements: &Elements, accepts: AcceptsPartial) -> (r: Option<
    (ParseErrorKind, Ghost<PartialElement>),
>)
    ensures
        r is Some <==> has_partial_violation(elements_seq(*elements), accepts),
        r is Some ==> exists|i: int|
            {
                &&& 0 <= i < elements_seq(*elements).len()
                &&& (#[trigger] elements_seq(*elements)[i]) is Partial
                &&& !accepts_matches(accepts, elements_seq(*elements)[i]->Partial_0)
                &&& r->Some_0.0 == partial_error_kind(elements_seq(*elements)[i]->Partial_0)
            },
        r is Some ==> {
            &&& !accepts_matches(accepts, r->Some_0.1@)
            &&& r->Some_0.0 == partial_error_kind(r->Some_0.1@)
        },
{
    match elements {
        Elements::Nothing => {
            proof {
                assert(elements_seq(*elements).len() == 0);
            }
            None
        },
        Elements::Single(e) => {
            match e {
                Element::Partial(p) => {
                    if !accepts.matches(p) {
                        proof {
                            assert(elements_seq(*elements)[0] == *e);
                        }
                        Some((p.parse_error_kind(), Ghost(*p)))
                    } else {
                        None
                    }
                },
                _ => None,
            }
        },
        Elements::Multiple(v) => {
            let ghost s = v@;
            let mut i: usize = 0;
            while i < v.len()
                invariant
                    0 <= i <= s.len(),
                    s == v@,
                    forall|j: int|
                        0 <= j < i ==> !((#[trigger] s[j]) is Partial) || accepts_matches(
                            accepts,
                            s[j]->Partial_0,
                        ),
                decreases s.len() - i,
            {
                match &v[i] {
                    Element::Partial(p) => {
                        if !accepts.matches(p) {
                            proof {
                                assert((*elements) is Multiple);
                                assert((*elements)->Multiple_0@ == s);
                                assert(elements_seq(*elements) == s);
                                assert((s[i as int]) is Partial);
                                assert(s[i as int]->Partial_0 == *p);
                            }
                            return Some((p.parse_error_kind(), Ghost(*p)));
                        }
                        proof {
                            assert(accepts_matches(accepts, s[i as int]->Partial_0));
                        }
                    },
                    _ => {
                        proof {
                            assert(!((s[i as int]) is Partial));
                        }
                    },
                }
                i = i + 1;
            }
            None
        },
    }
}

/// Consume tokens to produce the next element(s).
///
/// Always succeeds and always advances the cursor: a token no candidate
/// rule accepts becomes a standalone text element with no recorded
/// errors; a candidate that fails fatally is recorded as a recoverable
/// error and the token falls back to literal text.
///
/// The ghost result names the offending fragment whenever the step
/// recorded a fragment-context violation: the error raised then carries
/// exactly that fragment's associated kind, and the fragment is one the
/// active accepts-partial flag refuses.
#[verifier::loop_isolation(false)]
pub fn consume(parser: &mut Parser) -> (r: (ParseOutcome<Elements>, Ghost<
    Option<PartialElement>,
>))
    requires
        old(parser).wf(),
        !(old(parser).spec_current().token is InputEnd),
    ensures
        final(parser).wf(),
        ctx_unchanged(old(parser), final(parser)),
        artifacts_extended(old(parser), final(parser)),
        final(parser).accepts_partial == old(parser).accepts_partial,
        final(parser).position > old(parser).position,
        r.0 is Ok,
        !token_has_rule(old(parser)) ==> {
            let s = r.0->Ok_0;
            &&& s.item is Single
            &&& s.item->Single_0 == Element::Text(old(parser).spec_current().slice)
            &&& s.errors@.len() == 0
            &&& s.paragraph_safe
            &&& final(parser).position == old(parser).position + 1
            &&& artifacts_unchanged(old(parser), final(parser))
        },
        r.0->Ok_0.item is Single && r.0->Ok_0.item->Single_0 is Partial ==> accepts_matches(
            old(parser).accepts_partial,
            r.0->Ok_0.item->Single_0->Partial_0,
        ),
        r.1@ is Some ==> {
            let s = r.0->Ok_0;
            &&& !accepts_matches(old(parser).accepts_partial, r.1@->Some_0)
            &&& s.errors@.len() == 1
            &&& s.errors@[0].kind == partial_error_kind(r.1@->Some_0)
            &&& s.item is Single
            &&& s.item->Single_0 == Element::Text(old(parser).spec_current().slice)
            &&& final(parser).position == old(parser).position + 1
        },
    decreases old(parser).spec_remaining(), 5int,
{
    let token = parser.current().token;
    let sol = parser.start_of_line();
    let start_pos = parser.position;

    let ghost no_violation: Option<PartialElement> = Option::None;

    // Line breaks have dedicated elements.
    if token == Token::LineBreak {
        match parser.step() {
            Ok(()) => {},
            Err(e) => {
                return (Err(e), Ghost(no_violation));
            },
        }
        return (
            Ok(ParseSuccess::new(Elements::Single(Element::LineBreak), Vec::new(), true)),
            Ghost(no_violation),
        );
    }
    // A paragraph break produces nothing, but is not paragraph safe: it
    // flushes the paragraph being gathered.
    if token == Token::ParagraphBreak {
        match parser.step() {
            Ok(()) => {},
            Err(e) => {
                return (Err(e), Ghost(no_violation));
            },
        }
        return (Ok(ParseSuccess::new(Elements::Nothing, Vec::new(), false)), Ghost(no_violation));
    }

    let mut errors: Vec<ParseError> = Vec::new();
    let ghost mut violated: Option<PartialElement> = Option::None;

    if token == Token::Quote && sol {
        parser.set_rule(Rule::Blockquote);
        let (attempt, _) = crate::blockquote::try_consume_fn(parser);
        match attempt {
            Ok(success) => {
                let violation = partial_violation(&success.item, parser.accepts_partial());
                match violation {
                    None => {
                        proof {
                            if success.item is Single && success.item->Single_0 is Partial {
                                assert(elements_seq(success.item)[0] == success.item->Single_0);
                            }
                        }
                        return (Ok(success), Ghost(no_violation));
                    },
                    Some((kind, frag)) => {
                        let e = parser.make_err(kind);
                        parser.position = start_pos;
                        errors.push(e);
                        proof {
                            violated = Option::Some(frag@);
                        }
                    },
                }
            },
            Err(e) => {
                parser.position = start_pos;
                errors.push(e);
            },
        }
    } else if token == Token::Variable {
        parser.set_rule(Rule::Variable);
        let attempt = crate::variable::try_consume_fn(parser);
        match attempt {
            Ok(success) => {
                return (Ok(success), Ghost(no_violation));
            },
            Err(e) => {
                parser.position = start_pos;
                errors.push(e);
            },
        }
    } else if token == Token::LeftBlock {
        parser.set_rule(Rule::Block);
        let attempt = crate::blocks::parse_block(parser);
        match attempt {
            Ok(success) => {
                let violation = partial_violation(&success.item, parser.accepts_partial());
                match violation {
                    None => {
                        proof {
                            if success.item is Single && success.item->Single_0 is Partial {
                                assert(elements_seq(success.item)[0] == success.item->Single_0);
                            }
                        }
                        return (Ok(success), Ghost(no_violation));
                    },
                    Some((kind, frag)) => {
                        let e = parser.make_err(kind);
                        parser.position = start_pos;
                        errors.push(e);
                        proof {
                            violated = Option::Some(frag@);
                        }
                    },
                }
            },
            Err(e) => {
                parser.position = start_pos;
                errors.push(e);
            },
        }
    }

    // Literal text fallback: the current token becomes a text element.
    parser.set_rule(Rule::Text);
    let slice = parser.current().slice.clone();
    match parser.step() {
        Ok(()) => {},
        Err(e) => {
            return (Err(e), Ghost(no_violation));
        },
    }
    (Ok(ParseSuccess::new(Elements::Single(Element::Text(slice)), errors, true)), Ghost(violated))
}

} // verus!
