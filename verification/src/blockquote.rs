//! Nested native blockquotes, built from runs of `>` markers.
//!
//! Each quoted line contributes its marker depth and its parsed elements;
//! the depth-list builder then turns the flat lines into nested blockquote
//! containers. Depth is capped to bound recursion on adversarial input.

use vstd::prelude::*;

use crate::collect::collect_consume;
use crate::depth::{process_depths, DepthItem, DepthList};
use crate::element::{AttributeMap, Container, ContainerType, Element, Elements};
use crate::errors::{ParseError, ParseErrorKind, Rule};
use crate::paragraph::{finalize_transition, push_transition, wraps_paragraph, ParagraphStack};
use crate::parser::{
    artifacts_extended, ctx_unchanged, lemma_artifacts_extended_refl,
    lemma_artifacts_extended_trans, ParseCondition, Parser,
};
use crate::result::{ParseOutcome, ParseSuccess};
use crate::tokens::{ExtractedToken, Token};

verus! {

/// The deepest allowed nesting of quote markers.
pub const MAX_BLOCKQUOTE_DEPTH: usize = 30;

/// The marker depth a quote token denotes: one per `>` in its slice,
/// measured in bytes as the machine sees it.
pub open spec fn quote_depth(slice: Seq<char>) -> usize {
    vstd::utf8::encode_utf8(slice).len() as usize
}

/// The position of the quote token the rule stopped on: the token just
/// before the final cursor, stepping back over one optional whitespace
/// token.
pub open spec fn offending_quote_pos(end: int, tokens: Seq<ExtractedToken>) -> int {
    if 0 <= end - 1 < tokens.len() && tokens[end - 1].token is Whitespace {
        end - 2
    } else {
        end - 1
    }
}

/// Whether the quote token the rule stopped on lies in the consumed range,
/// is indeed a quote token, and has the given marker depth bound.
pub open spec fn quote_failure_witness(
    start: int,
    end: int,
    tokens: Seq<ExtractedToken>,
    over_limit: bool,
) -> bool {
    let p = offending_quote_pos(end, tokens);
    &&& start <= p < end
    &&& 0 <= p < tokens.len()
    &&& tokens[p].token is Quote
    &&& if over_limit {
        quote_depth(tokens[p].slice@) > MAX_BLOCKQUOTE_DEPTH
    } else {
        quote_depth(tokens[p].slice@) == 0
    }
}

/// Consume a run of quoted lines into nested blockquote containers.
///
/// The rule fails only for a reason visible in the tokens: a marker run
/// deeper than [`MAX_BLOCKQUOTE_DEPTH`] (the depth-exceeded kind), an
/// empty marker run, or a cursor that does not sit on a quote token at
/// all (the rule-failed kind); each failure pins the offending token. On
/// any other input it succeeds; in particular a run of exactly the
/// maximum depth parses. On success, the ghost witness carries the
/// gathered lines, the depth tree built from them — whose flattening is
/// exactly the lines in order — and the tree builder's trace pinning the
/// returned container's children to those lines.
#[verifier::loop_isolation(false)]
pub fn try_consume_fn(parser: &mut Parser) -> (r: (
    ParseOutcome<Elements>,
    Ghost<QuoteWitness>,
))
    requires
        old(parser).wf(),
    ensures
        final(parser).wf(),
        ctx_unchanged(old(parser), final(parser)),
        artifacts_extended(old(parser), final(parser)),
        final(parser).accepts_partial == old(parser).accepts_partial,
        final(parser).position >= old(parser).position,
        old(parser).spec_current().token is Quote && quote_depth(
            old(parser).spec_current().slice@,
        ) > MAX_BLOCKQUOTE_DEPTH ==> r.0 is Err && r.0->Err_0.kind
            == ParseErrorKind::BlockquoteDepthExceeded,
        !(old(parser).spec_current().token is Quote) ==> r.0 is Err && r.0->Err_0.kind
            == ParseErrorKind::RuleFailed && final(parser).position == old(parser).position,
        match r.0 {
            Ok(s) => {
                &&& final(parser).position > old(parser).position
                &&& s.item is Multiple
                &&& s.item->Multiple_0@.len() == 1
                &&& is_blockquote_container(s.item->Multiple_0@[0])
                &&& !s.paragraph_safe
                &&& r.1@.lines.len() >= 1
                &&& (forall|i: int| 0 <= i < r.1@.lines.len() ==> 0 <= (#[trigger] r.1@.lines[i]).0
                    <= MAX_BLOCKQUOTE_DEPTH - 1)
                &&& crate::depth::flatten_list(r.1@.items) == crate::depth::payloads(r.1@.lines)
                &&& quote_tree_ok(r.1@.items, r.1@.trace, s.item->Multiple_0@[0])
            },
            Err(e) => {
                &&& (e.kind == ParseErrorKind::BlockquoteDepthExceeded || e.kind
                    == ParseErrorKind::RuleFailed)
                &&& (e.kind == ParseErrorKind::BlockquoteDepthExceeded ==> quote_failure_witness(
                    old(parser).position as int,
                    final(parser).position as int,
                    final(parser).tokens@,
                    true,
                ))
                &&& (e.kind == ParseErrorKind::RuleFailed ==> !(old(
                    parser).spec_current().token is Quote) || quote_failure_witness(
                    old(parser).position as int,
                    final(parser).position as int,
                    final(parser).tokens@,
                    false,
                ))
            },
        },
    decreases old(parser).spec_remaining(), 1int,
{
    let ghost entry = *parser;
    let mut depths: Vec<(usize, (), (Vec<Element>, bool))> = Vec::new();
    let mut errors: Vec<ParseError> = Vec::new();
    proof {
        lemma_artifacts_extended_refl(&entry, parser);
    }

    // Produce one depth entry per quoted line.
    let mut done = false;
    while !done
        invariant
            parser.wf(),
            ctx_unchanged(&entry, parser),
            artifacts_extended(&entry, parser),
            parser.accepts_partial == entry.accepts_partial,
            parser.position >= entry.position,
            depths@.len() > 0 ==> parser.position > entry.position,
            depths@.len() > 0 ==> entry.spec_current().token is Quote,
            depths@.len() == 0 ==> parser.position == entry.position,
            done ==> !(parser.spec_current().token is Quote),
            forall|i: int|
                0 <= i < depths@.len() ==> 0 <= (#[trigger] depths@[i]).0
                    <= MAX_BLOCKQUOTE_DEPTH - 1,
            entry.spec_current().token is Quote && parser.position > entry.position
                ==> quote_depth(entry.spec_current().slice@) <= MAX_BLOCKQUOTE_DEPTH,
        decreases parser.spec_remaining(), (if done {
            0int
        } else {
            1int
        }),
    {
        let tok = parser.current().token;
        let is_quote = match tok {
            Token::Quote => true,
            _ => false,
        };
        if !is_quote {
            done = true;
        } else {
            let ghost qpos = parser.position;
            // One or more `>` markers in one token: its byte length is the
            // depth.
            let depth = parser.current().slice.as_str().len();
            proof {
                if depths@.len() == 0 {
                    assert(parser.spec_current() == entry.spec_current());
                    assert(depth == quote_depth(entry.spec_current().slice@));
                }
            }

            match parser.step() {
                Ok(()) => {},
                Err(e) => {
                    proof {
                        assert(false);
                    }
                    return (Err(e), Ghost(empty_quote_witness()));
                },
            }
            // Allow whitespace after the markers.
            parser.get_optional_space();
            proof {
                assert(parser.tokens@[qpos as int].token is Quote);
                if parser.tokens@[parser.position - 1].token is Whitespace {
                    assert(parser.position - 2 == qpos);
                } else {
                    assert(parser.position - 1 == qpos);
                }
                assert(offending_quote_pos(parser.position as int, parser.tokens@)
                    == qpos as int);
            }

            // Refuse obscene depths, to defend against stack exhaustion.
            if depth > MAX_BLOCKQUOTE_DEPTH {
                proof {
                    assert(quote_failure_witness(
                        entry.position as int,
                        parser.position as int,
                        parser.tokens@,
                        true,
                    ));
                }
                return (
                    Err(parser.make_err(ParseErrorKind::BlockquoteDepthExceeded)),
                    Ghost(empty_quote_witness()),
                );
            }
            // A quote token holds at least one marker; an empty one is a
            // malformed stream and fails the rule.
            if depth == 0 {
                proof {
                    assert(quote_failure_witness(
                        entry.position as int,
                        parser.position as int,
                        parser.tokens@,
                        false,
                    ));
                }
                return (
                    Err(parser.make_err(ParseErrorKind::RuleFailed)),
                    Ghost(empty_quote_witness()),
                );
            }

            // Parse elements until the end of the line.
            let mut close_conditions: Vec<ParseCondition> = Vec::new();
            close_conditions.push(ParseCondition::CurrentToken(Token::LineBreak));
            close_conditions.push(ParseCondition::CurrentToken(Token::ParagraphBreak));
            close_conditions.push(ParseCondition::CurrentToken(Token::InputEnd));
            let invalid_conditions: Vec<ParseCondition> = Vec::new();
            let ghost pre_line = *parser;
            let (outcome, _) = collect_consume(
                parser,
                Rule::Blockquote,
                close_conditions.as_slice(),
                invalid_conditions.as_slice(),
                None,
            );
            proof {
                lemma_artifacts_extended_trans(&entry, &pre_line, parser);
            }
            let mut line_safe = true;
            let mut elements = match outcome {
                Ok(success) => success.chain(&mut errors, &mut line_safe),
                Err(e) => {
                    proof {
                        // The close conditions include the end marker, so
                        // the collection cannot run out of input, and there
                        // are no invalid conditions: this arm is
                        // unreachable.
                        assert(invalid_conditions@.len() == 0);
                        assert(parser.spec_current().token is InputEnd);
                        assert(crate::parser::condition_holds(
                            parser.tokens@,
                            parser.position as int,
                            close_conditions@[2],
                        ));
                        assert(false);
                    }
                    return (Err(e), Ghost(empty_quote_witness()));
                },
            };

            // A line break closes each quoted line.
            elements.push(Element::LineBreak);

            // Depth lists are zero-based; marker runs are one-based.
            depths.push((depth - 1, (), (elements, line_safe)));
        }
    }

    // A blockquote with no rows fails the rule: the cursor never sat on a
    // quote token.
    if depths.len() == 0 {
        return (Err(parser.make_err(ParseErrorKind::RuleFailed)), Ghost(empty_quote_witness()));
    }

    let ghost lines = depths@;
    let mut depth_lists = process_depths((), depths);
    let (_key, top_list) = depth_lists.remove(0);
    let ghost top_items = top_list@;
    let (element, trace) = build_blockquote_element(top_list);
    let mut elements: Vec<Element> = Vec::new();
    elements.push(element);

    let ghost witness = QuoteWitness { lines, items: top_items, trace: trace@ };
    (Ok(ParseSuccess::new(Elements::Multiple(elements), errors, false)), Ghost(witness))
}

/// Whether an element is an attribute-free blockquote container.
pub open spec fn is_blockquote_container(e: Element) -> bool {
    &&& e is Container
    &&& e->Container_0.ctype == ContainerType::Blockquote
    &&& e->Container_0.attributes.entries@ == Seq::<(String, String)>::empty()
}

/// A pending paragraph run with a trailing line break removed, if one is
/// there.
pub open spec fn pop_break(cur: Seq<Element>) -> Seq<Element> {
    if cur.len() > 0 && cur.last() is LineBreak {
        cur.drop_last()
    } else {
        cur
    }
}

/// How pushing one line's elements, all under one safety flag, moves the
/// paragraph stack: safe elements extend the current run; non-safe ones
/// flush it into one paragraph and then follow it directly.
pub open spec fn line_pushes_ok(
    elems: Seq<Element>,
    safe: bool,
    pre: (Seq<Element>, Seq<Element>),
    post: (Seq<Element>, Seq<Element>),
) -> bool {
    if elems.len() == 0 {
        post == pre
    } else if safe {
        post.0 == pre.0 + elems && post.1 == pre.1
    } else {
        &&& post.0.len() == 0
        &&& if pre.0.len() == 0 {
            post.1 == pre.1 + elems
        } else {
            &&& post.1.len() == pre.1.len() + 1 + elems.len()
            &&& post.1.subrange(0, pre.1.len() as int) == pre.1
            &&& wraps_paragraph(post.1[pre.1.len() as int], pre.0)
            &&& post.1.subrange(pre.1.len() as int + 1, post.1.len() as int) == elems
        }
    }
}

/// How pushing one non-safe element moves the paragraph stack.
pub open spec fn single_push_ok(
    e: Element,
    cur0: Seq<Element>,
    fin0: Seq<Element>,
    post: (Seq<Element>, Seq<Element>),
) -> bool {
    &&& post.0.len() == 0
    &&& if cur0.len() == 0 {
        post.1 == fin0.push(e)
    } else {
        &&& post.1.len() == fin0.len() + 2
        &&& post.1.subrange(0, fin0.len() as int) == fin0
        &&& wraps_paragraph(post.1[fin0.len() as int], cur0)
        &&& post.1.last() == e
    }
}

/// The witness of one builder run: the paragraph-stack state between the
/// items, and one nested witness per nested list.
pub struct QuoteTrace {
    pub states: Seq<(Seq<Element>, Seq<Element>)>,
    pub subs: Seq<QuoteTrace>,
}

/// The ghost witness of one successful blockquote parse: the gathered
/// lines (zero-based depth, key, elements-with-safety), the depth tree
/// built from them, and the tree builder's trace.
pub struct QuoteWitness {
    pub lines: Seq<(usize, (), (Vec<Element>, bool))>,
    pub items: Seq<DepthItem<(), (Vec<Element>, bool)>>,
    pub trace: QuoteTrace,
}

/// The placeholder witness handed back on failure.
pub open spec fn empty_quote_witness() -> QuoteWitness {
    QuoteWitness {
        lines: Seq::empty(),
        items: Seq::empty(),
        trace: QuoteTrace { states: Seq::empty(), subs: Seq::empty() },
    }
}

/// How the builder handles one depth item, between two stack states. A
/// line pushes its elements; a nested list pops a trailing line break and
/// pushes the inner blockquote — which sits last in the finished part of
/// the post state — built by its own walk.
#[verifier::opaque]
pub open spec fn quote_step_ok(
    item: DepthItem<(), (Vec<Element>, bool)>,
    pre: (Seq<Element>, Seq<Element>),
    post: (Seq<Element>, Seq<Element>),
    sub_trace: QuoteTrace,
) -> bool
    decreases item, 0int, 0int,
{
    match item {
        DepthItem::Item(payload) => line_pushes_ok(payload.0@, payload.1, pre, post),
        DepthItem::List(_, sub) => {
            &&& post.1.len() > 0
            &&& single_push_ok(post.1.last(), pop_break(pre.0), pre.1, post)
            &&& quote_tree_ok(sub@, sub_trace, post.1.last())
        },
    }
}

/// The first `n` builder steps all hold between their trace states.
pub open spec fn steps_ok(
    items: Seq<DepthItem<(), (Vec<Element>, bool)>>,
    states: Seq<(Seq<Element>, Seq<Element>)>,
    subs: Seq<QuoteTrace>,
    n: int,
) -> bool
    decreases items, 1int, n,

{
    if n <= 0 || items.len() < n {
        true
    } else {
        steps_ok(items, states, subs, n - 1) && quote_step_ok(
            items[n - 1],
            states[n - 1],
            states[n],
            subs[n - 1],
        )
    }
}

/// The builder's walk over a whole depth list, witnessed by a trace: the
/// stack starts empty and each item advances it one step.
pub open spec fn walk_ok(
    items: Seq<DepthItem<(), (Vec<Element>, bool)>>,
    trace: QuoteTrace,
) -> bool
    decreases items, 2int, 0int,
{
    &&& trace.states.len() == items.len() + 1
    &&& trace.subs.len() == items.len()
    &&& trace.states[0].0.len() == 0
    &&& trace.states[0].1.len() == 0
    &&& steps_ok(items, trace.states, trace.subs, items.len() as int)
}

/// What the builder produces for a depth list, witnessed by a trace: an
/// attribute-free blockquote container whose children are the walked
/// stack's finalization, after popping a trailing line break. Together
/// with the depth-list builder's round-trip guarantee, this pins the
/// built tree to the parsed lines.
pub open spec fn quote_tree_ok(
    items: Seq<DepthItem<(), (Vec<Element>, bool)>>,
    trace: QuoteTrace,
    e: Element,
) -> bool
    decreases items, 3int, 0int,
{
    &&& is_blockquote_container(e)
    &&& walk_ok(items, trace)
    &&& finalize_transition(
        pop_break(trace.states.last().0),
        trace.states.last().1,
        e->Container_0.elements@,
    )
}

proof fn lemma_steps_push(
    items: Seq<DepthItem<(), (Vec<Element>, bool)>>,
    states: Seq<(Seq<Element>, Seq<Element>)>,
    subs: Seq<QuoteTrace>,
    post: (Seq<Element>, Seq<Element>),
    pushed_sub: QuoteTrace,
    n: int,
)
    requires
        steps_ok(items, states, subs, n),
        n <= items.len(),
        n < states.len(),
        n <= subs.len(),
    ensures
        steps_ok(items, states.push(post), subs.push(pushed_sub), n),
    decreases n,
{
    if n > 0 {
        lemma_steps_push(items, states, subs, post, pushed_sub, n - 1);
        vstd::seq::axiom_seq_push_index_different(states, post, n - 1);
        vstd::seq::axiom_seq_push_index_different(states, post, n);
        vstd::seq::axiom_seq_push_index_different(subs, pushed_sub, n - 1);
    }
}

proof fn lemma_line_push_step(
    gelems: Seq<Element>,
    safe: bool,
    consumed: int,
    cur_s: Seq<Element>,
    fin_s: Seq<Element>,
    cm: Seq<Element>,
    fm: Seq<Element>,
    cur2: Seq<Element>,
    fin2: Seq<Element>,
)
    requires
        0 <= consumed < gelems.len(),
        consumed == 0 ==> cm == cur_s && fm == fin_s,
        consumed > 0 ==> line_pushes_ok(gelems.take(consumed), safe, (cur_s, fin_s), (cm, fm)),
        push_transition(cm, fm, gelems[consumed], safe, cur2, fin2),
    ensures
        line_pushes_ok(gelems.take(consumed + 1), safe, (cur_s, fin_s), (cur2, fin2)),
{
    let pushed = gelems.take(consumed + 1);
    assert(pushed.last() == gelems[consumed]);
    if safe {
        if consumed == 0 {
            assert(cur2 =~= cur_s + pushed);
        } else {
            assert(cm =~= cur_s + gelems.take(consumed));
            assert(cur2 =~= cur_s + pushed);
        }
    } else {
        if consumed == 0 {
            if cur_s.len() == 0 {
                assert(fin2 =~= fin_s + pushed);
            } else {
                assert(fin2.subrange(0, fin_s.len() as int) =~= fin_s);
                assert(fin2.subrange(fin_s.len() as int + 1, fin2.len() as int) =~= pushed);
            }
        } else {
            // The current run is already empty, so this element joins the
            // finished part directly.
            assert(cm.len() == 0);
            assert(fin2 == fm.push(gelems[consumed]));
            if cur_s.len() == 0 {
                assert(fm =~= fin_s + gelems.take(consumed));
                assert(fin2 =~= fin_s + pushed);
            } else {
                assert(fm.subrange(0, fin_s.len() as int) =~= fin_s);
                assert(fin2.subrange(0, fin_s.len() as int) =~= fin_s);
                assert(fm.subrange(fin_s.len() as int + 1, fm.len() as int) =~= gelems.take(
                    consumed,
                ));
                assert(fin2.subrange(fin_s.len() as int + 1, fin2.len() as int) =~= pushed);
            }
        }
    }
}

/// Turn one depth list into a blockquote container, nesting sub-lists as
/// inner blockquotes and folding each line's elements through a paragraph
/// stack.
#[verifier::loop_isolation(false)]
#[verifier::rlimit(100)]
pub fn build_blockquote_element(list: DepthList<(), (Vec<Element>, bool)>) -> (res: (
    Element,
    Ghost<QuoteTrace>,
))
    ensures
        quote_tree_ok(list@, res.1@, res.0),
    decreases list,
{
    let ghost list0 = list@;
    let mut stack = ParagraphStack::new();
    let mut items = list;
    let ghost mut taken: int = 0;
    let ghost mut states: Seq<(Seq<Element>, Seq<Element>)> = seq![
        (Seq::<Element>::empty(), Seq::<Element>::empty()),
    ];
    let ghost mut subs: Seq<QuoteTrace> = Seq::empty();
    proof {
        assert(items@ =~= list0.subrange(0, list0.len() as int));
        assert(list0.take(0) =~= Seq::<DepthItem<(), (Vec<Element>, bool)>>::empty());
        assert(states.last() == (stack.current@, stack.finished@));
    }

    while items.len() > 0
        invariant
            0 <= taken <= list0.len(),
            items@ == list0.subrange(taken, list0.len() as int),
            stack.errors@.len() == 0,
            states.len() == taken + 1,
            subs.len() == taken,
            states[0].0.len() == 0 && states[0].1.len() == 0,
            states.last() == (stack.current@, stack.finished@),
            steps_ok(list0, states, subs, taken),
        decreases items@.len(),
    {
        let item = items.remove(0);
        let ghost gitem = item;
        let ghost cur_s = stack.current@;
        let ghost fin_s = stack.finished@;
        let ghost old_states = states;
        let ghost old_subs = subs;
        proof {
            assert(list0.subrange(taken, list0.len() as int)[0] == list0[taken]);
            assert(items@ =~= list0.subrange(taken + 1, list0.len() as int));
            assert(gitem == list@[taken]);
            assert(decreases_to!(list => list@));
            assert(decreases_to!(list@ => list@[taken]));
        }
        match item {
            DepthItem::Item((elements, line_safe)) => {
                let ghost gelems = gitem->Item_0.0@;
                let mut line_elements = elements;
                let ghost mut consumed: int = 0;
                proof {
                    assert(line_elements@ =~= gelems.subrange(0, gelems.len() as int));
                }
                while line_elements.len() > 0
                    invariant
                        0 <= consumed <= gelems.len(),
                        line_elements@ == gelems.subrange(consumed, gelems.len() as int),
                        stack.errors@.len() == 0,
                        consumed == 0 ==> stack.current@ == cur_s && stack.finished@ == fin_s,
                        consumed > 0 ==> line_pushes_ok(
                            gelems.take(consumed),
                            line_safe,
                            (cur_s, fin_s),
                            (stack.current@, stack.finished@),
                        ),
                    decreases line_elements@.len(),
                {
                    let element = line_elements.remove(0);
                    let ghost cm = stack.current@;
                    let ghost fm = stack.finished@;
                    proof {
                        assert(gelems.subrange(consumed, gelems.len() as int)[0]
                            == gelems[consumed]);
                        assert(line_elements@ =~= gelems.subrange(
                            consumed + 1,
                            gelems.len() as int,
                        ));
                        assert(element == gelems[consumed]);
                    }
                    stack.push_element(element, line_safe);
                    proof {
                        lemma_line_push_step(
                            gelems,
                            line_safe,
                            consumed,
                            cur_s,
                            fin_s,
                            cm,
                            fm,
                            stack.current@,
                            stack.finished@,
                        );
                        consumed = consumed + 1;
                    }
                }
                proof {
                    assert(gelems.take(gelems.len() as int) =~= gelems);
                    if gelems.len() == 0 {
                        assert((stack.current@, stack.finished@) == (cur_s, fin_s));
                    }
                    reveal(quote_step_ok);
                    let dummy = QuoteTrace { states: Seq::empty(), subs: Seq::empty() };
                    assert(quote_step_ok(
                        gitem,
                        (cur_s, fin_s),
                        (stack.current@, stack.finished@),
                        dummy,
                    ));
                    lemma_steps_push(
                        list0,
                        states,
                        subs,
                        (stack.current@, stack.finished@),
                        dummy,
                        taken,
                    );
                    states = states.push((stack.current@, stack.finished@));
                    subs = subs.push(dummy);
                    vstd::seq::axiom_seq_push_index_different(
                        old_states,
                        (stack.current@, stack.finished@),
                        taken,
                    );
                    vstd::seq::axiom_seq_push_index_same(
                        old_states,
                        (stack.current@, stack.finished@),
                        taken + 1,
                    );
                    vstd::seq::axiom_seq_push_index_same(old_subs, dummy, taken);
                    assert(steps_ok(list0, states, subs, taken + 1));
                }
            },
            DepthItem::List(_, sublist) => {
                proof {
                    assert(sublist == gitem->List_1);
                    assert(decreases_to!(list@[taken] => sublist));
                }
                let (blockquote, sub_trace) = build_blockquote_element(sublist);
                let ghost gbq = blockquote;
                stack.pop_line_break();
                proof {
                    assert(stack.current@ == pop_break(cur_s));
                    assert(stack.finished@ == fin_s);
                }
                stack.push_element(blockquote, false);
                proof {
                    if pop_break(cur_s).len() == 0 {
                        assert(stack.finished@ == fin_s.push(gbq));
                    } else {
                        assert(stack.finished@.subrange(0, fin_s.len() as int) =~= fin_s);
                    }
                    assert(stack.finished@.last() == gbq);
                    assert(single_push_ok(
                        stack.finished@.last(),
                        pop_break(cur_s),
                        fin_s,
                        (stack.current@, stack.finished@),
                    ));
                    reveal(quote_step_ok);
                    assert(quote_step_ok(
                        gitem,
                        (cur_s, fin_s),
                        (stack.current@, stack.finished@),
                        sub_trace@,
                    ));
                    lemma_steps_push(
                        list0,
                        states,
                        subs,
                        (stack.current@, stack.finished@),
                        sub_trace@,
                        taken,
                    );
                    states = states.push((stack.current@, stack.finished@));
                    subs = subs.push(sub_trace@);
                    vstd::seq::axiom_seq_push_index_different(
                        old_states,
                        (stack.current@, stack.finished@),
                        taken,
                    );
                    vstd::seq::axiom_seq_push_index_same(
                        old_states,
                        (stack.current@, stack.finished@),
                        taken + 1,
                    );
                    vstd::seq::axiom_seq_push_index_same(old_subs, sub_trace@, taken);
                    assert(steps_ok(list0, states, subs, taken + 1));
                }
            },
        }
        proof {
            taken = taken + 1;
        }
    }

    let ghost cur_end = stack.current@;
    let ghost fin_end = stack.finished@;
    proof {
        assert(list0.take(list0.len() as int) =~= list0);
    }
    stack.pop_line_break();
    proof {
        assert(stack.current@ == pop_break(cur_end));
        assert(stack.finished@ == fin_end);
    }

    let element = Element::Container(
        Container::new(ContainerType::Blockquote, stack.into_elements(), AttributeMap::new()),
    );
    let ghost trace = QuoteTrace { states, subs };
    proof {
        assert(taken == list0.len());
        assert(trace.states.last() == (cur_end, fin_end));
        assert(walk_ok(list0, trace));
        assert(quote_tree_ok(list@, trace, element));
    }
    (element, Ghost(trace))
}

} // verus!
