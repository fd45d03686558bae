//! Block rules: `[[name args...]] body [[/name]]` constructs.
//!
//! The dispatcher reads the block name after `[[` and hands the parser to
//! the matching block rule. Head helpers parse the arguments up to `]]`;
//! the body helper collects elements up to the matching end tag.

use vstd::prelude::*;

use crate::collect::{collect_consume, collect_text_keep};
use crate::data::PageInfo;
use crate::element::{
    all_whitespace_element, clone_copy_vec, clone_elements, clone_footnotes, clone_strings,
    elems_equiv, AttributeMap, Container, ContainerType, Element, Elements, Tab,
};
use crate::errors::{ParseError, ParseErrorKind, Rule};
use crate::partial::{AcceptsPartial, PartialElement};
use crate::parser::{
    artifacts_extended, artifacts_unchanged, ctx_unchanged, include_lookup,
    lemma_artifacts_extended_refl, lemma_artifacts_extended_trans, ParseCondition, Parser,
    ParserWrap,
};
use crate::result::{ParseOutcome, ParseSuccess};
use crate::strings::{
    all_digits, ascii_lower_seq, count_arg_digits, dec_value, parse_line_count,
    str_all_whitespace, str_eq, str_eq_ignore_ascii_case,
};
use crate::tokens::{ExtractedToken, Token};
use crate::variables::{lemma_scope_lookup_skip, scope_lookup};

verus! {

/// The block rules this engine knows.
#[derive(Debug, Clone, Copy, PartialEq, Eq, Structural)]
pub enum BlockKind {
    Embed,
    Hidden,
    IfCategory,
    IncludeElements,
    Ins,
    Lines,
    Radio,
    TabView,
    Tab,
}

/// The block rule registered for a lowercased block name, if any. This is
/// the explicit dispatch table; earlier entries take priority, though no
/// two entries share a name.
pub open spec fn block_kind_spec(lower: Seq<char>) -> Option<BlockKind> {
    if lower == "embed"@ {
        Some(BlockKind::Embed)
    } else if lower == "hidden"@ {
        Some(BlockKind::Hidden)
    } else if lower == "ifcategory"@ {
        Some(BlockKind::IfCategory)
    } else if lower == "include-elements"@ {
        Some(BlockKind::IncludeElements)
    } else if lower == "ins"@ || lower == "insertion"@ {
        Some(BlockKind::Ins)
    } else if lower == "lines"@ || lower == "newlines"@ {
        Some(BlockKind::Lines)
    } else if lower == "radio"@ || lower == "radio-button"@ {
        Some(BlockKind::Radio)
    } else if lower == "tabview"@ || lower == "tabs"@ {
        Some(BlockKind::TabView)
    } else if lower == "tab"@ {
        Some(BlockKind::Tab)
    } else {
        None
    }
}

/// Find the block rule for a name, ASCII case-insensitively.
pub fn block_kind_for_name(name: &str) -> (r: Option<BlockKind>)
    ensures
        r == block_kind_spec(ascii_lower_seq(name@)),
{
    proof {
        reveal_strlit("embed");
        reveal_strlit("hidden");
        reveal_strlit("ifcategory");
        reveal_strlit("include-elements");
        reveal_strlit("ins");
        reveal_strlit("insertion");
        reveal_strlit("lines");
        reveal_strlit("newlines");
        reveal_strlit("radio");
        reveal_strlit("radio-button");
        reveal_strlit("tabview");
        reveal_strlit("tabs");
        reveal_strlit("tab");
        assert(ascii_lower_seq("embed"@) =~= "embed"@);
        assert(ascii_lower_seq("hidden"@) =~= "hidden"@);
        assert(ascii_lower_seq("ifcategory"@) =~= "ifcategory"@);
        assert(ascii_lower_seq("include-elements"@) =~= "include-elements"@);
        assert(ascii_lower_seq("ins"@) =~= "ins"@);
        assert(ascii_lower_seq("insertion"@) =~= "insertion"@);
        assert(ascii_lower_seq("lines"@) =~= "lines"@);
        assert(ascii_lower_seq("newlines"@) =~= "newlines"@);
        assert(ascii_lower_seq("radio"@) =~= "radio"@);
        assert(ascii_lower_seq("radio-button"@) =~= "radio-button"@);
        assert(ascii_lower_seq("tabview"@) =~= "tabview"@);
        assert(ascii_lower_seq("tabs"@) =~= "tabs"@);
        assert(ascii_lower_seq("tab"@) =~= "tab"@);
    }
    if str_eq_ignore_ascii_case(name, "embed") {
        Some(BlockKind::Embed)
    } else if str_eq_ignore_ascii_case(name, "hidden") {
        Some(BlockKind::Hidden)
    } else if str_eq_ignore_ascii_case(name, "ifcategory") {
        Some(BlockKind::IfCategory)
    } else if str_eq_ignore_ascii_case(name, "include-elements") {
        Some(BlockKind::IncludeElements)
    } else if str_eq_ignore_ascii_case(name, "ins") || str_eq_ignore_ascii_case(
        name,
        "insertion",
    ) {
        Some(BlockKind::Ins)
    } else if str_eq_ignore_ascii_case(name, "lines") || str_eq_ignore_ascii_case(
        name,
        "newlines",
    ) {
        Some(BlockKind::Lines)
    } else if str_eq_ignore_ascii_case(name, "radio") || str_eq_ignore_ascii_case(
        name,
        "radio-button",
    ) {
        Some(BlockKind::Radio)
    } else if str_eq_ignore_ascii_case(name, "tabview") || str_eq_ignore_ascii_case(
        name,
        "tabs",
    ) {
        Some(BlockKind::TabView)
    } else if str_eq_ignore_ascii_case(name, "tab") {
        Some(BlockKind::Tab)
    } else {
        None
    }
}


/// What parsing a block head's `key="value"` arguments from `pos` yields:
/// the argument pairs in order and the position one past `]]`, or the
/// error kind. Whitespace between arguments is skipped; each argument is
/// a name, an equals sign, and a quoted value, adjacent.
pub open spec fn spec_head_args(tokens: Seq<ExtractedToken>, pos: int) -> Result<
    (Seq<(String, String)>, int),
    ParseErrorKind,
>
    decreases tokens.len() - pos,
{
    if pos < 0 || pos >= tokens.len() {
        Err(ParseErrorKind::EndOfInput)
    } else if tokens[pos].token is InputEnd {
        Err(ParseErrorKind::EndOfInput)
    } else if tokens[pos].token is Whitespace {
        spec_head_args(tokens, pos + 1)
    } else if tokens[pos].token is RightBlock {
        Ok((Seq::empty(), pos + 1))
    } else if tokens[pos].token is Identifier && pos + 2 < tokens.len() && tokens[pos
        + 1].token is Equals && tokens[pos + 2].token is QuotedString {
        match spec_head_args(tokens, pos + 3) {
            Ok((rest, end)) => Ok((seq![(tokens[pos].slice, tokens[pos + 2].slice)] + rest, end)),
            Err(k) => Err(k),
        }
    } else {
        Err(ParseErrorKind::BlockMalformedArguments)
    }
}

/// What parsing a block head's leading name from `pos` yields: the name
/// and the position after it, or the error kind.
pub open spec fn spec_head_name(tokens: Seq<ExtractedToken>, pos: int) -> Result<
    (String, int),
    ParseErrorKind,
>
    decreases tokens.len() - pos,
{
    if pos < 0 || pos >= tokens.len() {
        Err(ParseErrorKind::EndOfInput)
    } else if tokens[pos].token is InputEnd {
        Err(ParseErrorKind::EndOfInput)
    } else if tokens[pos].token is Whitespace {
        spec_head_name(tokens, pos + 1)
    } else if tokens[pos].token is Identifier || tokens[pos].token is Word {
        Ok((tokens[pos].slice, pos + 1))
    } else {
        Err(ParseErrorKind::BlockMalformedArguments)
    }
}

/// Prepend already-gathered argument pairs to a head-parse outcome.
pub open spec fn combine_args(
    prefix: Seq<(String, String)>,
    r: Result<(Seq<(String, String)>, int), ParseErrorKind>,
) -> Result<(Seq<(String, String)>, int), ParseErrorKind> {
    match r {
        Ok((rest, end)) => Ok((prefix + rest, end)),
        Err(k) => Err(k),
    }
}

/// Arguments parsed from a block head: `key="value"` pairs in order.
#[derive(Debug, PartialEq)]
pub struct Arguments {
    pub entries: Vec<(String, String)>,
}

impl Arguments {
    /// The value of the first argument with the given key, if any.
    #[verifier::loop_isolation(false)]
    pub fn get(&self, key: &str) -> (r: Option<&String>)
        ensures
            match r {
                Some(v) => scope_lookup(self.entries@, key@) == Some(v@),
                None => scope_lookup(self.entries@, key@) is None,
            },
    {
        let ghost entries = self.entries@;
        let mut j: usize = 0;
        while j < self.entries.len()
            invariant
                0 <= j <= entries.len(),
                forall|i: int| 0 <= i < j ==> #[trigger] entries[i].0@ != key@,
            decreases entries.len() - j,
        {
            if str_eq(self.entries[j].0.as_str(), key) {
                proof {
                    lemma_scope_lookup_skip(entries, key@, j as int);
                    assert(entries.skip(j as int)[0] == entries[j as int]);
                }
                return Some(&self.entries[j].1);
            }
            j = j + 1;
        }
        proof {
            lemma_scope_lookup_skip(entries, key@, entries.len() as int);
            assert(entries.skip(entries.len() as int).len() == 0);
        }
        None
    }

    /// Turn the arguments into an attribute map, in order.
    pub fn to_attribute_map(self) -> (r: AttributeMap)
        ensures
            r.entries@ == self.entries@,
    {
        AttributeMap::from_entries(self.entries)
    }

    /// Turn the arguments into a variable map, in order.
    pub fn to_variable_map(self) -> (r: Vec<(String, String)>)
        ensures
            r@ == self.entries@,
    {
        self.entries
    }
}

/// Parse a block head's `key="value"` arguments up to and past `]]`.
///
/// The outcome is exactly what [`spec_head_args`] says for the cursor
/// position: the pairs in order and the cursor one past `]]`, or the
/// stated error kind.
#[verifier::loop_isolation(false)]
pub fn get_head_map(parser: &mut Parser, in_head: bool) -> (r: Result<Arguments, ParseError>)
    requires
        old(parser).wf(),
        in_head,
    ensures
        final(parser).wf(),
        ctx_unchanged(old(parser), final(parser)),
        artifacts_unchanged(old(parser), final(parser)),
        artifacts_extended(old(parser), final(parser)),
        final(parser).accepts_partial == old(parser).accepts_partial,
        final(parser).position >= old(parser).position,
        r is Ok ==> final(parser).position > old(parser).position,
        r is Err ==> r->Err_0.kind == ParseErrorKind::EndOfInput || r->Err_0.kind
            == ParseErrorKind::BlockMalformedArguments,
        match spec_head_args(old(parser).tokens@, old(parser).position as int) {
            Ok((entries, end)) => r is Ok && r->Ok_0.entries@ == entries && final(
                parser).position == end,
            Err(k) => r is Err && r->Err_0.kind == k,
        },
{
    let ghost entry = *parser;
    let ghost toks = entry.tokens@;
    proof {
        lemma_artifacts_extended_refl(&entry, parser);
    }
    let mut entries: Vec<(String, String)> = Vec::new();
    loop
        invariant
            parser.wf(),
            ctx_unchanged(&entry, parser),
            artifacts_unchanged(&entry, parser),
            artifacts_extended(&entry, parser),
            parser.accepts_partial == entry.accepts_partial,
            parser.position >= entry.position,
            combine_args(entries@, spec_head_args(toks, parser.position as int))
                == spec_head_args(toks, entry.position as int),
        decreases parser.spec_remaining(),
    {
        let ghost pos = parser.position as int;
        let tok = parser.current().token;
        match tok {
            Token::Whitespace => {
                proof {
                    assert(spec_head_args(toks, pos) == spec_head_args(toks, pos + 1));
                }
                match parser.step() {
                    Ok(()) => {},
                    Err(e) => {
                        return Err(e);
                    },
                }
            },
            Token::RightBlock => {
                proof {
                    assert(spec_head_args(toks, pos) == Ok::<_, ParseErrorKind>((
                        Seq::<(String, String)>::empty(),
                        pos + 1,
                    )));
                    assert(entries@ + Seq::<(String, String)>::empty() =~= entries@);
                }
                match parser.step() {
                    Ok(()) => {},
                    Err(e) => {
                        return Err(e);
                    },
                }
                return Ok(Arguments { entries });
            },
            Token::Identifier => {
                let key = parser.current().slice.clone();
                match parser.step() {
                    Ok(()) => {},
                    Err(e) => {
                        return Err(e);
                    },
                }
                let eq = match parser.current().token {
                    Token::Equals => true,
                    _ => false,
                };
                if !eq {
                    proof {
                        assert(spec_head_args(toks, pos) == Err::<(Seq<(String, String)>, int), _>(
                            ParseErrorKind::BlockMalformedArguments,
                        ));
                    }
                    return Err(parser.make_err(ParseErrorKind::BlockMalformedArguments));
                }
                match parser.step() {
                    Ok(()) => {},
                    Err(e) => {
                        return Err(e);
                    },
                }
                let quoted = match parser.current().token {
                    Token::QuotedString => true,
                    _ => false,
                };
                if !quoted {
                    proof {
                        assert(spec_head_args(toks, pos) == Err::<(Seq<(String, String)>, int), _>(
                            ParseErrorKind::BlockMalformedArguments,
                        ));
                    }
                    return Err(parser.make_err(ParseErrorKind::BlockMalformedArguments));
                }
                let value = parser.current().slice.clone();
                match parser.step() {
                    Ok(()) => {},
                    Err(e) => {
                        return Err(e);
                    },
                }
                let ghost prev_entries = entries@;
                entries.push((key, value));
                proof {
                    assert(entries@ == prev_entries.push((toks[pos].slice, toks[pos + 2].slice)));
                    match spec_head_args(toks, pos + 3) {
                        Ok((rest, end)) => {
                            assert(prev_entries.push((toks[pos].slice, toks[pos + 2].slice)) + rest
                                =~= prev_entries + (seq![(toks[pos].slice, toks[pos + 2].slice)]
                                + rest));
                        },
                        Err(_) => {},
                    }
                }
            },
            Token::InputEnd => {
                proof {
                    assert(spec_head_args(toks, pos) == Err::<(Seq<(String, String)>, int), _>(
                        ParseErrorKind::EndOfInput,
                    ));
                }
                return Err(parser.make_err(ParseErrorKind::EndOfInput));
            },
            _ => {
                proof {
                    assert(spec_head_args(toks, pos) == Err::<(Seq<(String, String)>, int), _>(
                        ParseErrorKind::BlockMalformedArguments,
                    ));
                }
                return Err(parser.make_err(ParseErrorKind::BlockMalformedArguments));
            },
        }
    }
}

/// Parse a block head of the form `name key="value"... ]]`: a leading
/// name, then arguments, each exactly as the corresponding spec says.
pub fn get_head_name_map(parser: &mut Parser, in_head: bool) -> (r: Result<
    (String, Arguments),
    ParseError,
>)
    requires
        old(parser).wf(),
        in_head,
    ensures
        final(parser).wf(),
        ctx_unchanged(old(parser), final(parser)),
        artifacts_extended(old(parser), final(parser)),
        final(parser).accepts_partial == old(parser).accepts_partial,
        final(parser).position >= old(parser).position,
        r is Ok ==> final(parser).position > old(parser).position,
        r is Err ==> r->Err_0.kind == ParseErrorKind::EndOfInput || r->Err_0.kind
            == ParseErrorKind::BlockMalformedArguments,
        artifacts_unchanged(old(parser), final(parser)),
        match spec_head_name(old(parser).tokens@, old(parser).position as int) {
            Ok((name, after)) => match spec_head_args(old(parser).tokens@, after) {
                Ok((entries, end)) => r is Ok && r->Ok_0.0 == name && r->Ok_0.1.entries@
                    == entries && final(parser).position == end,
                Err(k) => r is Err && r->Err_0.kind == k,
            },
            Err(k) => r is Err && r->Err_0.kind == k,
        },
{
    let ghost entry = *parser;
    let ghost toks = entry.tokens@;
    skip_whitespace(parser);
    proof {
        lemma_spec_head_name_skip(toks, entry.position as int, parser.position as int);
    }
    let tok = parser.current().token;
    let is_name = match tok {
        Token::Identifier => true,
        Token::Word => true,
        _ => false,
    };
    if !is_name {
        let at_end = match tok {
            Token::InputEnd => true,
            _ => false,
        };
        if at_end {
            return Err(parser.make_err(ParseErrorKind::EndOfInput));
        }
        return Err(parser.make_err(ParseErrorKind::BlockMalformedArguments));
    }
    let name = parser.current().slice.clone();
    match parser.step() {
        Ok(()) => {},
        Err(e) => {
            return Err(e);
        },
    }
    let ghost mid = *parser;
    let arguments = get_head_map(parser, in_head);
    proof {
        lemma_artifacts_extended_trans(&entry, &mid, parser);
    }
    match arguments {
        Ok(args) => Ok((name, args)),
        Err(e) => Err(e),
    }
}

/// Skipping whitespace does not change what the head name parse yields.
proof fn lemma_spec_head_name_skip(tokens: Seq<ExtractedToken>, from: int, to: int)
    requires
        0 <= from <= to <= tokens.len(),
        forall|p: int| from <= p < to ==> tokens[p].token is Whitespace,
    ensures
        spec_head_name(tokens, from) == spec_head_name(tokens, to),
    decreases to - from,
{
    if from < to {
        lemma_spec_head_name_skip(tokens, from + 1, to);
    }
}

/// Parse a block head holding a single free-form value up to `]]`:
/// `None` when the head is empty.
pub fn get_head_value(parser: &mut Parser, in_head: bool) -> (r: Result<
    Option<String>,
    ParseError,
>)
    requires
        old(parser).wf(),
        in_head,
    ensures
        final(parser).wf(),
        ctx_unchanged(old(parser), final(parser)),
        artifacts_unchanged(old(parser), final(parser)),
        artifacts_extended(old(parser), final(parser)),
        final(parser).accepts_partial == old(parser).accepts_partial,
        final(parser).position >= old(parser).position,
        r is Ok ==> final(parser).position > old(parser).position,
        r is Ok ==> {
            let close = final(parser).position - 1;
            &&& old(parser).position <= close < final(parser).tokens@.len()
            &&& final(parser).tokens@[close].token is RightBlock
            &&& (forall|p: int|
                old(parser).position <= p < close ==> !(final(
                    parser).tokens@[p].token is RightBlock))
            &&& match r->Ok_0 {
                Some(s) => s@ == crate::strings::concat_token_slices(
                    final(parser).tokens@,
                    old(parser).position as int,
                    close,
                ) && s@.len() > 0,
                None => crate::strings::concat_token_slices(
                    final(parser).tokens@,
                    old(parser).position as int,
                    close,
                ).len() == 0,
            }
        },
        r is Err ==> r->Err_0.kind == ParseErrorKind::EndOfInput && final(
            parser).spec_current().token is InputEnd,
    decreases old(parser).spec_remaining(), 15int,
{
    let mut close_conditions: Vec<ParseCondition> = Vec::new();
    close_conditions.push(ParseCondition::CurrentToken(Token::RightBlock));
    let invalid_conditions: Vec<ParseCondition> = Vec::new();
    let outcome = collect_text_keep(
        parser,
        Rule::Block,
        close_conditions.as_slice(),
        invalid_conditions.as_slice(),
        Some(ParseErrorKind::BlockMalformedArguments),
    );
    match outcome {
        Ok((text, close)) => {
            proof {
                let conds = close_conditions@;
                let toks = parser.tokens@;
                assert(conds[0] == ParseCondition::CurrentToken(Token::RightBlock));
                assert(crate::parser::condition_holds(toks, close as int, conds[0]));
                assert(toks[close as int].token is RightBlock);
                assert forall|p: int|
                    old(parser).position <= p < close implies !(toks[p].token is RightBlock) by {
                    assert(!crate::parser::any_condition_holds(toks, p, conds));
                    assert(!crate::parser::condition_holds(toks, p, conds[0]));
                }
            }
            if text.as_str().is_empty() {
                Ok(None)
            } else {
                Ok(Some(text))
            }
        },
        Err(e) => Err(e),
    }
}

/// Parse an argument-free block head: whitespace then `]]`.
#[verifier::loop_isolation(false)]
pub fn get_head_none(parser: &mut Parser, in_head: bool) -> (r: Result<(), ParseError>)
    requires
        old(parser).wf(),
        in_head,
    ensures
        final(parser).wf(),
        ctx_unchanged(old(parser), final(parser)),
        artifacts_unchanged(old(parser), final(parser)),
        artifacts_extended(old(parser), final(parser)),
        final(parser).accepts_partial == old(parser).accepts_partial,
        final(parser).position >= old(parser).position,
        r is Ok ==> final(parser).position > old(parser).position,
        r is Err ==> r->Err_0.kind == ParseErrorKind::EndOfInput || r->Err_0.kind
            == ParseErrorKind::BlockMalformedArguments,
        r is Err && r->Err_0.kind == ParseErrorKind::EndOfInput ==> final(
            parser).spec_current().token is InputEnd,
        r is Err && r->Err_0.kind == ParseErrorKind::BlockMalformedArguments ==> !(final(
            parser).spec_current().token is RightBlock) && !(final(
            parser).spec_current().token is Whitespace) && !(final(
            parser).spec_current().token is InputEnd),
{
    skip_whitespace(parser);
    let tok = parser.current().token;
    match tok {
        Token::RightBlock => {
            match parser.step() {
                Ok(()) => {},
                Err(e) => {
                    return Err(e);
                },
            }
            Ok(())
        },
        Token::InputEnd => Err(parser.make_err(ParseErrorKind::EndOfInput)),
        _ => Err(parser.make_err(ParseErrorKind::BlockMalformedArguments)),
    }
}

/// Skip any run of whitespace tokens.
#[verifier::loop_isolation(false)]
fn skip_whitespace(parser: &mut Parser)
    requires
        old(parser).wf(),
    ensures
        final(parser).wf(),
        ctx_unchanged(old(parser), final(parser)),
        artifacts_unchanged(old(parser), final(parser)),
        artifacts_extended(old(parser), final(parser)),
        final(parser).accepts_partial == old(parser).accepts_partial,
        final(parser).position >= old(parser).position,
        !(final(parser).spec_current().token is Whitespace),
        forall|p: int|
            old(parser).position <= p < final(parser).position ==> final(
                parser).tokens@[p].token is Whitespace,
{
    proof {
        lemma_artifacts_extended_refl(old(parser), parser);
    }
    let mut is_ws = match parser.current().token {
        Token::Whitespace => true,
        _ => false,
    };
    while is_ws
        invariant
            parser.wf(),
            ctx_unchanged(old(parser), parser),
            artifacts_unchanged(old(parser), parser),
            artifacts_extended(old(parser), parser),
            parser.accepts_partial == old(parser).accepts_partial,
            parser.position >= old(parser).position,
            is_ws == (parser.spec_current().token is Whitespace),
            forall|p: int|
                old(parser).position <= p < parser.position ==> parser.tokens@[p].token
                    is Whitespace,
        decreases parser.spec_remaining(),
    {
        match parser.step() {
            Ok(()) => {},
            Err(e) => {
                proof {
                    assert(false);
                }
            },
        }
        is_ws = match parser.current().token {
            Token::Whitespace => true,
            _ => false,
        };
    }
}

/// Collect a block's body up to and past its `[[/name]]` end tag.
pub fn get_body_elements(parser: &mut Parser, gather_paragraphs: bool) -> (r: (
    ParseOutcome<Vec<Element>>,
    Ghost<Seq<crate::collect::CollectStep>>,
))
    requires
        old(parser).wf(),
    ensures
        final(parser).wf(),
        ctx_unchanged(old(parser), final(parser)),
        artifacts_extended(old(parser), final(parser)),
        final(parser).accepts_partial == old(parser).accepts_partial,
        final(parser).position >= old(parser).position,
        r.0 is Ok ==> final(parser).position > old(parser).position,
        r.0 is Ok ==> r.0->Ok_0.item@ == crate::collect::log_elements(r.1@)
            && r.0->Ok_0.errors@ == crate::collect::log_errors(r.1@)
            && r.0->Ok_0.paragraph_safe == crate::collect::log_all_safe(r.1@),
        r.0 is Err ==> {
            &&& (r.0->Err_0.kind == ParseErrorKind::EndOfInput || r.0->Err_0.kind
                == ParseErrorKind::BlockMalformedArguments)
            &&& (r.0->Err_0.kind == ParseErrorKind::EndOfInput ==> final(
                parser).spec_current().token is InputEnd)
            &&& (r.0->Err_0.kind == ParseErrorKind::BlockMalformedArguments ==> final(
                parser).position > old(parser).position)
        },
    decreases old(parser).spec_remaining(), 14int,
{
    let mut close_conditions: Vec<ParseCondition> = Vec::new();
    close_conditions.push(ParseCondition::CurrentToken(Token::LeftBlockEnd));
    let invalid_conditions: Vec<ParseCondition> = Vec::new();
    let ghost entry = *parser;
    let (outcome, log) = collect_consume(
        parser,
        Rule::Block,
        close_conditions.as_slice(),
        invalid_conditions.as_slice(),
        None,
    );
    let success = match outcome {
        Ok(s) => s,
        Err(e) => {
            return (Err(e), log);
        },
    };
    proof {
        // The collection closed on an end-tag opener, which is never the
        // end marker, so the cursor advanced past it.
        let close = choose|close: int|
            {
                &&& entry.position <= close < parser.tokens@.len()
                &&& #[trigger] crate::parser::any_condition_holds(
                    parser.tokens@,
                    close,
                    close_conditions@,
                )
                &&& parser.position as int == if parser.tokens@[close].token is InputEnd {
                    close
                } else {
                    close + 1
                }
            };
        assert(crate::parser::condition_holds(parser.tokens@, close, close_conditions@[0]));
        assert(parser.tokens@[close].token is LeftBlockEnd);
        assert(parser.position > entry.position);
    }
    // The end tag: `[[/` was stepped past by the close; now the block
    // name and `]]` must follow.
    let ghost mid = *parser;
    skip_whitespace(parser);
    let is_name = match parser.current().token {
        Token::Identifier => true,
        Token::Word => true,
        _ => false,
    };
    if !is_name {
        proof {
            lemma_artifacts_extended_trans(&entry, &mid, parser);
        }
        return (Err(parser.make_err(ParseErrorKind::BlockMalformedArguments)), log);
    }
    match parser.step() {
        Ok(()) => {},
        Err(e) => {
            return (Err(e), log);
        },
    }
    skip_whitespace(parser);
    let is_close = match parser.current().token {
        Token::RightBlock => true,
        _ => false,
    };
    proof {
        lemma_artifacts_extended_trans(&entry, &mid, parser);
    }
    if !is_close {
        return (Err(parser.make_err(ParseErrorKind::BlockMalformedArguments)), log);
    }
    match parser.step() {
        Ok(()) => {},
        Err(e) => {
            return (Err(e), log);
        },
    }
    (Ok(success), log)
}

/// Dispatch a `[[` token to the matching block rule: the name after the
/// opener picks the rule per [`block_kind_spec`]; a missing or unknown
/// name fails the rule recoverably.
pub fn parse_block(parser: &mut Parser) -> (r: ParseOutcome<Elements>)
    requires
        old(parser).wf(),
        old(parser).spec_current().token is LeftBlock,
    ensures
        final(parser).wf(),
        ctx_unchanged(old(parser), final(parser)),
        artifacts_extended(old(parser), final(parser)),
        final(parser).accepts_partial == old(parser).accepts_partial,
        final(parser).position >= old(parser).position,
        r is Ok ==> final(parser).position > old(parser).position,
        match spec_head_name(old(parser).tokens@, old(parser).position as int + 1) {
            Err(k) => r is Err && r->Err_0.kind == ParseErrorKind::RuleFailed,
            Ok((bname, after)) => {
                &&& (block_kind_spec(ascii_lower_seq(bname@)) is None ==> r is Err
                    && r->Err_0.kind == ParseErrorKind::RuleFailed)
                &&& (r is Ok ==> block_kind_spec(ascii_lower_seq(bname@)) is Some)
            },
        },
    decreases old(parser).spec_remaining(), 3int,
{
    let ghost entry = *parser;
    match parser.step() {
        Ok(()) => {},
        Err(e) => {
            proof {
                assert(false);
            }
            return Err(e);
        },
    }
    skip_whitespace(parser);
    proof {
        lemma_spec_head_name_skip(
            entry.tokens@,
            entry.position as int + 1,
            parser.position as int,
        );
    }
    let is_name = match parser.current().token {
        Token::Identifier => true,
        Token::Word => true,
        _ => false,
    };
    if !is_name {
        return Err(parser.make_err(ParseErrorKind::RuleFailed));
    }
    let name = parser.current().slice.clone();
    match parser.step() {
        Ok(()) => {},
        Err(e) => {
            proof {
                assert(false);
            }
            return Err(e);
        },
    }
    let kind = block_kind_for_name(name.as_str());
    let ghost mid = *parser;
    let outcome = match kind {
        None => Err(parser.make_err(ParseErrorKind::RuleFailed)),
        Some(BlockKind::Embed) => {
            parser.set_rule(Rule::BlockEmbed);
            parse_embed(parser, name.as_str(), false, false, true)
        },
        Some(BlockKind::Hidden) => {
            parser.set_rule(Rule::BlockHidden);
            parse_hidden(parser, name.as_str(), false, false, true)
        },
        Some(BlockKind::IfCategory) => {
            parser.set_rule(Rule::BlockIfCategory);
            let (outcome, _) = parse_ifcategory(parser, name.as_str(), false, false, true);
            outcome
        },
        Some(BlockKind::IncludeElements) => {
            parser.set_rule(Rule::BlockIncludeElements);
            parse_include_elements(parser, name.as_str(), false, false, true)
        },
        Some(BlockKind::Ins) => {
            parser.set_rule(Rule::BlockIns);
            parse_ins(parser, name.as_str(), false, false, true)
        },
        Some(BlockKind::Lines) => {
            parser.set_rule(Rule::BlockLines);
            parse_lines(parser, name.as_str(), false, false, true)
        },
        Some(BlockKind::Radio) => {
            parser.set_rule(Rule::BlockRadio);
            parse_radio(parser, name.as_str(), false, false, true)
        },
        Some(BlockKind::TabView) => {
            parser.set_rule(Rule::BlockTabView);
            let (outcome, _) = parse_tabview(parser, name.as_str(), false, false, true);
            outcome
        },
        Some(BlockKind::Tab) => {
            parser.set_rule(Rule::BlockTab);
            let (outcome, _) = parse_tab(parser, name.as_str(), false, false, true);
            outcome
        },
    };
    proof {
        lemma_artifacts_extended_trans(&entry, &mid, parser);
    }
    outcome
}

/// The `[[embed]]` block: embedded external media.
pub fn parse_embed(
    parser: &mut Parser,
    name: &str,
    flag_star: bool,
    flag_score: bool,
    in_head: bool,
) -> (r: ParseOutcome<Elements>)
    requires
        old(parser).wf(),
        !flag_star,
        !flag_score,
        in_head,
        block_kind_spec(ascii_lower_seq(name@)) == Some(BlockKind::Embed),
    ensures
        final(parser).wf(),
        ctx_unchanged(old(parser), final(parser)),
        artifacts_extended(old(parser), final(parser)),
        final(parser).accepts_partial == old(parser).accepts_partial,
        final(parser).position >= old(parser).position,
        r is Ok ==> final(parser).position > old(parser).position,
        match spec_head_name(old(parser).tokens@, old(parser).position as int) {
            Err(k) => r is Err && r->Err_0.kind == k,
            Ok((ename, after)) => match spec_head_args(old(parser).tokens@, after) {
                Err(k) => r is Err && r->Err_0.kind == k,
                Ok((entries, end)) => {
                    let lower = ascii_lower_seq(ename@);
                    if lower == "youtube"@ {
                        match scope_lookup(entries, "video"@) {
                            Some(v) => {
                                &&& r is Ok
                                &&& final(parser).position == end
                                &&& r->Ok_0.item is Single
                                &&& r->Ok_0.item->Single_0 is Embed
                                &&& r->Ok_0.item->Single_0->Embed_0 is Youtube
                                &&& r->Ok_0.item->Single_0->Embed_0->Youtube_video_id@ == v
                            },
                            None => r is Err && r->Err_0.kind
                                == ParseErrorKind::BlockMissingArguments,
                        }
                    } else if lower == "vimeo"@ {
                        match scope_lookup(entries, "video"@) {
                            Some(v) => {
                                &&& r is Ok
                                &&& final(parser).position == end
                                &&& r->Ok_0.item is Single
                                &&& r->Ok_0.item->Single_0 is Embed
                                &&& r->Ok_0.item->Single_0->Embed_0 is Vimeo
                                &&& r->Ok_0.item->Single_0->Embed_0->Vimeo_video_id@ == v
                            },
                            None => r is Err && r->Err_0.kind
                                == ParseErrorKind::BlockMissingArguments,
                        }
                    } else {
                        r is Err && r->Err_0.kind == ParseErrorKind::NoSuchEmbed
                    }
                },
            },
        },
    decreases old(parser).spec_remaining(), 20int,
{
    let head = get_head_name_map(parser, in_head);
    let (embed_name, arguments) = match head {
        Ok(pair) => pair,
        Err(e) => {
            return Err(e);
        },
    };
    let embed = match build_embed(parser, embed_name.as_str(), &arguments) {
        Ok(embed) => embed,
        Err(e) => {
            return Err(e);
        },
    };
    Ok(
        ParseSuccess::new(
            Elements::Single(crate::element::Element::Embed(embed)),
            Vec::new(),
            false,
        ),
    )
}

/// Choose the embed service for a name and build its element.
///
/// `youtube` and `vimeo` (ASCII case-insensitively) are known and require
/// a `video` argument; any other name is refused.
pub fn build_embed(parser: &Parser, name: &str, arguments: &Arguments) -> (r: Result<
    crate::element::Embed,
    ParseError,
>)
    requires
        parser.wf(),
    ensures
        ({
            let lower = ascii_lower_seq(name@);
            if lower == "youtube"@ {
                match scope_lookup(arguments.entries@, "video"@) {
                    Some(v) => r is Ok && r->Ok_0 is Youtube && r->Ok_0->Youtube_video_id@ == v,
                    None => r is Err && r->Err_0.kind == ParseErrorKind::BlockMissingArguments,
                }
            } else if lower == "vimeo"@ {
                match scope_lookup(arguments.entries@, "video"@) {
                    Some(v) => r is Ok && r->Ok_0 is Vimeo && r->Ok_0->Vimeo_video_id@ == v,
                    None => r is Err && r->Err_0.kind == ParseErrorKind::BlockMissingArguments,
                }
            } else {
                r is Err && r->Err_0.kind == ParseErrorKind::NoSuchEmbed
            }
        }),
{
    proof {
        reveal_strlit("youtube");
        reveal_strlit("vimeo");
        assert(ascii_lower_seq("youtube"@) =~= "youtube"@);
        assert(ascii_lower_seq("vimeo"@) =~= "vimeo"@);
    }
    if str_eq_ignore_ascii_case(name, "youtube") {
        build_youtube(parser, arguments)
    } else if str_eq_ignore_ascii_case(name, "vimeo") {
        build_vimeo(parser, arguments)
    } else {
        Err(parser.make_err(ParseErrorKind::NoSuchEmbed))
    }
}

/// Build a youtube embed from its `video` argument.
pub fn build_youtube(parser: &Parser, arguments: &Arguments) -> (r: Result<
    crate::element::Embed,
    ParseError,
>)
    requires
        parser.wf(),
    ensures
        match scope_lookup(arguments.entries@, "video"@) {
            Some(v) => r is Ok && r->Ok_0 is Youtube && r->Ok_0->Youtube_video_id@ == v,
            None => r is Err && r->Err_0.kind == ParseErrorKind::BlockMissingArguments,
        },
{
    match arguments.get("video") {
        Some(video_id) => Ok(crate::element::Embed::Youtube { video_id: video_id.clone() }),
        None => Err(parser.make_err(ParseErrorKind::BlockMissingArguments)),
    }
}

/// Build a vimeo embed from its `video` argument.
pub fn build_vimeo(parser: &Parser, arguments: &Arguments) -> (r: Result<
    crate::element::Embed,
    ParseError,
>)
    requires
        parser.wf(),
    ensures
        match scope_lookup(arguments.entries@, "video"@) {
            Some(v) => r is Ok && r->Ok_0 is Vimeo && r->Ok_0->Vimeo_video_id@ == v,
            None => r is Err && r->Err_0.kind == ParseErrorKind::BlockMissingArguments,
        },
{
    match arguments.get("video") {
        Some(video_id) => Ok(crate::element::Embed::Vimeo { video_id: video_id.clone() }),
        None => Err(parser.make_err(ParseErrorKind::BlockMissingArguments)),
    }
}

/// The `[[hidden]]` block: contents hidden from display.
pub fn parse_hidden(
    parser: &mut Parser,
    name: &str,
    flag_star: bool,
    flag_score: bool,
    in_head: bool,
) -> (r: ParseOutcome<Elements>)
    requires
        old(parser).wf(),
        !flag_star,
        !flag_score,
        in_head,
        block_kind_spec(ascii_lower_seq(name@)) == Some(BlockKind::Hidden),
    ensures
        final(parser).wf(),
        ctx_unchanged(old(parser), final(parser)),
        artifacts_extended(old(parser), final(parser)),
        final(parser).accepts_partial == old(parser).accepts_partial,
        final(parser).position >= old(parser).position,
        r is Ok ==> final(parser).position > old(parser).position && r->Ok_0.item is Single
            && r->Ok_0.item->Single_0 is Container
            && r->Ok_0.item->Single_0->Container_0.ctype == ContainerType::Hidden,
        match spec_head_args(old(parser).tokens@, old(parser).position as int) {
            Err(k) => r is Err && r->Err_0.kind == k,
            Ok((entries, after_head)) => r is Ok
                ==> r->Ok_0.item->Single_0->Container_0.attributes.entries@ == entries,
        },
        r is Err ==> match spec_head_args(old(parser).tokens@, old(parser).position as int) {
            Err(k) => r->Err_0.kind == k,
            Ok((entries, end)) => {
                &&& final(parser).position >= end
                &&& (r->Err_0.kind == ParseErrorKind::EndOfInput || r->Err_0.kind
                    == ParseErrorKind::BlockMalformedArguments)
                &&& (r->Err_0.kind == ParseErrorKind::EndOfInput ==> final(
                    parser).spec_current().token is InputEnd)
                &&& (r->Err_0.kind == ParseErrorKind::BlockMalformedArguments ==> final(
                    parser).position > end)
            },
        },
    decreases old(parser).spec_remaining(), 20int,
{
    parse_container_block(parser, in_head, ContainerType::Hidden)
}

/// The `[[ins]]` block: an insertion span.
pub fn parse_ins(
    parser: &mut Parser,
    name: &str,
    flag_star: bool,
    flag_score: bool,
    in_head: bool,
) -> (r: ParseOutcome<Elements>)
    requires
        old(parser).wf(),
        !flag_star,
        !flag_score,
        in_head,
        block_kind_spec(ascii_lower_seq(name@)) == Some(BlockKind::Ins),
    ensures
        final(parser).wf(),
        ctx_unchanged(old(parser), final(parser)),
        artifacts_extended(old(parser), final(parser)),
        final(parser).accepts_partial == old(parser).accepts_partial,
        final(parser).position >= old(parser).position,
        r is Ok ==> final(parser).position > old(parser).position && r->Ok_0.item is Single
            && r->Ok_0.item->Single_0 is Container
            && r->Ok_0.item->Single_0->Container_0.ctype == ContainerType::Insertion,
        match spec_head_args(old(parser).tokens@, old(parser).position as int) {
            Err(k) => r is Err && r->Err_0.kind == k,
            Ok((entries, after_head)) => r is Ok
                ==> r->Ok_0.item->Single_0->Container_0.attributes.entries@ == entries,
        },
        r is Err ==> match spec_head_args(old(parser).tokens@, old(parser).position as int) {
            Err(k) => r->Err_0.kind == k,
            Ok((entries, end)) => {
                &&& final(parser).position >= end
                &&& (r->Err_0.kind == ParseErrorKind::EndOfInput || r->Err_0.kind
                    == ParseErrorKind::BlockMalformedArguments)
                &&& (r->Err_0.kind == ParseErrorKind::EndOfInput ==> final(
                    parser).spec_current().token is InputEnd)
                &&& (r->Err_0.kind == ParseErrorKind::BlockMalformedArguments ==> final(
                    parser).position > end)
            },
        },
    decreases old(parser).spec_remaining(), 20int,
{
    parse_container_block(parser, in_head, ContainerType::Insertion)
}

/// Shared body of the container-producing blocks: head arguments become
/// the container's attributes, the body its children.
fn parse_container_block(parser: &mut Parser, in_head: bool, ctype: ContainerType) -> (r:
    ParseOutcome<Elements>)
    requires
        old(parser).wf(),
        in_head,
    ensures
        final(parser).wf(),
        ctx_unchanged(old(parser), final(parser)),
        artifacts_extended(old(parser), final(parser)),
        final(parser).accepts_partial == old(parser).accepts_partial,
        final(parser).position >= old(parser).position,
        r is Ok ==> final(parser).position > old(parser).position && r->Ok_0.item is Single
            && r->Ok_0.item->Single_0 is Container
            && r->Ok_0.item->Single_0->Container_0.ctype == ctype,
        match spec_head_args(old(parser).tokens@, old(parser).position as int) {
            Err(k) => r is Err && r->Err_0.kind == k,
            Ok((entries, after_head)) => r is Ok
                ==> r->Ok_0.item->Single_0->Container_0.attributes.entries@ == entries,
        },
        r is Err ==> match spec_head_args(old(parser).tokens@, old(parser).position as int) {
            Err(k) => r->Err_0.kind == k,
            Ok((entries, end)) => {
                &&& final(parser).position >= end
                &&& (r->Err_0.kind == ParseErrorKind::EndOfInput || r->Err_0.kind
                    == ParseErrorKind::BlockMalformedArguments)
                &&& (r->Err_0.kind == ParseErrorKind::EndOfInput ==> final(
                    parser).spec_current().token is InputEnd)
                &&& (r->Err_0.kind == ParseErrorKind::BlockMalformedArguments ==> final(
                    parser).position > end)
            },
        },
    decreases old(parser).spec_remaining(), 19int,
{
    let ghost entry = *parser;
    let head = get_head_map(parser, in_head);
    let arguments = match head {
        Ok(args) => args,
        Err(e) => {
            return Err(e);
        },
    };
    let ghost mid = *parser;
    let (body, _) = get_body_elements(parser, false);
    proof {
        lemma_artifacts_extended_trans(&entry, &mid, parser);
    }
    let success = match body {
        Ok(s) => s,
        Err(e) => {
            return Err(e);
        },
    };
    let (elements, errors, _body_safe) = success.into_parts();
    let element = Element::Container(
        Container::new(ctype, elements, arguments.to_attribute_map()),
    );
    let safe = element.paragraph_safe();
    Ok(ParseSuccess::new(Elements::Single(element), errors, safe))
}

/// The `[[radio]]` block: a radio button input.
pub fn parse_radio(
    parser: &mut Parser,
    name: &str,
    flag_star: bool,
    flag_score: bool,
    in_head: bool,
) -> (r: ParseOutcome<Elements>)
    requires
        old(parser).wf(),
        !flag_star,
        !flag_score,
        in_head,
        block_kind_spec(ascii_lower_seq(name@)) == Some(BlockKind::Radio),
    ensures
        final(parser).wf(),
        ctx_unchanged(old(parser), final(parser)),
        artifacts_extended(old(parser), final(parser)),
        final(parser).accepts_partial == old(parser).accepts_partial,
        final(parser).position >= old(parser).position,
        r is Ok ==> final(parser).position > old(parser).position,
        match spec_head_name(old(parser).tokens@, old(parser).position as int) {
            Err(k) => r is Err && r->Err_0.kind == k,
            Ok((gname, after)) => match spec_head_args(old(parser).tokens@, after) {
                Err(k) => r is Err && r->Err_0.kind == k,
                Ok((entries, end)) => {
                    &&& r is Ok
                    &&& final(parser).position == end
                    &&& r->Ok_0.item is Single
                    &&& r->Ok_0.item->Single_0 is RadioButton
                    &&& r->Ok_0.item->Single_0->RadioButton_name == gname
                    &&& r->Ok_0.item->Single_0->RadioButton_attributes.entries@ == entries
                    &&& r->Ok_0.errors@.len() == 0
                },
            },
        },
    decreases old(parser).spec_remaining(), 20int,
{
    let head = get_head_name_map(parser, in_head);
    let (group_name, arguments) = match head {
        Ok(pair) => pair,
        Err(e) => {
            return Err(e);
        },
    };
    let element = Element::RadioButton {
        name: group_name,
        attributes: arguments.to_attribute_map(),
    };
    Ok(ParseSuccess::new(Elements::Single(element), Vec::new(), true))
}

/// The `[[lines]]` block: an explicit run of line breaks.
pub fn parse_lines(
    parser: &mut Parser,
    name: &str,
    flag_star: bool,
    flag_score: bool,
    in_head: bool,
) -> (r: ParseOutcome<Elements>)
    requires
        old(parser).wf(),
        !flag_star,
        !flag_score,
        in_head,
        block_kind_spec(ascii_lower_seq(name@)) == Some(BlockKind::Lines),
    ensures
        final(parser).wf(),
        ctx_unchanged(old(parser), final(parser)),
        artifacts_extended(old(parser), final(parser)),
        final(parser).accepts_partial == old(parser).accepts_partial,
        final(parser).position >= old(parser).position,
        match r {
            Ok(s) => {
                let close = final(parser).position - 1;
                let text = crate::strings::concat_token_slices(
                    final(parser).tokens@,
                    old(parser).position as int,
                    close,
                );
                let d = count_arg_digits(text);
                &&& old(parser).position <= close < final(parser).tokens@.len()
                &&& final(parser).tokens@[close].token is RightBlock
                &&& (forall|p: int|
                    old(parser).position <= p < close ==> !(final(
                        parser).tokens@[p].token is RightBlock))
                &&& text.len() > 0
                &&& d.len() > 0 && all_digits(d) && 1 <= dec_value(d) <= 100
                &&& s.item is Single
                &&& s.item->Single_0 is LineBreaks
                &&& s.item->Single_0->LineBreaks_0 as int == dec_value(d)
                &&& s.errors@.len() == 0
            },
            Err(e) => {
                ||| e.kind == ParseErrorKind::EndOfInput && final(
                    parser).spec_current().token is InputEnd
                ||| ({
                    let close = final(parser).position - 1;
                    let text = crate::strings::concat_token_slices(
                        final(parser).tokens@,
                        old(parser).position as int,
                        close,
                    );
                    let d = count_arg_digits(text);
                    &&& old(parser).position <= close < final(parser).tokens@.len()
                    &&& final(parser).tokens@[close].token is RightBlock
                    &&& (e.kind == ParseErrorKind::BlockMissingArguments || e.kind
                        == ParseErrorKind::BlockMalformedArguments)
                    &&& (e.kind == ParseErrorKind::BlockMissingArguments ==> text.len() == 0)
                    &&& (e.kind == ParseErrorKind::BlockMalformedArguments ==> text.len() > 0
                        && !(d.len() > 0 && all_digits(d) && 1 <= dec_value(d) <= 100))
                })
            },
        },
    decreases old(parser).spec_remaining(), 20int,
{
    let head = get_head_value(parser, in_head);
    let argument = match head {
        Ok(value) => value,
        Err(e) => {
            return Err(e);
        },
    };
    let count = match parse_count(parser, argument.as_ref()) {
        Ok(count) => count,
        Err(e) => {
            return Err(e);
        },
    };
    Ok(ParseSuccess::new(Elements::Single(Element::LineBreaks(count)), Vec::new(), false))
}

/// Parse the numeric argument of a lines block: a whitespace-trimmed
/// decimal between 1 and 100, with one optional leading plus sign. A
/// missing argument is refused as missing, anything else unparsable as
/// malformed.
pub fn parse_count(parser: &Parser, argument: Option<&String>) -> (r: Result<u32, ParseError>)
    requires
        parser.wf(),
    ensures
        match argument {
            None => r is Err && r->Err_0.kind == ParseErrorKind::BlockMissingArguments,
            Some(s) => {
                let d = count_arg_digits(s@);
                if d.len() > 0 && all_digits(d) && 1 <= dec_value(d) <= 100 {
                    r is Ok && r->Ok_0 as int == dec_value(d)
                } else {
                    r is Err && r->Err_0.kind == ParseErrorKind::BlockMalformedArguments
                }
            },
        },
{
    let s = match argument {
        Some(s) => s,
        None => {
            return Err(parser.make_err(ParseErrorKind::BlockMissingArguments));
        },
    };
    match parse_line_count(s.as_str()) {
        Some(value) => Ok(value),
        None => Err(parser.make_err(ParseErrorKind::BlockMalformedArguments)),
    }
}

/// The `[[tabview]]` block: a tab view gathering `[[tab]]` fragments.
///
/// The accepts-partial flag is set to expect tabs for the extent of the
/// body and restored on every exit path.
#[verifier::rlimit(100)]
#[verifier::spinoff_prover]
pub fn parse_tabview(
    parser: &mut Parser,
    name: &str,
    flag_star: bool,
    flag_score: bool,
    in_head: bool,
) -> (r: (ParseOutcome<Elements>, Ghost<Seq<Element>>))
    requires
        old(parser).wf(),
        !flag_star,
        !flag_score,
        in_head,
        block_kind_spec(ascii_lower_seq(name@)) == Some(BlockKind::TabView),
    ensures
        final(parser).wf(),
        ctx_unchanged(old(parser), final(parser)),
        artifacts_extended(old(parser), final(parser)),
        final(parser).accepts_partial == old(parser).accepts_partial,
        final(parser).position >= old(parser).position,
        r.0 is Ok ==> {
            let s = r.0->Ok_0;
            &&& final(parser).position > old(parser).position
            &&& s.item is Single
            &&& s.item->Single_0 is TabView
            &&& !s.paragraph_safe
            &&& all_tabs_or_whitespace(r.1@)
            &&& s.item->Single_0->TabView_0@ == tab_payloads(r.1@)
            &&& tab_payloads(r.1@).len() > 0
        },
        r.0 is Err ==> r.0->Err_0.kind == ParseErrorKind::EndOfInput || r.0->Err_0.kind
            == ParseErrorKind::BlockMalformedArguments || r.0->Err_0.kind
            == ParseErrorKind::TabViewEmpty || r.0->Err_0.kind
            == ParseErrorKind::TabViewContainsNonTab,
        r.0 is Err && r.0->Err_0.kind == ParseErrorKind::EndOfInput ==> final(
            parser).spec_current().token is InputEnd,
        r.0 is Err && r.0->Err_0.kind == ParseErrorKind::BlockMalformedArguments ==> final(
            parser).position > old(parser).position || (!(final(
            parser).spec_current().token is RightBlock) && !(final(
            parser).spec_current().token is Whitespace) && !(final(
            parser).spec_current().token is InputEnd)),
        r.0 is Err && r.0->Err_0.kind == ParseErrorKind::TabViewContainsNonTab
            ==> has_non_tab_content(r.1@),
        r.0 is Err && r.0->Err_0.kind == ParseErrorKind::TabViewEmpty ==> tab_payloads(r.1@).len()
            == 0 && all_tabs_or_whitespace(r.1@),
    decreases old(parser).spec_remaining(), 20int,
{
    let ghost entry = *parser;
    let wrap = ParserWrap::new(parser, AcceptsPartial::Tab);

    let head = get_head_none(parser, in_head);
    match head {
        Ok(()) => {},
        Err(e) => {
            wrap.finish(parser);
            return (Err(e), Ghost(Seq::empty()));
        },
    }
    let ghost mid = *parser;
    let (body, _) = get_body_elements(parser, false);
    proof {
        lemma_artifacts_extended_trans(&entry, &mid, parser);
    }
    let success = match body {
        Ok(s) => s,
        Err(e) => {
            wrap.finish(parser);
            return (Err(e), Ghost(Seq::empty()));
        },
    };
    wrap.finish(parser);

    let (elements, errors, _safe) = success.into_parts();
    let ghost body_elems = elements@;
    let tabs = match extract_tabs(parser, elements) {
        Ok(tabs) => tabs,
        Err(e) => {
            return (Err(e), Ghost(body_elems));
        },
    };
    (
        Ok(ParseSuccess::new(Elements::Single(Element::TabView(tabs)), errors, false)),
        Ghost(body_elems),
    )
}

/// The tab payloads of an element sequence, in order.
pub open spec fn tab_payloads(elems: Seq<Element>) -> Seq<Tab>
    decreases elems,
{
    if elems.len() == 0 {
        Seq::empty()
    } else {
        tab_payloads(elems.drop_last()) + (if elems.last() is Partial
            && elems.last()->Partial_0 is Tab {
            seq![elems.last()->Partial_0->Tab_0]
        } else {
            Seq::empty()
        })
    }
}

/// Whether some element is neither a tab fragment nor whitespace.
pub open spec fn has_non_tab_content(s: Seq<Element>) -> bool {
    exists|i: int|
        0 <= i < s.len() && !is_tab_fragment(#[trigger] s[i]) && !all_whitespace_element(s[i])
}

/// Whether every element is a tab fragment or whitespace.
pub open spec fn all_tabs_or_whitespace(s: Seq<Element>) -> bool {
    forall|i: int|
        0 <= i < s.len() ==> is_tab_fragment(#[trigger] s[i]) || all_whitespace_element(s[i])
}

/// Whether an element is a tab fragment.
pub open spec fn is_tab_fragment(e: Element) -> bool {
    e is Partial && e->Partial_0 is Tab
}

/// Keep the tabs of a tab view's body, skipping internal whitespace and
/// refusing anything else; an empty result is refused too.
#[verifier::loop_isolation(false)]
pub fn extract_tabs(parser: &Parser, elements: Vec<Element>) -> (r: Result<Vec<Tab>, ParseError>)
    requires
        parser.wf(),
    ensures
        r is Ok ==> all_tabs_or_whitespace(elements@) && r->Ok_0@ == tab_payloads(elements@)
            && tab_payloads(elements@).len() > 0,
        r is Err ==> r->Err_0.kind == ParseErrorKind::TabViewContainsNonTab || r->Err_0.kind
            == ParseErrorKind::TabViewEmpty,
        r is Err && r->Err_0.kind == ParseErrorKind::TabViewContainsNonTab
            ==> has_non_tab_content(elements@),
        r is Err && r->Err_0.kind == ParseErrorKind::TabViewEmpty ==> tab_payloads(
            elements@,
        ).len() == 0 && all_tabs_or_whitespace(elements@),
{
    let ghost s = elements@;
    let mut tabs: Vec<Tab> = Vec::new();
    let mut remaining = elements;
    let ghost mut taken: int = 0;
    proof {
        assert(remaining@ =~= s.subrange(0, s.len() as int));
        assert(tabs@ =~= tab_payloads(s.subrange(0, 0)));
    }
    while remaining.len() > 0
        invariant
            0 <= taken <= s.len(),
            remaining@ == s.subrange(taken, s.len() as int),
            tabs@ == tab_payloads(s.subrange(0, taken)),
            forall|i: int|
                0 <= i < taken ==> is_tab_fragment(#[trigger] s[i]) || all_whitespace_element(
                    s[i],
                ),
        decreases remaining@.len(),
    {
        let element = remaining.remove(0);
        let ghost gelement = element;
        proof {
            assert(s.subrange(taken, s.len() as int)[0] == s[taken]);
            assert(remaining@ =~= s.subrange(taken + 1, s.len() as int));
            assert(s.subrange(0, taken + 1).drop_last() =~= s.subrange(0, taken));
            assert(s.subrange(0, taken + 1).last() == s[taken]);
        }
        match element {
            Element::Partial(PartialElement::Tab(tab)) => {
                tabs.push(tab);
                proof {
                    assert(tabs@ =~= tab_payloads(s.subrange(0, taken + 1)));
                }
            },
            other => {
                let ws = is_whitespace_element(&other);
                if !ws {
                    return Err(parser.make_err(ParseErrorKind::TabViewContainsNonTab));
                }
                proof {
                    assert(tabs@ =~= tab_payloads(s.subrange(0, taken + 1)));
                }
            },
        }
        proof {
            taken = taken + 1;
        }
    }
    proof {
        assert(s.subrange(0, s.len() as int) =~= s);
    }
    if tabs.len() == 0 {
        return Err(parser.make_err(ParseErrorKind::TabViewEmpty));
    }
    Ok(tabs)
}

/// Whether an element is nothing but whitespace.
pub fn is_whitespace_element(e: &Element) -> (r: bool)
    ensures
        r == all_whitespace_element(*e),
{
    match e {
        Element::LineBreak => true,
        Element::Text(s) => str_all_whitespace(s.as_str()),
        _ => false,
    }
}

/// The `[[tab]]` block: one tab fragment, valid only inside a tab view.
pub fn parse_tab(
    parser: &mut Parser,
    name: &str,
    flag_star: bool,
    flag_score: bool,
    in_head: bool,
) -> (r: (ParseOutcome<Elements>, Ghost<(int, Seq<Element>)>))
    requires
        old(parser).wf(),
        !flag_star,
        !flag_score,
        in_head,
        block_kind_spec(ascii_lower_seq(name@)) == Some(BlockKind::Tab),
    ensures
        final(parser).wf(),
        ctx_unchanged(old(parser), final(parser)),
        artifacts_extended(old(parser), final(parser)),
        final(parser).accepts_partial == old(parser).accepts_partial,
        final(parser).position >= old(parser).position,
        match r.0 {
            Ok(s) => {
                let close = r.1@.0;
                let body = r.1@.1;
                let label_text = crate::strings::concat_token_slices(
                    final(parser).tokens@,
                    old(parser).position as int,
                    close,
                );
                &&& final(parser).position > old(parser).position
                &&& old(parser).position <= close < final(parser).tokens@.len()
                &&& final(parser).tokens@[close].token is RightBlock
                &&& (forall|p: int|
                    old(parser).position <= p < close ==> !(final(
                        parser).tokens@[p].token is RightBlock))
                &&& label_text.len() > 0
                &&& s.item is Single
                &&& s.item->Single_0 is Partial
                &&& s.item->Single_0->Partial_0 is Tab
                &&& s.item->Single_0->Partial_0->Tab_0.label@ == label_text
                &&& s.item->Single_0->Partial_0->Tab_0.elements@ == body
                &&& !s.paragraph_safe
            },
            Err(e) => {
                &&& (e.kind == ParseErrorKind::EndOfInput || e.kind
                    == ParseErrorKind::BlockMissingArguments || e.kind
                    == ParseErrorKind::BlockMalformedArguments)
                &&& (e.kind == ParseErrorKind::EndOfInput ==> final(
                    parser).spec_current().token is InputEnd)
                &&& (e.kind == ParseErrorKind::BlockMissingArguments ==> {
                    let close = final(parser).position - 1;
                    &&& old(parser).position <= close < final(parser).tokens@.len()
                    &&& final(parser).tokens@[close].token is RightBlock
                    &&& crate::strings::concat_token_slices(
                        final(parser).tokens@,
                        old(parser).position as int,
                        close,
                    ).len() == 0
                })
                &&& (e.kind == ParseErrorKind::BlockMalformedArguments ==> final(
                    parser).position > old(parser).position)
            },
        },
    decreases old(parser).spec_remaining(), 20int,
{
    let ghost entry = *parser;
    let head = get_head_value(parser, in_head);
    let ghost head_close: int = parser.position as int - 1;
    let label = match head {
        Ok(Some(label)) => label,
        Ok(None) => {
            return (
                Err(parser.make_err(ParseErrorKind::BlockMissingArguments)),
                Ghost((0int, Seq::empty())),
            );
        },
        Err(e) => {
            return (Err(e), Ghost((0int, Seq::empty())));
        },
    };
    let ghost mid = *parser;
    let (body, _) = get_body_elements(parser, true);
    proof {
        lemma_artifacts_extended_trans(&entry, &mid, parser);
    }
    let success = match body {
        Ok(s) => s,
        Err(e) => {
            return (Err(e), Ghost((0int, Seq::empty())));
        },
    };
    let (elements, errors, _safe) = success.into_parts();
    let ghost body_elems = elements@;
    let element = Element::Partial(PartialElement::Tab(Tab { label, elements }));
    (
        Ok(ParseSuccess::new(Elements::Single(element), errors, false)),
        Ghost((head_close, body_elems)),
    )
}

/// A category condition: required, prohibited, or merely present.
#[derive(Debug, Clone, Copy, PartialEq, Eq, Structural)]
pub enum ElementConditionType {
    Required,
    Prohibited,
    Present,
}

/// One parsed category condition.
#[derive(Debug, PartialEq)]
pub struct ElementCondition {
    pub ctype: ElementConditionType,
    pub value: String,
}

/// The condition one head word denotes: a `+` prefix requires, a `-`
/// prefix prohibits, anything else asks for presence. A bare prefix is
/// skipped.
pub open spec fn word_condition(w: Seq<char>) -> Option<(ElementConditionType, Seq<char>)> {
    if w.len() == 0 {
        None
    } else if w[0] == '+' {
        if w.len() == 1 {
            None
        } else {
            Some((ElementConditionType::Required, w.drop_first()))
        }
    } else if w[0] == '-' {
        if w.len() == 1 {
            None
        } else {
            Some((ElementConditionType::Prohibited, w.drop_first()))
        }
    } else {
        Some((ElementConditionType::Present, w))
    }
}

/// The conditions a word list denotes, in order.
pub open spec fn conditions_of(words: Seq<String>) -> Seq<(ElementConditionType, Seq<char>)>
    decreases words,
{
    if words.len() == 0 {
        Seq::empty()
    } else {
        conditions_of(words.drop_last()) + (match word_condition(words.last()@) {
            Some(c) => seq![c],
            None => Seq::empty(),
        })
    }
}

/// Whether no required condition remains: parsing softens required into
/// present, since a page is in at most one category.
pub open spec fn no_required_conditions(conds: Seq<ElementCondition>) -> bool {
    forall|i: int| 0 <= i < conds.len() ==> !((#[trigger] conds[i]).ctype is Required)
}

/// Whether a condition list passes for the given category.
pub open spec fn conditions_check(conds: Seq<ElementCondition>, cat: Seq<char>) -> bool {
    &&& forall|i: int|
        0 <= i < conds.len() && (#[trigger] conds[i]).ctype is Required ==> conds[i].value@ == cat
    &&& forall|i: int|
        0 <= i < conds.len() && (#[trigger] conds[i]).ctype is Prohibited ==> conds[i].value@
            != cat
    &&& ((forall|i: int| 0 <= i < conds.len() ==> !((#[trigger] conds[i]).ctype is Present))
        || (exists|i: int|
        0 <= i < conds.len() && (#[trigger] conds[i]).ctype is Present && conds[i].value@ == cat))
}

/// The category a page is checked against: its own, or the default one.
pub open spec fn spec_page_category(info: &PageInfo) -> Seq<char> {
    match info.category {
        Some(c) => c@,
        None => "_default"@,
    }
}

/// Whether the ifcategory conditions pass for the given page.
#[verifier::loop_isolation(false)]
pub fn check_ifcategory(info: &PageInfo, conditions: &Vec<ElementCondition>) -> (r: bool)
    ensures
        r == conditions_check(conditions@, spec_page_category(info)),
{
    let default_category = "_default";
    let category: &str = match &info.category {
        Some(c) => c.as_str(),
        None => default_category,
    };

    let mut any_present = false;
    let mut present_matched = false;
    let mut i: usize = 0;
    let ghost conds = conditions@;
    let ghost cat = spec_page_category(info);
    while i < conditions.len()
        invariant
            0 <= i <= conds.len(),
            category@ == cat,
            forall|j: int|
                0 <= j < i && (#[trigger] conds[j]).ctype is Required ==> conds[j].value@ == cat,
            forall|j: int|
                0 <= j < i && (#[trigger] conds[j]).ctype is Prohibited ==> conds[j].value@
                    != cat,
            any_present == exists|j: int|
                0 <= j < i && (#[trigger] conds[j]).ctype is Present,
            present_matched == exists|j: int|
                0 <= j < i && (#[trigger] conds[j]).ctype is Present && conds[j].value@ == cat,
        decreases conds.len() - i,
    {
        let matched = str_eq(conditions[i].value.as_str(), category);
        match conditions[i].ctype {
            ElementConditionType::Required => {
                if !matched {
                    return false;
                }
            },
            ElementConditionType::Prohibited => {
                if matched {
                    return false;
                }
            },
            ElementConditionType::Present => {
                any_present = true;
                if matched {
                    present_matched = true;
                }
            },
        }
        i = i + 1;
    }
    !any_present || present_matched
}

/// Parse head words into category conditions, in order, skipping bare
/// prefixes.
#[verifier::loop_isolation(false)]
pub fn parse_conditions(words: &Vec<String>) -> (r: Vec<ElementCondition>)
    ensures
        r@.len() == conditions_of(words@).len(),
        forall|i: int|
            0 <= i < r@.len() ==> (#[trigger] r@[i]).ctype == conditions_of(words@)[i].0
                && r@[i].value@ == conditions_of(words@)[i].1,
{
    let mut out: Vec<ElementCondition> = Vec::new();
    let mut i: usize = 0;
    let ghost ws = words@;
    proof {
        reveal_strlit("+");
        reveal_strlit("-");
    }
    while i < words.len()
        invariant
            0 <= i <= ws.len(),
            out@.len() == conditions_of(ws.subrange(0, i as int)).len(),
            forall|j: int|
                0 <= j < out@.len() ==> (#[trigger] out@[j]).ctype == conditions_of(
                    ws.subrange(0, i as int),
                )[j].0 && out@[j].value@ == conditions_of(ws.subrange(0, i as int))[j].1,
        decreases ws.len() - i,
    {
        let word = &words[i];
        proof {
            assert(ws.subrange(0, i as int + 1).drop_last() =~= ws.subrange(0, i as int));
            assert(ws.subrange(0, i as int + 1).last() == ws[i as int]);
        }
        match crate::outside::strip_prefix_str(word.as_str(), "+") {
            Some(rest) => {
                if !rest.is_empty() {
                    out.push(
                        ElementCondition {
                            ctype: ElementConditionType::Required,
                            value: rest.to_owned(),
                        },
                    );
                }
            },
            None => {
                match crate::outside::strip_prefix_str(word.as_str(), "-") {
                    Some(rest) => {
                        if !rest.is_empty() {
                            out.push(
                                ElementCondition {
                                    ctype: ElementConditionType::Prohibited,
                                    value: rest.to_owned(),
                                },
                            );
                        }
                    },
                    None => {
                        if !word.as_str().is_empty() {
                            out.push(
                                ElementCondition {
                                    ctype: ElementConditionType::Present,
                                    value: word.clone(),
                                },
                            );
                        }
                    },
                }
            },
        }
        i = i + 1;
    }
    proof {
        assert(ws.subrange(0, ws.len() as int) =~= ws);
    }
    out
}

/// Read the head as a list of bare words up to and past `]]`.
#[verifier::loop_isolation(false)]
pub fn get_head_words(parser: &mut Parser, in_head: bool) -> (r: Result<Vec<String>, ParseError>)
    requires
        old(parser).wf(),
        in_head,
    ensures
        final(parser).wf(),
        ctx_unchanged(old(parser), final(parser)),
        artifacts_unchanged(old(parser), final(parser)),
        artifacts_extended(old(parser), final(parser)),
        final(parser).accepts_partial == old(parser).accepts_partial,
        final(parser).position >= old(parser).position,
        r is Ok ==> final(parser).position > old(parser).position,
        r is Err ==> r->Err_0.kind == ParseErrorKind::EndOfInput || r->Err_0.kind
            == ParseErrorKind::BlockMalformedArguments,
        r is Err && r->Err_0.kind == ParseErrorKind::EndOfInput ==> final(
            parser).spec_current().token is InputEnd,
        r is Err && r->Err_0.kind == ParseErrorKind::BlockMalformedArguments ==> !(final(
            parser).spec_current().token is RightBlock) && !(final(
            parser).spec_current().token is Whitespace) && !(final(
            parser).spec_current().token is InputEnd),
{
    let ghost entry = *parser;
    proof {
        lemma_artifacts_extended_refl(&entry, parser);
    }
    let mut words: Vec<String> = Vec::new();
    loop
        invariant
            parser.wf(),
            ctx_unchanged(&entry, parser),
            artifacts_unchanged(&entry, parser),
            artifacts_extended(&entry, parser),
            parser.accepts_partial == entry.accepts_partial,
            parser.position >= entry.position,
        decreases parser.spec_remaining(),
    {
        let tok = parser.current().token;
        match tok {
            Token::Whitespace => {
                match parser.step() {
                    Ok(()) => {},
                    Err(e) => {
                        return Err(e);
                    },
                }
            },
            Token::RightBlock => {
                match parser.step() {
                    Ok(()) => {},
                    Err(e) => {
                        return Err(e);
                    },
                }
                return Ok(words);
            },
            Token::Identifier => {
                words.push(parser.current().slice.clone());
                match parser.step() {
                    Ok(()) => {},
                    Err(e) => {
                        return Err(e);
                    },
                }
            },
            Token::Word => {
                words.push(parser.current().slice.clone());
                match parser.step() {
                    Ok(()) => {},
                    Err(e) => {
                        return Err(e);
                    },
                }
            },
            Token::InputEnd => {
                return Err(parser.make_err(ParseErrorKind::EndOfInput));
            },
            _ => {
                return Err(parser.make_err(ParseErrorKind::BlockMalformedArguments));
            },
        }
    }
}

/// The `[[ifcategory]]` block: keep the body's elements only when the
/// page's category passes the head's conditions.
pub fn parse_ifcategory(
    parser: &mut Parser,
    name: &str,
    flag_star: bool,
    flag_score: bool,
    in_head: bool,
) -> (r: (ParseOutcome<Elements>, Ghost<Seq<ElementCondition>>))
    requires
        old(parser).wf(),
        !flag_star,
        !flag_score,
        in_head,
        block_kind_spec(ascii_lower_seq(name@)) == Some(BlockKind::IfCategory),
    ensures
        final(parser).wf(),
        ctx_unchanged(old(parser), final(parser)),
        artifacts_extended(old(parser), final(parser)),
        final(parser).accepts_partial == old(parser).accepts_partial,
        final(parser).position >= old(parser).position,
        r.0 is Ok ==> {
            &&& final(parser).position > old(parser).position
            &&& (r.0->Ok_0.item is Multiple || r.0->Ok_0.item is Nothing)
            &&& no_required_conditions(r.1@)
            &&& (r.0->Ok_0.item is Multiple <==> conditions_check(
                r.1@,
                spec_page_category(&old(parser).page_info),
            ))
        },
        r.0 is Err ==> {
            let e = r.0->Err_0;
            &&& (e.kind == ParseErrorKind::EndOfInput || e.kind
                == ParseErrorKind::BlockMissingArguments || e.kind
                == ParseErrorKind::BlockMalformedArguments)
            &&& (e.kind == ParseErrorKind::EndOfInput ==> final(
                parser).spec_current().token is InputEnd)
            &&& (e.kind == ParseErrorKind::BlockMalformedArguments ==> final(
                parser).position > old(parser).position || (!(final(
                parser).spec_current().token is RightBlock) && !(final(
                parser).spec_current().token is Whitespace) && !(final(
                parser).spec_current().token is InputEnd)))
        },
    decreases old(parser).spec_remaining(), 20int,
{
    let ghost entry = *parser;
    let head = get_head_words(parser, in_head);
    let words = match head {
        Ok(words) => words,
        Err(e) => {
            return (Err(e), Ghost(Seq::empty()));
        },
    };
    if words.len() == 0 {
        return (
            Err(parser.make_err(ParseErrorKind::BlockMissingArguments)),
            Ghost(Seq::empty()),
        );
    }
    let mut conditions = parse_conditions(&words);

    // A page is in at most one category, so a required condition beyond a
    // single one is never useful: required and present mean the same
    // thing here.
    let mut i: usize = 0;
    while i < conditions.len()
        invariant
            0 <= i <= conditions@.len(),
            forall|j: int| 0 <= j < i ==> !((#[trigger] conditions@[j]).ctype is Required),
        decreases conditions@.len() - i,
    {
        let required = match conditions[i].ctype {
            ElementConditionType::Required => true,
            _ => false,
        };
        if required {
            let value = conditions[i].value.clone();
            conditions.set(i, ElementCondition { ctype: ElementConditionType::Present, value });
        }
        i = i + 1;
    }
    let ghost softened = conditions@;

    let ghost mid = *parser;
    let (body, _) = get_body_elements(parser, false);
    proof {
        lemma_artifacts_extended_trans(&entry, &mid, parser);
    }
    let success = match body {
        Ok(s) => s,
        Err(e) => {
            return (Err(e), Ghost(softened));
        },
    };
    let (elements, errors, body_safe) = success.into_parts();

    let keep = check_ifcategory(&parser.page_info, &conditions);
    let item = if keep {
        Elements::Multiple(elements)
    } else {
        Elements::Nothing
    };
    (Ok(ParseSuccess::new(item, errors, body_safe)), Ghost(softened))
}

/// The `[[include-elements]]` block: splice another page's parsed
/// elements into this one.
///
/// The resolver data decides: a page it lacks yields a single recorded
/// "no such page" error and the include site contributes no elements,
/// while the rest of the document parses on.
pub fn parse_include_elements(
    parser: &mut Parser,
    name: &str,
    flag_star: bool,
    flag_score: bool,
    in_head: bool,
) -> (r: ParseOutcome<Elements>)
    requires
        old(parser).wf(),
        !flag_star,
        !flag_score,
        in_head,
        block_kind_spec(ascii_lower_seq(name@)) == Some(BlockKind::IncludeElements),
    ensures
        final(parser).wf(),
        ctx_unchanged(old(parser), final(parser)),
        artifacts_extended(old(parser), final(parser)),
        final(parser).accepts_partial == old(parser).accepts_partial,
        final(parser).position >= old(parser).position,
        r is Ok ==> final(parser).position > old(parser).position,
        !old(parser).settings.enable_page_syntax ==> r is Err && r->Err_0.kind
            == ParseErrorKind::RuleFailed && final(parser).position == old(parser).position,
        old(parser).settings.enable_page_syntax ==> match spec_head_name(
            old(parser).tokens@,
            old(parser).position as int,
        ) {
            Err(k) => r is Err && r->Err_0.kind == k,
            Ok((page_name, after)) => match spec_head_args(old(parser).tokens@, after) {
                Err(k) => r is Err && r->Err_0.kind == k,
                Ok((entries, end)) => {
                    if page_name@.len() == 0 {
                        r is Err && r->Err_0.kind == ParseErrorKind::BlockMalformedArguments
                    } else {
                        &&& r is Ok
                        &&& final(parser).position == end
                        &&& match include_lookup(old(parser).included_pages@, page_name@) {
                            None => {
                                &&& r->Ok_0.item is Nothing
                                &&& r->Ok_0.errors@.len() == 1
                                &&& r->Ok_0.errors@[0].kind == ParseErrorKind::NoSuchPage
                                &&& artifacts_unchanged(old(parser), final(parser))
                            },
                            Some(page) => {
                                &&& r->Ok_0.item is Single
                                &&& r->Ok_0.item->Single_0 is Include
                                &&& r->Ok_0.item->Single_0->Include_location == page_name
                                &&& r->Ok_0.item->Single_0->Include_variables@ == entries
                                &&& r->Ok_0.item->Single_0->Include_paragraph_safe
                                    == page.paragraph_safe
                                &&& elems_equiv(
                                    r->Ok_0.item->Single_0->Include_elements@,
                                    page.elements@,
                                )
                                &&& r->Ok_0.errors@.len() == 0
                                &&& r->Ok_0.paragraph_safe == page.paragraph_safe
                                &&& final(parser).html_blocks@ == old(parser).html_blocks@
                                    + page.html_blocks@
                                &&& final(parser).code_blocks@ == old(parser).code_blocks@
                                    + page.code_blocks@
                                &&& final(parser).table_of_contents_depths@ == old(
                                    parser).table_of_contents_depths@
                                    + page.table_of_contents_depths@
                                &&& final(parser).footnotes@.len() == old(
                                    parser).footnotes@.len() + page.footnotes@.len()
                                &&& final(parser).bibliographies@.len() == old(
                                    parser).bibliographies@.len() + page.bibliographies@.len()
                                &&& final(parser).has_footnote_block == (old(
                                    parser).has_footnote_block || page.has_footnote_block)
                            },
                        }
                    }
                },
            },
        },
    decreases old(parser).spec_remaining(), 20int,
{
    match parser.check_page_syntax() {
        Ok(()) => {},
        Err(e) => {
            return Err(e);
        },
    }
    let head = get_head_name_map(parser, in_head);
    let (page_name, variables) = match head {
        Ok(pair) => pair,
        Err(e) => {
            return Err(e);
        },
    };
    if page_name.as_str().is_empty() {
        return Err(parser.make_err(ParseErrorKind::BlockMalformedArguments));
    }

    let found = parser.find_included_page(page_name.as_str());
    let page = match found {
        Some(page) => page,
        None => {
            let mut errors: Vec<ParseError> = Vec::new();
            errors.push(parser.make_err(ParseErrorKind::NoSuchPage));
            return Ok(ParseSuccess::new(Elements::Nothing, errors, true));
        },
    };

    // Copy the included page's contents and side collections, then merge
    // the collections into this parse.
    let elements = clone_elements(&page.elements);
    let paragraph_safe = page.paragraph_safe;
    let mut html_blocks = clone_strings(&page.html_blocks);
    let mut code_blocks = clone_strings(&page.code_blocks);
    let mut table_of_contents_depths = clone_copy_vec(&page.table_of_contents_depths);
    let mut footnotes = clone_footnotes(&page.footnotes);
    let mut bibliographies = clone_footnotes(&page.bibliographies);
    let has_footnote_block = page.has_footnote_block;

    if has_footnote_block {
        parser.set_footnote_block();
    }
    parser.append_shared_items(
        &mut html_blocks,
        &mut code_blocks,
        &mut table_of_contents_depths,
        &mut footnotes,
        &mut bibliographies,
    );

    let element = Element::Include {
        paragraph_safe,
        location: page_name,
        variables: variables.to_variable_map(),
        elements,
    };
    Ok(ParseSuccess::new(Elements::Single(element), Vec::new(), paragraph_safe))
}

} // verus!
