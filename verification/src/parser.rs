//! The parser: a cursor over the token stream plus the cross-cutting
//! mutable state threaded through the whole call tree.
//!
//! The cursor only ever advances. Shared collections (discovered code and
//! HTML blocks, table-of-contents depths, footnotes) only grow. The
//! accepts-partial flag is scoped: [`ParserWrap`] sets it on entry and
//! restores the saved value on exit.

use vstd::prelude::*;

use crate::data::{IncludedPage, PageInfo, WikitextSettings};
use crate::element::Element;
use crate::errors::{ParseError, ParseErrorKind, Rule};
use crate::partial::AcceptsPartial;
use crate::strings::str_eq;
use crate::tokens::{ExtractedToken, Token};

verus! {

/// A boolean test over the current cursor state, used to decide when a
/// collection loop should stop or abort.
#[derive(Debug, Clone, Copy, PartialEq, Eq, Structural)]
pub enum ParseCondition {
    /// The current token has this kind.
    CurrentToken(Token),
    /// The current token and its successor have these kinds.
    TokenPair(Token, Token),
}

/// Whether one condition holds of the token at `pos`.
pub open spec fn condition_holds(
    tokens: Seq<ExtractedToken>,
    pos: int,
    condition: ParseCondition,
) -> bool {
    match condition {
        ParseCondition::CurrentToken(t) => tokens[pos].token == t,
        ParseCondition::TokenPair(a, b) => tokens[pos].token == a && pos + 1 < tokens.len()
            && tokens[pos + 1].token == b,
    }
}

/// Whether any of the conditions holds of the token at `pos`.
pub open spec fn any_condition_holds(
    tokens: Seq<ExtractedToken>,
    pos: int,
    conditions: Seq<ParseCondition>,
) -> bool {
    exists|i: int| 0 <= i < conditions.len() && condition_holds(tokens, pos, #[trigger] conditions[i])
}

/// Strip any embedded end-of-input markers from a raw token sequence.
pub open spec fn drop_input_end(s: Seq<ExtractedToken>) -> Seq<ExtractedToken>
    decreases s,
{
    if s.len() == 0 {
        Seq::empty()
    } else {
        let rest = drop_input_end(s.drop_last());
        if s.last().token is InputEnd {
            rest
        } else {
            rest.push(s.last())
        }
    }
}

/// The parser state threaded through the whole call tree.
#[derive(Debug)]
pub struct Parser {
    /// The token stream; the last token is always the end-of-input marker,
    /// and no other token is.
    pub tokens: Vec<ExtractedToken>,
    /// The cursor: an index into `tokens`, always in bounds.
    pub position: usize,
    /// The rule currently being attempted, for error reporting.
    pub rule: Rule,
    /// Which partial-element kind (if any) the enclosing rule expects.
    pub accepts_partial: AcceptsPartial,
    /// Read-only page context.
    pub page_info: PageInfo,
    /// Read-only settings.
    pub settings: WikitextSettings,
    /// Resolver data for page inclusion, read-only.
    pub included_pages: Vec<(String, IncludedPage)>,
    /// Raw HTML blocks discovered so far; append-only.
    pub html_blocks: Vec<String>,
    /// Raw code blocks discovered so far; append-only.
    pub code_blocks: Vec<String>,
    /// Table-of-contents depth markers discovered so far; append-only.
    pub table_of_contents_depths: Vec<usize>,
    /// Footnote bodies discovered so far; append-only.
    pub footnotes: Vec<Vec<Element>>,
    /// Bibliography blocks discovered so far; append-only.
    pub bibliographies: Vec<Vec<Element>>,
    /// Whether an explicit footnote block was seen.
    pub has_footnote_block: bool,
}

/// The read-only context never changes between two parser states.
pub open spec fn ctx_unchanged(a: &Parser, b: &Parser) -> bool {
    &&& a.tokens@ == b.tokens@
    &&& a.page_info == b.page_info
    &&& a.settings == b.settings
    &&& a.included_pages@ == b.included_pages@
}

/// The shared artifact collections are the same in both states.
pub open spec fn artifacts_unchanged(a: &Parser, b: &Parser) -> bool {
    &&& a.html_blocks@ == b.html_blocks@
    &&& a.code_blocks@ == b.code_blocks@
    &&& a.table_of_contents_depths@ == b.table_of_contents_depths@
    &&& a.footnotes@ == b.footnotes@
    &&& a.bibliographies@ == b.bibliographies@
    &&& a.has_footnote_block == b.has_footnote_block
}

/// The shared artifact collections of `b` extend those of `a`: they are
/// append-only across every parser operation.
pub open spec fn artifacts_extended(a: &Parser, b: &Parser) -> bool {
    &&& a.html_blocks@.is_prefix_of(b.html_blocks@)
    &&& a.code_blocks@.is_prefix_of(b.code_blocks@)
    &&& a.table_of_contents_depths@.is_prefix_of(b.table_of_contents_depths@)
    &&& a.footnotes@.is_prefix_of(b.footnotes@)
    &&& a.bibliographies@.is_prefix_of(b.bibliographies@)
    &&& (a.has_footnote_block ==> b.has_footnote_block)
}

/// Unchanged artifacts are (trivially) extended artifacts.
pub proof fn lemma_artifacts_extended_refl(a: &Parser, b: &Parser)
    requires
        artifacts_unchanged(a, b),
    ensures
        artifacts_extended(a, b),
{
    assert(a.html_blocks@ =~= b.html_blocks@.subrange(0, a.html_blocks@.len() as int));
    assert(a.code_blocks@ =~= b.code_blocks@.subrange(0, a.code_blocks@.len() as int));
    assert(a.table_of_contents_depths@ =~= b.table_of_contents_depths@.subrange(
        0,
        a.table_of_contents_depths@.len() as int,
    ));
    assert(a.footnotes@ =~= b.footnotes@.subrange(0, a.footnotes@.len() as int));
    assert(a.bibliographies@ =~= b.bibliographies@.subrange(0, a.bibliographies@.len() as int));
}

/// Artifact extension is transitive: the collections only ever grow.
pub proof fn lemma_artifacts_extended_trans(a: &Parser, b: &Parser, c: &Parser)
    requires
        artifacts_extended(a, b),
        artifacts_extended(b, c),
    ensures
        artifacts_extended(a, c),
{
    assert(a.html_blocks@ =~= c.html_blocks@.subrange(0, a.html_blocks@.len() as int));
    assert(a.code_blocks@ =~= c.code_blocks@.subrange(0, a.code_blocks@.len() as int));
    assert(a.table_of_contents_depths@ =~= c.table_of_contents_depths@.subrange(
        0,
        a.table_of_contents_depths@.len() as int,
    ));
    assert(a.footnotes@ =~= c.footnotes@.subrange(0, a.footnotes@.len() as int));
    assert(a.bibliographies@ =~= c.bibliographies@.subrange(0, a.bibliographies@.len() as int));
}

/// The first included-page bundle recorded under `name`, if any.
pub open spec fn include_lookup(pages: Seq<(String, IncludedPage)>, name: Seq<char>) -> Option<
    IncludedPage,
>
    decreases pages,
{
    if pages.len() == 0 {
        None
    } else if pages[0].0@ == name {
        Some(pages[0].1)
    } else {
        include_lookup(pages.drop_first(), name)
    }
}

proof fn lemma_include_lookup_skip(pages: Seq<(String, IncludedPage)>, name: Seq<char>, j: int)
    requires
        0 <= j <= pages.len(),
        forall|i: int| 0 <= i < j ==> #[trigger] pages[i].0@ != name,
    ensures
        include_lookup(pages, name) == include_lookup(pages.skip(j), name),
    decreases j,
{
    if j > 0 {
        lemma_include_lookup_skip(pages, name, j - 1);
        assert(pages.skip(j - 1).len() > 0);
        assert(pages.skip(j - 1)[0] == pages[j - 1]);
        assert(pages.skip(j - 1).drop_first() =~= pages.skip(j));
        assert(include_lookup(pages.skip(j - 1), name) == include_lookup(pages.skip(j), name));
    } else {
        assert(pages.skip(0) =~= pages);
    }
}

impl Parser {
    /// Well-formedness: the cursor is in bounds and the end-of-input marker
    /// is exactly the last token.
    pub open spec fn wf(&self) -> bool {
        &&& self.tokens@.len() >= 1
        &&& self.tokens@.last().token is InputEnd
        &&& forall|i: int|
            0 <= i < self.tokens@.len() - 1 ==> !(#[trigger] self.tokens@[i].token is InputEnd)
        &&& self.position < self.tokens@.len()
    }

    /// How many tokens remain from the cursor onward: the termination
    /// measure of the whole engine.
    pub open spec fn spec_remaining(&self) -> int {
        self.tokens@.len() - self.position
    }

    /// The token under the cursor.
    pub open spec fn spec_current(&self) -> ExtractedToken {
        self.tokens@[self.position as int]
    }

    /// Whether the cursor sits at the start of a line.
    pub open spec fn spec_start_of_line(&self) -> bool {
        ||| self.position == 0
        ||| self.tokens@[self.position as int - 1].token is LineBreak
        ||| self.tokens@[self.position as int - 1].token is ParagraphBreak
    }

    /// Build a parser over a raw token sequence.
    ///
    /// The sequence is normalized: embedded end-of-input markers are
    /// dropped, and one is appended at the end. Every finite token sequence
    /// therefore yields a well-formed parser.
    #[verifier::loop_isolation(false)]
    pub fn new(
        tokens: Vec<ExtractedToken>,
        page_info: PageInfo,
        settings: WikitextSettings,
        included_pages: Vec<(String, IncludedPage)>,
    ) -> (r: Parser)
        ensures
            r.wf(),
            r.position == 0,
            r.rule == Rule::Text,
            r.accepts_partial is Nothing,
            r.tokens@.drop_last() == drop_input_end(tokens@),
            r.tokens@.last().slice@ == Seq::<char>::empty(),
            r.page_info == page_info,
            r.settings == settings,
            r.included_pages@ == included_pages@,
            r.html_blocks@ == Seq::<String>::empty(),
            r.code_blocks@ == Seq::<String>::empty(),
            r.table_of_contents_depths@ == Seq::<usize>::empty(),
            r.footnotes@ == Seq::<Vec<Element>>::empty(),
            r.bibliographies@ == Seq::<Vec<Element>>::empty(),
            !r.has_footnote_block,
    {
        let mut normalized: Vec<ExtractedToken> = Vec::new();
        let mut input = tokens;
        let ghost all = input@;
        let ghost mut taken: int = 0;
        proof {
            assert(all.subrange(0, 0) =~= Seq::<ExtractedToken>::empty());
            assert(normalized@ =~= drop_input_end(all.subrange(0, 0)));
        }
        while input.len() > 0
            invariant
                0 <= taken <= all.len(),
                input@ == all.subrange(taken, all.len() as int),
                normalized@ == drop_input_end(all.subrange(0, taken)),
                forall|i: int| 0 <= i < normalized@.len() ==> !(#[trigger] normalized@[i].token is InputEnd),
            decreases input@.len(),
        {
            let t = input.remove(0);
            proof {
                assert(all.subrange(taken, all.len() as int)[0] == all[taken]);
                assert(input@ =~= all.subrange(taken + 1, all.len() as int));
                assert(all.subrange(0, taken + 1).drop_last() =~= all.subrange(0, taken));
                assert(all.subrange(0, taken + 1).last() == all[taken]);
            }
            let is_end = match t.token {
                Token::InputEnd => true,
                _ => false,
            };
            if !is_end {
                normalized.push(t);
            }
            proof {
                taken = taken + 1;
            }
        }
        proof {
            assert(all.subrange(0, all.len() as int) =~= all);
        }
        let span = normalized.len();
        normalized.push(ExtractedToken::new(Token::InputEnd, String::new(), span, span));
        proof {
            assert(normalized@.drop_last() =~= drop_input_end(all));
        }
        Parser {
            tokens: normalized,
            position: 0,
            rule: Rule::Text,
            accepts_partial: AcceptsPartial::Nothing,
            page_info,
            settings,
            included_pages,
            html_blocks: Vec::new(),
            code_blocks: Vec::new(),
            table_of_contents_depths: Vec::new(),
            footnotes: Vec::new(),
            bibliographies: Vec::new(),
            has_footnote_block: false,
        }
    }

    /// The token under the cursor.
    pub fn current(&self) -> (r: &ExtractedToken)
        requires
            self.wf(),
        ensures
            *r == self.spec_current(),
    {
        &self.tokens[self.position]
    }

    /// Advance the cursor one token. Fails exactly at end of input.
    pub fn step(&mut self) -> (r: Result<(), ParseError>)
        requires
            old(self).wf(),
        ensures
            final(self).wf(),
            ctx_unchanged(old(self), final(self)),
            artifacts_unchanged(old(self), final(self)),
            final(self).accepts_partial == old(self).accepts_partial,
            final(self).rule == old(self).rule,
            match r {
                Ok(()) => !(old(self).spec_current().token is InputEnd) && final(self).position
                    == old(self).position + 1,
                Err(e) => old(self).spec_current().token is InputEnd && final(self).position == old(
                    self,
                ).position && e.kind == ParseErrorKind::EndOfInput,
            },
    {
        let at_end = match self.tokens[self.position].token {
            Token::InputEnd => true,
            _ => false,
        };
        if at_end {
            proof {
                assert(old(self).position == self.tokens@.len() - 1);
            }
            Err(self.make_err(ParseErrorKind::EndOfInput))
        } else {
            let n = self.tokens.len();
            proof {
                assert(old(self).position < n - 1);
            }
            self.position = self.position + 1;
            Ok(())
        }
    }

    /// Whether any of the given conditions holds at the cursor.
    #[verifier::loop_isolation(false)]
    pub fn evaluate_any(&self, conditions: &[ParseCondition]) -> (r: bool)
        requires
            self.wf(),
        ensures
            r == any_condition_holds(self.tokens@, self.position as int, conditions@),
    {
        let mut i: usize = 0;
        while i < conditions.len()
            invariant
                0 <= i <= conditions@.len(),
                forall|j: int|
                    0 <= j < i ==> !condition_holds(
                        self.tokens@,
                        self.position as int,
                        #[trigger] conditions@[j],
                    ),
            decreases conditions@.len() - i,
        {
            let holds = match conditions[i] {
                ParseCondition::CurrentToken(t) => {
                    let cur = self.tokens[self.position].token;
                    cur == t
                },
                ParseCondition::TokenPair(a, b) => {
                    let cur = self.tokens[self.position].token;
                    if cur == a && self.position < self.tokens.len() - 1 {
                        let next = self.tokens[self.position + 1].token;
                        next == b
                    } else {
                        false
                    }
                },
            };
            if holds {
                return true;
            }
            i = i + 1;
        }
        false
    }

    /// A parse error at the cursor, under the rule currently being
    /// attempted.
    pub fn make_err(&self, kind: ParseErrorKind) -> (r: ParseError)
        requires
            self.wf(),
        ensures
            r.kind == kind,
            r.rule == self.rule,
            r.token == self.spec_current().token,
            r.span_start == self.spec_current().span_start,
            r.span_end == self.spec_current().span_end,
    {
        let current = &self.tokens[self.position];
        ParseError::new(current.token, self.rule, current.span_start, current.span_end, kind)
    }

    /// Record the rule now being attempted, for error reporting.
    pub fn set_rule(&mut self, rule: Rule)
        requires
            old(self).wf(),
        ensures
            final(self).wf(),
            *final(self) == (Parser { rule, ..*old(self) }),
    {
        self.rule = rule;
    }

    /// Skip one whitespace token, if the cursor is on one.
    pub fn get_optional_space(&mut self)
        requires
            old(self).wf(),
        ensures
            final(self).wf(),
            ctx_unchanged(old(self), final(self)),
            artifacts_unchanged(old(self), final(self)),
            final(self).accepts_partial == old(self).accepts_partial,
            final(self).rule == old(self).rule,
            if old(self).spec_current().token is Whitespace {
                final(self).position == old(self).position + 1
            } else {
                final(self).position == old(self).position
            },
    {
        let is_space = match self.tokens[self.position].token {
            Token::Whitespace => true,
            _ => false,
        };
        if is_space {
            let stepped = self.step();
        }
    }

    /// Whether the cursor sits at the start of a line.
    pub fn start_of_line(&self) -> (r: bool)
        requires
            self.wf(),
        ensures
            r == self.spec_start_of_line(),
    {
        if self.position == 0 {
            return true;
        }
        match self.tokens[self.position - 1].token {
            Token::LineBreak => true,
            Token::ParagraphBreak => true,
            _ => false,
        }
    }

    /// The active accepts-partial flag.
    pub fn accepts_partial(&self) -> (r: AcceptsPartial)
        ensures
            r == self.accepts_partial,
    {
        self.accepts_partial
    }

    /// Set the accepts-partial flag directly. Prefer [`ParserWrap`], which
    /// restores the previous value.
    pub fn set_accepts_partial(&mut self, flag: AcceptsPartial)
        ensures
            *final(self) == (Parser { accepts_partial: flag, ..*old(self) }),
    {
        self.accepts_partial = flag;
    }

    /// Record that an explicit footnote block was seen.
    pub fn set_footnote_block(&mut self)
        ensures
            *final(self) == (Parser { has_footnote_block: true, ..*old(self) }),
    {
        self.has_footnote_block = true;
    }

    /// Refuse page-level syntax where the settings do not allow it.
    pub fn check_page_syntax(&self) -> (r: Result<(), ParseError>)
        requires
            self.wf(),
        ensures
            r is Ok <==> self.settings.enable_page_syntax,
            r is Err ==> r->Err_0.kind == ParseErrorKind::RuleFailed,
    {
        if self.settings.enable_page_syntax {
            Ok(())
        } else {
            Err(self.make_err(ParseErrorKind::RuleFailed))
        }
    }

    /// Merge side collections gathered by an included page's parse into
    /// this parse's collections, draining the arguments.
    pub fn append_shared_items(
        &mut self,
        html_blocks: &mut Vec<String>,
        code_blocks: &mut Vec<String>,
        table_of_contents_depths: &mut Vec<usize>,
        footnotes: &mut Vec<Vec<Element>>,
        bibliographies: &mut Vec<Vec<Element>>,
    )
        ensures
            final(self).html_blocks@ == old(self).html_blocks@ + old(html_blocks)@,
            final(self).code_blocks@ == old(self).code_blocks@ + old(code_blocks)@,
            final(self).table_of_contents_depths@ == old(self).table_of_contents_depths@ + old(
                table_of_contents_depths,
            )@,
            final(self).footnotes@ == old(self).footnotes@ + old(footnotes)@,
            final(self).bibliographies@ == old(self).bibliographies@ + old(bibliographies)@,
            final(self).has_footnote_block == old(self).has_footnote_block,
            ctx_unchanged(old(self), final(self)),
            final(self).position == old(self).position,
            final(self).rule == old(self).rule,
            final(self).accepts_partial == old(self).accepts_partial,
            final(html_blocks)@.len() == 0,
            final(code_blocks)@.len() == 0,
            final(table_of_contents_depths)@.len() == 0,
            final(footnotes)@.len() == 0,
            final(bibliographies)@.len() == 0,
    {
        self.html_blocks.append(html_blocks);
        self.code_blocks.append(code_blocks);
        self.table_of_contents_depths.append(table_of_contents_depths);
        self.footnotes.append(footnotes);
        self.bibliographies.append(bibliographies);
    }

    /// Look up the resolver data for an included page by name.
    #[verifier::loop_isolation(false)]
    pub fn find_included_page(&self, name: &str) -> (r: Option<&IncludedPage>)
        ensures
            match r {
                Some(p) => include_lookup(self.included_pages@, name@) == Some(*p),
                None => include_lookup(self.included_pages@, name@) is None,
            },
    {
        let ghost pages = self.included_pages@;
        let mut j: usize = 0;
        while j < self.included_pages.len()
            invariant
                0 <= j <= pages.len(),
                forall|i: int| 0 <= i < j ==> #[trigger] pages[i].0@ != name@,
            decreases pages.len() - j,
        {
            if str_eq(self.included_pages[j].0.as_str(), name) {
                proof {
                    lemma_include_lookup_skip(pages, name@, j as int);
                    assert(pages.skip(j as int)[0] == pages[j as int]);
                }
                return Some(&self.included_pages[j].1);
            }
            j = j + 1;
        }
        proof {
            lemma_include_lookup_skip(pages, name@, pages.len() as int);
            assert(pages.skip(pages.len() as int).len() == 0);
        }
        None
    }
}

/// A guard that sets the accepts-partial flag for the extent of a scope.
///
/// On creation it saves the previous flag and installs the new one; calling
/// [`ParserWrap::finish`] restores the saved flag. A rule that enters a
/// scope restores the flag on every exit path, success or failure.
#[derive(Debug)]
pub struct ParserWrap {
    /// The flag that was active before the scope was entered.
    pub original: AcceptsPartial,
}

impl ParserWrap {
    /// Enter a scope: install `flag`, saving the previous value.
    pub fn new(parser: &mut Parser, flag: AcceptsPartial) -> (r: ParserWrap)
        ensures
            *final(parser) == (Parser { accepts_partial: flag, ..*old(parser) }),
            r.original == old(parser).accepts_partial,
    {
        let original = parser.accepts_partial();
        parser.set_accepts_partial(flag);
        ParserWrap { original }
    }

    /// Leave the scope: restore the saved flag, whatever happened inside.
    pub fn finish(self, parser: &mut Parser)
        ensures
            *final(parser) == (Parser { accepts_partial: self.original, ..*old(parser) }),
    {
        parser.set_accepts_partial(self.original);
    }
}

} // verus!
