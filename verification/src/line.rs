//! The line-level tree: one line of source as the line grammar classifies
//! it.
//!
//! The grammar itself is an external collaborator; it hands the engine a
//! tree of classified pairs, each a rule tag with its source slice and its
//! inner pairs. This module turns a `line` pair into a typed [`Line`].

use vstd::prelude::*;

use crate::outside::{capture_clear_float, clear_float_capture};
use crate::strings::str_eq;

verus! {

/// The grammar rules this module reads.
#[derive(Debug, Clone, Copy, PartialEq, Eq, Structural)]
pub enum PairRule {
    /// A whole line: its contents and its trailing newlines.
    Line,
    /// The contents of a line.
    LineInner,
    /// The run of newlines ending a line.
    Newlines,
    /// A `~~~~` clear-float rule, with an optional direction marker.
    ClearFloat,
    /// A `[[div]]` region with arguments and nested lines.
    Div,
    /// One argument of a div: its name, holding its value pair.
    DivArg,
    /// A quoted argument value.
    StringValue,
    /// A `----` horizontal line.
    HorizontalLine,
    /// A centered line of words.
    Center,
    /// An ordinary run of words.
    Word,
}

/// One classified pair: a rule tag, the source slice it covers, and its
/// inner pairs in order.
#[derive(Debug, PartialEq)]
pub struct ParsePair {
    pub rule: PairRule,
    pub slice: String,
    pub children: Vec<ParsePair>,
}

/// A float direction marker.
#[derive(Debug, Clone, Copy, PartialEq, Eq, Structural)]
pub enum Alignment {
    Left,
    Right,
    Center,
    Justify,
}

/// The alignment a direction marker denotes, if any.
pub open spec fn alignment_of(s: Seq<char>) -> Option<Alignment> {
    if s == "<"@ {
        Some(Alignment::Left)
    } else if s == ">"@ {
        Some(Alignment::Right)
    } else if s == "="@ {
        Some(Alignment::Center)
    } else if s == "=="@ {
        Some(Alignment::Justify)
    } else {
        None
    }
}

impl Alignment {
    /// Parse a direction marker.
    pub fn from_str(s: &str) -> (r: Option<Alignment>)
        ensures
            r == alignment_of(s@),
    {
        proof {
            reveal_strlit("<");
            reveal_strlit(">");
            reveal_strlit("=");
            reveal_strlit("==");
        }
        if str_eq(s, "<") {
            Some(Alignment::Left)
        } else if str_eq(s, ">") {
            Some(Alignment::Right)
        } else if str_eq(s, "=") {
            Some(Alignment::Center)
        } else if str_eq(s, "==") {
            Some(Alignment::Justify)
        } else {
            None
        }
    }
}

/// One word of a line, by its source slice.
#[derive(Debug, PartialEq)]
pub struct Word {
    pub slice: String,
}

/// The contents of one line.
#[derive(Debug, PartialEq)]
pub enum LineInner {
    /// A clear-float rule and its direction.
    ClearFloat { direction: Option<Alignment> },
    /// A div with its arguments and nested lines.
    Div {
        id: Option<String>,
        class: Option<String>,
        style: Option<String>,
        contents: Vec<Line>,
    },
    /// A horizontal line.
    HorizontalLine,
    /// A centered run of words.
    Center { contents: Vec<Word> },
    /// An ordinary run of words.
    Text { contents: Vec<Word> },
}

/// One line: its contents plus how many newlines ended it.
#[derive(Debug, PartialEq)]
pub struct Line {
    pub inner: LineInner,
    pub newlines: usize,
}

/// Whether a pair is a well-formed `line`: contents, then newlines.
pub open spec fn wf_line(pair: ParsePair) -> bool
    decreases pair, 0int,
{
    &&& pair.rule is Line
    &&& pair.children@.len() == 2
    &&& wf_line_inner(pair.children@[0])
    &&& pair.children@[1].rule is Newlines
}

/// Whether a pair is a well-formed `line_inner`: its first inner pair
/// names a rule this module reads, and a div's pieces are shaped as the
/// grammar produces them.
pub open spec fn wf_line_inner(pair: ParsePair) -> bool
    decreases pair, 0int,
{
    &&& pair.rule is LineInner
    &&& pair.children@.len() >= 1
    &&& match pair.children@[0].rule {
        PairRule::ClearFloat => true,
        PairRule::HorizontalLine => true,
        PairRule::Center => true,
        PairRule::Word => true,
        PairRule::Div => forall|i: int|
            0 <= i < pair.children@.len() ==> wf_div_piece(#[trigger] pair.children@[i]),
        _ => false,
    }
}

/// Whether a pair may stand inside a div: an argument the grammar can
/// produce (named `id`, `class` or `style`, holding one value pair), or a
/// nested well-formed line. The leading marker pair is tolerated.
pub open spec fn wf_div_piece(pair: ParsePair) -> bool
    decreases pair, 1int,
{
    match pair.rule {
        PairRule::DivArg => {
            &&& pair.children@.len() == 1
            &&& pair.children@[0].rule is StringValue
            &&& (pair.slice@ == "id"@ || pair.slice@ == "class"@ || pair.slice@ == "style"@)
        },
        PairRule::Line => wf_line(pair),
        _ => true,
    }
}

/// The value of the last div argument named `name`, if any.
pub open spec fn div_arg(children: Seq<ParsePair>, name: Seq<char>) -> Option<String>
    decreases children,
{
    if children.len() == 0 {
        None
    } else if children.last().rule is DivArg && children.last().slice@ == name {
        Some(children.last().children@[0].slice)
    } else {
        div_arg(children.drop_last(), name)
    }
}

/// The words of a line's contents: each word pair, by its slice, in order.
pub open spec fn line_words(children: Seq<ParsePair>) -> Seq<Word>
    decreases children,
{
    if children.len() == 0 {
        Seq::empty()
    } else {
        let rest = line_words(children.drop_last());
        if children.last().rule is Word {
            rest.push(Word { slice: children.last().slice })
        } else {
            rest
        }
    }
}

/// How many nested line pairs a div holds.
pub open spec fn count_line_pieces(children: Seq<ParsePair>) -> int
    decreases children,
{
    if children.len() == 0 {
        0
    } else {
        count_line_pieces(children.drop_last()) + if children.last().rule is Line {
            1int
        } else {
            0int
        }
    }
}

/// How a clear-float slice decides its direction: the direction group of
/// the re-matched marker, if it denotes an alignment.
pub open spec fn clear_float_direction(slice: Seq<char>) -> Option<Alignment> {
    match clear_float_capture(slice) {
        Some(direction) => match direction {
            Some(marker) => alignment_of(marker),
            None => None,
        },
        None => None,
    }
}

/// Whether the produced contents fit the pair they were read from.
pub open spec fn inner_matches(r: LineInner, pair: ParsePair) -> bool {
    match pair.children@[0].rule {
        PairRule::ClearFloat => r == (LineInner::ClearFloat {
            direction: clear_float_direction(pair.slice@),
        }),
        PairRule::Div => r matches LineInner::Div { id, class, style, contents } && {
            &&& id == div_arg(pair.children@, "id"@)
            &&& class == div_arg(pair.children@, "class"@)
            &&& style == div_arg(pair.children@, "style"@)
            &&& contents@.len() == count_line_pieces(pair.children@)
        },
        PairRule::HorizontalLine => r == LineInner::HorizontalLine,
        PairRule::Center => (r matches LineInner::Center { contents } && contents@ == line_words(
            pair.children@,
        )),
        PairRule::Word => (r matches LineInner::Text { contents } && contents@ == line_words(
            pair.children@,
        )),
        _ => true,
    }
}

impl Line {
    /// Read one line from its classified pair.
    ///
    /// The newline count is the byte length of the trailing newline run.
    #[verifier::loop_isolation(false)]
    pub fn from_pair(pair: ParsePair) -> (r: Line)
        requires
            wf_line(pair),
        ensures
            r.newlines == (vstd::utf8::encode_utf8(pair.children@[1].slice@).len() as usize),
            inner_matches(r.inner, pair.children@[0]),
        decreases pair,
    {
        let ghost gpair = pair;
        let ParsePair { rule: _, slice: _, children } = pair;
        let mut parts = children;
        let inner_pair = parts.remove(0);
        let newlines_pair = parts.remove(0);
        proof {
            assert(inner_pair == gpair.children@[0]);
            assert(newlines_pair == gpair.children@[1]);
            assert(decreases_to!(gpair => gpair.children));
            assert(decreases_to!(gpair.children => gpair.children@));
            assert(decreases_to!(gpair.children@ => gpair.children@[0]));
        }
        let inner = LineInner::from_pair(inner_pair);
        let newlines = newlines_pair.slice.as_str().len();
        Line { inner, newlines }
    }
}

impl LineInner {
    /// Read a line's contents from its classified pair.
    #[verifier::loop_isolation(false)]
    fn from_pair(pair: ParsePair) -> (r: LineInner)
        requires
            wf_line_inner(pair),
        ensures
            inner_matches(r, pair),
        decreases pair,
    {
        let ghost gpair = pair;
        let kind = pair.children[0].rule;
        match kind {
            PairRule::ClearFloat => {
                // The marker was matched by the grammar; its optional
                // direction group decides the alignment. A marker the
                // pattern cannot re-match carries no direction.
                let direction: Option<Alignment> = match capture_clear_float(
                    pair.slice.as_str(),
                ) {
                    Some(Some(marker)) => Alignment::from_str(marker.as_str()),
                    Some(None) => None,
                    None => None,
                };
                LineInner::ClearFloat { direction }
            },
            PairRule::Div => {
                let mut id: Option<String> = None;
                let mut class: Option<String> = None;
                let mut style: Option<String> = None;
                let mut contents: Vec<Line> = Vec::new();

                let ParsePair { rule: _, slice: _, children } = pair;
                let ghost all = children@;
                let mut remaining = children;
                let ghost mut taken: int = 0;
                proof {
                    assert(all == gpair.children@);
                }
                proof {
                    assert(remaining@ =~= all.subrange(0, all.len() as int));
                }
                proof {
                    reveal_strlit("id");
                    reveal_strlit("class");
                    reveal_strlit("style");
                    assert(all.take(0) =~= Seq::<ParsePair>::empty());
                }
                while remaining.len() > 0
                    invariant
                        0 <= taken <= all.len(),
                        remaining@ == all.subrange(taken, all.len() as int),
                        forall|i: int| 0 <= i < all.len() ==> wf_div_piece(#[trigger] all[i]),
                        id == div_arg(all.take(taken), "id"@),
                        class == div_arg(all.take(taken), "class"@),
                        style == div_arg(all.take(taken), "style"@),
                        contents@.len() == count_line_pieces(all.take(taken)),
                    decreases remaining@.len(),
                {
                    let piece = remaining.remove(0);
                    let ghost gpiece = piece;
                    proof {
                        assert(all.subrange(taken, all.len() as int)[0] == all[taken]);
                        assert(remaining@ =~= all.subrange(taken + 1, all.len() as int));
                        assert(gpiece == all[taken]);
                        assert(all.take(taken + 1).drop_last() =~= all.take(taken));
                        assert(all.take(taken + 1).last() == all[taken]);
                        reveal_strlit("id");
                        reveal_strlit("class");
                        reveal_strlit("style");
                        assert("id"@.len() == 2 && "class"@.len() == 5 && "style"@.len() == 5);
                        assert("class"@[0] == 'c' && "style"@[0] == 's');
                        assert("id"@ != "class"@ && "id"@ != "style"@);
                        assert("class"@ != "style"@) by {
                            if "class"@ == "style"@ {
                                assert("class"@[0] == "style"@[0]);
                            }
                        };
                        assert(decreases_to!(gpair => gpair.children));
                        assert(decreases_to!(gpair.children => gpair.children@));
                        assert(decreases_to!(gpair.children@ => gpair.children@[taken]));
                    }
                    match piece.rule {
                        PairRule::DivArg => {
                            let name = piece.slice.clone();
                            let mut arg_children = piece.children;
                            proof {
                                assert(arg_children@[0] == gpiece.children@[0]);
                            }
                            let value_pair = arg_children.remove(0);
                            let value = value_pair.slice;
                            if str_eq(name.as_str(), "id") {
                                id = Some(value);
                            } else if str_eq(name.as_str(), "class") {
                                class = Some(value);
                            } else if str_eq(name.as_str(), "style") {
                                style = Some(value);
                            } else {
                                // Well-formedness pins the argument name to
                                // one the grammar produces.
                                proof {
                                    assert(false);
                                }
                            }
                        },
                        PairRule::Line => {
                            proof {
                                assert(wf_line(gpiece));
                            }
                            let line = Line::from_pair(piece);
                            contents.push(line);
                        },
                        _ => {},
                    }
                    proof {
                        taken = taken + 1;
                    }
                }

                proof {
                    assert(all.take(taken) =~= all);
                }
                LineInner::Div { id, class, style, contents }
            },
            PairRule::HorizontalLine => LineInner::HorizontalLine,
            PairRule::Center => {
                let ParsePair { rule: _, slice: _, children } = pair;
                let words = collect_words(children);
                LineInner::Center { contents: words }
            },
            _ => {
                let ParsePair { rule: _, slice: _, children } = pair;
                let words = collect_words(children);
                LineInner::Text { contents: words }
            },
        }
    }
}

/// Gather the word pairs of a line's contents.
#[verifier::loop_isolation(false)]
fn collect_words(children: Vec<ParsePair>) -> (r: Vec<Word>)
    ensures
        r@ == line_words(children@),
{
    let ghost all = children@;
    let mut words: Vec<Word> = Vec::new();
    let mut remaining = children;
    let ghost mut taken: int = 0;
    proof {
        assert(all.take(0) =~= Seq::<ParsePair>::empty());
        assert(line_words(all.take(0)) =~= Seq::<Word>::empty());
    }
    while remaining.len() > 0
        invariant
            0 <= taken <= all.len(),
            remaining@ == all.subrange(taken, all.len() as int),
            words@ == line_words(all.take(taken)),
        decreases remaining@.len(),
    {
        let piece = remaining.remove(0);
        let ghost gpiece = piece;
        proof {
            assert(all.subrange(taken, all.len() as int)[0] == all[taken]);
            assert(remaining@ =~= all.subrange(taken + 1, all.len() as int));
            assert(gpiece == all[taken]);
            assert(all.take(taken + 1).drop_last() =~= all.take(taken));
            assert(all.take(taken + 1).last() == all[taken]);
        }
        match piece.rule {
            PairRule::Word => {
                words.push(Word { slice: piece.slice });
            },
            _ => {},
        }
        proof {
            taken = taken + 1;
        }
    }
    proof {
        assert(all.take(taken) =~= all);
    }
    words
}

} // verus!
