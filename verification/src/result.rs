//! The result algebra that threads soft errors and paragraph safety.
//!
//! A rule attempt either fails fatally with a single [`ParseError`], or
//! succeeds with an item, a list of recoverable errors gathered on the way,
//! and a paragraph-safety flag. Two successes are *chained* by concatenating
//! their error lists in encounter order and AND-ing their flags: this is the
//! single channel by which soft failures propagate without unwinding.

use vstd::prelude::*;

use crate::errors::ParseError;

verus! {

/// A successful parse step: the produced item plus accumulated state.
#[derive(Debug)]
pub struct ParseSuccess<T> {
    /// What the step produced.
    pub item: T,
    /// Recoverable errors gathered during the step, in encounter order.
    pub errors: Vec<ParseError>,
    /// Whether everything produced may sit inside a paragraph wrapper.
    pub paragraph_safe: bool,
}

/// A parse step: fatal failure, or success with accumulated state.
pub type ParseOutcome<T> = Result<ParseSuccess<T>, ParseError>;

impl<T> ParseSuccess<T> {
    /// Wrap an item with no errors and the given safety flag.
    pub fn new(item: T, errors: Vec<ParseError>, paragraph_safe: bool) -> (r: ParseSuccess<T>)
        ensures
            r.item == item,
            r.errors@ == errors@,
            r.paragraph_safe == paragraph_safe,
    {
        ParseSuccess { item, errors, paragraph_safe }
    }

    /// Merge this success into a running accumulation: its errors are
    /// appended in order, its safety flag is AND-ed in, and the item is
    /// handed back.
    pub fn chain(self, errors: &mut Vec<ParseError>, paragraph_safe: &mut bool) -> (r: T)
        ensures
            r == self.item,
            final(errors)@ == old(errors)@ + self.errors@,
            *final(paragraph_safe) == (*old(paragraph_safe) && self.paragraph_safe),
    {
        let ParseSuccess { item, errors: mut my_errors, paragraph_safe: my_safe } = self;
        errors.append(&mut my_errors);
        *paragraph_safe = *paragraph_safe && my_safe;
        item
    }

    /// Split into the triple `(item, errors, paragraph_safe)`.
    pub fn into_parts(self) -> (r: (T, Vec<ParseError>, bool))
        ensures
            r.0 == self.item,
            r.1@ == self.errors@,
            r.2 == self.paragraph_safe,
    {
        let ParseSuccess { item, errors, paragraph_safe } = self;
        (item, errors, paragraph_safe)
    }
}

} // verus!
