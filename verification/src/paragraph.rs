//! The paragraph stack: accumulates node sequences into paragraph
//! containers.
//!
//! Paragraph-safe elements gather in `current`; whenever a non-safe element
//! arrives, `current` is flushed into a completed paragraph container onto
//! `finished` and the non-safe element follows it standalone. Finalizing
//! flushes the remainder and hands back `finished` in document order.

use vstd::prelude::*;

use crate::element::{
    elem_paragraph_safe, elems_paragraph_safe, AttributeMap, Container, ContainerType, Element,
};
use crate::errors::ParseError;
use crate::result::{ParseOutcome, ParseSuccess};

verus! {

/// Whether `e` is an attribute-free paragraph container wrapping exactly
/// `elems`, in order.
pub open spec fn wraps_paragraph(e: Element, elems: Seq<Element>) -> bool {
    &&& e is Container
    &&& e->Container_0.ctype == ContainerType::Paragraph
    &&& e->Container_0.elements@ == elems
    &&& e->Container_0.attributes.entries@ == Seq::<(String, String)>::empty()
}

/// How one push changes the stack: a safe element joins the current
/// paragraph; a non-safe element first flushes the current paragraph (if
/// non-empty) into `finished`, then follows it standalone.
pub open spec fn push_transition(
    pre_cur: Seq<Element>,
    pre_fin: Seq<Element>,
    e: Element,
    safe: bool,
    post_cur: Seq<Element>,
    post_fin: Seq<Element>,
) -> bool {
    if safe {
        post_cur == pre_cur.push(e) && post_fin == pre_fin
    } else if pre_cur.len() == 0 {
        post_cur == Seq::<Element>::empty() && post_fin == pre_fin.push(e)
    } else {
        &&& post_cur == Seq::<Element>::empty()
        &&& post_fin.len() == pre_fin.len() + 2
        &&& post_fin.subrange(0, pre_fin.len() as int) == pre_fin
        &&& wraps_paragraph(post_fin[pre_fin.len() as int], pre_cur)
        &&& post_fin.last() == e
    }
}

/// How finalizing turns the stack into the output element list: any pending
/// current elements are wrapped into one trailing paragraph container.
pub open spec fn finalize_transition(cur: Seq<Element>, fin: Seq<Element>, out: Seq<
    Element,
>) -> bool {
    if cur.len() == 0 {
        out == fin
    } else {
        &&& out.len() == fin.len() + 1
        &&& out.subrange(0, fin.len() as int) == fin
        &&& wraps_paragraph(out.last(), cur)
    }
}

/// Accumulates elements into paragraph containers.
#[derive(Debug)]
pub struct ParagraphStack {
    /// Elements being accumulated in the current paragraph.
    pub current: Vec<Element>,
    /// Completed elements, in final document order.
    pub finished: Vec<Element>,
    /// Errors gathered during paragraph parsing.
    pub errors: Vec<ParseError>,
}

impl ParagraphStack {
    /// An empty stack.
    pub fn new() -> (r: ParagraphStack)
        ensures
            r.current@ =~= Seq::<Element>::empty(),
            r.finished@ =~= Seq::<Element>::empty(),
            r.errors@ =~= Seq::<ParseError>::empty(),
    {
        ParagraphStack { current: Vec::new(), finished: Vec::new(), errors: Vec::new() }
    }

    /// Whether no elements are pending in the current paragraph.
    pub fn current_empty(&self) -> (r: bool)
        ensures
            r == (self.current@.len() == 0),
    {
        self.current.len() == 0
    }

    /// A capacity hint for upcoming pushes; the contents are unchanged.
    pub fn reserve_elements(&mut self, additional: usize)
        ensures
            *final(self) == *old(self),
    {
    }

    /// Push one element with its paragraph-safety bit.
    ///
    /// A non-safe element between safe ones flushes the prior safe elements
    /// into their own paragraph before it is emitted standalone.
    pub fn push_element(&mut self, element: Element, paragraph_safe: bool)
        ensures
            push_transition(
                old(self).current@,
                old(self).finished@,
                element,
                paragraph_safe,
                final(self).current@,
                final(self).finished@,
            ),
            final(self).errors@ == old(self).errors@,
    {
        if paragraph_safe {
            self.current.push(element);
        } else {
            self.end_paragraph();
            self.finished.push(element);
            proof {
                if old(self).current@.len() > 0 {
                    let pre_fin = old(self).finished@;
                    assert(self.finished@.subrange(0, pre_fin.len() as int) =~= pre_fin);
                }
            }
        }
    }

    /// Append gathered errors, draining the argument.
    pub fn push_errors(&mut self, errors: &mut Vec<ParseError>)
        ensures
            final(self).errors@ == old(self).errors@ + old(errors)@,
            final(errors)@ =~= Seq::<ParseError>::empty(),
            final(self).current@ == old(self).current@,
            final(self).finished@ == old(self).finished@,
    {
        self.errors.append(errors);
    }

    /// Remove a trailing line break from the current paragraph, if any.
    ///
    /// Exclusively for native blockquote building, which introduces a break
    /// after each quoted line and must strip the excess one.
    pub fn pop_line_break(&mut self)
        ensures
            final(self).finished@ == old(self).finished@,
            final(self).errors@ == old(self).errors@,
            if old(self).current@.len() > 0 && old(self).current@.last() is LineBreak {
                final(self).current@ == old(self).current@.drop_last()
            } else {
                final(self).current@ == old(self).current@
            },
    {
        if self.current.len() > 0 {
            let is_break = match &self.current[self.current.len() - 1] {
                Element::LineBreak => true,
                _ => false,
            };
            if is_break {
                self.current.pop();
            }
        }
    }

    /// Wrap the pending current elements into a paragraph container,
    /// emptying them; `None` when nothing is pending (no empty paragraphs
    /// are ever created).
    pub fn build_paragraph(&mut self) -> (r: Option<Element>)
        ensures
            final(self).finished@ == old(self).finished@,
            final(self).errors@ == old(self).errors@,
            match r {
                None => old(self).current@.len() == 0 && final(self).current@ == old(
                    self).current@,
                Some(e) => old(self).current@.len() > 0 && wraps_paragraph(e, old(self).current@)
                    && final(self).current@ =~= Seq::<Element>::empty(),
            },
    {
        if self.current.len() == 0 {
            return None;
        }
        let mut elements: Vec<Element> = Vec::new();
        core::mem::swap(&mut self.current, &mut elements);
        let container = Container::new(ContainerType::Paragraph, elements, AttributeMap::new());
        Some(Element::Container(container))
    }

    /// Flush the pending current elements (if any) as a completed paragraph.
    pub fn end_paragraph(&mut self)
        ensures
            final(self).errors@ == old(self).errors@,
            final(self).current@ =~= Seq::<Element>::empty(),
            if old(self).current@.len() == 0 {
                final(self).finished@ == old(self).finished@
            } else {
                &&& final(self).finished@.len() == old(self).finished@.len() + 1
                &&& final(self).finished@.drop_last() == old(self).finished@
                &&& wraps_paragraph(final(self).finished@.last(), old(self).current@)
            },
    {
        let paragraph = self.build_paragraph();
        match paragraph {
            Some(p) => {
                self.finished.push(p);
                proof {
                    assert(self.finished@.drop_last() =~= old(self).finished@);
                }
            },
            None => {},
        }
    }

    /// Convert the whole stack into a parse success: the finished elements
    /// (with any pending paragraph flushed), the gathered errors, and an
    /// overall safety bit that holds exactly when every produced element is
    /// itself paragraph safe.
    pub fn into_result(self) -> (r: ParseOutcome<Vec<Element>>)
        ensures
            r is Ok,
            finalize_transition(self.current@, self.finished@, r->Ok_0.item@),
            r->Ok_0.errors@ == self.errors@,
            r->Ok_0.paragraph_safe == elems_paragraph_safe(r->Ok_0.item@),
    {
        let mut stack = self;
        stack.end_paragraph();
        let ParagraphStack { current: _, finished: elements, errors } = stack;

        let mut paragraph_safe = true;
        let mut i: usize = 0;
        while i < elements.len()
            invariant
                0 <= i <= elements@.len(),
                paragraph_safe == (forall|j: int|
                    0 <= j < i ==> elem_paragraph_safe(#[trigger] elements@[j])),
            decreases elements@.len() - i,
        {
            let safe = elements[i].paragraph_safe();
            paragraph_safe = paragraph_safe && safe;
            i = i + 1;
        }

        proof {
            if self.current@.len() > 0 {
                assert(elements@.subrange(0, self.finished@.len() as int) =~= elements@.drop_last());
            }
        }
        Ok(ParseSuccess::new(elements, errors, paragraph_safe))
    }

    /// Convert the stack into its elements alone. Only for callers that know
    /// no errors were gathered.
    pub fn into_elements(self) -> (r: Vec<Element>)
        requires
            self.errors@.len() == 0,
        ensures
            finalize_transition(self.current@, self.finished@, r@),
    {
        let mut stack = self;
        stack.end_paragraph();
        proof {
            if self.current@.len() > 0 {
                assert(stack.finished@.subrange(0, self.finished@.len() as int)
                    =~= stack.finished@.drop_last());
            }
        }
        stack.finished
    }
}

/// Law (paragraph accumulation): starting from an empty stack, pushing any
/// number of paragraph-safe elements and then finalizing yields exactly one
/// paragraph container wrapping all of them in order (or nothing at all,
/// when none were pushed).
///
/// The hypotheses are exactly what [`ParagraphStack::push_element`] and
/// [`ParagraphStack::into_result`] ensure for each step.
pub proof fn lemma_paragraph_accumulation(
    curs: Seq<Seq<Element>>,
    fins: Seq<Seq<Element>>,
    elems: Seq<Element>,
    out: Seq<Element>,
)
    requires
        curs.len() == elems.len() + 1,
        fins.len() == elems.len() + 1,
        curs[0] == Seq::<Element>::empty(),
        fins[0] == Seq::<Element>::empty(),
        forall|i: int|
            0 <= i < elems.len() ==> push_transition(
                #[trigger] curs[i],
                fins[i],
                elems[i],
                true,
                curs[i + 1],
                fins[i + 1],
            ),
        finalize_transition(curs.last(), fins.last(), out),
    ensures
        elems.len() == 0 ==> out == Seq::<Element>::empty(),
        elems.len() > 0 ==> out.len() == 1 && wraps_paragraph(out[0], elems),
{
    assert forall|i: int| 0 <= i < curs.len() implies curs[i] =~= elems.subrange(0, i)
        && #[trigger] fins[i] =~= Seq::<Element>::empty() by {
        lemma_safe_chain_prefix(curs, fins, elems, i);
    }
    assert(curs.last() =~= elems);
    if elems.len() > 0 {
        assert(out.len() == 1);
        assert(out[0] == out.last());
    }
}

proof fn lemma_safe_chain_prefix(
    curs: Seq<Seq<Element>>,
    fins: Seq<Seq<Element>>,
    elems: Seq<Element>,
    i: int,
)
    requires
        curs.len() == elems.len() + 1,
        fins.len() == elems.len() + 1,
        curs[0] == Seq::<Element>::empty(),
        fins[0] == Seq::<Element>::empty(),
        forall|j: int|
            0 <= j < elems.len() ==> push_transition(
                #[trigger] curs[j],
                fins[j],
                elems[j],
                true,
                curs[j + 1],
                fins[j + 1],
            ),
        0 <= i < curs.len(),
    ensures
        curs[i] =~= elems.subrange(0, i),
        fins[i] =~= Seq::<Element>::empty(),
    decreases i,
{
    if i > 0 {
        lemma_safe_chain_prefix(curs, fins, elems, i - 1);
        assert(push_transition(curs[i - 1], fins[i - 1], elems[i - 1], true, curs[i], fins[i]));
        assert(curs[i] =~= elems.subrange(0, i - 1).push(elems[i - 1]));
        assert(elems.subrange(0, i - 1).push(elems[i - 1]) =~= elems.subrange(0, i));
    }
}

} // verus!
