//! The variable rule: a `{$name}` token becomes a variable reference node.

use vstd::prelude::*;

use crate::element::{Element, Elements};
use crate::errors::ParseErrorKind;
use crate::outside::{capture_variable_name, variable_capture};
use crate::parser::{artifacts_unchanged, ctx_unchanged, Parser};
use crate::result::{ParseOutcome, ParseSuccess};

verus! {

/// Consume one variable token, extracting the variable name from its
/// slice. Fails (recoverably) when the slice does not have the `{$name}`
/// shape.
pub fn try_consume_fn(parser: &mut Parser) -> (r: ParseOutcome<Elements>)
    requires
        old(parser).wf(),
        old(parser).spec_current().token is Variable,
    ensures
        final(parser).wf(),
        ctx_unchanged(old(parser), final(parser)),
        artifacts_unchanged(old(parser), final(parser)),
        final(parser).accepts_partial == old(parser).accepts_partial,
        match variable_capture(old(parser).spec_current().slice@) {
            Some(name) => {
                &&& r is Ok
                &&& final(parser).position == old(parser).position + 1
                &&& r->Ok_0.item is Single
                &&& r->Ok_0.item->Single_0 is Variable
                &&& r->Ok_0.item->Single_0->Variable_0@ == name
                &&& r->Ok_0.errors@.len() == 0
                &&& r->Ok_0.paragraph_safe
            },
            None => {
                &&& r is Err
                &&& r->Err_0.kind == ParseErrorKind::RuleFailed
                &&& final(parser).position == old(parser).position
            },
        },
{
    let captured = capture_variable_name(parser.current().slice.as_str());
    match captured {
        Some(name) => {
            match parser.step() {
                Ok(()) => {},
                Err(e) => {
                    return Err(e);
                },
            }
            Ok(ParseSuccess::new(Elements::Single(Element::Variable(name)), Vec::new(), true))
        },
        None => Err(parser.make_err(ParseErrorKind::RuleFailed)),
    }
}

} // verus!
