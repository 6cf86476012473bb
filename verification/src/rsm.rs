//! Result set management: the part of a query or an answer that pages through results.
//!
//! What is inside a result set is not read here: the payload is kept as the
//! element that it came as, once that element is a result set by its name and
//! namespace.

use vstd::prelude::*;
use crate::element::{Element, ElementView};
use crate::error::{Error, ErrorView};
use crate::ns;

verus! {

/// The paging part of a query or of an answer.
#[derive(Debug)]
pub struct ResultSet {
    element: Element,
}

/// Whether an element is a result set by its name and namespace.
pub open spec fn is_result_set(e: ElementView) -> bool {
    e.is("set"@, ns::RSM@)
}

impl View for ResultSet {
    type V = ElementView;

    closed spec fn view(&self) -> ElementView {
        self.element@
    }
}

impl ResultSet {
    #[verifier::type_invariant]
    spec fn named_right(self) -> bool {
        is_result_set(self.element@)
    }

    /// Takes an element as a result set, if it is one by its name and namespace.
    pub fn try_from(elem: Element) -> (r: Result<ResultSet, Error>)
        ensures
            match r {
                Ok(v) => is_result_set(elem@) && v@ == elem@,
                Err(e) => !is_result_set(elem@) && e@ == ErrorView::ParseError(
                    "This is not a RSM element."@,
                ),
            },
    {
        if elem.is("set", ns::RSM) {
            Ok(ResultSet { element: elem })
        } else {
            Err(Error::ParseError("This is not a RSM element."))
        }
    }

    /// Gives the element back.
    pub fn into(self) -> (e: Element)
        ensures
            e@ == self@,
            is_result_set(e@),
    {
        proof {
            use_type_invariant(&self);
        }
        self.element
    }

    /// The element, to look at.
    pub fn element(&self) -> (e: &Element)
        ensures
            e@ == self@,
            is_result_set(e@),
    {
        proof {
            use_type_invariant(self);
        }
        &self.element
    }
}

} // verus!
