//! Forwarded stanzas, as they travel inside other payloads.
//!
//! What is inside a forwarded stanza is not read here: the payload is kept as the
//! element that it came as, once that element is a forwarded stanza by its name and
//! namespace.

use vstd::prelude::*;
use crate::element::{Element, ElementView};
use crate::error::{Error, ErrorView};
use crate::ns;

verus! {

/// A stanza that is passed on, with what is known of its first delivery.
#[derive(Debug)]
pub struct Forwarded {
    element: Element,
}

/// Whether an element is a forwarded stanza by its name and namespace.
pub open spec fn is_forwarded(e: ElementView) -> bool {
    e.is("forwarded"@, ns::FORWARD@)
}

impl View for Forwarded {
    type V = ElementView;

    closed spec fn view(&self) -> ElementView {
        self.element@
    }
}

impl Forwarded {
    #[verifier::type_invariant]
    spec fn named_right(self) -> bool {
        is_forwarded(self.element@)
    }

    /// Takes an element as a forwarded stanza, if it is one by its name and namespace.
    pub fn try_from(elem: Element) -> (r: Result<Forwarded, Error>)
        ensures
            match r {
                Ok(v) => is_forwarded(elem@) && v@ == elem@,
                Err(e) => !is_forwarded(elem@) && e@ == ErrorView::ParseError(
                    "This is not a forwarded element."@,
                ),
            },
    {
        if elem.is("forwarded", ns::FORWARD) {
            Ok(Forwarded { element: elem })
        } else {
            Err(Error::ParseError("This is not a forwarded element."))
        }
    }

    /// Gives the element back.
    pub fn into(self) -> (e: Element)
        ensures
            e@ == self@,
            is_forwarded(e@),
    {
        proof {
            use_type_invariant(&self);
        }
        self.element
    }

    /// The element, to look at.
    pub fn element(&self) -> (e: &Element)
        ensures
            e@ == self@,
            is_forwarded(e@),
    {
        proof {
            use_type_invariant(self);
        }
        &self.element
    }
}

} // verus!
