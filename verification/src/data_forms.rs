//! Data forms, as they travel inside other payloads.
//!
//! What is inside a data form is not read here: the payload is kept as the
//! element that it came as, once that element is a data form by its name and
//! namespace.

use vstd::prelude::*;
use crate::element::{Element, ElementView};
use crate::error::{Error, ErrorView};
use crate::ns;

verus! {

/// A data form.
#[derive(Debug)]
pub struct DataForm {
    element: Element,
}

/// Whether an element is a data form by its name and namespace.
pub open spec fn is_data_form(e: ElementView) -> bool {
    e.is("x"@, ns::DATA_FORMS@)
}

impl View for DataForm {
    type V = ElementView;

    closed spec fn view(&self) -> ElementView {
        self.element@
    }
}

impl DataForm {
    #[verifier::type_invariant]
    spec fn named_right(self) -> bool {
        is_data_form(self.element@)
    }

    /// Takes an element as a data form, if it is one by its name and namespace.
    pub fn try_from(elem: Element) -> (r: Result<DataForm, Error>)
        ensures
            match r {
                Ok(v) => is_data_form(elem@) && v@ == elem@,
                Err(e) => !is_data_form(elem@) && e@ == ErrorView::ParseError(
                    "This is not a data form element."@,
                ),
            },
    {
        if elem.is("x", ns::DATA_FORMS) {
            Ok(DataForm { element: elem })
        } else {
            Err(Error::ParseError("This is not a data form element."))
        }
    }

    /// Gives the element back.
    pub fn into(self) -> (e: Element)
        ensures
            e@ == self@,
            is_data_form(e@),
    {
        proof {
            use_type_invariant(&self);
        }
        self.element
    }

    /// The element, to look at.
    pub fn element(&self) -> (e: &Element)
        ensures
            e@ == self@,
            is_data_form(e@),
    {
        proof {
            use_type_invariant(self);
        }
        &self.element
    }
}

} // verus!
