//! Explicit message encryption: a hint that names the encryption a message
//! body is under.

use vstd::prelude::*;
use crate::element::{opt_view, Element, ElementView};
use crate::error::{outcome, Error, ErrorView};
use crate::ns;

verus! {

/// The hint: the namespace of the encryption in use, and a name for it that
/// can be shown to people.
#[derive(Debug)]
pub struct ExplicitMessageEncryption {
    pub namespace: String,
    pub name: Option<String>,
}

/// The hint as a mathematical value.
pub struct ExplicitMessageEncryptionView {
    pub namespace: Seq<char>,
    pub name: Option<Seq<char>>,
}

impl View for ExplicitMessageEncryption {
    type V = ExplicitMessageEncryptionView;

    open spec fn view(&self) -> ExplicitMessageEncryptionView {
        ExplicitMessageEncryptionView { namespace: self.namespace@, name: opt_view(self.name) }
    }
}

/// What an element says as an encryption hint. It must be an `encryption`
/// element in the hints' namespace, without child elements and with a
/// `namespace` attribute; a `name` attribute is taken along.
pub open spec fn parse_spec(root: ElementView) -> Result<ExplicitMessageEncryptionView, ErrorView> {
    if !root.is("encryption"@, ns::EME@) {
        Err(ErrorView::ParseError("This is not an encryption element."@))
    } else if root.elements().len() > 0 {
        Err(ErrorView::ParseError("Unknown child in encryption element."@))
    } else if root.attr("namespace"@) is None {
        Err(
            ErrorView::ParseError(
                "Mandatory argument 'namespace' not present in encryption element."@,
            ),
        )
    } else {
        Ok(
            ExplicitMessageEncryptionView {
                namespace: root.attr("namespace"@)->0,
                name: root.attr("name"@),
            },
        )
    }
}

/// The attributes of the element that a hint is written as.
pub open spec fn attrs_spec(v: ExplicitMessageEncryptionView) -> Map<Seq<char>, Seq<char>> {
    let base = Map::<Seq<char>, Seq<char>>::empty().insert("namespace"@, v.namespace);
    match v.name {
        Some(n) => base.insert("name"@, n),
        None => base,
    }
}

/// The element that a hint is written as.
pub open spec fn element_spec(v: ExplicitMessageEncryptionView) -> ElementView {
    ElementView {
        name: "encryption"@,
        namespace: Some(ns::EME@),
        attrs: attrs_spec(v),
        children: Seq::empty(),
    }
}

/// Reads an encryption hint from an element.
pub fn parse_explicit_message_encryption(root: &Element) -> (r: Result<
    ExplicitMessageEncryption,
    Error,
>)
    ensures
        outcome(r) == parse_spec(root@),
{
    if !root.is("encryption", ns::EME) {
        return Err(Error::ParseError("This is not an encryption element."));
    }
    if root.children().len() > 0 {
        return Err(Error::ParseError("Unknown child in encryption element."));
    }
    let namespace = match root.attr("namespace") {
        Some(value) => value.to_owned(),
        None => {
            return Err(
                Error::ParseError(
                    "Mandatory argument 'namespace' not present in encryption element.",
                ),
            );
        },
    };
    let name = match root.attr("name") {
        Some(value) => Some(value.to_owned()),
        None => None,
    };
    Ok(ExplicitMessageEncryption { namespace, name })
}

impl ExplicitMessageEncryption {
    /// Writes the hint as an element.
    pub fn to_element(&self) -> (e: Element)
        ensures
            e@ == element_spec(self@),
    {
        let mut e = Element::new("encryption", ns::EME);
        e.set_attr("namespace", self.namespace.as_str());
        match &self.name {
            Some(n) => {
                e.set_attr("name", n.as_str());
            },
            None => {},
        }
        e
    }
}

/// A hint that is written as an element and read again is the same hint.
pub proof fn lemma_parse_of_element(v: ExplicitMessageEncryptionView)
    ensures
        parse_spec(element_spec(v)) == Ok::<ExplicitMessageEncryptionView, ErrorView>(v),
{
    reveal_strlit("namespace");
    reveal_strlit("name");
    let e = element_spec(v);
    assert("namespace"@ != "name"@) by {
        assert("namespace"@.len() == 9);
        assert("name"@.len() == 4);
    }
    assert(e.attrs.contains_key("namespace"@));
    assert(e.attrs["namespace"@] == v.namespace);
}

/// An element that reads as a hint, and holds nothing but what a hint says,
/// is the element that the hint is written as.
pub proof fn lemma_element_of_parsed(e: ElementView, v: ExplicitMessageEncryptionView)
    requires
        parse_spec(e) == Ok::<ExplicitMessageEncryptionView, ErrorView>(v),
        e.children.len() == 0,
        forall|k: Seq<char>| e.attrs.contains_key(k) ==> k == "namespace"@ || k == "name"@,
    ensures
        element_spec(v) == e,
{
    reveal_strlit("namespace");
    reveal_strlit("name");
    assert("namespace"@ != "name"@) by {
        assert("namespace"@.len() == 9);
        assert("name"@.len() == 4);
    }
    let w = element_spec(v);
    assert(w.attrs =~= e.attrs);
    assert(w.children =~= e.children);
}

} // verus!
