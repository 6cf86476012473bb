//! The elements of SASL negotiation on a stream: what a client sends to
//! authenticate, and what a server answers.

use vstd::prelude::*;
use crate::element::{text_children, Element, ElementView};
use crate::encoding::{base64_decoded, base64_encoded, standard_decode, standard_encode};
use crate::error::{outcome, Error, ErrorView};
use crate::ns;
use crate::text::same_text;

verus! {

/// A mechanism, as streams name it.
#[derive(Debug, Clone, Copy, PartialEq, Eq, Structural)]
pub enum Mechanism {
    ScramSha256,
    ScramSha1,
    Plain,
    Anonymous,
}

/// Why a server turned an authentication down.
#[derive(Debug, Clone, Copy, PartialEq, Eq, Structural)]
pub enum DefinedCondition {
    Aborted,
    AccountDisabled,
    CredentialsExpired,
    EncryptionRequired,
    IncorrectEncoding,
    InvalidAuthzid,
    InvalidMechanism,
    MalformedRequest,
    MechanismTooWeak,
    NotAuthorized,
    TemporaryAuthFailure,
}

/// The client's request to authenticate, with the mechanism's first message.
#[derive(Debug)]
pub struct Auth {
    pub mechanism: Mechanism,
    pub data: Vec<u8>,
}

/// The client's answer to a challenge.
#[derive(Debug)]
pub struct Response {
    pub data: Vec<u8>,
}

/// The server's challenge.
#[derive(Debug)]
pub struct Challenge {
    pub data: Vec<u8>,
}

/// The server's word that the client is authenticated.
#[derive(Debug)]
pub struct Success {
    pub data: Vec<u8>,
}

/// The server's word that the client is not authenticated.
#[derive(Debug)]
pub struct Failure {
    pub defined_condition: DefinedCondition,
}

impl Mechanism {
    /// The name of the mechanism on the wire.
    pub open spec fn name_spec(self) -> Seq<char> {
        match self {
            Mechanism::ScramSha256 => "SCRAM-SHA-256"@,
            Mechanism::ScramSha1 => "SCRAM-SHA-1"@,
            Mechanism::Plain => "PLAIN"@,
            Mechanism::Anonymous => "ANONYMOUS"@,
        }
    }

    /// The name of the mechanism on the wire.
    pub fn name(&self) -> (r: &'static str)
        ensures
            r@ == self.name_spec(),
    {
        match self {
            Mechanism::ScramSha256 => "SCRAM-SHA-256",
            Mechanism::ScramSha1 => "SCRAM-SHA-1",
            Mechanism::Plain => "PLAIN",
            Mechanism::Anonymous => "ANONYMOUS",
        }
    }
}

/// The condition that an element name stands for, if it stands for one.
pub open spec fn condition_named(name: Seq<char>) -> Option<DefinedCondition> {
    if name == "aborted"@ {
        Some(DefinedCondition::Aborted)
    } else if name == "account-disabled"@ {
        Some(DefinedCondition::AccountDisabled)
    } else if name == "credentials-expired"@ {
        Some(DefinedCondition::CredentialsExpired)
    } else if name == "encryption-required"@ {
        Some(DefinedCondition::EncryptionRequired)
    } else if name == "incorrect-encoding"@ {
        Some(DefinedCondition::IncorrectEncoding)
    } else if name == "invalid-authzid"@ {
        Some(DefinedCondition::InvalidAuthzid)
    } else if name == "invalid-mechanism"@ {
        Some(DefinedCondition::InvalidMechanism)
    } else if name == "malformed-request"@ {
        Some(DefinedCondition::MalformedRequest)
    } else if name == "mechanism-too-weak"@ {
        Some(DefinedCondition::MechanismTooWeak)
    } else if name == "not-authorized"@ {
        Some(DefinedCondition::NotAuthorized)
    } else if name == "temporary-auth-failure"@ {
        Some(DefinedCondition::TemporaryAuthFailure)
    } else {
        None
    }
}

impl DefinedCondition {
    /// The element name that stands for the condition.
    pub open spec fn name_spec(self) -> Seq<char> {
        match self {
            DefinedCondition::Aborted => "aborted"@,
            DefinedCondition::AccountDisabled => "account-disabled"@,
            DefinedCondition::CredentialsExpired => "credentials-expired"@,
            DefinedCondition::EncryptionRequired => "encryption-required"@,
            DefinedCondition::IncorrectEncoding => "incorrect-encoding"@,
            DefinedCondition::InvalidAuthzid => "invalid-authzid"@,
            DefinedCondition::InvalidMechanism => "invalid-mechanism"@,
            DefinedCondition::MalformedRequest => "malformed-request"@,
            DefinedCondition::MechanismTooWeak => "mechanism-too-weak"@,
            DefinedCondition::NotAuthorized => "not-authorized"@,
            DefinedCondition::TemporaryAuthFailure => "temporary-auth-failure"@,
        }
    }

    /// The element name that stands for the condition.
    pub fn name(&self) -> (r: &'static str)
        ensures
            r@ == self.name_spec(),
    {
        match self {
            DefinedCondition::Aborted => "aborted",
            DefinedCondition::AccountDisabled => "account-disabled",
            DefinedCondition::CredentialsExpired => "credentials-expired",
            DefinedCondition::EncryptionRequired => "encryption-required",
            DefinedCondition::IncorrectEncoding => "incorrect-encoding",
            DefinedCondition::InvalidAuthzid => "invalid-authzid",
            DefinedCondition::InvalidMechanism => "invalid-mechanism",
            DefinedCondition::MalformedRequest => "malformed-request",
            DefinedCondition::MechanismTooWeak => "mechanism-too-weak",
            DefinedCondition::NotAuthorized => "not-authorized",
            DefinedCondition::TemporaryAuthFailure => "temporary-auth-failure",
        }
    }

    /// The condition that an element name stands for, if it stands for one.
    pub fn from_name(name: &str) -> (r: Option<DefinedCondition>)
        ensures
            r == condition_named(name@),
    {
        if same_text(name, "aborted") {
            Some(DefinedCondition::Aborted)
        } else if same_text(name, "account-disabled") {
            Some(DefinedCondition::AccountDisabled)
        } else if same_text(name, "credentials-expired") {
            Some(DefinedCondition::CredentialsExpired)
        } else if same_text(name, "encryption-required") {
            Some(DefinedCondition::EncryptionRequired)
        } else if same_text(name, "incorrect-encoding") {
            Some(DefinedCondition::IncorrectEncoding)
        } else if same_text(name, "invalid-authzid") {
            Some(DefinedCondition::InvalidAuthzid)
        } else if same_text(name, "invalid-mechanism") {
            Some(DefinedCondition::InvalidMechanism)
        } else if same_text(name, "malformed-request") {
            Some(DefinedCondition::MalformedRequest)
        } else if same_text(name, "mechanism-too-weak") {
            Some(DefinedCondition::MechanismTooWeak)
        } else if same_text(name, "not-authorized") {
            Some(DefinedCondition::NotAuthorized)
        } else if same_text(name, "temporary-auth-failure") {
            Some(DefinedCondition::TemporaryAuthFailure)
        } else {
            None
        }
    }
}

/// The element that asks to authenticate with `mechanism`, given the
/// mechanism's first message as text.
pub open spec fn auth_element(mechanism: Mechanism, text: Seq<char>) -> ElementView {
    ElementView {
        name: "auth"@,
        namespace: Some(ns::SASL@),
        attrs: Map::<Seq<char>, Seq<char>>::empty().insert("mechanism"@, mechanism.name_spec()),
        children: text_children(text),
    }
}

/// The element that answers a challenge, given the answer as text.
pub open spec fn response_element(text: Seq<char>) -> ElementView {
    ElementView {
        name: "response"@,
        namespace: Some(ns::SASL@),
        attrs: Map::empty(),
        children: text_children(text),
    }
}

/// The bytes that an element of the given name carries as base64 text. The
/// element must stand in the SASL namespace and have no child elements.
pub open spec fn payload_spec(
    e: ElementView,
    name: Seq<char>,
    wrong_element: Seq<char>,
    wrong_child: Seq<char>,
) -> Result<Seq<u8>, ErrorView> {
    if !e.is(name, ns::SASL@) {
        Err(ErrorView::ParseError(wrong_element))
    } else if e.elements().len() > 0 {
        Err(ErrorView::ParseError(wrong_child))
    } else {
        match base64_decoded(e.text()) {
            None => Err(ErrorView::Base64Error),
            Some(data) => Ok(data),
        }
    }
}

/// What an element says as a challenge.
pub open spec fn challenge_spec(e: ElementView) -> Result<Seq<u8>, ErrorView> {
    payload_spec(
        e,
        "challenge"@,
        "This is not a challenge element."@,
        "Unknown child in challenge element."@,
    )
}

/// What an element says as a success.
pub open spec fn success_spec(e: ElementView) -> Result<Seq<u8>, ErrorView> {
    payload_spec(
        e,
        "success"@,
        "This is not a success element."@,
        "Unknown child in success element."@,
    )
}

/// Whether a child of a failure is a text for people.
pub open spec fn is_failure_text(child: ElementView) -> bool {
    child.is("text"@, ns::SASL@)
}

/// The condition that a child of a failure names, if it names one.
pub open spec fn child_condition(child: ElementView) -> Option<DefinedCondition> {
    if child.namespace == Some(ns::SASL@) {
        condition_named(child.name)
    } else {
        None
    }
}

/// The conditions that the children of a failure name, in order.
pub open spec fn conditions_of(children: Seq<ElementView>) -> Seq<DefinedCondition>
    decreases children.len(),
{
    if children.len() == 0 {
        Seq::empty()
    } else {
        match child_condition(children.last()) {
            Some(c) => conditions_of(children.drop_last()).push(c),
            None => conditions_of(children.drop_last()),
        }
    }
}

/// Whether every child of a failure is a text or names a condition.
pub open spec fn failure_children_known(children: Seq<ElementView>) -> bool {
    forall|i: int|
        0 <= i < children.len() ==> is_failure_text(#[trigger] children[i]) || child_condition(
            children[i],
        ) is Some
}

/// What an element says as a failure. It must be a `failure` element in the
/// SASL namespace whose children are texts and conditions only, with exactly
/// one condition among them.
pub open spec fn failure_spec(e: ElementView) -> Result<DefinedCondition, ErrorView> {
    let conditions = conditions_of(e.elements());
    if !e.is("failure"@, ns::SASL@) {
        Err(ErrorView::ParseError("This is not a failure element."@))
    } else if !failure_children_known(e.elements()) {
        Err(ErrorView::ParseError("Unknown element in failure."@))
    } else if conditions.len() == 0 {
        Err(ErrorView::ParseError("Failure must have a defined-condition."@))
    } else if conditions.len() > 1 {
        Err(ErrorView::ParseError("Failure must not have more than one defined-condition."@))
    } else {
        Ok(conditions[0])
    }
}

fn read_payload(
    elem: &Element,
    name: &str,
    wrong_element: &'static str,
    wrong_child: &'static str,
) -> (r: Result<Vec<u8>, Error>)
    ensures
        match r {
            Ok(data) => payload_spec(elem@, name@, wrong_element@, wrong_child@) == Ok::<
                Seq<u8>,
                ErrorView,
            >(data@),
            Err(e) => payload_spec(elem@, name@, wrong_element@, wrong_child@) == Err::<
                Seq<u8>,
                ErrorView,
            >(e@),
        },
{
    if !elem.is(name, ns::SASL) {
        return Err(Error::ParseError(wrong_element));
    }
    if elem.children().len() > 0 {
        return Err(Error::ParseError(wrong_child));
    }
    let text = elem.text();
    match standard_decode(text.as_str()) {
        None => Err(Error::Base64Error),
        Some(data) => Ok(data),
    }
}

impl View for Challenge {
    type V = Seq<u8>;

    open spec fn view(&self) -> Seq<u8> {
        self.data@
    }
}

impl View for Success {
    type V = Seq<u8>;

    open spec fn view(&self) -> Seq<u8> {
        self.data@
    }
}

impl View for Failure {
    type V = DefinedCondition;

    open spec fn view(&self) -> DefinedCondition {
        self.defined_condition
    }
}

impl Auth {
    /// Writes the request as an element, the first message in base64.
    pub fn into(self) -> (e: Element)
        ensures
            e@ == auth_element(self.mechanism, base64_encoded(self.data@)),
            base64_decoded(base64_encoded(self.data@)) == Some(self.data@),
    {
        let mut e = Element::new("auth", ns::SASL);
        e.set_attr("mechanism", self.mechanism.name());
        let text = standard_encode(self.data.as_slice());
        e.append_text_node(text.as_str());
        assert(e@.children =~= text_children(base64_encoded(self.data@)));
        e
    }
}

impl Response {
    /// Writes the answer as an element, in base64.
    pub fn into(self) -> (e: Element)
        ensures
            e@ == response_element(base64_encoded(self.data@)),
            base64_decoded(base64_encoded(self.data@)) == Some(self.data@),
    {
        let mut e = Element::new("response", ns::SASL);
        let text = standard_encode(self.data.as_slice());
        e.append_text_node(text.as_str());
        assert(e@.children =~= text_children(base64_encoded(self.data@)));
        e
    }
}

impl Challenge {
    /// Reads a challenge.
    pub fn try_from(elem: Element) -> (r: Result<Challenge, Error>)
        ensures
            outcome(r) == challenge_spec(elem@),
    {
        match read_payload(
            &elem,
            "challenge",
            "This is not a challenge element.",
            "Unknown child in challenge element.",
        ) {
            Ok(data) => Ok(Challenge { data }),
            Err(e) => Err(e),
        }
    }
}

impl Success {
    /// Reads a success.
    pub fn try_from(elem: Element) -> (r: Result<Success, Error>)
        ensures
            outcome(r) == success_spec(elem@),
    {
        match read_payload(
            &elem,
            "success",
            "This is not a success element.",
            "Unknown child in success element.",
        ) {
            Ok(data) => Ok(Success { data }),
            Err(e) => Err(e),
        }
    }
}

impl Failure {
    /// Reads a failure.
    pub fn try_from(elem: Element) -> (r: Result<Failure, Error>)
        ensures
            outcome(r) == failure_spec(elem@),
    {
        if !elem.is("failure", ns::SASL) {
            return Err(Error::ParseError("This is not a failure element."));
        }
        let children = elem.children();
        let ghost views = elem@.elements();
        let mut found: Option<DefinedCondition> = None;
        let mut count: usize = 0;
        let mut i: usize = 0;
        while i < children.len()
            invariant
                i <= children.len(),
                views == elem@.elements(),
                elem@.is("failure"@, ns::SASL@),
                children@.len() == views.len(),
                forall|j: int| 0 <= j < children@.len() ==> children@[j]@ == views[j],
                forall|j: int|
                    0 <= j < i ==> is_failure_text(#[trigger] views[j]) || child_condition(
                        views[j],
                    ) is Some,
                count == conditions_of(views.take(i as int)).len(),
                count <= i,
                count == 0 ==> found is None,
                count > 0 ==> found == Some(conditions_of(views.take(i as int))[0]),
            decreases children.len() - i,
        {
            proof {
                assert(views.take(i + 1).drop_last() =~= views.take(i as int));
                assert(views.take(i + 1).last() == views[i as int]);
                assert(children@[i as int]@ == views[i as int]);
            }
            let child = &children[i];
            let condition = match child.ns() {
                None => None,
                Some(namespace) => if same_text(namespace, ns::SASL) {
                    DefinedCondition::from_name(child.name())
                } else {
                    None
                },
            };
            match condition {
                Some(c) => {
                    if count == 0 {
                        found = Some(c);
                    }
                    count = count + 1;
                },
                None => {
                    if !child.is("text", ns::SASL) {
                        assert(!is_failure_text(views[i as int]));
                        assert(child_condition(views[i as int]) is None);
                        return Err(Error::ParseError("Unknown element in failure."));
                    }
                },
            }
            i = i + 1;
        }
        assert(views.take(children.len() as int) =~= views);
        match found {
            None => Err(Error::ParseError("Failure must have a defined-condition.")),
            Some(defined_condition) => if count > 1 {
                Err(Error::ParseError("Failure must not have more than one defined-condition."))
            } else {
                Ok(Failure { defined_condition })
            },
        }
    }
}

} // verus!
