use base64::Engine;
use sasl::client::Mechanism as SaslMechanism;
use xmpp_client::client::auth::{
    default_mechanisms, offered_mechanisms, select_mechanism, ClientAuth, Credentials, Outcome,
};
use xmpp_client::client::mechanism::Exchange;
use xmpp_client::client::{AuthError, Error, Packet};
use xmpp_client::element::Element;
use xmpp_client::sasl::{Challenge, DefinedCondition, Failure, Mechanism, Success};

fn convert(source: &minidom::Element) -> Element {
    let mut out = Element::new(source.name(), &source.ns());
    for ((_, name), value) in source.attrs().iter() {
        out.set_attr(name.as_str(), value);
    }
    for node in source.nodes() {
        match node {
            minidom::Node::Element(child) => out.append_child(convert(child)),
            minidom::Node::Text(text) => out.append_text_node(text),
        }
    }
    out
}

fn element(xml: &str) -> Element {
    let parsed: minidom::Element = xml.trim().parse().unwrap();
    convert(&parsed)
}

fn features(mechanisms: &[&str]) -> Element {
    let mut list = String::new();
    for name in mechanisms {
        list.push_str(&format!("<mechanism>{name}</mechanism>"));
    }
    element(&format!(
        "<features xmlns='http://etherx.jabber.org/streams'>\
         <mechanisms xmlns='urn:ietf:params:xml:ns:xmpp-sasl'>{list}</mechanisms></features>"
    ))
}

fn creds() -> Credentials {
    Credentials { username: String::from("juliet"), password: String::from("r0m30") }
}

fn decoded(element: &Element) -> Vec<u8> {
    base64::engine::general_purpose::STANDARD.decode(element.text()).unwrap()
}

fn stanza(xml: &str) -> Option<Packet> {
    Some(Packet::Stanza(element(xml)))
}

#[test]
fn auth_plain_offered_scram_preferred() {
    let priority = vec![Mechanism::ScramSha256, Mechanism::Plain];
    let (auth, first) =
        ClientAuth::with_mechanisms(&features(&["PLAIN"]), creds(), &priority).unwrap();
    assert_eq!(auth.chosen(), Mechanism::Plain);
    assert!(first.is("auth", "urn:ietf:params:xml:ns:xmpp-sasl"));
    assert_eq!(first.attr("mechanism"), Some("PLAIN"));
    assert_eq!(first.text(), "AGp1bGlldAByMG0zMA==");
    assert_eq!(decoded(&first), b"\0juliet\0r0m30");
    assert_eq!(
        first,
        element(
            "<auth xmlns='urn:ietf:params:xml:ns:xmpp-sasl' mechanism='PLAIN'>AGp1bGlldAByMG0zMA==</auth>"
        )
    );
    let outcome = auth.handle_challenge(stanza("<success xmlns='urn:ietf:params:xml:ns:xmpp-sasl'/>"));
    assert!(matches!(outcome, Outcome::Success));
}

#[test]
fn auth_no_common_mechanism() {
    let priority = vec![Mechanism::Plain];
    let result = ClientAuth::with_mechanisms(&features(&["SCRAM-SHA-1"]), creds(), &priority);
    assert!(matches!(result, Err(Error::Auth(AuthError::NoMechanism))));
}

#[test]
fn auth_no_mechanisms_element() {
    let bare = element("<features xmlns='http://etherx.jabber.org/streams'/>");
    assert!(offered_mechanisms(&bare).is_none());
    assert!(matches!(ClientAuth::new(&bare, creds()), Err(Error::Auth(AuthError::NoMechanism))));
    let empty = features(&[]);
    assert_eq!(offered_mechanisms(&empty), Some(vec![]));
    assert!(matches!(ClientAuth::new(&empty, creds()), Err(Error::Auth(AuthError::NoMechanism))));
}

#[test]
fn auth_offered_mechanisms_are_read_in_order() {
    let offered = offered_mechanisms(&element(
        "<features xmlns='http://etherx.jabber.org/streams'>\
         <starttls xmlns='urn:ietf:params:xml:ns:xmpp-tls'/>\
         <mechanisms xmlns='urn:ietf:params:xml:ns:xmpp-sasl'>\
         <mechanism>SCRAM-SHA-1</mechanism><other/><mechanism>PLAIN</mechanism>\
         </mechanisms></features>",
    ));
    assert_eq!(offered, Some(vec![String::from("SCRAM-SHA-1"), String::from("PLAIN")]));
}

#[test]
fn auth_selection_follows_the_client_and_ignores_the_servers_order() {
    let priority = default_mechanisms();
    assert_eq!(
        priority,
        vec![Mechanism::ScramSha256, Mechanism::ScramSha1, Mechanism::Plain, Mechanism::Anonymous]
    );
    let one = vec![String::from("PLAIN"), String::from("SCRAM-SHA-1"), String::from("X-OTHER")];
    let two = vec![
        String::from("X-OTHER"),
        String::from("SCRAM-SHA-1"),
        String::from("PLAIN"),
        String::from("SCRAM-SHA-1"),
    ];
    assert_eq!(select_mechanism(&priority, &one), Some(Mechanism::ScramSha1));
    assert_eq!(select_mechanism(&priority, &two), Some(Mechanism::ScramSha1));
    let reversed = vec![Mechanism::Plain, Mechanism::ScramSha1];
    assert_eq!(select_mechanism(&reversed, &one), Some(Mechanism::Plain));
    assert_eq!(select_mechanism(&priority, &vec![String::from("X-OTHER")]), None);
    assert_eq!(select_mechanism(&vec![], &one), None);
}

#[test]
fn auth_mechanism_names_are_those_of_the_mechanisms() {
    let plain = sasl::client::mechanisms::Plain::new("a", "b");
    assert_eq!(Mechanism::Plain.name(), plain.name());
    assert_eq!(Mechanism::Anonymous.name(), sasl::client::mechanisms::Anonymous::new().name());
    let scram1 = sasl::client::mechanisms::Scram::<sasl::common::scram::Sha1>::new(
        "a",
        "b",
        sasl::common::ChannelBinding::None,
    )
    .unwrap();
    assert_eq!(Mechanism::ScramSha1.name(), scram1.name());
    let scram256 = sasl::client::mechanisms::Scram::<sasl::common::scram::Sha256>::new(
        "a",
        "b",
        sasl::common::ChannelBinding::None,
    )
    .unwrap();
    assert_eq!(Mechanism::ScramSha256.name(), scram256.name());
}

#[test]
fn auth_anonymous() {
    let (auth, first) = ClientAuth::new(&features(&["ANONYMOUS"]), creds()).unwrap();
    assert_eq!(auth.chosen(), Mechanism::Anonymous);
    assert_eq!(first.attr("mechanism"), Some("ANONYMOUS"));
    assert_eq!(first.text(), "");
}

#[test]
fn auth_failure_in_namespace_ends_the_attempt() {
    let (auth, _) = ClientAuth::new(&features(&["PLAIN"]), creds()).unwrap();
    let outcome = auth.handle_challenge(stanza(
        "<failure xmlns='urn:ietf:params:xml:ns:xmpp-sasl'><not-authorized/><text>no</text></failure>",
    ));
    match outcome {
        Outcome::Failure(Error::Auth(AuthError::Fail(condition))) => {
            assert_eq!(condition, DefinedCondition::NotAuthorized)
        }
        _ => panic!(),
    }
}

#[test]
fn auth_bare_failure_ends_the_attempt() {
    let (auth, _) = ClientAuth::new(&features(&["PLAIN"]), creds()).unwrap();
    let outcome =
        auth.handle_challenge(Some(Packet::Stanza(Element::without_namespace("failure"))));
    match outcome {
        Outcome::Failure(Error::Auth(AuthError::Sasl(message))) => assert_eq!(message, "failure"),
        _ => panic!(),
    }
    let (auth, _) = ClientAuth::new(&features(&["PLAIN"]), creds()).unwrap();
    let outcome = auth.handle_challenge(stanza("<failure xmlns='jabber:client'/>"));
    assert!(matches!(outcome, Outcome::Failure(Error::Auth(AuthError::Sasl(_)))));
    let (auth, _) = ClientAuth::new(&features(&["PLAIN"]), creds()).unwrap();
    let outcome = auth.handle_challenge(stanza("<failure xmlns='urn:ietf:params:xml:ns:xmpp-sasl'/>"));
    assert!(matches!(outcome, Outcome::Failure(Error::Auth(AuthError::Sasl(_)))));
}

#[test]
fn auth_end_of_stream() {
    let (auth, _) = ClientAuth::new(&features(&["PLAIN"]), creds()).unwrap();
    assert!(matches!(auth.handle_challenge(None), Outcome::Failure(Error::Disconnected)));
}

#[test]
fn auth_other_traffic_is_passed_over() {
    let (auth, _) = ClientAuth::new(&features(&["PLAIN"]), creds()).unwrap();
    let auth = match auth.handle_challenge(stanza("<message xmlns='jabber:client'/>")) {
        Outcome::Pending { auth, send: None } => auth,
        _ => panic!(),
    };
    let auth = match auth.handle_challenge(Some(Packet::Text(String::from(" ")))) {
        Outcome::Pending { auth, send: None } => auth,
        _ => panic!(),
    };
    let auth = match auth.handle_challenge(Some(Packet::StreamOpen(vec![]))) {
        Outcome::Pending { auth, send: None } => auth,
        _ => panic!(),
    };
    let auth = match auth.handle_challenge(stanza(
        "<challenge xmlns='urn:ietf:params:xml:ns:xmpp-sasl'>!!</challenge>",
    )) {
        Outcome::Pending { auth, send: None } => auth,
        _ => panic!(),
    };
    assert!(matches!(
        auth.handle_challenge(stanza("<success xmlns='urn:ietf:params:xml:ns:xmpp-sasl'/>")),
        Outcome::Success
    ));
}

#[test]
fn auth_plain_answers_a_challenge_with_nothing() {
    let (auth, _) = ClientAuth::new(&features(&["PLAIN"]), creds()).unwrap();
    match auth.handle_challenge(stanza(
        "<challenge xmlns='urn:ietf:params:xml:ns:xmpp-sasl'>AAAA</challenge>",
    )) {
        Outcome::Pending { auth, send: Some(response) } => {
            assert_eq!(auth.chosen(), Mechanism::Plain);
            assert_eq!(response, element("<response xmlns='urn:ietf:params:xml:ns:xmpp-sasl'></response>"));
            assert_eq!(response.text(), "");
        }
        _ => panic!(),
    }
}

#[test]
fn auth_scram_exchange() {
    let (auth, first) = ClientAuth::new(&features(&["PLAIN", "SCRAM-SHA-1"]), creds()).unwrap();
    assert_eq!(auth.chosen(), Mechanism::ScramSha1);
    assert_eq!(first.attr("mechanism"), Some("SCRAM-SHA-1"));
    let initial = String::from_utf8(decoded(&first)).unwrap();
    assert!(initial.starts_with("n,,n=juliet,r="));
    let nonce = &initial["n,,n=juliet,r=".len()..];
    let challenge = format!("r={nonce}3rfcNHYJY1ZVvWVs7j,s=QSXCR+Q6sek8bf92,i=4096");
    let text = base64::engine::general_purpose::STANDARD.encode(challenge);
    match auth.handle_challenge(stanza(&format!(
        "<challenge xmlns='urn:ietf:params:xml:ns:xmpp-sasl'>{text}</challenge>"
    ))) {
        Outcome::Pending { auth, send: Some(response) } => {
            assert_eq!(auth.chosen(), Mechanism::ScramSha1);
            assert!(response.is("response", "urn:ietf:params:xml:ns:xmpp-sasl"));
            let answer = String::from_utf8(decoded(&response)).unwrap();
            assert!(answer.starts_with(&format!("c=biws,r={nonce}3rfcNHYJY1ZVvWVs7j,p=")));
        }
        _ => panic!(),
    }
}

#[test]
fn auth_scram_cannot_answer_a_broken_challenge() {
    let (auth, first) = ClientAuth::new(&features(&["SCRAM-SHA-256"]), creds()).unwrap();
    assert_eq!(first.attr("mechanism"), Some("SCRAM-SHA-256"));
    let text = base64::engine::general_purpose::STANDARD.encode("nothing of use");
    match auth.handle_challenge(stanza(&format!(
        "<challenge xmlns='urn:ietf:params:xml:ns:xmpp-sasl'>{text}</challenge>"
    ))) {
        Outcome::Failure(Error::Auth(AuthError::Sasl(message))) => {
            assert_eq!(message, "no server nonce")
        }
        _ => panic!(),
    }
}

#[test]
fn auth_begin_and_answer_take_what_the_mechanism_gave() {
    let (auth, first) = ClientAuth::begin(Exchange::Plain, vec![0, 0, 0]);
    assert_eq!(first.attr("mechanism"), Some("PLAIN"));
    assert_eq!(first.text(), "AAAA");
    match auth.answer(Ok(vec![0, 0, 0])) {
        Outcome::Pending { auth, send: Some(response) } => {
            assert_eq!(response.text(), "AAAA");
            match auth.answer(Err(String::from("no"))) {
                Outcome::Failure(Error::Auth(AuthError::Sasl(message))) => assert_eq!(message, "no"),
                _ => panic!(),
            }
        }
        _ => panic!(),
    }
}

#[test]
fn sasl_elements_are_read() {
    let challenge = Challenge::try_from(element(
        "<challenge xmlns='urn:ietf:params:xml:ns:xmpp-sasl'>AAAA</challenge>",
    ))
    .unwrap();
    assert_eq!(challenge.data, vec![0, 0, 0]);
    let success =
        Success::try_from(element("<success xmlns='urn:ietf:params:xml:ns:xmpp-sasl'/>")).unwrap();
    assert!(success.data.is_empty());
    let failure = Failure::try_from(element(
        "<failure xmlns='urn:ietf:params:xml:ns:xmpp-sasl'><text>a</text><account-disabled/></failure>",
    ))
    .unwrap();
    assert_eq!(failure.defined_condition, DefinedCondition::AccountDisabled);
    assert_eq!(DefinedCondition::from_name("temporary-auth-failure"), Some(DefinedCondition::TemporaryAuthFailure));
    assert_eq!(DefinedCondition::MechanismTooWeak.name(), "mechanism-too-weak");
    assert_eq!(DefinedCondition::from_name("coucou"), None);
}

#[test]
fn sasl_elements_that_are_wrong() {
    let cases = [
        ("<failure xmlns='urn:ietf:params:xml:ns:xmpp-sasl'/>", "Failure must have a defined-condition."),
        (
            "<failure xmlns='urn:ietf:params:xml:ns:xmpp-sasl'><aborted/><not-authorized/></failure>",
            "Failure must not have more than one defined-condition.",
        ),
        ("<failure xmlns='urn:ietf:params:xml:ns:xmpp-sasl'><coucou/></failure>", "Unknown element in failure."),
        ("<success xmlns='urn:ietf:params:xml:ns:xmpp-sasl'/>", "This is not a failure element."),
    ];
    for (xml, expected) in cases {
        match Failure::try_from(element(xml)).unwrap_err() {
            xmpp_client::error::Error::ParseError(message) => assert_eq!(message, expected),
            _ => panic!(),
        }
    }
    match Challenge::try_from(element("<success xmlns='urn:ietf:params:xml:ns:xmpp-sasl'/>"))
        .unwrap_err()
    {
        xmpp_client::error::Error::ParseError(message) => assert_eq!(message, "This is not a challenge element."),
        _ => panic!(),
    }
    match Success::try_from(element(
        "<success xmlns='urn:ietf:params:xml:ns:xmpp-sasl'><x/></success>",
    ))
    .unwrap_err()
    {
        xmpp_client::error::Error::ParseError(message) => assert_eq!(message, "Unknown child in success element."),
        _ => panic!(),
    }
    assert!(matches!(
        Challenge::try_from(element(
            "<challenge xmlns='urn:ietf:params:xml:ns:xmpp-sasl'>?</challenge>"
        )),
        Err(xmpp_client::error::Error::Base64Error)
    ));
}
