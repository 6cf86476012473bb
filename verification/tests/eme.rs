use xmpp_client::element::Element;
use xmpp_client::eme;
use xmpp_client::eme::ExplicitMessageEncryption;
use xmpp_client::error::Error;

fn convert(source: &minidom::Element) -> Element {
    let mut out = Element::new(source.name(), &source.ns());
    for ((_, name), value) in source.attrs().iter() {
        out.set_attr(name.as_str(), value);
    }
    for node in source.nodes() {
        match node {
            minidom::Node::Element(child) => out.append_child(convert(child)),
            minidom::Node::Text(text) => out.append_text_node(text),
        }
    }
    out
}

fn element(xml: &str) -> Element {
    let parsed: minidom::Element = xml.parse().unwrap();
    convert(&parsed)
}

#[test]
fn eme_test_simple() {
    let elem = element("<encryption xmlns='urn:xmpp:eme:0' namespace='urn:xmpp:otr:0'/>");
    let encryption = eme::parse_explicit_message_encryption(&elem).unwrap();
    assert_eq!(encryption.namespace, "urn:xmpp:otr:0");
    assert_eq!(encryption.name, None);

    let elem = element(
        "<encryption xmlns='urn:xmpp:eme:0' namespace='some.unknown.mechanism' name='SuperMechanism'/>",
    );
    let encryption = eme::parse_explicit_message_encryption(&elem).unwrap();
    assert_eq!(encryption.namespace, "some.unknown.mechanism");
    assert_eq!(encryption.name, Some(String::from("SuperMechanism")));
}

#[test]
fn test_unknown() {
    let elem = element("<replace xmlns='urn:xmpp:message-correct:0'/>");
    let error = eme::parse_explicit_message_encryption(&elem).unwrap_err();
    let message = match error {
        Error::ParseError(string) => string,
        _ => panic!(),
    };
    assert_eq!(message, "This is not an encryption element.");
}

#[test]
fn eme_test_invalid_child() {
    let elem = element("<encryption xmlns='urn:xmpp:eme:0'><coucou/></encryption>");
    let error = eme::parse_explicit_message_encryption(&elem).unwrap_err();
    let message = match error {
        Error::ParseError(string) => string,
        _ => panic!(),
    };
    assert_eq!(message, "Unknown child in encryption element.");
}

#[test]
fn eme_missing_namespace_attribute() {
    let elem = element("<encryption xmlns='urn:xmpp:eme:0' name='OTR'/>");
    let error = eme::parse_explicit_message_encryption(&elem).unwrap_err();
    let message = match error {
        Error::ParseError(string) => string,
        _ => panic!(),
    };
    assert_eq!(
        message,
        "Mandatory argument 'namespace' not present in encryption element."
    );
}

#[test]
fn eme_written_and_read_again() {
    let hint = ExplicitMessageEncryption {
        namespace: String::from("urn:xmpp:otr:0"),
        name: Some(String::from("OTR")),
    };
    let elem = hint.to_element();
    assert!(elem.is("encryption", "urn:xmpp:eme:0"));
    assert_eq!(elem.attr("namespace"), Some("urn:xmpp:otr:0"));
    assert_eq!(elem.attr("name"), Some("OTR"));
    let back = eme::parse_explicit_message_encryption(&elem).unwrap();
    assert_eq!(back.namespace, hint.namespace);
    assert_eq!(back.name, hint.name);
}
