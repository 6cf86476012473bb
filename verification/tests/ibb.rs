use xmpp_client::element::Element;
use xmpp_client::error::{Error, ParseIntError};
use xmpp_client::ibb::{Close, Data, Open, Stanza, StreamId};

fn convert(source: &minidom::Element) -> Element {
    let mut out = Element::new(source.name(), &source.ns());
    for ((_, name), value) in source.attrs().iter() {
        out.set_attr(name.as_str(), value);
    }
    for node in source.nodes() {
        match node {
            minidom::Node::Element(child) => out.append_child(convert(child)),
            minidom::Node::Text(text) => out.append_text_node(text),
        }
    }
    out
}

fn element(xml: &str) -> Element {
    let parsed: minidom::Element = xml.parse().unwrap();
    convert(&parsed)
}

#[test]
fn ibb_test_simple() {
    let sid = StreamId(String::from("coucou"));

    let elem = element("<open xmlns='http://jabber.org/protocol/ibb' block-size='3' sid='coucou'/>");
    let open = Open::try_from(elem).unwrap();
    assert_eq!(open.block_size, 3);
    assert_eq!(open.sid, sid);
    assert_eq!(open.stanza, Stanza::Iq);

    let elem =
        element("<data xmlns='http://jabber.org/protocol/ibb' seq='0' sid='coucou'>AAAA</data>");
    let data = Data::try_from(elem).unwrap();
    assert_eq!(data.seq, 0);
    assert_eq!(data.sid, sid);
    assert_eq!(data.data, vec!(0, 0, 0));

    let elem = element("<close xmlns='http://jabber.org/protocol/ibb' sid='coucou'/>");
    let close = Close::try_from(elem).unwrap();
    assert_eq!(close.sid, sid);
}

#[test]
fn test_invalid() {
    let elem = element("<open xmlns='http://jabber.org/protocol/ibb'/>");
    let error = Open::try_from(elem).unwrap_err();
    let message = match error {
        Error::ParseError(string) => string,
        _ => panic!(),
    };
    assert_eq!(message, "Required attribute 'block-size' missing.");

    let elem = element("<open xmlns='http://jabber.org/protocol/ibb' block-size='-5'/>");
    let error = Open::try_from(elem).unwrap_err();
    let message = match error {
        Error::ParseIntError(error) => error,
        _ => panic!(),
    };
    assert_eq!(message.description(), "invalid digit found in string");

    let elem = element("<open xmlns='http://jabber.org/protocol/ibb' block-size='128'/>");
    let error = Open::try_from(elem).unwrap_err();
    let message = match error {
        Error::ParseError(error) => error,
        _ => panic!(),
    };
    assert_eq!(message, "Required attribute 'sid' missing.");
}

#[test]
fn test_invalid_stanza() {
    let elem = element(
        "<open xmlns='http://jabber.org/protocol/ibb' block-size='128' sid='coucou' stanza='fdsq'/>",
    );
    let error = Open::try_from(elem).unwrap_err();
    let message = match error {
        Error::ParseError(string) => string,
        _ => panic!(),
    };
    assert_eq!(message, "Unknown value for 'stanza' attribute.");
}

#[test]
fn ibb_out_of_range_is_a_number_error() {
    let elem =
        element("<open xmlns='http://jabber.org/protocol/ibb' block-size='65536' sid='x'/>");
    match Open::try_from(elem).unwrap_err() {
        Error::ParseIntError(kind) => assert_eq!(kind, ParseIntError::PosOverflow),
        _ => panic!(),
    }
    let elem = element("<open xmlns='http://jabber.org/protocol/ibb' block-size='' sid='x'/>");
    match Open::try_from(elem).unwrap_err() {
        Error::ParseIntError(kind) => assert_eq!(kind, ParseIntError::Empty),
        _ => panic!(),
    }
    let elem = element("<open xmlns='http://jabber.org/protocol/ibb' block-size='-5' sid='x'/>");
    match Open::try_from(elem).unwrap_err() {
        Error::ParseIntError(kind) => assert_eq!(kind, ParseIntError::InvalidDigit),
        _ => panic!(),
    }
}

#[test]
fn ibb_open_with_message_stanza() {
    let elem = element(
        "<open xmlns='http://jabber.org/protocol/ibb' block-size='4096' sid='a' stanza='message'/>",
    );
    let open = Open::try_from(elem).unwrap();
    assert_eq!(open.block_size, 4096);
    assert_eq!(open.stanza, Stanza::Message);
}

#[test]
fn ibb_wrong_element_and_child() {
    let elem = element("<close xmlns='http://jabber.org/protocol/ibb' sid='a'/>");
    match Open::try_from(elem).unwrap_err() {
        Error::ParseError(message) => assert_eq!(message, "This is not a open element."),
        _ => panic!(),
    }
    let elem = element("<close xmlns='http://jabber.org/protocol/ibb' sid='a'><x/></close>");
    match Close::try_from(elem).unwrap_err() {
        Error::ParseError(message) => assert_eq!(message, "Unknown child in close element."),
        _ => panic!(),
    }
    let elem = element("<close xmlns='http://jabber.org/protocol/ibb'/>");
    match Close::try_from(elem).unwrap_err() {
        Error::ParseError(message) => assert_eq!(message, "Required attribute 'sid' missing."),
        _ => panic!(),
    }
}

#[test]
fn ibb_data_that_is_not_base64() {
    let elem =
        element("<data xmlns='http://jabber.org/protocol/ibb' seq='0' sid='coucou'>!!</data>");
    assert!(matches!(Data::try_from(elem), Err(Error::Base64Error)));
}

#[test]
fn ibb_open_written_and_read_again() {
    let open = Open {
        block_size: 65535,
        sid: StreamId(String::from("coucou")),
        stanza: Stanza::Message,
    };
    let elem = open.clone().into();
    assert_eq!(
        elem,
        element(
            "<open xmlns='http://jabber.org/protocol/ibb' block-size='65535' sid='coucou' stanza='message'/>"
        )
    );
    assert_eq!(Open::try_from(elem).unwrap(), open);

    let plain = Open { block_size: 0, sid: StreamId(String::from("s")), stanza: Stanza::Iq };
    let elem = plain.clone().into();
    assert_eq!(elem.attr("stanza"), None);
    assert_eq!(elem.attr("block-size"), Some("0"));
    assert_eq!(Open::try_from(elem).unwrap(), plain);
}

#[test]
fn ibb_data_written_and_read_again() {
    let data = Data { seq: 7, sid: StreamId(String::from("coucou")), data: vec![0, 0, 0] };
    let elem = data.clone().into();
    assert_eq!(
        elem,
        element("<data xmlns='http://jabber.org/protocol/ibb' seq='7' sid='coucou'>AAAA</data>")
    );
    assert_eq!(Data::try_from(elem).unwrap(), data);
}

#[test]
fn ibb_close_written_and_read_again() {
    let close = Close { sid: StreamId(String::from("coucou")) };
    let elem = close.clone().into();
    assert_eq!(elem, element("<close xmlns='http://jabber.org/protocol/ibb' sid='coucou'/>"));
    assert_eq!(Close::try_from(elem).unwrap(), close);
}
