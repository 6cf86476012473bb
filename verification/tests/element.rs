use xmpp_client::element::Element;
use xmpp_client::number::{format_u16, parse_u16};
use xmpp_client::error::ParseIntError;
use xmpp_client::text::same_text;

#[test]
fn element_is_built_and_read() {
    let mut e = Element::new("message", "jabber:client");
    assert_eq!(e.name(), "message");
    assert_eq!(e.ns(), Some("jabber:client"));
    assert!(e.is("message", "jabber:client"));
    assert!(!e.is("message", "jabber:server"));
    assert!(!e.is("presence", "jabber:client"));
    assert_eq!(e.attr("to"), None);
    e.set_attr("to", "a");
    e.set_attr("type", "chat");
    e.set_attr("to", "b");
    assert_eq!(e.attr("to"), Some("b"));
    assert_eq!(e.attr("type"), Some("chat"));
    e.append_text_node("one");
    let mut body = Element::without_namespace("body");
    body.append_text_node("inner");
    e.append_child(body);
    e.append_text_node("");
    e.append_text_node("two");
    assert_eq!(e.text(), "onetwo");
    let children = e.children();
    assert_eq!(children.len(), 1);
    assert!(children[0].is("body", "jabber:client"));
    assert_eq!(children[0].text(), "inner");
    assert!(e.get_child("body", "jabber:client").is_some());
    assert!(e.get_child("body", "other").is_none());
    assert!(!Element::without_namespace("x").is("x", ""));
    assert_eq!(Element::without_namespace("x").ns(), None);
}

#[test]
fn element_equality_ignores_attribute_order_and_inherited_namespaces() {
    let mut a = Element::new("a", "ns");
    a.set_attr("x", "1");
    a.set_attr("y", "2");
    a.append_child(Element::without_namespace("b"));
    let mut b = Element::new("a", "ns");
    b.set_attr("y", "0");
    b.set_attr("y", "2");
    b.set_attr("x", "1");
    b.append_child(Element::new("b", "ns"));
    assert_eq!(a, b);
    assert_eq!(a.duplicate(), a);

    let mut c = Element::new("a", "ns");
    c.set_attr("x", "1");
    c.append_child(Element::new("b", "ns"));
    assert_ne!(a, c);
    let mut d = a.duplicate();
    d.append_text_node("t");
    assert_ne!(a, d);
    let mut e = Element::new("a", "ns");
    e.set_attr("x", "1");
    e.set_attr("y", "2");
    e.append_child(Element::new("b", "other"));
    assert_ne!(a, e);
    assert_ne!(Element::without_namespace("a"), Element::new("a", "ns"));
    assert!(Element::without_namespace("b").same_within(Some("ns"), &Element::new("b", "ns"), None));
    assert_eq!(Element::without_namespace("b").adopted(Some("ns")), Element::new("b", "ns"));
}

#[test]
fn number_reading_and_writing() {
    assert_eq!(parse_u16("0"), Ok(0));
    assert_eq!(parse_u16("+17"), Ok(17));
    assert_eq!(parse_u16("007"), Ok(7));
    assert_eq!(parse_u16("65535"), Ok(65535));
    assert_eq!(parse_u16("65536"), Err(ParseIntError::PosOverflow));
    assert_eq!(parse_u16("99999x"), Err(ParseIntError::PosOverflow));
    assert_eq!(parse_u16("9x99999"), Err(ParseIntError::InvalidDigit));
    assert_eq!(parse_u16(""), Err(ParseIntError::Empty));
    assert_eq!(parse_u16("+"), Err(ParseIntError::InvalidDigit));
    assert_eq!(parse_u16("-"), Err(ParseIntError::InvalidDigit));
    assert_eq!(parse_u16("-5"), Err(ParseIntError::InvalidDigit));
    assert_eq!(parse_u16("1é"), Err(ParseIntError::InvalidDigit));
    assert_eq!(parse_u16(" 1"), Err(ParseIntError::InvalidDigit));
    for text in ["0", "+17", "007", "65535", "65536", "", "+", "-", "-5", "12a", "+-1", "99999x"] {
        assert_eq!(parse_u16(text).ok(), text.parse::<u16>().ok());
    }
    assert_eq!(format_u16(0), "0");
    assert_eq!(format_u16(9), "9");
    assert_eq!(format_u16(10), "10");
    assert_eq!(format_u16(65535), "65535");
    for n in [0u16, 1, 9, 10, 99, 100, 4096, 65535] {
        assert_eq!(format_u16(n), n.to_string());
        assert_eq!(parse_u16(&format_u16(n)), Ok(n));
    }
    assert_eq!(ParseIntError::Empty.description(), "cannot parse integer from empty string");
    assert_eq!(ParseIntError::PosOverflow.description(), "number too large to fit in target type");
}

#[test]
fn text_comparison() {
    assert!(same_text("", ""));
    assert!(same_text("héllo", "héllo"));
    assert!(!same_text("hello", "hellp"));
    assert!(!same_text("hello", "hell"));
}
