use xmpp_client::address::Jid;
use xmpp_client::element::Element;
use xmpp_client::error::Error;
use xmpp_client::mam::{DefaultPrefs, Fin, Prefs, Query, Result_};

fn convert(source: &minidom::Element) -> Element {
    let mut out = Element::new(source.name(), &source.ns());
    for ((_, name), value) in source.attrs().iter() {
        out.set_attr(name.as_str(), value);
    }
    for node in source.nodes() {
        match node {
            minidom::Node::Element(child) => out.append_child(convert(child)),
            minidom::Node::Text(text) => out.append_text_node(text),
        }
    }
    out
}

fn element(xml: &str) -> Element {
    let parsed: minidom::Element = xml.trim().parse().unwrap();
    convert(&parsed)
}

#[test]
fn test_query() {
    let elem = element("<query xmlns='urn:xmpp:mam:2'/>");
    Query::try_from(elem).unwrap();
}

#[test]
fn test_result() {
    let elem = element(
        r#"
<result xmlns='urn:xmpp:mam:2' queryid='f27' id='28482-98726-73623'>
  <forwarded xmlns='urn:xmpp:forward:0'>
    <delay xmlns='urn:xmpp:delay' stamp='2010-07-10T23:08:25Z'/>
    <message xmlns='jabber:client' from="witch@shakespeare.lit" to="macbeth@shakespeare.lit">
      <body>Hail to thee</body>
    </message>
  </forwarded>
</result>
"#,
    );
    let result = Result_::try_from(elem).unwrap();
    assert_eq!(result.queryid, "f27");
    assert_eq!(result.id, "28482-98726-73623");
    assert!(result.forwarded.element().is("forwarded", "urn:xmpp:forward:0"));
}

#[test]
fn test_fin() {
    let elem = element(
        r#"
<fin xmlns='urn:xmpp:mam:2'>
  <set xmlns='http://jabber.org/protocol/rsm'>
    <first index='0'>28482-98726-73623</first>
    <last>09af3-cc343-b409f</last>
  </set>
</fin>
"#,
    );
    let fin = Fin::try_from(elem).unwrap();
    assert!(!fin.complete);
}

#[test]
fn test_query_x() {
    let elem = element(
        r#"
<query xmlns='urn:xmpp:mam:2'>
  <x xmlns='jabber:x:data' type='submit'>
    <field var='FORM_TYPE' type='hidden'>
      <value>urn:xmpp:mam:2</value>
    </field>
    <field var='with'>
      <value>juliet@capulet.lit</value>
    </field>
  </x>
</query>
"#,
    );
    let query = Query::try_from(elem).unwrap();
    assert!(query.form.is_some());
    assert!(query.set.is_none());
}

#[test]
fn test_query_x_set() {
    let elem = element(
        r#"
<query xmlns='urn:xmpp:mam:2'>
  <x xmlns='jabber:x:data' type='submit'>
    <field var='FORM_TYPE' type='hidden'>
      <value>urn:xmpp:mam:2</value>
    </field>
    <field var='start'>
      <value>2010-08-07T00:00:00Z</value>
    </field>
  </x>
  <set xmlns='http://jabber.org/protocol/rsm'>
    <max>10</max>
  </set>
</query>
"#,
    );
    let query = Query::try_from(elem).unwrap();
    assert!(query.form.is_some());
    assert!(query.set.is_some());
}

#[test]
fn test_prefs_get() {
    let elem = element("<prefs xmlns='urn:xmpp:mam:2' default='always'/>");
    let prefs = Prefs::try_from(elem).unwrap();
    assert_eq!(prefs.default_, DefaultPrefs::Always);

    let elem = element(
        r#"
<prefs xmlns='urn:xmpp:mam:2' default='roster'>
  <always/>
  <never/>
</prefs>
"#,
    );
    let prefs = Prefs::try_from(elem).unwrap();
    assert_eq!(prefs.default_, DefaultPrefs::Roster);
    assert!(prefs.always.is_empty());
    assert!(prefs.never.is_empty());
}

#[test]
fn test_prefs_result() {
    let elem = element(
        r#"
<prefs xmlns='urn:xmpp:mam:2' default='roster'>
  <always>
    <jid>romeo@montague.lit</jid>
  </always>
  <never>
    <jid>montague@montague.lit</jid>
  </never>
</prefs>
"#,
    );
    let prefs = Prefs::try_from(elem).unwrap();
    assert_eq!(prefs.always.len(), 1);
    assert_eq!(prefs.always[0].as_str(), "romeo@montague.lit");
    assert_eq!(prefs.never.len(), 1);
    assert_eq!(prefs.never[0].as_str(), "montague@montague.lit");
}

#[test]
fn mam_test_invalid_child() {
    let elem = element("<query xmlns='urn:xmpp:mam:2'><coucou/></query>");
    let error = Query::try_from(elem).unwrap_err();
    let message = match error {
        Error::ParseError(string) => string,
        _ => panic!(),
    };
    assert_eq!(message, "Unknown child in query element.");
}

#[test]
fn test_serialise() {
    let elem = element("<query xmlns='urn:xmpp:mam:2'/>");
    let replace = Query { queryid: None, node: None, form: None, set: None };
    let elem2 = replace.into();
    assert_eq!(elem, elem2);
}

#[test]
fn mam_wrong_elements() {
    let other = "<replace xmlns='urn:xmpp:message-correct:0'/>";
    match Query::try_from(element(other)).unwrap_err() {
        Error::ParseError(message) => assert_eq!(message, "This is not a query element."),
        _ => panic!(),
    }
    match Result_::try_from(element(other)).unwrap_err() {
        Error::ParseError(message) => assert_eq!(message, "This is not a result element."),
        _ => panic!(),
    }
    match Fin::try_from(element(other)).unwrap_err() {
        Error::ParseError(message) => assert_eq!(message, "This is not a fin element."),
        _ => panic!(),
    }
    match Prefs::try_from(element(other)).unwrap_err() {
        Error::ParseError(message) => assert_eq!(message, "This is not a prefs element."),
        _ => panic!(),
    }
}

#[test]
fn mam_result_errors_in_order() {
    let texts = [
        ("<result xmlns='urn:xmpp:mam:2'><coucou/></result>", "Unknown child in result element."),
        ("<result xmlns='urn:xmpp:mam:2'/>", "Mandatory forwarded element missing in result."),
        (
            "<result xmlns='urn:xmpp:mam:2'><forwarded xmlns='urn:xmpp:forward:0'/></result>",
            "Required attribute 'queryid' missing.",
        ),
        (
            "<result xmlns='urn:xmpp:mam:2' queryid='q'><forwarded xmlns='urn:xmpp:forward:0'/></result>",
            "Required attribute 'id' missing.",
        ),
    ];
    for (xml, expected) in texts {
        match Result_::try_from(element(xml)).unwrap_err() {
            Error::ParseError(message) => assert_eq!(message, expected),
            _ => panic!(),
        }
    }
}

#[test]
fn mam_fin_complete_attribute() {
    let set = "<set xmlns='http://jabber.org/protocol/rsm'/>";
    let fin =
        Fin::try_from(element(&format!("<fin xmlns='urn:xmpp:mam:2' complete='true'>{set}</fin>")))
            .unwrap();
    assert!(fin.complete);
    let fin = Fin::try_from(element(&format!(
        "<fin xmlns='urn:xmpp:mam:2' complete='false'>{set}</fin>"
    )))
    .unwrap();
    assert!(!fin.complete);
    match Fin::try_from(element(&format!("<fin xmlns='urn:xmpp:mam:2' complete='yes'>{set}</fin>")))
        .unwrap_err()
    {
        Error::ParseError(message) => assert_eq!(message, "Invalid value for 'complete' attribute."),
        _ => panic!(),
    }
    match Fin::try_from(element("<fin xmlns='urn:xmpp:mam:2'/>")).unwrap_err() {
        Error::ParseError(message) => assert_eq!(message, "Mandatory set element missing in fin."),
        _ => panic!(),
    }
    match Fin::try_from(element("<fin xmlns='urn:xmpp:mam:2'><coucou/></fin>")).unwrap_err() {
        Error::ParseError(message) => assert_eq!(message, "Unknown child in fin element."),
        _ => panic!(),
    }
}

#[test]
fn mam_prefs_errors() {
    let texts = [
        ("<prefs xmlns='urn:xmpp:mam:2'/>", "Required attribute 'default' missing."),
        ("<prefs xmlns='urn:xmpp:mam:2' default='often'/>", "Unknown value for 'default' attribute."),
        ("<prefs xmlns='urn:xmpp:mam:2' default='never'><coucou/></prefs>", "Unknown child in prefs element."),
        (
            "<prefs xmlns='urn:xmpp:mam:2' default='never'><always><coucou/></always></prefs>",
            "Invalid jid element in always.",
        ),
        (
            "<prefs xmlns='urn:xmpp:mam:2' default='never'><never><coucou/></never></prefs>",
            "Invalid jid element in never.",
        ),
    ];
    for (xml, expected) in texts {
        match Prefs::try_from(element(xml)).unwrap_err() {
            Error::ParseError(message) => assert_eq!(message, expected),
            _ => panic!(),
        }
    }
    let bad = "<prefs xmlns='urn:xmpp:mam:2' default='never'><always><jid>a@b@c</jid></always></prefs>";
    assert!(matches!(Prefs::try_from(element(bad)), Err(Error::JidParseError(_))));
}

#[test]
fn mam_address_is_normalised() {
    let jid = Jid::parse("Romeo@Montague.LIT/orchard").unwrap();
    assert_eq!(jid.as_str(), "romeo@montague.lit/orchard");
    assert!(matches!(Jid::parse("@montague.lit"), Err(Error::JidParseError(_))));
}

#[test]
fn mam_query_written_and_read_again() {
    let source = r#"<query xmlns='urn:xmpp:mam:2' queryid='f27' node='n'><x xmlns='jabber:x:data' type='submit'><field var='with'><value>juliet@capulet.lit</value></field></x><set xmlns='http://jabber.org/protocol/rsm'><max>10</max></set></query>"#;
    let query = Query::try_from(element(source)).unwrap();
    assert_eq!(query.queryid.as_deref(), Some("f27"));
    assert_eq!(query.node.as_deref(), Some("n"));
    let written = query.into();
    assert_eq!(written, element(source));
    let again = Query::try_from(written).unwrap();
    assert!(again.form.is_some());
    assert!(again.set.is_some());
}

#[test]
fn mam_result_written_and_read_again() {
    let source = r#"<result xmlns='urn:xmpp:mam:2' queryid='f27' id='28482'><forwarded xmlns='urn:xmpp:forward:0'><delay xmlns='urn:xmpp:delay' stamp='2010-07-10T23:08:25Z'/></forwarded></result>"#;
    let result = Result_::try_from(element(source)).unwrap();
    let written = result.into();
    assert_eq!(written, element(source));
    let again = Result_::try_from(written).unwrap();
    assert_eq!(again.id, "28482");
}

#[test]
fn mam_fin_written_and_read_again() {
    let source = r#"<fin xmlns='urn:xmpp:mam:2' complete='true'><set xmlns='http://jabber.org/protocol/rsm'><last>09af3</last></set></fin>"#;
    let fin = Fin::try_from(element(source)).unwrap();
    let written = fin.into();
    assert_eq!(written, element(source));
    assert!(Fin::try_from(written).unwrap().complete);
}

#[test]
fn mam_prefs_written_and_read_again() {
    let source = r#"<prefs xmlns='urn:xmpp:mam:2' default='roster'><always><jid>romeo@montague.lit</jid></always><never><jid>montague@montague.lit</jid></never></prefs>"#;
    let prefs = Prefs::try_from(element(source)).unwrap();
    let written = prefs.into();
    assert_eq!(written, element(source));
    let again = Prefs::try_from(written).unwrap();
    assert_eq!(again.default_, DefaultPrefs::Roster);
    assert_eq!(again.always.len(), 1);
    assert_eq!(again.never[0].as_str(), "montague@montague.lit");
}
