use xmpp_client::client::negotiation::{Action, Event, Negotiator, Pending, State};
use xmpp_client::client::{AuthError, Error};
use xmpp_client::element::Element;

fn features(tls: bool, sasl: bool) -> Element {
    let mut f = Element::new("features", "http://etherx.jabber.org/streams");
    if tls {
        f.append_child(Element::new("starttls", "urn:ietf:params:xml:ns:xmpp-tls"));
    }
    if sasl {
        let mut list = Element::new("mechanisms", "urn:ietf:params:xml:ns:xmpp-sasl");
        let mut one = Element::new("mechanism", "urn:ietf:params:xml:ns:xmpp-sasl");
        one.append_text_node("PLAIN");
        list.append_child(one);
        f.append_child(list);
    }
    f
}

fn message() -> Element {
    Element::new("message", "jabber:client")
}

#[test]
fn negotiation_tls_then_sasl_then_ready() {
    let mut n = Negotiator::new();
    assert_eq!(n.state(), State::Connecting);
    assert!(matches!(n.on_event(Event::Stanza(message())), Action::Discard));
    assert!(matches!(n.on_event(Event::Stanza(features(true, true))), Action::StartTls));
    assert_eq!(
        n.state(),
        State::Negotiating { has_tls: false, has_sasl: false, pending: Pending::Tls }
    );
    assert!(matches!(n.on_event(Event::Authenticated), Action::Wait));
    assert!(matches!(n.on_event(Event::TlsDone), Action::SendOpen));
    assert_eq!(n.state(), State::Restarting { has_tls: true, has_sasl: false });
    match n.on_event(Event::Stanza(features(true, true))) {
        Action::Authenticate(f) => assert_eq!(f, features(true, true)),
        _ => panic!(),
    }
    assert_eq!(
        n.state(),
        State::Negotiating { has_tls: true, has_sasl: false, pending: Pending::Sasl }
    );
    assert!(matches!(n.on_event(Event::Stanza(message())), Action::Discard));
    assert!(matches!(n.on_event(Event::Authenticated), Action::SendOpen));
    assert_eq!(n.state(), State::Restarting { has_tls: true, has_sasl: true });
    assert!(!n.is_ready());
    assert!(matches!(n.on_event(Event::Stanza(message())), Action::Discard));
    assert!(matches!(n.on_event(Event::Stanza(features(true, true))), Action::Established));
    assert!(n.is_ready());
    match n.on_event(Event::Stanza(message())) {
        Action::Dispatch(e) => assert_eq!(e, message()),
        _ => panic!(),
    }
    assert!(matches!(n.on_event(Event::Disconnected), Action::Fail(Error::Disconnected)));
    assert_eq!(n.state(), State::Failed);
    assert!(matches!(n.on_event(Event::Stanza(message())), Action::Discard));
    assert!(matches!(n.on_event(Event::Disconnected), Action::Wait));
}

#[test]
fn negotiation_nothing_offered_is_ready_at_once() {
    let mut n = Negotiator::new();
    assert!(matches!(n.on_event(Event::Stanza(features(false, false))), Action::Established));
    assert_eq!(n.state(), State::Ready);
}

#[test]
fn negotiation_failures() {
    let mut n = Negotiator::new();
    assert!(matches!(n.on_event(Event::Stanza(features(true, false))), Action::StartTls));
    match n.on_event(Event::TlsFailed(String::from("handshake"))) {
        Action::Fail(Error::Tls(why)) => assert_eq!(why, "handshake"),
        _ => panic!(),
    }
    assert_eq!(n.state(), State::Failed);

    let mut n = Negotiator::new();
    assert!(matches!(n.on_event(Event::Stanza(features(false, true))), Action::Authenticate(_)));
    assert!(matches!(n.on_event(Event::TlsDone), Action::Wait));
    assert!(matches!(
        n.on_event(Event::AuthFailed(Error::Auth(AuthError::NoMechanism))),
        Action::Fail(Error::Auth(AuthError::NoMechanism))
    ));
    assert_eq!(n.state(), State::Failed);

    let mut n = Negotiator::new();
    assert!(matches!(n.on_event(Event::Disconnected), Action::Fail(Error::Disconnected)));
}
