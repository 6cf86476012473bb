use xmpp_client::client::dispatch::Registry;
use xmpp_client::element::Element;

#[test]
fn dispatch_two_plugins_one_event() {
    let mut registry: Registry<String> = Registry::new();
    let logging = registry.register("logging").unwrap();
    let messaging = registry.register("messaging").unwrap();
    assert_eq!((logging, messaging), (0, 1));
    assert_eq!(registry.count(), 2);
    assert_eq!(registry.register("logging"), None);
    assert_eq!(registry.plugin("messaging"), Some(1));
    assert_eq!(registry.plugin("presence"), None);
    assert_eq!(registry.name_of(0), Some("logging"));
    assert_eq!(registry.name_of(2), None);

    let mut stanza = Element::new("message", "jabber:client");
    stanza.set_attr("from", "juliet@capulet.lit");
    let mut offered = Vec::new();
    for id in 0..registry.count() {
        offered.push(registry.name_of(id).unwrap().to_owned());
        let events = if id == messaging {
            vec![format!("message from {}", stanza.attr("from").unwrap())]
        } else {
            vec![]
        };
        assert!(registry.handled(id, Ok(events)));
    }
    assert_eq!(offered, vec!["logging", "messaging"]);

    assert_eq!(registry.next_event_of(logging), None);
    assert_eq!(
        registry.next_event_of(messaging),
        Some(String::from("message from juliet@capulet.lit"))
    );
    assert_eq!(registry.next_event_of(messaging), None);
    assert_eq!(registry.next_event(), None);
}

#[test]
fn dispatch_events_keep_their_order() {
    let mut registry: Registry<u32> = Registry::new();
    let a = registry.register("a").unwrap();
    let b = registry.register("b").unwrap();
    assert!(registry.handled(a, Ok(vec![1, 2])));
    assert!(registry.handled(b, Ok(vec![10])));
    assert!(registry.handled(a, Ok(vec![3])));
    assert!(!registry.handled(7, Ok(vec![99])));
    assert_eq!(registry.next_event_of(b), Some(10));
    assert_eq!(registry.next_event(), Some((a, 1)));
    assert_eq!(registry.next_event_of(a), Some(2));
    assert_eq!(registry.next_event(), Some((a, 3)));
    assert_eq!(registry.next_event(), None);
}

#[test]
fn dispatch_a_failing_plugin_is_noted_and_nothing_else() {
    let mut registry: Registry<u32> = Registry::new();
    let a = registry.register("a").unwrap();
    let b = registry.register("b").unwrap();
    assert!(registry.handled(a, Err(String::from("broken"))));
    assert!(registry.handled(b, Ok(vec![5])));
    assert_eq!(registry.next_event(), Some((b, 5)));
    assert_eq!(registry.next_fault(), Some((a, String::from("broken"))));
    assert_eq!(registry.next_fault(), None);
}
