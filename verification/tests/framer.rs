use xmpp_client::error::Error;
use xmpp_client::framer::{Frame, FrameKind, Framer};

const OPEN: &str = "<stream:stream xmlns='jabber:client' xmlns:stream='http://etherx.jabber.org/streams' version='1.0'>";
const FEATURES: &str = "<stream:features><mechanisms xmlns='urn:ietf:params:xml:ns:xmpp-sasl'><mechanism>PLAIN</mechanism></mechanisms></stream:features>";
const MESSAGE: &str = "<message to='a>b' from=\"c'<d/>\"><body>x &lt; y</body><x/></message>";

fn frame(kind: FrameKind, text: &str) -> Frame {
    Frame { kind, bytes: text.as_bytes().to_vec() }
}

fn whole_stream() -> String {
    format!("<?xml version='1.0'?>\n{OPEN}{FEATURES} {MESSAGE}<presence/></stream:stream>")
}

fn expected() -> Vec<Frame> {
    vec![
        frame(FrameKind::StreamOpen, OPEN),
        frame(FrameKind::Stanza, FEATURES),
        frame(FrameKind::Text, " "),
        frame(FrameKind::Stanza, MESSAGE),
        frame(FrameKind::Stanza, "<presence/>"),
        frame(FrameKind::StreamClose, "</stream:stream>"),
    ]
}

#[test]
fn framer_cuts_a_stream_into_frames() {
    let mut framer = Framer::new();
    framer.feed(whole_stream().as_bytes());
    let (frames, error) = framer.drain();
    assert!(error.is_none());
    assert_eq!(frames, expected());
    assert_eq!(framer.buffered_len(), 0);
    assert!(!framer.is_inside());
}

#[test]
fn framer_frames_do_not_depend_on_the_chunks() {
    let text = whole_stream();
    let bytes = text.as_bytes();
    for size in [1usize, 2, 3, 5, 7, 16, 64] {
        let mut framer = Framer::new();
        let mut frames = Vec::new();
        for chunk in bytes.chunks(size) {
            framer.feed(chunk);
            let (mut some, error) = framer.drain();
            assert!(error.is_none());
            frames.append(&mut some);
        }
        assert_eq!(frames, expected());
    }
}

#[test]
fn framer_waits_for_the_rest_of_a_frame() {
    let mut framer = Framer::new();
    framer.feed(OPEN.as_bytes());
    assert_eq!(framer.next().unwrap(), Some(frame(FrameKind::StreamOpen, OPEN)));
    assert!(framer.is_inside());
    framer.feed(b"<message><body>");
    assert_eq!(framer.next().unwrap(), None);
    assert_eq!(framer.buffered_len(), 15);
    framer.feed(b"hi</body></mess");
    assert_eq!(framer.next().unwrap(), None);
    framer.feed(b"age> ");
    assert_eq!(
        framer.next().unwrap(),
        Some(frame(FrameKind::Stanza, "<message><body>hi</body></message>"))
    );
    assert_eq!(framer.next().unwrap(), None);
    assert_eq!(framer.buffered_len(), 1);
    framer.feed(b"\n<");
    assert_eq!(framer.next().unwrap(), Some(frame(FrameKind::Text, " \n")));
    assert_eq!(framer.next().unwrap(), None);
}

#[test]
fn framer_restart_keeps_the_bytes_of_the_next_stream() {
    let mut framer = Framer::new();
    framer.feed(OPEN.as_bytes());
    framer.next().unwrap();
    let success = "<success xmlns='urn:ietf:params:xml:ns:xmpp-sasl'/>";
    framer.feed(format!("{success}{OPEN}{FEATURES}").as_bytes());
    assert_eq!(framer.next().unwrap(), Some(frame(FrameKind::Stanza, success)));
    let held = framer.buffered_len();
    assert_eq!(held, OPEN.len() + FEATURES.len());
    framer.restart();
    assert_eq!(framer.buffered_len(), held);
    assert!(!framer.is_inside());
    assert_eq!(framer.next().unwrap(), Some(frame(FrameKind::StreamOpen, OPEN)));
    assert_eq!(framer.next().unwrap(), Some(frame(FrameKind::Stanza, FEATURES)));
    assert_eq!(framer.next().unwrap(), None);
}

#[test]
fn framer_flaws() {
    let cases: [(&str, bool, &str); 6] = [
        ("<a <b>", true, "A '<' stands inside a tag."),
        ("<>", true, "A tag is empty."),
        ("<!-- no -->", true, "Markup that a stream may not hold."),
        ("<?xml version='1.0'?>", true, "Markup that a stream may not hold."),
        ("</stream:stream>", false, "A tag closes what was not opened."),
        ("<stream:stream/>", false, "A tag closes what was not opened."),
    ];
    for (text, inside, expected) in cases {
        let mut framer = Framer::new();
        if inside {
            framer.feed(OPEN.as_bytes());
            framer.next().unwrap();
        }
        framer.feed(text.as_bytes());
        match framer.next() {
            Err(Error::ParseError(message)) => assert_eq!(message, expected),
            _ => panic!(),
        }
        assert_eq!(framer.buffered_len(), text.len());
        let (frames, error) = framer.drain();
        assert!(frames.is_empty());
        assert!(matches!(error, Some(Error::ParseError(_))));
    }
    let mut framer = Framer::new();
    framer.feed(OPEN.as_bytes());
    framer.next().unwrap();
    framer.feed(b"<a><b><!x></b></a>");
    assert!(framer.next().is_err());
}

#[test]
fn framer_open_tag_as_a_document() {
    let open = Frame { kind: FrameKind::StreamOpen, bytes: b"<stream:stream to='a'>".to_vec() };
    assert_eq!(open.document(), b"<stream:stream to='a'/>".to_vec());
    let stanza = Frame { kind: FrameKind::Stanza, bytes: b"<iq/>".to_vec() };
    assert_eq!(stanza.document(), b"<iq/>".to_vec());
    let nothing = Frame { kind: FrameKind::StreamOpen, bytes: Vec::new() };
    assert_eq!(nothing.document(), Vec::<u8>::new());
}
