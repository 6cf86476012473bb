//! The namespaces of the payloads that this library reads and writes.

use vstd::prelude::*;

verus! {

/// Explicit message encryption.
pub const EME: &'static str = "urn:xmpp:eme:0";

/// In-band bytestreams.
pub const IBB: &'static str = "http://jabber.org/protocol/ibb";

/// Message archive management.
pub const MAM: &'static str = "urn:xmpp:mam:2";

/// Data forms.
pub const DATA_FORMS: &'static str = "jabber:x:data";

/// Result set management.
pub const RSM: &'static str = "http://jabber.org/protocol/rsm";

/// Stanza forwarding.
pub const FORWARD: &'static str = "urn:xmpp:forward:0";

/// The stream itself: its root and its features.
pub const STREAM: &'static str = "http://etherx.jabber.org/streams";

/// Transport security on a stream.
pub const TLS: &'static str = "urn:ietf:params:xml:ns:xmpp-tls";

/// SASL negotiation on a stream.
pub const SASL: &'static str = "urn:ietf:params:xml:ns:xmpp-sasl";

} // verus!
