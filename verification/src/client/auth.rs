//! Authentication on a stream: choosing a mechanism from what the server
//! offers, and the exchange of challenges and answers that follows.
//!
//! Nothing here reads or writes a stream. `ClientAuth::new` gives the element
//! to send first; `ClientAuth::handle_challenge` takes what arrived and says
//! what to send next, or how the exchange ended.

use vstd::prelude::*;
use crate::client::mechanism::{
    plain_initial, plain_message, scram_sha1_initial, scram_sha1_new, scram_sha256_initial,
    scram_sha256_new, Exchange,
};
use crate::client::{AuthError, AuthErrorView, Error, ErrorView, Packet, PacketView};
use crate::element::{Element, ElementView};
use crate::encoding::base64_encoded;
use crate::ns;
use crate::sasl::{
    auth_element, challenge_spec, failure_spec, response_element, success_spec, Auth, Challenge,
    Failure, Mechanism, Response, Success,
};
use crate::text::same_text;

verus! {

/// What a client authenticates with. It has no form for printing, so that
/// no password finds its way into a log.
pub struct Credentials {
    pub username: String,
    pub password: String,
}

/// An authentication that waits for the server's next word.
pub struct ClientAuth {
    exchange: Exchange,
}

/// How one step of an authentication ended.
pub enum Outcome {
    /// The exchange goes on: send `send`, if there is something, and hand
    /// the next packet to `auth`.
    Pending { auth: ClientAuth, send: Option<Element> },
    /// The server has authenticated the client. The stream must now be
    /// restarted; nothing is left of the exchange.
    Success,
    /// The attempt is over; nothing is left of the exchange.
    Failure(Error),
}

/// What a packet means to an authentication that waits for the server.
pub enum Verdict {
    /// The stream has ended.
    Disconnected,
    /// The server challenges the client with these bytes.
    Challenge(Seq<u8>),
    /// The server has authenticated the client.
    Succeeded,
    /// The server has turned the client down.
    Rejected(AuthErrorView),
    /// The packet is none of the exchange's business.
    Ignored,
}

/// The texts of a list of strings.
pub open spec fn names_view(v: Seq<String>) -> Seq<Seq<char>> {
    Seq::new(v.len(), |i: int| v[i]@)
}

/// The texts of the `mechanism` elements of a list, in order.
pub open spec fn mechanism_names(items: Seq<ElementView>) -> Seq<Seq<char>>
    decreases items.len(),
{
    if items.len() == 0 {
        Seq::empty()
    } else if items.last().is("mechanism"@, ns::SASL@) {
        mechanism_names(items.drop_last()).push(items.last().text())
    } else {
        mechanism_names(items.drop_last())
    }
}

/// The mechanisms that a server's features offer: those that its first
/// `mechanisms` element lists. Nothing where there is no such element.
pub open spec fn offered_spec(features: ElementView) -> Option<Seq<Seq<char>>> {
    match features.child("mechanisms"@, ns::SASL@) {
        None => None,
        Some(list) => Some(mechanism_names(list.elements())),
    }
}

/// The first mechanism of the client's list that the server offers.
pub open spec fn select_spec(priority: Seq<Mechanism>, offered: Seq<Seq<char>>) -> Option<
    Mechanism,
>
    decreases priority.len(),
{
    if priority.len() == 0 {
        None
    } else if offered.contains(priority[0].name_spec()) {
        Some(priority[0])
    } else {
        select_spec(priority.drop_first(), offered)
    }
}

/// The mechanism that a client with the list `priority` authenticates with
/// on a stream with these features, if there is one.
pub open spec fn choice_spec(features: ElementView, priority: Seq<Mechanism>) -> Option<Mechanism> {
    match offered_spec(features) {
        None => None,
        Some(offered) => select_spec(priority, offered),
    }
}

/// The mechanisms of a client that was told nothing else, strongest first.
pub open spec fn default_priority() -> Seq<Mechanism> {
    seq![Mechanism::ScramSha256, Mechanism::ScramSha1, Mechanism::Plain, Mechanism::Anonymous]
}

/// What a stanza means to an authentication that waits for the server. An
/// element named `failure` that is no proper failure of the SASL namespace
/// still ends the attempt.
pub open spec fn stanza_verdict(e: ElementView) -> Verdict {
    if challenge_spec(e) is Ok {
        Verdict::Challenge(challenge_spec(e)->Ok_0)
    } else if success_spec(e) is Ok {
        Verdict::Succeeded
    } else if failure_spec(e) is Ok {
        Verdict::Rejected(AuthErrorView::Fail(failure_spec(e)->Ok_0))
    } else if e.name == "failure"@ {
        Verdict::Rejected(AuthErrorView::Sasl("failure"@))
    } else {
        Verdict::Ignored
    }
}

/// What a packet, or the end of the stream, means to an authentication that
/// waits for the server.
pub open spec fn verdict(packet: Option<PacketView>) -> Verdict {
    match packet {
        None => Verdict::Disconnected,
        Some(PacketView::Stanza(e)) => stanza_verdict(e),
        Some(_) => Verdict::Ignored,
    }
}

/// A packet, or the end of the stream, as a mathematical value.
pub open spec fn packet_view(packet: Option<Packet>) -> Option<PacketView> {
    match packet {
        None => None,
        Some(p) => Some(p@),
    }
}

/// The server's selection is the same whatever order it lists its
/// mechanisms in, and however often it lists one.
pub proof fn lemma_select_ignores_order(
    priority: Seq<Mechanism>,
    offered1: Seq<Seq<char>>,
    offered2: Seq<Seq<char>>,
)
    requires
        forall|name: Seq<char>| offered1.contains(name) == offered2.contains(name),
    ensures
        select_spec(priority, offered1) == select_spec(priority, offered2),
    decreases priority.len(),
{
    if priority.len() > 0 {
        lemma_select_ignores_order(priority.drop_first(), offered1, offered2);
    }
}

/// What is selected is on the client's list and among what the server
/// offers, and nothing before it on the list is offered.
pub proof fn lemma_select_is_first(priority: Seq<Mechanism>, offered: Seq<Seq<char>>)
    ensures
        match select_spec(priority, offered) {
            Some(m) => exists|i: int|
                0 <= i < priority.len() && priority[i] == m && offered.contains(m.name_spec())
                    && forall|j: int|
                    0 <= j < i ==> !offered.contains(#[trigger] priority[j].name_spec()),
            None => forall|i: int|
                0 <= i < priority.len() ==> !offered.contains(#[trigger] priority[i].name_spec()),
        },
    decreases priority.len(),
{
    if priority.len() > 0 {
        let rest = priority.drop_first();
        lemma_select_is_first(rest, offered);
        if !offered.contains(priority[0].name_spec()) {
            match select_spec(rest, offered) {
                Some(m) => {
                    let i = choose|i: int|
                        0 <= i < rest.len() && rest[i] == m && offered.contains(m.name_spec())
                            && forall|j: int|
                            0 <= j < i ==> !offered.contains(#[trigger] rest[j].name_spec());
                    assert forall|j: int| 0 <= j < i + 1 implies !offered.contains(
                        #[trigger] priority[j].name_spec(),
                    ) by {
                        if j > 0 {
                            assert(priority[j] == rest[j - 1]);
                        }
                    }
                    assert(priority[i + 1] == m);
                },
                None => {
                    assert forall|i: int| 0 <= i < priority.len() implies !offered.contains(
                        #[trigger] priority[i].name_spec(),
                    ) by {
                        if i > 0 {
                            assert(priority[i] == rest[i - 1]);
                        }
                    }
                },
            }
        }
    }
}

/// An element named `failure` always ends the attempt, in the SASL namespace
/// or out of it.
pub proof fn lemma_failure_ends(e: ElementView)
    requires
        e.name == "failure"@,
    ensures
        stanza_verdict(e) is Rejected,
{
    reveal_strlit("failure");
    reveal_strlit("challenge");
    reveal_strlit("success");
    assert("failure"@.len() == 7);
    assert("challenge"@.len() == 9);
    assert("success"@[0] == 's');
    assert("failure"@[0] == 'f');
}

/// Only a success of the SASL namespace authenticates.
pub proof fn lemma_success_only(e: ElementView)
    ensures
        stanza_verdict(e) is Succeeded ==> e.is("success"@, ns::SASL@),
{
}

fn offers(offered: &Vec<String>, name: &str) -> (r: bool)
    ensures
        r == names_view(offered@).contains(name@),
{
    let mut i: usize = 0;
    while i < offered.len()
        invariant
            i <= offered.len(),
            forall|j: int| 0 <= j < i ==> names_view(offered@)[j] != name@,
        decreases offered.len() - i,
    {
        if same_text(offered[i].as_str(), name) {
            assert(names_view(offered@)[i as int] == name@);
            return true;
        }
        i = i + 1;
    }
    false
}

/// The mechanisms that a server's features offer.
pub fn offered_mechanisms(features: &Element) -> (r: Option<Vec<String>>)
    ensures
        match r {
            Some(names) => offered_spec(features@) == Some(names_view(names@)),
            None => offered_spec(features@) is None,
        },
{
    let list = match features.get_child("mechanisms", ns::SASL) {
        None => {
            return None;
        },
        Some(list) => list,
    };
    let items = list.children();
    let ghost inner = list@.elements();
    let mut names: Vec<String> = Vec::new();
    let mut k: usize = 0;
    assert(names_view(names@) =~= mechanism_names(inner.take(0)));
    while k < items.len()
        invariant
            k <= items.len(),
            items@.len() == inner.len(),
            forall|j: int| 0 <= j < items@.len() ==> items@[j]@ == inner[j],
            names_view(names@) == mechanism_names(inner.take(k as int)),
        decreases items.len() - k,
    {
        proof {
            assert(inner.take(k + 1).drop_last() =~= inner.take(k as int));
            assert(inner.take(k + 1).last() == inner[k as int]);
            assert(items@[k as int]@ == inner[k as int]);
        }
        if items[k].is("mechanism", ns::SASL) {
            let ghost before = names_view(names@);
            let text = items[k].text();
            names.push(text);
            assert(names_view(names@) =~= before.push(inner[k as int].text()));
        }
        k = k + 1;
    }
    assert(inner.take(items.len() as int) =~= inner);
    Some(names)
}

/// The first mechanism of `priority` that is among `offered`.
pub fn select_mechanism(priority: &Vec<Mechanism>, offered: &Vec<String>) -> (r: Option<Mechanism>)
    ensures
        r == select_spec(priority@, names_view(offered@)),
{
    let ghost names = names_view(offered@);
    let mut i: usize = 0;
    assert(priority@.skip(0) =~= priority@);
    while i < priority.len()
        invariant
            i <= priority.len(),
            names == names_view(offered@),
            select_spec(priority@, names) == select_spec(priority@.skip(i as int), names),
        decreases priority.len() - i,
    {
        proof {
            assert(priority@.skip(i as int).drop_first() =~= priority@.skip(i + 1));
            assert(priority@.skip(i as int)[0] == priority@[i as int]);
        }
        if offers(offered, priority[i].name()) {
            return Some(priority[i]);
        }
        i = i + 1;
    }
    None
}

/// The mechanisms of a client that was told nothing else, strongest first.
pub fn default_mechanisms() -> (r: Vec<Mechanism>)
    ensures
        r@ == default_priority(),
{
    let mut list: Vec<Mechanism> = Vec::new();
    list.push(Mechanism::ScramSha256);
    list.push(Mechanism::ScramSha1);
    list.push(Mechanism::Plain);
    list.push(Mechanism::Anonymous);
    assert(list@ =~= default_priority());
    list
}

impl ClientAuth {
    /// The mechanism that the exchange is of.
    pub closed spec fn mechanism(&self) -> Mechanism {
        self.exchange.mechanism()
    }

    /// Whether the mechanism keeps something between its messages. Those
    /// that do not answer every challenge with an empty message.
    pub open spec fn keeps_state(&self) -> bool {
        self.mechanism() == Mechanism::ScramSha256 || self.mechanism() == Mechanism::ScramSha1
    }

    /// The mechanism that the exchange is of.
    pub fn chosen(&self) -> (r: Mechanism)
        ensures
            r == self.mechanism(),
    {
        match &self.exchange {
            Exchange::ScramSha256(_) => Mechanism::ScramSha256,
            Exchange::ScramSha1(_) => Mechanism::ScramSha1,
            Exchange::Plain => Mechanism::Plain,
            Exchange::Anonymous => Mechanism::Anonymous,
        }
    }

    /// Starts an exchange from the mechanism's first message: the element to
    /// send is the request to authenticate with that message.
    pub fn begin(exchange: Exchange, initial: Vec<u8>) -> (r: (ClientAuth, Element))
        ensures
            r.0.mechanism() == exchange.mechanism(),
            r.1@ == auth_element(exchange.mechanism(), base64_encoded(initial@)),
    {
        let mechanism = match &exchange {
            Exchange::ScramSha256(_) => Mechanism::ScramSha256,
            Exchange::ScramSha1(_) => Mechanism::ScramSha1,
            Exchange::Plain => Mechanism::Plain,
            Exchange::Anonymous => Mechanism::Anonymous,
        };
        let first = Auth { mechanism, data: initial }.into();
        (ClientAuth { exchange }, first)
    }

    /// Chooses a mechanism from what the server's features offer, by the
    /// client's list `priority`, and starts the exchange with it. Where the
    /// server offers none of the list, there is no attempt at all. A SCRAM
    /// exchange needs a random nonce, and fails where none can be drawn.
    pub fn with_mechanisms(
        stream_features: &Element,
        creds: Credentials,
        priority: &Vec<Mechanism>,
    ) -> (r: Result<(ClientAuth, Element), Error>)
        ensures
            match r {
                Ok((auth, first)) => {
                    &&& choice_spec(stream_features@, priority@) == Some(auth.mechanism())
                    &&& exists|data: Seq<u8>|
                        first@ == auth_element(auth.mechanism(), #[trigger] base64_encoded(data))
                    &&& auth.mechanism() == Mechanism::Plain ==> first@ == auth_element(
                        Mechanism::Plain,
                        base64_encoded(plain_message(creds.username@, creds.password@)),
                    )
                    &&& auth.mechanism() == Mechanism::Anonymous ==> first@ == auth_element(
                        Mechanism::Anonymous,
                        base64_encoded(Seq::empty()),
                    )
                },
                Err(e) => match choice_spec(stream_features@, priority@) {
                    None => e@ == ErrorView::Auth(AuthErrorView::NoMechanism),
                    Some(m) => (m == Mechanism::ScramSha256 || m == Mechanism::ScramSha1) && e@
                        == ErrorView::Auth(AuthErrorView::Sasl("can't generate nonce"@)),
                },
            },
    {
        let offered = match offered_mechanisms(stream_features) {
            None => {
                return Err(Error::Auth(AuthError::NoMechanism));
            },
            Some(names) => names,
        };
        let mechanism = match select_mechanism(priority, &offered) {
            None => {
                return Err(Error::Auth(AuthError::NoMechanism));
            },
            Some(m) => m,
        };
        let started = match mechanism {
            Mechanism::ScramSha256 => match scram_sha256_new(
                creds.username.as_str(),
                creds.password.as_str(),
            ) {
                None => None,
                Some(mut exchange) => {
                    let initial = scram_sha256_initial(&mut exchange);
                    Some((Exchange::ScramSha256(exchange), initial))
                },
            },
            Mechanism::ScramSha1 => match scram_sha1_new(
                creds.username.as_str(),
                creds.password.as_str(),
            ) {
                None => None,
                Some(mut exchange) => {
                    let initial = scram_sha1_initial(&mut exchange);
                    Some((Exchange::ScramSha1(exchange), initial))
                },
            },
            Mechanism::Plain => Some(
                (Exchange::Plain, plain_initial(creds.username.as_str(), creds.password.as_str())),
            ),
            Mechanism::Anonymous => Some((Exchange::Anonymous, Vec::new())),
        };
        match started {
            None => Err(Error::Auth(AuthError::Sasl("can't generate nonce".to_owned()))),
            Some((exchange, initial)) => {
                let ghost data = initial@;
                let r = ClientAuth::begin(exchange, initial);
                assert(r.1@ == auth_element(r.0.mechanism(), base64_encoded(data)));
                Ok(r)
            },
        }
    }

    /// Chooses a mechanism from what the server's features offer, by the
    /// default list, and starts the exchange with it.
    pub fn new(stream_features: &Element, creds: Credentials) -> (r: Result<
        (ClientAuth, Element),
        Error,
    >)
        ensures
            match r {
                Ok((auth, first)) => {
                    &&& choice_spec(stream_features@, default_priority()) == Some(auth.mechanism())
                    &&& exists|data: Seq<u8>|
                        first@ == auth_element(auth.mechanism(), #[trigger] base64_encoded(data))
                    &&& auth.mechanism() == Mechanism::Plain ==> first@ == auth_element(
                        Mechanism::Plain,
                        base64_encoded(plain_message(creds.username@, creds.password@)),
                    )
                    &&& auth.mechanism() == Mechanism::Anonymous ==> first@ == auth_element(
                        Mechanism::Anonymous,
                        base64_encoded(Seq::empty()),
                    )
                },
                Err(e) => match choice_spec(stream_features@, default_priority()) {
                    None => e@ == ErrorView::Auth(AuthErrorView::NoMechanism),
                    Some(m) => (m == Mechanism::ScramSha256 || m == Mechanism::ScramSha1) && e@
                        == ErrorView::Auth(AuthErrorView::Sasl("can't generate nonce"@)),
                },
            },
    {
        let priority = default_mechanisms();
        ClientAuth::with_mechanisms(stream_features, creds, &priority)
    }

    /// Goes on after the mechanism has been asked for its answer to a
    /// challenge: an answer is sent on, and the exchange waits again; a
    /// mechanism that cannot answer ends the attempt.
    pub fn answer(self, response: Result<Vec<u8>, String>) -> (r: Outcome)
        ensures
            match response {
                Ok(data) => r matches Outcome::Pending { auth, send: Some(element) }
                    && auth.mechanism() == self.mechanism() && auth.keeps_state()
                    == self.keeps_state() && element@ == response_element(base64_encoded(data@)),
                Err(why) => r matches Outcome::Failure(e) && e@ == ErrorView::Auth(
                    AuthErrorView::Sasl(why@),
                ),
            },
    {
        match response {
            Ok(data) => {
                let element = Response { data }.into();
                Outcome::Pending { auth: self, send: Some(element) }
            },
            Err(why) => Outcome::Failure(Error::Auth(AuthError::Sasl(why))),
        }
    }

    /// Takes the next packet from the server, or the end of the stream, and
    /// says how the exchange goes on. A challenge is answered; a success ends
    /// the exchange well; a failure, proper or not, ends it badly, and so does
    /// the end of the stream; anything else is passed over.
    pub fn handle_challenge(self, packet: Option<Packet>) -> (r: Outcome)
        ensures
            match verdict(packet_view(packet)) {
                Verdict::Disconnected => r matches Outcome::Failure(e) && e@
                    == ErrorView::Disconnected,
                Verdict::Succeeded => r is Success,
                Verdict::Rejected(why) => r matches Outcome::Failure(e) && e@ == ErrorView::Auth(
                    why,
                ),
                Verdict::Ignored => r matches Outcome::Pending { auth, send: None }
                    && auth.mechanism() == self.mechanism() && auth.keeps_state()
                    == self.keeps_state(),
                Verdict::Challenge(data) => {
                    ||| {
                        &&& r matches Outcome::Pending { auth, send: Some(element) }
                        &&& auth.mechanism() == self.mechanism()
                        &&& auth.keeps_state() == self.keeps_state()
                        &&& exists|answer: Seq<u8>|
                            element@ == response_element(#[trigger] base64_encoded(answer))
                        &&& !self.keeps_state() ==> element@ == response_element(
                            base64_encoded(Seq::empty()),
                        )
                    }
                    ||| {
                        &&& self.keeps_state()
                        &&& r matches Outcome::Failure(e)
                        &&& e@ matches ErrorView::Auth(AuthErrorView::Sasl(_))
                    }
                },
            },
    {
        let stanza = match packet {
            None => {
                return Outcome::Failure(Error::Disconnected);
            },
            Some(Packet::Stanza(stanza)) => stanza,
            Some(_) => {
                return Outcome::Pending { auth: self, send: None };
            },
        };
        match Challenge::try_from(stanza.duplicate()) {
            Ok(challenge) => {
                let mut auth = self;
                let response = auth.exchange.response(challenge.data.as_slice());
                let ghost sent = response;
                let r = auth.answer(response);
                proof {
                    match sent {
                        Ok(data) => {
                            assert(r matches Outcome::Pending { auth, send: Some(element) }
                                && element@ == response_element(base64_encoded(data@)));
                            if !self.keeps_state() {
                                assert(data@ =~= Seq::<u8>::empty());
                            }
                        },
                        Err(_) => {},
                    }
                }
                return r;
            },
            Err(_) => {},
        }
        match Success::try_from(stanza.duplicate()) {
            Ok(_) => {
                return Outcome::Success;
            },
            Err(_) => {},
        }
        match Failure::try_from(stanza.duplicate()) {
            Ok(failure) => {
                return Outcome::Failure(Error::Auth(AuthError::Fail(failure.defined_condition)));
            },
            Err(_) => {},
        }
        if same_text(stanza.name(), "failure") {
            return Outcome::Failure(Error::Auth(AuthError::Sasl("failure".to_owned())));
        }
        Outcome::Pending { auth: self, send: None }
    }
}

} // verus!
