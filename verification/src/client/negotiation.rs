//! Negotiation of a stream: from the first open tag, through transport
//! security and authentication, each followed by a restart of the stream, to
//! the point where stanzas may flow.
//!
//! Nothing here reads or writes a stream. `Negotiator::on_event` takes what
//! happened and says what to do next.

use vstd::prelude::*;
use crate::client::{Error, ErrorView};
use crate::element::{Element, ElementView};
use crate::ns;

verus! {

/// What a negotiation is waiting to have done before it can go on.
#[derive(Debug, Clone, Copy, PartialEq, Eq, Structural)]
pub enum Pending {
    /// The upgrade of the transport to TLS.
    Tls,
    /// The authentication of the client.
    Sasl,
}

/// Where a negotiation stands.
#[derive(Debug, Clone, Copy, PartialEq, Eq, Structural)]
pub enum State {
    /// The open tag is sent; the server's features are awaited.
    Connecting,
    /// The features are read, and a step is under way.
    Negotiating { has_tls: bool, has_sasl: bool, pending: Pending },
    /// A step is done and the open tag sent again; fresh features are awaited.
    Restarting { has_tls: bool, has_sasl: bool },
    /// The stream is open for stanzas.
    Ready,
    /// The negotiation has failed, for good.
    Failed,
}

/// What happened on the stream, or to a step that the negotiation asked for.
#[derive(Debug)]
pub enum Event {
    /// A stanza arrived.
    Stanza(Element),
    /// The transport is now under TLS.
    TlsDone,
    /// The transport could not be put under TLS; the message says why.
    TlsFailed(String),
    /// The client is authenticated.
    Authenticated,
    /// The client could not be authenticated.
    AuthFailed(Error),
    /// The stream has ended.
    Disconnected,
}

/// What is to be done next.
#[derive(Debug)]
pub enum Action {
    /// Nothing: wait for the next event.
    Wait,
    /// Send the open tag again: the stream restarts.
    SendOpen,
    /// Upgrade the transport to TLS.
    StartTls,
    /// Authenticate against these features.
    Authenticate(Element),
    /// The stream is open: stanzas flow from now on.
    Established,
    /// Hand this stanza to the plugins.
    Dispatch(Element),
    /// Drop what arrived: the stream is not open yet, or no more.
    Discard,
    /// Give up, for this reason.
    Fail(Error),
}

/// `Event` as a mathematical value.
pub enum EventView {
    Stanza(ElementView),
    TlsDone,
    TlsFailed(Seq<char>),
    Authenticated,
    AuthFailed(ErrorView),
    Disconnected,
}

/// `Action` as a mathematical value.
pub enum ActionView {
    Wait,
    SendOpen,
    StartTls,
    Authenticate(ElementView),
    Established,
    Dispatch(ElementView),
    Discard,
    Fail(ErrorView),
}

impl View for Event {
    type V = EventView;

    open spec fn view(&self) -> EventView {
        match *self {
            Event::Stanza(e) => EventView::Stanza(e@),
            Event::TlsDone => EventView::TlsDone,
            Event::TlsFailed(m) => EventView::TlsFailed(m@),
            Event::Authenticated => EventView::Authenticated,
            Event::AuthFailed(e) => EventView::AuthFailed(e@),
            Event::Disconnected => EventView::Disconnected,
        }
    }
}

impl View for Action {
    type V = ActionView;

    open spec fn view(&self) -> ActionView {
        match *self {
            Action::Wait => ActionView::Wait,
            Action::SendOpen => ActionView::SendOpen,
            Action::StartTls => ActionView::StartTls,
            Action::Authenticate(f) => ActionView::Authenticate(f@),
            Action::Established => ActionView::Established,
            Action::Dispatch(e) => ActionView::Dispatch(e@),
            Action::Discard => ActionView::Discard,
            Action::Fail(e) => ActionView::Fail(e@),
        }
    }
}

/// Whether an element is the features of a stream.
pub open spec fn is_features(e: ElementView) -> bool {
    e.is("features"@, ns::STREAM@)
}

/// Whether features offer transport security.
pub open spec fn offers_tls(features: ElementView) -> bool {
    features.child("starttls"@, ns::TLS@) is Some
}

/// Whether features offer authentication.
pub open spec fn offers_sasl(features: ElementView) -> bool {
    features.child("mechanisms"@, ns::SASL@) is Some
}

/// What fresh features lead to, given what the stream has already: first
/// transport security, where it is offered and not there; then
/// authentication, likewise; else the stream is open.
pub open spec fn decide(has_tls: bool, has_sasl: bool, features: ElementView) -> (
    State,
    ActionView,
) {
    if offers_tls(features) && !has_tls {
        (State::Negotiating { has_tls, has_sasl, pending: Pending::Tls }, ActionView::StartTls)
    } else if offers_sasl(features) && !has_sasl {
        (
            State::Negotiating { has_tls, has_sasl, pending: Pending::Sasl },
            ActionView::Authenticate(features),
        )
    } else {
        (State::Ready, ActionView::Established)
    }
}

/// What a stanza leads to: features are acted on where they are awaited, a
/// stanza is handed on where the stream is open, and dropped anywhere else.
pub open spec fn on_stanza(state: State, e: ElementView) -> (State, ActionView) {
    match state {
        State::Connecting => if is_features(e) {
            decide(false, false, e)
        } else {
            (state, ActionView::Discard)
        },
        State::Restarting { has_tls, has_sasl } => if is_features(e) {
            decide(has_tls, has_sasl, e)
        } else {
            (state, ActionView::Discard)
        },
        State::Ready => (state, ActionView::Dispatch(e)),
        _ => (state, ActionView::Discard),
    }
}

/// The next state and what is to be done, for every state and event. The end
/// of the stream fails every negotiation that has not failed yet. The
/// outcome of a step counts only while that step is under way.
pub open spec fn next(state: State, event: EventView) -> (State, ActionView) {
    match event {
        EventView::Stanza(e) => on_stanza(state, e),
        EventView::Disconnected => if state is Failed {
            (state, ActionView::Wait)
        } else {
            (State::Failed, ActionView::Fail(ErrorView::Disconnected))
        },
        EventView::TlsDone => match state {
            State::Negotiating { has_tls, has_sasl, pending: Pending::Tls } => (
                State::Restarting { has_tls: true, has_sasl },
                ActionView::SendOpen,
            ),
            _ => (state, ActionView::Wait),
        },
        EventView::TlsFailed(why) => match state {
            State::Negotiating { has_tls, has_sasl, pending: Pending::Tls } => (
                State::Failed,
                ActionView::Fail(ErrorView::Tls(why)),
            ),
            _ => (state, ActionView::Wait),
        },
        EventView::Authenticated => match state {
            State::Negotiating { has_tls, has_sasl, pending: Pending::Sasl } => (
                State::Restarting { has_tls, has_sasl: true },
                ActionView::SendOpen,
            ),
            _ => (state, ActionView::Wait),
        },
        EventView::AuthFailed(why) => match state {
            State::Negotiating { has_tls, has_sasl, pending: Pending::Sasl } => (
                State::Failed,
                ActionView::Fail(why),
            ),
            _ => (state, ActionView::Wait),
        },
    }
}

/// The state after a run of events.
pub open spec fn run(state: State, events: Seq<EventView>) -> State
    decreases events.len(),
{
    if events.len() == 0 {
        state
    } else {
        next(run(state, events.drop_last()), events.last()).0
    }
}

/// The number of restarts that a run of events asks for.
pub open spec fn restarts(state: State, events: Seq<EventView>) -> nat
    decreases events.len(),
{
    if events.len() == 0 {
        0
    } else {
        let before = restarts(state, events.drop_last());
        if next(run(state, events.drop_last()), events.last()).1 is SendOpen {
            before + 1
        } else {
            before
        }
    }
}

/// A negotiation of one stream.
#[derive(Debug)]
pub struct Negotiator {
    state: State,
}

impl Negotiator {
    /// Where the negotiation stands.
    pub closed spec fn state_spec(&self) -> State {
        self.state
    }

    /// A negotiation that begins: the caller sends the open tag, and hands
    /// over what arrives.
    pub fn new() -> (r: Negotiator)
        ensures
            r.state_spec() == State::Connecting,
    {
        Negotiator { state: State::Connecting }
    }

    /// Where the negotiation stands.
    pub fn state(&self) -> (r: State)
        ensures
            r == self.state_spec(),
    {
        self.state
    }

    /// Whether stanzas may flow.
    pub fn is_ready(&self) -> (r: bool)
        ensures
            r == (self.state_spec() is Ready),
    {
        match self.state {
            State::Ready => true,
            _ => false,
        }
    }

    fn decide(&mut self, has_tls: bool, has_sasl: bool, features: Element) -> (r: Action)
        ensures
            (final(self).state_spec(), r@) == decide(has_tls, has_sasl, features@),
    {
        if !has_tls && features.get_child("starttls", ns::TLS).is_some() {
            self.state = State::Negotiating { has_tls, has_sasl, pending: Pending::Tls };
            Action::StartTls
        } else if !has_sasl && features.get_child("mechanisms", ns::SASL).is_some() {
            self.state = State::Negotiating { has_tls, has_sasl, pending: Pending::Sasl };
            Action::Authenticate(features)
        } else {
            self.state = State::Ready;
            Action::Established
        }
    }

    /// Takes what happened and says what to do next.
    pub fn on_event(&mut self, event: Event) -> (r: Action)
        ensures
            (final(self).state_spec(), r@) == next(old(self).state_spec(), event@),
    {
        match event {
            Event::Stanza(e) => match self.state {
                State::Connecting => if e.is("features", ns::STREAM) {
                    self.decide(false, false, e)
                } else {
                    Action::Discard
                },
                State::Restarting { has_tls, has_sasl } => if e.is("features", ns::STREAM) {
                    self.decide(has_tls, has_sasl, e)
                } else {
                    Action::Discard
                },
                State::Ready => Action::Dispatch(e),
                _ => Action::Discard,
            },
            Event::Disconnected => match self.state {
                State::Failed => Action::Wait,
                _ => {
                    self.state = State::Failed;
                    Action::Fail(Error::Disconnected)
                },
            },
            Event::TlsDone => match self.state {
                State::Negotiating { has_tls, has_sasl, pending: Pending::Tls } => {
                    self.state = State::Restarting { has_tls: true, has_sasl };
                    Action::SendOpen
                },
                _ => Action::Wait,
            },
            Event::TlsFailed(why) => match self.state {
                State::Negotiating { has_tls, has_sasl, pending: Pending::Tls } => {
                    self.state = State::Failed;
                    Action::Fail(Error::Tls(why))
                },
                _ => Action::Wait,
            },
            Event::Authenticated => match self.state {
                State::Negotiating { has_tls, has_sasl, pending: Pending::Sasl } => {
                    self.state = State::Restarting { has_tls, has_sasl: true };
                    Action::SendOpen
                },
                _ => Action::Wait,
            },
            Event::AuthFailed(why) => match self.state {
                State::Negotiating { has_tls, has_sasl, pending: Pending::Sasl } => {
                    self.state = State::Failed;
                    Action::Fail(why)
                },
                _ => Action::Wait,
            },
        }
    }
}

/// A stanza is handed to the plugins only where the stream is open.
pub proof fn lemma_dispatch_only_when_ready(state: State, event: EventView)
    ensures
        next(state, event).1 is Dispatch ==> state is Ready,
{
}

/// The stream opens only on fresh features: from a state that awaits them.
pub proof fn lemma_ready_only_on_features(state: State, event: EventView)
    requires
        !(state is Ready),
        next(state, event).0 is Ready,
    ensures
        state is Connecting || state is Restarting,
        event matches EventView::Stanza(e) && is_features(e),
{
}

/// A successful authentication restarts the stream, whatever else is so.
pub proof fn lemma_success_restarts(has_tls: bool, has_sasl: bool)
    ensures
        next(
            State::Negotiating { has_tls, has_sasl, pending: Pending::Sasl },
            EventView::Authenticated,
        ) == (State::Restarting { has_tls, has_sasl: true }, ActionView::SendOpen),
{
}

/// Failed and open are for good, but for the end of the stream, which fails
/// an open one.
pub proof fn lemma_terminal(state: State, event: EventView)
    ensures
        state is Failed ==> next(state, event).0 is Failed,
        state is Ready ==> next(state, event).0 is Ready || next(state, event).0 is Failed,
{
}

/// Whether an event is fresh features that offer transport security.
pub open spec fn offers_tls_anew(event: EventView) -> bool {
    event matches EventView::Stanza(e) && is_features(e) && offers_tls(e)
}

/// Whether a negotiation is past its authentication: it awaits fresh
/// features after it, is open, or has failed.
pub open spec fn settled(state: State) -> bool {
    state matches State::Restarting { has_sasl: true, .. } || state is Ready || state is Failed
}

/// A settled negotiation stays settled, and asks for no restart, unless it
/// lacks transport security and is now offered it.
pub proof fn lemma_settled_step(state: State, event: EventView)
    requires
        settled(state),
        state matches State::Restarting { has_tls: false, .. } ==> !offers_tls_anew(event),
    ensures
        settled(next(state, event).0),
        !(next(state, event).1 is SendOpen),
{
}

/// Between a successful authentication and the opening of the stream lies
/// exactly one restart: after the success the negotiation awaits fresh
/// features, is open, or has failed, and has asked for one restart, whatever
/// else happened. This is so where the stream has transport security, or the
/// server offers none after the success; a server that offers it only then
/// is obeyed, and the stream restarts once more.
pub proof fn lemma_one_restart_after_success(
    has_tls: bool,
    has_sasl: bool,
    events: Seq<EventView>,
)
    requires
        events.len() > 0,
        events[0] is Authenticated,
        has_tls || forall|i: int| 0 <= i < events.len() ==> !offers_tls_anew(#[trigger] events[i]),
    ensures
        settled(run(State::Negotiating { has_tls, has_sasl, pending: Pending::Sasl }, events)),
        run(State::Negotiating { has_tls, has_sasl, pending: Pending::Sasl }, events)
            matches State::Restarting { has_tls: again, .. } ==> again == has_tls,
        restarts(State::Negotiating { has_tls, has_sasl, pending: Pending::Sasl }, events) == 1,
    decreases events.len(),
{
    let start = State::Negotiating { has_tls, has_sasl, pending: Pending::Sasl };
    let before = events.drop_last();
    if events.len() == 1 {
        assert(before =~= Seq::<EventView>::empty());
        assert(run(start, before) == start);
        assert(restarts(start, before) == 0);
        assert(events.last() == events[0]);
        lemma_success_restarts(has_tls, has_sasl);
    } else {
        assert(before[0] == events[0]);
        assert forall|i: int| 0 <= i < before.len() implies before[i] == events[i] by {}
        lemma_one_restart_after_success(has_tls, has_sasl, before);
        assert(events.last() == events[events.len() - 1]);
        lemma_settled_step(run(start, before), events.last());
    }
}

} // verus!
