//! The client's side of a stream: what arrives on it, what can go wrong, and
//! how a client authenticates.

use vstd::prelude::*;
use crate::element::{attrs_view, Element, ElementView};
use crate::sasl::DefinedCondition;

pub mod auth;
pub mod dispatch;
pub mod mechanism;
pub mod negotiation;

verus! {

/// One unit of what a stream carries.
#[derive(Debug)]
pub enum Packet {
    /// The tag that opens the stream, with its attributes.
    StreamOpen(Vec<(String, String)>),
    /// A complete child of the stream's root.
    Stanza(Element),
    /// Text between the children of the stream's root.
    Text(String),
    /// The tag that closes the stream.
    StreamClose,
}

/// A packet as a mathematical value.
pub enum PacketView {
    StreamOpen(Map<Seq<char>, Seq<char>>),
    Stanza(ElementView),
    Text(Seq<char>),
    StreamClose,
}

impl View for Packet {
    type V = PacketView;

    open spec fn view(&self) -> PacketView {
        match *self {
            Packet::StreamOpen(attrs) => PacketView::StreamOpen(attrs_view(attrs@)),
            Packet::Stanza(e) => PacketView::Stanza(e@),
            Packet::Text(t) => PacketView::Text(t@),
            Packet::StreamClose => PacketView::StreamClose,
        }
    }
}

/// Why an authentication did not go through.
#[derive(Debug)]
pub enum AuthError {
    /// The server offers no mechanism that the client has.
    NoMechanism,
    /// The mechanism could not go on; the message says why.
    Sasl(String),
    /// The server turned the client down, for the reason it gave.
    Fail(DefinedCondition),
}

/// Why a stream cannot go on.
#[derive(Debug)]
pub enum Error {
    /// The transport failed; the message says how.
    Io(String),
    /// Transport security could not be set up; the message says why.
    Tls(String),
    /// Authentication did not go through.
    Auth(AuthError),
    /// The server kept to XML but not to the grammar of streams; the message
    /// says where.
    Protocol(String),
    /// The stream ended while an answer was still owed.
    Disconnected,
}

/// `AuthError` as a mathematical value.
pub enum AuthErrorView {
    NoMechanism,
    Sasl(Seq<char>),
    Fail(DefinedCondition),
}

/// `Error` as a mathematical value.
pub enum ErrorView {
    Io(Seq<char>),
    Tls(Seq<char>),
    Auth(AuthErrorView),
    Protocol(Seq<char>),
    Disconnected,
}

impl View for AuthError {
    type V = AuthErrorView;

    open spec fn view(&self) -> AuthErrorView {
        match *self {
            AuthError::NoMechanism => AuthErrorView::NoMechanism,
            AuthError::Sasl(m) => AuthErrorView::Sasl(m@),
            AuthError::Fail(c) => AuthErrorView::Fail(c),
        }
    }
}

impl View for Error {
    type V = ErrorView;

    open spec fn view(&self) -> ErrorView {
        match *self {
            Error::Io(m) => ErrorView::Io(m@),
            Error::Tls(m) => ErrorView::Tls(m@),
            Error::Auth(e) => ErrorView::Auth(e@),
            Error::Protocol(m) => ErrorView::Protocol(m@),
            Error::Disconnected => ErrorView::Disconnected,
        }
    }
}

} // verus!
