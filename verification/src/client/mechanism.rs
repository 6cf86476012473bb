//! The SASL mechanisms a client can authenticate with.
//!
//! What a mechanism sends is the `sasl` crate's business. Of PLAIN the
//! message is stated here; of the SCRAM family nothing is, since each
//! exchange starts from a fresh random nonce.

use sasl::client::mechanisms::{Plain, Scram};
use sasl::client::Mechanism as SaslMechanism;
use sasl::common::scram::{Sha1, Sha256};
use sasl::common::ChannelBinding;
use vstd::prelude::*;
use crate::sasl::Mechanism;

verus! {

/// A SCRAM exchange with SHA-1 in progress: a `Scram<Sha1>` of the `sasl`
/// crate. That type cannot be shown to the verifier, since it is bounded by a
/// trait of that crate, so nothing is known of what this struct holds.
#[verifier::external_body]
pub struct ScramSha1 {
    inner: Scram<Sha1>,
}

/// A SCRAM exchange with SHA-256 in progress: a `Scram<Sha256>` of the `sasl`
/// crate, held as `ScramSha1` holds its own.
#[verifier::external_body]
pub struct ScramSha256 {
    inner: Scram<Sha256>,
}

/// The message that PLAIN opens with: an empty authorization identity, the
/// user name and the password, each after a zero byte.
pub open spec fn plain_message(username: Seq<char>, password: Seq<char>) -> Seq<u8> {
    seq![0u8] + vstd::utf8::encode_utf8(username) + seq![0u8] + vstd::utf8::encode_utf8(password)
}

/// `Plain::new` and then `initial` of the `sasl` crate. Not proved: that the
/// message is the one that `plain_message` states.
#[verifier::external_body]
pub(crate) fn plain_initial(username: &str, password: &str) -> (r: Vec<u8>)
    ensures
        r@ == plain_message(username@, password@),
{
    Plain::new(username, password).initial()
}

/// `Scram::<Sha1>::new` of the `sasl` crate, without channel binding. It
/// draws a random nonce, and gives nothing where none can be drawn.
#[verifier::external_body]
pub(crate) fn scram_sha1_new(username: &str, password: &str) -> Option<ScramSha1> {
    match Scram::<Sha1>::new(username, password, ChannelBinding::None) {
        Ok(inner) => Some(ScramSha1 { inner }),
        Err(_) => None,
    }
}

/// `Scram::<Sha256>::new` of the `sasl` crate, without channel binding. It
/// draws a random nonce, and gives nothing where none can be drawn.
#[verifier::external_body]
pub(crate) fn scram_sha256_new(username: &str, password: &str) -> Option<ScramSha256> {
    match Scram::<Sha256>::new(username, password, ChannelBinding::None) {
        Ok(inner) => Some(ScramSha256 { inner }),
        Err(_) => None,
    }
}

/// `initial` of the `sasl` crate's SCRAM with SHA-1: the client's first
/// message, which holds the nonce.
#[verifier::external_body]
pub(crate) fn scram_sha1_initial(exchange: &mut ScramSha1) -> Vec<u8> {
    exchange.inner.initial()
}

/// `initial` of the `sasl` crate's SCRAM with SHA-256: the client's first
/// message, which holds the nonce.
#[verifier::external_body]
pub(crate) fn scram_sha256_initial(exchange: &mut ScramSha256) -> Vec<u8> {
    exchange.inner.initial()
}

/// What a SCRAM exchange with SHA-1 answers to a challenge, as it stands:
/// the message, or the reason why there is none, in words.
pub uninterp spec fn scram_sha1_answer(exchange: ScramSha1, challenge: Seq<u8>) -> Result<
    Seq<u8>,
    Seq<char>,
>;

/// What a SCRAM exchange with SHA-256 answers to a challenge, as it stands:
/// the message, or the reason why there is none, in words.
pub uninterp spec fn scram_sha256_answer(exchange: ScramSha256, challenge: Seq<u8>) -> Result<
    Seq<u8>,
    Seq<char>,
>;

/// `response` of the `sasl` crate's SCRAM with SHA-1: the answer to a
/// challenge, or the reason why there is none, in words. Not proved: that
/// the outcome depends on the challenge and on what the exchange has kept
/// alone, which is what naming it says. Nothing is said of what the exchange
/// keeps afterwards.
#[verifier::external_body]
pub(crate) fn scram_sha1_response(exchange: &mut ScramSha1, challenge: &[u8]) -> (r: Result<
    Vec<u8>,
    String,
>)
    ensures
        match r {
            Ok(answer) => scram_sha1_answer(*old(exchange), challenge@) == Ok::<
                Seq<u8>,
                Seq<char>,
            >(answer@),
            Err(why) => scram_sha1_answer(*old(exchange), challenge@) == Err::<
                Seq<u8>,
                Seq<char>,
            >(why@),
        },
{
    match exchange.inner.response(challenge) {
        Ok(answer) => Ok(answer),
        Err(e) => Err(e.to_string()),
    }
}

/// `response` of the `sasl` crate's SCRAM with SHA-256: the answer to a
/// challenge, or the reason why there is none, in words. Not proved: that
/// the outcome depends on the challenge and on what the exchange has kept
/// alone, which is what naming it says. Nothing is said of what the exchange
/// keeps afterwards.
#[verifier::external_body]
pub(crate) fn scram_sha256_response(exchange: &mut ScramSha256, challenge: &[u8]) -> (r: Result<
    Vec<u8>,
    String,
>)
    ensures
        match r {
            Ok(answer) => scram_sha256_answer(*old(exchange), challenge@) == Ok::<
                Seq<u8>,
                Seq<char>,
            >(answer@),
            Err(why) => scram_sha256_answer(*old(exchange), challenge@) == Err::<
                Seq<u8>,
                Seq<char>,
            >(why@),
        },
{
    match exchange.inner.response(challenge) {
        Ok(answer) => Ok(answer),
        Err(e) => Err(e.to_string()),
    }
}

/// A mechanism in the middle of an exchange. PLAIN and ANONYMOUS keep
/// nothing between their messages.
pub enum Exchange {
    ScramSha256(ScramSha256),
    ScramSha1(ScramSha1),
    Plain,
    Anonymous,
}

impl Exchange {
    /// The mechanism that the exchange is of.
    pub open spec fn mechanism(self) -> Mechanism {
        match self {
            Exchange::ScramSha256(_) => Mechanism::ScramSha256,
            Exchange::ScramSha1(_) => Mechanism::ScramSha1,
            Exchange::Plain => Mechanism::Plain,
            Exchange::Anonymous => Mechanism::Anonymous,
        }
    }

    /// Whether the exchange keeps something between its messages: the SCRAM
    /// family does.
    pub open spec fn keeps_state(self) -> bool {
        self is ScramSha256 || self is ScramSha1
    }

    /// What the exchange answers to a challenge, as it stands. PLAIN and
    /// ANONYMOUS answer every challenge with an empty message; what SCRAM
    /// answers, or why it does not, is for the `sasl` crate to say.
    pub open spec fn answer_spec(self, challenge: Seq<u8>) -> Result<Seq<u8>, Seq<char>> {
        match self {
            Exchange::ScramSha256(exchange) => scram_sha256_answer(exchange, challenge),
            Exchange::ScramSha1(exchange) => scram_sha1_answer(exchange, challenge),
            Exchange::Plain => Ok(Seq::empty()),
            Exchange::Anonymous => Ok(Seq::empty()),
        }
    }

    /// The answer to a challenge: that of the mechanism, to this challenge,
    /// in the state that the exchange is in. The mechanism stays the same,
    /// and an exchange that keeps nothing between its messages stays as it
    /// is.
    pub fn response(&mut self, challenge: &[u8]) -> (r: Result<Vec<u8>, String>)
        ensures
            match r {
                Ok(answer) => old(self).answer_spec(challenge@) == Ok::<Seq<u8>, Seq<char>>(
                    answer@,
                ),
                Err(why) => old(self).answer_spec(challenge@) == Err::<Seq<u8>, Seq<char>>(why@),
            },
            final(self).mechanism() == old(self).mechanism(),
            !old(self).keeps_state() ==> *final(self) == *old(self),
            !old(self).keeps_state() ==> (r matches Ok(answer) && answer@.len() == 0),
    {
        match self {
            Exchange::ScramSha256(exchange) => scram_sha256_response(exchange, challenge),
            Exchange::ScramSha1(exchange) => scram_sha1_response(exchange, challenge),
            Exchange::Plain => Ok(Vec::new()),
            Exchange::Anonymous => Ok(Vec::new()),
        }
    }
}

} // verus!
