//! Addresses (Jabber IDs), as far as payloads carry them.
//!
//! Whether a text is an address, and what its normal form is, the `jid` crate
//! decides. What it gives is named here, not spelled out.

use vstd::prelude::*;
use crate::error::{Error, ErrorView};

verus! {

/// The normal form of an address, or the reason why the text is none.
pub uninterp spec fn jid_normalized(text: Seq<char>) -> Result<Seq<char>, Seq<char>>;

/// `Jid::new` of the `jid` crate, with the address taken out as its normal
/// form and the error as its message. Not proved: that the outcome depends on
/// the text alone, which is what naming it says.
#[verifier::external_body]
pub(crate) fn normalize(text: &str) -> (r: Result<String, String>)
    ensures
        match r {
            Ok(normal) => jid_normalized(text@) == Ok::<Seq<char>, Seq<char>>(normal@),
            Err(reason) => jid_normalized(text@) == Err::<Seq<char>, Seq<char>>(reason@),
        },
{
    match ::jid::Jid::new(text) {
        Ok(jid) => Ok(jid.into_inner()),
        Err(e) => Err(e.to_string()),
    }
}

/// An address, held in its normal form.
#[derive(Debug)]
pub struct Jid {
    normal: String,
}

impl View for Jid {
    type V = Seq<char>;

    closed spec fn view(&self) -> Seq<char> {
        self.normal@
    }
}

/// What a text says as an address.
pub open spec fn parse_spec(text: Seq<char>) -> Result<Seq<char>, ErrorView> {
    match jid_normalized(text) {
        Ok(normal) => Ok(normal),
        Err(reason) => Err(ErrorView::JidParseError(reason)),
    }
}

impl Jid {
    /// Reads an address.
    pub fn parse(text: &str) -> (r: Result<Jid, Error>)
        ensures
            crate::error::outcome(r) == parse_spec(text@),
    {
        match normalize(text) {
            Ok(normal) => Ok(Jid { normal }),
            Err(reason) => Err(Error::JidParseError(reason)),
        }
    }

    /// The address as text.
    pub fn as_str(&self) -> (r: &str)
        ensures
            r@ == self@,
    {
        self.normal.as_str()
    }
}

} // verus!
