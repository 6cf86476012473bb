//! In-band bytestreams: a stream of bytes carried inside stanzas, opened,
//! fed block by block, and closed.

use vstd::prelude::*;
use crate::element::{lemma_text_children, text_children, Element, ElementView};
use crate::encoding::{base64_decoded, base64_encoded, standard_decode, standard_encode};
use crate::error::{outcome, Error, ErrorView};
use crate::ns;
use crate::number::{decimal, format_u16, lemma_parse_decimal, parse_u16, parse_u16_spec};
use crate::text::same_text;

verus! {

/// The name that the two ends have agreed on for one bytestream.
#[derive(Debug, Clone, PartialEq, Eq)]
pub struct StreamId(pub String);

impl View for StreamId {
    type V = Seq<char>;

    open spec fn view(&self) -> Seq<char> {
        self.0@
    }
}

/// The kind of stanza that carries the blocks.
#[derive(Debug, Clone, Copy, PartialEq, Eq, Structural)]
pub enum Stanza {
    Iq,
    Message,
}

/// The request to open a bytestream.
#[derive(Debug, Clone, PartialEq, Eq)]
pub struct Open {
    pub block_size: u16,
    pub sid: StreamId,
    pub stanza: Stanza,
}

/// One block of a bytestream.
#[derive(Debug, Clone, PartialEq, Eq)]
pub struct Data {
    pub seq: u16,
    pub sid: StreamId,
    pub data: Vec<u8>,
}

/// The notice that a bytestream is closed.
#[derive(Debug, Clone, PartialEq, Eq)]
pub struct Close {
    pub sid: StreamId,
}

/// `Open` as a mathematical value.
pub struct OpenView {
    pub block_size: u16,
    pub sid: Seq<char>,
    pub stanza: Stanza,
}

/// `Data` as a mathematical value.
pub struct DataView {
    pub seq: u16,
    pub sid: Seq<char>,
    pub data: Seq<u8>,
}

/// `Close` as a mathematical value.
pub struct CloseView {
    pub sid: Seq<char>,
}

impl View for Open {
    type V = OpenView;

    open spec fn view(&self) -> OpenView {
        OpenView { block_size: self.block_size, sid: self.sid@, stanza: self.stanza }
    }
}

impl View for Data {
    type V = DataView;

    open spec fn view(&self) -> DataView {
        DataView { seq: self.seq, sid: self.sid@, data: self.data@ }
    }
}

impl View for Close {
    type V = CloseView;

    open spec fn view(&self) -> CloseView {
        CloseView { sid: self.sid@ }
    }
}

/// What the `stanza` attribute says; `iq` where it is absent.
pub open spec fn stanza_spec(value: Option<Seq<char>>) -> Result<Stanza, ErrorView> {
    match value {
        None => Ok(Stanza::Iq),
        Some(v) => if v == "iq"@ {
            Ok(Stanza::Iq)
        } else if v == "message"@ {
            Ok(Stanza::Message)
        } else {
            Err(ErrorView::ParseError("Unknown value for 'stanza' attribute."@))
        },
    }
}

/// What an element says as a request to open a bytestream. Its parts are
/// looked at in this order, and the first that is wrong decides the error:
/// name and namespace, child elements (none allowed), `block-size` (required,
/// a number), `sid` (required), `stanza`.
pub open spec fn open_spec(e: ElementView) -> Result<OpenView, ErrorView> {
    if !e.is("open"@, ns::IBB@) {
        Err(ErrorView::ParseError("This is not a open element."@))
    } else if e.elements().len() > 0 {
        Err(ErrorView::ParseError("Unknown child in open element."@))
    } else if e.attr("block-size"@) is None {
        Err(ErrorView::ParseError("Required attribute 'block-size' missing."@))
    } else {
        match parse_u16_spec(e.attr("block-size"@)->0) {
            Err(kind) => Err(ErrorView::ParseIntError(kind)),
            Ok(block_size) => if e.attr("sid"@) is None {
                Err(ErrorView::ParseError("Required attribute 'sid' missing."@))
            } else {
                match stanza_spec(e.attr("stanza"@)) {
                    Err(err) => Err(err),
                    Ok(stanza) => Ok(OpenView { block_size, sid: e.attr("sid"@)->0, stanza }),
                }
            },
        }
    }
}

/// What an element says as a block of a bytestream: name and namespace, child
/// elements (none allowed), `seq` (required, a number), `sid` (required), and
/// the text, which is the block in base64.
pub open spec fn data_spec(e: ElementView) -> Result<DataView, ErrorView> {
    if !e.is("data"@, ns::IBB@) {
        Err(ErrorView::ParseError("This is not a data element."@))
    } else if e.elements().len() > 0 {
        Err(ErrorView::ParseError("Unknown child in data element."@))
    } else if e.attr("seq"@) is None {
        Err(ErrorView::ParseError("Required attribute 'seq' missing."@))
    } else {
        match parse_u16_spec(e.attr("seq"@)->0) {
            Err(kind) => Err(ErrorView::ParseIntError(kind)),
            Ok(seq) => if e.attr("sid"@) is None {
                Err(ErrorView::ParseError("Required attribute 'sid' missing."@))
            } else {
                match base64_decoded(e.text()) {
                    None => Err(ErrorView::Base64Error),
                    Some(data) => Ok(DataView { seq, sid: e.attr("sid"@)->0, data }),
                }
            },
        }
    }
}

/// What an element says as the notice that a bytestream is closed.
pub open spec fn close_spec(e: ElementView) -> Result<CloseView, ErrorView> {
    if !e.is("close"@, ns::IBB@) {
        Err(ErrorView::ParseError("This is not a close element."@))
    } else if e.elements().len() > 0 {
        Err(ErrorView::ParseError("Unknown child in close element."@))
    } else if e.attr("sid"@) is None {
        Err(ErrorView::ParseError("Required attribute 'sid' missing."@))
    } else {
        Ok(CloseView { sid: e.attr("sid"@)->0 })
    }
}

/// The element that a request to open is written as. The `stanza` attribute
/// is left out where it says `iq`.
pub open spec fn open_element(v: OpenView) -> ElementView {
    let base = Map::<Seq<char>, Seq<char>>::empty().insert(
        "block-size"@,
        decimal(v.block_size as nat),
    ).insert("sid"@, v.sid);
    ElementView {
        name: "open"@,
        namespace: Some(ns::IBB@),
        attrs: match v.stanza {
            Stanza::Iq => base,
            Stanza::Message => base.insert("stanza"@, "message"@),
        },
        children: Seq::empty(),
    }
}

/// The element that carries a block with number `seq` of the stream `sid`,
/// given the block as text.
pub open spec fn data_element(seq: u16, sid: Seq<char>, text: Seq<char>) -> ElementView {
    ElementView {
        name: "data"@,
        namespace: Some(ns::IBB@),
        attrs: Map::<Seq<char>, Seq<char>>::empty().insert("seq"@, decimal(seq as nat)).insert(
            "sid"@,
            sid,
        ),
        children: text_children(text),
    }
}

/// The element that a notice of closing is written as.
pub open spec fn close_element(v: CloseView) -> ElementView {
    ElementView {
        name: "close"@,
        namespace: Some(ns::IBB@),
        attrs: Map::<Seq<char>, Seq<char>>::empty().insert("sid"@, v.sid),
        children: Seq::empty(),
    }
}

fn parse_stanza(value: Option<&str>) -> (r: Result<Stanza, Error>)
    ensures
        match r {
            Ok(s) => stanza_spec(crate::element::opt_str_view(value)) == Ok::<Stanza, ErrorView>(s),
            Err(e) => stanza_spec(crate::element::opt_str_view(value)) == Err::<Stanza, ErrorView>(
                e@,
            ),
        },
{
    match value {
        None => Ok(Stanza::Iq),
        Some(v) => if same_text(v, "iq") {
            Ok(Stanza::Iq)
        } else if same_text(v, "message") {
            Ok(Stanza::Message)
        } else {
            Err(Error::ParseError("Unknown value for 'stanza' attribute."))
        },
    }
}

impl Open {
    /// Reads a request to open a bytestream.
    pub fn try_from(elem: Element) -> (r: Result<Open, Error>)
        ensures
            outcome(r) == open_spec(elem@),
    {
        if !elem.is("open", ns::IBB) {
            return Err(Error::ParseError("This is not a open element."));
        }
        if elem.children().len() > 0 {
            return Err(Error::ParseError("Unknown child in open element."));
        }
        let block_size = match elem.attr("block-size") {
            None => {
                return Err(Error::ParseError("Required attribute 'block-size' missing."));
            },
            Some(value) => match parse_u16(value) {
                Err(kind) => {
                    return Err(Error::ParseIntError(kind));
                },
                Ok(n) => n,
            },
        };
        let sid = match elem.attr("sid") {
            None => {
                return Err(Error::ParseError("Required attribute 'sid' missing."));
            },
            Some(value) => StreamId(value.to_owned()),
        };
        let stanza = match parse_stanza(elem.attr("stanza")) {
            Err(e) => {
                return Err(e);
            },
            Ok(s) => s,
        };
        Ok(Open { block_size, sid, stanza })
    }

    /// Writes the request as an element.
    pub fn into(self) -> (e: Element)
        ensures
            e@ == open_element(self@),
    {
        let mut e = Element::new("open", ns::IBB);
        let size = format_u16(self.block_size);
        e.set_attr("block-size", size.as_str());
        e.set_attr("sid", self.sid.0.as_str());
        match self.stanza {
            Stanza::Iq => {},
            Stanza::Message => {
                e.set_attr("stanza", "message");
            },
        }
        e
    }
}

impl Data {
    /// Reads a block of a bytestream.
    pub fn try_from(elem: Element) -> (r: Result<Data, Error>)
        ensures
            outcome(r) == data_spec(elem@),
    {
        if !elem.is("data", ns::IBB) {
            return Err(Error::ParseError("This is not a data element."));
        }
        if elem.children().len() > 0 {
            return Err(Error::ParseError("Unknown child in data element."));
        }
        let seq = match elem.attr("seq") {
            None => {
                return Err(Error::ParseError("Required attribute 'seq' missing."));
            },
            Some(value) => match parse_u16(value) {
                Err(kind) => {
                    return Err(Error::ParseIntError(kind));
                },
                Ok(n) => n,
            },
        };
        let sid = match elem.attr("sid") {
            None => {
                return Err(Error::ParseError("Required attribute 'sid' missing."));
            },
            Some(value) => StreamId(value.to_owned()),
        };
        let text = elem.text();
        let data = match standard_decode(text.as_str()) {
            None => {
                return Err(Error::Base64Error);
            },
            Some(bytes) => bytes,
        };
        Ok(Data { seq, sid, data })
    }

    /// Writes the block as an element, its bytes in base64.
    pub fn into(self) -> (e: Element)
        ensures
            e@ == data_element(self.seq, self.sid@, base64_encoded(self.data@)),
            base64_decoded(base64_encoded(self.data@)) == Some(self.data@),
    {
        let mut e = Element::new("data", ns::IBB);
        let seq = format_u16(self.seq);
        e.set_attr("seq", seq.as_str());
        e.set_attr("sid", self.sid.0.as_str());
        let text = standard_encode(self.data.as_slice());
        e.append_text_node(text.as_str());
        assert(e@.children =~= text_children(base64_encoded(self.data@)));
        e
    }
}

impl Close {
    /// Reads the notice that a bytestream is closed.
    pub fn try_from(elem: Element) -> (r: Result<Close, Error>)
        ensures
            outcome(r) == close_spec(elem@),
    {
        if !elem.is("close", ns::IBB) {
            return Err(Error::ParseError("This is not a close element."));
        }
        if elem.children().len() > 0 {
            return Err(Error::ParseError("Unknown child in close element."));
        }
        match elem.attr("sid") {
            None => Err(Error::ParseError("Required attribute 'sid' missing.")),
            Some(value) => Ok(Close { sid: StreamId(value.to_owned()) }),
        }
    }

    /// Writes the notice as an element.
    pub fn into(self) -> (e: Element)
        ensures
            e@ == close_element(self@),
    {
        let mut e = Element::new("close", ns::IBB);
        e.set_attr("sid", self.sid.0.as_str());
        e
    }
}

/// The attribute names of this module differ from one another.
proof fn lemma_names_differ()
    ensures
        "block-size"@ != "sid"@,
        "block-size"@ != "stanza"@,
        "sid"@ != "stanza"@,
        "seq"@ != "sid"@,
        "iq"@ != "message"@,
{
    reveal_strlit("block-size");
    reveal_strlit("sid");
    reveal_strlit("stanza");
    reveal_strlit("seq");
    reveal_strlit("iq");
    reveal_strlit("message");
    assert("block-size"@.len() == 10);
    assert("sid"@.len() == 3);
    assert("stanza"@.len() == 6);
    assert("seq"@[1] == 'e');
    assert("sid"@[1] == 'i');
    assert("iq"@.len() == 2);
    assert("message"@.len() == 7);
}

/// A request to open that is written as an element and read again is the
/// same request.
pub proof fn lemma_open_round_trip(v: OpenView)
    ensures
        open_spec(open_element(v)) == Ok::<OpenView, ErrorView>(v),
{
    lemma_names_differ();
    lemma_parse_decimal(v.block_size);
    let e = open_element(v);
    assert(e.attrs.contains_key("block-size"@));
    assert(e.attrs["block-size"@] == decimal(v.block_size as nat));
    assert(e.attrs.contains_key("sid"@));
    assert(e.attrs["sid"@] == v.sid);
}

/// The element that carries a block, with any text that decodes to the
/// block's bytes, reads as that block.
pub proof fn lemma_data_round_trip(v: DataView, text: Seq<char>)
    requires
        base64_decoded(text) == Some(v.data),
    ensures
        data_spec(data_element(v.seq, v.sid, text)) == Ok::<DataView, ErrorView>(v),
{
    lemma_names_differ();
    lemma_parse_decimal(v.seq);
    let e = data_element(v.seq, v.sid, text);
    assert(e.attrs.contains_key("seq"@));
    assert(e.attrs["seq"@] == decimal(v.seq as nat));
    assert(e.attrs.contains_key("sid"@));
    lemma_text_children(text);
}

/// A notice of closing that is written as an element and read again is the
/// same notice.
pub proof fn lemma_close_round_trip(v: CloseView)
    ensures
        close_spec(close_element(v)) == Ok::<CloseView, ErrorView>(v),
{
    let e = close_element(v);
    assert(e.attrs.contains_key("sid"@));
}

} // verus!
