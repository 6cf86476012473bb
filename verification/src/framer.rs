//! Framing of a stream: cutting the bytes that arrive into the open tag of
//! the stream, the complete children of its root, the text between them, and
//! the closing tag.
//!
//! The document of a stream is never whole while the stream lives, so the
//! framer follows the nesting of tags only, and hands out a child of the root
//! as soon as it is closed. Names are not read and tags are not matched by
//! name: that is for whoever parses the frames. Bytes stay in the buffer
//! until a frame is complete, so a frame is the same however the bytes were
//! cut on their way.

use vstd::prelude::*;
use crate::error::{Error, ErrorView};

verus! {

/// Why bytes are not a stream.
#[derive(Debug, Clone, Copy, PartialEq, Eq, Structural)]
pub enum Flaw {
    /// A `<` stands inside a tag, outside quotes.
    LessThanInTag,
    /// A tag holds nothing: `<>`.
    EmptyTag,
    /// A comment, a declaration of a type or another `<!`, or a `<?` after
    /// the stream was opened.
    ForbiddenMarkup,
    /// A closing tag, or a root that closes itself, where no stream is open.
    NoStream,
}

/// What a frame holds.
#[derive(Debug, Clone, Copy, PartialEq, Eq, Structural)]
pub enum FrameKind {
    /// The open tag of the stream.
    StreamOpen,
    /// A complete child of the stream's root.
    Stanza,
    /// The text between two children of the root.
    Text,
    /// The closing tag of the stream.
    StreamClose,
}

/// What a tag is.
#[derive(Debug, Clone, Copy, PartialEq, Eq, Structural)]
pub enum TagKind {
    Open,
    Close,
    Empty,
    Declaration,
    Forbidden,
    Hollow,
}

/// What a search in the bytes gave: a position, the need for more bytes, or
/// a flaw.
pub enum Scan {
    At(int),
    More,
    Bad(Flaw),
}

/// What a search for the next frame gave. The frame's bytes are those from
/// `start` up to `end`; the bytes before `end` are used up.
pub enum Next {
    Frame { kind: FrameKind, start: int, end: int },
    More,
    Bad(Flaw),
}

/// `Scan` with a position that fits the machine.
#[derive(Debug, Clone, Copy)]
pub enum Step {
    At(usize),
    More,
    Bad(Flaw),
}

impl View for Step {
    type V = Scan;

    open spec fn view(&self) -> Scan {
        match *self {
            Step::At(e) => Scan::At(e as int),
            Step::More => Scan::More,
            Step::Bad(f) => Scan::Bad(f),
        }
    }
}

/// One frame.
#[derive(Debug, Clone, PartialEq, Eq)]
pub struct Frame {
    pub kind: FrameKind,
    pub bytes: Vec<u8>,
}

/// The position after the `>` that ends a tag, looked for from `i` on, where
/// `quote` is the quotation mark that is open, or 0. Quoted text may hold
/// anything.
pub open spec fn tag_end(b: Seq<u8>, i: int, quote: u8) -> Scan
    decreases b.len() - i,
{
    if i < 0 || i >= b.len() {
        Scan::More
    } else if quote != 0 {
        if b[i] == quote {
            tag_end(b, i + 1, 0)
        } else {
            tag_end(b, i + 1, quote)
        }
    } else if b[i] == 34 || b[i] == 39 {
        tag_end(b, i + 1, b[i])
    } else if b[i] == 60 {
        Scan::Bad(Flaw::LessThanInTag)
    } else if b[i] == 62 {
        Scan::At(i + 1)
    } else {
        tag_end(b, i + 1, 0)
    }
}

/// The position of the next `<`, looked for from `i` on.
pub open spec fn text_end(b: Seq<u8>, i: int) -> Scan
    decreases b.len() - i,
{
    if i < 0 || i >= b.len() {
        Scan::More
    } else if b[i] == 60 {
        Scan::At(i)
    } else {
        text_end(b, i + 1)
    }
}

/// What the tag from `start` up to `end` is, by its second byte and its last
/// but one.
pub open spec fn tag_kind(b: Seq<u8>, start: int, end: int) -> TagKind {
    if end - start < 3 {
        TagKind::Hollow
    } else if b[start + 1] == 47 {
        TagKind::Close
    } else if b[start + 1] == 63 {
        TagKind::Declaration
    } else if b[start + 1] == 33 {
        TagKind::Forbidden
    } else if b[end - 2] == 47 {
        TagKind::Empty
    } else {
        TagKind::Open
    }
}

/// The flaw that a tag is, where it is one inside the stream.
pub open spec fn tag_flaw(kind: TagKind) -> Flaw {
    match kind {
        TagKind::Hollow => Flaw::EmptyTag,
        _ => Flaw::ForbiddenMarkup,
    }
}

/// The position after the closing tag of an element, looked for from `i` on,
/// where `depth` elements are open: the element itself and those inside it
/// that are not closed yet.
pub open spec fn element_end(b: Seq<u8>, i: int, depth: nat) -> Scan
    decreases b.len() - i,
{
    if i < 0 || i >= b.len() {
        Scan::More
    } else if b[i] != 60 {
        element_end(b, i + 1, depth)
    } else {
        match tag_end(b, i + 1, 0) {
            Scan::More => Scan::More,
            Scan::Bad(f) => Scan::Bad(f),
            Scan::At(e) => if e <= i || e > b.len() {
                Scan::More
            } else {
                match tag_kind(b, i, e) {
                    TagKind::Open => element_end(b, e, depth + 1),
                    TagKind::Empty => element_end(b, e, depth),
                    TagKind::Close => if depth <= 1 {
                        Scan::At(e)
                    } else {
                        element_end(b, e, (depth - 1) as nat)
                    },
                    kind => Scan::Bad(tag_flaw(kind)),
                }
            },
        }
    }
}

/// The open tag of the stream, looked for from `i` on: what stands before
/// the first tag is passed over, and so is every `<?` tag before the open
/// tag.
pub open spec fn stream_open(b: Seq<u8>, i: int) -> Next
    decreases b.len() - i,
{
    match text_end(b, i) {
        Scan::More => Next::More,
        Scan::Bad(f) => Next::Bad(f),
        Scan::At(p) => match tag_end(b, p + 1, 0) {
            Scan::More => Next::More,
            Scan::Bad(f) => Next::Bad(f),
            Scan::At(e) => if e <= p || p < i || e > b.len() {
                Next::More
            } else {
                match tag_kind(b, p, e) {
                    TagKind::Open => Next::Frame { kind: FrameKind::StreamOpen, start: p, end: e },
                    TagKind::Declaration => stream_open(b, e),
                    TagKind::Close => Next::Bad(Flaw::NoStream),
                    TagKind::Empty => Next::Bad(Flaw::NoStream),
                    kind => Next::Bad(tag_flaw(kind)),
                }
            },
        },
    }
}

/// The next frame inside an open stream, which begins with the first byte.
pub open spec fn stream_child(b: Seq<u8>) -> Next {
    if b.len() == 0 {
        Next::More
    } else if b[0] != 60 {
        match text_end(b, 0) {
            Scan::At(p) => Next::Frame { kind: FrameKind::Text, start: 0, end: p },
            Scan::More => Next::More,
            Scan::Bad(f) => Next::Bad(f),
        }
    } else {
        match tag_end(b, 1, 0) {
            Scan::More => Next::More,
            Scan::Bad(f) => Next::Bad(f),
            Scan::At(e) => match tag_kind(b, 0, e) {
                TagKind::Close => Next::Frame { kind: FrameKind::StreamClose, start: 0, end: e },
                TagKind::Empty => Next::Frame { kind: FrameKind::Stanza, start: 0, end: e },
                TagKind::Open => match element_end(b, e, 1) {
                    Scan::At(f) => Next::Frame { kind: FrameKind::Stanza, start: 0, end: f },
                    Scan::More => Next::More,
                    Scan::Bad(f) => Next::Bad(f),
                },
                kind => Next::Bad(tag_flaw(kind)),
            },
        }
    }
}

/// The next frame in the bytes, given whether the stream is open.
pub open spec fn next_frame(b: Seq<u8>, inside: bool) -> Next {
    if inside {
        stream_child(b)
    } else {
        stream_open(b, 0)
    }
}

/// Whether the stream is open after a frame.
pub open spec fn inside_after(kind: FrameKind, inside: bool) -> bool {
    match kind {
        FrameKind::StreamOpen => true,
        FrameKind::StreamClose => false,
        _ => inside,
    }
}

/// All the frames that the bytes hold, in order, each with its bytes. After
/// a flaw there are no more.
pub open spec fn frames(b: Seq<u8>, inside: bool) -> Seq<(FrameKind, Seq<u8>)>
    decreases b.len(),
{
    match next_frame(b, inside) {
        Next::Frame { kind, start, end } => if 0 <= start <= end <= b.len() && 0 < end {
            seq![(kind, b.subrange(start, end))] + frames(b.skip(end), inside_after(kind, inside))
        } else {
            Seq::empty()
        },
        _ => Seq::empty(),
    }
}

/// What is left of the bytes when all the frames are taken out, and whether
/// the stream is open then.
pub open spec fn leftover(b: Seq<u8>, inside: bool) -> (Seq<u8>, bool)
    decreases b.len(),
{
    match next_frame(b, inside) {
        Next::Frame { kind, start, end } => if 0 <= start <= end <= b.len() && 0 < end {
            leftover(b.skip(end), inside_after(kind, inside))
        } else {
            (b, inside)
        },
        _ => (b, inside),
    }
}

/// The frames that come out when chunks arrive one after the other behind
/// what is buffered, and the frames are taken out after each.
pub open spec fn frames_of_chunks(chunks: Seq<Seq<u8>>, buffer: Seq<u8>, inside: bool) -> Seq<
    (FrameKind, Seq<u8>),
>
    decreases chunks.len(),
{
    if chunks.len() == 0 {
        frames(buffer, inside)
    } else {
        let fed = buffer + chunks[0];
        frames(fed, inside) + frames_of_chunks(
            chunks.drop_first(),
            leftover(fed, inside).0,
            leftover(fed, inside).1,
        )
    }
}

/// The bytes of all the chunks, in order.
pub open spec fn joined(chunks: Seq<Seq<u8>>) -> Seq<u8>
    decreases chunks.len(),
{
    if chunks.len() == 0 {
        Seq::empty()
    } else {
        chunks[0] + joined(chunks.drop_first())
    }
}

/// The end of a tag lies behind its start, within the bytes, and more bytes
/// change neither it nor a flaw.
pub proof fn lemma_tag_end_stable(b: Seq<u8>, more: Seq<u8>, i: int, quote: u8)
    requires
        0 <= i,
    ensures
        match tag_end(b, i, quote) {
            Scan::At(e) => i < e <= b.len() && tag_end(b + more, i, quote) == Scan::At(e),
            Scan::Bad(f) => tag_end(b + more, i, quote) == Scan::Bad(f),
            Scan::More => true,
        },
    decreases b.len() - i,
{
    if i < b.len() {
        assert((b + more)[i] == b[i]);
        if quote != 0 {
            if b[i] == quote {
                lemma_tag_end_stable(b, more, i + 1, 0);
            } else {
                lemma_tag_end_stable(b, more, i + 1, quote);
            }
        } else if b[i] == 34 || b[i] == 39 {
            lemma_tag_end_stable(b, more, i + 1, b[i]);
        } else if b[i] == 60 {
        } else if b[i] == 62 {
        } else {
            lemma_tag_end_stable(b, more, i + 1, 0);
        }
    }
}

/// The next `<` lies at or behind the start, within the bytes, and more
/// bytes do not change it.
pub proof fn lemma_text_end_stable(b: Seq<u8>, more: Seq<u8>, i: int)
    requires
        0 <= i,
    ensures
        match text_end(b, i) {
            Scan::At(p) => i <= p < b.len() && b[p] == 60 && text_end(b + more, i) == Scan::At(p),
            Scan::Bad(f) => false,
            Scan::More => true,
        },
    decreases b.len() - i,
{
    if i < b.len() {
        assert((b + more)[i] == b[i]);
        if b[i] != 60 {
            lemma_text_end_stable(b, more, i + 1);
        }
    }
}

/// More bytes do not change what a tag within the bytes is.
pub proof fn lemma_tag_kind_stable(b: Seq<u8>, more: Seq<u8>, start: int, end: int)
    requires
        0 <= start < end <= b.len(),
    ensures
        tag_kind(b + more, start, end) == tag_kind(b, start, end),
{
    if end - start >= 3 {
        assert((b + more)[start + 1] == b[start + 1]);
        assert((b + more)[end - 2] == b[end - 2]);
    }
}

/// The end of an element lies behind its start, within the bytes, and more
/// bytes change neither it nor a flaw.
pub proof fn lemma_element_end_stable(b: Seq<u8>, more: Seq<u8>, i: int, depth: nat)
    requires
        0 <= i,
    ensures
        match element_end(b, i, depth) {
            Scan::At(e) => i < e <= b.len() && element_end(b + more, i, depth) == Scan::At(e),
            Scan::Bad(f) => element_end(b + more, i, depth) == Scan::Bad(f),
            Scan::More => true,
        },
    decreases b.len() - i,
{
    if i < b.len() {
        assert((b + more)[i] == b[i]);
        if b[i] != 60 {
            lemma_element_end_stable(b, more, i + 1, depth);
        } else {
            lemma_tag_end_stable(b, more, i + 1, 0);
            match tag_end(b, i + 1, 0) {
                Scan::At(e) => {
                    lemma_tag_kind_stable(b, more, i, e);
                    match tag_kind(b, i, e) {
                        TagKind::Open => {
                            lemma_element_end_stable(b, more, e, depth + 1);
                        },
                        TagKind::Empty => {
                            lemma_element_end_stable(b, more, e, depth);
                        },
                        TagKind::Close => {
                            if depth > 1 {
                                lemma_element_end_stable(b, more, e, (depth - 1) as nat);
                            }
                        },
                        _ => {},
                    }
                },
                _ => {},
            }
        }
    }
}

/// The open tag of a stream lies within the bytes, and more bytes change
/// neither it nor a flaw.
pub proof fn lemma_stream_open_stable(b: Seq<u8>, more: Seq<u8>, i: int)
    requires
        0 <= i,
    ensures
        match stream_open(b, i) {
            Next::Frame { kind, start, end } => i <= start < end <= b.len() && stream_open(
                b + more,
                i,
            ) == stream_open(b, i),
            Next::Bad(f) => stream_open(b + more, i) == Next::Bad(f),
            Next::More => true,
        },
    decreases b.len() - i,
{
    lemma_text_end_stable(b, more, i);
    match text_end(b, i) {
        Scan::At(p) => {
            lemma_tag_end_stable(b, more, p + 1, 0);
            match tag_end(b, p + 1, 0) {
                Scan::At(e) => {
                    lemma_tag_kind_stable(b, more, p, e);
                    if tag_kind(b, p, e) is Declaration {
                        lemma_stream_open_stable(b, more, e);
                    }
                },
                _ => {},
            }
        },
        _ => {},
    }
}

/// A frame that the bytes hold lies within them and is not empty, and more
/// bytes change neither it nor a flaw.
pub proof fn lemma_next_frame_stable(b: Seq<u8>, more: Seq<u8>, inside: bool)
    ensures
        match next_frame(b, inside) {
            Next::Frame { kind, start, end } => 0 <= start <= end <= b.len() && 0 < end
                && next_frame(b + more, inside) == next_frame(b, inside),
            Next::Bad(f) => next_frame(b + more, inside) == Next::Bad(f),
            Next::More => true,
        },
{
    if inside {
        if b.len() > 0 {
            assert((b + more)[0] == b[0]);
            if b[0] != 60 {
                lemma_text_end_stable(b, more, 0);
            } else {
                lemma_tag_end_stable(b, more, 1, 0);
                match tag_end(b, 1, 0) {
                    Scan::At(e) => {
                        lemma_tag_kind_stable(b, more, 0, e);
                        if tag_kind(b, 0, e) is Open {
                            lemma_element_end_stable(b, more, e, 1);
                        }
                    },
                    _ => {},
                }
            }
        }
    } else {
        lemma_stream_open_stable(b, more, 0);
    }
}

/// The frames of bytes that arrive in two parts are the frames of the first
/// part, and then the frames of what the first part left with the second
/// part behind it.
pub proof fn lemma_frames_of_two_parts(a: Seq<u8>, c: Seq<u8>, inside: bool)
    ensures
        frames(a + c, inside) == frames(a, inside) + frames(
            leftover(a, inside).0 + c,
            leftover(a, inside).1,
        ),
    decreases a.len(),
{
    lemma_next_frame_stable(a, c, inside);
    match next_frame(a, inside) {
        Next::Frame { kind, start, end } => {
            let after = inside_after(kind, inside);
            lemma_frames_of_two_parts(a.skip(end), c, after);
            assert((a + c).skip(end) =~= a.skip(end) + c);
            assert((a + c).subrange(start, end) =~= a.subrange(start, end));
            let first = seq![(kind, a.subrange(start, end))];
            assert(frames(a + c, inside) == first + frames((a + c).skip(end), after));
            assert(frames(a, inside) == first + frames(a.skip(end), after));
            assert(first + (frames(a.skip(end), after) + frames(
                leftover(a.skip(end), after).0 + c,
                leftover(a.skip(end), after).1,
            )) =~= (first + frames(a.skip(end), after)) + frames(
                leftover(a.skip(end), after).0 + c,
                leftover(a.skip(end), after).1,
            ));
        },
        _ => {
            assert(frames(a, inside) + frames(a + c, inside) =~= frames(a + c, inside));
        },
    }
}

/// However the bytes are cut into chunks, the frames that come out are the
/// frames of the bytes as a whole.
pub proof fn lemma_chunks_do_not_matter(chunks: Seq<Seq<u8>>, buffer: Seq<u8>, inside: bool)
    ensures
        frames_of_chunks(chunks, buffer, inside) == frames(buffer + joined(chunks), inside),
    decreases chunks.len(),
{
    if chunks.len() == 0 {
        assert(buffer + joined(chunks) =~= buffer);
    } else {
        let rest = chunks.drop_first();
        let fed = buffer + chunks[0];
        let left = leftover(fed, inside);
        lemma_chunks_do_not_matter(rest, left.0, left.1);
        lemma_frames_of_two_parts(fed, joined(rest), inside);
        assert(buffer + joined(chunks) =~= fed + joined(rest));
    }
}

/// `Next` with positions that fit the machine.
#[derive(Debug, Clone, Copy)]
pub enum Found {
    Frame { kind: FrameKind, start: usize, end: usize },
    More,
    Bad(Flaw),
}

impl View for Found {
    type V = Next;

    open spec fn view(&self) -> Next {
        match *self {
            Found::Frame { kind, start, end } => Next::Frame {
                kind,
                start: start as int,
                end: end as int,
            },
            Found::More => Next::More,
            Found::Bad(f) => Next::Bad(f),
        }
    }
}

impl Flaw {
    /// The flaw in words.
    pub open spec fn description_spec(self) -> Seq<char> {
        match self {
            Flaw::LessThanInTag => "A '<' stands inside a tag."@,
            Flaw::EmptyTag => "A tag is empty."@,
            Flaw::ForbiddenMarkup => "Markup that a stream may not hold."@,
            Flaw::NoStream => "A tag closes what was not opened."@,
        }
    }

    /// The flaw in words.
    pub fn description(&self) -> (r: &'static str)
        ensures
            r@ == self.description_spec(),
    {
        match self {
            Flaw::LessThanInTag => "A '<' stands inside a tag.",
            Flaw::EmptyTag => "A tag is empty.",
            Flaw::ForbiddenMarkup => "Markup that a stream may not hold.",
            Flaw::NoStream => "A tag closes what was not opened.",
        }
    }
}

fn find_tag_end(b: &Vec<u8>, start: usize) -> (r: Step)
    requires
        start <= b.len(),
    ensures
        r@ == tag_end(b@, start as int, 0),
        r matches Step::At(e) ==> start < e <= b.len(),
{
    let mut i: usize = start;
    let mut quote: u8 = 0;
    while i < b.len()
        invariant
            start <= i <= b.len(),
            tag_end(b@, start as int, 0) == tag_end(b@, i as int, quote),
        decreases b.len() - i,
    {
        let c = b[i];
        if quote != 0 {
            if c == quote {
                quote = 0;
            }
        } else if c == 34 || c == 39 {
            quote = c;
        } else if c == 60 {
            return Step::Bad(Flaw::LessThanInTag);
        } else if c == 62 {
            return Step::At(i + 1);
        }
        i = i + 1;
    }
    Step::More
}

fn find_text_end(b: &Vec<u8>, start: usize) -> (r: Step)
    requires
        start <= b.len(),
    ensures
        r@ == text_end(b@, start as int),
        r matches Step::At(p) ==> start <= p < b.len(),
        !(r is Bad),
{
    let mut i: usize = start;
    while i < b.len()
        invariant
            start <= i <= b.len(),
            text_end(b@, start as int) == text_end(b@, i as int),
        decreases b.len() - i,
    {
        if b[i] == 60 {
            return Step::At(i);
        }
        i = i + 1;
    }
    Step::More
}

fn kind_of_tag(b: &Vec<u8>, start: usize, end: usize) -> (r: TagKind)
    requires
        start < end <= b.len(),
    ensures
        r == tag_kind(b@, start as int, end as int),
{
    if end - start < 3 {
        TagKind::Hollow
    } else if b[start + 1] == 47 {
        TagKind::Close
    } else if b[start + 1] == 63 {
        TagKind::Declaration
    } else if b[start + 1] == 33 {
        TagKind::Forbidden
    } else if b[end - 2] == 47 {
        TagKind::Empty
    } else {
        TagKind::Open
    }
}

fn flaw_of_tag(kind: TagKind) -> (r: Flaw)
    ensures
        r == tag_flaw(kind),
{
    match kind {
        TagKind::Hollow => Flaw::EmptyTag,
        _ => Flaw::ForbiddenMarkup,
    }
}

fn find_element_end(b: &Vec<u8>, start: usize) -> (r: Step)
    requires
        start <= b.len(),
    ensures
        r@ == element_end(b@, start as int, 1),
        r matches Step::At(e) ==> start < e <= b.len(),
{
    let mut i: usize = start;
    let mut depth: usize = 1;
    while i < b.len()
        invariant
            start <= i <= b.len(),
            1 <= depth <= i + 1,
            element_end(b@, start as int, 1) == element_end(b@, i as int, depth as nat),
        decreases b.len() - i,
    {
        if b[i] != 60 {
            i = i + 1;
        } else {
            match find_tag_end(b, i + 1) {
                Step::More => {
                    return Step::More;
                },
                Step::Bad(f) => {
                    return Step::Bad(f);
                },
                Step::At(e) => {
                    match kind_of_tag(b, i, e) {
                        TagKind::Open => {
                            depth = depth + 1;
                        },
                        TagKind::Empty => {},
                        TagKind::Close => {
                            if depth <= 1 {
                                return Step::At(e);
                            }
                            depth = depth - 1;
                        },
                        kind => {
                            return Step::Bad(flaw_of_tag(kind));
                        },
                    }
                    i = e;
                },
            }
        }
    }
    Step::More
}

fn find_stream_open(b: &Vec<u8>) -> (r: Found)
    ensures
        r@ == stream_open(b@, 0),
        r matches Found::Frame { kind, start, end } ==> start < end <= b.len(),
{
    let mut i: usize = 0;
    while i <= b.len()
        invariant
            i <= b.len(),
            stream_open(b@, 0) == stream_open(b@, i as int),
        decreases b.len() - i,
    {
        let p = match find_text_end(b, i) {
            Step::At(p) => p,
            Step::More => {
                return Found::More;
            },
            Step::Bad(f) => {
                return Found::Bad(f);
            },
        };
        let e = match find_tag_end(b, p + 1) {
            Step::At(e) => e,
            Step::More => {
                return Found::More;
            },
            Step::Bad(f) => {
                return Found::Bad(f);
            },
        };
        match kind_of_tag(b, p, e) {
            TagKind::Open => {
                return Found::Frame { kind: FrameKind::StreamOpen, start: p, end: e };
            },
            TagKind::Declaration => {
                i = e;
            },
            TagKind::Close => {
                return Found::Bad(Flaw::NoStream);
            },
            TagKind::Empty => {
                return Found::Bad(Flaw::NoStream);
            },
            kind => {
                return Found::Bad(flaw_of_tag(kind));
            },
        }
    }
    Found::More
}

fn find_stream_child(b: &Vec<u8>) -> (r: Found)
    ensures
        r@ == stream_child(b@),
        r matches Found::Frame { kind, start, end } ==> start <= end <= b.len() && 0 < end,
{
    if b.len() == 0 {
        return Found::More;
    }
    if b[0] != 60 {
        return match find_text_end(b, 0) {
            Step::At(p) => {
                assert(p > 0) by {
                    assert(text_end(b@, 0) == text_end(b@, 1));
                    lemma_text_end_stable(b@, Seq::empty(), 1);
                }
                Found::Frame { kind: FrameKind::Text, start: 0, end: p }
            },
            Step::More => Found::More,
            Step::Bad(f) => Found::Bad(f),
        };
    }
    match find_tag_end(b, 1) {
        Step::More => Found::More,
        Step::Bad(f) => Found::Bad(f),
        Step::At(e) => match kind_of_tag(b, 0, e) {
            TagKind::Close => Found::Frame { kind: FrameKind::StreamClose, start: 0, end: e },
            TagKind::Empty => Found::Frame { kind: FrameKind::Stanza, start: 0, end: e },
            TagKind::Open => match find_element_end(b, e) {
                Step::At(f) => Found::Frame { kind: FrameKind::Stanza, start: 0, end: f },
                Step::More => Found::More,
                Step::Bad(f) => Found::Bad(f),
            },
            kind => Found::Bad(flaw_of_tag(kind)),
        },
    }
}

/// The frames of a list, each with its kind and its bytes.
pub open spec fn frames_view(v: Seq<Frame>) -> Seq<(FrameKind, Seq<u8>)> {
    Seq::new(v.len(), |i: int| (v[i].kind, v[i].bytes@))
}

/// The framer of one connection: the bytes that have arrived and are not
/// handed out yet, and whether the stream is open.
#[derive(Debug)]
pub struct Framer {
    buffer: Vec<u8>,
    inside: bool,
}

/// The bytes of a frame as a document that stands by itself: the open tag of
/// a stream with a `/` put before its last byte, so that the root closes
/// itself; any other frame as it is.
pub open spec fn document_spec(kind: FrameKind, bytes: Seq<u8>) -> Seq<u8> {
    if kind == FrameKind::StreamOpen && bytes.len() > 0 {
        bytes.drop_last().push(47).push(bytes.last())
    } else {
        bytes
    }
}

impl Frame {
    /// The bytes of the frame as a document that stands by itself, for a
    /// reader of whole documents.
    pub fn document(&self) -> (r: Vec<u8>)
        ensures
            r@ == document_spec(self.kind, self.bytes@),
    {
        let is_open = match self.kind {
            FrameKind::StreamOpen => true,
            _ => false,
        };
        let len: usize = self.bytes.len();
        let body: usize = if is_open && len > 0 {
            len - 1
        } else {
            len
        };
        let mut out: Vec<u8> = Vec::new();
        let mut i: usize = 0;
        while i < body
            invariant
                i <= body <= len,
                len == self.bytes@.len(),
                out@ == self.bytes@.take(i as int),
            decreases body - i,
        {
            out.push(self.bytes[i]);
            i = i + 1;
            assert(out@ =~= self.bytes@.take(i as int));
        }
        if body < len {
            out.push(47);
            out.push(self.bytes[body]);
            assert(self.bytes@.take(body as int) =~= self.bytes@.drop_last());
        } else {
            assert(self.bytes@.take(len as int) =~= self.bytes@);
        }
        out
    }
}

impl Framer {
    /// The bytes that have arrived and are not handed out yet.
    pub closed spec fn buffered(&self) -> Seq<u8> {
        self.buffer@
    }

    /// Whether the stream is open.
    pub closed spec fn inside(&self) -> bool {
        self.inside
    }

    /// A framer before the first byte.
    pub fn new() -> (r: Framer)
        ensures
            r.buffered() == Seq::<u8>::empty(),
            !r.inside(),
    {
        Framer { buffer: Vec::new(), inside: false }
    }

    /// Takes bytes as they arrive.
    pub fn feed(&mut self, bytes: &[u8])
        ensures
            final(self).buffered() == old(self).buffered() + bytes@,
            final(self).inside() == old(self).inside(),
    {
        let mut i: usize = 0;
        assert(self.buffer@ =~= old(self).buffer@ + bytes@.take(0));
        while i < bytes.len()
            invariant
                i <= bytes.len(),
                self.inside == old(self).inside,
                self.buffer@ == old(self).buffer@ + bytes@.take(i as int),
            decreases bytes.len() - i,
        {
            self.buffer.push(bytes[i]);
            i = i + 1;
            assert(self.buffer@ =~= old(self).buffer@ + bytes@.take(i as int));
        }
        assert(bytes@.take(bytes.len() as int) =~= bytes@);
    }

    /// How many bytes wait for the rest of their frame.
    pub fn buffered_len(&self) -> (r: usize)
        ensures
            r == self.buffered().len(),
    {
        self.buffer.len()
    }

    /// Whether the stream is open.
    pub fn is_inside(&self) -> (r: bool)
        ensures
            r == self.inside(),
    {
        self.inside
    }

    /// Hands out the next frame, if the bytes hold a whole one, and takes it
    /// and what stands before it out of the buffer. Where the bytes are no
    /// stream, they stay, and the error says what is wrong.
    pub fn next(&mut self) -> (r: Result<Option<Frame>, Error>)
        ensures
            match next_frame(old(self).buffered(), old(self).inside()) {
                Next::Frame { kind, start, end } => {
                    &&& r matches Ok(Some(frame))
                    &&& frame.kind == kind
                    &&& frame.bytes@ == old(self).buffered().subrange(start, end)
                    &&& 0 <= start <= end <= old(self).buffered().len()
                    &&& 0 < end
                    &&& final(self).buffered() == old(self).buffered().skip(end)
                    &&& final(self).inside() == inside_after(kind, old(self).inside())
                },
                Next::More => r matches Ok(None) && final(self).buffered() == old(self).buffered()
                    && final(self).inside() == old(self).inside(),
                Next::Bad(flaw) => r matches Err(e) && e@ == ErrorView::ParseError(
                    flaw.description_spec(),
                ) && final(self).buffered() == old(self).buffered() && final(self).inside()
                    == old(self).inside(),
            },
    {
        let found = if self.inside {
            find_stream_child(&self.buffer)
        } else {
            find_stream_open(&self.buffer)
        };
        match found {
            Found::More => Ok(None),
            Found::Bad(flaw) => Err(Error::ParseError(flaw.description())),
            Found::Frame { kind, start, end } => {
                let mut head = self.buffer.split_off(end);
                std::mem::swap(&mut self.buffer, &mut head);
                let bytes = head.split_off(start);
                self.inside = match kind {
                    FrameKind::StreamOpen => true,
                    FrameKind::StreamClose => false,
                    _ => self.inside,
                };
                assert(bytes@ =~= old(self).buffer@.subrange(start as int, end as int));
                assert(self.buffer@ =~= old(self).buffer@.skip(end as int));
                Ok(Some(Frame { kind, bytes }))
            },
        }
    }

    /// Hands out all the frames that the bytes hold, and the error that
    /// stopped the framer, if one did.
    pub fn drain(&mut self) -> (r: (Vec<Frame>, Option<Error>))
        ensures
            frames_view(r.0@) == frames(old(self).buffered(), old(self).inside()),
            (final(self).buffered(), final(self).inside()) == leftover(
                old(self).buffered(),
                old(self).inside(),
            ),
            match next_frame(final(self).buffered(), final(self).inside()) {
                Next::Bad(flaw) => r.1 matches Some(e) && e@ == ErrorView::ParseError(
                    flaw.description_spec(),
                ),
                _ => r.1 is None,
            },
    {
        let mut out: Vec<Frame> = Vec::new();
        let ghost all = frames(self.buffered(), self.inside());
        assert(frames_view(out@) + all =~= all);
        loop
            invariant
                all == frames(old(self).buffered(), old(self).inside()),
                all == frames_view(out@) + frames(self.buffered(), self.inside()),
                leftover(old(self).buffered(), old(self).inside()) == leftover(
                    self.buffered(),
                    self.inside(),
                ),
            decreases self.buffered().len(),
        {
            let ghost before = frames_view(out@);
            let ghost rest = frames(self.buffered(), self.inside());
            match self.next() {
                Ok(Some(frame)) => {
                    let ghost item = (frame.kind, frame.bytes@);
                    out.push(frame);
                    proof {
                        assert(frames_view(out@) =~= before.push(item));
                        assert(rest == seq![item] + frames(self.buffered(), self.inside()));
                        assert(before + rest =~= frames_view(out@) + frames(
                            self.buffered(),
                            self.inside(),
                        ));
                    }
                },
                Ok(None) => {
                    assert(rest =~= Seq::empty());
                    assert(before + rest =~= before);
                    return (out, None);
                },
                Err(e) => {
                    assert(rest =~= Seq::empty());
                    assert(before + rest =~= before);
                    return (out, Some(e));
                },
            }
        }
    }

    /// Begins anew for a stream that is opened again on the same connection:
    /// the framer awaits an open tag, and keeps every byte that it holds,
    /// since those belong to the new stream.
    pub fn restart(&mut self)
        ensures
            final(self).buffered() == old(self).buffered(),
            !final(self).inside(),
    {
        self.inside = false;
    }
}

} // verus!
