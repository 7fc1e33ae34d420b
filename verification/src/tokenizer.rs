//! From the bytes of a document to its events.
//!
//! The tokenizing itself is done by `quick_xml`. What is proved here is the
//! bookkeeping around it: which bytes each event spans, where the name of a
//! tag ends, which attributes could be read, that the events come out in
//! document order, and that reading goes on behind a failure.

use crate::pump::{ordered_spans, tail_length, XmlEventPump, TAIL_WINDOW};
use crate::text::{decode_utf8_lossy, utf8_lossy};
use crate::views::{first_where, is_first_where, lemma_first_where, lemma_views_push, views};
use crate::xml::{
    Attribute, AttributeView, EndElement, Failure, FailureView, SourceEvent, SourceEventView,
    StartElement, StartElementView, TextContent, XmlError, XmlErrorView, XmlEvent, XmlEventView,
};
use quick_xml::events::attributes::Attributes;
use quick_xml::events::Event;
use quick_xml::Reader;
use std::io::Cursor;
use vstd::prelude::*;

verus! {

/// `quick_xml::Reader`. What is claimed of a reader is said through
/// `reader_document` and `reader_count`.
#[verifier::external_type_specification]
#[verifier::external_body]
#[verifier::reject_recursive_types(R)]
pub struct ExReader<R>(Reader<R>);

/// The kinds of token that carry no error.
#[derive(Clone, Copy, Debug, PartialEq, Eq, Structural)]
pub enum TokenKind {
    Start,
    End,
    Empty,
    Text,
    Eof,
    Other,
}

/// One token of a document as a plain value: an event with its bytes, or an
/// error.
pub enum TokenView {
    /// A token of the given kind. For a tag the bytes are what stands between
    /// `<` and `>`, without the `/` that closes an empty element or opens a
    /// closing tag; for text they are the text with surrounding whitespace
    /// removed.
    Event(TokenKind, Seq<u8>),
    /// The error that the read ended with.
    Failed(XmlErrorView),
}

/// The token that a `quick_xml::Reader` which trims text gives for its
/// `ordinal`-th read of `document`.
pub uninterp spec fn xml_token(document: Seq<u8>, ordinal: nat) -> TokenView;

/// The bytes that the `ordinal`-th read of `document` takes into an empty
/// buffer.
pub uninterp spec fn xml_buffer(document: Seq<u8>, ordinal: nat) -> Seq<u8>;

/// The byte position that a reader of `document` reports after `count`
/// reads.
pub uninterp spec fn xml_offset(document: Seq<u8>, count: nat) -> nat;

/// What the attribute parser of `quick_xml` makes of the text that follows
/// the name in a tag: the attributes in order, `None` for each that is
/// malformed.
pub uninterp spec fn xml_attributes(rest: Seq<char>) -> Seq<Option<AttributeView>>;

/// The document a reader reads.
pub uninterp spec fn reader_document(reader: Reader<Cursor<Vec<u8>>>) -> Seq<u8>;

/// The number of reads a reader has made.
pub uninterp spec fn reader_count(reader: Reader<Cursor<Vec<u8>>>) -> nat;

/// What a read returned, as a token.
pub open spec fn token_of(read: Result<(TokenKind, Vec<u8>), XmlError>) -> TokenView {
    match read {
        Ok((kind, content)) => TokenView::Event(kind, content@),
        Err(error) => TokenView::Failed(error@),
    }
}

/// The plain values of attributes that may be missing.
pub open spec fn optional_views(items: Seq<Option<Attribute>>) -> Seq<Option<AttributeView>> {
    Seq::new(
        items.len(),
        |i: int|
            match items[i] {
                Some(attribute) => Some(attribute@),
                None => None,
            },
    )
}

/// Calls `quick_xml::Reader::from_reader` on a cursor over `document` and
/// `quick_xml::Reader::trim_text`. Trusted: the reader reads exactly these
/// bytes and has read nothing yet.
#[verifier::external_body]
fn reader_open(document: Vec<u8>) -> (reader: Reader<Cursor<Vec<u8>>>)
    ensures
        reader_document(reader) == document@,
        reader_count(reader) == 0,
{
    let mut reader = Reader::from_reader(Cursor::new(document));
    reader.trim_text(true);
    reader
}

/// Calls `quick_xml::Reader::read_event_into`. Trusted: what a read gives is
/// a function of the document and of the number of reads before it, and so
/// is what it leaves in a buffer that was empty. An error is a mismatched
/// closing tag or comes with the message of `quick_xml`.
#[verifier::external_body]
fn reader_next(reader: &mut Reader<Cursor<Vec<u8>>>, buf: &mut Vec<u8>) -> (r: Result<
    (TokenKind, Vec<u8>),
    XmlError,
>)
    requires
        old(buf)@.len() == 0,
    ensures
        reader_document(*final(reader)) == reader_document(*old(reader)),
        reader_count(*final(reader)) == reader_count(*old(reader)) + 1,
        token_of(r) == xml_token(reader_document(*old(reader)), reader_count(*old(reader))),
        final(buf)@ == xml_buffer(reader_document(*old(reader)), reader_count(*old(reader))),
        r matches Err(error) ==> error is EndEventMismatch || error is Syntax,
{
    match reader.read_event_into(buf) {
        Ok(Event::Start(e)) => Ok((TokenKind::Start, e.to_vec())),
        Ok(Event::Empty(e)) => Ok((TokenKind::Empty, e.to_vec())),
        Ok(Event::End(e)) => Ok((TokenKind::End, e.to_vec())),
        Ok(Event::Text(e)) => Ok((TokenKind::Text, e.to_vec())),
        Ok(Event::Eof) => Ok((TokenKind::Eof, Vec::new())),
        Ok(_) => Ok((TokenKind::Other, Vec::new())),
        Err(quick_xml::Error::EndEventMismatch { expected, found }) => Err(
            XmlError::EndEventMismatch { expected, found },
        ),
        Err(e) => Err(XmlError::Syntax(e.to_string())),
    }
}

/// Calls `quick_xml::Reader::buffer_position`. Trusted: the position is a
/// function of the document and of the number of reads made.
#[verifier::external_body]
fn reader_position(reader: &Reader<Cursor<Vec<u8>>>) -> (r: usize)
    ensures
        r == xml_offset(reader_document(*reader), reader_count(*reader)),
{
    reader.buffer_position()
}

/// Calls `quick_xml::events::attributes::Attributes::new` at position zero
/// and walks the iterator. Trusted: the result is a function of the text
/// alone.
#[verifier::external_body]
fn parse_attributes(rest: &str) -> (r: Vec<Option<Attribute>>)
    ensures
        optional_views(r@) == xml_attributes(rest@),
{
    Attributes::new(rest, 0).map(|a| a.ok().map(|a| Attribute {
        key: String::from_utf8_lossy(a.key.as_ref()).into_owned(),
        value: String::from_utf8_lossy(&a.value).into_owned(),
    })).collect()
}

/// Whether `c` is one of the characters that end the name of a tag: blank,
/// tab, line feed or carriage return.
pub open spec fn is_space(c: char) -> bool {
    c == ' ' || c == '\t' || c == '\n' || c == '\r'
}

/// Whether an attribute could not be read.
pub open spec fn is_unreadable(item: Option<AttributeView>) -> bool {
    item is None
}

/// The element that the bytes of a tag spell: the name runs up to the first
/// whitespace, the attributes are those that could be read before the first
/// that could not.
pub open spec fn element_of(content: Seq<u8>) -> StartElementView {
    let text = utf8_lossy(content);
    let k = first_where(text, |c: char| is_space(c));
    let parsed = xml_attributes(text.skip(k));
    let m = first_where(parsed, |item: Option<AttributeView>| is_unreadable(item));
    StartElementView {
        name: text.take(k),
        attributes: Seq::new(m as nat, |i: int| parsed[i]->0),
        malformed: m < parsed.len(),
    }
}

/// The event that a token stands for. `buffer` holds the bytes that were
/// read for it; they are the excerpt of an error.
pub open spec fn event_of(token: TokenView, buffer: Seq<u8>) -> XmlEventView {
    match token {
        TokenView::Event(TokenKind::Start, content) => XmlEventView::Start(element_of(content)),
        TokenView::Event(TokenKind::Empty, content) => XmlEventView::Empty(element_of(content)),
        TokenView::Event(TokenKind::End, content) => XmlEventView::End(utf8_lossy(content)),
        TokenView::Event(TokenKind::Text, content) => XmlEventView::Text(utf8_lossy(content)),
        TokenView::Event(TokenKind::Eof, _) => XmlEventView::Eof,
        TokenView::Event(TokenKind::Other, _) => XmlEventView::Other,
        TokenView::Failed(error) => XmlEventView::Error(
            FailureView { error, excerpt: utf8_lossy(buffer) },
        ),
    }
}

/// Whether a token is a tag: an opening tag, a closing tag or an empty
/// element.
pub open spec fn is_tag(token: TokenView) -> bool {
    token matches TokenView::Event(kind, _) && (kind == TokenKind::Start || kind
        == TokenKind::Empty || kind == TokenKind::End)
}

/// How many bytes a tag takes in the document: the bytes that were read for
/// it, which are all that stands between `<` and `>`, and the two brackets.
/// `None` for what is no tag.
pub open spec fn markup_bytes(token: TokenView, buffer: Seq<u8>) -> Option<int> {
    if is_tag(token) {
        Some(buffer.len() as int + 2)
    } else {
        None
    }
}

/// Where the span of a token starts that ends at `end`, the token before it
/// having ended at `floor`: a tag starts as many bytes before its end as it
/// takes, anything else where the token before it ended. No span starts
/// before `floor`.
pub open spec fn span_start(token: TokenView, buffer: Seq<u8>, floor: u64, end: u64) -> u64 {
    match markup_bytes(token, buffer) {
        Some(markup) => if end - markup >= floor {
            (end - markup) as u64
        } else {
            floor
        },
        None => floor,
    }
}

/// Whether a token is a failure of the reader.
pub open spec fn is_failure(token: TokenView) -> bool {
    token is Failed
}

/// Whether a token is a closing tag that does not match the open element.
pub open spec fn is_mismatch(token: TokenView) -> bool {
    token matches TokenView::Failed(error) && error is EndEventMismatch
}

/// Where a reader has got to after a token, counted from where it began:
/// the position it reports, and for a mismatched closing tag the bytes read
/// for the tag on top, since the reader reports such a tag at its start.
pub open spec fn reached(token: TokenView, buffer: Seq<u8>, position: nat) -> nat {
    if is_mismatch(token) {
        position + buffer.len()
    } else {
        position
    }
}

/// Where in the document a token ends that a reader gives for its
/// `ordinal`-th read, the reader having begun at byte `base`: where the
/// reader has got to, within the document.
pub open spec fn token_end(document: Seq<u8>, base: nat, ordinal: nat) -> int {
    let rest = document.skip(base as int);
    let end = base + reached(
        xml_token(rest, ordinal),
        xml_buffer(rest, ordinal),
        xml_offset(rest, ordinal + 1),
    );
    if end < document.len() {
        end as int
    } else {
        document.len() as int
    }
}

/// Whether a token ends the document.
pub open spec fn is_end(token: TokenView) -> bool {
    token matches TokenView::Event(TokenKind::Eof, _)
}

/// The events of a document from the `ordinal`-th token on of a reader that
/// began at byte `base`, the token before having ended at `floor`.
///
/// Behind a failure a fresh reader goes on with the bytes that remain, as if
/// the document began there. The events end with the document, or where a
/// reader makes no progress.
pub open spec fn tokens_from(document: Seq<u8>, base: nat, ordinal: nat, floor: u64) -> Seq<
    SourceEventView,
>
    decreases document.len() - floor,
{
    let rest = document.skip(base as int);
    let token = xml_token(rest, ordinal);
    let buffer = xml_buffer(rest, ordinal);
    let end = token_end(document, base, ordinal);
    if is_end(token) || end <= floor || document.len() > u64::MAX {
        Seq::empty()
    } else {
        let event = SourceEventView {
            event: event_of(token, buffer),
            start: span_start(token, buffer, floor, end as u64),
            end: end as u64,
        };
        if is_failure(token) {
            seq![event] + tokens_from(document, end as nat, 0, end as u64)
        } else {
            seq![event] + tokens_from(document, base, ordinal + 1, end as u64)
        }
    }
}

/// The events of a document.
pub open spec fn tokens(document: Seq<u8>) -> Seq<SourceEventView> {
    tokens_from(document, 0, 0, 0)
}

/// The last bytes of a document: as many as the tail window holds.
pub open spec fn tail_of(document: Seq<u8>) -> Seq<u8> {
    if document.len() < TAIL_WINDOW {
        document
    } else {
        document.skip(document.len() - TAIL_WINDOW)
    }
}

/// Reads the element that the bytes of a tag spell.
pub fn element_from(content: &[u8]) -> (r: StartElement)
    ensures
        r@ == element_of(content@),
{
    let text = decode_utf8_lossy(content);
    let n = text.as_str().unicode_len();
    let mut k: usize = 0;
    while k < n
        invariant
            n == text@.len(),
            k <= n,
            forall|i: int| 0 <= i < k ==> !is_space(#[trigger] text@[i]),
        ensures
            k <= n,
            k < n ==> is_space(text@[k as int]),
        decreases n - k,
    {
        let c = text.as_str().get_char(k);
        if c == ' ' || c == '\t' || c == '\n' || c == '\r' {
            break ;
        }
        k = k + 1;
    }
    proof {
        let p = |c: char| is_space(c);
        assert(is_first_where(text@, p, k as int));
        lemma_first_where(text@, p, k as int);
    }
    let name = text.as_str().substring_char(0, k).to_owned();
    let parsed = parse_attributes(text.as_str().substring_char(k, n));
    let ghost items = xml_attributes(text@.skip(k as int));
    proof {
        assert(text@.subrange(k as int, n as int) =~= text@.skip(k as int));
        assert(text@.subrange(0, k as int) =~= text@.take(k as int));
        assert(optional_views(parsed@).len() == parsed@.len());
    }
    let mut attributes: Vec<Attribute> = Vec::new();
    let mut i: usize = 0;
    while i < parsed.len()
        invariant
            i <= parsed@.len(),
            items == optional_views(parsed@),
            attributes@.len() == i,
            forall|j: int| 0 <= j < i ==> !is_unreadable(#[trigger] items[j]),
            forall|j: int| 0 <= j < i ==> (#[trigger] attributes@[j])@ == items[j]->0,
        ensures
            i <= parsed@.len(),
            i < parsed@.len() ==> is_unreadable(items[i as int]),
        decreases parsed@.len() - i,
    {
        proof {
            assert(items[i as int] == optional_views(parsed@)[i as int]);
        }
        match &parsed[i] {
            Some(attribute) => {
                attributes.push(
                    Attribute { key: attribute.key.clone(), value: attribute.value.clone() },
                );
            },
            None => {
                break ;
            },
        }
        i = i + 1;
    }
    proof {
        let q = |item: Option<AttributeView>| is_unreadable(item);
        assert(is_first_where(items, q, i as int));
        lemma_first_where(items, q, i as int);
        assert(views(attributes@) =~= Seq::new(i as nat, |j: int| items[j]->0));
    }
    StartElement { name, attributes, malformed: i < parsed.len() }
}

/// Makes the event that a token stands for. `buffer` holds the bytes that
/// were read for the token.
pub fn event_from(read: Result<(TokenKind, Vec<u8>), XmlError>, buffer: &[u8]) -> (r: XmlEvent)
    ensures
        r@ == event_of(token_of(read), buffer@),
{
    match read {
        Ok((TokenKind::Start, content)) => XmlEvent::Start(element_from(content.as_slice())),
        Ok((TokenKind::Empty, content)) => XmlEvent::Empty(element_from(content.as_slice())),
        Ok((TokenKind::End, content)) => XmlEvent::End(
            EndElement { name: decode_utf8_lossy(content.as_slice()) },
        ),
        Ok((TokenKind::Text, content)) => XmlEvent::Text(
            TextContent { content: decode_utf8_lossy(content.as_slice()) },
        ),
        Ok((TokenKind::Eof, _)) => XmlEvent::Eof,
        Ok((TokenKind::Other, _)) => XmlEvent::Other,
        Err(error) => XmlEvent::Error(Failure { error, excerpt: decode_utf8_lossy(buffer) }),
    }
}

/// Copies the last bytes of a document, as many as the tail window holds.
fn copy_tail(document: &Vec<u8>) -> (tail: Vec<u8>)
    ensures
        tail@ == tail_of(document@),
        tail@.len() == tail_length(document@.len() as u64),
{
    let held: usize = if document.len() < TAIL_WINDOW as usize {
        document.len()
    } else {
        TAIL_WINDOW as usize
    };
    let first: usize = document.len() - held;
    let mut tail: Vec<u8> = Vec::new();
    let mut i: usize = first;
    while i < document.len()
        invariant
            first <= i <= document@.len(),
            tail@ == document@.subrange(first as int, i as int),
        decreases document@.len() - i,
    {
        tail.push(document[i]);
        proof {
            assert(tail@ =~= document@.subrange(first as int, i + 1));
        }
        i = i + 1;
    }
    proof {
        assert(tail@ =~= document@.skip(first as int));
        if first == 0 {
            assert(document@.skip(0) =~= document@);
        }
    }
    tail
}

/// Where the span of a token starts for which `buffer` was read.
fn start_of(
    read: &Result<(TokenKind, Vec<u8>), XmlError>,
    buffer: &Vec<u8>,
    floor: u64,
    end: u64,
) -> (r: u64)
    requires
        floor <= end,
    ensures
        r == span_start(token_of(*read), buffer@, floor, end),
        floor <= r <= end,
{
    let markup: u128 = match read {
        Ok((TokenKind::Start, _)) => buffer.len() as u128 + 2,
        Ok((TokenKind::Empty, _)) => buffer.len() as u128 + 2,
        Ok((TokenKind::End, _)) => buffer.len() as u128 + 2,
        _ => {
            return floor;
        },
    };
    if end as u128 >= markup && end as u128 - markup >= floor as u128 {
        (end as u128 - markup) as u64
    } else {
        floor
    }
}

/// Copies the bytes of a document from index `from` on.
fn copy_rest(document: &Vec<u8>, from: usize) -> (rest: Vec<u8>)
    requires
        from <= document@.len(),
    ensures
        rest@ == document@.skip(from as int),
{
    let mut rest: Vec<u8> = Vec::new();
    let mut i: usize = from;
    while i < document.len()
        invariant
            from <= i <= document@.len(),
            rest@ == document@.subrange(from as int, i as int),
        decreases document@.len() - i,
    {
        rest.push(document[i]);
        proof {
            assert(rest@ =~= document@.subrange(from as int, i + 1));
        }
        i = i + 1;
    }
    proof {
        assert(rest@ =~= document@.skip(from as int));
    }
    rest
}

/// Where in a document of `length` bytes a token ends, for which `buffer`
/// was read by a reader that began at byte `base` and now reports
/// `position`.
fn end_of(
    read: &Result<(TokenKind, Vec<u8>), XmlError>,
    buffer: &Vec<u8>,
    base: u64,
    position: usize,
    length: u64,
) -> (end: u64)
    ensures
        end <= length,
        end == if base + reached(token_of(*read), buffer@, position as nat) < length {
            base + reached(token_of(*read), buffer@, position as nat)
        } else {
            length as int
        },
{
    let extra: usize = match read {
        Err(XmlError::EndEventMismatch { .. }) => buffer.len(),
        _ => 0,
    };
    let reported: u128 = base as u128 + position as u128 + extra as u128;
    if reported < length as u128 {
        reported as u64
    } else {
        length
    }
}

/// Tokenizes a document: reads its events one after the other and records
/// for each the bytes it spans. Behind a failure a fresh reader goes on with
/// the bytes that remain. The pump that comes back stands at the first byte.
pub fn tokenize(document: Vec<u8>) -> (pump: XmlEventPump)
    ensures
        pump.wf(),
        views(pump.events()) == tokens(document@),
        pump.length() == document@.len(),
        pump.tail() == tail_of(document@),
        pump.position() == 0,
{
    let total: usize = document.len();
    let length: u64 = total as u64;
    let tail = copy_tail(&document);
    let ghost bytes = document@;
    let mut reader = reader_open(copy_rest(&document, 0));
    let mut events: Vec<SourceEvent> = Vec::new();
    let mut base: u64 = 0;
    let mut floor: u64 = 0;
    let ghost mut count: nat = 0;
    proof {
        assert(views(events@) =~= Seq::<SourceEventView>::empty());
        assert(Seq::<SourceEventView>::empty() + tokens_from(bytes, 0, 0, 0) =~= tokens(bytes));
    }
    loop
        invariant_except_break
            views(events@) + tokens_from(bytes, base as nat, count, floor) == tokens(bytes),
            reader_count(reader) == count,
        invariant
            bytes == document@,
            length == bytes.len(),
            total == bytes.len(),
            reader_document(reader) == bytes.skip(base as int),
            base <= length,
            floor <= length,
            ordered_spans(events@, floor),
        ensures
            views(events@) == tokens(bytes),
        decreases length - floor,
    {
        let mut buffer: Vec<u8> = Vec::new();
        let read = reader_next(&mut reader, &mut buffer);
        let position = reader_position(&reader);
        let end = end_of(&read, &buffer, base, position, length);
        let ghost rest = tokens_from(bytes, base as nat, count, floor);
        let at_end = match &read {
            Ok((TokenKind::Eof, _)) => true,
            _ => false,
        };
        if at_end || end <= floor {
            proof {
                assert(rest =~= Seq::<SourceEventView>::empty());
                assert(views(events@) + rest =~= views(events@));
            }
            break ;
        }
        let failed = match &read {
            Err(_) => true,
            _ => false,
        };
        let start = start_of(&read, &buffer, floor, end);
        let event = event_from(read, buffer.as_slice());
        let source = SourceEvent { event, start, end };
        proof {
            lemma_views_push(events@, source);
            let ahead = if failed {
                tokens_from(bytes, end as nat, 0, end)
            } else {
                tokens_from(bytes, base as nat, count + 1, end)
            };
            assert(rest =~= seq![source@] + ahead);
            assert(views(events@).push(source@) + ahead =~= views(events@) + rest);
            assert forall|i: int, j: int| 0 <= i < j < events@.push(source).len() implies (
            #[trigger] events@.push(source)[i]).end <= (#[trigger] events@.push(source)[j]).start by {
                if j < events@.len() {
                } else {
                    assert(events@[i].end <= floor);
                }
            }
        }
        events.push(source);
        floor = end;
        if failed {
            reader = reader_open(copy_rest(&document, end as usize));
            base = end;
            proof {
                count = 0;
            }
        } else {
            proof {
                count = count + 1;
            }
        }
    }
    match XmlEventPump::new(events, length, tail) {
        Some(pump) => pump,
        None => {
            proof {
                assert(false);
            }
            XmlEventPump::empty()
        },
    }
}

} // verus!
