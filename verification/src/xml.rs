//! XML events as plain values.
//!
//! A tokenizer turns the bytes of a document into a stream of events. The
//! types here hold what the mzML handlers read from an event: element names,
//! attributes with their values as written in the document, and text.

use crate::views::{optional_text, views};
use vstd::prelude::*;

verus! {

/// One attribute of an element. The value is kept as it stands in the
/// document, with character references and entities not yet replaced.
#[derive(Debug)]
pub struct Attribute {
    pub key: String,
    pub value: String,
}

/// The opening tag of an element, or an empty element.
#[derive(Debug)]
pub struct StartElement {
    pub name: String,
    /// The attributes in document order, up to the first that could not be
    /// read.
    pub attributes: Vec<Attribute>,
    /// Whether an attribute that could not be read follows `attributes`.
    pub malformed: bool,
}

/// The closing tag of an element.
#[derive(Debug)]
pub struct EndElement {
    pub name: String,
}

/// Character data between tags, surrounding whitespace removed, as it stands
/// in the document.
#[derive(Debug)]
pub struct TextContent {
    pub content: String,
}

/// What can be wrong with the XML of a document.
#[derive(Debug)]
pub enum XmlError {
    /// A closing tag does not match the element that is open. `expected` is
    /// empty where no element is open.
    EndEventMismatch { expected: String, found: String },
    /// An attribute could not be read.
    MalformedAttribute,
    /// A character reference or entity could not be replaced.
    Escape,
    /// Any other syntax error, with the tokenizer's message.
    Syntax(String),
}

/// A stretch of the document that the tokenizer could not read.
#[derive(Debug)]
pub struct Failure {
    pub error: XmlError,
    /// The bytes the tokenizer had taken in when it failed, as text.
    pub excerpt: String,
}

/// One event of the stream.
#[derive(Debug)]
pub enum XmlEvent {
    Start(StartElement),
    End(EndElement),
    Empty(StartElement),
    Text(TextContent),
    /// The end of the document.
    Eof,
    /// The tokenizer failed on this stretch of the document.
    Error(Failure),
    /// A comment, declaration, processing instruction or the like.
    Other,
}

/// An event together with the bytes of the source it was read from: the
/// half-open range from `start` to `end`.
#[derive(Debug)]
pub struct SourceEvent {
    pub event: XmlEvent,
    pub start: u64,
    pub end: u64,
}

/// An attribute as a plain value.
pub struct AttributeView {
    pub key: Seq<char>,
    pub value: Seq<char>,
}

impl View for Attribute {
    type V = AttributeView;

    open spec fn view(&self) -> AttributeView {
        AttributeView { key: self.key@, value: self.value@ }
    }
}

/// An opening tag as a plain value.
pub struct StartElementView {
    pub name: Seq<char>,
    pub attributes: Seq<AttributeView>,
    pub malformed: bool,
}

impl View for StartElement {
    type V = StartElementView;

    open spec fn view(&self) -> StartElementView {
        StartElementView {
            name: self.name@,
            attributes: views(self.attributes@),
            malformed: self.malformed,
        }
    }
}

/// An XML error as a plain value.
pub enum XmlErrorView {
    EndEventMismatch { expected: Seq<char>, found: Seq<char> },
    MalformedAttribute,
    Escape,
    Syntax(Seq<char>),
}

impl View for XmlError {
    type V = XmlErrorView;

    open spec fn view(&self) -> XmlErrorView {
        match self {
            XmlError::EndEventMismatch { expected, found } => XmlErrorView::EndEventMismatch {
                expected: expected@,
                found: found@,
            },
            XmlError::MalformedAttribute => XmlErrorView::MalformedAttribute,
            XmlError::Escape => XmlErrorView::Escape,
            XmlError::Syntax(message) => XmlErrorView::Syntax(message@),
        }
    }
}

/// A failure of the tokenizer as a plain value.
pub struct FailureView {
    pub error: XmlErrorView,
    pub excerpt: Seq<char>,
}

/// An event as a plain value.
pub enum XmlEventView {
    Start(StartElementView),
    End(Seq<char>),
    Empty(StartElementView),
    Text(Seq<char>),
    Eof,
    Error(FailureView),
    Other,
}

impl View for XmlEvent {
    type V = XmlEventView;

    open spec fn view(&self) -> XmlEventView {
        match self {
            XmlEvent::Start(e) => XmlEventView::Start(e@),
            XmlEvent::End(e) => XmlEventView::End(e.name@),
            XmlEvent::Empty(e) => XmlEventView::Empty(e@),
            XmlEvent::Text(t) => XmlEventView::Text(t.content@),
            XmlEvent::Eof => XmlEventView::Eof,
            XmlEvent::Error(f) => XmlEventView::Error(
                FailureView { error: f.error@, excerpt: f.excerpt@ },
            ),
            XmlEvent::Other => XmlEventView::Other,
        }
    }
}

/// An event with its span as a plain value.
pub struct SourceEventView {
    pub event: XmlEventView,
    pub start: u64,
    pub end: u64,
}

impl View for SourceEvent {
    type V = SourceEventView;

    open spec fn view(&self) -> SourceEventView {
        SourceEventView { event: self.event@, start: self.start, end: self.end }
    }
}

/// The text that `quick_xml::escape::unescape` makes of `raw`, or `None`
/// where it reports an error.
pub uninterp spec fn xml_unescaped(raw: Seq<char>) -> Option<Seq<char>>;

/// Calls `quick_xml::escape::unescape`. Trusted: the result is a function of
/// `raw` alone, and a text without `&` comes back as it is.
#[verifier::external_body]
pub(crate) fn unescape(raw: &str) -> (r: Option<String>)
    ensures
        optional_text(r) == xml_unescaped(raw@),
        !raw@.contains('&') ==> optional_text(r) == Some(raw@),
{
    quick_xml::escape::unescape(raw).ok().map(|text| text.into_owned())
}

impl XmlError {
    /// A copy of the error.
    pub fn duplicate(&self) -> (r: XmlError)
        ensures
            r == *self,
    {
        match self {
            XmlError::EndEventMismatch { expected, found } => XmlError::EndEventMismatch {
                expected: expected.clone(),
                found: found.clone(),
            },
            XmlError::MalformedAttribute => XmlError::MalformedAttribute,
            XmlError::Escape => XmlError::Escape,
            XmlError::Syntax(message) => XmlError::Syntax(message.clone()),
        }
    }
}

/// The value, as written, of the first attribute named `key`.
pub open spec fn raw_attribute(attributes: Seq<Attribute>, key: Seq<char>) -> Option<Seq<char>>
    decreases attributes.len(),
{
    if attributes.len() == 0 {
        None
    } else if attributes[0].key@ == key {
        Some(attributes[0].value@)
    } else {
        raw_attribute(attributes.skip(1), key)
    }
}

} // verus!
