//! What a pass over the events of a document comes to: for the metadata, for
//! one spectrum, and for the index list.

use crate::mzml::builder::{
    empty_builder, spectrum_empty, spectrum_end, spectrum_start, spectrum_text,
    SpectrumBuilderView, Step,
};
use crate::mzml::index::{index_end, index_start, index_text, ExtractorView};
use crate::mzml::meta::{
    metadata_complete, metadata_empty, metadata_end, metadata_start, MetadataView,
};
use crate::mzml::state::{IndexParserState, MzMLParserError, MzMLParserState};
use crate::pump::next_event;
use crate::xml::{Failure, SourceEvent, XmlError, XmlEvent};
use vstd::prelude::*;

verus! {

/// The state and the held error after a handler has answered: its state, or
/// the error state with its error.
pub open spec fn settle(step: Step, error: MzMLParserError) -> (MzMLParserState, MzMLParserError) {
    match step {
        Ok(state) => (state, error),
        Err(raised) => (MzMLParserState::ParserError, raised),
    }
}

/// Whether a failure of the tokenizer is passed over: a closing tag without
/// an open element, met while reading resumes in the middle of a document.
pub open spec fn tolerated(failure: Failure, state: MzMLParserState) -> bool {
    &&& state == MzMLParserState::Resume
    &&& failure.error matches XmlError::EndEventMismatch { expected, found }
    &&& expected@.len() == 0
}

/// The error held for a failure of the tokenizer in `state`.
pub open spec fn broken_element(failure: Failure, state: MzMLParserState) -> MzMLParserError {
    MzMLParserError::IncompleteElementError(failure.excerpt, state)
}

/// What an event other than a failure or the end does to a spectrum builder.
pub open spec fn spectrum_event(b: SpectrumBuilderView, event: XmlEvent, state: MzMLParserState)
    -> (SpectrumBuilderView, Step) {
    match event {
        XmlEvent::Start(e) => spectrum_start(b, e, state),
        XmlEvent::End(e) => spectrum_end(b, e.name@, state),
        XmlEvent::Empty(e) => spectrum_empty(b, e, state),
        XmlEvent::Text(t) => spectrum_text(b, t, state),
        _ => (b, Ok(state)),
    }
}

/// Whether reading a spectrum stops in `state`.
pub open spec fn spectrum_pass_stops(state: MzMLParserState) -> bool {
    state == MzMLParserState::SpectrumDone || state == MzMLParserState::ParserError
}

/// How a pass over the events ended.
pub struct SpectrumPass {
    pub state: MzMLParserState,
    pub error: MzMLParserError,
    pub builder: SpectrumBuilderView,
    /// The ordinal of the event after the last one read.
    pub next: int,
    /// Whether the pass ran out of events.
    pub at_end: bool,
}

/// Reads events from ordinal `k` on into a spectrum builder until a spectrum
/// is complete, an error is met or the events end.
pub open spec fn spectrum_pass(
    events: Seq<SourceEvent>,
    k: int,
    state: MzMLParserState,
    error: MzMLParserError,
    b: SpectrumBuilderView,
) -> SpectrumPass
    decreases events.len() - k,
{
    if k < 0 || k >= events.len() {
        SpectrumPass { state, error, builder: b, next: k, at_end: true }
    } else {
        match events[k].event {
            XmlEvent::Eof => SpectrumPass { state, error, builder: b, next: k + 1, at_end: false },
            XmlEvent::Error(failure) => if tolerated(failure, state) {
                spectrum_pass(events, k + 1, state, error, b)
            } else {
                SpectrumPass {
                    state: MzMLParserState::ParserError,
                    error: broken_element(failure, state),
                    builder: b,
                    next: k + 1,
                    at_end: false,
                }
            },
            event => {
                let handled = spectrum_event(b, event, state);
                let settled = settle(handled.1, error);
                if spectrum_pass_stops(settled.0) {
                    SpectrumPass {
                        state: settled.0,
                        error: settled.1,
                        builder: handled.0,
                        next: k + 1,
                        at_end: false,
                    }
                } else {
                    spectrum_pass(events, k + 1, settled.0, settled.1, handled.0)
                }
            },
        }
    }
}

/// Where the cursor stands after a pass that began at `position`: at the end
/// of the last event read, or at the end of the source once the events ran
/// out.
pub open spec fn position_after(
    events: Seq<SourceEvent>,
    length: u64,
    position: u64,
    next: int,
    at_end: bool,
) -> u64 {
    if at_end {
        if position < length {
            length
        } else {
            position
        }
    } else {
        events[next - 1].end
    }
}

/// What a read returns after a pass that ended in `state` with `error` held,
/// having moved the cursor by `consumed` bytes.
pub open spec fn spectrum_outcome(state: MzMLParserState, error: MzMLParserError, consumed: u64)
    -> Result<u64, MzMLParserError> {
    match state {
        MzMLParserState::SpectrumDone => Ok(consumed),
        MzMLParserState::ParserError => Err(error),
        _ => Err(MzMLParserError::IncompleteSpectrum),
    }
}

/// The error that stays held after a pass: none once it has been returned.
pub open spec fn error_left(state: MzMLParserState, error: MzMLParserError) -> MzMLParserError {
    if state == MzMLParserState::ParserError {
        MzMLParserError::NoError
    } else {
        error
    }
}

/// The state a read starts in: a reader that has just delivered a spectrum
/// resumes.
pub open spec fn resumed(state: MzMLParserState) -> MzMLParserState {
    if state == MzMLParserState::SpectrumDone {
        MzMLParserState::Resume
    } else {
        state
    }
}

/// What an event other than a failure or the end does to the metadata.
pub open spec fn metadata_event(m: MetadataView, event: XmlEvent, state: MzMLParserState) -> (
    MetadataView,
    Step,
) {
    match event {
        XmlEvent::Start(e) => metadata_start(m, e, state),
        XmlEvent::End(e) => metadata_end(m, e.name@, state),
        XmlEvent::Empty(e) => metadata_empty(m, e, state),
        _ => (m, Ok(state)),
    }
}

/// Whether reading the metadata stops in `state`.
pub open spec fn metadata_pass_stops(state: MzMLParserState) -> bool {
    metadata_complete(state) || state == MzMLParserState::ParserError
}

/// How a pass over the metadata ended.
pub struct MetadataPass {
    pub state: MzMLParserState,
    pub error: MzMLParserError,
    pub metadata: MetadataView,
    /// The ordinal of the event after the last one read.
    pub next: int,
    /// Whether the pass ran out of events.
    pub at_end: bool,
}

/// Reads events from ordinal `k` on into the metadata until it is complete,
/// an error is met or the events end.
pub open spec fn metadata_pass(
    events: Seq<SourceEvent>,
    k: int,
    state: MzMLParserState,
    error: MzMLParserError,
    m: MetadataView,
) -> MetadataPass
    decreases events.len() - k,
{
    if k < 0 || k >= events.len() {
        MetadataPass { state, error, metadata: m, next: k, at_end: true }
    } else {
        match events[k].event {
            XmlEvent::Eof => MetadataPass { state, error, metadata: m, next: k + 1, at_end: false },
            XmlEvent::Error(failure) => if tolerated(failure, state) {
                metadata_pass(events, k + 1, state, error, m)
            } else {
                MetadataPass {
                    state: MzMLParserState::ParserError,
                    error: broken_element(failure, state),
                    metadata: m,
                    next: k + 1,
                    at_end: false,
                }
            },
            event => {
                let handled = metadata_event(m, event, state);
                let settled = settle(handled.1, error);
                if metadata_pass_stops(settled.0) {
                    MetadataPass {
                        state: settled.0,
                        error: settled.1,
                        metadata: handled.0,
                        next: k + 1,
                        at_end: false,
                    }
                } else {
                    metadata_pass(events, k + 1, settled.0, settled.1, handled.0)
                }
            },
        }
    }
}

/// How a pass over the index list ended.
pub struct IndexPass {
    /// The error that ended the pass, if one did.
    pub failure: Option<XmlError>,
    pub extractor: ExtractorView,
    pub state: IndexParserState,
    /// The ordinal of the event after the last one read.
    pub next: int,
    /// Whether the pass ran out of events.
    pub at_end: bool,
}

/// Reads events from ordinal `k` on into an index extractor: until an
/// opening tag is met after the index list has closed, until an error, or
/// until the events end.
pub open spec fn index_pass(
    events: Seq<SourceEvent>,
    k: int,
    state: IndexParserState,
    x: ExtractorView,
) -> IndexPass
    decreases events.len() - k,
{
    if k < 0 || k >= events.len() {
        IndexPass { failure: None, extractor: x, state, next: k, at_end: true }
    } else {
        match events[k].event {
            XmlEvent::Start(e) => {
                let handled = index_start(x, e, state);
                match handled.1 {
                    Ok(entered) => if entered == IndexParserState::Done {
                        IndexPass {
                            failure: None,
                            extractor: handled.0,
                            state: entered,
                            next: k + 1,
                            at_end: false,
                        }
                    } else {
                        index_pass(events, k + 1, entered, handled.0)
                    },
                    Err(error) => IndexPass {
                        failure: Some(error),
                        extractor: handled.0,
                        state,
                        next: k + 1,
                        at_end: false,
                    },
                }
            },
            XmlEvent::End(e) => index_pass(events, k + 1, index_end(e.name@, state), x),
            XmlEvent::Text(t) => {
                let handled = index_text(x, t, state);
                match handled.1 {
                    Ok(entered) => index_pass(events, k + 1, entered, handled.0),
                    Err(error) => IndexPass {
                        failure: Some(error),
                        extractor: handled.0,
                        state,
                        next: k + 1,
                        at_end: false,
                    },
                }
            },
            XmlEvent::Eof => IndexPass {
                failure: None,
                extractor: x,
                state,
                next: k + 1,
                at_end: false,
            },
            XmlEvent::Error(failure) => IndexPass {
                failure: Some(failure.error),
                extractor: x,
                state,
                next: k + 1,
                at_end: false,
            },
            _ => index_pass(events, k + 1, state, x),
        }
    }
}

/// A builder that has read nothing and numbers the configurations `ids`.
pub open spec fn fresh_builder(ids: Seq<Seq<char>>) -> SpectrumBuilderView {
    SpectrumBuilderView { ids, ..empty_builder() }
}

/// The pass that reading a spectrum at byte `offset` makes, resuming with no
/// error held and with the configurations `ids` numbered.
pub open spec fn spectrum_pass_at(events: Seq<SourceEvent>, offset: u64, ids: Seq<Seq<char>>)
    -> SpectrumPass {
    spectrum_pass(
        events,
        next_event(events, offset),
        MzMLParserState::Resume,
        MzMLParserError::NoError,
        fresh_builder(ids),
    )
}

} // verus!
