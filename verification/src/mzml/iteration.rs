//! What reading a document from front to back delivers.
//!
//! Every read ends at the tag that closes a spectrum, so a document that no
//! handler stumbles over gives one spectrum for each of its spectrum
//! elements.

use crate::mzml::builder::{ordinal_of_text, spectrum_end, spectrum_start, SpectrumBuilderView};
use crate::mzml::params::{attribute_text, names_param};
use crate::mzml::passes::{
    fresh_builder, resumed, settle, spectrum_event, spectrum_pass, spectrum_pass_stops,
    SpectrumPass,
};
use crate::mzml::reader::MzMLReaderType;
use crate::mzml::state::{MzMLParserError, MzMLParserState};
use crate::pump::next_event;
use crate::xml::{SourceEvent, StartElement, XmlEvent};
use vstd::prelude::*;

verus! {

/// Whether an event closes a spectrum element: its closing tag, or a
/// spectrum element that is empty.
pub open spec fn closes_spectrum(event: XmlEvent) -> bool {
    match event {
        XmlEvent::End(e) => e.name@ == "spectrum"@,
        XmlEvent::Empty(e) => e.name@ == "spectrum"@,
        _ => false,
    }
}

/// Whether reading never stumbles over an event: it is no failure of the
/// tokenizer and no end mark, and no handler answers it with an error.
pub open spec fn is_readable(event: XmlEvent) -> bool {
    &&& !(event is Error)
    &&& !(event is Eof)
    &&& forall|b: SpectrumBuilderView, state: MzMLParserState|
        (#[trigger] spectrum_event(b, event, state)).1 is Ok
}

/// Whether all events from ordinal `k` on are readable.
pub open spec fn readable_from(events: Seq<SourceEvent>, k: int) -> bool {
    forall|i: int| k <= i < events.len() ==> is_readable((#[trigger] events[i]).event)
}

/// The number of events from ordinal `k` on that close a spectrum element.
pub open spec fn closings(events: Seq<SourceEvent>, k: int) -> nat
    decreases events.len() - k,
{
    if k < 0 || k >= events.len() {
        0
    } else if closes_spectrum(events[k].event) {
        1 + closings(events, k + 1)
    } else {
        closings(events, k + 1)
    }
}

/// The pass that a read makes which starts at event `k` in `state`.
pub open spec fn read_at(
    events: Seq<SourceEvent>,
    k: int,
    state: MzMLParserState,
    error: MzMLParserError,
    ids: Seq<Seq<char>>,
) -> SpectrumPass {
    spectrum_pass(events, k, state, error, fresh_builder(ids))
}

/// The number of spectra that reading again and again delivers, from event
/// `k` on and beginning in `state`, until a read delivers none.
pub open spec fn deliveries(
    events: Seq<SourceEvent>,
    k: int,
    state: MzMLParserState,
    error: MzMLParserError,
    ids: Seq<Seq<char>>,
) -> nat
    decreases events.len() - k,
{
    let pass = read_at(events, k, state, error, ids);
    if pass.state == MzMLParserState::SpectrumDone && k < pass.next <= events.len() {
        1 + deliveries(events, pass.next, MzMLParserState::Resume, pass.error, pass.builder.ids)
    } else {
        0
    }
}

/// A read that completes a spectrum has read at least one event, and has
/// not run out of events.
pub proof fn lemma_complete_read_moves(
    events: Seq<SourceEvent>,
    k: int,
    state: MzMLParserState,
    error: MzMLParserError,
    b: SpectrumBuilderView,
)
    requires
        0 <= k <= events.len(),
        state != MzMLParserState::SpectrumDone,
    ensures
        ({
            let pass = spectrum_pass(events, k, state, error, b);
            pass.state == MzMLParserState::SpectrumDone ==> k < pass.next <= events.len()
                && !pass.at_end
        }),
    decreases events.len() - k,
{
    if k < events.len() {
        match events[k].event {
            XmlEvent::Eof => {},
            XmlEvent::Error(failure) => {
                if crate::mzml::passes::tolerated(failure, state) {
                    lemma_complete_read_moves(events, k + 1, state, error, b);
                }
            },
            event => {
                let handled = spectrum_event(b, event, state);
                let settled = settle(handled.1, error);
                if !spectrum_pass_stops(settled.0) {
                    lemma_complete_read_moves(events, k + 1, settled.0, settled.1, handled.0);
                }
            },
        }
    }
}

/// The names that the handlers tell apart are different names.
proof fn lemma_names_differ()
    ensures
        "spectrum"@ != "scan"@,
        "spectrum"@ != "precursor"@,
        "spectrum"@ != "binaryDataArray"@,
        "spectrum"@ != "cvParam"@,
        "spectrum"@ != "userParam"@,
        "spectrum"@ != "spectrumList"@,
        "spectrum"@ != "scanList"@,
        "spectrum"@ != "precursorList"@,
        "spectrum"@ != "isolationWindow"@,
        "spectrum"@ != "selectedIonList"@,
        "spectrum"@ != "selectedIon"@,
        "spectrum"@ != "activation"@,
        "spectrum"@ != "binaryDataArrayList"@,
        "spectrum"@ != "binary"@,
{
    reveal_strlit("spectrum");
    reveal_strlit("scan");
    reveal_strlit("precursor");
    reveal_strlit("binaryDataArray");
    reveal_strlit("cvParam");
    reveal_strlit("userParam");
    reveal_strlit("spectrumList");
    reveal_strlit("scanList");
    reveal_strlit("precursorList");
    reveal_strlit("isolationWindow");
    reveal_strlit("selectedIonList");
    reveal_strlit("selectedIon");
    reveal_strlit("activation");
    reveal_strlit("binaryDataArrayList");
    reveal_strlit("binary");
    assert("spectrum"@.len() == 8);
    assert("scan"@.len() == 4);
    assert("precursor"@.len() == 9);
    assert("binaryDataArray"@.len() == 15);
    assert("cvParam"@.len() == 7);
    assert("userParam"@.len() == 9);
    assert("spectrumList"@.len() == 12);
    assert("scanList"@[1] == 'c');
    assert("spectrum"@[1] == 'p');
    assert("precursorList"@.len() == 13);
    assert("isolationWindow"@.len() == 15);
    assert("selectedIonList"@.len() == 15);
    assert("selectedIon"@.len() == 11);
    assert("activation"@.len() == 10);
    assert("binaryDataArrayList"@.len() == 19);
    assert("binary"@.len() == 6);
}

/// An opening tag never completes a spectrum.
proof fn lemma_start_keeps_going(b: SpectrumBuilderView, event: XmlEvent, state: MzMLParserState)
    requires
        event is Start,
        !spectrum_pass_stops(state),
        spectrum_event(b, event, state).1 is Ok,
    ensures
        !spectrum_pass_stops(spectrum_event(b, event, state).1->Ok_0),
{
}

/// A closing tag completes a spectrum exactly when it closes one.
proof fn lemma_end_decides(b: SpectrumBuilderView, name: Seq<char>, state: MzMLParserState)
    requires
        !spectrum_pass_stops(state),
    ensures
        spectrum_end(b, name, state).1 is Ok,
        spectrum_end(b, name, state).1->Ok_0 != MzMLParserState::ParserError,
        (spectrum_end(b, name, state).1->Ok_0 == MzMLParserState::SpectrumDone) <==> name
            == "spectrum"@,
{
    lemma_names_differ();
}

/// An event that no handler stumbles over completes a spectrum exactly when
/// it closes one, and never leaves the reader in the error state.
proof fn lemma_event_decides(b: SpectrumBuilderView, event: XmlEvent, state: MzMLParserState)
    requires
        is_readable(event),
        !spectrum_pass_stops(state),
    ensures
        spectrum_event(b, event, state).1 is Ok,
        spectrum_event(b, event, state).1->Ok_0 != MzMLParserState::ParserError,
        (spectrum_event(b, event, state).1->Ok_0 == MzMLParserState::SpectrumDone)
            <==> closes_spectrum(event),
{
    lemma_names_differ();
    assert(spectrum_event(b, event, state).1 is Ok);
    match event {
        XmlEvent::Start(e) => {
            lemma_start_keeps_going(b, event, state);
        },
        XmlEvent::End(e) => {
            lemma_end_decides(b, e.name@, state);
        },
        XmlEvent::Empty(e) => {
            if names_param(e.name@) {
            } else {
                let opened = spectrum_start(b, e, state);
                assert(opened.1 is Ok);
                lemma_start_keeps_going(b, XmlEvent::Start(e), state);
                lemma_end_decides(opened.0, e.name@, opened.1->Ok_0);
            }
        },
        _ => {},
    }
}

/// A read over readable events ends at the first event that closes a
/// spectrum, with the spectrum complete; without such an event it runs to
/// the end and completes none.
pub proof fn lemma_read_ends_at_closing_tag(
    events: Seq<SourceEvent>,
    k: int,
    state: MzMLParserState,
    error: MzMLParserError,
    b: SpectrumBuilderView,
)
    requires
        0 <= k <= events.len(),
        !spectrum_pass_stops(state),
        readable_from(events, k),
    ensures
        ({
            let pass = spectrum_pass(events, k, state, error, b);
            &&& pass.state != MzMLParserState::ParserError
            &&& pass.error == error
            &&& pass.state == MzMLParserState::SpectrumDone ==> {
                &&& k < pass.next <= events.len()
                &&& closes_spectrum(events[pass.next - 1].event)
                &&& closings(events, k) == 1 + closings(events, pass.next)
            }
            &&& pass.state != MzMLParserState::SpectrumDone ==> closings(events, k) == 0
        }),
    decreases events.len() - k,
{
    if k < events.len() {
        let event = events[k].event;
        assert(is_readable(event));
        let handled = spectrum_event(b, event, state);
        lemma_event_decides(b, event, state);
        let settled = settle(handled.1, error);
        if !spectrum_pass_stops(settled.0) {
            lemma_read_ends_at_closing_tag(events, k + 1, settled.0, settled.1, handled.0);
        }
    }
}

/// One spectrum for each spectrum element: where no handler stumbles over
/// the events from `k` on, reading again and again delivers as many spectra
/// as there are events that close a spectrum element.
pub proof fn lemma_one_spectrum_per_element(
    events: Seq<SourceEvent>,
    k: int,
    state: MzMLParserState,
    error: MzMLParserError,
    ids: Seq<Seq<char>>,
)
    requires
        0 <= k <= events.len(),
        !spectrum_pass_stops(state),
        readable_from(events, k),
    ensures
        deliveries(events, k, state, error, ids) == closings(events, k),
    decreases events.len() - k,
{
    let pass = read_at(events, k, state, error, ids);
    lemma_read_ends_at_closing_tag(events, k, state, error, fresh_builder(ids));
    if pass.state == MzMLParserState::SpectrumDone {
        lemma_one_spectrum_per_element(
            events,
            pass.next,
            MzMLParserState::Resume,
            pass.error,
            pass.builder.ids,
        );
    }
}

/// A reader that is not in the error state, standing before events that no
/// handler stumbles over, delivers one spectrum for each spectrum element
/// that lies ahead of its cursor.
pub proof fn lemma_reader_delivers_each_spectrum(reader: &MzMLReaderType)
    requires
        reader.wf(),
        reader.state != MzMLParserState::ParserError,
        readable_from(
            reader.handle.events(),
            next_event(reader.handle.events(), reader.handle.position()),
        ),
    ensures
        reader.deliveries_ahead() == closings(
            reader.handle.events(),
            next_event(reader.handle.events(), reader.handle.position()),
        ),
{
    reader.handle.lemma_has_next_event();
    lemma_one_spectrum_per_element(
        reader.handle.events(),
        next_event(reader.handle.events(), reader.handle.position()),
        resumed(reader.state),
        reader.error,
        reader.instrument_id_map.ids(),
    );
}

/// The ordinal that the tag of a spectrum spells in its `index` attribute;
/// zero where it spells none.
pub open spec fn spelled_ordinal(tag: StartElement) -> usize {
    match attribute_text(tag.attributes@, "index"@) {
        Some(text) => ordinal_of_text(text),
        None => 0,
    }
}

/// The ordinal that a spectrum carries after an event, having carried
/// `current` before it: the tag that opens a spectrum gives the ordinal it
/// spells, every other event leaves the ordinal as it is.
pub open spec fn ordinal_after(event: XmlEvent, current: usize) -> usize {
    match event {
        XmlEvent::Start(e) => if e.name@ == "spectrum"@ {
            spelled_ordinal(e)
        } else {
            current
        },
        XmlEvent::Empty(e) => if e.name@ == "spectrum"@ {
            spelled_ordinal(e)
        } else {
            current
        },
        _ => current,
    }
}

/// Whether the spectrum elements from event `k` on are numbered in order:
/// the first that closes carries the ordinal `expected`, the next one
/// `expected + 1`, and so on. `current` is the ordinal carried so far by the
/// spectrum that is open.
pub open spec fn numbered_in_order(
    events: Seq<SourceEvent>,
    k: int,
    current: usize,
    expected: nat,
) -> bool
    decreases events.len() - k,
{
    if k < 0 || k >= events.len() {
        true
    } else {
        let carried = ordinal_after(events[k].event, current);
        if closes_spectrum(events[k].event) {
            carried == expected && numbered_in_order(events, k + 1, 0, expected + 1)
        } else {
            numbered_in_order(events, k + 1, carried, expected)
        }
    }
}

/// The ordinals of the spectra that reading again and again delivers, from
/// event `k` on and beginning in `state`, until a read delivers none.
pub open spec fn delivered_ordinals(
    events: Seq<SourceEvent>,
    k: int,
    state: MzMLParserState,
    error: MzMLParserError,
    ids: Seq<Seq<char>>,
) -> Seq<usize>
    decreases events.len() - k,
{
    let pass = read_at(events, k, state, error, ids);
    if pass.state == MzMLParserState::SpectrumDone && k < pass.next <= events.len() {
        seq![pass.builder.spectrum.index] + delivered_ordinals(
            events,
            pass.next,
            MzMLParserState::Resume,
            pass.error,
            pass.builder.ids,
        )
    } else {
        Seq::empty()
    }
}

/// An event that no handler stumbles over changes the ordinal of the
/// spectrum only where it opens a spectrum.
proof fn lemma_event_carries_ordinal(
    b: SpectrumBuilderView,
    event: XmlEvent,
    state: MzMLParserState,
)
    requires
        is_readable(event),
    ensures
        spectrum_event(b, event, state).0.spectrum.index == ordinal_after(event, b.spectrum.index),
{
    lemma_names_differ();
    assert(spectrum_event(b, event, state).1 is Ok);
    match event {
        XmlEvent::Empty(e) => {
            if !names_param(e.name@) {
                let opened = spectrum_start(b, e, state);
                assert(opened.1 is Ok);
            }
        },
        _ => {},
    }
}

/// A read over readable events of a document that numbers its spectra in
/// order delivers the ordinal that is expected next, and leaves the spectra
/// behind it numbered in order.
pub proof fn lemma_read_delivers_expected_ordinal(
    events: Seq<SourceEvent>,
    k: int,
    state: MzMLParserState,
    error: MzMLParserError,
    b: SpectrumBuilderView,
    expected: nat,
)
    requires
        0 <= k <= events.len(),
        !spectrum_pass_stops(state),
        readable_from(events, k),
        numbered_in_order(events, k, b.spectrum.index, expected),
    ensures
        ({
            let pass = spectrum_pass(events, k, state, error, b);
            pass.state == MzMLParserState::SpectrumDone ==> {
                &&& pass.builder.spectrum.index == expected
                &&& numbered_in_order(events, pass.next, 0, expected + 1)
            }
        }),
    decreases events.len() - k,
{
    if k < events.len() {
        let event = events[k].event;
        assert(is_readable(event));
        let handled = spectrum_event(b, event, state);
        lemma_event_decides(b, event, state);
        lemma_event_carries_ordinal(b, event, state);
        let settled = settle(handled.1, error);
        if !spectrum_pass_stops(settled.0) {
            lemma_read_delivers_expected_ordinal(
                events,
                k + 1,
                settled.0,
                settled.1,
                handled.0,
                expected,
            );
        }
    }
}

/// Ordinals in file order: where no handler stumbles over the events from
/// `k` on and the spectrum elements are numbered in order from `expected`,
/// reading again and again delivers one spectrum for each spectrum element,
/// and the spectra delivered carry the ordinals `expected`, `expected + 1`,
/// and so on, none skipped or repeated.
pub proof fn lemma_ordinals_in_file_order(
    events: Seq<SourceEvent>,
    k: int,
    state: MzMLParserState,
    error: MzMLParserError,
    ids: Seq<Seq<char>>,
    expected: nat,
)
    requires
        0 <= k <= events.len(),
        !spectrum_pass_stops(state),
        readable_from(events, k),
        numbered_in_order(events, k, 0, expected),
    ensures
        delivered_ordinals(events, k, state, error, ids).len() == closings(events, k),
        forall|i: int|
            0 <= i < closings(events, k) ==> #[trigger] delivered_ordinals(
                events,
                k,
                state,
                error,
                ids,
            )[i] == expected + i,
    decreases events.len() - k,
{
    let pass = read_at(events, k, state, error, ids);
    lemma_read_ends_at_closing_tag(events, k, state, error, fresh_builder(ids));
    lemma_read_delivers_expected_ordinal(events, k, state, error, fresh_builder(ids), expected);
    if pass.state == MzMLParserState::SpectrumDone {
        lemma_ordinals_in_file_order(
            events,
            pass.next,
            MzMLParserState::Resume,
            pass.error,
            pass.builder.ids,
            expected + 1,
        );
        let rest = delivered_ordinals(
            events,
            pass.next,
            MzMLParserState::Resume,
            pass.error,
            pass.builder.ids,
        );
        let all = delivered_ordinals(events, k, state, error, ids);
        assert(all =~= seq![pass.builder.spectrum.index] + rest);
        assert forall|i: int| 0 <= i < closings(events, k) implies #[trigger] all[i] == expected
            + i by {
            if i > 0 {
                assert(all[i] == rest[i - 1]);
            }
        }
    }
}

/// A reader that is not in the error state, standing before events that no
/// handler stumbles over and whose spectrum elements are numbered in order
/// from `expected`, delivers spectra that carry the ordinals `expected`,
/// `expected + 1`, and so on, one for each spectrum element ahead.
pub proof fn lemma_reader_delivers_ordinals_in_order(reader: &MzMLReaderType, expected: nat)
    requires
        reader.wf(),
        reader.state != MzMLParserState::ParserError,
        readable_from(
            reader.handle.events(),
            next_event(reader.handle.events(), reader.handle.position()),
        ),
        numbered_in_order(
            reader.handle.events(),
            next_event(reader.handle.events(), reader.handle.position()),
            0,
            expected,
        ),
    ensures
        reader.ordinals_ahead().len() == closings(
            reader.handle.events(),
            next_event(reader.handle.events(), reader.handle.position()),
        ),
        forall|i: int|
            0 <= i < reader.ordinals_ahead().len() ==> #[trigger] reader.ordinals_ahead()[i]
                == expected + i,
{
    reader.handle.lemma_has_next_event();
    lemma_ordinals_in_file_order(
        reader.handle.events(),
        next_event(reader.handle.events(), reader.handle.position()),
        resumed(reader.state),
        reader.error,
        reader.instrument_id_map.ids(),
        expected,
    );
}

} // verus!
