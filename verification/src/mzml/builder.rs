//! The handler that builds one spectrum from the events of a `<spectrum>`
//! element.

use crate::mzml::idmap::{ids_after, number_of, IncrementingIdMap};
use crate::mzml::params::{
    attribute_text, names_param, param_of, read_attribute, Param, ParamView,
};
use crate::mzml::spectrum::{
    empty_array, empty_precursor, empty_scan, empty_spectrum, DataArray, DataArrayView, Precursor,
    PrecursorView, ScanEvent, ScanEventView, Spectrum, SpectrumView,
};
use crate::mzml::state::{MzMLParserError, MzMLParserState};
use crate::text::{parse_u64, parsed_u64, text_eq};
use crate::views::lemma_views_push;
use crate::xml::{EndElement, StartElement, TextContent, XmlError};
use vstd::prelude::*;

verus! {

/// What a handler answers: the state to go on in, or the error to stop with.
pub type Step = Result<MzMLParserState, MzMLParserError>;

/// The state of a spectrum builder as a plain value.
pub struct SpectrumBuilderView {
    pub spectrum: SpectrumView,
    pub scan: ScanEventView,
    pub precursor: PrecursorView,
    pub array: DataArrayView,
    pub ids: Seq<Seq<char>>,
}

/// The state entered when an element of this name opens, for the elements
/// that carry no data of their own.
pub open spec fn opened_state(name: Seq<char>, state: MzMLParserState) -> MzMLParserState {
    if name == "spectrumList"@ {
        MzMLParserState::SpectrumList
    } else if name == "scanList"@ {
        MzMLParserState::ScanList
    } else if name == "precursorList"@ {
        MzMLParserState::PrecursorList
    } else if name == "isolationWindow"@ {
        MzMLParserState::IsolationWindow
    } else if name == "selectedIonList"@ {
        MzMLParserState::SelectedIonList
    } else if name == "selectedIon"@ {
        MzMLParserState::SelectedIon
    } else if name == "activation"@ {
        MzMLParserState::Activation
    } else if name == "binaryDataArrayList"@ {
        MzMLParserState::BinaryDataArrayList
    } else if name == "binary"@ {
        MzMLParserState::Binary
    } else {
        state
    }
}

/// The state entered when an element of this name closes.
pub open spec fn closed_state(name: Seq<char>, state: MzMLParserState) -> MzMLParserState {
    if name == "spectrum"@ {
        MzMLParserState::SpectrumDone
    } else if name == "spectrumList"@ {
        MzMLParserState::SpectrumListDone
    } else if name == "scanList"@ || name == "precursorList"@ || name == "binaryDataArrayList"@ {
        MzMLParserState::Spectrum
    } else if name == "scan"@ {
        MzMLParserState::ScanList
    } else if name == "precursor"@ {
        MzMLParserState::PrecursorList
    } else if name == "isolationWindow"@ || name == "selectedIonList"@ || name == "activation"@ {
        MzMLParserState::Precursor
    } else if name == "selectedIon"@ {
        MzMLParserState::SelectedIonList
    } else if name == "binaryDataArray"@ {
        MzMLParserState::BinaryDataArrayList
    } else if name == "binary"@ {
        MzMLParserState::BinaryDataArray
    } else {
        state
    }
}

/// The ordinal that the text of an `index` attribute spells; zero where it
/// spells none.
pub open spec fn ordinal_of_text(text: Seq<char>) -> usize {
    match parsed_u64(text) {
        Some(v) => if v <= usize::MAX {
            v as usize
        } else {
            0
        },
        None => 0,
    }
}

/// The MS level after a parameter with this value: the level it spells, or
/// the level as it was where it spells none.
pub open spec fn level_of_text(text: Seq<char>, current: u8) -> u8 {
    match parsed_u64(text) {
        Some(v) => if v <= u8::MAX {
            v as u8
        } else {
            current
        },
        None => current,
    }
}

/// The error for an element that cannot be read in `state`.
pub open spec fn unreadable(state: MzMLParserState, error: XmlError) -> Step {
    Err(MzMLParserError::XMLError(state, error))
}

/// What the opening tag of an element does to a builder.
///
/// `spectrum` gives the identifier and the ordinal; `scan`, `precursor` and
/// `binaryDataArray` start a fresh scan, precursor or array; a scan resolves
/// its configuration reference to a number. Every other element only moves
/// the state.
pub open spec fn spectrum_start(
    b: SpectrumBuilderView,
    event: StartElement,
    state: MzMLParserState,
) -> (SpectrumBuilderView, Step) {
    let name = event.name@;
    let attributes = event.attributes@;
    if event.malformed {
        (b, unreadable(state, XmlError::MalformedAttribute))
    } else if name == "spectrum"@ {
        match (attribute_text(attributes, "id"@), attribute_text(attributes, "index"@)) {
            (Some(id), Some(index)) => (
                SpectrumBuilderView {
                    spectrum: SpectrumView { id, index: ordinal_of_text(index), ..b.spectrum },
                    ..b
                },
                Ok(MzMLParserState::Spectrum),
            ),
            _ => (b, unreadable(state, XmlError::Escape)),
        }
    } else if name == "scan"@ {
        match attribute_text(attributes, "instrumentConfigurationRef"@) {
            Some(reference) => if reference.len() == 0 {
                (SpectrumBuilderView { scan: empty_scan(0), ..b }, Ok(MzMLParserState::Scan))
            } else {
                (
                    SpectrumBuilderView {
                        scan: empty_scan(number_of(b.ids, reference)),
                        ids: ids_after(b.ids, reference),
                        ..b
                    },
                    Ok(MzMLParserState::Scan),
                )
            },
            None => (b, unreadable(state, XmlError::Escape)),
        }
    } else if name == "precursor"@ {
        match attribute_text(attributes, "spectrumRef"@) {
            Some(id) => (
                SpectrumBuilderView { precursor: empty_precursor(id), ..b },
                Ok(MzMLParserState::Precursor),
            ),
            None => (b, unreadable(state, XmlError::Escape)),
        }
    } else if name == "binaryDataArray"@ {
        (SpectrumBuilderView { array: empty_array(), ..b }, Ok(MzMLParserState::BinaryDataArray))
    } else {
        (b, Ok(opened_state(name, state)))
    }
}

/// What the closing tag of an element named `name` does to a builder: a scan,
/// precursor or array that closes joins the spectrum; every closing tag moves
/// the state.
pub open spec fn spectrum_end(b: SpectrumBuilderView, name: Seq<char>, state: MzMLParserState) -> (
    SpectrumBuilderView,
    Step,
) {
    if name == "scan"@ {
        (
            SpectrumBuilderView {
                spectrum: SpectrumView { scans: b.spectrum.scans.push(b.scan), ..b.spectrum },
                scan: empty_scan(0),
                ..b
            },
            Ok(MzMLParserState::ScanList),
        )
    } else if name == "precursor"@ {
        (
            SpectrumBuilderView {
                spectrum: SpectrumView {
                    precursors: b.spectrum.precursors.push(b.precursor),
                    ..b.spectrum
                },
                precursor: empty_precursor(Seq::empty()),
                ..b
            },
            Ok(MzMLParserState::PrecursorList),
        )
    } else if name == "binaryDataArray"@ {
        (
            SpectrumBuilderView {
                spectrum: SpectrumView { arrays: b.spectrum.arrays.push(b.array), ..b.spectrum },
                array: empty_array(),
                ..b
            },
            Ok(MzMLParserState::BinaryDataArrayList),
        )
    } else {
        (b, Ok(closed_state(name, state)))
    }
}

/// Where a parameter goes: to the part of the spectrum that `state` stands
/// in. The MS level and the scan start time are taken from the parameters
/// that carry them.
pub open spec fn file_param(b: SpectrumBuilderView, p: ParamView, state: MzMLParserState)
    -> SpectrumBuilderView {
    match state {
        MzMLParserState::Spectrum => SpectrumBuilderView {
            spectrum: SpectrumView {
                params: b.spectrum.params.push(p),
                ms_level: if p.accession == "MS:1000511"@ {
                    level_of_text(p.value, b.spectrum.ms_level)
                } else {
                    b.spectrum.ms_level
                },
                ..b.spectrum
            },
            ..b
        },
        MzMLParserState::Scan => SpectrumBuilderView {
            scan: ScanEventView {
                params: b.scan.params.push(p),
                start_time: if p.accession == "MS:1000016"@ {
                    p.value
                } else {
                    b.scan.start_time
                },
                ..b.scan
            },
            ..b
        },
        MzMLParserState::IsolationWindow => SpectrumBuilderView {
            precursor: PrecursorView {
                isolation_window: b.precursor.isolation_window.push(p),
                ..b.precursor
            },
            ..b
        },
        MzMLParserState::SelectedIon => SpectrumBuilderView {
            precursor: PrecursorView { ion: b.precursor.ion.push(p), ..b.precursor },
            ..b
        },
        MzMLParserState::Activation => SpectrumBuilderView {
            precursor: PrecursorView { activation: b.precursor.activation.push(p), ..b.precursor },
            ..b
        },
        MzMLParserState::BinaryDataArray => SpectrumBuilderView {
            array: DataArrayView { params: b.array.params.push(p), ..b.array },
            ..b
        },
        _ => b,
    }
}

/// What an empty element does to a builder: a parameter is filed where the
/// state stands; any other element acts as its opening tag followed by its
/// closing tag.
pub open spec fn spectrum_empty(
    b: SpectrumBuilderView,
    event: StartElement,
    state: MzMLParserState,
) -> (SpectrumBuilderView, Step) {
    if names_param(event.name@) {
        match param_of(event) {
            Ok(p) => (file_param(b, p, state), Ok(state)),
            Err(error) => (b, unreadable(state, error)),
        }
    } else {
        let opened = spectrum_start(b, event, state);
        match opened.1 {
            Ok(inside) => spectrum_end(opened.0, event.name@, inside),
            Err(_) => opened,
        }
    }
}

/// What character data does to a builder: inside `<binary>` it is the
/// encoded content of the array, elsewhere it is passed over.
pub open spec fn spectrum_text(
    b: SpectrumBuilderView,
    event: TextContent,
    state: MzMLParserState,
) -> (SpectrumBuilderView, Step) {
    if state == MzMLParserState::Binary {
        (
            SpectrumBuilderView {
                array: DataArrayView { encoded: event.content@, ..b.array },
                ..b
            },
            Ok(state),
        )
    } else {
        (b, Ok(state))
    }
}

/// Builds one spectrum from the events of a `<spectrum>` element.
#[derive(Debug)]
pub struct MzMLSpectrumBuilder {
    /// The spectrum as far as it has been read.
    pub spectrum: Spectrum,
    /// The scan that is open.
    pub scan: ScanEvent,
    /// The precursor that is open.
    pub precursor: Precursor,
    /// The data array that is open.
    pub array: DataArray,
    /// The numbers of the instrument configurations.
    pub instrument_id_map: IncrementingIdMap,
}

impl View for MzMLSpectrumBuilder {
    type V = SpectrumBuilderView;

    open spec fn view(&self) -> SpectrumBuilderView {
        SpectrumBuilderView {
            spectrum: self.spectrum@,
            scan: self.scan@,
            precursor: self.precursor@,
            array: self.array@,
            ids: self.instrument_id_map.ids(),
        }
    }
}

/// A builder that has read nothing and knows no configuration.
pub open spec fn empty_builder() -> SpectrumBuilderView {
    SpectrumBuilderView {
        spectrum: empty_spectrum(),
        scan: empty_scan(0),
        precursor: empty_precursor(Seq::empty()),
        array: empty_array(),
        ids: Seq::empty(),
    }
}

impl MzMLSpectrumBuilder {
    /// The configuration numbers are well-formed.
    pub open spec fn wf(&self) -> bool {
        self.instrument_id_map.wf()
    }

    /// A builder that has read nothing.
    pub fn new() -> (r: Self)
        ensures
            r.wf(),
            r@ == empty_builder(),
    {
        MzMLSpectrumBuilder {
            spectrum: Spectrum::new(),
            scan: ScanEvent::new(0),
            precursor: Precursor::new(String::new()),
            array: DataArray::new(),
            instrument_id_map: IncrementingIdMap::new(),
        }
    }

    /// The state entered when an element of this name opens.
    pub fn state_on_open(name: &str, state: MzMLParserState) -> (r: MzMLParserState)
        ensures
            r == opened_state(name@, state),
    {
        if text_eq(name, "spectrumList") {
            MzMLParserState::SpectrumList
        } else if text_eq(name, "scanList") {
            MzMLParserState::ScanList
        } else if text_eq(name, "precursorList") {
            MzMLParserState::PrecursorList
        } else if text_eq(name, "isolationWindow") {
            MzMLParserState::IsolationWindow
        } else if text_eq(name, "selectedIonList") {
            MzMLParserState::SelectedIonList
        } else if text_eq(name, "selectedIon") {
            MzMLParserState::SelectedIon
        } else if text_eq(name, "activation") {
            MzMLParserState::Activation
        } else if text_eq(name, "binaryDataArrayList") {
            MzMLParserState::BinaryDataArrayList
        } else if text_eq(name, "binary") {
            MzMLParserState::Binary
        } else {
            state
        }
    }

    /// The state entered when an element of this name closes.
    pub fn state_on_close(name: &str, state: MzMLParserState) -> (r: MzMLParserState)
        ensures
            r == closed_state(name@, state),
    {
        if text_eq(name, "spectrum") {
            MzMLParserState::SpectrumDone
        } else if text_eq(name, "spectrumList") {
            MzMLParserState::SpectrumListDone
        } else if text_eq(name, "scanList") || text_eq(name, "precursorList") || text_eq(
            name,
            "binaryDataArrayList",
        ) {
            MzMLParserState::Spectrum
        } else if text_eq(name, "scan") {
            MzMLParserState::ScanList
        } else if text_eq(name, "precursor") {
            MzMLParserState::PrecursorList
        } else if text_eq(name, "isolationWindow") || text_eq(name, "selectedIonList") || text_eq(
            name,
            "activation",
        ) {
            MzMLParserState::Precursor
        } else if text_eq(name, "selectedIon") {
            MzMLParserState::SelectedIonList
        } else if text_eq(name, "binaryDataArray") {
            MzMLParserState::BinaryDataArrayList
        } else if text_eq(name, "binary") {
            MzMLParserState::BinaryDataArray
        } else {
            state
        }
    }

    /// The ordinal that the text of an `index` attribute spells.
    pub fn ordinal(text: &str) -> (r: usize)
        ensures
            r == ordinal_of_text(text@),
    {
        match parse_u64(text) {
            Some(v) => if v <= usize::MAX as u64 {
                v as usize
            } else {
                0
            },
            None => 0,
        }
    }

    /// The MS level after a parameter with this value.
    pub fn level(text: &str, current: u8) -> (r: u8)
        ensures
            r == level_of_text(text@, current),
    {
        match parse_u64(text) {
            Some(v) => if v <= u8::MAX as u64 {
                v as u8
            } else {
                current
            },
            None => current,
        }
    }

    /// Handles the opening tag of an element.
    pub fn start_element(&mut self, event: &StartElement, state: MzMLParserState) -> (r: Step)
        requires
            old(self).wf(),
        ensures
            final(self).wf(),
            (final(self)@, r) == spectrum_start(old(self)@, *event, state),
    {
        if event.malformed {
            return Err(MzMLParserError::XMLError(state, XmlError::MalformedAttribute));
        }
        let name = event.name.as_str();
        if text_eq(name, "spectrum") {
            let id = read_attribute(&event.attributes, "id");
            let index = read_attribute(&event.attributes, "index");
            match (id, index) {
                (Some(id), Some(index)) => {
                    self.spectrum.index = Self::ordinal(index.as_str());
                    self.spectrum.id = id;
                    Ok(MzMLParserState::Spectrum)
                },
                _ => Err(MzMLParserError::XMLError(state, XmlError::Escape)),
            }
        } else if text_eq(name, "scan") {
            match read_attribute(&event.attributes, "instrumentConfigurationRef") {
                Some(reference) => {
                    if reference.as_str().unicode_len() == 0 {
                        self.scan = ScanEvent::new(0);
                    } else {
                        let number = self.instrument_id_map.get(reference.as_str());
                        self.scan = ScanEvent::new(number);
                    }
                    Ok(MzMLParserState::Scan)
                },
                None => Err(MzMLParserError::XMLError(state, XmlError::Escape)),
            }
        } else if text_eq(name, "precursor") {
            match read_attribute(&event.attributes, "spectrumRef") {
                Some(id) => {
                    self.precursor = Precursor::new(id);
                    Ok(MzMLParserState::Precursor)
                },
                None => Err(MzMLParserError::XMLError(state, XmlError::Escape)),
            }
        } else if text_eq(name, "binaryDataArray") {
            self.array = DataArray::new();
            Ok(MzMLParserState::BinaryDataArray)
        } else {
            Ok(Self::state_on_open(name, state))
        }
    }

    /// Handles the closing tag of an element named `name`.
    pub fn close_element(&mut self, name: &str, state: MzMLParserState) -> (r: Step)
        requires
            old(self).wf(),
        ensures
            final(self).wf(),
            (final(self)@, r) == spectrum_end(old(self)@, name@, state),
    {
        if text_eq(name, "scan") {
            let mut scan = ScanEvent::new(0);
            std::mem::swap(&mut scan, &mut self.scan);
            proof {
                lemma_views_push(self.spectrum.scans@, scan);
            }
            self.spectrum.scans.push(scan);
            Ok(MzMLParserState::ScanList)
        } else if text_eq(name, "precursor") {
            let mut precursor = Precursor::new(String::new());
            std::mem::swap(&mut precursor, &mut self.precursor);
            proof {
                lemma_views_push(self.spectrum.precursors@, precursor);
            }
            self.spectrum.precursors.push(precursor);
            Ok(MzMLParserState::PrecursorList)
        } else if text_eq(name, "binaryDataArray") {
            let mut array = DataArray::new();
            std::mem::swap(&mut array, &mut self.array);
            proof {
                lemma_views_push(self.spectrum.arrays@, array);
            }
            self.spectrum.arrays.push(array);
            Ok(MzMLParserState::BinaryDataArrayList)
        } else {
            Ok(Self::state_on_close(name, state))
        }
    }

    /// Handles the closing tag of an element.
    pub fn end_element(&mut self, event: &EndElement, state: MzMLParserState) -> (r: Step)
        requires
            old(self).wf(),
        ensures
            final(self).wf(),
            (final(self)@, r) == spectrum_end(old(self)@, event.name@, state),
    {
        self.close_element(event.name.as_str(), state)
    }

    /// Files a parameter where the state stands.
    pub fn add_param(&mut self, param: Param, state: MzMLParserState)
        ensures
            final(self)@ == file_param(old(self)@, param@, state),
            final(self).instrument_id_map == old(self).instrument_id_map,
    {
        match state {
            MzMLParserState::Spectrum => {
                if text_eq(param.accession.as_str(), "MS:1000511") {
                    self.spectrum.ms_level = Self::level(param.value.as_str(), self.spectrum.ms_level);
                }
                proof {
                    lemma_views_push(self.spectrum.params@, param);
                }
                self.spectrum.params.push(param);
            },
            MzMLParserState::Scan => {
                if text_eq(param.accession.as_str(), "MS:1000016") {
                    self.scan.start_time = param.value.clone();
                }
                proof {
                    lemma_views_push(self.scan.params@, param);
                }
                self.scan.params.push(param);
            },
            MzMLParserState::IsolationWindow => {
                proof {
                    lemma_views_push(self.precursor.isolation_window@, param);
                }
                self.precursor.isolation_window.push(param);
            },
            MzMLParserState::SelectedIon => {
                proof {
                    lemma_views_push(self.precursor.ion@, param);
                }
                self.precursor.ion.push(param);
            },
            MzMLParserState::Activation => {
                proof {
                    lemma_views_push(self.precursor.activation@, param);
                }
                self.precursor.activation.push(param);
            },
            MzMLParserState::BinaryDataArray => {
                proof {
                    lemma_views_push(self.array.params@, param);
                }
                self.array.params.push(param);
            },
            _ => {},
        }
    }

    /// Handles an empty element.
    pub fn empty_element(&mut self, event: &StartElement, state: MzMLParserState) -> (r: Step)
        requires
            old(self).wf(),
        ensures
            final(self).wf(),
            (final(self)@, r) == spectrum_empty(old(self)@, *event, state),
    {
        if Param::is_param(event.name.as_str()) {
            match Param::from_element(event) {
                Ok(param) => {
                    self.add_param(param, state);
                    Ok(state)
                },
                Err(error) => Err(MzMLParserError::XMLError(state, error)),
            }
        } else {
            match self.start_element(event, state) {
                Ok(inside) => self.close_element(event.name.as_str(), inside),
                Err(error) => Err(error),
            }
        }
    }

    /// Handles character data.
    pub fn text(&mut self, event: &TextContent, state: MzMLParserState) -> (r: Step)
        ensures
            (final(self)@, r) == spectrum_text(old(self)@, *event, state),
            final(self).instrument_id_map == old(self).instrument_id_map,
    {
        match state {
            MzMLParserState::Binary => {
                self.array.encoded = event.content.clone();
            },
            _ => {},
        }
        Ok(state)
    }

    /// Gives up the builder and moves the spectrum it built into `spectrum`.
    pub fn into_spectrum(self, spectrum: &mut Spectrum)
        ensures
            final(spectrum)@ == self@.spectrum,
    {
        *spectrum = self.spectrum;
    }
}

} // verus!
