//! The trailing offset index of an indexed mzML document.

use crate::mzml::state::IndexParserState;
use crate::offset_index::{inserted, new_index, IndexView, OffsetIndex};
use crate::pump::{InvalidSeek, XmlEventPump, TAIL_WINDOW};
use crate::seek::SeekFrom;
use crate::text::{decode_utf8_lossy, parse_u64, parsed_u64, text_eq, utf8_lossy};
use crate::views::optional_text;
use crate::xml::{
    unescape, xml_unescaped, Attribute, EndElement, StartElement, TextContent, XmlError,
};
use vstd::prelude::*;

verus! {

/// What the first capture group of the regular expression `pattern` matches
/// in `haystack`, at the leftmost match; `None` without a match, and `None`
/// for a pattern that the `regex` crate does not compile.
pub uninterp spec fn regex_first_group(pattern: Seq<char>, haystack: Seq<char>) -> Option<
    Seq<char>,
>;

/// Calls `regex::Regex::new`, `regex::Regex::captures` and
/// `regex::Captures::get` for group 1, one after the other. Trusted: the
/// result is a function of the pattern and the text alone. A pattern that
/// does not compile gives `None`, as a text without a match does.
#[verifier::external_body]
fn first_group(pattern: &str, haystack: &str) -> (r: Option<String>)
    ensures
        optional_text(r) == regex_first_group(pattern@, haystack@),
{
    regex::Regex::new(pattern).ok()?.captures(haystack)?.get(1).map(|m| m.as_str().to_owned())
}

/// The byte offset of the index list that the end of a document announces:
/// the number inside the first `<indexListOffset>` element of `tail`, read
/// as text.
pub open spec fn index_list_offset(tail: Seq<u8>) -> Option<u64> {
    match regex_first_group("<indexListOffset>(\\d+)</indexListOffset>"@, utf8_lossy(tail)) {
        Some(digits) => parsed_u64(digits),
        None => None,
    }
}

/// Finds the byte offset of the index list in the last bytes of a document.
pub fn find_offset(tail: &[u8]) -> (r: Option<u64>)
    ensures
        r == index_list_offset(tail@),
{
    let text = decode_utf8_lossy(tail);
    match first_group("<indexListOffset>(\\d+)</indexListOffset>", text.as_str()) {
        Some(digits) => parse_u64(digits.as_str()),
        None => None,
    }
}

/// The identifier that an `offset` element leaves pending, and whether all
/// its `idRef` values could be unescaped: each `idRef` attribute in turn
/// replaces the pending identifier, until one fails.
pub open spec fn scan_id_ref(attributes: Seq<Attribute>, pending: Seq<char>) -> (Seq<char>, bool)
    decreases attributes.len(),
{
    if attributes.len() == 0 {
        (pending, true)
    } else if attributes[0].key@ == "idRef"@ {
        match xml_unescaped(attributes[0].value@) {
            Some(id) => scan_id_ref(attributes.skip(1), id),
            None => (pending, false),
        }
    } else {
        scan_id_ref(attributes.skip(1), pending)
    }
}

/// The state that the name of an index selects: the spectrum list, the
/// chromatogram list, or none for any other name.
pub open spec fn index_list_named(name: Seq<char>) -> Option<IndexParserState> {
    if name == "spectrum"@ {
        Some(IndexParserState::SpectrumIndexList)
    } else if name == "chromatogram"@ {
        Some(IndexParserState::ChromatogramIndexList)
    } else {
        None
    }
}

/// What the attributes of an `index` element decide: the first `name`
/// attribute that selects a list gives the new state; a `name` whose value
/// cannot be unescaped is an error; with neither, the state stays.
pub open spec fn scan_index_name(attributes: Seq<Attribute>) -> Option<
    Result<IndexParserState, ()>,
>
    decreases attributes.len(),
{
    if attributes.len() == 0 {
        None
    } else if attributes[0].key@ == "name"@ {
        match xml_unescaped(attributes[0].value@) {
            Some(name) => match index_list_named(name) {
                Some(state) => Some(Ok(state)),
                None => scan_index_name(attributes.skip(1)),
            },
            None => Some(Err(())),
        }
    } else {
        scan_index_name(attributes.skip(1))
    }
}

/// Whether the extractor files offsets in `state`.
pub open spec fn collects_offsets(state: IndexParserState) -> bool {
    state == IndexParserState::SpectrumIndexList || state
        == IndexParserState::ChromatogramIndexList
}

/// The state of an index extractor as a plain value.
pub struct ExtractorView {
    /// The spectrum index as collected so far.
    pub spectrum: IndexView,
    /// The chromatogram index as collected so far.
    pub chromatogram: IndexView,
    /// The identifier of the `offset` element whose text is still to come;
    /// empty when none is pending.
    pub pending: Seq<char>,
}

/// What a handler of the index answers.
pub type IndexStep = Result<IndexParserState, XmlError>;

/// An extractor that has collected nothing: two empty, uninitialised
/// indexes named `spectrum` and `chromatogram`, and no identifier pending.
pub open spec fn empty_extractor() -> ExtractorView {
    ExtractorView {
        spectrum: new_index("spectrum"@),
        chromatogram: new_index("chromatogram"@),
        pending: Seq::empty(),
    }
}

/// What the opening tag of an element does to an extractor.
///
/// An `offset` element leaves the unescaped value of its `idRef` attribute
/// pending for the text that follows. An `index` element whose `name` is
/// `spectrum` or `chromatogram` enters that list. Any other element changes
/// nothing. An attribute that cannot be read or unescaped is an error.
pub open spec fn index_start(x: ExtractorView, event: StartElement, state: IndexParserState) -> (
    ExtractorView,
    IndexStep,
) {
    if event.name@ == "offset"@ {
        let scan = scan_id_ref(event.attributes@, x.pending);
        (
            ExtractorView { pending: scan.0, ..x },
            if !scan.1 {
                Err(XmlError::Escape)
            } else if event.malformed {
                Err(XmlError::MalformedAttribute)
            } else {
                Ok(state)
            },
        )
    } else if event.name@ == "index"@ {
        (
            x,
            match scan_index_name(event.attributes@) {
                Some(Ok(entered)) => Ok(entered),
                Some(Err(_)) => Err(XmlError::Escape),
                None => if event.malformed {
                    Err(XmlError::MalformedAttribute)
                } else {
                    Ok(state)
                },
            },
        )
    } else {
        (x, Ok(state))
    }
}

/// The state after the closing tag of an element named `name`: the end of
/// `indexList` ends the index, any other closing tag changes nothing.
pub open spec fn index_end(name: Seq<char>, state: IndexParserState) -> IndexParserState {
    if name == "indexList"@ {
        IndexParserState::Done
    } else {
        state
    }
}

/// An extractor after `offset` has been filed in `state`: under the pending
/// identifier in the index that the state stands for, the identifier then
/// cleared. Without a pending identifier, or outside the two lists, the
/// offset is dropped.
pub open spec fn index_record(x: ExtractorView, offset: u64, state: IndexParserState)
    -> ExtractorView {
    ExtractorView {
        spectrum: if state == IndexParserState::SpectrumIndexList && x.pending.len() > 0 {
            IndexView {
                entries: inserted(x.spectrum.entries, x.pending, offset),
                ..x.spectrum
            }
        } else {
            x.spectrum
        },
        chromatogram: if state == IndexParserState::ChromatogramIndexList && x.pending.len() > 0 {
            IndexView {
                entries: inserted(x.chromatogram.entries, x.pending, offset),
                ..x.chromatogram
            }
        } else {
            x.chromatogram
        },
        pending: if collects_offsets(state) {
            Seq::empty()
        } else {
            x.pending
        },
    }
}

/// What character data does to an extractor. Inside one of the two lists,
/// text that spells an unsigned 64-bit number is the offset of the pending
/// identifier and is filed with it; other text is passed over. Text that
/// cannot be unescaped is an error. The state never changes.
pub open spec fn index_text(x: ExtractorView, event: TextContent, state: IndexParserState) -> (
    ExtractorView,
    IndexStep,
) {
    if collects_offsets(state) {
        match xml_unescaped(event.content@) {
            Some(content) => match parsed_u64(content) {
                Some(offset) => (index_record(x, offset, state), Ok(state)),
                None => (x, Ok(state)),
            },
            None => (x, Err(XmlError::Escape)),
        }
    } else {
        (x, Ok(state))
    }
}

/// Collects the entries of the `<indexList>` that ends an indexed document:
/// for each `<offset idRef="...">N</offset>` the identifier and the byte
/// offset `N`, filed under the index that encloses it.
#[derive(Debug)]
pub struct IndexedMzMLIndexExtractor {
    spectrum_index: OffsetIndex,
    chromatogram_index: OffsetIndex,
    last_id: String,
}

impl View for IndexedMzMLIndexExtractor {
    type V = ExtractorView;

    closed spec fn view(&self) -> ExtractorView {
        ExtractorView {
            spectrum: self.spectrum_index@,
            chromatogram: self.chromatogram_index@,
            pending: self.last_id@,
        }
    }
}

impl IndexedMzMLIndexExtractor {
    /// Both indexes hold each identifier once.
    pub closed spec fn wf(&self) -> bool {
        self.spectrum_index.wf() && self.chromatogram_index.wf()
    }

    /// An extractor with two empty indexes and no identifier pending.
    pub fn new() -> (r: IndexedMzMLIndexExtractor)
        ensures
            r.wf(),
            r@ == empty_extractor(),
    {
        IndexedMzMLIndexExtractor {
            spectrum_index: OffsetIndex::new("spectrum".to_owned()),
            chromatogram_index: OffsetIndex::new("chromatogram".to_owned()),
            last_id: String::new(),
        }
    }

    /// Looks for the offset of the index list in the last bytes of the
    /// source: moves the cursor to the start of the tail window, reads to the
    /// end and searches what was read. A source shorter than the window
    /// cannot be searched: the seek fails and the cursor stays.
    pub fn find_offset_from_reader(&self, reader: &mut XmlEventPump) -> (r: Result<
        Option<u64>,
        InvalidSeek,
    >)
        requires
            old(reader).wf(),
        ensures
            final(reader).wf(),
            final(reader).same_source(old(reader)),
            old(reader).length() < TAIL_WINDOW ==> r is Err && final(reader).position() == old(reader).position(),
            old(reader).length() >= TAIL_WINDOW ==> r == Ok::<Option<u64>, InvalidSeek>(
                index_list_offset(old(reader).tail()),
            ) && final(reader).position() == old(reader).length(),
    {
        match reader.seek(SeekFrom::End(-(TAIL_WINDOW as i64))) {
            Ok(_) => {},
            Err(error) => {
                return Err(error);
            },
        }
        match reader.read_to_end() {
            Some(bytes) => {
                proof {
                    assert(reader.tail().skip(0) =~= reader.tail());
                }
                Ok(find_offset(bytes.as_slice()))
            },
            None => Ok(None),
        }
    }

    /// The spectrum index collected so far.
    pub fn spectrum_index(&self) -> (r: &OffsetIndex)
        ensures
            r@ == self@.spectrum,
            self.wf() ==> r.wf(),
    {
        &self.spectrum_index
    }

    /// The chromatogram index collected so far.
    pub fn chromatogram_index(&self) -> (r: &OffsetIndex)
        ensures
            r@ == self@.chromatogram,
            self.wf() ==> r.wf(),
    {
        &self.chromatogram_index
    }

    /// Gives up the extractor for the spectrum index it collected.
    pub fn into_spectrum_index(self) -> (r: OffsetIndex)
        ensures
            r@ == self@.spectrum,
            self.wf() ==> r.wf(),
    {
        self.spectrum_index
    }

    /// Handles the opening tag of an element.
    #[verifier::loop_isolation(false)]
    pub fn start_element(&mut self, event: &StartElement, state: IndexParserState) -> (r: IndexStep)
        requires
            old(self).wf(),
        ensures
            final(self).wf(),
            (final(self)@, r) == index_start(old(self)@, *event, state),
    {
        proof {
            assert(event.attributes@.skip(0) =~= event.attributes@);
        }
        if text_eq(event.name.as_str(), "offset") {
            let mut i: usize = 0;
            while i < event.attributes.len()
                invariant
                    i <= event.attributes@.len(),
                    self.wf(),
                    self@.spectrum == old(self)@.spectrum,
                    self@.chromatogram == old(self)@.chromatogram,
                    scan_id_ref(event.attributes@, old(self)@.pending) == scan_id_ref(
                        event.attributes@.skip(i as int),
                        self@.pending,
                    ),
                decreases event.attributes@.len() - i,
            {
                let attribute = &event.attributes[i];
                proof {
                    let rest = event.attributes@.skip(i as int);
                    assert(rest[0] == event.attributes@[i as int]);
                    assert(rest.skip(1) =~= event.attributes@.skip(i + 1));
                }
                if text_eq(attribute.key.as_str(), "idRef") {
                    match unescape(attribute.value.as_str()) {
                        Some(id) => {
                            self.last_id = id;
                        },
                        None => {
                            return Err(XmlError::Escape);
                        },
                    }
                }
                i = i + 1;
            }
            if event.malformed {
                return Err(XmlError::MalformedAttribute);
            }
        } else if text_eq(event.name.as_str(), "index") {
            let mut i: usize = 0;
            while i < event.attributes.len()
                invariant
                    i <= event.attributes@.len(),
                    *self == *old(self),
                    scan_index_name(event.attributes@) == scan_index_name(
                        event.attributes@.skip(i as int),
                    ),
                decreases event.attributes@.len() - i,
            {
                let attribute = &event.attributes[i];
                proof {
                    let rest = event.attributes@.skip(i as int);
                    assert(rest[0] == event.attributes@[i as int]);
                    assert(rest.skip(1) =~= event.attributes@.skip(i + 1));
                }
                if text_eq(attribute.key.as_str(), "name") {
                    match unescape(attribute.value.as_str()) {
                        Some(name) => {
                            match Self::index_list(name.as_str()) {
                                Some(entered) => {
                                    return Ok(entered);
                                },
                                None => {},
                            }
                        },
                        None => {
                            return Err(XmlError::Escape);
                        },
                    }
                }
                i = i + 1;
            }
            if event.malformed {
                return Err(XmlError::MalformedAttribute);
            }
        }
        Ok(state)
    }

    /// The list that an index of the given name stands for, if any.
    pub fn index_list(name: &str) -> (r: Option<IndexParserState>)
        ensures
            r == index_list_named(name@),
    {
        if text_eq(name, "spectrum") {
            Some(IndexParserState::SpectrumIndexList)
        } else if text_eq(name, "chromatogram") {
            Some(IndexParserState::ChromatogramIndexList)
        } else {
            None
        }
    }

    /// Handles the closing tag of an element.
    pub fn end_element(&mut self, event: &EndElement, state: IndexParserState) -> (r: IndexStep)
        ensures
            *final(self) == *old(self),
            r == Ok::<IndexParserState, XmlError>(index_end(event.name@, state)),
    {
        if text_eq(event.name.as_str(), "indexList") {
            return Ok(IndexParserState::Done);
        }
        Ok(state)
    }

    /// Files `offset` under the pending identifier in the index that `state`
    /// stands for, and clears the identifier.
    pub fn record_offset(&mut self, offset: u64, state: IndexParserState)
        requires
            old(self).wf(),
        ensures
            final(self).wf(),
            final(self)@ == index_record(old(self)@, offset, state),
    {
        proof {
            if self.last_id@.len() == 0 {
                assert(self.last_id@ =~= Seq::<char>::empty());
            }
        }
        match state {
            IndexParserState::SpectrumIndexList => {
                if self.last_id.as_str().unicode_len() > 0 {
                    let mut key = String::new();
                    std::mem::swap(&mut key, &mut self.last_id);
                    self.spectrum_index.insert(key, offset);
                }
            },
            IndexParserState::ChromatogramIndexList => {
                if self.last_id.as_str().unicode_len() > 0 {
                    let mut key = String::new();
                    std::mem::swap(&mut key, &mut self.last_id);
                    self.chromatogram_index.insert(key, offset);
                }
            },
            _ => {},
        }
    }

    /// Handles character data.
    pub fn text(&mut self, event: &TextContent, state: IndexParserState) -> (r: IndexStep)
        requires
            old(self).wf(),
        ensures
            final(self).wf(),
            (final(self)@, r) == index_text(old(self)@, *event, state),
    {
        match state {
            IndexParserState::SpectrumIndexList | IndexParserState::ChromatogramIndexList => {
                match unescape(event.content.as_str()) {
                    Some(content) => {
                        match parse_u64(content.as_str()) {
                            Some(offset) => {
                                self.record_offset(offset, state);
                            },
                            None => {},
                        }
                    },
                    None => {
                        return Err(XmlError::Escape);
                    },
                }
            },
            _ => {},
        }
        Ok(state)
    }
}

} // verus!
