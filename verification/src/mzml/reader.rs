//! The reader: it owns the event pump, the parser state and the offset
//! index, reads the metadata and then one spectrum after the other, and
//! fetches spectra out of order through the index.

use crate::mzml::builder::{empty_builder, MzMLSpectrumBuilder, SpectrumBuilderView, Step};
use crate::mzml::idmap::IncrementingIdMap;
use crate::mzml::index::{empty_extractor, index_list_offset, IndexedMzMLIndexExtractor};
use crate::mzml::iteration::{deliveries, delivered_ordinals, lemma_complete_read_moves};
use crate::mzml::meta::{
    each_under_its_number, empty_metadata, file_by_number, filed_by_number, metadata_complete,
    one_per_id, DataProcessing, FileDescription, FileMetadataBuilder, InstrumentConfiguration,
    MetadataView, ReferenceParamGroup, Software,
};
use crate::mzml::passes::{
    error_left, fresh_builder, index_pass, metadata_pass, metadata_pass_stops, position_after,
    resumed, spectrum_outcome, spectrum_pass, spectrum_pass_at, tolerated, IndexPass,
    MetadataPass, SpectrumPass,
};
use crate::mzml::spectrum::Spectrum;
use crate::mzml::state::{
    IndexParserState, MzMLIndexingError, MzMLParserError, MzMLParserState, ScanAccessError,
};
use crate::mzml::time_search::{
    agrees_with_order, answer_of, is_over, lemma_nearest, lemma_search_after_probes,
    lemma_search_after_push, lemma_trace_keeps_target, middle, nearest_in, probe_agrees,
    search_after, Measured, SearchView, TimeSearch, Verdict,
};
use crate::offset_index::{lookup, new_index, IndexView, OffsetIndex};
use crate::pump::{lemma_next_event_follows, next_event, XmlEventPump, TAIL_WINDOW};
use crate::seek::SeekFrom;
use crate::tokenizer::{tail_of, tokenize, tokens};
use crate::views::views;
use crate::xml::{Failure, XmlError, XmlEvent};
use std::collections::HashMap;
use vstd::prelude::*;

verus! {

/// A reader of mzML documents.
#[derive(Debug)]
pub struct MzMLReaderType {
    /// The state the parser was in last.
    pub state: MzMLParserState,
    /// The event pump over the byte source.
    pub handle: XmlEventPump,
    /// The last error the parser met, until a read returns it.
    pub error: MzMLParserError,
    /// Spectrum identifier to byte offset, for random access.
    pub index: OffsetIndex,
    /// What the document holds and which files it was made from.
    pub file_description: FileDescription,
    /// The configurations of the instrument, each under its number.
    pub instrument_configurations: HashMap<u32, InstrumentConfiguration>,
    /// The software that took part in making the document.
    pub softwares: Vec<Software>,
    /// The processing applied to the data.
    pub data_processings: Vec<DataProcessing>,
    /// The parameter groups that elements refer to.
    pub reference_param_groups: Vec<ReferenceParamGroup>,
    /// The numbers of the instrument configurations.
    pub instrument_id_map: IncrementingIdMap,
}

impl MzMLReaderType {
    /// The pump, the index and the configuration numbers are well-formed.
    /// Each instrument configuration is filed under its own number, and
    /// each identifier stands for one reference parameter group.
    pub open spec fn wf(&self) -> bool {
        &&& self.handle.wf()
        &&& self.index.wf()
        &&& self.instrument_id_map.wf()
        &&& each_under_its_number(self.instrument_configurations@)
        &&& one_per_id(views(self.reference_param_groups@))
    }

    /// The same metadata as `other`.
    pub open spec fn same_metadata(&self, other: &Self) -> bool {
        &&& self.file_description == other.file_description
        &&& self.instrument_configurations == other.instrument_configurations
        &&& self.softwares == other.softwares
        &&& self.data_processings == other.data_processings
        &&& self.reference_param_groups == other.reference_param_groups
    }

    /// The same document with the same metadata and index as `other`: only
    /// the parser state, the held error, the cursor and the configuration
    /// numbers may differ.
    pub open spec fn same_document(&self, other: &Self) -> bool {
        &&& self.handle.same_source(&other.handle)
        &&& self.index == other.index
        &&& self.same_metadata(other)
    }

    /// Whether the reader holds the metadata `m`, as far as its elements
    /// were closed.
    pub open spec fn holds_metadata(&self, m: MetadataView) -> bool {
        &&& views(self.file_description.contents@) == m.contents
        &&& views(self.file_description.source_files@) == m.source_files
        &&& views(self.reference_param_groups@) == m.reference_param_groups
        &&& views(self.softwares@) == m.softwares
        &&& filed_by_number(self.instrument_configurations@, m.instrument_configurations)
        &&& views(self.data_processings@) == m.data_processings
    }

    /// The pass that reading the next spectrum makes from where the reader
    /// stands.
    pub open spec fn next_read(&self) -> SpectrumPass {
        spectrum_pass(
            self.handle.events(),
            next_event(self.handle.events(), self.handle.position()),
            resumed(self.state),
            self.error,
            self.builder_at_entry(empty_builder()),
        )
    }

    /// The number of spectra that reading again and again delivers from
    /// where the reader stands, until a read delivers none.
    pub open spec fn deliveries_ahead(&self) -> nat {
        deliveries(
            self.handle.events(),
            next_event(self.handle.events(), self.handle.position()),
            resumed(self.state),
            self.error,
            self.instrument_id_map.ids(),
        )
    }

    /// The ordinals of the spectra that reading again and again delivers
    /// from where the reader stands, until a read delivers none.
    pub open spec fn ordinals_ahead(&self) -> Seq<usize> {
        delivered_ordinals(
            self.handle.events(),
            next_event(self.handle.events(), self.handle.position()),
            resumed(self.state),
            self.error,
            self.instrument_id_map.ids(),
        )
    }

    /// The pass that reading a spectrum at byte `offset` makes.
    pub open spec fn spectrum_at(&self, offset: u64) -> SpectrumPass {
        spectrum_pass_at(self.handle.events(), offset, self.instrument_id_map.ids())
    }

    /// Whether the reader is what the pass `pass`, begun at `before`, leaves:
    /// the state of the pass, its error unless it was returned, its
    /// configuration numbers, and the cursor after the last event read.
    pub open spec fn left_by(&self, before: &Self, pass: SpectrumPass, from: u64) -> bool {
        &&& self.wf()
        &&& self.same_document(before)
        &&& self.state == pass.state
        &&& self.error == error_left(pass.state, pass.error)
        &&& self.instrument_id_map.ids() == pass.builder.ids
        &&& self.handle.position() >= from
        &&& self.handle.position() == position_after(
            before.handle.events(),
            before.handle.length(),
            from,
            pass.next,
            pass.at_end,
        )
    }

    /// Whether the reader is what a read in the error state leaves of
    /// `before`: everything but the held error, which was returned.
    pub open spec fn left_stuck(&self, before: &Self) -> bool {
        &&& self.wf()
        &&& self.same_document(before)
        &&& self.state == MzMLParserState::ParserError
        &&& self.error == MzMLParserError::NoError
        &&& self.handle.position() == before.handle.position()
        &&& self.instrument_id_map == before.instrument_id_map
    }

    /// The builder that a pass starts from: `accumulator` with the
    /// configuration numbers of the reader.
    pub open spec fn builder_at_entry(&self, accumulator: SpectrumBuilderView)
        -> SpectrumBuilderView {
        SpectrumBuilderView { ids: self.instrument_id_map.ids(), ..accumulator }
    }

    /// The pass that reading a spectrum into `accumulator` makes from where
    /// the reader stands.
    pub open spec fn pass_from_here(&self, accumulator: SpectrumBuilderView) -> SpectrumPass {
        spectrum_pass(
            self.handle.events(),
            next_event(self.handle.events(), self.handle.position()),
            self.state,
            self.error,
            self.builder_at_entry(accumulator),
        )
    }

    /// Takes the held error out of its slot.
    fn take_error(&mut self) -> (r: MzMLParserError)
        ensures
            r == old(self).error,
            final(self).error == MzMLParserError::NoError,
            final(self).state == old(self).state,
            final(self).handle == old(self).handle,
            final(self).instrument_id_map == old(self).instrument_id_map,
            final(self).same_document(old(self)),
    {
        let mut error = MzMLParserError::NoError;
        std::mem::swap(&mut error, &mut self.error);
        error
    }

    /// Reads events into `accumulator` until a spectrum is complete, and
    /// returns the number of bytes the cursor moved.
    ///
    /// A reader in the error state reads nothing: it returns the error it
    /// holds and stays in the error state. Otherwise the events from the
    /// cursor on are handled one by one. A failure of the tokenizer is held
    /// as an error, unless it is a closing tag without an open element met in
    /// state `Resume`, which is passed over. The pass ends with the spectrum,
    /// with the first error, or with the events.
    pub fn _parse_into(&mut self, accumulator: &mut MzMLSpectrumBuilder) -> (r: Result<
        u64,
        MzMLParserError,
    >)
        requires
            old(self).wf(),
        ensures
            old(self).state == MzMLParserState::ParserError ==> {
                &&& r == Err::<u64, MzMLParserError>(old(self).error)
                &&& final(self).left_stuck(old(self))
                &&& *final(accumulator) == *old(accumulator)
            },
            old(self).state != MzMLParserState::ParserError ==> {
                let pass = old(self).pass_from_here(old(accumulator)@);
                &&& final(accumulator)@ == pass.builder
                &&& final(accumulator).wf()
                &&& final(self).left_by(old(self), pass, old(self).handle.position())
                &&& r == spectrum_outcome(
                    pass.state,
                    pass.error,
                    (final(self).handle.position() - old(self).handle.position()) as u64,
                )
            },
    {
        if self.state == MzMLParserState::ParserError {
            return Err(self.take_error());
        }
        let entry: u64 = self.handle.stream_position();
        accumulator.instrument_id_map.copy_from(&self.instrument_id_map);
        let ghost events = self.handle.events();
        let ghost goal = old(self).pass_from_here(old(accumulator)@);
        proof {
            self.handle.lemma_has_next_event();
        }
        loop
            invariant_except_break
                goal == spectrum_pass(
                    events,
                    next_event(events, self.handle.position()),
                    self.state,
                    self.error,
                    accumulator@,
                ),
            invariant
                self.wf(),
                accumulator.wf(),
                self.same_document(old(self)),
                self.instrument_id_map == old(self).instrument_id_map,
                events == old(self).handle.events(),
                entry == old(self).handle.position(),
                goal == old(self).pass_from_here(old(accumulator)@),
                self.handle.position() >= entry,
                self.handle.position() == entry || self.handle.position() <= self.handle.length(),
                0 <= next_event(events, self.handle.position()) <= events.len(),
            ensures
                accumulator@ == goal.builder,
                self.state == goal.state,
                self.error == goal.error,
                self.handle.position() == position_after(
                    events,
                    old(self).handle.length(),
                    entry,
                    goal.next,
                    goal.at_end,
                ),
            decreases events.len() - next_event(events, self.handle.position()),
        {
            match self.handle.advance() {
                None => {
                    break ;
                },
                Some(i) => {
                    let state = self.state;
                    let step: Step = match &self.handle.event(i).event {
                        XmlEvent::Start(e) => accumulator.start_element(e, state),
                        XmlEvent::End(e) => accumulator.end_element(e, state),
                        XmlEvent::Empty(e) => accumulator.empty_element(e, state),
                        XmlEvent::Text(t) => accumulator.text(t, state),
                        XmlEvent::Eof => {
                            break ;
                        },
                        XmlEvent::Error(failure) => {
                            if Self::passes_over(failure, state) {
                                continue ;
                            }
                            Err(
                                MzMLParserError::IncompleteElementError(
                                    failure.excerpt.clone(),
                                    state,
                                ),
                            )
                        },
                        XmlEvent::Other => Ok(state),
                    };
                    match step {
                        Ok(next) => {
                            self.state = next;
                        },
                        Err(raised) => {
                            self.state = MzMLParserState::ParserError;
                            self.error = raised;
                        },
                    }
                    if self.state == MzMLParserState::SpectrumDone || self.state
                        == MzMLParserState::ParserError {
                        break ;
                    }
                },
            }
        }
        self.instrument_id_map.copy_from(&accumulator.instrument_id_map);
        let consumed: u64 = self.handle.stream_position() - entry;
        match self.state {
            MzMLParserState::SpectrumDone => Ok(consumed),
            MzMLParserState::ParserError => Err(self.take_error()),
            _ => Err(MzMLParserError::IncompleteSpectrum),
        }
    }


    /// Reads the next spectrum into `spectrum` and returns the number of
    /// bytes the cursor moved. A reader that has just delivered a spectrum
    /// resumes; then the events are read as `_parse_into` does. On an error
    /// `spectrum` stays as it was.
    pub fn read_into(&mut self, spectrum: &mut Spectrum) -> (r: Result<u64, MzMLParserError>)
        requires
            old(self).wf(),
        ensures
            old(self).state == MzMLParserState::ParserError ==> {
                &&& r == Err::<u64, MzMLParserError>(old(self).error)
                &&& final(self).left_stuck(old(self))
                &&& *final(spectrum) == *old(spectrum)
            },
            old(self).state != MzMLParserState::ParserError ==> {
                let pass = old(self).next_read();
                &&& final(self).left_by(old(self), pass, old(self).handle.position())
                &&& r == spectrum_outcome(
                    pass.state,
                    pass.error,
                    (final(self).handle.position() - old(self).handle.position()) as u64,
                )
                &&& pass.state == MzMLParserState::SpectrumDone ==> final(spectrum)@
                    == pass.builder.spectrum
                &&& pass.state != MzMLParserState::SpectrumDone ==> *final(spectrum) == *old(spectrum)
            },
    {
        let mut accumulator = MzMLSpectrumBuilder::new();
        if self.state == MzMLParserState::SpectrumDone {
            self.state = MzMLParserState::Resume;
        }
        match self._parse_into(&mut accumulator) {
            Ok(size) => {
                accumulator.into_spectrum(spectrum);
                Ok(size)
            },
            Err(error) => Err(error),
        }
    }

    /// Reads the next spectrum. Every error gives `None`; the reader is left
    /// as `read_into` leaves it. Each spectrum delivered is one of those that
    /// lay ahead.
    pub fn read_next(&mut self) -> (r: Option<Spectrum>)
        requires
            old(self).wf(),
        ensures
            old(self).state == MzMLParserState::ParserError ==> r is None && final(self).left_stuck(old(self)),
            old(self).state != MzMLParserState::ParserError ==> {
                let pass = old(self).next_read();
                &&& final(self).left_by(old(self), pass, old(self).handle.position())
                &&& match r {
                    Some(spectrum) => {
                        &&& pass.state == MzMLParserState::SpectrumDone
                        &&& spectrum@ == pass.builder.spectrum
                        &&& old(self).deliveries_ahead() == 1 + final(self).deliveries_ahead()
                        &&& old(self).ordinals_ahead() == seq![spectrum@.index] + final(self).ordinals_ahead()
                    },
                    None => {
                        &&& pass.state != MzMLParserState::SpectrumDone
                        &&& old(self).deliveries_ahead() == 0
                        &&& old(self).ordinals_ahead() == Seq::<usize>::empty()
                    },
                }
            },
    {
        let mut spectrum = Spectrum::new();
        proof {
            self.handle.lemma_has_next_event();
        }
        match self.read_into(&mut spectrum) {
            Ok(_) => {
                proof {
                    let events = old(self).handle.events();
                    let k = next_event(events, old(self).handle.position());
                    let pass = old(self).next_read();
                    lemma_complete_read_moves(
                        events,
                        k,
                        resumed(old(self).state),
                        old(self).error,
                        fresh_builder(old(self).instrument_id_map.ids()),
                    );
                    lemma_next_event_follows(events, old(self).handle.length(), pass.next - 1);
                }
                Some(spectrum)
            },
            Err(_) => None,
        }
    }

    /// The error the parser met last, until a read returns it.
    pub fn last_error(&self) -> (r: &MzMLParserError)
        ensures
            *r == self.error,
    {
        &self.error
    }

    /// The number of spectra the offset index lists.
    pub fn len(&self) -> (r: usize)
        ensures
            r == self.index.entries().len(),
    {
        self.index.len()
    }

    /// The offset index.
    pub fn get_index(&self) -> (r: &OffsetIndex)
        ensures
            *r == self.index,
    {
        &self.index
    }

    /// Replaces the offset index.
    pub fn set_index(&mut self, index: OffsetIndex)
        ensures
            final(self).index == index,
            final(self).state == old(self).state,
            final(self).handle == old(self).handle,
            final(self).error == old(self).error,
            final(self).instrument_id_map == old(self).instrument_id_map,
            final(self).same_metadata(old(self)),
    {
        self.index = index;
    }

    /// Moves the cursor back to the first byte of the source. The metadata
    /// is not read again.
    pub fn reset(&mut self)
        ensures
            final(self).handle.position() == 0,
            final(self).handle.wf() == old(self).handle.wf(),
            final(self).same_document(old(self)),
            final(self).state == old(self).state,
            final(self).error == old(self).error,
            final(self).instrument_id_map == old(self).instrument_id_map,
    {
        let _ = self.handle.seek(SeekFrom::Start(0));
    }

    /// The byte offset that the index gives for the identifier `id`.
    pub fn _offset_of_id(&self, id: &str) -> (r: Option<u64>)
        requires
            self.index.wf(),
        ensures
            r == lookup(self.index.entries(), id@),
    {
        self.index.get(id)
    }

    /// The byte offset that the index gives for the ordinal `index`.
    pub fn _offset_of_index(&self, index: usize) -> (r: Option<u64>)
        ensures
            match r {
                Some(offset) => index < self.index.entries().len() && offset
                    == self.index.entries()[index as int].1,
                None => index >= self.index.entries().len(),
            },
    {
        match self.index.get_index(index) {
            Some(entry) => Some(entry.1),
            None => None,
        }
    }

    /// Reads the spectrum at byte `offset` and puts the cursor back where it
    /// was: moves the cursor to the offset, resumes, reads one spectrum.
    fn fetch(&mut self, offset: u64) -> (r: Option<Spectrum>)
        requires
            old(self).wf(),
        ensures
            final(self).left_fetched(old(self), offset),
            match r {
                Some(spectrum) => {
                    &&& old(self).spectrum_at(offset).state == MzMLParserState::SpectrumDone
                    &&& spectrum@ == old(self).spectrum_at(offset).builder.spectrum
                },
                None => old(self).spectrum_at(offset).state != MzMLParserState::SpectrumDone,
            },
    {
        let start = self.handle.stream_position();
        let _ = self.handle.seek(SeekFrom::Start(offset));
        self.state = MzMLParserState::Resume;
        self.error = MzMLParserError::NoError;
        let result = self.read_next();
        let _ = self.handle.seek(SeekFrom::Start(start));
        result
    }

    /// Whether the reader is what fetching the spectrum at `offset` leaves
    /// of `before`: the cursor where it was, the state and the error of the
    /// pass that read the spectrum.
    pub open spec fn left_fetched(&self, before: &Self, offset: u64) -> bool {
        let pass = before.spectrum_at(offset);
        &&& self.wf()
        &&& self.same_document(before)
        &&& self.handle.position() == before.handle.position()
        &&& self.state == pass.state
        &&& self.error == error_left(pass.state, pass.error)
        &&& self.instrument_id_map.ids() == pass.builder.ids
    }

    /// Whether the reader is `before` untouched.
    pub open spec fn untouched(&self, before: &Self) -> bool {
        &&& self.wf()
        &&& self.same_document(before)
        &&& self.handle.position() == before.handle.position()
        &&& self.state == before.state
        &&& self.error == before.error
        &&& self.instrument_id_map == before.instrument_id_map
    }

    /// Fetches the spectrum with the native identifier `id`: looks up its
    /// byte offset in the index, reads the spectrum that starts there, and
    /// puts the cursor back where it was. An identifier that the index does
    /// not list is an error, and so is an offset at which no spectrum can be
    /// read.
    pub fn get_spectrum_by_id(&mut self, id: &str) -> (r: Result<Spectrum, ScanAccessError>)
        requires
            old(self).wf(),
        ensures
            final(self).handle.position() == old(self).handle.position(),
            match lookup(old(self).index.entries(), id@) {
                None => r == Err::<Spectrum, ScanAccessError>(ScanAccessError::UnknownId) && final(self).untouched(old(self)),
                Some(offset) => {
                    &&& final(self).left_fetched(old(self), offset)
                    &&& match r {
                        Ok(spectrum) => {
                            &&& old(self).spectrum_at(offset).state
                                == MzMLParserState::SpectrumDone
                            &&& spectrum@ == old(self).spectrum_at(offset).builder.spectrum
                        },
                        Err(error) => {
                            &&& error == ScanAccessError::NotRead
                            &&& old(self).spectrum_at(offset).state
                                != MzMLParserState::SpectrumDone
                        },
                    }
                },
            },
    {
        match self.index.get(id) {
            Some(offset) => match self.fetch(offset) {
                Some(spectrum) => Ok(spectrum),
                None => Err(ScanAccessError::NotRead),
            },
            None => Err(ScanAccessError::UnknownId),
        }
    }

    /// Fetches the spectrum with the ordinal `index` in the offset index, as
    /// `get_spectrum_by_id` does for an identifier. An ordinal beyond the
    /// index is an error.
    pub fn get_spectrum_by_index(&mut self, index: usize) -> (r: Result<Spectrum, ScanAccessError>)
        requires
            old(self).wf(),
        ensures
            final(self).handle.position() == old(self).handle.position(),
            index >= old(self).index.entries().len() ==> r == Err::<Spectrum, ScanAccessError>(
                ScanAccessError::IndexOutOfRange,
            ) && final(self).untouched(old(self)),
            index < old(self).index.entries().len() ==> {
                let offset = old(self).index.entries()[index as int].1;
                &&& final(self).left_fetched(old(self), offset)
                &&& match r {
                    Ok(spectrum) => {
                        &&& old(self).spectrum_at(offset).state == MzMLParserState::SpectrumDone
                        &&& spectrum@ == old(self).spectrum_at(offset).builder.spectrum
                    },
                    Err(error) => {
                        &&& error == ScanAccessError::NotRead
                        &&& old(self).spectrum_at(offset).state != MzMLParserState::SpectrumDone
                    },
                }
            },
    {
        match self._offset_of_index(index) {
            Some(offset) => match self.fetch(offset) {
                Some(spectrum) => Ok(spectrum),
                None => Err(ScanAccessError::NotRead),
            },
            None => Err(ScanAccessError::IndexOutOfRange),
        }
    }


    /// Whether the reader is what the metadata pass `pass` leaves of a source
    /// whose cursor stood at `from`.
    pub open spec fn left_by_metadata(&self, pass: MetadataPass, from: u64) -> bool {
        &&& self.state == pass.state
        &&& self.error == pass.error
        &&& self.instrument_id_map.ids() == pass.metadata.ids
        &&& self.holds_metadata(pass.metadata)
        &&& self.handle.position() == position_after(
            self.handle.events(),
            self.handle.length(),
            from,
            pass.next,
            pass.at_end,
        )
    }

    /// Reads the metadata: handles the events from the cursor on until the
    /// run, the spectrum list or a spectrum begins, and stores what was
    /// collected. An error is held for the next read. Returns whether the
    /// metadata is complete.
    fn parse_metadata(&mut self) -> (complete: bool)
        requires
            old(self).wf(),
        ensures
            final(self).wf(),
            final(self).handle.same_source(&old(self).handle),
            final(self).index == old(self).index,
            final(self).left_by_metadata(
                metadata_pass(
                    old(self).handle.events(),
                    next_event(old(self).handle.events(), old(self).handle.position()),
                    old(self).state,
                    old(self).error,
                    MetadataView { ids: old(self).instrument_id_map.ids(), ..empty_metadata() },
                ),
                old(self).handle.position(),
            ),
            complete == metadata_complete(final(self).state),
    {
        let entry: u64 = self.handle.stream_position();
        let mut accumulator = FileMetadataBuilder::new();
        accumulator.instrument_id_map.copy_from(&self.instrument_id_map);
        let ghost events = self.handle.events();
        let ghost goal = metadata_pass(
            events,
            next_event(events, entry),
            self.state,
            self.error,
            accumulator@,
        );
        proof {
            self.handle.lemma_has_next_event();
        }
        loop
            invariant_except_break
                goal == metadata_pass(
                    events,
                    next_event(events, self.handle.position()),
                    self.state,
                    self.error,
                    accumulator@,
                ),
            invariant
                self.wf(),
                accumulator.wf(),
                self.handle.same_source(&old(self).handle),
                self.index == old(self).index,
                events == old(self).handle.events(),
                entry == old(self).handle.position(),
                self.handle.position() >= entry,
                self.handle.position() == entry || self.handle.position() <= self.handle.length(),
                0 <= next_event(events, self.handle.position()) <= events.len(),
            ensures
                accumulator@ == goal.metadata,
                self.state == goal.state,
                self.error == goal.error,
                self.handle.position() == position_after(
                    events,
                    old(self).handle.length(),
                    entry,
                    goal.next,
                    goal.at_end,
                ),
            decreases events.len() - next_event(events, self.handle.position()),
        {
            match self.handle.advance() {
                None => {
                    break ;
                },
                Some(i) => {
                    let state = self.state;
                    let step: Step = match &self.handle.event(i).event {
                        XmlEvent::Start(e) => accumulator.start_element(e, state),
                        XmlEvent::End(e) => accumulator.end_element(e, state),
                        XmlEvent::Empty(e) => accumulator.empty_element(e, state),
                        XmlEvent::Text(t) => accumulator.text(t, state),
                        XmlEvent::Eof => {
                            break ;
                        },
                        XmlEvent::Error(failure) => {
                            if Self::passes_over(failure, state) {
                                continue ;
                            }
                            Err(
                                MzMLParserError::IncompleteElementError(
                                    failure.excerpt.clone(),
                                    state,
                                ),
                            )
                        },
                        XmlEvent::Other => Ok(state),
                    };
                    match step {
                        Ok(next) => {
                            self.state = next;
                        },
                        Err(raised) => {
                            self.state = MzMLParserState::ParserError;
                            self.error = raised;
                        },
                    }
                    if Self::metadata_stops(self.state) {
                        break ;
                    }
                },
            }
        }
        self.instrument_id_map.copy_from(&accumulator.instrument_id_map);
        self.file_description = accumulator.file_description;
        self.reference_param_groups = accumulator.reference_param_groups;
        self.softwares = accumulator.softwares;
        self.instrument_configurations = file_by_number(accumulator.instrument_configurations);
        self.data_processings = accumulator.data_processings;
        Self::metadata_is_complete(self.state)
    }

    /// Whether the metadata is complete in `state`.
    pub fn metadata_is_complete(state: MzMLParserState) -> (r: bool)
        ensures
            r == metadata_complete(state),
    {
        state == MzMLParserState::Run || state == MzMLParserState::SpectrumList || state
            == MzMLParserState::Spectrum
    }

    /// Whether reading the metadata stops in `state`.
    pub fn metadata_stops(state: MzMLParserState) -> (r: bool)
        ensures
            r == metadata_pass_stops(state),
    {
        Self::metadata_is_complete(state) || state == MzMLParserState::ParserError
    }

    /// Opens a document: takes over the event pump and reads the metadata
    /// from its cursor on, until the run, the spectrum list or a spectrum
    /// begins. The cursor is left behind the last event read. A malformed
    /// header still gives a reader: it is in the error state and holds the
    /// error for the next read. The offset index starts out empty and
    /// uninitialised.
    pub fn new(handle: XmlEventPump) -> (r: Self)
        requires
            handle.wf(),
        ensures
            r.wf(),
            r.handle.same_source(&handle),
            r.left_by_metadata(
                metadata_pass(
                    handle.events(),
                    next_event(handle.events(), handle.position()),
                    MzMLParserState::Start,
                    MzMLParserError::NoError,
                    empty_metadata(),
                ),
                handle.position(),
            ),
            r.index@ == new_index("spectrum"@),
    {
        let mut reader = MzMLReaderType {
            state: MzMLParserState::Start,
            handle,
            error: MzMLParserError::NoError,
            index: OffsetIndex::new("spectrum".to_owned()),
            file_description: FileDescription::new(),
            instrument_configurations: HashMap::new(),
            softwares: Vec::new(),
            data_processings: Vec::new(),
            reference_param_groups: Vec::new(),
            instrument_id_map: IncrementingIdMap::new(),
        };
        reader.parse_metadata();
        reader
    }


    /// The pass that reading the index list at byte `offset` makes.
    pub open spec fn index_at(&self, offset: u64) -> IndexPass {
        index_pass(
            self.handle.events(),
            next_event(self.handle.events(), offset),
            IndexParserState::Start,
            empty_extractor(),
        )
    }

    /// Whether the reader is `before` but for the cursor and the index.
    pub open spec fn same_reading(&self, before: &Self) -> bool {
        &&& self.wf()
        &&& self.handle.same_source(&before.handle)
        &&& self.same_metadata(before)
        &&& self.state == before.state
        &&& self.error == before.error
        &&& self.instrument_id_map == before.instrument_id_map
    }

    /// Reads the offset index that ends an indexed document and returns the
    /// number of spectra it lists.
    ///
    /// The offset of the index list is looked for in the last bytes of the
    /// source. A source too short to hold it gives an I/O error; one that
    /// does not announce an index list gives `OffsetNotFound`, with the
    /// cursor left at the end. Otherwise the index list is read from the
    /// announced offset on: until an opening tag is met after the list has
    /// closed, or until the events end. An XML error ends the read with the
    /// cursor behind the event that failed and the index as it was. On
    /// success the spectrum entries become the index of the reader, marked as
    /// initialised, and the cursor is put back where it was.
    pub fn read_index_from_end(&mut self) -> (r: Result<u64, MzMLIndexingError>)
        requires
            old(self).wf(),
        ensures
            final(self).same_reading(old(self)),
            old(self).handle.length() < TAIL_WINDOW ==> {
                &&& r matches Err(MzMLIndexingError::IOError(_))
                &&& final(self).index == old(self).index
                &&& final(self).handle.position() == old(self).handle.position()
            },
            old(self).handle.length() >= TAIL_WINDOW ==> match index_list_offset(
                old(self).handle.tail(),
            ) {
                None => {
                    &&& r matches Err(MzMLIndexingError::OffsetNotFound)
                    &&& final(self).index == old(self).index
                    &&& final(self).handle.position() == old(self).handle.length()
                },
                Some(offset) => {
                    let pass = old(self).index_at(offset);
                    match pass.failure {
                        Some(error) => {
                            &&& r == Err::<u64, MzMLIndexingError>(
                                MzMLIndexingError::XMLError(error),
                            )
                            &&& final(self).index == old(self).index
                            &&& final(self).handle.position() == position_after(
                                old(self).handle.events(),
                                old(self).handle.length(),
                                offset,
                                pass.next,
                                pass.at_end,
                            )
                        },
                        None => {
                            &&& r == Ok::<u64, MzMLIndexingError>(
                                pass.extractor.spectrum.entries.len() as u64,
                            )
                            &&& final(self).index@ == (IndexView {
                                initialized: true,
                                ..pass.extractor.spectrum
                            })
                            &&& final(self).handle.position() == old(self).handle.position()
                        },
                    }
                },
            },
    {
        let mut indexer = IndexedMzMLIndexExtractor::new();
        let current_position = self.handle.stream_position();
        let offset = match indexer.find_offset_from_reader(&mut self.handle) {
            Ok(Some(offset)) => offset,
            Ok(None) => {
                return Err(MzMLIndexingError::OffsetNotFound);
            },
            Err(_) => {
                return Err(MzMLIndexingError::IOError("cannot seek to the tail of the source".to_owned()));
            },
        };
        let _ = self.handle.seek(SeekFrom::Start(offset));
        let mut indexer_state = IndexParserState::Start;
        let mut failure: Option<XmlError> = None;
        let ghost events = self.handle.events();
        let ghost goal = old(self).index_at(offset);
        proof {
            self.handle.lemma_has_next_event();
        }
        loop
            invariant_except_break
                failure is None,
                goal == index_pass(
                    events,
                    next_event(events, self.handle.position()),
                    indexer_state,
                    indexer@,
                ),
            invariant
                self.same_reading(old(self)),
                self.index == old(self).index,
                indexer.wf(),
                events == old(self).handle.events(),
                goal == old(self).index_at(offset),
                self.handle.position() == offset || self.handle.position()
                    <= self.handle.length(),
                self.handle.position() >= offset,
                0 <= next_event(events, self.handle.position()) <= events.len(),
            ensures
                failure == goal.failure,
                indexer@ == goal.extractor,
                self.handle.position() == position_after(
                    events,
                    old(self).handle.length(),
                    offset,
                    goal.next,
                    goal.at_end,
                ),
            decreases events.len() - next_event(events, self.handle.position()),
        {
            match self.handle.advance() {
                None => {
                    break ;
                },
                Some(i) => {
                    match &self.handle.event(i).event {
                        XmlEvent::Start(e) => {
                            match indexer.start_element(e, indexer_state) {
                                Ok(state) => {
                                    indexer_state = state;
                                    if state == IndexParserState::Done {
                                        break ;
                                    }
                                },
                                Err(error) => {
                                    failure = Some(error);
                                    break ;
                                },
                            }
                        },
                        XmlEvent::End(e) => {
                            match indexer.end_element(e, indexer_state) {
                                Ok(state) => {
                                    indexer_state = state;
                                },
                                Err(error) => {
                                    failure = Some(error);
                                    break ;
                                },
                            }
                        },
                        XmlEvent::Text(t) => {
                            match indexer.text(t, indexer_state) {
                                Ok(state) => {
                                    indexer_state = state;
                                },
                                Err(error) => {
                                    failure = Some(error);
                                    break ;
                                },
                            }
                        },
                        XmlEvent::Eof => {
                            break ;
                        },
                        XmlEvent::Error(broken) => {
                            failure = Some(broken.error.duplicate());
                            break ;
                        },
                        _ => {},
                    }
                },
            }
        }
        match failure {
            Some(error) => Err(MzMLIndexingError::XMLError(error)),
            None => {
                self.index = indexer.into_spectrum_index();
                self.index.set_initialized(true);
                let _ = self.handle.seek(SeekFrom::Start(current_position));
                Ok(self.index.len() as u64)
            },
        }
    }

    /// Whether every entry of the index leads to its spectrum: the spectrum
    /// read at the offset of an entry is complete and carries the ordinal
    /// and the identifier of that entry.
    pub open spec fn index_is_faithful(&self) -> bool {
        forall|i: int|
            0 <= i < self.index.entries().len() ==> {
                let pass = #[trigger] self.spectrum_at(self.index.entries()[i].1);
                &&& pass.state == MzMLParserState::SpectrumDone
                &&& pass.builder.spectrum.index == i
                &&& pass.builder.spectrum.id == self.index.entries()[i].0
            }
    }

    /// With a faithful index, the spectrum fetched by an ordinal carries that
    /// ordinal: the pass that `get_spectrum_by_index` makes for `i` ends with
    /// a complete spectrum whose ordinal is `i`.
    pub proof fn lemma_fetched_by_ordinal_has_that_ordinal(&self, i: int)
        requires
            self.index_is_faithful(),
            0 <= i < self.index.entries().len(),
        ensures
            self.spectrum_at(self.index.entries()[i].1).state == MzMLParserState::SpectrumDone,
            self.spectrum_at(self.index.entries()[i].1).builder.spectrum.index == i,
    {
    }

    /// With a faithful index, the spectrum fetched by an identifier carries
    /// that identifier: for every identifier the index lists, the pass that
    /// `get_spectrum_by_id` makes for it ends with a complete spectrum whose
    /// identifier is the one asked for.
    pub proof fn lemma_fetched_by_id_has_that_id(&self, id: Seq<char>)
        requires
            self.index.wf(),
            self.index_is_faithful(),
            lookup(self.index.entries(), id) is Some,
        ensures
            self.spectrum_at(lookup(self.index.entries(), id)->0).state
                == MzMLParserState::SpectrumDone,
            self.spectrum_at(lookup(self.index.entries(), id)->0).builder.spectrum.id == id,
    {
        let entries = self.index.entries();
        let i = crate::offset_index::ordinal_of(entries, id);
        assert(entries[i].0 == id);
        let pass = self.spectrum_at(entries[i].1);
        assert(pass.state == MzMLParserState::SpectrumDone);
    }


    /// Whether `spectrum` is what reading at the offset of the entry with
    /// the given ordinal gives, for some numbering of the instrument
    /// configurations.
    pub open spec fn fetched_at(&self, ordinal: int, spectrum: Spectrum) -> bool {
        &&& 0 <= ordinal < self.index.entries().len()
        &&& exists|ids: Seq<Seq<char>>|
            {
                let pass = #[trigger] spectrum_pass_at(
                    self.handle.events(),
                    self.index.entries()[ordinal].1,
                    ids,
                );
                pass.state == MzMLParserState::SpectrumDone && spectrum@ == pass.builder.spectrum
            }
    }

    /// Whether no spectrum can be read at the offset of the entry with the
    /// given ordinal, for some numbering of the instrument configurations.
    pub open spec fn fetch_fails_at(&self, ordinal: int) -> bool {
        &&& 0 <= ordinal < self.index.entries().len()
        &&& exists|ids: Seq<Seq<char>>|
            (#[trigger] spectrum_pass_at(
                self.handle.events(),
                self.index.entries()[ordinal].1,
                ids,
            )).state != MzMLParserState::SpectrumDone
    }

    /// The search over the spectra of the index after the probes of `trace`.
    pub open spec fn searched(&self, tolerance: u64, bound: u64, trace: Seq<Measured>)
        -> SearchView {
        search_after(self.index.entries().len() as usize, tolerance, bound, trace)
    }

    /// Whether probe `i` of `trace` follows from the probes before it: the
    /// search was not over, the spectrum was fetched from the middle of the
    /// window, and `measure` gave what is recorded for it.
    pub open spec fn probe_follows<F: Fn(&Spectrum) -> (u64, bool)>(
        &self,
        measure: F,
        tolerance: u64,
        bound: u64,
        trace: Seq<Measured>,
        i: int,
    ) -> bool {
        let before = self.searched(tolerance, bound, trace.take(i));
        &&& !is_over(before)
        &&& self.fetched_at(middle(before) as int, trace[i].0)
        &&& call_ensures(measure, (&trace[i].0,), (trace[i].1, trace[i].2))
    }

    /// Whether `trace` records a bisection: each of its spectra was fetched
    /// from the middle of the window that the probes before it had left, and
    /// measured by `measure`.
    pub open spec fn bisected<F: Fn(&Spectrum) -> (u64, bool)>(
        &self,
        measure: F,
        tolerance: u64,
        bound: u64,
        trace: Seq<Measured>,
    ) -> bool {
        forall|i: int|
            0 <= i < trace.len() ==> #[trigger] self.probe_follows(
                measure,
                tolerance,
                bound,
                trace,
                i,
            )
    }

    /// Whether `r` is what the bisection recorded in `trace` comes to. A
    /// search that is over answers with the spectrum of its answer. A search
    /// that is not over broke off because the spectrum in the middle of its
    /// window could not be fetched: it answers with nothing.
    pub open spec fn search_outcome(
        &self,
        tolerance: u64,
        bound: u64,
        trace: Seq<Measured>,
        r: Option<Spectrum>,
    ) -> bool {
        let search = self.searched(tolerance, bound, trace);
        if is_over(search) {
            match answer_of(search) {
                Some(answer) => r matches Some(spectrum) && exists|j: int|
                    0 <= j < trace.len() && search.probes[j] == answer && (#[trigger] trace[j]).0
                        == spectrum,
                None => r is None,
            }
        } else {
            r is None && self.fetch_fails_at(middle(search) as int)
        }
    }

    /// Whether `r` is what a search by time gives: there is a bisection that
    /// comes to it.
    pub open spec fn found_by_time<F: Fn(&Spectrum) -> (u64, bool)>(
        &self,
        measure: F,
        tolerance: u64,
        bound: u64,
        r: Option<Spectrum>,
    ) -> bool {
        exists|trace: Seq<Measured>|
            #![trigger self.bisected(measure, tolerance, bound, trace)]
            self.bisected(measure, tolerance, bound, trace) && self.search_outcome(
                tolerance,
                bound,
                trace,
                r,
            )
    }

    /// Whether `spectrum` is the nearest of the spectra that a search
    /// probed: there is a bisection of which `spectrum` is one probe, and
    /// none of whose probes was measured nearer to the target.
    pub open spec fn nearest_probed<F: Fn(&Spectrum) -> (u64, bool)>(
        &self,
        measure: F,
        tolerance: u64,
        bound: u64,
        spectrum: Spectrum,
    ) -> bool {
        exists|trace: Seq<Measured>|
            #![trigger self.bisected(measure, tolerance, bound, trace)]
            self.bisected(measure, tolerance, bound, trace) && nearest_in(trace, spectrum)
    }

    /// Whether every spectrum that the index lists can be fetched, whatever
    /// the numbering of the instrument configurations.
    pub open spec fn every_fetch_succeeds(&self) -> bool {
        forall|ordinal: int|
            0 <= ordinal < self.index.entries().len() ==> !#[trigger] self.fetch_fails_at(ordinal)
    }

    /// Whether `measure` measures the spectra of the index as an order would
    /// in which the target stands at ordinal `target`: what it gives for a
    /// spectrum fetched at an ordinal agrees with that order.
    pub open spec fn measures_in_order<F: Fn(&Spectrum) -> (u64, bool)>(
        &self,
        measure: F,
        tolerance: u64,
        target: usize,
    ) -> bool {
        forall|ordinal: int, spectrum: Spectrum, error: u64, later: bool|
            #![trigger self.fetched_at(ordinal, spectrum), call_ensures(measure, (&spectrum,), (error, later))]
            self.fetched_at(ordinal, spectrum) && call_ensures(
                measure,
                (&spectrum,),
                (error, later),
            ) ==> agrees_with_order(ordinal as usize, error, later, target, tolerance)
    }

    /// Over spectra in order, a search for a target that is there finds it.
    /// Where every indexed spectrum can be fetched, and `measure` tells of
    /// the spectra what an order tells in which one of them lies within the
    /// tolerance of the target, a search by time returns a spectrum, and
    /// that spectrum was measured within the tolerance.
    pub proof fn lemma_search_by_time_finds_target<F: Fn(&Spectrum) -> (u64, bool)>(
        &self,
        measure: F,
        tolerance: u64,
        bound: u64,
        target: usize,
        r: Option<Spectrum>,
    )
        requires
            target < self.index.entries().len() <= usize::MAX,
            self.every_fetch_succeeds(),
            self.measures_in_order(measure, tolerance, target),
            self.found_by_time(measure, tolerance, bound, r),
        ensures
            r matches Some(spectrum) && exists|error: u64, later: bool|
                #![trigger call_ensures(measure, (&spectrum,), (error, later))]
                call_ensures(measure, (&spectrum,), (error, later)) && error < tolerance,
    {
        let count = self.index.entries().len() as usize;
        let trace = choose|trace: Seq<Measured>|
            #![trigger self.bisected(measure, tolerance, bound, trace)]
            self.bisected(measure, tolerance, bound, trace) && self.search_outcome(
                tolerance,
                bound,
                trace,
                r,
            );
        assert forall|i: int| 0 <= i < trace.len() implies #[trigger] probe_agrees(
            count,
            tolerance,
            bound,
            trace,
            i,
            target,
        ) by {
            assert(self.probe_follows(measure, tolerance, bound, trace, i));
            let before = self.searched(tolerance, bound, trace.take(i));
            assert(self.fetched_at(middle(before) as int, trace[i].0));
            assert(call_ensures(measure, (&trace[i].0,), (trace[i].1, trace[i].2)));
        }
        lemma_trace_keeps_target(count, tolerance, bound, trace, target);
        lemma_search_after_probes(count, tolerance, bound, trace);
        let search = self.searched(tolerance, bound, trace);
        if is_over(search) {
            let spectrum = r->0;
            let j = choose|j: int|
                0 <= j < trace.len() && search.probes[j] == answer_of(search)->0 && (
                #[trigger] trace[j]).0 == spectrum;
            assert(self.probe_follows(measure, tolerance, bound, trace, j));
            assert(search.probes[j].1 == trace[j].1);
            assert(call_ensures(measure, (&spectrum,), (trace[j].1, trace[j].2)));
        } else {
            assert(self.fetch_fails_at(middle(search) as int));
        }
    }

    /// A bisection with one more probe is a bisection.
    proof fn lemma_bisected_push<F: Fn(&Spectrum) -> (u64, bool)>(
        &self,
        measure: F,
        tolerance: u64,
        bound: u64,
        trace: Seq<Measured>,
        probe: Measured,
    )
        requires
            self.bisected(measure, tolerance, bound, trace),
            !is_over(self.searched(tolerance, bound, trace)),
            self.fetched_at(middle(self.searched(tolerance, bound, trace)) as int, probe.0),
            call_ensures(measure, (&probe.0,), (probe.1, probe.2)),
        ensures
            self.bisected(measure, tolerance, bound, trace.push(probe)),
    {
        let longer = trace.push(probe);
        assert forall|i: int| 0 <= i < longer.len() implies #[trigger] self.probe_follows(
            measure,
            tolerance,
            bound,
            longer,
            i,
        ) by {
            if i < trace.len() {
                assert(self.probe_follows(measure, tolerance, bound, trace, i));
                assert(longer.take(i) =~= trace.take(i));
                assert(longer[i] == trace[i]);
            } else {
                assert(longer.take(i) =~= trace);
                assert(longer[i] == probe);
            }
        }
    }

    /// Fetches the spectrum nearest to a target, by bisection over the
    /// ordinals of the offset index.
    ///
    /// `measure` tells for a spectrum how far it lies from the target, as a
    /// number that orders distances, and whether it lies after the target.
    /// The spectrum in the middle of the window is fetched and measured. One
    /// nearer than `tolerance` is returned at once. Otherwise it is kept if
    /// it is nearer than `bound` and than every one before, and the window
    /// is cut at it. When the window is empty the nearest spectrum seen is
    /// returned. An empty index gives `None`, and so does a spectrum that
    /// cannot be fetched. The cursor is left where it was.
    pub fn get_spectrum_by_time<F: Fn(&Spectrum) -> (u64, bool)>(
        &mut self,
        measure: F,
        tolerance: u64,
        bound: u64,
    ) -> (r: Option<Spectrum>)
        requires
            old(self).wf(),
            forall|spectrum: &Spectrum| call_requires(measure, (spectrum,)),
        ensures
            final(self).wf(),
            final(self).same_document(old(self)),
            final(self).handle.position() == old(self).handle.position(),
            old(self).index.entries().len() == 0 ==> r is None && final(self).untouched(old(self)),
            old(self).found_by_time(measure, tolerance, bound, r),
            r matches Some(spectrum) ==> old(self).nearest_probed(
                measure,
                tolerance,
                bound,
                spectrum,
            ),
    {
        let count = self.index.len();
        let mut search = TimeSearch::new(count, tolerance, bound);
        let mut best_match: Option<Spectrum> = None;
        let ghost mut trace: Seq<Measured> = Seq::empty();
        loop
            invariant
                self.wf(),
                search.wf(),
                self.same_document(old(self)),
                self.handle.position() == old(self).handle.position(),
                old(self).index.entries().len() == 0 ==> self.untouched(old(self)),
                old(self).index.entries().len() == 0 ==> trace.len() == 0,
                count == old(self).index.entries().len(),
                search@.hi <= count,
                forall|spectrum: &Spectrum| call_requires(measure, (spectrum,)),
                search@ == search_after(count, tolerance, bound, trace),
                old(self).bisected(measure, tolerance, bound, trace),
                search@.found is None,
                match best_match {
                    Some(best) => search@.best is Some && exists|j: int|
                        0 <= j < trace.len() && search@.probes[j] == search@.best->0 && (
                        #[trigger] trace[j]).0 == best,
                    None => search@.best is None,
                },
            decreases search@.hi - search@.lo,
        {
            let probe = match search.next_probe() {
                Some(probe) => probe,
                None => {
                    proof {
                        if best_match is Some {
                            let best = best_match->0;
                            let j = choose|j: int|
                                0 <= j < trace.len() && search@.probes[j] == search@.best->0 && (
                                #[trigger] trace[j]).0 == best;
                            lemma_search_after_probes(count, tolerance, bound, trace);
                            lemma_nearest(count, tolerance, bound, trace, j);
                        }
                        assert(old(self).search_outcome(tolerance, bound, trace, best_match));
                    }
                    return best_match;
                },
            };
            let ghost ids = self.instrument_id_map.ids();
            let scan = match self.get_spectrum_by_index(probe) {
                Ok(scan) => scan,
                Err(_) => {
                    proof {
                        let pass = spectrum_pass_at(
                            old(self).handle.events(),
                            old(self).index.entries()[probe as int].1,
                            ids,
                        );
                        assert(pass.state != MzMLParserState::SpectrumDone);
                        assert(old(self).fetch_fails_at(probe as int));
                        assert(old(self).search_outcome(tolerance, bound, trace, None));
                    }
                    return None;
                },
            };
            let (error, later) = measure(&scan);
            let ghost searched = search@;
            let ghost earlier = trace;
            let verdict = search.observe(error, later);
            proof {
                let pass = spectrum_pass_at(
                    old(self).handle.events(),
                    old(self).index.entries()[probe as int].1,
                    ids,
                );
                assert(scan@ == pass.builder.spectrum);
                assert(old(self).fetched_at(probe as int, scan));
                trace = earlier.push((scan, error, later));
                lemma_search_after_push(count, tolerance, bound, earlier, (scan, error, later));
                old(self).lemma_bisected_push(
                    measure,
                    tolerance,
                    bound,
                    earlier,
                    (scan, error, later),
                );
                lemma_search_after_probes(count, tolerance, bound, earlier);
                lemma_search_after_probes(count, tolerance, bound, trace);
                assert(trace[earlier.len() as int].0 == scan);
                assert(search@.probes[earlier.len() as int] == (probe, error));
                if best_match is Some && verdict != Verdict::Keep && verdict != Verdict::Return {
                    let best = best_match->0;
                    let j = choose|j: int|
                        0 <= j < earlier.len() && searched.probes[j] == searched.best->0 && (
                        #[trigger] earlier[j]).0 == best;
                    assert(trace[j].0 == best);
                    assert(search@.probes[j] == searched.probes[j]);
                }
            }
            match verdict {
                Verdict::Return => {
                    proof {
                        let j = earlier.len() as int;
                        assert(search@.found == Some((probe, error)));
                        assert(answer_of(search@) == search@.found);
                        lemma_nearest(count, tolerance, bound, trace, j);
                        assert(old(self).search_outcome(tolerance, bound, trace, Some(scan)));
                    }
                    return Some(scan);
                },
                Verdict::Keep => {
                    best_match = Some(scan);
                },
                Verdict::Pass => {},
            }
        }
    }

    /// The byte offset that the index gives for the ordinal that `found`
    /// carries: none where nothing was found, and none where the index has
    /// no entry with that ordinal.
    pub open spec fn offset_of_found(&self, found: Option<Spectrum>) -> Option<u64> {
        match found {
            Some(spectrum) => if spectrum@.index < self.index.entries().len() {
                Some(self.index.entries()[spectrum@.index as int].1)
            } else {
                None
            },
            None => None,
        }
    }

    /// Whether `r` is the offset that a search by time comes to: there is a
    /// bisection that comes to a spectrum, or to none, and `r` is what the
    /// index gives for the ordinal of what it came to.
    pub open spec fn offset_found_by_time<F: Fn(&Spectrum) -> (u64, bool)>(
        &self,
        measure: F,
        tolerance: u64,
        bound: u64,
        r: Option<u64>,
    ) -> bool {
        exists|found: Option<Spectrum>|
            #![trigger self.found_by_time(measure, tolerance, bound, found)]
            self.found_by_time(measure, tolerance, bound, found) && r == self.offset_of_found(
                found,
            )
    }

    /// The byte offset that the index gives for the spectrum nearest to a
    /// target: the spectrum is searched as `get_spectrum_by_time` does, and
    /// its ordinal is looked up in the index. A search that finds no
    /// spectrum gives no offset, and so does a spectrum whose ordinal the
    /// index does not list. The cursor is left where it was.
    pub fn _offset_of_time<F: Fn(&Spectrum) -> (u64, bool)>(
        &mut self,
        measure: F,
        tolerance: u64,
        bound: u64,
    ) -> (r: Option<u64>)
        requires
            old(self).wf(),
            forall|spectrum: &Spectrum| call_requires(measure, (spectrum,)),
        ensures
            final(self).wf(),
            final(self).same_document(old(self)),
            final(self).handle.position() == old(self).handle.position(),
            old(self).index.entries().len() == 0 ==> r is None && final(self).untouched(old(self)),
            old(self).offset_found_by_time(measure, tolerance, bound, r),
            r matches Some(offset) ==> exists|spectrum: Spectrum|
                #![trigger old(self).nearest_probed(measure, tolerance, bound, spectrum)]
                old(self).nearest_probed(measure, tolerance, bound, spectrum) && spectrum@.index
                    < old(self).index.entries().len() && offset
                    == old(self).index.entries()[spectrum@.index as int].1,
    {
        let found = self.get_spectrum_by_time(measure, tolerance, bound);
        let r = match &found {
            Some(scan) => self._offset_of_index(scan.index()),
            None => None,
        };
        proof {
            assert(old(self).found_by_time(measure, tolerance, bound, found));
            assert(r == old(self).offset_of_found(found));
            if r is Some {
                assert(old(self).nearest_probed(measure, tolerance, bound, found->0));
            }
        }
        r
    }

    /// Opens a document that is held in memory: tokenizes it and reads the
    /// metadata, as `new` does for a pump.
    pub fn open(document: Vec<u8>) -> (r: Self)
        ensures
            r.wf(),
            views(r.handle.events()) == tokens(document@),
            r.handle.length() == document@.len(),
            r.handle.tail() == tail_of(document@),
            r.left_by_metadata(
                metadata_pass(
                    r.handle.events(),
                    next_event(r.handle.events(), 0),
                    MzMLParserState::Start,
                    MzMLParserError::NoError,
                    empty_metadata(),
                ),
                0,
            ),
            r.index@ == new_index("spectrum"@),
    {
        Self::new(tokenize(document))
    }

    /// Whether a failure of the tokenizer is passed over in `state`.
    pub fn passes_over(failure: &Failure, state: MzMLParserState) -> (r: bool)
        ensures
            r == tolerated(*failure, state),
    {
        match &failure.error {
            XmlError::EndEventMismatch { expected, found } => {
                state == MzMLParserState::Resume && expected.as_str().unicode_len() == 0
            },
            _ => false,
        }
    }
}

} // verus!
