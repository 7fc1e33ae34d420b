//! Where a parser stands in a document, and what can go wrong.

use crate::xml::XmlError;
use vstd::prelude::*;

verus! {

/// Where the parser stands in the grammar of an mzML document.
#[derive(Clone, Copy, Debug, PartialEq, Eq, Structural)]
pub enum MzMLParserState {
    /// Nothing has been read yet.
    Start,
    /// Reading goes on after a spectrum was delivered, or after a seek.
    Resume,
    FileDescription,
    FileContents,
    SourceFileList,
    SourceFile,
    ReferenceParamGroupList,
    ReferenceParamGroup,
    SoftwareList,
    Software,
    InstrumentConfigurationList,
    InstrumentConfiguration,
    DataProcessingList,
    DataProcessing,
    /// The run has begun: the metadata is complete.
    Run,
    SpectrumList,
    Spectrum,
    /// A whole spectrum has been read.
    SpectrumDone,
    SpectrumListDone,
    ScanList,
    Scan,
    PrecursorList,
    Precursor,
    IsolationWindow,
    SelectedIonList,
    SelectedIon,
    Activation,
    BinaryDataArrayList,
    BinaryDataArray,
    Binary,
    /// The document is malformed; the error is held for the next read.
    ParserError,
}

/// What went wrong while parsing.
#[derive(Debug)]
pub enum MzMLParserError {
    /// Nothing is wrong: the value of the error slot while no error is held.
    NoError,
    /// The stream ended in the middle of a spectrum.
    IncompleteSpectrum,
    /// The XML broke off or was ill-formed in the given state; the text is an
    /// excerpt of the offending bytes.
    IncompleteElementError(String, MzMLParserState),
    /// An element could not be read in the given state.
    XMLError(MzMLParserState, XmlError),
    /// The byte source failed in the given state.
    IOError(MzMLParserState, String),
}

/// Where the parser of the trailing offset index stands.
#[derive(Clone, Copy, Debug, PartialEq, Eq, Structural)]
pub enum IndexParserState {
    /// No index list has been entered yet.
    Start,
    /// Inside the index that lists spectra.
    SpectrumIndexList,
    /// Inside the index that lists chromatograms.
    ChromatogramIndexList,
    /// The index list has been closed.
    Done,
}

/// Why the offset index could not be read.
#[derive(Debug)]
pub enum MzMLIndexingError {
    /// The document does not say where its index list starts.
    OffsetNotFound,
    /// The index list is not well-formed XML.
    XMLError(XmlError),
    /// The byte source failed.
    IOError(String),
}

/// Why a spectrum could not be fetched by identifier, ordinal or time.
#[derive(Clone, Copy, Debug, PartialEq, Eq, Structural)]
pub enum ScanAccessError {
    /// The offset index has no entry for the identifier.
    UnknownId,
    /// The offset index has fewer entries than the ordinal asks for.
    IndexOutOfRange,
    /// No spectrum could be read at the indexed offset.
    NotRead,
}

} // verus!
