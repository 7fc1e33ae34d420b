//! Spectra, and the handler that builds one spectrum from the events of a
//! `<spectrum>` element.

use crate::mzml::params::{Param, ParamView};
use crate::views::views;
use vstd::prelude::*;

verus! {

/// One scan of a spectrum.
#[derive(Debug)]
pub struct ScanEvent {
    /// The scan start time in minutes, as the decimal text of the document;
    /// empty where the scan gives none.
    pub start_time: String,
    /// The number of the instrument configuration the scan was taken with.
    pub instrument_configuration_id: u32,
    pub params: Vec<Param>,
}

/// A scan as a plain value.
pub struct ScanEventView {
    pub start_time: Seq<char>,
    pub instrument_configuration_id: u32,
    pub params: Seq<ParamView>,
}

impl View for ScanEvent {
    type V = ScanEventView;

    open spec fn view(&self) -> ScanEventView {
        ScanEventView {
            start_time: self.start_time@,
            instrument_configuration_id: self.instrument_configuration_id,
            params: views(self.params@),
        }
    }
}

/// The precursor of a fragmentation spectrum.
#[derive(Debug)]
pub struct Precursor {
    /// The identifier of the spectrum the precursor was selected from.
    pub precursor_id: String,
    pub isolation_window: Vec<Param>,
    pub ion: Vec<Param>,
    pub activation: Vec<Param>,
}

/// A precursor as a plain value.
pub struct PrecursorView {
    pub precursor_id: Seq<char>,
    pub isolation_window: Seq<ParamView>,
    pub ion: Seq<ParamView>,
    pub activation: Seq<ParamView>,
}

impl View for Precursor {
    type V = PrecursorView;

    open spec fn view(&self) -> PrecursorView {
        PrecursorView {
            precursor_id: self.precursor_id@,
            isolation_window: views(self.isolation_window@),
            ion: views(self.ion@),
            activation: views(self.activation@),
        }
    }
}

/// One binary data array of a spectrum, still encoded.
#[derive(Debug)]
pub struct DataArray {
    pub params: Vec<Param>,
    /// The content of the `<binary>` element as it stands in the document.
    pub encoded: String,
}

/// A data array as a plain value.
pub struct DataArrayView {
    pub params: Seq<ParamView>,
    pub encoded: Seq<char>,
}

impl View for DataArray {
    type V = DataArrayView;

    open spec fn view(&self) -> DataArrayView {
        DataArrayView { params: views(self.params@), encoded: self.encoded@ }
    }
}

/// One mass spectrum.
#[derive(Debug)]
pub struct Spectrum {
    /// The ordinal of the spectrum in its document.
    pub index: usize,
    /// The native identifier.
    pub id: String,
    pub ms_level: u8,
    pub params: Vec<Param>,
    pub scans: Vec<ScanEvent>,
    pub precursors: Vec<Precursor>,
    pub arrays: Vec<DataArray>,
}

/// A spectrum as a plain value.
pub struct SpectrumView {
    pub index: usize,
    pub id: Seq<char>,
    pub ms_level: u8,
    pub params: Seq<ParamView>,
    pub scans: Seq<ScanEventView>,
    pub precursors: Seq<PrecursorView>,
    pub arrays: Seq<DataArrayView>,
}

impl View for Spectrum {
    type V = SpectrumView;

    open spec fn view(&self) -> SpectrumView {
        SpectrumView {
            index: self.index,
            id: self.id@,
            ms_level: self.ms_level,
            params: views(self.params@),
            scans: views(self.scans@),
            precursors: views(self.precursors@),
            arrays: views(self.arrays@),
        }
    }
}

/// A scan without start time or parameters, taken with configuration `id`.
pub open spec fn empty_scan(id: u32) -> ScanEventView {
    ScanEventView {
        start_time: Seq::empty(),
        instrument_configuration_id: id,
        params: Seq::empty(),
    }
}

/// A precursor selected from the spectrum `id`, without parameters.
pub open spec fn empty_precursor(id: Seq<char>) -> PrecursorView {
    PrecursorView {
        precursor_id: id,
        isolation_window: Seq::empty(),
        ion: Seq::empty(),
        activation: Seq::empty(),
    }
}

/// A data array without parameters or content.
pub open spec fn empty_array() -> DataArrayView {
    DataArrayView { params: Seq::empty(), encoded: Seq::empty() }
}

/// A spectrum without content: ordinal zero, no identifier, MS level zero.
pub open spec fn empty_spectrum() -> SpectrumView {
    SpectrumView {
        index: 0,
        id: Seq::empty(),
        ms_level: 0,
        params: Seq::empty(),
        scans: Seq::empty(),
        precursors: Seq::empty(),
        arrays: Seq::empty(),
    }
}

/// The configuration numbers of the scans, in order.
pub open spec fn configuration_ids(scans: Seq<ScanEventView>) -> Seq<u32> {
    Seq::new(scans.len(), |i: int| scans[i].instrument_configuration_id)
}

impl ScanEvent {
    /// A scan without start time or parameters.
    pub fn new(instrument_configuration_id: u32) -> (r: Self)
        ensures
            r@ == empty_scan(instrument_configuration_id),
    {
        let r = ScanEvent {
            start_time: String::new(),
            instrument_configuration_id,
            params: Vec::new(),
        };
        proof {
            assert(views(r.params@) =~= Seq::<ParamView>::empty());
        }
        r
    }
}

impl Precursor {
    /// A precursor without parameters.
    pub fn new(precursor_id: String) -> (r: Self)
        ensures
            r@ == empty_precursor(precursor_id@),
    {
        let r = Precursor {
            precursor_id,
            isolation_window: Vec::new(),
            ion: Vec::new(),
            activation: Vec::new(),
        };
        proof {
            assert(views(r.isolation_window@) =~= Seq::<ParamView>::empty());
            assert(views(r.ion@) =~= Seq::<ParamView>::empty());
            assert(views(r.activation@) =~= Seq::<ParamView>::empty());
        }
        r
    }
}

impl DataArray {
    /// A data array without parameters or content.
    pub fn new() -> (r: Self)
        ensures
            r@ == empty_array(),
    {
        let r = DataArray { params: Vec::new(), encoded: String::new() };
        proof {
            assert(views(r.params@) =~= Seq::<ParamView>::empty());
        }
        r
    }
}

impl Spectrum {
    /// A spectrum without content.
    pub fn new() -> (r: Self)
        ensures
            r@ == empty_spectrum(),
    {
        let r = Spectrum {
            index: 0,
            id: String::new(),
            ms_level: 0,
            params: Vec::new(),
            scans: Vec::new(),
            precursors: Vec::new(),
            arrays: Vec::new(),
        };
        proof {
            assert(views(r.params@) =~= Seq::<ParamView>::empty());
            assert(views(r.scans@) =~= Seq::<ScanEventView>::empty());
            assert(views(r.precursors@) =~= Seq::<PrecursorView>::empty());
            assert(views(r.arrays@) =~= Seq::<DataArrayView>::empty());
        }
        r
    }

    /// The ordinal of the spectrum in its document.
    pub fn index(&self) -> (r: usize)
        ensures
            r == self@.index,
    {
        self.index
    }

    /// The native identifier.
    pub fn id(&self) -> (r: &str)
        ensures
            r@ == self@.id,
    {
        self.id.as_str()
    }

    /// The MS level.
    pub fn ms_level(&self) -> (r: u8)
        ensures
            r == self@.ms_level,
    {
        self.ms_level
    }

    /// The start time of the first scan in minutes, as decimal text; `None`
    /// for a spectrum without scans.
    pub fn start_time(&self) -> (r: Option<&str>)
        ensures
            match r {
                Some(text) => self@.scans.len() > 0 && text@ == self@.scans[0].start_time,
                None => self@.scans.len() == 0,
            },
    {
        if self.scans.len() > 0 {
            Some(self.scans[0].start_time.as_str())
        } else {
            None
        }
    }

    /// The numbers of the instrument configurations of the scans, in order.
    pub fn instrument_configuration_ids(&self) -> (r: Vec<u32>)
        ensures
            r@ == configuration_ids(self@.scans),
    {
        let mut ids: Vec<u32> = Vec::new();
        let mut i: usize = 0;
        while i < self.scans.len()
            invariant
                i <= self.scans@.len(),
                ids@ == configuration_ids(self@.scans).take(i as int),
            decreases self.scans@.len() - i,
        {
            ids.push(self.scans[i].instrument_configuration_id);
            proof {
                assert(ids@ =~= configuration_ids(self@.scans).take(i + 1));
            }
            i = i + 1;
        }
        proof {
            assert(ids@ =~= configuration_ids(self@.scans));
        }
        ids
    }
}

} // verus!
