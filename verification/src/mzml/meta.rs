//! The metadata that precedes the spectra of a document, and the handler
//! that collects it.

use crate::mzml::builder::{unreadable, Step};
use crate::mzml::idmap::{ids_after, number_of, IncrementingIdMap};
use crate::mzml::params::{
    attribute_text, names_param, param_of, read_attribute, Param, ParamView,
};
use crate::mzml::state::{MzMLParserError, MzMLParserState};
use crate::text::text_eq;
use crate::views::{
    distinct_keyed, lemma_keyed_place, lemma_placed_keeps_distinct, lemma_views_push,
    lemma_views_update, placed, views,
};
use crate::xml::{EndElement, StartElement, TextContent, XmlError};
use std::collections::HashMap;
use vstd::prelude::*;

verus! {

/// A file that the document was made from.
#[derive(Debug)]
pub struct SourceFile {
    pub id: String,
    pub name: String,
    pub location: String,
    pub params: Vec<Param>,
}

/// A source file as a plain value.
pub struct SourceFileView {
    pub id: Seq<char>,
    pub name: Seq<char>,
    pub location: Seq<char>,
    pub params: Seq<ParamView>,
}

impl View for SourceFile {
    type V = SourceFileView;

    open spec fn view(&self) -> SourceFileView {
        SourceFileView {
            id: self.id@,
            name: self.name@,
            location: self.location@,
            params: views(self.params@),
        }
    }
}

/// What the document holds and which files it was made from.
#[derive(Debug)]
pub struct FileDescription {
    pub contents: Vec<Param>,
    pub source_files: Vec<SourceFile>,
}

/// A named list of parameters that other elements refer to.
#[derive(Debug)]
pub struct ReferenceParamGroup {
    pub id: String,
    pub params: Vec<Param>,
}

/// A reference parameter group as a plain value.
pub struct ReferenceParamGroupView {
    pub id: Seq<char>,
    pub params: Seq<ParamView>,
}

impl View for ReferenceParamGroup {
    type V = ReferenceParamGroupView;

    open spec fn view(&self) -> ReferenceParamGroupView {
        ReferenceParamGroupView { id: self.id@, params: views(self.params@) }
    }
}

/// A piece of software that took part in making the document.
#[derive(Debug)]
pub struct Software {
    pub id: String,
    pub version: String,
    pub params: Vec<Param>,
}

/// A piece of software as a plain value.
pub struct SoftwareView {
    pub id: Seq<char>,
    pub version: Seq<char>,
    pub params: Seq<ParamView>,
}

impl View for Software {
    type V = SoftwareView;

    open spec fn view(&self) -> SoftwareView {
        SoftwareView { id: self.id@, version: self.version@, params: views(self.params@) }
    }
}

/// One configuration of the instrument.
#[derive(Debug)]
pub struct InstrumentConfiguration {
    /// The number the configuration is known by.
    pub id: u32,
    /// The identifier the document gives the configuration.
    pub name: String,
    /// The identifier of the software that ran the instrument.
    pub software_reference: String,
    pub params: Vec<Param>,
}

/// An instrument configuration as a plain value.
pub struct InstrumentConfigurationView {
    pub id: u32,
    pub name: Seq<char>,
    pub software_reference: Seq<char>,
    pub params: Seq<ParamView>,
}

impl View for InstrumentConfiguration {
    type V = InstrumentConfigurationView;

    open spec fn view(&self) -> InstrumentConfigurationView {
        InstrumentConfigurationView {
            id: self.id,
            name: self.name@,
            software_reference: self.software_reference@,
            params: views(self.params@),
        }
    }
}

/// A chain of processing steps applied to the data.
#[derive(Debug)]
pub struct DataProcessing {
    pub id: String,
    /// The parameters of the processing methods, in document order.
    pub params: Vec<Param>,
}

/// A data processing as a plain value.
pub struct DataProcessingView {
    pub id: Seq<char>,
    pub params: Seq<ParamView>,
}

impl View for DataProcessing {
    type V = DataProcessingView;

    open spec fn view(&self) -> DataProcessingView {
        DataProcessingView { id: self.id@, params: views(self.params@) }
    }
}

/// The metadata of a document as a plain value: what has been collected, and
/// the elements that are still open.
pub struct MetadataView {
    pub contents: Seq<ParamView>,
    pub source_files: Seq<SourceFileView>,
    pub reference_param_groups: Seq<ReferenceParamGroupView>,
    pub softwares: Seq<SoftwareView>,
    pub instrument_configurations: Seq<InstrumentConfigurationView>,
    pub data_processings: Seq<DataProcessingView>,
    pub source_file: SourceFileView,
    pub group: ReferenceParamGroupView,
    pub software: SoftwareView,
    pub configuration: InstrumentConfigurationView,
    pub processing: DataProcessingView,
    pub ids: Seq<Seq<char>>,
}

/// A source file with the given attributes and no parameters.
pub open spec fn new_source_file(id: Seq<char>, name: Seq<char>, location: Seq<char>)
    -> SourceFileView {
    SourceFileView { id, name, location, params: Seq::empty() }
}

/// A reference parameter group without parameters.
pub open spec fn new_group(id: Seq<char>) -> ReferenceParamGroupView {
    ReferenceParamGroupView { id, params: Seq::empty() }
}

/// A piece of software without parameters.
pub open spec fn new_software(id: Seq<char>, version: Seq<char>) -> SoftwareView {
    SoftwareView { id, version, params: Seq::empty() }
}

/// An instrument configuration without parameters or software.
pub open spec fn new_configuration(id: u32, name: Seq<char>) -> InstrumentConfigurationView {
    InstrumentConfigurationView { id, name, software_reference: Seq::empty(), params: Seq::empty() }
}

/// A data processing without parameters.
pub open spec fn new_processing(id: Seq<char>) -> DataProcessingView {
    DataProcessingView { id, params: Seq::empty() }
}

/// Metadata with nothing collected and nothing open.
pub open spec fn empty_metadata() -> MetadataView {
    MetadataView {
        contents: Seq::empty(),
        source_files: Seq::empty(),
        reference_param_groups: Seq::empty(),
        softwares: Seq::empty(),
        instrument_configurations: Seq::empty(),
        data_processings: Seq::empty(),
        source_file: new_source_file(Seq::empty(), Seq::empty(), Seq::empty()),
        group: new_group(Seq::empty()),
        software: new_software(Seq::empty(), Seq::empty()),
        configuration: new_configuration(0, Seq::empty()),
        processing: new_processing(Seq::empty()),
        ids: Seq::empty(),
    }
}

/// The number an instrument configuration is known by.
pub open spec fn configuration_number() -> spec_fn(InstrumentConfigurationView) -> u32 {
    |configuration: InstrumentConfigurationView| configuration.id
}

/// The identifier a reference parameter group is known by.
pub open spec fn group_id() -> spec_fn(ReferenceParamGroupView) -> Seq<char> {
    |group: ReferenceParamGroupView| group.id
}

/// Whether each number stands for one configuration only.
pub open spec fn one_per_number(configurations: Seq<InstrumentConfigurationView>) -> bool {
    distinct_keyed(configurations, configuration_number())
}

/// Whether each identifier stands for one group only.
pub open spec fn one_per_id(groups: Seq<ReferenceParamGroupView>) -> bool {
    distinct_keyed(groups, group_id())
}

/// Whether the metadata is complete in `state`: the run, the spectrum list
/// or a spectrum has begun.
pub open spec fn metadata_complete(state: MzMLParserState) -> bool {
    state == MzMLParserState::Run || state == MzMLParserState::SpectrumList || state
        == MzMLParserState::Spectrum
}

/// The state entered when an element of this name opens, for the elements
/// of the metadata that carry no data of their own.
pub open spec fn metadata_opened_state(name: Seq<char>, state: MzMLParserState)
    -> MzMLParserState {
    if name == "fileDescription"@ {
        MzMLParserState::FileDescription
    } else if name == "fileContent"@ {
        MzMLParserState::FileContents
    } else if name == "sourceFileList"@ {
        MzMLParserState::SourceFileList
    } else if name == "referenceableParamGroupList"@ {
        MzMLParserState::ReferenceParamGroupList
    } else if name == "softwareList"@ {
        MzMLParserState::SoftwareList
    } else if name == "instrumentConfigurationList"@ {
        MzMLParserState::InstrumentConfigurationList
    } else if name == "dataProcessingList"@ {
        MzMLParserState::DataProcessingList
    } else if name == "run"@ {
        MzMLParserState::Run
    } else if name == "spectrumList"@ {
        MzMLParserState::SpectrumList
    } else if name == "spectrum"@ {
        MzMLParserState::Spectrum
    } else {
        state
    }
}

/// The state entered when an element of the metadata closes.
pub open spec fn metadata_closed_state(name: Seq<char>, state: MzMLParserState)
    -> MzMLParserState {
    if name == "fileContent"@ || name == "sourceFileList"@ {
        MzMLParserState::FileDescription
    } else if name == "sourceFile"@ {
        MzMLParserState::SourceFileList
    } else if name == "referenceableParamGroup"@ {
        MzMLParserState::ReferenceParamGroupList
    } else if name == "software"@ {
        MzMLParserState::SoftwareList
    } else if name == "instrumentConfiguration"@ {
        MzMLParserState::InstrumentConfigurationList
    } else if name == "dataProcessing"@ {
        MzMLParserState::DataProcessingList
    } else if name == "fileDescription"@ || name == "referenceableParamGroupList"@ || name
        == "softwareList"@ || name == "instrumentConfigurationList"@ || name
        == "dataProcessingList"@ {
        MzMLParserState::Start
    } else {
        state
    }
}

/// What the opening tag of an element does to the metadata.
///
/// `sourceFile`, `referenceableParamGroup`, `software`,
/// `instrumentConfiguration` and `dataProcessing` open a fresh element of
/// their kind from their attributes; an instrument configuration is numbered
/// by its identifier. `softwareRef` names the software of the open
/// configuration. Every other element only moves the state.
pub open spec fn metadata_start(m: MetadataView, event: StartElement, state: MzMLParserState) -> (
    MetadataView,
    Step,
) {
    let name = event.name@;
    let attributes = event.attributes@;
    if event.malformed {
        (m, unreadable(state, XmlError::MalformedAttribute))
    } else if name == "sourceFile"@ {
        match (
            attribute_text(attributes, "id"@),
            attribute_text(attributes, "name"@),
            attribute_text(attributes, "location"@),
        ) {
            (Some(id), Some(file), Some(location)) => (
                MetadataView { source_file: new_source_file(id, file, location), ..m },
                Ok(MzMLParserState::SourceFile),
            ),
            _ => (m, unreadable(state, XmlError::Escape)),
        }
    } else if name == "referenceableParamGroup"@ {
        match attribute_text(attributes, "id"@) {
            Some(id) => (
                MetadataView { group: new_group(id), ..m },
                Ok(MzMLParserState::ReferenceParamGroup),
            ),
            None => (m, unreadable(state, XmlError::Escape)),
        }
    } else if name == "software"@ {
        match (attribute_text(attributes, "id"@), attribute_text(attributes, "version"@)) {
            (Some(id), Some(version)) => (
                MetadataView { software: new_software(id, version), ..m },
                Ok(MzMLParserState::Software),
            ),
            _ => (m, unreadable(state, XmlError::Escape)),
        }
    } else if name == "instrumentConfiguration"@ {
        match attribute_text(attributes, "id"@) {
            Some(id) => (
                MetadataView {
                    configuration: new_configuration(number_of(m.ids, id), id),
                    ids: ids_after(m.ids, id),
                    ..m
                },
                Ok(MzMLParserState::InstrumentConfiguration),
            ),
            None => (m, unreadable(state, XmlError::Escape)),
        }
    } else if name == "softwareRef"@ {
        match attribute_text(attributes, "ref"@) {
            Some(reference) => (
                MetadataView {
                    configuration: InstrumentConfigurationView {
                        software_reference: reference,
                        ..m.configuration
                    },
                    ..m
                },
                Ok(state),
            ),
            None => (m, unreadable(state, XmlError::Escape)),
        }
    } else if name == "dataProcessing"@ {
        match attribute_text(attributes, "id"@) {
            Some(id) => (
                MetadataView { processing: new_processing(id), ..m },
                Ok(MzMLParserState::DataProcessing),
            ),
            None => (m, unreadable(state, XmlError::Escape)),
        }
    } else {
        (m, Ok(metadata_opened_state(name, state)))
    }
}

/// What the closing tag of an element named `name` does to the metadata: an
/// open element that closes joins the list of its kind; every closing tag
/// moves the state. An instrument configuration takes the place of one with
/// its number, and a reference parameter group that of one with its
/// identifier, as in a map: the later one stands.
pub open spec fn metadata_end(m: MetadataView, name: Seq<char>, state: MzMLParserState) -> (
    MetadataView,
    Step,
) {
    let next: Step = Ok(metadata_closed_state(name, state));
    if name == "sourceFile"@ {
        (
            MetadataView {
                source_files: m.source_files.push(m.source_file),
                source_file: new_source_file(Seq::empty(), Seq::empty(), Seq::empty()),
                ..m
            },
            next,
        )
    } else if name == "referenceableParamGroup"@ {
        (
            MetadataView {
                reference_param_groups: placed(m.reference_param_groups, group_id(), m.group),
                group: new_group(Seq::empty()),
                ..m
            },
            next,
        )
    } else if name == "software"@ {
        (
            MetadataView {
                softwares: m.softwares.push(m.software),
                software: new_software(Seq::empty(), Seq::empty()),
                ..m
            },
            next,
        )
    } else if name == "instrumentConfiguration"@ {
        (
            MetadataView {
                instrument_configurations: placed(
                    m.instrument_configurations,
                    configuration_number(),
                    m.configuration,
                ),
                configuration: new_configuration(0, Seq::empty()),
                ..m
            },
            next,
        )
    } else if name == "dataProcessing"@ {
        (
            MetadataView {
                data_processings: m.data_processings.push(m.processing),
                processing: new_processing(Seq::empty()),
                ..m
            },
            next,
        )
    } else {
        (m, next)
    }
}

/// Where a parameter of the metadata goes: to the element that `state`
/// stands in.
pub open spec fn file_metadata_param(m: MetadataView, p: ParamView, state: MzMLParserState)
    -> MetadataView {
    match state {
        MzMLParserState::FileContents => MetadataView { contents: m.contents.push(p), ..m },
        MzMLParserState::SourceFile => MetadataView {
            source_file: SourceFileView { params: m.source_file.params.push(p), ..m.source_file },
            ..m
        },
        MzMLParserState::ReferenceParamGroup => MetadataView {
            group: ReferenceParamGroupView { params: m.group.params.push(p), ..m.group },
            ..m
        },
        MzMLParserState::Software => MetadataView {
            software: SoftwareView { params: m.software.params.push(p), ..m.software },
            ..m
        },
        MzMLParserState::InstrumentConfiguration => MetadataView {
            configuration: InstrumentConfigurationView {
                params: m.configuration.params.push(p),
                ..m.configuration
            },
            ..m
        },
        MzMLParserState::DataProcessing => MetadataView {
            processing: DataProcessingView { params: m.processing.params.push(p), ..m.processing },
            ..m
        },
        _ => m,
    }
}

/// What an empty element does to the metadata: a parameter is filed where
/// the state stands; any other element acts as its opening tag followed by
/// its closing tag.
pub open spec fn metadata_empty(m: MetadataView, event: StartElement, state: MzMLParserState) -> (
    MetadataView,
    Step,
) {
    if names_param(event.name@) {
        match param_of(event) {
            Ok(p) => (file_metadata_param(m, p, state), Ok(state)),
            Err(error) => (m, unreadable(state, error)),
        }
    } else {
        let opened = metadata_start(m, event, state);
        match opened.1 {
            Ok(inside) => metadata_end(opened.0, event.name@, inside),
            Err(_) => opened,
        }
    }
}

impl SourceFile {
    /// A source file with the given attributes and no parameters.
    pub fn new(id: String, name: String, location: String) -> (r: Self)
        ensures
            r@ == new_source_file(id@, name@, location@),
    {
        let r = SourceFile { id, name, location, params: Vec::new() };
        proof {
            assert(views(r.params@) =~= Seq::<ParamView>::empty());
        }
        r
    }
}

impl ReferenceParamGroup {
    /// A group without parameters.
    pub fn new(id: String) -> (r: Self)
        ensures
            r@ == new_group(id@),
    {
        let r = ReferenceParamGroup { id, params: Vec::new() };
        proof {
            assert(views(r.params@) =~= Seq::<ParamView>::empty());
        }
        r
    }
}

impl Software {
    /// A piece of software without parameters.
    pub fn new(id: String, version: String) -> (r: Self)
        ensures
            r@ == new_software(id@, version@),
    {
        let r = Software { id, version, params: Vec::new() };
        proof {
            assert(views(r.params@) =~= Seq::<ParamView>::empty());
        }
        r
    }
}

impl InstrumentConfiguration {
    /// A configuration without parameters or software.
    pub fn new(id: u32, name: String) -> (r: Self)
        ensures
            r@ == new_configuration(id, name@),
    {
        let r = InstrumentConfiguration {
            id,
            name,
            software_reference: String::new(),
            params: Vec::new(),
        };
        proof {
            assert(views(r.params@) =~= Seq::<ParamView>::empty());
        }
        r
    }
}

impl DataProcessing {
    /// A data processing without parameters.
    pub fn new(id: String) -> (r: Self)
        ensures
            r@ == new_processing(id@),
    {
        let r = DataProcessing { id, params: Vec::new() };
        proof {
            assert(views(r.params@) =~= Seq::<ParamView>::empty());
        }
        r
    }
}

impl FileDescription {
    /// A description without contents or source files.
    pub fn new() -> (r: Self)
        ensures
            views(r.contents@) == Seq::<ParamView>::empty(),
            views(r.source_files@) == Seq::<SourceFileView>::empty(),
    {
        let r = FileDescription { contents: Vec::new(), source_files: Vec::new() };
        proof {
            assert(views(r.contents@) =~= Seq::<ParamView>::empty());
            assert(views(r.source_files@) =~= Seq::<SourceFileView>::empty());
        }
        r
    }
}

/// Collects the metadata of a document from the events that precede its
/// spectra.
#[derive(Debug)]
pub struct FileMetadataBuilder {
    pub file_description: FileDescription,
    pub reference_param_groups: Vec<ReferenceParamGroup>,
    pub softwares: Vec<Software>,
    pub instrument_configurations: Vec<InstrumentConfiguration>,
    pub data_processings: Vec<DataProcessing>,
    /// The source file that is open.
    pub source_file: SourceFile,
    /// The reference parameter group that is open.
    pub group: ReferenceParamGroup,
    /// The software that is open.
    pub software: Software,
    /// The instrument configuration that is open.
    pub configuration: InstrumentConfiguration,
    /// The data processing that is open.
    pub processing: DataProcessing,
    /// The numbers of the instrument configurations.
    pub instrument_id_map: IncrementingIdMap,
}

impl View for FileMetadataBuilder {
    type V = MetadataView;

    open spec fn view(&self) -> MetadataView {
        MetadataView {
            contents: views(self.file_description.contents@),
            source_files: views(self.file_description.source_files@),
            reference_param_groups: views(self.reference_param_groups@),
            softwares: views(self.softwares@),
            instrument_configurations: views(self.instrument_configurations@),
            data_processings: views(self.data_processings@),
            source_file: self.source_file@,
            group: self.group@,
            software: self.software@,
            configuration: self.configuration@,
            processing: self.processing@,
            ids: self.instrument_id_map.ids(),
        }
    }
}

/// Places `item` among `list`: in the place of the configuration with its
/// number, or last where none has it.
pub fn place_configuration(list: &mut Vec<InstrumentConfiguration>, item: InstrumentConfiguration)
    requires
        one_per_number(views(old(list)@)),
    ensures
        views(final(list)@) == placed(views(old(list)@), configuration_number(), item@),
        one_per_number(views(final(list)@)),
{
    let ghost before = views(list@);
    proof {
        lemma_placed_keeps_distinct(before, configuration_number(), item@);
    }
    let mut i: usize = 0;
    while i < list.len()
        invariant
            i <= list@.len(),
            views(list@) == before,
            before == views(old(list)@),
            one_per_number(before),
            one_per_number(placed(before, configuration_number(), item@)),
            forall|j: int| 0 <= j < i ==> (#[trigger] before[j]).id != item.id,
        decreases list@.len() - i,
    {
        if list[i].id == item.id {
            proof {
                assert(before[i as int].id == item@.id);
                lemma_keyed_place(before, configuration_number(), i as int);
                lemma_views_update(list@, i as int, item);
            }
            list.set(i, item);
            return ;
        }
        proof {
            assert(before[i as int] == list@[i as int]@);
        }
        i = i + 1;
    }
    proof {
        lemma_views_push(list@, item);
    }
    list.push(item);
}

/// Places `item` among `list`: in the place of the group with its
/// identifier, or last where none has it.
pub fn place_group(list: &mut Vec<ReferenceParamGroup>, item: ReferenceParamGroup)
    requires
        one_per_id(views(old(list)@)),
    ensures
        views(final(list)@) == placed(views(old(list)@), group_id(), item@),
        one_per_id(views(final(list)@)),
{
    let ghost before = views(list@);
    proof {
        lemma_placed_keeps_distinct(before, group_id(), item@);
    }
    let mut i: usize = 0;
    while i < list.len()
        invariant
            i <= list@.len(),
            views(list@) == before,
            before == views(old(list)@),
            one_per_id(before),
            one_per_id(placed(before, group_id(), item@)),
            forall|j: int| 0 <= j < i ==> (#[trigger] before[j]).id != item.id@,
        decreases list@.len() - i,
    {
        if text_eq(list[i].id.as_str(), item.id.as_str()) {
            proof {
                assert(before[i as int].id == item@.id);
                lemma_keyed_place(before, group_id(), i as int);
                lemma_views_update(list@, i as int, item);
            }
            list.set(i, item);
            return ;
        }
        proof {
            assert(before[i as int] == list@[i as int]@);
        }
        i = i + 1;
    }
    proof {
        lemma_views_push(list@, item);
    }
    list.push(item);
}

/// Whether every configuration of `map` is filed under its own number.
pub open spec fn each_under_its_number(map: Map<u32, InstrumentConfiguration>) -> bool {
    forall|number: u32| #[trigger] map.contains_key(number) ==> map[number].id == number
}

/// Whether `map` holds the configurations of `list`, each under its number,
/// and no other.
pub open spec fn filed_by_number(
    map: Map<u32, InstrumentConfiguration>,
    list: Seq<InstrumentConfigurationView>,
) -> bool {
    &&& forall|i: int|
        0 <= i < list.len() ==> map.contains_key((#[trigger] list[i]).id) && map[list[i].id]@
            == list[i]
    &&& forall|number: u32| #[trigger]
        map.contains_key(number) ==> exists|i: int|
            0 <= i < list.len() && (#[trigger] list[i]).id == number
}

/// Files the configurations of `list` in a map, each under its number.
pub fn file_by_number(list: Vec<InstrumentConfiguration>) -> (map: HashMap<
    u32,
    InstrumentConfiguration,
>)
    requires
        one_per_number(views(list@)),
    ensures
        filed_by_number(map@, views(list@)),
        each_under_its_number(map@),
{
    broadcast use vstd::std_specs::hash::group_hash_axioms;

    let mut list = list;
    let ghost all = views(list@);
    let mut map: HashMap<u32, InstrumentConfiguration> = HashMap::new();
    while list.len() > 0
        invariant
            list@.len() <= all.len(),
            views(list@) == all.take(list@.len() as int),
            one_per_number(all),
            each_under_its_number(map@),
            forall|i: int|
                list@.len() <= i < all.len() ==> map@.contains_key((#[trigger] all[i]).id)
                    && map@[all[i].id]@ == all[i],
            forall|number: u32| #[trigger]
                map@.contains_key(number) ==> exists|i: int|
                    list@.len() <= i < all.len() && (#[trigger] all[i]).id == number,
        decreases list@.len(),
    {
        let ghost before = map@;
        let ghost n = list@.len() as int;
        proof {
            assert(views(list@)[n - 1] == all[n - 1]);
        }
        match list.pop() {
            Some(configuration) => {
                let number = configuration.id;
                map.insert(number, configuration);
                proof {
                    assert(views(list@) =~= all.take(n - 1));
                    assert forall|i: int| n - 1 <= i < all.len() implies map@.contains_key(
                        (#[trigger] all[i]).id,
                    ) && map@[all[i].id]@ == all[i] by {
                        if i > n - 1 {
                            assert(all[n - 1].id != all[i].id);
                            assert(before.contains_key(all[i].id));
                        }
                    }
                    assert forall|k: u32| #[trigger] map@.contains_key(k) implies exists|i: int|
                        n - 1 <= i < all.len() && (#[trigger] all[i]).id == k by {
                        if k == number {
                            assert(all[n - 1].id == k);
                        } else {
                            assert(before.contains_key(k));
                            let i = choose|i: int| n <= i < all.len() && (#[trigger] all[i]).id == k;
                            assert(all[i].id == k);
                        }
                    }
                }
            },
            None => {},
        }
    }
    proof {
        assert(all.take(0) =~= Seq::<InstrumentConfigurationView>::empty());
    }
    map
}

impl FileMetadataBuilder {
    /// The configuration numbers are well-formed, each number stands for one
    /// configuration and each identifier for one reference parameter group.
    pub open spec fn wf(&self) -> bool {
        &&& self.instrument_id_map.wf()
        &&& one_per_number(views(self.instrument_configurations@))
        &&& one_per_id(views(self.reference_param_groups@))
    }

    /// A builder that has collected nothing.
    pub fn new() -> (r: Self)
        ensures
            r.wf(),
            r@ == empty_metadata(),
    {
        let r = FileMetadataBuilder {
            file_description: FileDescription::new(),
            reference_param_groups: Vec::new(),
            softwares: Vec::new(),
            instrument_configurations: Vec::new(),
            data_processings: Vec::new(),
            source_file: SourceFile::new(String::new(), String::new(), String::new()),
            group: ReferenceParamGroup::new(String::new()),
            software: Software::new(String::new(), String::new()),
            configuration: InstrumentConfiguration::new(0, String::new()),
            processing: DataProcessing::new(String::new()),
            instrument_id_map: IncrementingIdMap::new(),
        };
        proof {
            assert(views(r.reference_param_groups@) =~= Seq::<ReferenceParamGroupView>::empty());
            assert(views(r.softwares@) =~= Seq::<SoftwareView>::empty());
            assert(views(r.instrument_configurations@) =~= Seq::<
                InstrumentConfigurationView,
            >::empty());
            assert(views(r.data_processings@) =~= Seq::<DataProcessingView>::empty());
        }
        r
    }

    /// The state entered when an element of this name opens.
    pub fn state_on_open(name: &str, state: MzMLParserState) -> (r: MzMLParserState)
        ensures
            r == metadata_opened_state(name@, state),
    {
        if text_eq(name, "fileDescription") {
            MzMLParserState::FileDescription
        } else if text_eq(name, "fileContent") {
            MzMLParserState::FileContents
        } else if text_eq(name, "sourceFileList") {
            MzMLParserState::SourceFileList
        } else if text_eq(name, "referenceableParamGroupList") {
            MzMLParserState::ReferenceParamGroupList
        } else if text_eq(name, "softwareList") {
            MzMLParserState::SoftwareList
        } else if text_eq(name, "instrumentConfigurationList") {
            MzMLParserState::InstrumentConfigurationList
        } else if text_eq(name, "dataProcessingList") {
            MzMLParserState::DataProcessingList
        } else if text_eq(name, "run") {
            MzMLParserState::Run
        } else if text_eq(name, "spectrumList") {
            MzMLParserState::SpectrumList
        } else if text_eq(name, "spectrum") {
            MzMLParserState::Spectrum
        } else {
            state
        }
    }

    /// The state entered when an element of this name closes.
    pub fn state_on_close(name: &str, state: MzMLParserState) -> (r: MzMLParserState)
        ensures
            r == metadata_closed_state(name@, state),
    {
        if text_eq(name, "fileContent") || text_eq(name, "sourceFileList") {
            MzMLParserState::FileDescription
        } else if text_eq(name, "sourceFile") {
            MzMLParserState::SourceFileList
        } else if text_eq(name, "referenceableParamGroup") {
            MzMLParserState::ReferenceParamGroupList
        } else if text_eq(name, "software") {
            MzMLParserState::SoftwareList
        } else if text_eq(name, "instrumentConfiguration") {
            MzMLParserState::InstrumentConfigurationList
        } else if text_eq(name, "dataProcessing") {
            MzMLParserState::DataProcessingList
        } else if text_eq(name, "fileDescription") || text_eq(name, "referenceableParamGroupList")
            || text_eq(name, "softwareList") || text_eq(name, "instrumentConfigurationList")
            || text_eq(name, "dataProcessingList") {
            MzMLParserState::Start
        } else {
            state
        }
    }

    /// Handles the opening tag of an element.
    pub fn start_element(&mut self, event: &StartElement, state: MzMLParserState) -> (r: Step)
        requires
            old(self).wf(),
        ensures
            final(self).wf(),
            (final(self)@, r) == metadata_start(old(self)@, *event, state),
    {
        if event.malformed {
            return Err(MzMLParserError::XMLError(state, XmlError::MalformedAttribute));
        }
        let name = event.name.as_str();
        if text_eq(name, "sourceFile") {
            let id = read_attribute(&event.attributes, "id");
            let file = read_attribute(&event.attributes, "name");
            let location = read_attribute(&event.attributes, "location");
            match (id, file, location) {
                (Some(id), Some(file), Some(location)) => {
                    self.source_file = SourceFile::new(id, file, location);
                    Ok(MzMLParserState::SourceFile)
                },
                _ => Err(MzMLParserError::XMLError(state, XmlError::Escape)),
            }
        } else if text_eq(name, "referenceableParamGroup") {
            match read_attribute(&event.attributes, "id") {
                Some(id) => {
                    self.group = ReferenceParamGroup::new(id);
                    Ok(MzMLParserState::ReferenceParamGroup)
                },
                None => Err(MzMLParserError::XMLError(state, XmlError::Escape)),
            }
        } else if text_eq(name, "software") {
            let id = read_attribute(&event.attributes, "id");
            let version = read_attribute(&event.attributes, "version");
            match (id, version) {
                (Some(id), Some(version)) => {
                    self.software = Software::new(id, version);
                    Ok(MzMLParserState::Software)
                },
                _ => Err(MzMLParserError::XMLError(state, XmlError::Escape)),
            }
        } else if text_eq(name, "instrumentConfiguration") {
            match read_attribute(&event.attributes, "id") {
                Some(id) => {
                    let number = self.instrument_id_map.get(id.as_str());
                    self.configuration = InstrumentConfiguration::new(number, id);
                    Ok(MzMLParserState::InstrumentConfiguration)
                },
                None => Err(MzMLParserError::XMLError(state, XmlError::Escape)),
            }
        } else if text_eq(name, "softwareRef") {
            match read_attribute(&event.attributes, "ref") {
                Some(reference) => {
                    self.configuration.software_reference = reference;
                    Ok(state)
                },
                None => Err(MzMLParserError::XMLError(state, XmlError::Escape)),
            }
        } else if text_eq(name, "dataProcessing") {
            match read_attribute(&event.attributes, "id") {
                Some(id) => {
                    self.processing = DataProcessing::new(id);
                    Ok(MzMLParserState::DataProcessing)
                },
                None => Err(MzMLParserError::XMLError(state, XmlError::Escape)),
            }
        } else {
            Ok(Self::state_on_open(name, state))
        }
    }

    /// Handles the closing tag of an element named `name`.
    pub fn close_element(&mut self, name: &str, state: MzMLParserState) -> (r: Step)
        requires
            old(self).wf(),
        ensures
            final(self).wf(),
            (final(self)@, r) == metadata_end(old(self)@, name@, state),
    {
        let next = Self::state_on_close(name, state);
        if text_eq(name, "sourceFile") {
            let mut closed = SourceFile::new(String::new(), String::new(), String::new());
            std::mem::swap(&mut closed, &mut self.source_file);
            proof {
                lemma_views_push(self.file_description.source_files@, closed);
            }
            self.file_description.source_files.push(closed);
        } else if text_eq(name, "referenceableParamGroup") {
            let mut closed = ReferenceParamGroup::new(String::new());
            std::mem::swap(&mut closed, &mut self.group);
            place_group(&mut self.reference_param_groups, closed);
        } else if text_eq(name, "software") {
            let mut closed = Software::new(String::new(), String::new());
            std::mem::swap(&mut closed, &mut self.software);
            proof {
                lemma_views_push(self.softwares@, closed);
            }
            self.softwares.push(closed);
        } else if text_eq(name, "instrumentConfiguration") {
            let mut closed = InstrumentConfiguration::new(0, String::new());
            std::mem::swap(&mut closed, &mut self.configuration);
            place_configuration(&mut self.instrument_configurations, closed);
        } else if text_eq(name, "dataProcessing") {
            let mut closed = DataProcessing::new(String::new());
            std::mem::swap(&mut closed, &mut self.processing);
            proof {
                lemma_views_push(self.data_processings@, closed);
            }
            self.data_processings.push(closed);
        }
        Ok(next)
    }

    /// Handles the closing tag of an element.
    pub fn end_element(&mut self, event: &EndElement, state: MzMLParserState) -> (r: Step)
        requires
            old(self).wf(),
        ensures
            final(self).wf(),
            (final(self)@, r) == metadata_end(old(self)@, event.name@, state),
    {
        self.close_element(event.name.as_str(), state)
    }

    /// Files a parameter where the state stands.
    pub fn add_param(&mut self, param: Param, state: MzMLParserState)
        ensures
            final(self)@ == file_metadata_param(old(self)@, param@, state),
            final(self).instrument_id_map == old(self).instrument_id_map,
    {
        match state {
            MzMLParserState::FileContents => {
                proof {
                    lemma_views_push(self.file_description.contents@, param);
                }
                self.file_description.contents.push(param);
            },
            MzMLParserState::SourceFile => {
                proof {
                    lemma_views_push(self.source_file.params@, param);
                }
                self.source_file.params.push(param);
            },
            MzMLParserState::ReferenceParamGroup => {
                proof {
                    lemma_views_push(self.group.params@, param);
                }
                self.group.params.push(param);
            },
            MzMLParserState::Software => {
                proof {
                    lemma_views_push(self.software.params@, param);
                }
                self.software.params.push(param);
            },
            MzMLParserState::InstrumentConfiguration => {
                proof {
                    lemma_views_push(self.configuration.params@, param);
                }
                self.configuration.params.push(param);
            },
            MzMLParserState::DataProcessing => {
                proof {
                    lemma_views_push(self.processing.params@, param);
                }
                self.processing.params.push(param);
            },
            _ => {},
        }
    }

    /// Handles an empty element.
    pub fn empty_element(&mut self, event: &StartElement, state: MzMLParserState) -> (r: Step)
        requires
            old(self).wf(),
        ensures
            final(self).wf(),
            (final(self)@, r) == metadata_empty(old(self)@, *event, state),
    {
        if Param::is_param(event.name.as_str()) {
            match Param::from_element(event) {
                Ok(param) => {
                    self.add_param(param, state);
                    Ok(state)
                },
                Err(error) => Err(MzMLParserError::XMLError(state, error)),
            }
        } else {
            match self.start_element(event, state) {
                Ok(inside) => self.close_element(event.name.as_str(), inside),
                Err(error) => Err(error),
            }
        }
    }

    /// Handles character data, of which the metadata holds none.
    pub fn text(&mut self, event: &TextContent, state: MzMLParserState) -> (r: Step)
        ensures
            *final(self) == *old(self),
            r == Ok::<MzMLParserState, MzMLParserError>(state),
    {
        Ok(state)
    }
}

} // verus!
