//! The catalog of device models and their firmware versions.
//!
//! A catalog arrives as a document that lists, in order, the supported device
//! models; each model lists its firmware versions by label, in order, and names
//! one of them as the latest. The types here hold such a document once its
//! shape has been checked: that every model's `latest` is one of its labels,
//! that no label occurs twice in a model, and that no model name occurs twice.

use vstd::prelude::*;
use crate::error::PipelineError;

verus! {

/// One image of a firmware version and the flash address it is written to.
#[derive(Clone, Debug, PartialEq, Eq)]
pub struct FirmwareSegment {
    /// Absolute byte address in the target's flash.
    pub flash_offset: u32,
    /// Where the image is fetched from.
    pub source_url: String,
}

/// What a [`FirmwareSegment`] holds.
pub struct SegmentView {
    pub flash_offset: u32,
    pub source_url: Seq<char>,
}

impl View for FirmwareSegment {
    type V = SegmentView;

    open spec fn view(&self) -> SegmentView {
        SegmentView { flash_offset: self.flash_offset, source_url: self.source_url@ }
    }
}

impl FirmwareSegment {
    /// A copy of the segment.
    pub fn duplicate(&self) -> (copy: FirmwareSegment)
        ensures
            copy@ == self@,
    {
        FirmwareSegment { flash_offset: self.flash_offset, source_url: self.source_url.clone() }
    }
}

/// The segments of one firmware version, in the order in which they are written.
#[derive(Clone, Debug, PartialEq, Eq)]
pub struct VersionEntry {
    pub files: Vec<FirmwareSegment>,
}

/// What a [`VersionEntry`] holds.
pub struct VersionView {
    pub files: Seq<SegmentView>,
}

impl View for VersionEntry {
    type V = VersionView;

    open spec fn view(&self) -> VersionView {
        VersionView { files: self.files@.map_values(|f: FirmwareSegment| f@) }
    }
}

impl VersionEntry {
    /// A copy of the version.
    pub fn duplicate(&self) -> (copy: VersionEntry)
        ensures
            copy@ == self@,
    {
        let mut files: Vec<FirmwareSegment> = Vec::new();
        let mut i: usize = 0;
        while i < self.files.len()
            invariant
                i <= self.files.len(),
                files.len() == i,
                forall|j: int| 0 <= j < i ==> (#[trigger] files@[j])@ == self.files@[j]@,
            decreases self.files.len() - i,
        {
            files.push(self.files[i].duplicate());
            i += 1;
        }
        let copy = VersionEntry { files };
        assert(copy@.files =~= self@.files);
        copy
    }
}

/// What a list of labelled versions holds, entry by entry.
pub open spec fn versions_view(versions: Seq<(String, VersionEntry)>) -> Seq<
    (Seq<char>, VersionView),
> {
    versions.map_values(|v: (String, VersionEntry)| (v.0@, v.1@))
}

/// What a [`DeviceEntry`] holds.
pub struct DeviceView {
    pub name: Seq<char>,
    /// The versions by label, in catalog order.
    pub versions: Seq<(Seq<char>, VersionView)>,
    pub latest: Seq<char>,
}

impl DeviceView {
    /// The version labels, in catalog order.
    pub open spec fn labels(self) -> Seq<Seq<char>> {
        self.versions.map_values(|v: (Seq<char>, VersionView)| v.0)
    }

    /// Whether `label` is one of the version labels.
    pub open spec fn has_version(self, label: Seq<char>) -> bool {
        self.labels().contains(label)
    }

    /// The versions as a mapping from label to version.
    pub open spec fn mapping(self) -> Map<Seq<char>, VersionView> {
        Map::new(
            |label: Seq<char>| self.has_version(label),
            |label: Seq<char>| self.versions[self.labels().index_of(label)].1,
        )
    }

    /// The shape that a device entry must have: its labels are distinct and
    /// `latest` is one of them.
    pub open spec fn wf(self) -> bool {
        &&& self.labels().no_duplicates()
        &&& self.has_version(self.latest)
    }
}

/// One device model with its firmware versions.
#[derive(Debug, PartialEq, Eq)]
pub struct DeviceEntry {
    name: String,
    versions: Vec<(String, VersionEntry)>,
    latest: String,
}

impl View for DeviceEntry {
    type V = DeviceView;

    closed spec fn view(&self) -> DeviceView {
        DeviceView {
            name: self.name@,
            versions: versions_view(self.versions@),
            latest: self.latest@,
        }
    }
}

/// The position of `label` among `versions`, if it is there.
fn find_label(versions: &Vec<(String, VersionEntry)>, label: &str) -> (found: Option<usize>)
    ensures
        match found {
            Some(i) => i < versions.len() && versions_view(versions@)[i as int].0 == label@,
            None => forall|i: int|
                0 <= i < versions.len() ==> (#[trigger] versions_view(versions@)[i]).0 != label@,
        },
{
    let wanted: String = label.to_owned();
    let mut i: usize = 0;
    while i < versions.len()
        invariant
            i <= versions.len(),
            wanted@ == label@,
            forall|j: int| 0 <= j < i ==> (#[trigger] versions_view(versions@)[j]).0 != label@,
        decreases versions.len() - i,
    {
        if versions[i].0 == wanted {
            return Some(i);
        }
        i += 1;
    }
    None
}

/// Whether no label occurs twice in `versions`.
fn labels_distinct(versions: &Vec<(String, VersionEntry)>) -> (distinct: bool)
    ensures
        distinct == versions_view(versions@).map_values(
            |v: (Seq<char>, VersionView)| v.0,
        ).no_duplicates(),
{
    let ghost labels = versions_view(versions@).map_values(|v: (Seq<char>, VersionView)| v.0);
    let mut i: usize = 0;
    while i < versions.len()
        invariant
            i <= versions.len(),
            labels == versions_view(versions@).map_values(|v: (Seq<char>, VersionView)| v.0),
            forall|a: int, b: int| 0 <= a < b < i ==> labels[a] != labels[b],
        decreases versions.len() - i,
    {
        let mut j: usize = 0;
        while j < i
            invariant
                j <= i < versions.len(),
                labels == versions_view(versions@).map_values(|v: (Seq<char>, VersionView)| v.0),
                forall|a: int| 0 <= a < j ==> labels[a] != labels[i as int],
            decreases i - j,
        {
            if versions[j].0 == versions[i].0 {
                assert(labels[j as int] == labels[i as int]);
                return false;
            }
            j += 1;
        }
        i += 1;
    }
    true
}

impl DeviceEntry {
    #[verifier::type_invariant]
    spec fn inv(self) -> bool {
        self@.wf()
    }

    /// Checks the shape of a device entry and builds it.
    ///
    /// Fails with [`PipelineError::SchemaError`] when a label occurs twice or
    /// `latest` is not among the labels; nothing is filled in or defaulted.
    pub fn new(name: String, versions: Vec<(String, VersionEntry)>, latest: String) -> (built:
        Result<DeviceEntry, PipelineError>)
        ensures
            match built {
                Ok(entry) => {
                    &&& entry@ == (DeviceView {
                        name: name@,
                        versions: versions_view(versions@),
                        latest: latest@,
                    })
                    &&& entry@.wf()
                },
                Err(e) => {
                    &&& e == PipelineError::SchemaError
                    &&& !(DeviceView {
                        name: name@,
                        versions: versions_view(versions@),
                        latest: latest@,
                    }).wf()
                },
            },
    {
        let ghost shape = DeviceView {
            name: name@,
            versions: versions_view(versions@),
            latest: latest@,
        };
        if !labels_distinct(&versions) {
            return Err(PipelineError::SchemaError);
        }
        match find_label(&versions, latest.as_str()) {
            Some(i) => {
                assert(shape.labels()[i as int] == latest@);
                Ok(DeviceEntry { name, versions, latest })
            },
            None => {
                assert(!shape.has_version(latest@)) by {
                    if shape.labels().contains(latest@) {
                        let i = choose|i: int|
                            0 <= i < shape.labels().len() && shape.labels()[i] == latest@;
                        assert(versions_view(versions@)[i].0 == latest@);
                    }
                }
                Err(PipelineError::SchemaError)
            },
        }
    }

    /// The model's name.
    pub fn name(&self) -> (name: &str)
        ensures
            name@ == self@.name,
    {
        self.name.as_str()
    }

    /// The label of the version that the catalog publishes as the latest.
    pub fn latest(&self) -> (label: &str)
        ensures
            label@ == self@.latest,
    {
        self.latest.as_str()
    }

    /// How many versions the model has.
    pub fn version_count(&self) -> (count: usize)
        ensures
            count == self@.versions.len(),
    {
        self.versions.len()
    }

    /// The version labels in catalog order, as they are shown to the operator.
    pub fn labels(&self) -> (labels: Vec<String>)
        ensures
            labels@.map_values(|l: String| l@) == self@.labels(),
    {
        let mut labels: Vec<String> = Vec::new();
        let mut i: usize = 0;
        while i < self.versions.len()
            invariant
                i <= self.versions.len(),
                labels.len() == i,
                forall|j: int| 0 <= j < i ==> (#[trigger] labels@[j])@ == self@.labels()[j],
            decreases self.versions.len() - i,
        {
            labels.push(self.versions[i].0.clone());
            i += 1;
        }
        assert(labels@.map_values(|l: String| l@) =~= self@.labels());
        labels
    }

    /// The label at position `index` of the catalog's order, if the model has
    /// so many versions.
    pub fn label_at(&self, index: usize) -> (label: Option<&str>)
        ensures
            match label {
                Some(l) => index < self@.versions.len() && l@ == self@.versions[index as int].0,
                None => index >= self@.versions.len(),
            },
    {
        if index < self.versions.len() {
            Some(self.versions[index].0.as_str())
        } else {
            None
        }
    }

    /// The version at position `index` of the catalog's order, if the model
    /// has so many versions.
    pub fn version_at(&self, index: usize) -> (version: Option<&VersionEntry>)
        ensures
            match version {
                Some(v) => index < self@.versions.len() && v@ == self@.versions[index as int].1,
                None => index >= self@.versions.len(),
            },
    {
        if index < self.versions.len() {
            Some(&self.versions[index].1)
        } else {
            None
        }
    }

    /// The label and the version at position `index` of the catalog's order.
    pub(crate) fn nth(&self, index: usize) -> (slot: (&str, &VersionEntry))
        requires
            index < self@.versions.len(),
        ensures
            slot.0@ == self@.versions[index as int].0,
            slot.1@ == self@.versions[index as int].1,
    {
        (self.versions[index].0.as_str(), &self.versions[index].1)
    }
}

/// What a [`Catalog`] holds.
pub struct CatalogView {
    /// The device models, in catalog order.
    pub devices: Seq<DeviceView>,
    pub last_updated: Option<Seq<char>>,
}

impl CatalogView {
    /// The names of the device models, in catalog order.
    pub open spec fn names(self) -> Seq<Seq<char>> {
        self.devices.map_values(|d: DeviceView| d.name)
    }

    /// The shape that a catalog must have: every device entry has its shape,
    /// and no two of them share a name.
    pub open spec fn wf(self) -> bool {
        &&& forall|i: int| 0 <= i < self.devices.len() ==> (#[trigger] self.devices[i]).wf()
        &&& self.names().no_duplicates()
    }
}

/// What a list of device entries holds, entry by entry.
pub open spec fn devices_view(devices: Seq<DeviceEntry>) -> Seq<DeviceView> {
    devices.map_values(|d: DeviceEntry| d@)
}

/// The supported device models and their firmware versions.
#[derive(Debug, PartialEq, Eq)]
pub struct Catalog {
    devices: Vec<DeviceEntry>,
    last_updated: Option<String>,
}

impl View for Catalog {
    type V = CatalogView;

    closed spec fn view(&self) -> CatalogView {
        CatalogView {
            devices: devices_view(self.devices@),
            last_updated: match self.last_updated {
                Some(t) => Some(t@),
                None => None,
            },
        }
    }
}

/// Whether no name occurs twice among `devices`.
fn names_distinct(devices: &Vec<DeviceEntry>) -> (distinct: bool)
    ensures
        distinct == devices_view(devices@).map_values(|d: DeviceView| d.name).no_duplicates(),
{
    let ghost names = devices_view(devices@).map_values(|d: DeviceView| d.name);
    let mut i: usize = 0;
    while i < devices.len()
        invariant
            i <= devices.len(),
            names == devices_view(devices@).map_values(|d: DeviceView| d.name),
            forall|a: int, b: int| 0 <= a < b < i ==> names[a] != names[b],
        decreases devices.len() - i,
    {
        let mut j: usize = 0;
        while j < i
            invariant
                j <= i < devices.len(),
                names == devices_view(devices@).map_values(|d: DeviceView| d.name),
                forall|a: int| 0 <= a < j ==> names[a] != names[i as int],
            decreases i - j,
        {
            if devices[j].name == devices[i].name {
                assert(names[j as int] == names[i as int]);
                return false;
            }
            j += 1;
        }
        i += 1;
    }
    true
}

/// Every entry of a list of device entries has its shape.
fn entries_hold_shape(devices: &Vec<DeviceEntry>)
    ensures
        forall|i: int| 0 <= i < devices.len() ==> (#[trigger] devices_view(devices@)[i]).wf(),
{
    let mut i: usize = 0;
    while i < devices.len()
        invariant
            i <= devices.len(),
            forall|j: int| 0 <= j < i ==> (#[trigger] devices_view(devices@)[j]).wf(),
        decreases devices.len() - i,
    {
        let entry = &devices[i];
        proof {
            use_type_invariant(entry);
        }
        i += 1;
    }
}

impl Catalog {
    #[verifier::type_invariant]
    spec fn inv(self) -> bool {
        self@.wf()
    }

    /// Checks the shape of a catalog and builds it.
    ///
    /// Fails with [`PipelineError::SchemaError`] when two device entries
    /// share a name.
    pub fn new(devices: Vec<DeviceEntry>, last_updated: Option<String>) -> (built: Result<
        Catalog,
        PipelineError,
    >)
        ensures
            match built {
                Ok(catalog) => {
                    &&& catalog@.devices == devices_view(devices@)
                    &&& catalog@.last_updated == match last_updated {
                        Some(t) => Some(t@),
                        None => None,
                    }
                    &&& catalog@.wf()
                },
                Err(e) => {
                    &&& e == PipelineError::SchemaError
                    &&& !devices_view(devices@).map_values(|d: DeviceView| d.name).no_duplicates()
                },
            },
    {
        entries_hold_shape(&devices);
        if names_distinct(&devices) {
            Ok(Catalog { devices, last_updated })
        } else {
            Err(PipelineError::SchemaError)
        }
    }

    /// How many device models the catalog lists.
    pub fn device_count(&self) -> (count: usize)
        ensures
            count == self@.devices.len(),
    {
        self.devices.len()
    }

    /// The device model at position `index` of the catalog's order, if the
    /// catalog lists so many.
    pub fn device(&self, index: usize) -> (entry: Option<&DeviceEntry>)
        ensures
            match entry {
                Some(e) => index < self@.devices.len() && e@ == self@.devices[index as int],
                None => index >= self@.devices.len(),
            },
    {
        if index < self.devices.len() {
            Some(&self.devices[index])
        } else {
            None
        }
    }

    /// The device model at position `index` of the catalog's order.
    pub(crate) fn nth(&self, index: usize) -> (entry: &DeviceEntry)
        requires
            index < self@.devices.len(),
        ensures
            entry@ == self@.devices[index as int],
    {
        &self.devices[index]
    }

    /// Gives up the catalog for its device model at position `index`, if the
    /// catalog lists so many.
    pub fn into_device(self, index: usize) -> (entry: Option<DeviceEntry>)
        ensures
            match entry {
                Some(e) => index < self@.devices.len() && e@ == self@.devices[index as int],
                None => index >= self@.devices.len(),
            },
    {
        let mut devices = self.devices;
        if index < devices.len() {
            Some(devices.swap_remove(index))
        } else {
            None
        }
    }

    /// When the catalog says it was last updated, if it says so.
    pub fn last_updated(&self) -> (stamp: Option<&str>)
        ensures
            match stamp {
                Some(t) => self@.last_updated == Some(t@),
                None => self@.last_updated is None,
            },
    {
        match &self.last_updated {
            Some(t) => Some(t.as_str()),
            None => None,
        }
    }

    /// The names of the device models in catalog order, as they are shown to
    /// the operator.
    pub fn names(&self) -> (names: Vec<String>)
        ensures
            names@.map_values(|n: String| n@) == self@.names(),
    {
        let mut names: Vec<String> = Vec::new();
        let mut i: usize = 0;
        while i < self.devices.len()
            invariant
                i <= self.devices.len(),
                names.len() == i,
                forall|j: int| 0 <= j < i ==> (#[trigger] names@[j])@ == self@.names()[j],
            decreases self.devices.len() - i,
        {
            names.push(self.devices[i].name.clone());
            i += 1;
        }
        assert(names@.map_values(|n: String| n@) =~= self@.names());
        names
    }
}

/// Resolves the version to install: the operator's choice if there is one,
/// else the version that the catalog publishes as the latest.
///
/// A label that the device does not list fails with
/// [`PipelineError::UnknownVersion`].
pub fn resolve<'a>(entry: &'a DeviceEntry, choice: Option<&str>) -> (resolved: Result<
    &'a VersionEntry,
    PipelineError,
>)
    ensures
        entry@.wf(),
        match choice {
            None => resolved is Ok && resolved->Ok_0@ == entry@.mapping()[entry@.latest],
            Some(label) => if entry@.has_version(label@) {
                resolved is Ok && resolved->Ok_0@ == entry@.mapping()[label@]
            } else {
                resolved == Err::<&VersionEntry, PipelineError>(PipelineError::UnknownVersion)
            },
        },
{
    proof {
        use_type_invariant(entry);
    }
    let label: &str = match choice {
        Some(label) => label,
        None => entry.latest.as_str(),
    };
    let ghost labels = entry@.labels();
    match find_label(&entry.versions, label) {
        Some(i) => {
            proof {
                assert(labels[i as int] == label@);
                assert(labels.contains(label@));
                let k = labels.index_of(label@);
                assert(labels[k] == label@);
                assert(k == i);
            }
            Ok(&entry.versions[i].1)
        },
        None => {
            proof {
                if labels.contains(label@) {
                    let k = choose|k: int| 0 <= k < labels.len() && labels[k] == label@;
                    assert(versions_view(entry.versions@)[k].0 == label@);
                }
            }
            Err(PipelineError::UnknownVersion)
        },
    }
}

} // verus!
