//! The catalog as a document: how a catalog is read from JSON and written
//! back.
//!
//! A catalog document is an object. Its `devices` member lists the device
//! models; each is an object with a `name`, the label of its `latest` version,
//! and `versions`, an object whose members are the versions by label. A
//! version is an object whose `files` member lists its segments, each an
//! object with an `offset` and a `url`. An optional `last_updated` member
//! holds a text. Members that this description does not name are passed over.

use vstd::prelude::*;
use crate::catalog::{
    devices_view, versions_view, Catalog, CatalogView, DeviceEntry, DeviceView, FirmwareSegment,
    SegmentView, VersionEntry, VersionView,
};
use crate::error::PipelineError;
use crate::json::{
    json_document, lemma_list_view, lemma_object_view, lookup, Json, JsonView,
};

verus! {

/// The segment that a document describes: an object with a whole number
/// `offset` that fits 32 bits and a text `url`. Other members are passed over.
pub open spec fn segment_of(doc: JsonView) -> Option<SegmentView> {
    match (doc.member("offset"@), doc.member("url"@)) {
        (Some(JsonView::Integer(offset)), Some(JsonView::Text(url))) => if offset <= u32::MAX {
            Some(SegmentView { flash_offset: offset as u32, source_url: url })
        } else {
            None
        },
        _ => None,
    }
}

/// The version that a document describes: an object whose `files` is a list
/// of segments.
pub open spec fn version_of(doc: JsonView) -> Option<VersionView> {
    match doc.member("files"@) {
        Some(JsonView::List(files)) => if forall|i: int|
            0 <= i < files.len() ==> segment_of(#[trigger] files[i]) is Some {
            Some(VersionView { files: files.map_values(|f: JsonView| segment_of(f).unwrap()) })
        } else {
            None
        },
        _ => None,
    }
}

impl FirmwareSegment {
    /// Reads a segment from its document.
    pub fn decode(doc: &Json) -> (segment: Option<FirmwareSegment>)
        ensures
            match segment {
                Some(s) => segment_of(doc@) == Some(s@),
                None => segment_of(doc@) is None,
            },
    {
        let flash_offset: u32 = match doc.member("offset") {
            Some(Json::Integer(n)) => {
                if *n > 0xffff_ffff {
                    return None;
                }
                *n as u32
            },
            _ => { return None; },
        };
        match doc.member("url") {
            Some(Json::Text(url)) => Some(
                FirmwareSegment { flash_offset, source_url: url.clone() },
            ),
            _ => None,
        }
    }
}

impl VersionEntry {
    /// Reads a version from its document.
    pub fn decode(doc: &Json) -> (version: Option<VersionEntry>)
        ensures
            match version {
                Some(v) => version_of(doc@) == Some(v@),
                None => version_of(doc@) is None,
            },
    {
        match doc.member("files") {
            Some(Json::List(items)) => {
                proof {
                    lemma_list_view(*items);
                }
                let ghost views = Json::List(*items)@->List_0;
                let mut files: Vec<FirmwareSegment> = Vec::new();
                let mut i: usize = 0;
                while i < items.len()
                    invariant
                        i <= items.len(),
                        files.len() == i,
                        doc@.member("files"@) == Some(JsonView::List(views)),
                        views.len() == items@.len(),
                        forall|j: int| 0 <= j < items@.len() ==> #[trigger] views[j] == items@[j]@,
                        forall|j: int|
                            0 <= j < i ==> segment_of(#[trigger] views[j]) == Some(files@[j]@),
                    decreases items.len() - i,
                {
                    match FirmwareSegment::decode(&items[i]) {
                        Some(segment) => {
                            files.push(segment);
                        },
                        None => {
                            assert(segment_of(views[i as int]) is None);
                            return None;
                        },
                    }
                    i += 1;
                }
                let version = VersionEntry { files };
                assert(version@.files =~= views.map_values(|f: JsonView| segment_of(f).unwrap()));
                Some(version)
            },
            _ => None,
        }
    }
}

/// The device entry that a document describes: an object with a text `name`,
/// a text `latest` and an object `versions` whose members are versions by
/// label, and which has the shape that [`DeviceView::wf`] asks for.
pub open spec fn device_of(doc: JsonView) -> Option<DeviceView> {
    match (doc.member("name"@), doc.member("latest"@), doc.member("versions"@)) {
        (
            Some(JsonView::Text(name)),
            Some(JsonView::Text(latest)),
            Some(JsonView::Object(versions)),
        ) => {
            let device = DeviceView {
                name,
                versions: versions.map_values(
                    |m: (Seq<char>, JsonView)| (m.0, version_of(m.1).unwrap()),
                ),
                latest,
            };
            if (forall|i: int|
                0 <= i < versions.len() ==> version_of((#[trigger] versions[i]).1) is Some)
                && device.wf() {
                Some(device)
            } else {
                None
            }
        },
        _ => None,
    }
}

impl DeviceEntry {
    /// Reads a device entry from its document and checks its shape.
    pub fn decode(doc: &Json) -> (device: Option<DeviceEntry>)
        ensures
            match device {
                Some(d) => device_of(doc@) == Some(d@),
                None => device_of(doc@) is None,
            },
    {
        let name: String = match doc.member("name") {
            Some(Json::Text(t)) => t.clone(),
            _ => { return None; },
        };
        let latest: String = match doc.member("latest") {
            Some(Json::Text(t)) => t.clone(),
            _ => { return None; },
        };
        match doc.member("versions") {
            Some(Json::Object(members)) => {
                proof {
                    lemma_object_view(*members);
                }
                let ghost views = Json::Object(*members)@->Object_0;
                let mut versions: Vec<(String, VersionEntry)> = Vec::new();
                let mut i: usize = 0;
                while i < members.len()
                    invariant
                        i <= members.len(),
                        versions.len() == i,
                        doc@.member("versions"@) == Some(JsonView::Object(views)),
                        views.len() == members@.len(),
                        forall|j: int|
                            0 <= j < members@.len() ==> #[trigger] views[j] == (
                                members@[j].0@,
                                members@[j].1@,
                            ),
                        forall|j: int|
                            0 <= j < i ==> version_of((#[trigger] views[j]).1) == Some(
                                versions@[j].1@,
                            ) && views[j].0 == versions@[j].0@,
                    decreases members.len() - i,
                {
                    match VersionEntry::decode(&members[i].1) {
                        Some(version) => {
                            versions.push((members[i].0.clone(), version));
                        },
                        None => {
                            assert(version_of(views[i as int].1) is None);
                            return None;
                        },
                    }
                    i += 1;
                }
                assert(versions_view(versions@) =~= views.map_values(
                    |m: (Seq<char>, JsonView)| (m.0, version_of(m.1).unwrap()),
                ));
                match DeviceEntry::new(name, versions, latest) {
                    Ok(device) => Some(device),
                    Err(_) => None,
                }
            },
            _ => None,
        }
    }
}

/// What the `last_updated` member of a catalog document gives: nothing where
/// it is absent or null, a text where it is one; `None` where it is anything else.
pub open spec fn updated_of(doc: JsonView) -> Option<Option<Seq<char>>> {
    match doc.member("last_updated"@) {
        None => Some(None),
        Some(JsonView::Null) => Some(None),
        Some(JsonView::Text(t)) => Some(Some(t)),
        Some(_) => None,
    }
}

/// The catalog that a document describes: an object whose `devices` is a list
/// of device entries, and which has the shape that [`CatalogView::wf`] asks for.
pub open spec fn catalog_of(doc: JsonView) -> Option<CatalogView> {
    match (doc.member("devices"@), updated_of(doc)) {
        (Some(JsonView::List(devices)), Some(last_updated)) => {
            let catalog = CatalogView {
                devices: devices.map_values(|d: JsonView| device_of(d).unwrap()),
                last_updated,
            };
            if (forall|i: int| 0 <= i < devices.len() ==> device_of(#[trigger] devices[i]) is Some)
                && catalog.wf() {
                Some(catalog)
            } else {
                None
            }
        },
        _ => None,
    }
}

/// The catalog that the text of a document describes.
pub open spec fn catalog_of_text(text: Seq<char>) -> Option<CatalogView> {
    match json_document(text) {
        Some(doc) => catalog_of(doc),
        None => None,
    }
}

impl Catalog {
    /// Reads a catalog from its document and checks its shape.
    ///
    /// A document that does not describe a catalog is a
    /// [`PipelineError::SchemaError`].
    pub fn decode(doc: &Json) -> (decoded: Result<Catalog, PipelineError>)
        ensures
            match decoded {
                Ok(catalog) => catalog_of(doc@) == Some(catalog@),
                Err(e) => e == PipelineError::SchemaError && catalog_of(doc@) is None,
            },
    {
        let last_updated: Option<String> = match doc.member("last_updated") {
            None => None,
            Some(Json::Null) => None,
            Some(Json::Text(t)) => Some(t.clone()),
            Some(_) => { return Err(PipelineError::SchemaError); },
        };
        match doc.member("devices") {
            Some(Json::List(items)) => {
                proof {
                    lemma_list_view(*items);
                }
                let ghost views = Json::List(*items)@->List_0;
                let mut devices: Vec<DeviceEntry> = Vec::new();
                let mut i: usize = 0;
                while i < items.len()
                    invariant
                        i <= items.len(),
                        devices.len() == i,
                        doc@.member("devices"@) == Some(JsonView::List(views)),
                        views.len() == items@.len(),
                        forall|j: int| 0 <= j < items@.len() ==> #[trigger] views[j] == items@[j]@,
                        forall|j: int|
                            0 <= j < i ==> device_of(#[trigger] views[j]) == Some(devices@[j]@),
                    decreases items.len() - i,
                {
                    match DeviceEntry::decode(&items[i]) {
                        Some(device) => {
                            devices.push(device);
                        },
                        None => {
                            assert(device_of(views[i as int]) is None);
                            return Err(PipelineError::SchemaError);
                        },
                    }
                    i += 1;
                }
                assert(devices_view(devices@) =~= views.map_values(
                    |d: JsonView| device_of(d).unwrap(),
                ));
                Catalog::new(devices, last_updated)
            },
            _ => Err(PipelineError::SchemaError),
        }
    }

    /// Reads a catalog from the text of its document.
    ///
    /// A text that is not a JSON document, or whose document does not
    /// describe a catalog, is a [`PipelineError::SchemaError`].
    pub fn load(text: &str) -> (loaded: Result<Catalog, PipelineError>)
        ensures
            match loaded {
                Ok(catalog) => catalog_of_text(text@) == Some(catalog@),
                Err(e) => e == PipelineError::SchemaError && catalog_of_text(text@) is None,
            },
    {
        match Json::parse(text) {
            Some(doc) => Catalog::decode(&doc),
            None => Err(PipelineError::SchemaError),
        }
    }
}

/// The document that describes a segment.
pub open spec fn segment_doc(segment: SegmentView) -> JsonView {
    JsonView::Object(
        seq![
            ("offset"@, JsonView::Integer(segment.flash_offset as u64)),
            ("url"@, JsonView::Text(segment.source_url)),
        ],
    )
}

/// The document that describes a version.
pub open spec fn version_doc(version: VersionView) -> JsonView {
    JsonView::Object(
        seq![("files"@, JsonView::List(version.files.map_values(|s: SegmentView| segment_doc(s))))],
    )
}

/// The document that describes a device entry.
pub open spec fn device_doc(device: DeviceView) -> JsonView {
    JsonView::Object(
        seq![
            ("name"@, JsonView::Text(device.name)),
            ("latest"@, JsonView::Text(device.latest)),
            (
                "versions"@,
                JsonView::Object(
                    device.versions.map_values(
                        |v: (Seq<char>, VersionView)| (v.0, version_doc(v.1)),
                    ),
                ),
            ),
        ],
    )
}

/// The document that describes a catalog. `last_updated` is written only
/// where the catalog has one.
pub open spec fn catalog_doc(catalog: CatalogView) -> JsonView {
    let devices = JsonView::List(catalog.devices.map_values(|d: DeviceView| device_doc(d)));
    match catalog.last_updated {
        Some(stamp) => JsonView::Object(
            seq![("devices"@, devices), ("last_updated"@, JsonView::Text(stamp))],
        ),
        None => JsonView::Object(seq![("devices"@, devices)]),
    }
}

impl FirmwareSegment {
    /// Writes the segment as a document.
    pub fn encode(&self) -> (doc: Json)
        ensures
            doc@ == segment_doc(self@),
    {
        let mut members: Vec<(String, Json)> = Vec::new();
        members.push(("offset".to_owned(), Json::Integer(self.flash_offset as u64)));
        members.push(("url".to_owned(), Json::Text(self.source_url.clone())));
        proof {
            lemma_object_view(members);
            assert(Json::Object(members)@->Object_0 =~= segment_doc(self@)->Object_0);
        }
        Json::Object(members)
    }
}

impl VersionEntry {
    /// Writes the version as a document.
    pub fn encode(&self) -> (doc: Json)
        ensures
            doc@ == version_doc(self@),
    {
        let mut files: Vec<Json> = Vec::new();
        let mut i: usize = 0;
        while i < self.files.len()
            invariant
                i <= self.files.len(),
                files.len() == i,
                forall|j: int|
                    0 <= j < i ==> (#[trigger] files@[j])@ == segment_doc(self.files@[j]@),
            decreases self.files.len() - i,
        {
            files.push(self.files[i].encode());
            i += 1;
        }
        let mut members: Vec<(String, Json)> = Vec::new();
        proof {
            lemma_list_view(files);
            assert(Json::List(files)@->List_0 =~= self@.files.map_values(
                |s: SegmentView| segment_doc(s),
            ));
        }
        members.push(("files".to_owned(), Json::List(files)));
        proof {
            lemma_object_view(members);
            assert(Json::Object(members)@->Object_0 =~= version_doc(self@)->Object_0);
        }
        Json::Object(members)
    }
}

impl DeviceEntry {
    /// Writes the device entry as a document.
    pub fn encode(&self) -> (doc: Json)
        ensures
            doc@ == device_doc(self@),
    {
        let mut versions: Vec<(String, Json)> = Vec::new();
        let mut i: usize = 0;
        while i < self.version_count()
            invariant
                i <= self@.versions.len(),
                versions.len() == i,
                forall|j: int|
                    0 <= j < i ==> (#[trigger] versions@[j]).0@ == self@.versions[j].0
                        && versions@[j].1@ == version_doc(self@.versions[j].1),
            decreases self@.versions.len() - i,
        {
            let (label, version) = self.nth(i);
            versions.push((label.to_owned(), version.encode()));
            i += 1;
        }
        proof {
            lemma_object_view(versions);
            assert(Json::Object(versions)@->Object_0 =~= self@.versions.map_values(
                |v: (Seq<char>, VersionView)| (v.0, version_doc(v.1)),
            ));
        }
        let mut members: Vec<(String, Json)> = Vec::new();
        members.push(("name".to_owned(), Json::Text(self.name().to_owned())));
        members.push(("latest".to_owned(), Json::Text(self.latest().to_owned())));
        members.push(("versions".to_owned(), Json::Object(versions)));
        proof {
            lemma_object_view(members);
            assert(Json::Object(members)@->Object_0 =~= device_doc(self@)->Object_0);
        }
        Json::Object(members)
    }
}

impl Catalog {
    /// Writes the catalog as a document, from which [`Catalog::decode`] reads
    /// it back.
    pub fn encode(&self) -> (doc: Json)
        ensures
            doc@ == catalog_doc(self@),
    {
        let mut devices: Vec<Json> = Vec::new();
        let mut i: usize = 0;
        while i < self.device_count()
            invariant
                i <= self@.devices.len(),
                devices.len() == i,
                forall|j: int|
                    0 <= j < i ==> (#[trigger] devices@[j])@ == device_doc(self@.devices[j]),
            decreases self@.devices.len() - i,
        {
            devices.push(self.nth(i).encode());
            i += 1;
        }
        proof {
            lemma_list_view(devices);
            assert(Json::List(devices)@->List_0 =~= self@.devices.map_values(
                |d: DeviceView| device_doc(d),
            ));
        }
        let mut members: Vec<(String, Json)> = Vec::new();
        members.push(("devices".to_owned(), Json::List(devices)));
        match self.last_updated() {
            Some(stamp) => {
                members.push(("last_updated".to_owned(), Json::Text(stamp.to_owned())));
            },
            None => {},
        }
        proof {
            lemma_object_view(members);
            assert(Json::Object(members)@->Object_0 =~= catalog_doc(self@)->Object_0);
        }
        Json::Object(members)
    }
}

/// A segment is read back from its document as it was.
pub proof fn lemma_segment_round_trip(segment: SegmentView)
    ensures
        segment_of(segment_doc(segment)) == Some(segment),
{
    reveal_strlit("offset");
    reveal_strlit("url");
    reveal_with_fuel(lookup, 3);
    let members = segment_doc(segment)->Object_0;
    assert(members.first().0 == "offset"@);
    assert(members.drop_first().first() == ("url"@, JsonView::Text(segment.source_url)));
    assert("offset"@.len() != "url"@.len());
}

/// A version is read back from its document as it was.
pub proof fn lemma_version_round_trip(version: VersionView)
    ensures
        version_of(version_doc(version)) == Some(version),
{
    reveal_with_fuel(lookup, 2);
    let members = version_doc(version)->Object_0;
    assert(members.first().0 == "files"@);
    let files = version.files.map_values(|s: SegmentView| segment_doc(s));
    assert forall|i: int| 0 <= i < files.len() implies segment_of(#[trigger] files[i]) == Some(
        version.files[i],
    ) by {
        lemma_segment_round_trip(version.files[i]);
    }
    assert(files.map_values(|f: JsonView| segment_of(f).unwrap()) =~= version.files);
}

/// A device entry that has its shape is read back from its document as it was.
pub proof fn lemma_device_round_trip(device: DeviceView)
    requires
        device.wf(),
    ensures
        device_of(device_doc(device)) == Some(device),
{
    reveal_strlit("name");
    reveal_strlit("latest");
    reveal_strlit("versions");
    reveal_with_fuel(lookup, 4);
    let members = device_doc(device)->Object_0;
    let versions = device.versions.map_values(
        |v: (Seq<char>, VersionView)| (v.0, version_doc(v.1)),
    );
    assert(members[0].0 == "name"@);
    assert(members.drop_first()[0] == ("latest"@, JsonView::Text(device.latest)));
    assert(members.drop_first().drop_first()[0] == ("versions"@, JsonView::Object(versions)));
    assert("name"@.len() == 4 && "latest"@.len() == 6 && "versions"@.len() == 8);
    assert forall|i: int| 0 <= i < versions.len() implies version_of((#[trigger] versions[i]).1)
        == Some(device.versions[i].1) by {
        lemma_version_round_trip(device.versions[i].1);
    }
    assert(versions.map_values(|m: (Seq<char>, JsonView)| (m.0, version_of(m.1).unwrap()))
        =~= device.versions);
}

/// Round trip: a catalog that has its shape is read back from its document
/// as it was, field for field.
pub proof fn lemma_catalog_round_trip(catalog: CatalogView)
    requires
        catalog.wf(),
    ensures
        catalog_of(catalog_doc(catalog)) == Some(catalog),
{
    reveal_strlit("devices");
    reveal_strlit("last_updated");
    reveal_with_fuel(lookup, 3);
    let members = catalog_doc(catalog)->Object_0;
    let devices = catalog.devices.map_values(|d: DeviceView| device_doc(d));
    assert(members[0] == ("devices"@, JsonView::List(devices)));
    assert("devices"@.len() == 7 && "last_updated"@.len() == 12);
    if catalog.last_updated is Some {
        assert(members.drop_first()[0] == (
            "last_updated"@,
            JsonView::Text(catalog.last_updated->Some_0),
        ));
    } else {
        assert(members.drop_first().len() == 0);
    }
    assert forall|i: int| 0 <= i < devices.len() implies device_of(#[trigger] devices[i]) == Some(
        catalog.devices[i],
    ) by {
        lemma_device_round_trip(catalog.devices[i]);
    }
    assert(devices.map_values(|d: JsonView| device_of(d).unwrap()) =~= catalog.devices);
}

/// A device entry whose `latest` is not one of its version labels is not
/// read, whatever else its document holds.
pub proof fn lemma_latest_must_be_listed(
    doc: JsonView,
    latest: Seq<char>,
    versions: Seq<(Seq<char>, JsonView)>,
)
    requires
        doc.member("latest"@) == Some(JsonView::Text(latest)),
        doc.member("versions"@) == Some(JsonView::Object(versions)),
        forall|i: int| 0 <= i < versions.len() ==> (#[trigger] versions[i]).0 != latest,
    ensures
        device_of(doc) is None,
{
    if device_of(doc) is Some {
        let device = device_of(doc)->Some_0;
        assert(device.labels().contains(latest));
        let i = choose|i: int| 0 <= i < device.labels().len() && device.labels()[i] == latest;
        assert(versions[i].0 == latest);
    }
}

/// A catalog document in which some device entry's `latest` is not one of its
/// version labels is refused, and so is every text of that document.
pub proof fn lemma_catalog_refuses_unlisted_latest(
    doc: JsonView,
    devices: Seq<JsonView>,
    at: int,
    latest: Seq<char>,
    versions: Seq<(Seq<char>, JsonView)>,
)
    requires
        doc.member("devices"@) == Some(JsonView::List(devices)),
        0 <= at < devices.len(),
        devices[at].member("latest"@) == Some(JsonView::Text(latest)),
        devices[at].member("versions"@) == Some(JsonView::Object(versions)),
        forall|i: int| 0 <= i < versions.len() ==> (#[trigger] versions[i]).0 != latest,
    ensures
        catalog_of(doc) is None,
        forall|text: Seq<char>|
            json_document(text) == Some(doc) ==> #[trigger] catalog_of_text(text) is None,
{
    lemma_latest_must_be_listed(devices[at], latest, versions);
}

} // verus!
