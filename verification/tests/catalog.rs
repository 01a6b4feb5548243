use ogsp_installer::catalog::{resolve, Catalog, DeviceEntry, FirmwareSegment, VersionEntry};
use ogsp_installer::error::PipelineError;
use ogsp_installer::json::Json;

const ONE_DEVICE: &str = r#"{"devices":[{"name":"OGSP-v1","latest":"1.2.0","versions":{"1.2.0":{"files":[{"offset":0,"url":"https://x/fw.bin"}]}}}]}"#;

const TWO_DEVICES: &str = r#"{
  "last_updated": "2024-11-02",
  "devices": [
    {
      "name": "OGSP-v1",
      "latest": "1.2.0",
      "versions": {
        "1.2.0": {"files": [{"offset": 0, "url": "https://x/boot.bin"}, {"offset": 65536, "url": "https://x/app.bin"}]},
        "1.10.0": {"files": [{"offset": 4096, "url": "https://x/old.bin"}]},
        "0.9": {"files": []}
      }
    },
    {
      "name": "OGSP-v2",
      "latest": "2.0.0",
      "versions": {"2.0.0": {"files": [{"offset": 4294967295, "url": "https://x/v2.bin"}]}}
    }
  ]
}"#;

fn segment(flash_offset: u32, url: &str) -> FirmwareSegment {
    FirmwareSegment { flash_offset, source_url: url.to_string() }
}

fn version(files: Vec<FirmwareSegment>) -> VersionEntry {
    VersionEntry { files }
}

fn device(name: &str, latest: &str, versions: Vec<(&str, VersionEntry)>) -> Result<DeviceEntry, PipelineError> {
    DeviceEntry::new(
        name.to_string(),
        versions.into_iter().map(|(label, v)| (label.to_string(), v)).collect(),
        latest.to_string(),
    )
}

#[test]
fn loads_a_catalog_with_one_device() {
    let catalog = Catalog::load(ONE_DEVICE).unwrap();
    assert_eq!(catalog.device_count(), 1);
    assert_eq!(catalog.last_updated(), None);
    let entry = catalog.device(0).unwrap();
    assert_eq!(entry.name(), "OGSP-v1");
    assert_eq!(entry.latest(), "1.2.0");
    assert_eq!(entry.version_count(), 1);
    let resolved = resolve(entry, None).unwrap();
    assert_eq!(resolved, &version(vec![segment(0, "https://x/fw.bin")]));
}

#[test]
fn loads_every_field_of_a_catalog() {
    let catalog = Catalog::load(TWO_DEVICES).unwrap();
    assert_eq!(catalog.last_updated(), Some("2024-11-02"));
    assert_eq!(catalog.names(), vec!["OGSP-v1".to_string(), "OGSP-v2".to_string()]);
    let first = catalog.device(0).unwrap();
    assert_eq!(first.latest(), "1.2.0");
    assert_eq!(
        first.version_at(0),
        Some(&version(vec![segment(0, "https://x/boot.bin"), segment(65536, "https://x/app.bin")]))
    );
    assert_eq!(first.version_at(2), Some(&version(vec![])));
    assert_eq!(first.version_at(3), None);
    let second = catalog.device(1).unwrap();
    assert_eq!(second.version_at(0), Some(&version(vec![segment(u32::MAX, "https://x/v2.bin")])));
    assert_eq!(catalog.device(2), None);
}

#[test]
fn keeps_the_versions_in_catalog_order() {
    let catalog = Catalog::load(TWO_DEVICES).unwrap();
    let first = catalog.device(0).unwrap();
    assert_eq!(first.labels(), vec!["1.2.0".to_string(), "1.10.0".to_string(), "0.9".to_string()]);
    assert_eq!(first.label_at(1), Some("1.10.0"));
    assert_eq!(first.label_at(2), Some("0.9"));
    assert_eq!(first.label_at(3), None);
}

#[test]
fn refuses_text_that_is_not_json() {
    assert_eq!(Catalog::load("{"), Err(PipelineError::SchemaError));
    assert_eq!(Catalog::load(""), Err(PipelineError::SchemaError));
    assert_eq!(Catalog::load("<html></html>"), Err(PipelineError::SchemaError));
}

#[test]
fn refuses_a_latest_that_is_not_among_the_versions() {
    let text = r#"{"devices":[{"name":"OGSP-v1","latest":"1.3.0","versions":{"1.2.0":{"files":[]}}}]}"#;
    assert_eq!(Catalog::load(text), Err(PipelineError::SchemaError));
    let none = r#"{"devices":[{"name":"OGSP-v1","latest":"1.2.0","versions":{}}]}"#;
    assert_eq!(Catalog::load(none), Err(PipelineError::SchemaError));
    assert_eq!(device("d", "2", vec![("1", version(vec![]))]), Err(PipelineError::SchemaError));
    assert_eq!(device("d", "", vec![]), Err(PipelineError::SchemaError));
}

#[test]
fn refuses_a_latest_in_one_device_among_good_ones() {
    let text = r#"{"devices":[
        {"name":"a","latest":"1","versions":{"1":{"files":[]}}},
        {"name":"b","latest":"2","versions":{"1":{"files":[]}}}
    ]}"#;
    assert_eq!(Catalog::load(text), Err(PipelineError::SchemaError));
}

#[test]
fn refuses_missing_members() {
    for text in [
        r#"{}"#,
        r#"{"devices":[{"latest":"1","versions":{"1":{"files":[]}}}]}"#,
        r#"{"devices":[{"name":"a","versions":{"1":{"files":[]}}}]}"#,
        r#"{"devices":[{"name":"a","latest":"1"}]}"#,
        r#"{"devices":[{"name":"a","latest":"1","versions":{"1":{}}}]}"#,
        r#"{"devices":[{"name":"a","latest":"1","versions":{"1":{"files":[{"url":"u"}]}}}]}"#,
        r#"{"devices":[{"name":"a","latest":"1","versions":{"1":{"files":[{"offset":0}]}}}]}"#,
    ] {
        assert_eq!(Catalog::load(text), Err(PipelineError::SchemaError), "text {}", text);
    }
}

#[test]
fn refuses_members_of_the_wrong_kind() {
    for text in [
        r#"[]"#,
        r#"{"devices":{}}"#,
        r#"{"devices":[[]]}"#,
        r#"{"devices":[],"last_updated":7}"#,
        r#"{"devices":[{"name":1,"latest":"1","versions":{"1":{"files":[]}}}]}"#,
        r#"{"devices":[{"name":"a","latest":1,"versions":{"1":{"files":[]}}}]}"#,
        r#"{"devices":[{"name":"a","latest":"1","versions":[]}]}"#,
        r#"{"devices":[{"name":"a","latest":"1","versions":{"1":{"files":{}}}}]}"#,
        r#"{"devices":[{"name":"a","latest":"1","versions":{"1":{"files":[{"offset":"0","url":"u"}]}}}]}"#,
        r#"{"devices":[{"name":"a","latest":"1","versions":{"1":{"files":[{"offset":0,"url":0}]}}}]}"#,
    ] {
        assert_eq!(Catalog::load(text), Err(PipelineError::SchemaError), "text {}", text);
    }
}

#[test]
fn refuses_an_offset_that_is_not_a_32_bit_address() {
    for offset in ["4294967296", "-1", "0.5", "1e3", "18446744073709551616"] {
        let text = format!(
            r#"{{"devices":[{{"name":"a","latest":"1","versions":{{"1":{{"files":[{{"offset":{},"url":"u"}}]}}}}}}]}}"#,
            offset
        );
        assert_eq!(Catalog::load(&text), Err(PipelineError::SchemaError), "offset {}", offset);
    }
}

#[test]
fn refuses_a_device_name_that_occurs_twice() {
    let text = r#"{"devices":[
        {"name":"a","latest":"1","versions":{"1":{"files":[]}}},
        {"name":"a","latest":"2","versions":{"2":{"files":[]}}}
    ]}"#;
    assert_eq!(Catalog::load(text), Err(PipelineError::SchemaError));
    let one = device("a", "1", vec![("1", version(vec![]))]).unwrap();
    let other = device("a", "2", vec![("2", version(vec![]))]).unwrap();
    assert_eq!(Catalog::new(vec![one, other], None), Err(PipelineError::SchemaError));
}

#[test]
fn refuses_a_label_that_occurs_twice() {
    assert_eq!(
        device("a", "1", vec![("1", version(vec![])), ("2", version(vec![])), ("1", version(vec![]))]),
        Err(PipelineError::SchemaError)
    );
    let doc = Json::Object(vec![
        ("name".to_string(), Json::Text("a".to_string())),
        ("latest".to_string(), Json::Text("1".to_string())),
        (
            "versions".to_string(),
            Json::Object(vec![
                ("1".to_string(), Json::Object(vec![("files".to_string(), Json::List(vec![]))])),
                ("1".to_string(), Json::Object(vec![("files".to_string(), Json::List(vec![]))])),
            ]),
        ),
    ]);
    assert_eq!(DeviceEntry::decode(&doc), None);
}

#[test]
fn passes_over_members_it_does_not_know() {
    let text = r#"{"note":"x","devices":[{"name":"a","board":"esp","latest":"1","versions":{"1":{"size":3,"files":[{"offset":1,"url":"u","sha":"00"}]}}}]}"#;
    let catalog = Catalog::load(text).unwrap();
    assert_eq!(resolve(catalog.device(0).unwrap(), None).unwrap(), &version(vec![segment(1, "u")]));
}

#[test]
fn reads_last_updated_where_it_is_a_text() {
    assert_eq!(Catalog::load(r#"{"devices":[]}"#).unwrap().last_updated(), None);
    assert_eq!(Catalog::load(r#"{"devices":[],"last_updated":null}"#).unwrap().last_updated(), None);
    assert_eq!(
        Catalog::load(r#"{"devices":[],"last_updated":"yesterday"}"#).unwrap().last_updated(),
        Some("yesterday")
    );
}

#[test]
fn an_empty_catalog_is_a_catalog() {
    let catalog = Catalog::load(r#"{"devices":[]}"#).unwrap();
    assert_eq!(catalog.device_count(), 0);
    assert_eq!(catalog.names(), Vec::<String>::new());
}

#[test]
fn resolves_the_latest_when_nothing_is_chosen() {
    let catalog = Catalog::load(TWO_DEVICES).unwrap();
    let first = catalog.device(0).unwrap();
    assert_eq!(resolve(first, None).ok(), first.version_at(0));
    let entry = device("d", "b", vec![("a", version(vec![segment(1, "a")])), ("b", version(vec![segment(2, "b")]))]).unwrap();
    assert_eq!(resolve(&entry, None), Ok(&version(vec![segment(2, "b")])));
}

#[test]
fn resolves_the_version_that_is_chosen() {
    let catalog = Catalog::load(TWO_DEVICES).unwrap();
    let first = catalog.device(0).unwrap();
    assert_eq!(resolve(first, Some("1.10.0")), Ok(&version(vec![segment(4096, "https://x/old.bin")])));
    assert_eq!(resolve(first, Some("0.9")), Ok(&version(vec![])));
    assert_eq!(resolve(first, Some("1.2.0")), resolve(first, None));
}

#[test]
fn refuses_a_version_that_is_not_listed() {
    let catalog = Catalog::load(TWO_DEVICES).unwrap();
    let first = catalog.device(0).unwrap();
    assert_eq!(resolve(first, Some("vX")), Err(PipelineError::UnknownVersion));
    assert_eq!(resolve(first, Some("")), Err(PipelineError::UnknownVersion));
    assert_eq!(resolve(first, Some("1.2")), Err(PipelineError::UnknownVersion));
    assert_eq!(resolve(first, Some(" 1.2.0")), Err(PipelineError::UnknownVersion));
    assert_eq!(resolve(first, Some("2.0.0")), Err(PipelineError::UnknownVersion));
}

#[test]
fn a_catalog_is_read_back_from_its_document_as_it_was() {
    let catalog = Catalog::load(TWO_DEVICES).unwrap();
    let doc = catalog.encode();
    assert_eq!(Catalog::decode(&doc), Ok(Catalog::load(TWO_DEVICES).unwrap()));
    let plain = Catalog::load(ONE_DEVICE).unwrap();
    assert_eq!(Catalog::decode(&plain.encode()), Ok(Catalog::load(ONE_DEVICE).unwrap()));
}

#[test]
fn writes_a_catalog_as_the_document_that_describes_it() {
    let catalog = Catalog::load(ONE_DEVICE).unwrap();
    assert_eq!(Some(catalog.encode()), Json::parse(
        r#"{"devices":[{"name":"OGSP-v1","latest":"1.2.0","versions":{"1.2.0":{"files":[{"offset":0,"url":"https://x/fw.bin"}]}}}]}"#
    ));
    let stamped = Catalog::new(vec![], Some("now".to_string())).unwrap();
    assert_eq!(Some(stamped.encode()), Json::parse(r#"{"devices":[],"last_updated":"now"}"#));
}

#[test]
fn reads_and_writes_the_parts_of_a_catalog() {
    let part = segment(65536, "https://x/app.bin");
    assert_eq!(Some(part.encode()), Json::parse(r#"{"offset":65536,"url":"https://x/app.bin"}"#));
    assert_eq!(FirmwareSegment::decode(&part.encode()), Some(segment(65536, "https://x/app.bin")));
    let whole = version(vec![segment(0, "a"), segment(16, "b")]);
    assert_eq!(VersionEntry::decode(&whole.encode()), Some(version(vec![segment(0, "a"), segment(16, "b")])));
    let entry = device("d", "1", vec![("1", version(vec![segment(0, "a")]))]).unwrap();
    assert_eq!(DeviceEntry::decode(&entry.encode()), Some(device("d", "1", vec![("1", version(vec![segment(0, "a")]))]).unwrap()));
}

#[test]
fn gives_up_a_catalog_for_one_of_its_devices() {
    let catalog = Catalog::load(TWO_DEVICES).unwrap();
    let second = catalog.into_device(1).unwrap();
    assert_eq!(second.name(), "OGSP-v2");
    assert_eq!(second.version_at(0), Some(&version(vec![segment(u32::MAX, "https://x/v2.bin")])));
    let first = Catalog::load(TWO_DEVICES).unwrap().into_device(0).unwrap();
    assert_eq!(first.name(), "OGSP-v1");
    assert_eq!(first.version_count(), 3);
    assert_eq!(Catalog::load(TWO_DEVICES).unwrap().into_device(2), None);
}

#[test]
fn a_copy_of_a_version_holds_what_the_version_holds() {
    let whole = version(vec![segment(0, "a"), segment(16, "b")]);
    assert_eq!(whole.duplicate(), whole);
    assert_eq!(version(vec![]).duplicate(), version(vec![]));
    assert_eq!(segment(7, "https://x/fw.bin").duplicate(), segment(7, "https://x/fw.bin"));
}

fn rendered(doc: &Json) -> serde_json::Value {
    match doc {
        Json::Null => serde_json::Value::Null,
        Json::Bool(b) => serde_json::Value::Bool(*b),
        Json::Integer(n) => serde_json::Value::Number(serde_json::Number::from(*n)),
        Json::OtherNumber => panic!("a catalog document holds no such number"),
        Json::Text(t) => serde_json::Value::String(t.clone()),
        Json::List(items) => serde_json::Value::Array(items.iter().map(rendered).collect()),
        Json::Object(members) => {
            let mut object = serde_json::Map::new();
            for (name, value) in members {
                object.insert(name.clone(), rendered(value));
            }
            serde_json::Value::Object(object)
        }
    }
}

#[test]
fn a_catalog_is_read_back_from_its_text_as_it_was() {
    for text in [ONE_DEVICE, TWO_DEVICES, r#"{"devices":[],"last_updated":"2025-01-01T00:00:00Z"}"#] {
        let catalog = Catalog::load(text).unwrap();
        let written = serde_json::to_string(&rendered(&catalog.encode())).unwrap();
        assert_eq!(Catalog::load(&written), Ok(Catalog::load(text).unwrap()));
        let pretty = serde_json::to_string_pretty(&rendered(&catalog.encode())).unwrap();
        assert_eq!(Catalog::load(&pretty), Ok(Catalog::load(text).unwrap()));
    }
}

#[test]
fn texts_that_are_hard_to_write_survive_the_round_trip() {
    let name = "OGSP \"v1\" \\ 地震計\n\u{0}\u{1f600}";
    let entry = device(name, "β/1", vec![("β/1", version(vec![segment(7, "https://x/?q=\"a b\"&r=é")]))]).unwrap();
    let catalog = Catalog::new(vec![entry], Some("\t".to_string())).unwrap();
    let written = serde_json::to_string(&rendered(&catalog.encode())).unwrap();
    let read = Catalog::load(&written).unwrap();
    let entry = read.device(0).unwrap();
    assert_eq!(entry.name(), name);
    assert_eq!(entry.latest(), "β/1");
    assert_eq!(read.last_updated(), Some("\t"));
    assert_eq!(resolve(entry, None).unwrap().files[0].source_url, "https://x/?q=\"a b\"&r=é");
    assert_eq!(read, catalog);
}
