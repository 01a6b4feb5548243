use ogsp_installer::endpoint::{SerialEndpoint, UsbInfo};
use ogsp_installer::error::PipelineError;
use ogsp_installer::fetch::DownloadedSegment;
use ogsp_installer::flash::{ChipFamily, FlashCommand, FlashTarget, ResetAfter, ResetBefore};
use ogsp_installer::pipeline::{Action, Diagnostic, Event, Pipeline, Preflight, CATALOG_URL, PREFLIGHT_HOST};

const ONE_DEVICE: &str = r#"{"devices":[{"name":"OGSP-v1","latest":"1.2.0","versions":{"1.2.0":{"files":[{"offset":0,"url":"https://x/fw.bin"}]}}}]}"#;

const THREE_SEGMENTS: &str = r#"{"devices":[
  {"name":"OGSP-v1","latest":"2.0","versions":{
    "1.0":{"files":[{"offset":4096,"url":"https://x/old.bin"}]},
    "2.0":{"files":[
      {"offset":0,"url":"https://x/boot.bin"},
      {"offset":32768,"url":"https://x/table.bin"},
      {"offset":65536,"url":"https://x/app.bin"}]}}},
  {"name":"OGSP-v2","latest":"0.1","versions":{"0.1":{"files":[]}}}
]}"#;

fn usb(name: &str) -> SerialEndpoint {
    SerialEndpoint {
        name: name.to_string(),
        usb_info: Some(UsbInfo { vendor_id: 0x303a, product_id: 0x1001, manufacturer: None, serial_number: None }),
    }
}

fn other(name: &str) -> SerialEndpoint {
    SerialEndpoint { name: name.to_string(), usb_info: None }
}

fn reply(line: &str) -> Event {
    Event::Reply(line.to_string())
}

fn run(events: Vec<Event>) -> Pipeline {
    let mut pipeline = Pipeline::new(ChipFamily::Esp32c6);
    for event in events {
        pipeline = pipeline.advance(event);
    }
    pipeline
}

fn up_to_fetching(catalog: &str) -> Pipeline {
    run(vec![
        Event::PortsListed(vec![usb("/dev/ttyACM0")]),
        Event::Connectivity(Preflight::Reachable),
        Event::CatalogText(catalog.to_string()),
        reply("1"),
        reply(""),
    ])
}

#[test]
fn a_run_starts_by_listing_the_ports() {
    let pipeline = Pipeline::new(ChipFamily::Esp32c6);
    assert_eq!(pipeline.action(), Action::ListPorts);
    assert_eq!(pipeline.outcome(), None);
    assert_eq!(pipeline.endpoint(), None);
    assert_eq!(pipeline.target(), None);
    assert_eq!(pipeline.choices(), Vec::<String>::new());
}

#[test]
fn a_run_has_the_usual_reset_policies_unless_told_otherwise() {
    let pipeline = Pipeline::new(ChipFamily::Esp32s3);
    assert_eq!(pipeline.chip(), ChipFamily::Esp32s3);
    assert_eq!(pipeline.reset_before(), ResetBefore::DefaultReset);
    assert_eq!(pipeline.reset_after(), ResetAfter::HardReset);
    let other = pipeline.with_resets(ResetBefore::UsbReset, ResetAfter::NoReset);
    assert_eq!(other.chip(), ChipFamily::Esp32s3);
    assert_eq!(other.reset_before(), ResetBefore::UsbReset);
    assert_eq!(other.reset_after(), ResetAfter::NoReset);
    assert_eq!(other.action(), Action::ListPorts);
}

#[test]
fn the_catalog_and_the_probe_have_fixed_addresses() {
    assert_eq!(CATALOG_URL, "https://api.okayugroup.com/ogsp/firmware/devices.json");
    assert_eq!(PREFLIGHT_HOST, "google.com:80");
}

#[test]
fn no_port_ends_the_run_before_the_network_is_used() {
    let pipeline = run(vec![Event::PortsListed(vec![])]);
    assert_eq!(pipeline.action(), Action::Stop(Err(PipelineError::NoDeviceFound)));
    assert_eq!(pipeline.outcome(), Some(Err(PipelineError::NoDeviceFound)));
    let later = pipeline
        .advance(Event::Connectivity(Preflight::Reachable))
        .advance(Event::CatalogText(ONE_DEVICE.to_string()))
        .advance(reply("1"))
        .advance(Event::SegmentBody(vec![1]))
        .advance(Event::DeviceReport(true));
    assert_eq!(later.action(), Action::Stop(Err(PipelineError::NoDeviceFound)));
}

#[test]
fn ports_that_cannot_be_listed_end_the_run() {
    let pipeline = run(vec![Event::PortsUnavailable]);
    assert_eq!(pipeline.action(), Action::Stop(Err(PipelineError::EnumerationError)));
}

#[test]
fn a_single_usb_port_is_taken_without_asking() {
    let pipeline = run(vec![Event::PortsListed(vec![usb("/dev/ttyACM0")])]);
    assert_eq!(pipeline.action(), Action::CheckConnectivity);
    assert_eq!(pipeline.endpoint(), Some(&usb("/dev/ttyACM0")));
}

#[test]
fn a_single_port_that_is_not_usb_ends_the_run() {
    let pipeline = run(vec![Event::PortsListed(vec![other("/dev/ttyS0")])]);
    assert_eq!(pipeline.action(), Action::Stop(Err(PipelineError::NotUsbDevice)));
}

#[test]
fn several_ports_are_shown_to_the_operator() {
    let pipeline = run(vec![Event::PortsListed(vec![other("/dev/ttyS0"), usb("/dev/ttyACM0"), usb("/dev/ttyACM1")])]);
    assert_eq!(pipeline.action(), Action::AskEndpoint);
    assert_eq!(
        pipeline.choices(),
        vec!["/dev/ttyS0".to_string(), "/dev/ttyACM0".to_string(), "/dev/ttyACM1".to_string()]
    );
    let chosen = pipeline.advance(reply("3\n"));
    assert_eq!(chosen.action(), Action::CheckConnectivity);
    assert_eq!(chosen.endpoint(), Some(&usb("/dev/ttyACM1")));
}

#[test]
fn a_reply_that_names_no_port_ends_the_run() {
    for line in ["0", "3", "x", "", "1.5"] {
        let pipeline = run(vec![Event::PortsListed(vec![usb("a"), usb("b")]), reply(line)]);
        assert_eq!(pipeline.action(), Action::Stop(Err(PipelineError::InvalidSelection)), "reply {:?}", line);
    }
}

#[test]
fn a_chosen_port_that_is_not_usb_ends_the_run() {
    let pipeline = run(vec![Event::PortsListed(vec![other("a"), usb("b")]), reply("1")]);
    assert_eq!(pipeline.action(), Action::Stop(Err(PipelineError::NotUsbDevice)));
}

#[test]
fn a_refused_connection_is_told_apart_from_no_connection() {
    let refused = run(vec![Event::PortsListed(vec![usb("a")]), Event::Connectivity(Preflight::Refused)]);
    assert_eq!(refused.action(), Action::Stop(Err(PipelineError::NetworkError)));
    assert_eq!(refused.diagnostic(), Some(Diagnostic::ConnectionRefused));
    let unreachable = run(vec![Event::PortsListed(vec![usb("a")]), Event::Connectivity(Preflight::Unreachable)]);
    assert_eq!(unreachable.action(), Action::Stop(Err(PipelineError::NetworkError)));
    assert_eq!(unreachable.diagnostic(), Some(Diagnostic::ConnectionFailed));
    let reachable = run(vec![Event::PortsListed(vec![usb("a")]), Event::Connectivity(Preflight::Reachable)]);
    assert_eq!(reachable.action(), Action::FetchCatalog);
    assert_eq!(reachable.diagnostic(), None);
}

#[test]
fn a_catalog_that_cannot_be_had_ends_the_run() {
    let pipeline = run(vec![
        Event::PortsListed(vec![usb("a")]),
        Event::Connectivity(Preflight::Reachable),
        Event::CatalogUnavailable,
    ]);
    assert_eq!(pipeline.action(), Action::Stop(Err(PipelineError::NetworkError)));
    assert_eq!(pipeline.diagnostic(), None);
}

#[test]
fn a_catalog_of_the_wrong_shape_ends_the_run() {
    for text in ["", "not json", "{}", r#"{"devices":[{"name":"a","latest":"2","versions":{"1":{"files":[]}}}]}"#] {
        let pipeline = run(vec![
            Event::PortsListed(vec![usb("a")]),
            Event::Connectivity(Preflight::Reachable),
            Event::CatalogText(text.to_string()),
        ]);
        assert_eq!(pipeline.action(), Action::Stop(Err(PipelineError::SchemaError)), "text {:?}", text);
    }
}

#[test]
fn the_device_models_are_shown_in_catalog_order() {
    let pipeline = run(vec![
        Event::PortsListed(vec![usb("a")]),
        Event::Connectivity(Preflight::Reachable),
        Event::CatalogText(THREE_SEGMENTS.to_string()),
    ]);
    assert_eq!(pipeline.action(), Action::AskDevice);
    assert_eq!(pipeline.choices(), vec!["OGSP-v1".to_string(), "OGSP-v2".to_string()]);
    let asked = pipeline.advance(reply("1"));
    assert_eq!(asked.action(), Action::ConfirmLatest);
    assert_eq!(asked.choices(), vec!["2.0".to_string()]);
}

#[test]
fn a_reply_that_names_no_device_model_ends_the_run() {
    let pipeline = run(vec![
        Event::PortsListed(vec![usb("a")]),
        Event::Connectivity(Preflight::Reachable),
        Event::CatalogText(THREE_SEGMENTS.to_string()),
        reply("3"),
    ]);
    assert_eq!(pipeline.action(), Action::Stop(Err(PipelineError::InvalidSelection)));
}

#[test]
fn an_empty_reply_accepts_the_latest_version() {
    let pipeline = up_to_fetching(THREE_SEGMENTS);
    assert_eq!(pipeline.action(), Action::Download(0));
    assert_eq!(pipeline.download_url(), Some("https://x/boot.bin"));
}

#[test]
fn any_other_reply_asks_for_the_version() {
    let pipeline = run(vec![
        Event::PortsListed(vec![usb("a")]),
        Event::Connectivity(Preflight::Reachable),
        Event::CatalogText(THREE_SEGMENTS.to_string()),
        reply("1"),
        reply("n"),
    ]);
    assert_eq!(pipeline.action(), Action::AskVersion);
    assert_eq!(pipeline.choices(), vec!["1.0".to_string(), "2.0".to_string()]);
    let old = pipeline.advance(reply("1"));
    assert_eq!(old.action(), Action::Download(0));
    assert_eq!(old.download_url(), Some("https://x/old.bin"));
}

#[test]
fn a_reply_that_names_no_version_ends_the_run() {
    let pipeline = run(vec![
        Event::PortsListed(vec![usb("a")]),
        Event::Connectivity(Preflight::Reachable),
        Event::CatalogText(THREE_SEGMENTS.to_string()),
        reply("1"),
        reply("other"),
        reply("1.0"),
    ]);
    assert_eq!(pipeline.action(), Action::Stop(Err(PipelineError::InvalidSelection)));
}

#[test]
fn accepting_the_defaults_flashes_one_segment_at_offset_zero() {
    let fetching = up_to_fetching(ONE_DEVICE);
    assert_eq!(fetching.action(), Action::Download(0));
    assert_eq!(fetching.download_url(), Some("https://x/fw.bin"));
    let flashing = fetching.advance(Event::SegmentBody(vec![0xe9, 0x00, 0x01]));
    assert_eq!(flashing.action(), Action::Device(FlashCommand::OpenPort));
    assert_eq!(flashing.segment(0), Some(&DownloadedSegment { flash_offset: 0, data: vec![0xe9, 0x00, 0x01] }));
    assert_eq!(flashing.segment(1), None);
    assert_eq!(
        flashing.target(),
        Some(FlashTarget {
            endpoint: usb("/dev/ttyACM0"),
            chip: ChipFamily::Esp32c6,
            reset_before: ResetBefore::DefaultReset,
            reset_after: ResetAfter::HardReset,
        })
    );
    let connecting = flashing.advance(Event::DeviceReport(true));
    assert_eq!(connecting.action(), Action::Device(FlashCommand::Connect));
    let writing = connecting.advance(Event::DeviceReport(true));
    assert_eq!(writing.action(), Action::Device(FlashCommand::Write(0)));
    let finishing = writing.advance(Event::DeviceReport(true));
    assert_eq!(finishing.action(), Action::Device(FlashCommand::Finish));
    assert_eq!(finishing.outcome(), None);
    let done = finishing.advance(Event::DeviceReport(true));
    assert_eq!(done.action(), Action::Stop(Ok(())));
    assert_eq!(done.outcome(), Some(Ok(())));
}

#[test]
fn segments_are_fetched_one_after_the_other_in_listed_order() {
    let first = up_to_fetching(THREE_SEGMENTS);
    assert_eq!((first.action(), first.download_url()), (Action::Download(0), Some("https://x/boot.bin")));
    let second = first.advance(Event::SegmentBody(vec![1]));
    assert_eq!((second.action(), second.download_url()), (Action::Download(1), Some("https://x/table.bin")));
    let third = second.advance(Event::SegmentBody(vec![2, 2]));
    assert_eq!((third.action(), third.download_url()), (Action::Download(2), Some("https://x/app.bin")));
    let flashing = third.advance(Event::SegmentBody(vec![3, 3, 3]));
    assert_eq!(flashing.action(), Action::Device(FlashCommand::OpenPort));
    assert_eq!(flashing.download_url(), None);
    assert_eq!(flashing.segment(0), Some(&DownloadedSegment { flash_offset: 0, data: vec![1] }));
    assert_eq!(flashing.segment(1), Some(&DownloadedSegment { flash_offset: 32768, data: vec![2, 2] }));
    assert_eq!(flashing.segment(2), Some(&DownloadedSegment { flash_offset: 65536, data: vec![3, 3, 3] }));
    assert_eq!(flashing.segment(3), None);
}

#[test]
fn a_failed_download_ends_the_run_before_the_device_is_touched() {
    let pipeline = up_to_fetching(THREE_SEGMENTS)
        .advance(Event::SegmentBody(vec![1]))
        .advance(Event::SegmentUnavailable);
    assert_eq!(pipeline.action(), Action::Stop(Err(PipelineError::DownloadError)));
    assert_eq!(pipeline.segment(0), None);
    let later = pipeline.advance(Event::SegmentBody(vec![2])).advance(Event::SegmentBody(vec![3])).advance(Event::DeviceReport(true));
    assert_eq!(later.action(), Action::Stop(Err(PipelineError::DownloadError)));
}

#[test]
fn a_segment_without_an_absolute_url_is_not_requested() {
    let text = r#"{"devices":[{"name":"a","latest":"1","versions":{"1":{"files":[{"offset":0,"url":"https://x/a.bin"},{"offset":1,"url":"b.bin"}]}}}]}"#;
    let first = up_to_fetching(text);
    assert_eq!(first.action(), Action::Download(0));
    let second = first.advance(Event::SegmentBody(vec![1]));
    assert_eq!(second.action(), Action::Stop(Err(PipelineError::DownloadError)));
    let bad_first = r#"{"devices":[{"name":"a","latest":"1","versions":{"1":{"files":[{"offset":0,"url":"a.bin"}]}}}]}"#;
    assert_eq!(up_to_fetching(bad_first).action(), Action::Stop(Err(PipelineError::DownloadError)));
}

#[test]
fn a_version_without_segments_goes_straight_to_the_device() {
    let pipeline = run(vec![
        Event::PortsListed(vec![usb("a")]),
        Event::Connectivity(Preflight::Reachable),
        Event::CatalogText(THREE_SEGMENTS.to_string()),
        reply("2"),
        reply(""),
    ]);
    assert_eq!(pipeline.action(), Action::Device(FlashCommand::OpenPort));
    let connected = pipeline.advance(Event::DeviceReport(true)).advance(Event::DeviceReport(true));
    assert_eq!(connected.action(), Action::Device(FlashCommand::Finish));
}

#[test]
fn a_port_that_does_not_open_ends_the_run() {
    let pipeline = up_to_fetching(ONE_DEVICE).advance(Event::SegmentBody(vec![1])).advance(Event::DeviceReport(false));
    assert_eq!(pipeline.action(), Action::Stop(Err(PipelineError::PortOpenError)));
}

#[test]
fn a_failed_handshake_ends_the_run_without_a_write() {
    let pipeline = up_to_fetching(THREE_SEGMENTS)
        .advance(Event::SegmentBody(vec![1]))
        .advance(Event::SegmentBody(vec![2]))
        .advance(Event::SegmentBody(vec![3]))
        .advance(Event::DeviceReport(true))
        .advance(Event::DeviceReport(false));
    assert_eq!(pipeline.action(), Action::Stop(Err(PipelineError::HandshakeError)));
    let later = pipeline.advance(Event::DeviceReport(true)).advance(Event::DeviceReport(true));
    assert_eq!(later.action(), Action::Stop(Err(PipelineError::HandshakeError)));
}

#[test]
fn a_failed_write_ends_the_run_and_names_the_segment() {
    let pipeline = up_to_fetching(THREE_SEGMENTS)
        .advance(Event::SegmentBody(vec![1]))
        .advance(Event::SegmentBody(vec![2]))
        .advance(Event::SegmentBody(vec![3]))
        .advance(Event::DeviceReport(true))
        .advance(Event::DeviceReport(true))
        .advance(Event::DeviceReport(true));
    assert_eq!(pipeline.action(), Action::Device(FlashCommand::Write(1)));
    let failed = pipeline.advance(Event::DeviceReport(false));
    assert_eq!(failed.action(), Action::Stop(Err(PipelineError::WriteError(1))));
    assert_eq!(failed.outcome(), Some(Err(PipelineError::WriteError(1))));
}

#[test]
fn an_event_that_answers_another_action_changes_nothing() {
    let start = Pipeline::new(ChipFamily::Esp32c6)
        .advance(reply("1"))
        .advance(Event::DeviceReport(true))
        .advance(Event::SegmentBody(vec![1]))
        .advance(Event::CatalogText(ONE_DEVICE.to_string()));
    assert_eq!(start.action(), Action::ListPorts);
    let probing = run(vec![Event::PortsListed(vec![usb("a")]), Event::PortsListed(vec![]), reply("1"), Event::CatalogUnavailable]);
    assert_eq!(probing.action(), Action::CheckConnectivity);
    let fetching = up_to_fetching(ONE_DEVICE).advance(Event::DeviceReport(false)).advance(reply("2"));
    assert_eq!(fetching.action(), Action::Download(0));
    let flashing = up_to_fetching(ONE_DEVICE)
        .advance(Event::SegmentBody(vec![1]))
        .advance(Event::SegmentUnavailable)
        .advance(Event::SegmentBody(vec![2]));
    assert_eq!(flashing.action(), Action::Device(FlashCommand::OpenPort));
    assert_eq!(flashing.segment(0), Some(&DownloadedSegment { flash_offset: 0, data: vec![1] }));
}
