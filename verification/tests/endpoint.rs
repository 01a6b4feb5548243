use ogsp_installer::endpoint::{require_usb, select, select_by_reply, PortKind, Selection, SerialEndpoint, UsbInfo};
use ogsp_installer::error::PipelineError;

fn usb(name: &str) -> SerialEndpoint {
    SerialEndpoint {
        name: name.to_string(),
        usb_info: Some(UsbInfo {
            vendor_id: 0x303a,
            product_id: 0x1001,
            manufacturer: Some("Espressif".to_string()),
            serial_number: None,
        }),
    }
}

fn other(name: &str) -> SerialEndpoint {
    SerialEndpoint { name: name.to_string(), usb_info: None }
}

#[test]
fn no_transport_is_no_device() {
    assert_eq!(select(&vec![]), Err(PipelineError::NoDeviceFound));
}

#[test]
fn a_single_transport_is_taken_without_asking() {
    let one = vec![usb("/dev/ttyACM0")];
    assert_eq!(select(&one), Ok(Selection::Taken(&usb("/dev/ttyACM0"))));
    let plain = vec![other("/dev/ttyS0")];
    assert_eq!(select(&plain), Ok(Selection::Taken(&other("/dev/ttyS0"))));
}

#[test]
fn several_transports_are_asked_about() {
    assert_eq!(select(&vec![usb("a"), usb("b")]), Ok(Selection::Ask));
    assert_eq!(select(&vec![other("a"), usb("b"), other("c")]), Ok(Selection::Ask));
}

#[test]
fn a_reply_picks_the_transport_with_that_number() {
    let list = vec![other("a"), usb("b"), other("c")];
    assert_eq!(select_by_reply(&list, "1"), Ok(&other("a")));
    assert_eq!(select_by_reply(&list, "2\n"), Ok(&usb("b")));
    assert_eq!(select_by_reply(&list, " 3 "), Ok(&other("c")));
}

#[test]
fn a_reply_that_names_no_transport_is_refused() {
    let list = vec![other("a"), usb("b"), other("c")];
    for reply in ["0", "4", "b", "", "two", "-1", "2.0"] {
        assert_eq!(select_by_reply(&list, reply), Err(PipelineError::InvalidSelection), "reply {:?}", reply);
    }
    assert_eq!(select_by_reply(&vec![], "1"), Err(PipelineError::InvalidSelection));
}

#[test]
fn flashing_needs_a_usb_transport() {
    let attached = usb("/dev/ttyACM0");
    assert_eq!(require_usb(&attached), Ok(attached.usb_info.as_ref().unwrap()));
    assert_eq!(require_usb(&other("/dev/ttyS0")), Err(PipelineError::NotUsbDevice));
}

#[test]
fn the_kind_follows_the_usb_identity() {
    assert_eq!(usb("a").kind(), PortKind::Usb);
    assert_eq!(other("a").kind(), PortKind::Other);
}

#[test]
fn a_copy_holds_what_the_transport_holds() {
    assert_eq!(usb("a").duplicate(), usb("a"));
    assert_eq!(other("b").duplicate(), other("b"));
    let full = SerialEndpoint {
        name: "COM3".to_string(),
        usb_info: Some(UsbInfo {
            vendor_id: 1,
            product_id: 2,
            manufacturer: None,
            serial_number: Some("0001".to_string()),
        }),
    };
    assert_eq!(full.duplicate(), full);
}
