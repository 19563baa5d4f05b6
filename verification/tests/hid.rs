use open_mouse_memory::hid::descriptor::inspect;
use open_mouse_memory::hid::{
    bus_name, enumerate_logitech, Bus, HidCollection, HidEndpoint, HidRecord, LOGITECH_VENDOR_ID,
};
use open_mouse_memory::report::describe_descriptor;

#[test]
fn parses_report_ids_and_lengths() {
    let descriptor = [
        0x06, 0x00, 0xff, // usage page 0xff00
        0x85, 0x10, // report id 0x10
        0x75, 0x08, // report size 8
        0x95, 0x06, // report count 6
        0x91, 0x00, // output
        0x95, 0x06, 0x81, 0x00, // input
        0x85, 0x11, 0x95, 0x13, 0x91, 0x00, // 19-byte output
    ];
    let parsed = inspect(&descriptor);
    assert_eq!(parsed.report_ids, [0x10, 0x11]);
    assert_eq!(parsed.usage_pages, [0xff00]);
    assert_eq!(parsed.output_bits[&0x10], 48);
    assert_eq!(parsed.input_bits[&0x10], 48);
    assert_eq!(parsed.output_bits[&0x11], 152);
}

#[test]
fn descriptor_is_described() {
    let parsed = inspect(&[0x06, 0x00, 0xff, 0x85, 0x10, 0x75, 0x08, 0x95, 0x06, 0x91, 0x00, 0x81, 0x00]);
    assert_eq!(
        describe_descriptor("/dev/hidraw0", &parsed),
        [
            "Path: /dev/hidraw0",
            "Descriptor bytes: 13",
            "Usage pages: 0xFF00",
            "Report IDs: 0x10",
            "Input bits: {16: 48}",
            "Output bits: {16: 48}",
            "Feature bits: {}",
            "Raw: 06 00 ff 85 10 75 08 95 06 91 00 81 00",
        ]
    );
    let wide = inspect(&[0x07, 0x01, 0x00, 0x02, 0x00]);
    assert_eq!(describe_descriptor("x", &wide)[2], "Usage pages: 0x20001");
}

#[test]
fn recognizes_superlight_2_wired_usb_identity() {
    let endpoint = HidEndpoint {
        path: "/dev/hidraw23".to_owned(),
        vendor_id: LOGITECH_VENDOR_ID,
        product_id: 0xc09b,
        serial_number: Some("0723ECD7".to_owned()),
        manufacturer: Some("Logitech".to_owned()),
        product: Some("PRO X 2".to_owned()),
        usage_page: 0xff00,
        usage: 1,
        collections: vec![HidCollection {
            usage_page: 0xff00,
            usage: 1,
        }],
        interface_number: 2,
        bus_type: "usb".to_owned(),
    };
    assert!(endpoint.is_direct_hidpp_device());
    assert!(!endpoint.is_receiver());
}

fn record(path: &str, vendor_id: u16, usage_page: u16) -> HidRecord {
    HidRecord {
        path: path.to_owned(),
        vendor_id,
        product_id: 0xc547,
        serial_number: None,
        manufacturer: Some("Logitech".to_owned()),
        product: Some("USB Receiver".to_owned()),
        collection: HidCollection { usage_page, usage: 1 },
        interface_number: 2,
        bus: Bus::Usb,
    }
}

#[test]
fn entries_of_one_node_come_together() {
    let endpoints = enumerate_logitech(&vec![
        record("/dev/hidraw2", LOGITECH_VENDOR_ID, 0x0001),
        record("/dev/hidraw1", LOGITECH_VENDOR_ID, 0xff00),
        record("/dev/hidraw2", LOGITECH_VENDOR_ID, 0xff00),
        record("/dev/hidraw3", 0x1234, 0xff00),
    ]);
    assert_eq!(endpoints.len(), 2);
    assert_eq!(endpoints[0].path, "/dev/hidraw1");
    assert_eq!(endpoints[1].path, "/dev/hidraw2");
    assert_eq!(endpoints[1].collections.len(), 2);
    assert_eq!(endpoints[1].bus_type, "usb");
    assert!(endpoints[1].is_receiver());
}

#[test]
fn buses_have_names() {
    assert_eq!(bus_name(Bus::Usb), "usb");
    assert_eq!(bus_name(Bus::Bluetooth), "bluetooth");
    assert_eq!(bus_name(Bus::I2c), "i2c");
    assert_eq!(bus_name(Bus::Spi), "spi");
    assert_eq!(bus_name(Bus::Unknown), "unknown");
}
