use open_mouse_memory::cli::{
    parse_function, parse_hex_bytes, parse_hex_u16, spaced_from_compact_hex, summarize_numbers, yes_no,
};
use open_mouse_memory::device::BatteryInfo;
use open_mouse_memory::error::AppError;
use open_mouse_memory::report::{backup_line, battery_level_text};

#[test]
fn parses_function_ordinal_or_wire_value() {
    assert_eq!(parse_function("05").unwrap(), 0x50);
    assert_eq!(parse_function("0x50").unwrap(), 0x50);
    assert!(parse_function("51").is_err());
}

#[test]
fn parses_friendly_hex_bytes() {
    assert_eq!(parse_hex_bytes("00:01 0A").unwrap(), [0, 1, 10]);
}

#[test]
fn summarizes_long_numeric_ranges() {
    assert_eq!(
        summarize_numbers(&[100, 150, 200, 250, 300, 400]),
        "100-300 (step 50), 400"
    );
}

#[test]
fn formats_numeric_battery_level_for_shells() {
    let battery = BatteryInfo {
        source: "UNIFIED_BATTERY".to_owned(),
        percentage: Some(49),
        approximate_level: Some("good".to_owned()),
        next_level: None,
        status: "discharging".to_owned(),
        voltage_mv: None,
        raw_hex: "31040000".to_owned(),
    };
    assert_eq!(battery_level_text(&battery), "49%");
    let vague = BatteryInfo { percentage: None, ..battery.clone() };
    assert_eq!(battery_level_text(&vague), "good");
    let unknown = BatteryInfo { approximate_level: None, ..vague };
    assert_eq!(battery_level_text(&unknown), "unknown");
}

#[test]
fn numbers_are_read_in_hexadecimal() {
    assert_eq!(parse_hex_u16("8100").unwrap(), 0x8100);
    assert_eq!(parse_hex_u16("0x0x1f").unwrap(), 0x1f);
    assert_eq!(parse_hex_u16("+ff").unwrap(), 0xff);
    assert_eq!(parse_hex_u16("").unwrap_err(), "cannot parse integer from empty string");
    assert_eq!(parse_hex_u16("12g").unwrap_err(), "invalid digit found in string");
    assert_eq!(parse_hex_u16("10000").unwrap_err(), "number too large to fit in target type");
    assert_eq!(parse_function("F").unwrap(), 0xf0);
    assert_eq!(
        parse_function("1f").unwrap_err(),
        "function must be an ordinal from 0-F or a wire value whose low nibble is zero"
    );
}

#[test]
fn bytes_are_read_in_hexadecimal() {
    assert_eq!(parse_hex_bytes("").unwrap(), []);
    assert_eq!(parse_hex_bytes(" \t:").unwrap(), []);
    assert_eq!(parse_hex_bytes("0xaBcD").unwrap(), [0xab, 0xcd]);
    assert_eq!(parse_hex_bytes("abc").unwrap_err(), "Odd number of digits");
    assert_eq!(parse_hex_bytes("zz").unwrap_err(), "Invalid character 'z' at position 0");
    assert_eq!(parse_hex_bytes("0\u{e9}").unwrap_err(), "Odd number of digits");
}

#[test]
fn short_lists_are_spelled_out() {
    assert_eq!(summarize_numbers(&[]), "");
    assert_eq!(summarize_numbers(&[800]), "800");
    assert_eq!(summarize_numbers(&[100, 200, 300]), "100, 200, 300");
    assert_eq!(summarize_numbers(&[100, 200, 300, 400]), "100-400 (step 100)");
    assert_eq!(summarize_numbers(&[1, 2, 4, 8, 16]), "1, 2, 4, 8, 16");
}

#[test]
fn hexadecimal_text_is_spaced() {
    assert_eq!(spaced_from_compact_hex("0A1B2C"), "0A 1B 2C");
    assert_eq!(spaced_from_compact_hex("0A1"), "0A 1");
    assert_eq!(spaced_from_compact_hex(""), "");
    assert_eq!(yes_no(true), "yes");
    assert_eq!(yes_no(false), "no");
    assert_eq!(backup_line(6, "/tmp/b.json"), "Backed up 6 sectors to /tmp/b.json");
}

#[test]
fn errors_have_texts_and_codes() {
    let path = "/dev/hidraw0".to_owned();
    let cases = [
        (AppError::NoDevice, 2, "no compatible Logitech HID++ device was found"),
        (AppError::DeviceNotFound("x".to_owned()), 2, "device selector 'x' did not match a device"),
        (
            AppError::AmbiguousDevice("x".to_owned()),
            3,
            "device selector 'x' is ambiguous; use its numeric ID, serial, or hidraw path",
        ),
        (
            AppError::UnsupportedFeature { id: 0x8100, name: "ONBOARD_PROFILES" },
            4,
            "feature 0x8100 (ONBOARD_PROFILES) is not advertised by this device",
        ),
        (
            AppError::PermissionDenied { path: path.clone() },
            5,
            "permission denied opening /dev/hidraw0; install packaging/udev/70-open-mouse-memory.rules and reconnect the mouse or receiver",
        ),
        (
            AppError::Hid { path: path.clone(), message: "gone".to_owned() },
            1,
            "HID access failed for /dev/hidraw0: gone",
        ),
        (
            AppError::Timeout {
                timeout_ms: 750,
                device_index: 1,
                feature_index: 0x0a,
                function: 0x20,
                request: "11 01".to_owned(),
            },
            6,
            "timeout after 750 ms waiting for HID++ response\nDevice index: 0x01\nFeature index: 0x0a\nFunction: 0x20\nRequest: 11 01",
        ),
        (
            AppError::Protocol { device_index: 0xff, feature_index: 3, function: 0, code: 8, name: "BUSY" },
            7,
            "HID++ request failed\nDevice index: 0xff\nFeature index: 0x03\nFunction: 0x00\nError: 0x08 (BUSY)",
        ),
        (AppError::Validation("v".to_owned()), 8, "invalid value: v"),
        (AppError::Unsafe("u".to_owned()), 8, "unsafe operation refused: u"),
        (AppError::Verification("w".to_owned()), 9, "write verification failed: w"),
        (AppError::IncompatibleProfile("p".to_owned()), 10, "invalid profile format: p"),
        (AppError::Other("o".to_owned()), 1, "o"),
    ];
    for (error, code, text) in cases {
        assert_eq!(error.exit_code(), code);
        assert_eq!(error.message(), text);
    }
    assert!(matches!(AppError::hid(&path, "open: Permission Denied"), AppError::PermissionDenied { .. }));
    assert!(matches!(AppError::hid(&path, "no such node"), AppError::Hid { .. }));
}
