use open_mouse_memory::device::battery::{
    battery_status, decode_status_battery, decode_unified_battery, decode_voltage_battery,
    estimate_battery_percentage,
};
use open_mouse_memory::device::dpi::{decode_dpi_list, decode_extended_dpi, decode_plain_dpi, validate_choice};
use open_mouse_memory::device::format07::{
    decode_format_07_button, decode_format_07_profile, encode_format_07_button, encode_format_07_profile,
    onboard_sector_bytes, set_onboard_crc, validate_format_07, validate_profile_for_onboard,
};
use open_mouse_memory::device::identity::{decode_device_ids, decode_firmware, device_name_from, firmware_with_name};
use open_mouse_memory::device::memory::write_failure_with_rollback;
use open_mouse_memory::device::onboard::{decode_onboard_info, decode_onboard_profile_headers, onboard_crc16};
use open_mouse_memory::device::rate::{
    code_of_rate, decode_extended_rate, decode_extended_rates, decode_plain_rate, decode_plain_rates,
    extended_rate_connection, rate_state,
};
use open_mouse_memory::device::{OnboardInfo, OnboardProfileHeader, OnboardSector, RateState};
use open_mouse_memory::error::AppError;
use open_mouse_memory::profile::{ButtonAction, MouseButton, Profile};

#[test]
fn decodes_compact_dpi_range() {
    let values = decode_dpi_list(&[0x00, 0x64, 0xe0, 0x32, 0x01, 0x2c, 0, 0]).unwrap();
    assert_eq!(values, [100, 150, 200, 250, 300]);
}

#[test]
fn rejects_broken_dpi_range() {
    assert!(decode_dpi_list(&[0xe0, 0x32, 0x01, 0x2c, 0, 0]).is_err());
}

#[test]
fn decodes_onboard_profile_directory() {
    let headers = decode_onboard_profile_headers(
        &[
            0x00, 0x01, 0x01, 0x00, 0x00, 0x02, 0x00, 0xff, 0xff, 0xff, 0xff, 0xff,
        ],
        5,
    );
    assert_eq!(headers.len(), 2);
    assert_eq!(headers[0].sector, 1);
    assert!(headers[0].enabled);
    assert_eq!(headers[1].flags, 0xff);
}

#[test]
fn calculates_onboard_crc16() {
    assert_eq!(onboard_crc16(b"123456789"), 0x29b1);
}

fn stored_profile() -> Vec<u8> {
    let mut bytes = vec![0xff; 70];
    bytes[..68].copy_from_slice(&[
        0x04, 0x03, 0x00, 0x00, 0x20, 0x03, 0x20, 0x03, 0x02, 0xb0, 0x04, 0xb0, 0x04, 0x02, 0x40, 0x06, 0x40, 0x06,
        0x02, 0x60, 0x09, 0x60, 0x09, 0x02, 0x80, 0x0c, 0x80, 0x0c, 0x02, 0x00, 0x00, 0x00, 0x00, 0xff, 0x00, 0xff,
        0xff, 0x00, 0xff, 0xff, 0xff, 0xff, 0xff, 0xff, 0x3c, 0x00, 0x2c, 0x01, 0x80, 0x01, 0x00, 0x01, 0x80, 0x01,
        0x00, 0x02, 0x80, 0x01, 0x00, 0x04, 0x80, 0x01, 0x00, 0x08, 0x80, 0x01, 0x00, 0x10,
    ]);
    set_onboard_crc(&mut bytes).unwrap();
    bytes
}

fn sector_of(bytes: Vec<u8>) -> OnboardSector {
    let end = bytes.len();
    let stored_crc = u16::from_be_bytes([bytes[end - 2], bytes[end - 1]]);
    OnboardSector {
        sector: 1,
        size: end as u16,
        stored_crc,
        computed_crc: stored_crc,
        crc_valid: true,
        data_hex: hex::encode_upper(bytes),
    }
}

fn first_header() -> OnboardProfileHeader {
    OnboardProfileHeader {
        slot: 1,
        sector: 1,
        enabled: true,
        enabled_code: 1,
        flags: 0,
        raw_hex: "00010100".to_owned(),
    }
}

#[test]
fn decodes_format_07_profile() {
    let mut bytes = vec![0xff; 70];
    bytes[..68].copy_from_slice(&[
        0x04, 0x03, 0x00, 0x00, 0x20, 0x03, 0x20, 0x03, 0x02, 0xb0, 0x04, 0xb0, 0x04, 0x02, 0x40, 0x06,
        0x40, 0x06, 0x02, 0x60, 0x09, 0x60, 0x09, 0x02, 0x80, 0x0c, 0x80, 0x0c, 0x02, 0x00, 0x00, 0x00,
        0x00, 0xff, 0x00, 0xff, 0xff, 0x00, 0xff, 0xff, 0xff, 0xff, 0xff, 0xff, 0x3c, 0x00, 0x2c, 0x01,
        0x80, 0x01, 0x00, 0x01, 0x80, 0x01, 0x00, 0x02, 0x80, 0x01, 0x00, 0x04, 0x80, 0x01, 0x00, 0x08,
        0x80, 0x01, 0x00, 0x10,
    ]);
    set_onboard_crc(&mut bytes).unwrap();
    let stored_crc = u16::from_be_bytes([bytes[68], bytes[69]]);
    let sector = OnboardSector {
        sector: 1,
        size: 70,
        stored_crc,
        computed_crc: stored_crc,
        crc_valid: true,
        data_hex: hex::encode_upper(bytes),
    };
    let header = OnboardProfileHeader {
        slot: 1,
        sector: 1,
        enabled: true,
        enabled_code: 1,
        flags: 0,
        raw_hex: "00010100".to_owned(),
    };
    let decoded = decode_format_07_profile(&header, &sector, true, Some(0)).unwrap();
    assert_eq!(decoded.profile.report_rate, 2000);
    assert_eq!(decoded.profile.dpi_points, [800, 1200, 1600, 2400, 3200]);
    assert_eq!(decoded.profile.active_dpi, 0);
    assert_eq!(decoded.profile.shift_dpi, Some(0));
    assert_eq!(
        decoded.profile.action(MouseButton::Forward),
        &ButtonAction::Forward
    );
}

#[test]
fn encodes_format_07_without_touching_unknown_bytes() {
    let mut bytes = vec![0xa5; 255];
    let profile = Profile::default();
    encode_format_07_profile(&mut bytes, &profile).unwrap();
    assert_eq!(bytes[0], 3);
    assert_eq!(&bytes[4..8], &[0x90, 0x01, 0x90, 0x01]);
    assert_eq!(&bytes[48..52], &[0x80, 0x01, 0x00, 0x01]);
    assert_eq!(bytes[100], 0xa5);
}

#[test]
fn maps_extended_rates() {
    assert_eq!(
        rate_state(8000),
        RateState {
            hz: 8000,
            interval_microseconds: 125
        }
    );
}

#[test]
fn selects_extended_rate_connection() {
    assert_eq!(extended_rate_connection(0xff), 0);
    assert_eq!(extended_rate_connection(1), 1);
}

#[test]
fn stored_profiles_read_back() {
    let mut bytes = stored_profile();
    let mut profile = Profile::default();
    profile.dpi_points = vec![400, 1_600];
    profile.active_dpi = 1;
    profile.shift_dpi = None;
    profile.report_rate = 8_000;
    profile.assign(MouseButton::Back, ButtonAction::DpiShift);
    profile.assign(MouseButton::Forward, ButtonAction::Disabled);
    validate_profile_for_onboard(&profile).unwrap();
    encode_format_07_profile(&mut bytes, &profile).unwrap();
    set_onboard_crc(&mut bytes).unwrap();
    assert_eq!(onboard_crc16(&bytes[..68]), u16::from_be_bytes([bytes[68], bytes[69]]));
    let decoded = decode_format_07_profile(&first_header(), &sector_of(bytes), false, None).unwrap();
    assert_eq!(decoded.profile.name, "Onboard Slot 1");
    assert_eq!(decoded.profile.dpi_points, profile.dpi_points);
    assert_eq!(decoded.profile.active_dpi, 1);
    assert_eq!(decoded.profile.shift_dpi, None);
    assert_eq!(decoded.profile.report_rate, 8_000);
    for button in MouseButton::ALL {
        assert_eq!(decoded.profile.action(button), profile.action(button));
    }
}

#[test]
fn damaged_profiles_are_refused() {
    let mut unknown_rate = stored_profile();
    unknown_rate[0] = 7;
    let error = decode_format_07_profile(&first_header(), &sector_of(unknown_rate), false, None).unwrap_err();
    assert_eq!(error.message(), "unknown onboard report-rate code 7");

    let mut split = stored_profile();
    split[6] = 0x21;
    let error = decode_format_07_profile(&first_header(), &sector_of(split), false, None).unwrap_err();
    assert_eq!(
        error.message(),
        "write verification failed: onboard profile slot 1 has separate x and y dpi values"
    );

    let mut empty = stored_profile();
    for stage in 0..5 {
        for byte in &mut empty[4 + stage * 5..8 + stage * 5] {
            *byte = 0;
        }
    }
    let error = decode_format_07_profile(&first_header(), &sector_of(empty), false, None).unwrap_err();
    assert_eq!(error.message(), "write verification failed: onboard profile slot 1 contains no dpi points");
}

#[test]
fn sectors_give_back_their_bytes() {
    let bytes = stored_profile();
    assert_eq!(onboard_sector_bytes(&sector_of(bytes.clone())).unwrap(), bytes);
    let mut short = sector_of(bytes.clone());
    short.size = 80;
    assert_eq!(
        onboard_sector_bytes(&short).unwrap_err().message(),
        "write verification failed: onboard sector 0x0001 has 70 bytes instead of 80"
    );
    let mut garbled = sector_of(bytes);
    garbled.data_hex = "0G".to_owned();
    assert_eq!(
        onboard_sector_bytes(&garbled).unwrap_err().message(),
        "cannot decode onboard sector: Invalid character 'G' at position 1"
    );
    assert!(set_onboard_crc(&mut vec![1]).is_err());
}

#[test]
fn buttons_are_encoded_and_decoded() {
    let actions = [
        ButtonAction::PrimaryClick,
        ButtonAction::SecondaryClick,
        ButtonAction::MiddleClick,
        ButtonAction::Back,
        ButtonAction::Forward,
        ButtonAction::DpiUp,
        ButtonAction::DpiDown,
        ButtonAction::DpiCycle,
        ButtonAction::DpiShift,
        ButtonAction::Disabled,
    ];
    for action in actions {
        let record = encode_format_07_button(&action).unwrap().unwrap();
        assert_eq!(decode_format_07_button(&record), action);
    }
    assert_eq!(
        decode_format_07_button(&[0x80, 0x02, 0x00, 0x2c]),
        ButtonAction::OnboardRaw("8002002C".to_owned())
    );
    assert_eq!(encode_format_07_button(&ButtonAction::OnboardRaw("8002002C".to_owned())).unwrap(), None);
    assert_eq!(
        encode_format_07_button(&ButtonAction::Keystroke("a".to_owned())).unwrap_err().message(),
        "invalid value: free-form keys cannot be stored onboard yet"
    );
    assert_eq!(
        encode_format_07_button(&ButtonAction::Macro("a".to_owned())).unwrap_err().message(),
        "invalid value: macros cannot be stored onboard yet"
    );
}

#[test]
fn profiles_are_checked_before_they_are_stored() {
    let cases = [
        (Profile { dpi_points: vec![], ..Profile::default() }, "onboard profiles require one to five dpi points"),
        (Profile { active_dpi: 9, ..Profile::default() }, "onboard dpi indexes are invalid"),
        (Profile { shift_dpi: Some(9), ..Profile::default() }, "onboard dpi indexes are invalid"),
        (
            Profile { dpi_points: vec![0], active_dpi: 0, shift_dpi: None, ..Profile::default() },
            "onboard dpi points contain an invalid value",
        ),
        (
            Profile { report_rate: 333, ..Profile::default() },
            "333 Hz is not supported by format 0x07 onboard profiles",
        ),
    ];
    for (profile, message) in cases {
        let error = validate_profile_for_onboard(&profile).unwrap_err();
        assert_eq!(error.message(), format!("invalid value: {message}"));
    }
    let mut short = vec![0; 69];
    assert_eq!(
        encode_format_07_profile(&mut short, &Profile::default()).unwrap_err().message(),
        "write verification failed: onboard profile sector is truncated"
    );
}

fn memory_info() -> OnboardInfo {
    decode_onboard_info(&[1, 7, 1, 5, 1, 5, 16, 0, 255, 0x0a, 0x01, 1, 2, 3, 4, 5]).unwrap()
}

#[test]
fn memory_is_described() {
    let info = memory_info();
    assert_eq!((info.memory_model, info.profile_format, info.profile_count), (1, 7, 5));
    assert_eq!((info.sector_count, info.sector_size), (16, 255));
    assert_eq!(info.reserved_hex, "0102030405");
    assert_eq!(info.raw_hex, "0107010501051000FF0A010102030405");
    assert_eq!(
        decode_onboard_info(&[1, 7]).unwrap_err().message(),
        "ONBOARD_PROFILES.GetInfo returned 2 bytes; expected 16"
    );
    assert!(validate_format_07(&info).is_ok());
    let foreign = OnboardInfo { profile_format: 2, ..info };
    assert_eq!(
        validate_format_07(&foreign).unwrap_err().message(),
        "invalid value: onboard profile format 0x02 with memory model 0x01 is not supported for profile editing"
    );
}

#[test]
fn sensitivities_are_decoded() {
    assert_eq!(decode_dpi_list(&[0x03, 0x20, 0x01, 0x90, 0x03, 0x20]).unwrap(), [400, 800]);
    assert_eq!(
        decode_dpi_list(&[0x00, 0x64, 0xe0, 0x00, 0x01, 0x2c]).unwrap_err().message(),
        "invalid encoded DPI range"
    );
    assert_eq!(
        decode_dpi_list(&[0x00, 0x64, 0xe0, 0x32, 0x00, 0x6e]).unwrap_err().message(),
        "DPI range maximum precedes its minimum"
    );
    let dpi = decode_extended_dpi(&[0, 0x03, 0x20, 0, 0, 0, 0, 0x06, 0x40, 2]).unwrap();
    assert_eq!((dpi.x, dpi.y, dpi.lift_off_distance), (800, 1_600, Some(2)));
    let dpi = decode_extended_dpi(&[0, 0, 0, 0x03, 0x20, 0, 0, 0, 0, 1]).unwrap();
    assert_eq!((dpi.x, dpi.y), (800, 800));
    assert_eq!(
        decode_extended_dpi(&[0; 9]).unwrap_err().message(),
        "EXTENDED_ADJUSTABLE_DPI current value is truncated"
    );
    let dpi = decode_plain_dpi(&[0, 0, 0, 0x06, 0x40]).unwrap();
    assert_eq!((dpi.x, dpi.y, dpi.lift_off_distance), (1_600, 1_600, None));
    assert!(decode_plain_dpi(&[0; 4]).is_err());
    assert!(validate_choice("X DPI", 800, &[400, 800]).is_ok());
    assert_eq!(
        validate_choice("X DPI", 850, &[400, 800]).unwrap_err().message(),
        "invalid value: X DPI 850 is unsupported; device range is 400-800 and values are not silently clamped"
    );
}

#[test]
fn rates_are_decoded() {
    assert_eq!(decode_extended_rates("R", &[0, 0b0101_1000]).unwrap().rates_hz, [1_000, 2_000, 8_000]);
    assert_eq!(
        decode_extended_rates("R", &[0]).unwrap_err().message(),
        "extended report-rate capabilities are truncated"
    );
    assert_eq!(decode_plain_rates("R", &[0b1000_1011]).unwrap().rates_hz, [1_000, 500, 250, 125]);
    assert!(decode_plain_rates("R", &[]).is_err());
    assert_eq!(decode_extended_rate(&[6]).unwrap(), RateState { hz: 8_000, interval_microseconds: 125 });
    assert_eq!(decode_extended_rate(&[7]).unwrap_err().message(), "unknown extended report-rate code 7");
    assert_eq!(decode_extended_rate(&[]).unwrap_err().message(), "extended report rate is empty");
    assert_eq!(decode_plain_rate(&[3]).unwrap(), RateState { hz: 333, interval_microseconds: 3_000 });
    assert_eq!(decode_plain_rate(&[9]).unwrap_err().message(), "unknown report-rate interval 9 ms");
    assert_eq!(decode_plain_rate(&[]).unwrap_err().message(), "report rate is empty");
    assert_eq!(code_of_rate(4_000), Some(5));
    assert_eq!(code_of_rate(333), None);
}

#[test]
fn batteries_are_decoded() {
    let battery = decode_unified_battery("UNIFIED_BATTERY", &[49, 4, 0, 0]).unwrap();
    assert_eq!(battery.percentage, Some(49));
    assert_eq!(battery.approximate_level.as_deref(), Some("good"));
    assert_eq!(battery.status, "discharging");
    assert_eq!(battery.raw_hex, "31040000");
    assert_eq!(decode_unified_battery("U", &[0, 9, 1, 0]).unwrap().percentage, None);
    assert_eq!(decode_unified_battery("U", &[1]).unwrap_err().message(), "UNIFIED_BATTERY response is truncated");
    let battery = decode_status_battery("BATTERY_STATUS", &[80, 50, 1]).unwrap();
    assert_eq!((battery.percentage, battery.next_level), (Some(80), Some(50)));
    assert_eq!(battery.status, "recharging");
    assert!(decode_status_battery("B", &[1, 2]).is_err());
    let battery = decode_voltage_battery("BATTERY_VOLTAGE", &[0x0e, 0xe3, 0x80]).unwrap();
    assert_eq!((battery.voltage_mv, battery.percentage), (Some(3_811), Some(50)));
    assert_eq!(battery.status, "charging");
    assert!(decode_voltage_battery("V", &[0]).is_err());
    assert_eq!(battery_status(6), "thermal-error");
    assert_eq!(battery_status(7), "unknown");
}

#[test]
fn charge_grows_with_voltage() {
    assert_eq!(estimate_battery_percentage(3_499), None);
    assert_eq!(estimate_battery_percentage(3_500), Some(0));
    assert_eq!(estimate_battery_percentage(3_608), Some(5));
    assert_eq!(estimate_battery_percentage(4_186), Some(100));
    assert_eq!(estimate_battery_percentage(4_386), Some(100));
    assert_eq!(estimate_battery_percentage(4_387), None);
    let mut last = 0;
    for voltage in 3_500..=4_386 {
        let charge = estimate_battery_percentage(voltage).unwrap();
        assert!(charge >= last);
        last = charge;
    }
}

#[test]
fn programs_are_decoded() {
    let firmware = decode_firmware(0, &[0, b'M', b'P', b'M', 0x12, 0x03, 0x00, 0x2a, 0, 0xab, 0]).unwrap();
    assert_eq!(firmware.kind, "firmware");
    assert_eq!(firmware.name.as_deref(), Some("MPM"));
    assert_eq!(firmware.version.as_deref(), Some("12.03.B002A"));
    assert_eq!(firmware.extra_hex.as_deref(), Some("AB"));
    let bootloader = decode_firmware(1, &[1, b'B', 0, 0, 1, 2, 0, 0]).unwrap();
    assert_eq!(bootloader.kind, "bootloader");
    assert_eq!(bootloader.name.as_deref(), Some("B"));
    assert_eq!(bootloader.version.as_deref(), Some("01.02"));
    let hardware = decode_firmware(2, &[2, 7]).unwrap();
    assert_eq!((hardware.kind.as_str(), hardware.version.as_deref()), ("hardware", Some("7")));
    let other = decode_firmware(3, &[5, 9]).unwrap();
    assert_eq!((other.kind.as_str(), other.extra_hex.as_deref()), ("other-5", Some("0509")));
    assert_eq!(decode_firmware(4, &[0]).unwrap_err().message(), "firmware record 4 is truncated");
    let lossy = decode_firmware(0, &[0, 0xff, b'A', 0, 1, 2, 0, 0]).unwrap();
    assert_eq!(lossy.name.as_deref(), Some("\u{fffd}A"));
    assert_eq!(firmware_with_name(&[0, 0, 0, 0, 1, 2, 0, 0], "N").name.as_deref(), Some("N"));
}

#[test]
fn identities_are_decoded() {
    let ids = decode_device_ids(&[2, 0x0a, 0x0b, 0x0c, 0x0d, 0, 0x06, 0xb0, 0x25, 0x40, 0x93, 0, 0]);
    assert_eq!(ids.unit_id.as_deref(), Some("0A0B0C0D"));
    assert_eq!(ids.model_id.as_deref(), Some("B02540930000"));
    let transports: Vec<(&str, &str)> =
        ids.transport_ids.iter().map(|id| (id.transport.as_str(), id.id.as_str())).collect();
    assert_eq!(transports, [("bluetooth-le", "B025"), ("wireless", "4093")]);
    assert!(decode_device_ids(&[2, 1]).unit_id.is_none());
}

#[test]
fn device_names_are_text() {
    assert_eq!(device_name_from("PRO X 2".as_bytes().to_vec()).unwrap(), "PRO X 2");
    assert_eq!(
        device_name_from(vec![b'P', 0xff, b'X']).unwrap_err().message(),
        "device name is not UTF-8: invalid utf-8 sequence of 1 bytes from index 1"
    );
    assert_eq!(
        device_name_from(vec![b'P', 0xc3]).unwrap_err().message(),
        "device name is not UTF-8: incomplete utf-8 byte sequence from index 1"
    );
}

#[test]
fn failed_writes_say_whether_they_were_undone() {
    let failure = write_failure_with_rollback(AppError::Other("broken".to_owned()), Ok(()));
    assert_eq!(failure.message(), "broken; the original onboard data was restored");
    let failure = write_failure_with_rollback(
        AppError::Other("broken".to_owned()),
        Err(AppError::Other("gone".to_owned())),
    );
    assert_eq!(failure.message(), "broken; restoring the original onboard data also failed: gone");
}
