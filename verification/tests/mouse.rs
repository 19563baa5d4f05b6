use std::cell::RefCell;
use std::collections::VecDeque;

use open_mouse_memory::command::{choose_device, choose_endpoint, execute, Command, RawCommand, Report};
use open_mouse_memory::device::discovery::{
    begin_discovery, finish_discovery, note_open_failure, probe_candidates, probe_endpoint,
};
use open_mouse_memory::device::{
    dpi_capabilities, rate_capabilities, read_battery, read_device_name, read_dpi, read_firmware, read_identity,
    read_onboard_backup, read_onboard_info, read_onboard_profile_headers, read_onboard_profiles, read_onboard_sector,
    read_onboard_status, read_rate, select_device, set_dpi, set_onboard_active_profile,
    set_onboard_current_dpi_index, set_onboard_mode, set_rate, verify_onboard_sector_write, write_onboard_profile,
    DiscoveryOutcome, LogicalDevice,
};
use open_mouse_memory::device::format07::{encode_format_07_profile, set_onboard_crc};
use open_mouse_memory::error::{AppError, Result};
use open_mouse_memory::hid::transport::HidIo;
use open_mouse_memory::hid::{Bus, HidCollection, HidEndpoint, HidRecord, LOGITECH_VENDOR_ID};
use open_mouse_memory::hidpp::features::{lookup_feature, FeatureTable, ONBOARD_PROFILES};
use open_mouse_memory::hidpp::protocol::{HidppTransport, ProtocolVersion, SoftwareIds};
use open_mouse_memory::profile::{ButtonAction, MouseButton, Profile};
use open_mouse_memory::report::{describe, describe_discovery, probe_notes};
use open_mouse_memory::snapshot::{refresh_device_status, save_onboard_profile, snapshot_from};

const SECTOR: usize = 255;
const FEATURES: [u16; 8] = [0x0000, 0x0001, 0x0003, 0x0005, 0x1004, 0x2202, 0x8061, 0x8100];
const NAME: &str = "PRO X SUPERLIGHT 2";

/// A mouse with five sectors of memory and two profiles.
struct Mouse {
    index: u8,
    mode: u8,
    active: u16,
    stage: u8,
    dpi: u16,
    rate: u8,
    sectors: Vec<Vec<u8>>,
    write: Option<(usize, Vec<u8>)>,
    /// Sectors whose writes are damaged, so many times.
    damage: Vec<(usize, usize)>,
    /// Whether the mouse keeps its settings whatever it is told.
    stubborn: bool,
    requests: Vec<Vec<u8>>,
    replies: VecDeque<Vec<u8>>,
}

struct MouseIo(RefCell<Mouse>);

impl Mouse {
    fn new(index: u8) -> Self {
        let mut sectors = vec![vec![0xff; SECTOR]; 5];
        sectors[0][..12].copy_from_slice(&[0, 1, 1, 0, 0, 2, 0, 0, 0xff, 0xff, 0xff, 0xff]);
        for slot in 1..=2 {
            let profile = Profile { report_rate: 1_000 * slot as u32, ..Profile::default() };
            encode_format_07_profile(&mut sectors[slot], &profile).unwrap();
        }
        for sector in &mut sectors {
            set_onboard_crc(sector).unwrap();
        }
        Mouse {
            index,
            mode: 1,
            active: 1,
            stage: 0,
            dpi: 800,
            rate: 3,
            sectors,
            write: None,
            damage: Vec::new(),
            stubborn: false,
            requests: Vec::new(),
            replies: VecDeque::new(),
        }
    }

    fn handle(&mut self, request: &[u8]) {
        self.requests.push(request.to_vec());
        if request[1] != self.index {
            return;
        }
        let function = request[3] & 0xf0;
        let answer = self.answer(request[2], function, &request[4..]);
        let mut reply = match answer {
            Ok(data) => {
                let mut reply = vec![0x11, self.index, request[2], request[3]];
                reply.extend_from_slice(&data);
                reply
            }
            Err(code) => vec![0x11, self.index, 0xff, request[2], request[3], code],
        };
        reply.resize(20, 0);
        self.replies.push_back(vec![0x10, self.index, 0x41, 0, 0, 0, 0]);
        self.replies.push_back(reply);
    }

    fn answer(&mut self, feature: u8, function: u8, data: &[u8]) -> std::result::Result<Vec<u8>, u8> {
        match (FEATURES.get(feature as usize), function) {
            (Some(0x0000), 0x00) => {
                let id = u16::from_be_bytes([data[0], data[1]]);
                let index = FEATURES.iter().position(|feature| *feature == id).unwrap_or(0);
                Ok(vec![index as u8, 0, 1])
            }
            (Some(0x0000), 0x10) => Ok(vec![4, 2, data[2]]),
            (Some(0x0001), 0x00) => Ok(vec![FEATURES.len() as u8 - 1]),
            (Some(0x0001), 0x10) => {
                let [high, low] = FEATURES[data[0] as usize].to_be_bytes();
                Ok(vec![high, low, 0x40, 3])
            }
            (Some(0x0003), 0x00) => Ok(vec![1, 0xaa, 0xbb, 0xcc, 0xdd, 0, 0x04, 0x40, 0xa9, 0, 0, 0, 0]),
            (Some(0x0003), 0x10) => Ok(vec![0, b'M', b'P', b'M', 0x27, 0x02, 0, 0x15]),
            (Some(0x0005), 0x00) => Ok(vec![NAME.len() as u8]),
            (Some(0x0005), 0x10) => {
                let rest = &NAME.as_bytes()[data[0] as usize..];
                Ok(rest[..rest.len().min(16)].to_vec())
            }
            (Some(0x1004), 0x10) => Ok(vec![73, 4, 0, 0]),
            (Some(0x2202), 0x10) => Ok(vec![0, 5, 0x02]),
            (Some(0x2202), 0x20) => Ok(vec![0, 0, 0, 0x00, 0x64, 0xe0, 0x32, 0x0c, 0x80, 0, 0]),
            (Some(0x2202), 0x50) => {
                let [high, low] = self.dpi.to_be_bytes();
                Ok(vec![0, high, low, 0x03, 0x20, high, low, 0x03, 0x20, 1])
            }
            (Some(0x2202), 0x60) => {
                if !self.stubborn {
                    self.dpi = u16::from_be_bytes([data[1], data[2]]);
                }
                Ok(vec![])
            }
            (Some(0x8061), 0x10) => Ok(vec![0, 0b0111_1111]),
            (Some(0x8061), 0x20) => Ok(vec![self.rate]),
            (Some(0x8061), 0x30) => {
                if !self.stubborn {
                    self.rate = data[0];
                }
                Ok(vec![])
            }
            (Some(0x8100), function) => self.memory(function, data),
            _ => Err(7),
        }
    }

    fn memory(&mut self, function: u8, data: &[u8]) -> std::result::Result<Vec<u8>, u8> {
        match function {
            0x00 => Ok(vec![1, 7, 1, 2, 1, 5, 5, 0, SECTOR as u8, 0x0a, 1, 0, 0, 0, 0, 0]),
            0x10 => {
                if !self.stubborn {
                    self.mode = data[0];
                }
                Ok(vec![])
            }
            0x20 => Ok(vec![self.mode]),
            0x30 => {
                self.active = data[1] as u16;
                Ok(vec![])
            }
            0x40 => Ok(self.active.to_be_bytes().to_vec()),
            0x50 => {
                let sector = u16::from_be_bytes([data[0], data[1]]) as usize;
                let offset = u16::from_be_bytes([data[2], data[3]]) as usize;
                match self.sectors.get(sector) {
                    Some(bytes) if offset + 16 <= bytes.len() => Ok(bytes[offset..offset + 16].to_vec()),
                    _ => Err(3),
                }
            }
            0x60 => {
                self.write = Some((u16::from_be_bytes([data[0], data[1]]) as usize, Vec::new()));
                Ok(vec![])
            }
            0x70 => match &mut self.write {
                Some((_, bytes)) => {
                    bytes.extend_from_slice(&data[..16]);
                    Ok(vec![])
                }
                None => Err(2),
            },
            0x80 => {
                let Some((sector, mut bytes)) = self.write.take() else {
                    return Err(2);
                };
                bytes.truncate(SECTOR);
                for (damaged, times) in &mut self.damage {
                    if *damaged == sector && *times > 0 {
                        *times -= 1;
                        bytes[20] ^= 0x55;
                    }
                }
                self.sectors[sector] = bytes;
                Ok(vec![])
            }
            0xb0 => Ok(vec![self.stage]),
            0xc0 => {
                self.stage = data[0];
                Ok(vec![])
            }
            _ => Err(7),
        }
    }
}

impl HidIo for MouseIo {
    fn write_report(&self, data: &[u8]) -> Result<usize> {
        self.0.borrow_mut().handle(data);
        Ok(data.len())
    }

    fn read_report(&self, data: &mut [u8], timeout_ms: i32) -> Result<usize> {
        if timeout_ms == 1 {
            return Ok(0);
        }
        match self.0.borrow_mut().replies.pop_front() {
            Some(reply) => {
                data[..reply.len()].copy_from_slice(&reply);
                Ok(reply.len())
            }
            None => Ok(0),
        }
    }
}

fn connect(mouse: Mouse) -> (HidppTransport<MouseIo>, LogicalDevice) {
    let index = mouse.index;
    let mut transport = HidppTransport::new(MouseIo(RefCell::new(mouse)), index, 750, false, SoftwareIds::new());
    let features = FeatureTable::discover(&mut transport).unwrap();
    let device = LogicalDevice {
        endpoint: endpoint(),
        device_index: index,
        protocol: ProtocolVersion { major: 4, minor: 2 },
        name: NAME.to_owned(),
        features,
    };
    transport.io().0.borrow_mut().requests.clear();
    (transport, device)
}

fn endpoint() -> HidEndpoint {
    HidEndpoint {
        path: "/dev/hidraw5".to_owned(),
        vendor_id: LOGITECH_VENDOR_ID,
        product_id: 0xc54d,
        serial_number: Some("S123".to_owned()),
        manufacturer: Some("Logitech".to_owned()),
        product: Some("USB Receiver".to_owned()),
        usage_page: 0xff00,
        usage: 1,
        collections: vec![HidCollection { usage_page: 0xff00, usage: 1 }],
        interface_number: 2,
        bus_type: "usb".to_owned(),
    }
}

fn record(path: &str, product_id: u16, usage_page: u16, interface_number: i32) -> HidRecord {
    HidRecord {
        path: path.to_owned(),
        vendor_id: LOGITECH_VENDOR_ID,
        product_id,
        serial_number: None,
        manufacturer: None,
        product: None,
        collection: HidCollection { usage_page, usage: 1 },
        interface_number,
        bus: Bus::Usb,
    }
}

fn written_sectors(transport: &HidppTransport<MouseIo>) -> Vec<u8> {
    let mouse = transport.io().0.borrow();
    mouse.requests.iter().filter(|request| request[2] == 7 && request[3] & 0xf0 == 0x60).map(|request| request[5]).collect()
}

#[test]
fn features_are_listed() {
    let (mut transport, device) = connect(Mouse::new(1));
    assert_eq!(device.features.features.len(), 8);
    assert_eq!(device.features.require(ONBOARD_PROFILES).unwrap().index, 7);
    assert_eq!(device.features.features[5].name, "EXTENDED_ADJUSTABLE_DPI");
    assert!(device.features.get(0x1000).is_none());
    assert!(matches!(
        device.features.require(0x1000),
        Err(AppError::UnsupportedFeature { id: 0x1000, name: "BATTERY_STATUS" })
    ));
    assert_eq!(lookup_feature(&mut transport, 0x2202).unwrap().index, 5);
    assert!(FeatureTable::default().features.is_empty());
}

#[test]
fn device_is_read() {
    let (mut transport, device) = connect(Mouse::new(1));
    let features = &device.features;
    assert_eq!(read_device_name(&mut transport, features).unwrap(), NAME);
    assert_eq!(read_battery(&mut transport, features).unwrap().percentage, Some(73));
    let dpi = read_dpi(&mut transport, features).unwrap();
    assert_eq!((dpi.x, dpi.y, dpi.lift_off_distance), (800, 800, Some(1)));
    let capabilities = dpi_capabilities(&mut transport, features).unwrap();
    assert_eq!((capabilities.minimum, capabilities.maximum, capabilities.step), (100, 3_200, Some(50)));
    assert!(capabilities.lift_off_distance && !capabilities.separate_xy);
    assert_eq!(read_rate(&mut transport, features).unwrap().hz, 1_000);
    assert_eq!(rate_capabilities(&mut transport, features).unwrap().rates_hz.len(), 7);
    let firmware = read_firmware(&mut transport, features).unwrap();
    assert_eq!(firmware[0].version.as_deref(), Some("27.02.B0015"));
    let identity = read_identity(&mut transport, &device).unwrap();
    assert_eq!(identity.unit_id.as_deref(), Some("AABBCCDD"));
    assert_eq!(identity.serial.as_deref(), Some("AABBCCDD"));
    assert_eq!(identity.receiver.pid, "c54d");
    assert_eq!(identity.transport_ids[0].transport, "wireless");
    assert_eq!(identity.profile_format, Some(7));
}

#[test]
fn sensitivity_is_set_in_host_mode_only() {
    let (mut transport, device) = connect(Mouse::new(1));
    let error = set_dpi(&mut transport, &device.features, 1_600, None).unwrap_err();
    assert_eq!(
        error.message(),
        "invalid value: an onboard profile currently controls DPI; run 'open-mouse-memory onboard disable' explicitly first"
    );
    assert_eq!(transport.io().0.borrow().dpi, 800);
    set_onboard_mode(&mut transport, &device.features, false).unwrap();
    assert_eq!(set_dpi(&mut transport, &device.features, 1_600, None).unwrap().x, 1_600);
    assert!(set_dpi(&mut transport, &device.features, 1_601, None).is_err());
    assert_eq!(
        set_dpi(&mut transport, &device.features, 800, Some(400)).unwrap_err().message(),
        "invalid value: device does not advertise separate X/Y DPI"
    );
    transport.io().0.borrow_mut().stubborn = true;
    assert_eq!(
        set_dpi(&mut transport, &device.features, 400, None).unwrap_err().message(),
        "write verification failed: requested 400x400 DPI but device reports 1600x1600; disable onboard mode first if a profile controls DPI"
    );
}

#[test]
fn rate_is_set_in_host_mode_only() {
    let (mut transport, device) = connect(Mouse::new(1));
    assert!(matches!(set_rate(&mut transport, &device.features, 8_000), Err(AppError::Validation(_))));
    set_onboard_mode(&mut transport, &device.features, false).unwrap();
    assert_eq!(set_rate(&mut transport, &device.features, 8_000).unwrap().interval_microseconds, 125);
    assert_eq!(
        set_rate(&mut transport, &device.features, 333).unwrap_err().message(),
        "invalid value: 333 Hz is unsupported; supported values: 125, 250, 500, 1000, 2000, 4000, 8000"
    );
    transport.io().0.borrow_mut().stubborn = true;
    assert!(matches!(set_rate(&mut transport, &device.features, 500), Err(AppError::Verification(_))));
    assert_eq!(
        set_onboard_mode(&mut transport, &device.features, true).unwrap_err().message(),
        "write verification failed: requested mode 0x01 but device reports 0x02"
    );
}

#[test]
fn memory_is_read() {
    let (mut transport, device) = connect(Mouse::new(1));
    let features = &device.features;
    let info = read_onboard_info(&mut transport, features).unwrap();
    assert_eq!((info.sector_count, info.sector_size), (5, 255));
    let status = read_onboard_status(&mut transport, features).unwrap();
    assert_eq!((status.mode.as_str(), status.active_sector), ("onboard", Some(1)));
    let headers = read_onboard_profile_headers(&mut transport, features).unwrap();
    assert_eq!(headers.len(), 2);
    assert!(!headers[1].enabled);
    let sector = read_onboard_sector(&mut transport, features, 2, 255).unwrap();
    assert!(sector.crc_valid);
    assert_eq!(sector.data_hex.len(), 510);
    assert!(read_onboard_sector(&mut transport, features, 2, 15).is_err());
    assert!(matches!(
        read_onboard_sector(&mut transport, features, 9, 255),
        Err(AppError::Protocol { code: 3, name: "OUT_OF_RANGE", .. })
    ));
    let profiles = read_onboard_profiles(&mut transport, features).unwrap();
    assert_eq!(profiles.len(), 2);
    assert!(profiles[0].active && !profiles[1].active);
    assert_eq!(profiles[1].profile.report_rate, 2_000);
    let backup = read_onboard_backup(&mut transport, &device).unwrap();
    assert_eq!((backup.schema_version, backup.sectors.len(), backup.profiles.len()), (1, 5, 2));
    for (place, sector) in backup.sectors.iter().enumerate() {
        assert_eq!((usize::from(sector.sector), sector.size), (place, backup.info.sector_size));
    }
    transport.io().0.borrow_mut().sectors[2][30] ^= 1;
    assert_eq!(
        read_onboard_profiles(&mut transport, features).unwrap_err().message(),
        "write verification failed: onboard profile slot 2 has an invalid checksum"
    );
    assert!(written_sectors(&transport).is_empty());
}

fn changed_profile() -> Profile {
    let mut profile = Profile::default();
    profile.dpi_points = vec![400, 1_600, 3_200];
    profile.active_dpi = 2;
    profile.shift_dpi = Some(0);
    profile.report_rate = 8_000;
    profile.assign(MouseButton::Back, ButtonAction::DpiCycle);
    profile
}

#[test]
fn stored_profile_is_there() {
    let (mut transport, device) = connect(Mouse::new(1));
    let profile = changed_profile();
    let written = write_onboard_profile(&mut transport, &device.features, 2, &profile).unwrap();
    assert_eq!((written.slot, written.sector), (2, 2));
    assert!(written.profile_written && written.directory_written && written.crc_valid);
    assert_eq!(written_sectors(&transport), [2, 0]);
    let profiles = read_onboard_profiles(&mut transport, &device.features).unwrap();
    assert!(profiles[1].enabled);
    assert_eq!(profiles[1].profile.dpi_points, profile.dpi_points);
    assert_eq!(profiles[1].profile.active_dpi, 2);
    assert_eq!(profiles[1].profile.action(MouseButton::Back), &ButtonAction::DpiCycle);
    let again = write_onboard_profile(&mut transport, &device.features, 2, &profile).unwrap();
    assert!(!again.profile_written && !again.directory_written);
    assert_eq!(written_sectors(&transport), [2, 0]);
}

#[test]
fn failed_profile_write_is_undone() {
    let (mut transport, device) = connect(Mouse::new(1));
    let before = transport.io().0.borrow().sectors.clone();
    transport.io().0.borrow_mut().damage = vec![(1, 1)];
    let error = write_onboard_profile(&mut transport, &device.features, 1, &changed_profile()).unwrap_err();
    assert_eq!(
        error.message(),
        "write verification failed: onboard sector 0x0001 failed readback verification; the original onboard data was restored"
    );
    assert_eq!(transport.io().0.borrow().sectors, before);
}

#[test]
fn failed_directory_write_is_undone() {
    let (mut transport, device) = connect(Mouse::new(1));
    let before = transport.io().0.borrow().sectors.clone();
    transport.io().0.borrow_mut().damage = vec![(0, 1)];
    let error = write_onboard_profile(&mut transport, &device.features, 2, &changed_profile()).unwrap_err();
    assert!(error.message().ends_with("; the original onboard data was restored"));
    assert_eq!(written_sectors(&transport), [2, 0, 0, 2]);
    assert_eq!(transport.io().0.borrow().sectors, before);
}

#[test]
fn failed_rollback_is_told() {
    let (mut transport, device) = connect(Mouse::new(1));
    transport.io().0.borrow_mut().damage = vec![(1, 2)];
    let error = write_onboard_profile(&mut transport, &device.features, 1, &changed_profile()).unwrap_err();
    assert!(error.message().contains("; restoring the original onboard data also failed: "));
}

#[test]
fn profile_writes_are_refused_without_traffic_to_memory() {
    let (mut transport, device) = connect(Mouse::new(1));
    let error = write_onboard_profile(&mut transport, &device.features, 3, &changed_profile()).unwrap_err();
    assert_eq!(error.message(), "invalid value: onboard profile slot 3 does not exist");
    let odd = Profile { report_rate: 333, ..Profile::default() };
    assert!(matches!(
        write_onboard_profile(&mut transport, &device.features, 1, &odd),
        Err(AppError::Validation(_))
    ));
    let mut keys = Profile::default();
    keys.assign(MouseButton::Back, ButtonAction::Keystroke("a".to_owned()));
    assert!(matches!(
        write_onboard_profile(&mut transport, &device.features, 1, &keys),
        Err(AppError::Validation(_))
    ));
    transport.io().0.borrow_mut().sectors[1][40] ^= 1;
    let error = write_onboard_profile(&mut transport, &device.features, 1, &changed_profile()).unwrap_err();
    assert_eq!(
        error.message(),
        "write verification failed: onboard memory has an invalid checksum and will not be written"
    );
    transport.io().0.borrow_mut().sectors[0][1] = 9;
    let error = write_onboard_profile(&mut transport, &device.features, 1, &changed_profile()).unwrap_err();
    assert_eq!(
        error.message(),
        "write verification failed: onboard profile slot 1 points outside memory at sector 0x0009"
    );
    assert!(written_sectors(&transport).is_empty());
}

#[test]
fn sectors_are_rewritten_unchanged() {
    let (mut transport, device) = connect(Mouse::new(1));
    let before = transport.io().0.borrow().sectors.clone();
    let verified = verify_onboard_sector_write(&mut transport, &device.features, 2).unwrap();
    assert!(verified.crc_valid);
    assert_eq!(written_sectors(&transport), [2]);
    assert_eq!(transport.io().0.borrow().sectors, before);
    assert_eq!(
        verify_onboard_sector_write(&mut transport, &device.features, 5).unwrap_err().message(),
        "invalid value: sector 0x0005 is outside onboard memory"
    );
    transport.io().0.borrow_mut().sectors[3][0] = 1;
    assert_eq!(
        verify_onboard_sector_write(&mut transport, &device.features, 3).unwrap_err().message(),
        "write verification failed: onboard sector 0x0003 has an invalid checksum"
    );
}

#[test]
fn slots_and_stages_are_chosen() {
    let (mut transport, device) = connect(Mouse::new(1));
    assert_eq!(
        set_onboard_active_profile(&mut transport, &device.features, 2).unwrap_err().message(),
        "invalid value: onboard profile slot 2 is not enabled"
    );
    assert_eq!(set_onboard_active_profile(&mut transport, &device.features, 1).unwrap().active_sector, Some(1));
    transport.io().0.borrow_mut().mode = 2;
    assert_eq!(
        set_onboard_active_profile(&mut transport, &device.features, 1).unwrap_err().message(),
        "write verification failed: requested onboard profile slot 1 but active sector is None"
    );
    assert_eq!(set_onboard_current_dpi_index(&mut transport, &device.features, 4).unwrap(), 4);
    assert_eq!(
        set_onboard_current_dpi_index(&mut transport, &device.features, 5).unwrap_err().message(),
        "invalid value: onboard dpi index 5 is outside the five available stages"
    );
}

fn search(mouse: Mouse) -> DiscoveryOutcome {
    let mut discovery = begin_discovery(&vec![
        record("/dev/hidraw5", 0xc54d, 0xff00, 2),
        record("/dev/hidraw6", 0x1111, 1, 0),
    ]);
    let candidates = probe_candidates(&discovery.endpoints);
    assert_eq!(candidates.len(), 1);
    let mut transport = HidppTransport::new(MouseIo(RefCell::new(mouse)), 1, 10, false, SoftwareIds::new());
    for candidate in &candidates {
        probe_endpoint(&mut transport, candidate, &mut discovery);
    }
    finish_discovery(&mut discovery);
    discovery
}

#[test]
fn devices_are_discovered() {
    let discovery = search(Mouse::new(1));
    assert_eq!(discovery.endpoints.len(), 2);
    assert_eq!(discovery.devices.len(), 1);
    assert_eq!(discovery.devices[0].name, NAME);
    assert_eq!(discovery.devices[0].device_index, 1);
    let lines = describe_discovery(&discovery);
    assert_eq!(lines[0], "Logical devices");
    assert_eq!(lines[1], "1  PRO X SUPERLIGHT 2  HID++ 4.2  receiver 046D:C54D  index 0x01  /dev/hidraw5");
    assert_eq!(lines[2], "");
    assert_eq!(lines[3], "Logitech HID interfaces");
    assert_eq!(lines[5], "046D:1111          0  0x0001      0x0001  /dev/hidraw6     unknown");
    assert_eq!(lines[6], "046D:C54D          2  0xFF00      0x0001  /dev/hidraw5     unknown");
    assert!(probe_notes(&discovery).is_empty());
    let device = choose_device(&discovery, Some("superlight")).unwrap();
    assert_eq!(device.name, NAME);
    assert_eq!(choose_device(&discovery, Some("1")).unwrap().name, NAME);
    assert!(matches!(choose_device(&discovery, Some("2")), Err(AppError::DeviceNotFound(_))));
    assert_eq!(choose_endpoint(&discovery, None, Some("/dev/hidraw6")).unwrap().product_id, 0x1111);
    assert_eq!(choose_endpoint(&discovery, None, None).unwrap().product_id, 0xc54d);
    assert!(matches!(choose_endpoint(&discovery, None, Some("x")), Err(AppError::DeviceNotFound(_))));
}

#[test]
fn silent_receivers_have_no_device() {
    let mut discovery = search(Mouse::new(3));
    assert!(discovery.devices.is_empty());
    assert!(matches!(choose_device(&discovery, None), Err(AppError::NoDevice)));
    assert_eq!(describe_discovery(&discovery)[0], "No responsive HID++ 2.x logical devices found.");
    assert!(probe_notes(&discovery).is_empty());
    note_open_failure(&mut discovery, AppError::PermissionDenied { path: "/dev/hidraw5".to_owned() });
    note_open_failure(&mut discovery, AppError::Other("odd".to_owned()));
    assert_eq!(discovery.permission_denied_paths, ["/dev/hidraw5"]);
    assert!(matches!(choose_device(&discovery, None), Err(AppError::PermissionDenied { .. })));
    let notes = probe_notes(&discovery);
    assert_eq!(notes[0], "Probe notes:");
    assert_eq!(notes[2], "  odd");
}

#[test]
fn devices_are_selected() {
    let (_, device) = connect(Mouse::new(1));
    let mut other = device.clone();
    other.name = "G502".to_owned();
    other.endpoint.path = "/dev/hidraw9".to_owned();
    other.endpoint.serial_number = Some("T9".to_owned());
    let devices = vec![other, device];
    assert!(matches!(select_device(&[], None), Err(AppError::NoDevice)));
    assert!(matches!(select_device(&devices, None), Err(AppError::AmbiguousDevice(_))));
    assert_eq!(select_device(&devices, Some("2")).unwrap().name, NAME);
    assert_eq!(select_device(&devices, Some("g5")).unwrap().name, "G502");
    assert_eq!(select_device(&devices, Some("/DEV/hidraw9")).unwrap().name, "G502");
    assert_eq!(select_device(&devices, Some("t9")).unwrap().name, "G502");
    assert!(matches!(select_device(&devices, Some("x9")), Err(AppError::DeviceNotFound(_))));
    assert!(matches!(select_device(&devices, Some("p")), Ok(_)));
    assert!(matches!(select_device(&devices, Some("")), Err(AppError::AmbiguousDevice(_))));
}

fn lines_of(command: Command) -> Vec<String> {
    let (mut transport, device) = connect(Mouse::new(1));
    describe(&execute(&mut transport, &device, &command).unwrap())
}

#[test]
fn commands_are_reported() {
    assert_eq!(lines_of(Command::Battery { details: false }), ["73%"]);
    assert_eq!(
        lines_of(Command::Battery { details: true }),
        [
            "Level: 73%",
            "Status: discharging",
            "Source: UNIFIED_BATTERY",
            "Raw: 49 04 00 00 00 00 00 00 00 00 00 00 00 00 00 00",
        ]
    );
    assert_eq!(lines_of(Command::DpiGet), ["X: 800 DPI", "Y: 800 DPI", "Lift-off distance code: 1"]);
    assert_eq!(
        lines_of(Command::DpiCapabilities),
        [
            "Minimum: 100 DPI",
            "Maximum: 3200 DPI",
            "Step: 50 DPI",
            "Separate X/Y: no",
            "Lift-off distance: yes",
            "Values: 100-3200 (step 50)",
        ]
    );
    assert_eq!(lines_of(Command::RateGet), ["1000 Hz (1000 us)"]);
    assert_eq!(lines_of(Command::RateCapabilities)[6], "8000 Hz");
    assert_eq!(lines_of(Command::OnboardStatus), ["Mode: onboard", "Active profile sector: 0x0001"]);
    assert_eq!(lines_of(Command::OnboardMode { onboard: false }), ["Mode: host"]);
    let info = lines_of(Command::OnboardInfo { raw: true });
    assert_eq!(info[0], "Memory model:      0x01");
    assert_eq!(info[7], "Sector size:       255");
    assert_eq!(info[11], "Raw:               01 07 01 02 01 05 05 00 FF 0A 01 00 00 00 00 00");
    assert_eq!(lines_of(Command::DeviceFirmware), ["firmware: MPM 27.02.B0015"]);
    let features = lines_of(Command::DeviceFeatures);
    assert_eq!(features[0], "Index  Feature  Version  Type  Name");
    assert_eq!(features[8], "0x07  0x8100     3      0x40  ONBOARD_PROFILES");
    assert_eq!(
        lines_of(Command::HidppFeatures)[7],
        "index=0x07 id=0x8100 version=3 type=0x40 ONBOARD_PROFILES"
    );
    assert_eq!(
        lines_of(Command::DeviceInfo),
        [
            "Name: PRO X SUPERLIGHT 2",
            "HID++: 4.2",
            "Receiver: 046d:c54d",
            "Receiver serial: S123",
            "Path: /dev/hidraw5",
            "Device index: 0x01",
            "Unit ID: AABBCCDD",
            "Profile format: 0x07",
        ]
    );
}

#[test]
fn memory_commands_are_reported() {
    let list = lines_of(Command::ProfilesList);
    assert_eq!(list[0], "Profile format: 0x07");
    assert_eq!(
        list[1],
        "Slot 1  sector 0x0001  active    1000 Hz  DPI [400, 800, 1600, 3200]  CRC valid"
    );
    assert_eq!(list[2], "  Primary: Primary Click");
    assert!(list[7].starts_with("Slot 2  sector 0x0002  disabled  2000 Hz  DPI ["));
    let dump = lines_of(Command::ProfilesDump { sector: 1 });
    assert_eq!(dump[0], "Sector:       0x0001");
    assert_eq!(dump[1], "Size:         255 bytes");
    assert_eq!(dump[4], "CRC valid:    true");
    assert_eq!(lines_of(Command::ProfilesActivate { slot: 1 })[0], "Mode: onboard");
    assert_eq!(lines_of(Command::ProfilesStage { stage: 5 }), ["Current onboard DPI stage: 5"]);
    assert_eq!(
        lines_of(Command::ProfilesSetRate { slot: 1, hz: 4_000 }),
        ["Saved 4000 Hz to onboard profile slot 1 in sector 0x0001"]
    );
    assert!(lines_of(Command::ProfilesVerifyWrite { sector: 2 })[0]
        .starts_with("Sector 0x0002 was rewritten unchanged and verified with CRC 0x"));
    assert!(lines_of(Command::ProfilesBackup).is_empty());
    let (mut transport, device) = connect(Mouse::new(1));
    let error = execute(&mut transport, &device, &Command::ProfilesDump { sector: 5 }).unwrap_err();
    assert_eq!(error.message(), "invalid value: sector 0x0005 is outside the device range 0x0000-0x0004");
    let error = execute(&mut transport, &device, &Command::ProfilesStage { stage: 6 }).unwrap_err();
    assert_eq!(error.message(), "invalid value: onboard stage must be between 1 and 5");
    let command = Command::ProfilesSetRate { slot: 4, hz: 1_000 };
    let error = execute(&mut transport, &device, &command).unwrap_err();
    assert_eq!(error.message(), "invalid value: onboard profile slot 4 does not exist");
}

fn raw(function: u8, read_only: bool, dangerous_write: bool) -> Command {
    Command::Raw(RawCommand {
        feature: ONBOARD_PROFILES,
        function,
        data: "00 01".to_owned(),
        read_only,
        dangerous_write,
    })
}

#[test]
fn raw_calls_are_guarded() {
    let (mut transport, device) = connect(Mouse::new(1));
    for command in [raw(0x20, true, true), raw(0x20, false, false)] {
        assert!(matches!(execute(&mut transport, &device, &command), Err(AppError::Unsafe(_))));
    }
    for function in [0x60, 0x70, 0x80] {
        assert!(matches!(
            execute(&mut transport, &device, &raw(function, false, true)),
            Err(AppError::Unsafe(_))
        ));
    }
    assert!(transport.io().0.borrow().requests.is_empty());
    let report = execute(&mut transport, &device, &raw(0x20, true, false)).unwrap();
    assert_eq!(
        describe(&report),
        [
            "Feature: 0x8100 ONBOARD_PROFILES (index 0x07)",
            "Function: 0x20",
            "Response: 01 00 00 00 00 00 00 00 00 00 00 00 00 00 00 00",
        ]
    );
    let Report::Raw(reply) = report else {
        panic!("no reply");
    };
    assert_eq!(reply.request, [0, 1]);
    let garbled = Command::Raw(RawCommand {
        feature: ONBOARD_PROFILES,
        function: 0x20,
        data: "0".to_owned(),
        read_only: true,
        dangerous_write: false,
    });
    let error = execute(&mut transport, &device, &garbled).unwrap_err();
    assert_eq!(error.message(), "invalid value: Odd number of digits");
}

#[test]
fn snapshots_are_taken_and_brought_up_to_date() {
    let (mut transport, device) = connect(Mouse::new(1));
    let snapshot = snapshot_from(&mut transport, &device);
    assert_eq!(snapshot.name, NAME);
    assert_eq!((snapshot.battery, snapshot.dpi, snapshot.report_rate), (Some(73), Some(800), Some(1_000)));
    assert_eq!((snapshot.dpi_min, snapshot.dpi_max, snapshot.dpi_step), (100, 3_200, 50));
    assert_eq!(snapshot.onboard, Some(true));
    let library = snapshot.onboard_profiles.as_ref().unwrap();
    assert_eq!((library.profiles.len(), library.selected), (2, 0));

    transport.io().0.borrow_mut().dpi = 1_200;
    let refreshed = refresh_device_status(&mut transport, &device, snapshot.clone());
    assert_eq!(refreshed.dpi, Some(1_200));
    assert!(refreshed.onboard_profiles.is_some());
    let mut foreign = snapshot;
    foreign.name = "G502".to_owned();
    assert_eq!(refresh_device_status(&mut transport, &device, foreign).name, NAME);

    let saved = save_onboard_profile(&mut transport, &device, 2, &changed_profile()).unwrap();
    assert_eq!(saved.onboard, Some(true));
    assert_eq!(saved.onboard_profiles.unwrap().selected, 1);
    assert_eq!(transport.io().0.borrow().stage, 2);
}

#[test]
fn snapshot_leaves_open_what_cannot_be_read() {
    let (mut transport, mut device) = connect(Mouse::new(1));
    device.features.features.clear();
    let snapshot = snapshot_from(&mut transport, &device);
    assert_eq!(snapshot.battery, None);
    assert_eq!((snapshot.dpi_min, snapshot.dpi_max, snapshot.dpi_step), (100, 25_600, 50));
    assert!(snapshot.report_rates.is_empty());
    assert!(snapshot.onboard_profiles.is_none());
    assert!(transport.io().0.borrow().requests.is_empty());
    assert_eq!(
        read_battery(&mut transport, &device.features).unwrap_err().message(),
        "feature 0x1000 (BATTERY) is not advertised by this device"
    );
}
