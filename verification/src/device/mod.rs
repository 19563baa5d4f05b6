//! Devices that speak HID++, and what the host asks and tells them.

pub mod backup;
pub mod battery;
pub mod choices;
pub mod discovery;
pub mod dpi;
pub mod finding;
pub mod format07;
pub mod guarantees;
pub mod identity;
pub mod memory;
pub mod onboard;
pub mod rate;
pub mod reading;
pub mod storing;
pub mod telling;
pub mod tuning;

pub use self::backup::{read_onboard_backup, OnboardMemoryBackup};
pub use self::battery::{read_battery, BatteryInfo};
pub use self::dpi::{dpi_capabilities, read_dpi, set_dpi, DpiCapabilities, DpiState};
pub use self::format07::OnboardProfile;
pub use self::identity::{
    read_device_name, read_firmware, read_identity, DeviceIdentity, FirmwareInfo, ReceiverIdentity, TransportId,
};
pub use self::memory::{
    read_onboard_profiles, set_onboard_active_profile, set_onboard_current_dpi_index, verify_onboard_sector_write,
    write_onboard_profile, OnboardProfileWrite,
};
pub use self::onboard::{
    read_onboard_info, read_onboard_profile_headers, read_onboard_sector, read_onboard_status, set_onboard_mode,
    OnboardInfo, OnboardProfileHeader, OnboardSector, OnboardStatus,
};
pub use self::rate::{rate_capabilities, read_rate, set_rate, RateCapabilities, RateState};

use vstd::prelude::*;

use crate::error::{outcome, AppError, ErrorView, Outcome, Result};
use crate::hid::{endpoint_views, EndpointView, HidEndpoint};
use crate::hidpp::features::{FeatureTable, FeatureView};
use crate::hidpp::protocol::ProtocolVersion;
use crate::number::{number_of, parse_number};
use crate::text::{contains_text, lowercase, lowered, occurs, same_text, texts};

verus! {

/// How long an exchange with a selected device may take.
pub const LIVE_TIMEOUT_MS: i32 = 750;

/// How long an exchange may take while devices are looked for.
pub const PROBE_TIMEOUT_MS: i32 = 750;

/// A device that answered on a HID node.
#[derive(Debug)]
pub struct LogicalDevice {
    pub endpoint: HidEndpoint,
    pub device_index: u8,
    pub protocol: ProtocolVersion,
    pub name: String,
    pub features: FeatureTable,
}

/// A [`LogicalDevice`] with its texts and lists as sequences.
pub struct DeviceView {
    pub endpoint: EndpointView,
    pub device_index: u8,
    pub protocol: ProtocolVersion,
    pub name: Seq<char>,
    pub features: Seq<FeatureView>,
}

impl View for LogicalDevice {
    type V = DeviceView;

    open spec fn view(&self) -> DeviceView {
        DeviceView {
            endpoint: self.endpoint@,
            device_index: self.device_index,
            protocol: self.protocol,
            name: self.name@,
            features: self.features@,
        }
    }
}

impl Clone for LogicalDevice {
    fn clone(&self) -> (copy: Self)
        ensures
            copy@ == self@,
    {
        LogicalDevice {
            endpoint: self.endpoint.clone(),
            device_index: self.device_index,
            protocol: self.protocol,
            name: self.name.clone(),
            features: self.features.clone(),
        }
    }
}

/// The views of devices.
pub open spec fn device_views(devices: Seq<LogicalDevice>) -> Seq<DeviceView> {
    devices.map_values(|device: LogicalDevice| device@)
}

/// What a search for devices came to.
#[derive(Debug)]
pub struct DiscoveryOutcome {
    pub endpoints: Vec<HidEndpoint>,
    pub devices: Vec<LogicalDevice>,
    pub probe_errors: Vec<String>,
    pub permission_denied_paths: Vec<String>,
}

/// A [`DiscoveryOutcome`] with its lists as sequences.
pub struct DiscoveryView {
    pub endpoints: Seq<EndpointView>,
    pub devices: Seq<DeviceView>,
    pub probe_errors: Seq<Seq<char>>,
    pub permission_denied_paths: Seq<Seq<char>>,
}

impl View for DiscoveryOutcome {
    type V = DiscoveryView;

    open spec fn view(&self) -> DiscoveryView {
        DiscoveryView {
            endpoints: endpoint_views(self.endpoints@),
            devices: device_views(self.devices@),
            probe_errors: texts(self.probe_errors@),
            permission_denied_paths: texts(self.permission_denied_paths@),
        }
    }
}

/// What is known before the search.
pub open spec fn nothing_discovered() -> DiscoveryView {
    DiscoveryView {
        endpoints: Seq::empty(),
        devices: Seq::empty(),
        probe_errors: Seq::empty(),
        permission_denied_paths: Seq::empty(),
    }
}

impl Default for DiscoveryOutcome {
    fn default() -> (discovery: Self)
        ensures
            discovery@ == nothing_discovered(),
    {
        let discovery = DiscoveryOutcome {
            endpoints: Vec::new(),
            devices: Vec::new(),
            probe_errors: Vec::new(),
            permission_denied_paths: Vec::new(),
        };
        assert(discovery@.endpoints =~= Seq::empty());
        assert(discovery@.devices =~= Seq::empty());
        assert(discovery@.probe_errors =~= Seq::empty());
        assert(discovery@.permission_denied_paths =~= Seq::empty());
        discovery
    }
}

/// Whether a selector means a device: it is part of its name, its path or its serial number, all without
/// regard to case.
pub open spec fn selects(selector: Seq<char>, device: DeviceView) -> bool {
    ||| occurs(lowered(device.name), lowered(selector))
    ||| lowered(device.endpoint.path) == lowered(selector)
    ||| device.endpoint.serial_number matches Some(serial) && lowered(serial) == lowered(selector)
}

/// The devices that a selector means.
pub open spec fn selected_ones(selector: Seq<char>, devices: Seq<DeviceView>) -> Seq<DeviceView>
    decreases devices.len(),
{
    if devices.len() == 0 {
        Seq::empty()
    } else if selects(selector, devices.last()) {
        selected_ones(selector, devices.drop_last()).push(devices.last())
    } else {
        selected_ones(selector, devices.drop_last())
    }
}

/// The device that a selector means. A number counts the devices from one on; without a selector there must
/// be just one device.
pub open spec fn selection(devices: Seq<DeviceView>, selector: Option<Seq<char>>) -> Outcome<DeviceView> {
    if devices.len() == 0 {
        Err(ErrorView::NoDevice)
    } else {
        match selector {
            None => if devices.len() == 1 {
                Ok(devices[0])
            } else {
                Err(ErrorView::AmbiguousDevice("default"@))
            },
            Some(selector) => match number_of(selector, 10, usize::MAX as int) {
                Ok(number) => {
                    let index = if number == 0 {
                        0
                    } else {
                        number - 1
                    };
                    if index < devices.len() {
                        Ok(devices[index])
                    } else {
                        Err(ErrorView::DeviceNotFound(selector))
                    }
                },
                Err(_) => {
                    let meant = selected_ones(selector, devices);
                    if meant.len() == 1 {
                        Ok(meant[0])
                    } else if meant.len() == 0 {
                        Err(ErrorView::DeviceNotFound(selector))
                    } else {
                        Err(ErrorView::AmbiguousDevice(selector))
                    }
                },
            },
        }
    }
}

fn is_selected(selector: &str, device: &LogicalDevice) -> (selected: bool)
    ensures
        selected == selects(selector@, device@),
{
    let needle = lowercase(selector);
    if contains_text(lowercase(device.name.as_str()).as_str(), needle.as_str()) {
        return true;
    }
    if same_text(lowercase(device.endpoint.path.as_str()).as_str(), needle.as_str()) {
        return true;
    }
    match &device.endpoint.serial_number {
        Some(serial) => same_text(lowercase(serial.as_str()).as_str(), needle.as_str()),
        None => false,
    }
}

/// Finds the device that a selector means.
pub fn select_device<'a>(devices: &'a [LogicalDevice], selector: Option<&str>) -> (device: Result<&'a LogicalDevice>)
    ensures
        outcome(device) == selection(
            device_views(devices@),
            match selector {
                Some(selector) => Some(selector@),
                None => None,
            },
        ),
{
    if devices.len() == 0 {
        return Err(AppError::NoDevice);
    }
    let selector = match selector {
        Some(selector) => selector,
        None => {
            return if devices.len() == 1 {
                Ok(&devices[0])
            } else {
                Err(AppError::AmbiguousDevice("default".to_owned()))
            };
        },
    };
    if let Ok(number) = parse_number(selector, 10, usize::MAX as u64) {
        let index: usize = if number == 0 { 0 } else { (number - 1) as usize };
        return if index < devices.len() {
            Ok(&devices[index])
        } else {
            Err(AppError::DeviceNotFound(selector.to_owned()))
        };
    }
    let mut meant: Vec<usize> = Vec::new();
    let mut i: usize = 0;
    let ghost views = device_views(devices@);
    assert(views.take(0) =~= Seq::empty());
    while i < devices.len()
        invariant
            i <= devices.len(),
            views == device_views(devices@),
            forall|k: int| 0 <= k < meant@.len() ==> #[trigger] meant@[k] < devices@.len(),
            meant@.map_values(|at: usize| views[at as int]) =~= selected_ones(selector@, views.take(i as int)),
        decreases devices.len() - i,
    {
        assert(views.take(i + 1).drop_last() =~= views.take(i as int));
        if is_selected(selector, &devices[i]) {
            meant.push(i);
        }
        i = i + 1;
    }
    assert(views.take(devices@.len() as int) =~= views);
    if meant.len() == 1 {
        let at: usize = meant[0];
        assert(selected_ones(selector@, views)[0] == views[at as int]);
        Ok(&devices[at])
    } else if meant.len() == 0 {
        Err(AppError::DeviceNotFound(selector.to_owned()))
    } else {
        Err(AppError::AmbiguousDevice(selector.to_owned()))
    }
}

}
