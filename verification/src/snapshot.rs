//! What the desktop application knows of a mouse at one time.

use vstd::prelude::*;

use crate::command::{store_and_take_up, store_and_take_up_at};
use crate::device::battery::{battery_at, read_battery, BatteryView};
use crate::device::dpi::{dpi_at, dpi_capabilities, dpi_capabilities_at, read_dpi, DpiCapabilitiesView, DpiState};
use crate::device::format07::{OnboardProfile, OnboardProfileView};
use crate::device::guarantees::stored_profile_is_there;
use crate::device::memory::{onboard_profile_views, profiles_at, read_onboard_profiles, write_profile_at};
use crate::device::onboard::{onboard_status_at, read_onboard_status, OnboardStatusView};
use crate::device::rate::{rate_at, rate_capabilities, rate_capabilities_at, read_rate, RateCapabilitiesView, RateState};
use crate::device::{DeviceView, LogicalDevice};
use crate::error::Result;
use crate::hid::transport::HidIo;
use crate::hidpp::protocol::HidppTransport;
use crate::hidpp::session::{grown, group_session, reached, Step, Wire};
use crate::profile::{
    known_rate, LibraryView, Profile, ProfileLibrary, ProfileView, MAX_DPI, MAX_DPI_POINTS, MIN_DPI, REPORT_RATES,
};
use crate::text::{copy_option, same_text, text_option, trim, trimmed};

verus! {

broadcast use group_session;

/// The form in which a snapshot is kept.
pub const CACHE_SCHEMA_VERSION: u8 = 1;

/// What is known of a mouse at one time.
#[derive(Debug)]
pub struct DeviceSnapshot {
    pub name: String,
    pub battery: Option<u8>,
    pub battery_status: Option<String>,
    pub dpi: Option<u16>,
    pub dpi_min: u16,
    pub dpi_max: u16,
    pub dpi_step: u16,
    pub report_rate: Option<u32>,
    pub report_rates: Vec<u32>,
    pub onboard: Option<bool>,
    pub onboard_profiles: Option<ProfileLibrary>,
}

/// A [`DeviceSnapshot`] with its texts and lists as sequences.
pub struct SnapshotView {
    pub name: Seq<char>,
    pub battery: Option<u8>,
    pub battery_status: Option<Seq<char>>,
    pub dpi: Option<u16>,
    pub dpi_min: u16,
    pub dpi_max: u16,
    pub dpi_step: u16,
    pub report_rate: Option<u32>,
    pub report_rates: Seq<u32>,
    pub onboard: Option<bool>,
    pub onboard_profiles: Option<LibraryView>,
}

/// A library by its view, where there is one.
pub open spec fn library_option(library: Option<ProfileLibrary>) -> Option<LibraryView> {
    match library {
        Some(library) => Some(library@),
        None => None,
    }
}

impl View for DeviceSnapshot {
    type V = SnapshotView;

    open spec fn view(&self) -> SnapshotView {
        SnapshotView {
            name: self.name@,
            battery: self.battery,
            battery_status: text_option(self.battery_status),
            dpi: self.dpi,
            dpi_min: self.dpi_min,
            dpi_max: self.dpi_max,
            dpi_step: self.dpi_step,
            report_rate: self.report_rate,
            report_rates: self.report_rates@,
            onboard: self.onboard,
            onboard_profiles: library_option(self.onboard_profiles),
        }
    }
}

impl Clone for DeviceSnapshot {
    fn clone(&self) -> (copy: Self)
        ensures
            copy@ == self@,
    {
        let mut report_rates: Vec<u32> = Vec::new();
        let mut i: usize = 0;
        while i < self.report_rates.len()
            invariant
                i <= self.report_rates.len(),
                report_rates@ =~= self.report_rates@.take(i as int),
            decreases self.report_rates.len() - i,
        {
            report_rates.push(self.report_rates[i]);
            i = i + 1;
        }
        assert(report_rates@ =~= self.report_rates@);
        DeviceSnapshot {
            name: self.name.clone(),
            battery: self.battery,
            battery_status: copy_option(&self.battery_status),
            dpi: self.dpi,
            dpi_min: self.dpi_min,
            dpi_max: self.dpi_max,
            dpi_step: self.dpi_step,
            report_rate: self.report_rate,
            report_rates,
            onboard: self.onboard,
            onboard_profiles: match &self.onboard_profiles {
                Some(library) => Some(library.clone()),
                None => None,
            },
        }
    }
}

/// The place of the first profile in use, from a place on.
pub open spec fn first_active(profiles: Seq<OnboardProfileView>, from: int) -> int
    decreases profiles.len() - from,
{
    if from < 0 || from >= profiles.len() {
        0
    } else if profiles[from].active {
        from
    } else {
        first_active(profiles, from + 1)
    }
}

/// The profiles of the memory as a library, with the one in use selected.
pub open spec fn library_of(profiles: Seq<OnboardProfileView>) -> LibraryView {
    LibraryView {
        profiles: profiles.map_values(|profile: OnboardProfileView| profile.profile),
        selected: first_active(profiles, 0) as usize,
    }
}

proof fn active_is_there(profiles: Seq<OnboardProfileView>, from: int)
    requires
        0 <= from,
    ensures
        0 <= first_active(profiles, from),
        profiles.len() > 0 ==> first_active(profiles, from) < profiles.len(),
        profiles.len() == 0 ==> first_active(profiles, from) == 0,
    decreases profiles.len() - from,
{
    if from < profiles.len() && !profiles[from].active {
        active_is_there(profiles, from + 1);
    }
}

fn find_active(profiles: &Vec<OnboardProfile>) -> (at: usize)
    ensures
        at == first_active(onboard_profile_views(profiles@), 0),
{
    let ghost views = onboard_profile_views(profiles@);
    let mut i: usize = 0;
    while i < profiles.len()
        invariant
            i <= profiles.len(),
            views == onboard_profile_views(profiles@),
            first_active(views, 0) == first_active(views, i as int),
        decreases profiles.len() - i,
    {
        assert(views[i as int] == profiles@[i as int]@);
        if profiles[i].active {
            return i;
        }
        i = i + 1;
    }
    0
}

/// Makes a library of the profiles of the memory.
pub fn onboard_library(profiles: &Vec<OnboardProfile>) -> (library: ProfileLibrary)
    ensures
        library@ == library_of(onboard_profile_views(profiles@)),
{
    let selected: usize = find_active(profiles);
    let mut kept: Vec<Profile> = Vec::new();
    let mut i: usize = 0;
    while i < profiles.len()
        invariant
            i <= profiles.len(),
            kept@.len() == i,
            forall|k: int| 0 <= k < i ==> #[trigger] kept@[k]@ == profiles@[k].profile@,
        decreases profiles.len() - i,
    {
        kept.push(profiles[i].profile.clone());
        i = i + 1;
    }
    let library = ProfileLibrary { profiles: kept, selected };
    assert(library@.profiles =~= library_of(onboard_profile_views(profiles@)).profiles);
    library
}

/// A library made of the memory has a selected profile, unless the memory has none.
pub proof fn onboard_library_is_well_formed(profiles: Seq<OnboardProfileView>)
    requires
        0 < profiles.len() <= usize::MAX,
    ensures
        library_of(profiles).well_formed(),
{
    active_is_there(profiles, 0);
}

/// What was read of a mouse, as far as it could be read.
pub struct Readings {
    pub battery: Option<BatteryView>,
    pub dpi: Option<DpiState>,
    pub dpi_capabilities: Option<DpiCapabilitiesView>,
    pub rate: Option<RateState>,
    pub rate_capabilities: Option<RateCapabilitiesView>,
    pub status: Option<OnboardStatusView>,
    pub profiles: Option<Seq<OnboardProfileView>>,
}

/// The lowest and the highest sensitivity and the step between them, or usual ones where they could not be read.
pub open spec fn dpi_range(capabilities: Option<DpiCapabilitiesView>) -> (u16, u16, u16) {
    match capabilities {
        Some(capabilities) => (
            capabilities.minimum,
            capabilities.maximum,
            match capabilities.step {
                Some(step) => if step < 1 {
                    1
                } else {
                    step
                },
                None => 50,
            },
        ),
        None => (MIN_DPI, MAX_DPI, 50),
    }
}

/// What readings come to.
pub open spec fn snapshot_of(name: Seq<char>, readings: Readings) -> SnapshotView {
    SnapshotView {
        name,
        battery: match readings.battery {
            Some(battery) => battery.percentage,
            None => None,
        },
        battery_status: match readings.battery {
            Some(battery) => Some(battery.status),
            None => None,
        },
        dpi: match readings.dpi {
            Some(dpi) => Some(dpi.x),
            None => None,
        },
        dpi_min: dpi_range(readings.dpi_capabilities).0,
        dpi_max: dpi_range(readings.dpi_capabilities).1,
        dpi_step: dpi_range(readings.dpi_capabilities).2,
        report_rate: match readings.rate {
            Some(rate) => Some(rate.hz),
            None => None,
        },
        report_rates: match readings.rate_capabilities {
            Some(capabilities) => capabilities.rates_hz,
            None => Seq::empty(),
        },
        onboard: match readings.status {
            Some(status) => Some(status.mode_code == 1),
            None => None,
        },
        onboard_profiles: match readings.profiles {
            Some(profiles) => Some(library_of(profiles)),
            None => None,
        },
    }
}

/// What a step brought, where it succeeded.
pub open spec fn brought<T>(step: Step<T>) -> Option<T> {
    match step {
        Step::Done { value, .. } => Some(value),
        _ => None,
    }
}

/// Where a step ended, whether it succeeded or not.
pub open spec fn ended<T>(step: Step<T>) -> int {
    match step {
        Step::Done { next, .. } => next,
        Step::Failed { next, .. } => next,
        Step::Astray => 0,
    }
}

/// Taking a snapshot: everything is read in turn, and what cannot be read is left open.
#[verifier::opaque]
pub open spec fn snapshot_at(wire: Wire, at: int, device: DeviceView) -> Step<SnapshotView> {
    let battery = battery_at(wire, at, device.features);
    let dpi = dpi_at(wire, ended(battery), device.features);
    let dpi_capabilities = dpi_capabilities_at(wire, ended(dpi), device.features);
    let rate = rate_at(wire, ended(dpi_capabilities), device.features);
    let rate_capabilities = rate_capabilities_at(wire, ended(rate), device.features);
    let status = onboard_status_at(wire, ended(rate_capabilities), device.features);
    let profiles = profiles_at(wire, ended(status), device.features);
    if battery is Astray || dpi is Astray || dpi_capabilities is Astray || rate is Astray || rate_capabilities is Astray
        || status is Astray || profiles is Astray {
        Step::Astray
    } else {
        Step::Done {
            value: snapshot_of(
                device.name,
                Readings {
                    battery: brought(battery),
                    dpi: brought(dpi),
                    dpi_capabilities: brought(dpi_capabilities),
                    rate: brought(rate),
                    rate_capabilities: brought(rate_capabilities),
                    status: brought(status),
                    profiles: brought(profiles),
                },
            ),
            next: ended(profiles),
        }
    }
}

/// Takes a snapshot of a mouse.
pub fn snapshot_from<I: HidIo>(transport: &mut HidppTransport<I>, device: &LogicalDevice) -> (snapshot: DeviceSnapshot)
    ensures
        grown(old(transport)@, final(transport)@),
        final(transport).held() == old(transport).held(),
        forall|wire: Wire|
            wire.covers(final(transport)@) ==> #[trigger] snapshot_at(wire, old(transport)@.mark(), device@)
                == (Step::Done { value: snapshot@, next: final(transport)@.mark() }),
{
    reveal(snapshot_at);

    let battery = read_battery(transport, &device.features);
    let dpi = read_dpi(transport, &device.features);
    let capabilities = dpi_capabilities(transport, &device.features);
    let rate = read_rate(transport, &device.features);
    let rates = rate_capabilities(transport, &device.features);
    let status = read_onboard_status(transport, &device.features);
    let profiles = read_onboard_profiles(transport, &device.features);
    let range: (u16, u16, u16) = match &capabilities {
        Ok(capabilities) => (
            capabilities.minimum,
            capabilities.maximum,
            match capabilities.step {
                Some(step) => if step < 1 { 1 } else { step },
                None => 50,
            },
        ),
        Err(_) => (MIN_DPI, MAX_DPI, 50),
    };
    let percentage: Option<u8> = match &battery {
        Ok(battery) => battery.percentage,
        Err(_) => None,
    };
    let battery_status: Option<String> = match battery {
        Ok(battery) => Some(battery.status),
        Err(_) => None,
    };
    let report_rates: Vec<u32> = match rates {
        Ok(capabilities) => capabilities.rates_hz,
        Err(_) => {
            let none: Vec<u32> = Vec::new();
            assert(none@ =~= Seq::empty());
            none
        },
    };
    DeviceSnapshot {
        name: device.name.clone(),
        battery: percentage,
        battery_status,
        dpi: match dpi {
            Ok(dpi) => Some(dpi.x),
            Err(_) => None,
        },
        dpi_min: range.0,
        dpi_max: range.1,
        dpi_step: range.2,
        report_rate: match rate {
            Ok(rate) => Some(rate.hz),
            Err(_) => None,
        },
        report_rates,
        onboard: match status {
            Ok(status) => Some(status.mode_code == 1),
            Err(_) => None,
        },
        onboard_profiles: match profiles {
            Ok(profiles) => Some(onboard_library(&profiles)),
            Err(_) => None,
        },
    }
}

/// Bringing a snapshot up to date: what changes by itself is read anew, and the rest stays, unless it is of another
/// mouse.
#[verifier::opaque]
pub open spec fn refreshed_at(wire: Wire, at: int, device: DeviceView, snapshot: SnapshotView) -> Step<SnapshotView> {
    if device.name != snapshot.name {
        snapshot_at(wire, at, device)
    } else {
        let battery = battery_at(wire, at, device.features);
        let dpi = dpi_at(wire, ended(battery), device.features);
        let rate = rate_at(wire, ended(dpi), device.features);
        let status = onboard_status_at(wire, ended(rate), device.features);
        if battery is Astray || dpi is Astray || rate is Astray || status is Astray {
            Step::Astray
        } else {
            Step::Done {
                value: SnapshotView {
                    battery: match brought(battery) {
                        Some(battery) => battery.percentage,
                        None => None,
                    },
                    battery_status: match brought(battery) {
                        Some(battery) => Some(battery.status),
                        None => None,
                    },
                    dpi: match brought(dpi) {
                        Some(dpi) => Some(dpi.x),
                        None => None,
                    },
                    report_rate: match brought(rate) {
                        Some(rate) => Some(rate.hz),
                        None => None,
                    },
                    onboard: match brought(status) {
                        Some(status) => Some(status.mode_code == 1),
                        None => None,
                    },
                    ..snapshot
                },
                next: ended(status),
            }
        }
    }
}

/// Brings a snapshot up to date.
pub fn refresh_device_status<I: HidIo>(
    transport: &mut HidppTransport<I>,
    device: &LogicalDevice,
    snapshot: DeviceSnapshot,
) -> (refreshed: DeviceSnapshot)
    ensures
        grown(old(transport)@, final(transport)@),
        final(transport).held() == old(transport).held(),
        forall|wire: Wire|
            wire.covers(final(transport)@) ==> #[trigger] refreshed_at(
                wire,
                old(transport)@.mark(),
                device@,
                snapshot@,
            ) == (Step::Done { value: refreshed@, next: final(transport)@.mark() }),
{
    reveal(refreshed_at);

    if !same_text(device.name.as_str(), snapshot.name.as_str()) {
        return snapshot_from(transport, device);
    }
    let battery = read_battery(transport, &device.features);
    let dpi = read_dpi(transport, &device.features);
    let rate = read_rate(transport, &device.features);
    let status = read_onboard_status(transport, &device.features);
    let percentage: Option<u8> = match &battery {
        Ok(battery) => battery.percentage,
        Err(_) => None,
    };
    let battery_status: Option<String> = match battery {
        Ok(battery) => Some(battery.status),
        Err(_) => None,
    };
    DeviceSnapshot {
        battery: percentage,
        battery_status,
        dpi: match dpi {
            Ok(dpi) => Some(dpi.x),
            Err(_) => None,
        },
        report_rate: match rate {
            Ok(rate) => Some(rate.hz),
            Err(_) => None,
        },
        onboard: match status {
            Ok(status) => Some(status.mode_code == 1),
            Err(_) => None,
        },
        ..snapshot
    }
}

/// Storing a profile, making the mouse take it up, and taking a snapshot of what came of it.
#[verifier::opaque]
pub open spec fn saved_at(wire: Wire, at: int, device: DeviceView, slot: u8, profile: ProfileView) -> Step<SnapshotView> {
    match store_and_take_up_at(wire, at, device.features, slot, profile) {
        Step::Done { next, .. } => snapshot_at(wire, next, device),
        step => step.stop(),
    }
}

/// A snapshot or what is wrong, by their views.
pub open spec fn snapshot_outcome(result: Result<DeviceSnapshot>) -> crate::error::Outcome<SnapshotView> {
    match result {
        Ok(snapshot) => Ok(snapshot@),
        Err(error) => Err(error@),
    }
}

/// Stores a profile and makes the mouse take it up.
pub fn save_onboard_profile<I: HidIo>(
    transport: &mut HidppTransport<I>,
    device: &LogicalDevice,
    slot: u8,
    profile: &Profile,
) -> (snapshot: Result<DeviceSnapshot>)
    ensures
        grown(old(transport)@, final(transport)@),
        final(transport).held() == old(transport).held(),
        forall|wire: Wire|
            wire.covers(final(transport)@) ==> #[trigger] saved_at(
                wire,
                old(transport)@.mark(),
                device@,
                slot,
                profile@,
            ) == reached(snapshot_outcome(snapshot), final(transport)@.mark()),
{
    reveal(saved_at);

    store_and_take_up(transport, &device.features, slot, profile)?;
    Ok(snapshot_from(transport, device))
}

/// Whether a profile can be shown without going over the end of its points.
pub open spec fn safe_profile(profile: ProfileView) -> bool {
    &&& 1 <= profile.dpi_points.len() <= MAX_DPI_POINTS
    &&& profile.active_dpi < profile.dpi_points.len()
    &&& profile.shift_dpi matches Some(index) ==> index < profile.dpi_points.len()
    &&& REPORT_RATES@.contains(profile.report_rate)
}

/// Whether a library has a selected profile, and profiles that can be shown.
pub open spec fn safe_library(library: LibraryView) -> bool {
    &&& library.well_formed()
    &&& forall|i: int| 0 <= i < library.profiles.len() ==> safe_profile(#[trigger] library.profiles[i])
}

/// Whether a snapshot can be shown before the mouse has been read.
pub open spec fn safe_snapshot(snapshot: SnapshotView) -> bool {
    &&& trimmed(snapshot.name).len() > 0
    &&& 0 < snapshot.dpi_min <= snapshot.dpi_max
    &&& snapshot.dpi_step > 0
    &&& snapshot.onboard_profiles matches Some(library) && safe_library(library)
}

fn profile_is_safe(profile: &Profile) -> (safe: bool)
    ensures
        safe == safe_profile(profile@),
{
    let shift_is_there = match profile.shift_dpi {
        Some(index) => index < profile.dpi_points.len(),
        None => true,
    };
    profile.dpi_points.len() >= 1 && profile.dpi_points.len() <= MAX_DPI_POINTS && profile.active_dpi
        < profile.dpi_points.len() && shift_is_there && known_rate(profile.report_rate)
}

fn library_is_safe(library: &ProfileLibrary) -> (safe: bool)
    ensures
        safe == safe_library(library@),
{
    if library.selected >= library.profiles.len() {
        return false;
    }
    let mut i: usize = 0;
    while i < library.profiles.len()
        invariant
            i <= library.profiles.len(),
            forall|k: int| 0 <= k < i ==> safe_profile(#[trigger] library@.profiles[k]),
        decreases library.profiles.len() - i,
    {
        assert(library@.profiles[i as int] == library.profiles@[i as int]@);
        if !profile_is_safe(&library.profiles[i]) {
            return false;
        }
        i = i + 1;
    }
    true
}

/// Whether a snapshot can be shown before the mouse has been read.
pub fn valid_cached_snapshot(snapshot: &DeviceSnapshot) -> (valid: bool)
    ensures
        valid == safe_snapshot(snapshot@),
{
    if trim(snapshot.name.as_str()).as_str().is_empty() || snapshot.dpi_min == 0 || snapshot.dpi_min > snapshot.dpi_max
        || snapshot.dpi_step == 0 {
        return false;
    }
    match &snapshot.onboard_profiles {
        Some(library) => library_is_safe(library),
        None => false,
    }
}

/// A snapshot without what is out of date soon.
pub open spec fn without_battery(snapshot: SnapshotView) -> SnapshotView {
    SnapshotView { battery: None, battery_status: None, ..snapshot }
}

/// A snapshot by its view, where there is one.
pub open spec fn snapshot_option(snapshot: Option<DeviceSnapshot>) -> Option<SnapshotView> {
    match snapshot {
        Some(snapshot) => Some(snapshot@),
        None => None,
    }
}

/// What is kept of a snapshot: nothing where it could not be shown again.
pub open spec fn kept_snapshot(snapshot: SnapshotView) -> Option<SnapshotView> {
    if safe_snapshot(snapshot) {
        Some(without_battery(snapshot))
    } else {
        None
    }
}

/// Says what is kept of a snapshot.
pub fn snapshot_to_keep(snapshot: &DeviceSnapshot) -> (kept: Option<DeviceSnapshot>)
    ensures
        snapshot_option(kept) == kept_snapshot(snapshot@),
{
    if valid_cached_snapshot(snapshot) {
        Some(DeviceSnapshot { battery: None, battery_status: None, ..snapshot.clone() })
    } else {
        None
    }
}

/// What is shown of a snapshot that was kept: nothing where its form is not known or it could not be shown.
pub open spec fn restored(schema_version: u8, snapshot: SnapshotView) -> Option<SnapshotView> {
    if schema_version == CACHE_SCHEMA_VERSION {
        kept_snapshot(snapshot)
    } else {
        None
    }
}

/// Says what is shown of a snapshot that was kept.
pub fn restore_snapshot(schema_version: u8, snapshot: &DeviceSnapshot) -> (shown: Option<DeviceSnapshot>)
    ensures
        snapshot_option(shown) == restored(schema_version, snapshot@),
{
    if schema_version == CACHE_SCHEMA_VERSION {
        snapshot_to_keep(snapshot)
    } else {
        None
    }
}

/// What is kept of a snapshot is what is shown of it later, and holds no charge of the battery.
pub proof fn kept_snapshot_is_shown(snapshot: SnapshotView)
    ensures
        kept_snapshot(snapshot) matches Some(kept) ==> restored(CACHE_SCHEMA_VERSION, kept) == Some(kept)
            && kept.battery is None && kept.battery_status is None,
{
}

/// A snapshot that is shown before the mouse has been read has a selected profile, whose points are there.
pub proof fn shown_snapshot_is_safe(schema_version: u8, snapshot: SnapshotView)
    ensures
        restored(schema_version, snapshot) matches Some(shown) ==> safe_snapshot(shown),
{
}

/// A profile that was saved is stored in its slot, with a valid checksum.
pub proof fn saving_stores_the_profile(wire: Wire, at: int, device: DeviceView, slot: u8, profile: ProfileView)
    requires
        saved_at(wire, at, device, slot, profile) is Done,
    ensures
        write_profile_at(wire, at, device.features, slot, profile) is Done,
        write_profile_at(wire, at, device.features, slot, profile)->value.slot == slot,
        write_profile_at(wire, at, device.features, slot, profile)->value.crc_valid,
{
    reveal(saved_at);
    reveal(store_and_take_up_at);
    stored_profile_is_there(wire, at, device.features, slot, profile);
}

}
