//! What holds of the operations on a device, whatever it answers.

use vstd::prelude::*;

use crate::bytes::{high_of, low_of, overwritten};
use crate::device::backup::{backup_at, sectors_at};
use crate::device::discovery::{
    already_known, asking_order, device_order, indexes_of, probe_at, probes_at, with_probe, ProbeView,
};
use crate::device::dpi::{dpi_capabilities_at, host_mode_at, set_dpi_at, DpiCapabilitiesView, DpiState};
use crate::device::format07::{
    bytes_of_sector, checksum_is_valid_once_set, encoded_profile, encoding_keeps_length, profile_in, profile_refusal,
    sector_gives_back_bytes, stage_x, stages_used, stages_used_are_stages, stored_action, stored_profile_reads_back,
    with_crc,
};
use crate::device::identity::{identity_at, ids_at};
use crate::device::memory::{
    activate_at, confirm_at, directory_with, enable_at, enabled_slot, header_of_slot, payloads_at, plan_at, planned,
    restore_at, set_stage_at, undone, verify_write_at, write_if_at, write_profile_at, write_sector_at, write_start,
    OnboardProfileWrite, PlanView,
};
use crate::device::onboard::{
    chunk_at, computed_crc_of, directory_at, headers_at, mode_code_of, offset_after, onboard_info_at,
    onboard_status_at, sector_at, sector_bytes_at, sector_of, set_onboard_mode_at, stored_crc_of, SectorView,
};
use crate::device::rate::{rate_capabilities_at, set_rate_at, RateCapabilitiesView, RateState};
use crate::device::{DeviceView, DiscoveryView};
use crate::error::{ErrorView, Outcome};
use crate::hexcode::{hex_text, hex_text_tells_bytes_apart};
use crate::hid::EndpointView;
use crate::hidpp::features::{find_feature, required_feature, FeatureView, DEVICE_FW_VERSION, ONBOARD_PROFILES};
use crate::hidpp::session::{call_at, read_at, Exchange, Step, Wire};
use crate::order::orders;
use crate::profile::{BindingView, MouseButton, ProfileView};
use crate::text::{text_order_is_total, text_order_is_transitive};

verus! {

/// Whether the device says, when it is asked, that the host controls its settings.
pub open spec fn in_host_mode(wire: Wire, at: int, features: Seq<FeatureView>) -> bool {
    match onboard_status_at(wire, at, features) {
        Step::Done { value, .. } => value.mode_code == 2,
        _ => false,
    }
}

/// Whether the device says, when it is asked, that a profile controls its settings.
pub open spec fn under_profile(wire: Wire, at: int, features: Seq<FeatureView>) -> bool {
    match onboard_status_at(wire, at, features) {
        Step::Done { value, .. } => value.mode_code != 2,
        _ => false,
    }
}

/// The error of setting what a profile controls.
pub open spec fn control_error(setting: Seq<char>) -> ErrorView {
    ErrorView::Validation(
        "an onboard profile currently controls "@ + setting
            + "; run 'open-mouse-memory onboard disable' explicitly first"@,
    )
}

/// The capabilities that are read before a sensitivity is set.
pub open spec fn dpi_choices(wire: Wire, at: int, features: Seq<FeatureView>) -> Step<DpiCapabilitiesView> {
    match host_mode_at(wire, at, features, "DPI"@) {
        Step::Done { next, .. } => dpi_capabilities_at(wire, next, features),
        _ => Step::Astray,
    }
}

/// The capabilities that are read before a report rate is set.
pub open spec fn rate_choices(wire: Wire, at: int, features: Seq<FeatureView>) -> Step<RateCapabilitiesView> {
    match host_mode_at(wire, at, features, "report rate"@) {
        Step::Done { next, .. } => rate_capabilities_at(wire, next, features),
        _ => Step::Astray,
    }
}

/// Whether a sensitivity is the one asked for, and one that the device has.
pub open spec fn dpi_as_asked(capabilities: DpiCapabilitiesView, x: u16, y: Option<u16>, actual: DpiState) -> bool {
    let vertical = match y {
        Some(y) => y,
        None => x,
    };
    &&& actual.x == x
    &&& capabilities.x_values.contains(x)
    &&& capabilities.separate_xy ==> actual.y == vertical
    &&& !capabilities.separate_xy ==> vertical == x
}

/// A sensitivity that was set is the one asked for, it is one that the device has, and no profile controlled it.
pub proof fn set_dpi_is_confirmed(wire: Wire, at: int, features: Seq<FeatureView>, x: u16, y: Option<u16>)
    requires
        set_dpi_at(wire, at, features, x, y) is Done,
    ensures
        dpi_choices(wire, at, features) is Done,
        dpi_as_asked(dpi_choices(wire, at, features)->value, x, y, set_dpi_at(wire, at, features, x, y)->value),
        find_feature(features, ONBOARD_PROFILES) is Some ==> in_host_mode(wire, at, features),
{
    reveal(set_dpi_at);
    reveal(host_mode_at);
}

/// While a profile controls the sensitivity, setting it fails, and the only thing asked is who controls it.
pub proof fn controlled_dpi_is_not_set(wire: Wire, at: int, features: Seq<FeatureView>, x: u16, y: Option<u16>)
    requires
        find_feature(features, ONBOARD_PROFILES) is Some,
        under_profile(wire, at, features),
    ensures
        set_dpi_at(wire, at, features, x, y) == (Step::<DpiState>::Failed {
            error: control_error("DPI"@),
            next: end_of(onboard_status_at(wire, at, features))->0,
        }),
{
    reveal(set_dpi_at);
    reveal(host_mode_at);
}

/// A report rate that was set is the one asked for, it is one that the device has, and no profile controlled it.
pub proof fn set_rate_is_confirmed(wire: Wire, at: int, features: Seq<FeatureView>, hz: u32)
    requires
        set_rate_at(wire, at, features, hz) is Done,
    ensures
        set_rate_at(wire, at, features, hz)->value.hz == hz,
        rate_choices(wire, at, features) is Done,
        rate_choices(wire, at, features)->value.rates_hz.contains(hz),
        find_feature(features, ONBOARD_PROFILES) is Some ==> in_host_mode(wire, at, features),
{
    reveal(set_rate_at);
    reveal(host_mode_at);
}

/// While a profile controls the report rate, setting it fails, and the only thing asked is who controls it.
pub proof fn controlled_rate_is_not_set(wire: Wire, at: int, features: Seq<FeatureView>, hz: u32)
    requires
        find_feature(features, ONBOARD_PROFILES) is Some,
        under_profile(wire, at, features),
    ensures
        set_rate_at(wire, at, features, hz) == (Step::<RateState>::Failed {
            error: control_error("report rate"@),
            next: end_of(onboard_status_at(wire, at, features))->0,
        }),
{
    reveal(set_rate_at);
    reveal(host_mode_at);
}

/// A mode that was switched to is the one that the device reports.
pub proof fn set_mode_is_confirmed(wire: Wire, at: int, features: Seq<FeatureView>, onboard: bool)
    requires
        set_onboard_mode_at(wire, at, features, onboard) is Done,
    ensures
        set_onboard_mode_at(wire, at, features, onboard)->value.mode_code == mode_code_of(onboard),
{
    reveal(set_onboard_mode_at);
}

/// A stage that was chosen is one of the five, and the one that the device reports.
pub proof fn set_stage_is_confirmed(wire: Wire, at: int, features: Seq<FeatureView>, index: u8)
    requires
        set_stage_at(wire, at, features, index) is Done,
    ensures
        index < 5,
        set_stage_at(wire, at, features, index)->value == index,
{
    reveal(set_stage_at);
}

/// A profile that was made active is that of an enabled slot, and the device reports its sector.
pub proof fn activation_is_confirmed(wire: Wire, at: int, features: Seq<FeatureView>, slot: u8)
    requires
        activate_at(wire, at, features, slot) is Done,
    ensures
        headers_at(wire, at, features) matches Step::Done { value: headers, .. } && (
        enabled_slot(headers, slot, 0) matches Some(header) && activate_at(
            wire,
            at,
            features,
            slot,
        )->value.active_sector == Some(header.sector)),
{
    reveal(activate_at);
}

/// Whether the exchanges of a stretch of a record only read the memory.
pub open spec fn only_reads(wire: Wire, from: int, to: int) -> bool {
    forall|i: int|
        from <= i < to && 0 <= i < wire.exchanges.len() ==> {
            let function = (#[trigger] wire.exchanges[i]).request.function;
            function == 0x00 || function == 0x20 || function == 0x40 || function == 0x50
        }
}

/// Where a walk along a record got to, if it did not leave it.
pub open spec fn end_of<T>(step: Step<T>) -> Option<int> {
    match step {
        Step::Done { next, .. } => Some(next),
        Step::Failed { next, .. } => Some(next),
        Step::Astray => None,
    }
}

proof fn read_only_reads(wire: Wire, at: int, feature_index: u8, function: u8, parameters: Seq<u8>)
    requires
        function == 0x00 || function == 0x20 || function == 0x40 || function == 0x50,
    ensures
        end_of(read_at(wire, at, feature_index, function, parameters)) matches Some(next) ==> at < next && only_reads(
            wire,
            at,
            next,
        ),
{
}

proof fn info_only_reads(wire: Wire, at: int, features: Seq<FeatureView>)
    ensures
        end_of(onboard_info_at(wire, at, features)) matches Some(next) ==> at <= next && only_reads(wire, at, next),
{
    reveal(onboard_info_at);
    if let Ok(feature) = required_feature(features, ONBOARD_PROFILES) {
        read_only_reads(wire, at, feature.index, 0x00, Seq::empty());
    }
}

proof fn chunk_only_reads(wire: Wire, at: int, feature_index: u8, sector: u16, offset: u16)
    ensures
        end_of(chunk_at(wire, at, feature_index, sector, offset)) matches Some(next) ==> at < next && only_reads(
            wire,
            at,
            next,
        ),
{
    read_only_reads(
        wire,
        at,
        feature_index,
        0x50,
        seq![
            high_of(sector),
            low_of(sector),
            high_of(offset),
            low_of(offset),
        ],
    );
}

proof fn directory_only_reads(wire: Wire, at: int, feature_index: u8, offset: int, required: int, bytes: Seq<u8>)
    ensures
        end_of(directory_at(wire, at, feature_index, offset, required, bytes)) matches Some(next) ==> at <= next
            && only_reads(wire, at, next),
    decreases required + 16 - offset,
{
    if offset < required {
        chunk_only_reads(wire, at, feature_index, 0, offset as u16);
        if let Step::Done { value, next } = chunk_at(wire, at, feature_index, 0, offset as u16) {
            directory_only_reads(wire, next, feature_index, offset + 16, required, bytes + value);
        }
    }
}

proof fn headers_only_read(wire: Wire, at: int, features: Seq<FeatureView>)
    ensures
        end_of(headers_at(wire, at, features)) matches Some(next) ==> at <= next && only_reads(wire, at, next),
{
    reveal(headers_at);
    info_only_reads(wire, at, features);
    if let Step::Done { value: info, next } = onboard_info_at(wire, at, features) {
        if let Ok(feature) = required_feature(features, ONBOARD_PROFILES) {
            directory_only_reads(wire, next, feature.index, 0, info.profile_count * 4 + 4, Seq::empty());
        }
    }
}

proof fn sector_bytes_only_read(wire: Wire, at: int, feature_index: u8, sector: u16, offset: int, bytes: Seq<u8>)
    ensures
        end_of(sector_bytes_at(wire, at, feature_index, sector, offset, bytes)) matches Some(next) ==> at <= next
            && only_reads(wire, at, next),
        sector_bytes_at(wire, at, feature_index, sector, offset, bytes) matches Step::Done { value, .. } ==> value.len()
            == bytes.len(),
    decreases bytes.len() - offset,
{
    if offset >= 0 {
        chunk_only_reads(wire, at, feature_index, sector, offset as u16);
        if let Step::Done { value, next } = chunk_at(wire, at, feature_index, sector, offset as u16) {
            let filled = overwritten(bytes, offset, value.take(16));
            if offset < bytes.len() - 16 {
                sector_bytes_only_read(
                    wire,
                    next,
                    feature_index,
                    sector,
                    offset_after(offset, bytes.len() as int),
                    filled,
                );
            }
        }
    }
}

/// Reading a sector sends nothing that could change the memory, and what it gives is a sector of the size that
/// was asked for, with the checksum of its own bytes.
pub proof fn reading_a_sector_only_reads(wire: Wire, at: int, features: Seq<FeatureView>, sector: u16, size: u16)
    ensures
        end_of(sector_at(wire, at, features, sector, size)) matches Some(next) ==> at <= next && only_reads(
            wire,
            at,
            next,
        ),
        sector_at(wire, at, features, sector, size) matches Step::Done { value, .. } ==> exists|bytes: Seq<u8>|
            bytes.len() == size && value == #[trigger] sector_of(sector, bytes),
{
    reveal(sector_at);
    if size >= 16 {
        if let Ok(feature) = required_feature(features, ONBOARD_PROFILES) {
            let zeros = Seq::new(size as nat, |i: int| 0u8);
            sector_bytes_only_read(wire, at, feature.index, sector, 0, zeros);
            if let Step::Done { value, .. } = sector_bytes_at(wire, at, feature.index, sector, 0, zeros) {
                assert(value.len() == size);
                assert(sector_at(wire, at, features, sector, size)->value == sector_of(
                    sector,
                    value,
                ));
            }
        }
    }
}

proof fn status_only_reads(wire: Wire, at: int, features: Seq<FeatureView>)
    ensures
        end_of(onboard_status_at(wire, at, features)) matches Some(next) ==> at <= next && only_reads(wire, at, next),
{
    reveal(onboard_status_at);
    if let Ok(feature) = required_feature(features, ONBOARD_PROFILES) {
        read_only_reads(wire, at, feature.index, 0x20, Seq::empty());
        if let Step::Done { next, .. } = read_at(wire, at, feature.index, 0x20, Seq::empty()) {
            read_only_reads(wire, next, feature.index, 0x40, Seq::empty());
        }
    }
}

proof fn identity_only_reads(wire: Wire, at: int, device: DeviceView)
    ensures
        end_of(identity_at(wire, at, device)) matches Some(next) ==> at <= next && only_reads(wire, at, next),
{
    reveal(identity_at);
    if let Some(feature) = find_feature(device.features, DEVICE_FW_VERSION) {
        read_only_reads(wire, at, feature.index, 0x00, Seq::empty());
    }
    if let Step::Done { next, .. } = ids_at(wire, at, device.features) {
        info_only_reads(wire, next, device.features);
    }
}

/// Whether a list holds the sectors from the first on, each of the given size.
pub open spec fn are_first_sectors(sectors: Seq<SectorView>, size: u16) -> bool {
    forall|i: int| 0 <= i < sectors.len() ==> (#[trigger] sectors[i]).sector == i && sectors[i].size == size
}

proof fn sectors_only_read(
    wire: Wire,
    at: int,
    features: Seq<FeatureView>,
    size: u16,
    sector: int,
    count: int,
    known: Seq<SectorView>,
)
    requires
        0 <= sector <= count <= 255,
        known.len() == sector,
        are_first_sectors(known, size),
    ensures
        end_of(sectors_at(wire, at, features, size, sector, count, known)) matches Some(next) ==> at <= next
            && only_reads(wire, at, next),
        sectors_at(wire, at, features, size, sector, count, known) matches Step::Done { value, .. } ==> value.len()
            == count && are_first_sectors(value, size),
    decreases count - sector,
{
    if sector < count {
        reading_a_sector_only_reads(wire, at, features, sector as u16, size);
        if let Step::Done { value, next } = sector_at(wire, at, features, sector as u16, size) {
            sectors_only_read(wire, next, features, size, sector + 1, count, known.push(value));
        }
    }
}

/// A backup sends nothing that could change the memory, and one that succeeds holds every sector of the memory, in
/// order and whole.
pub proof fn backup_holds_every_sector(wire: Wire, at: int, device: DeviceView)
    ensures
        end_of(backup_at(wire, at, device)) matches Some(next) ==> at <= next && only_reads(wire, at, next),
        backup_at(wire, at, device) matches Step::Done { value, .. } ==> value.sectors.len() == value.info.sector_count
            && are_first_sectors(value.sectors, value.info.sector_size),
{
    reveal(backup_at);
    let features = device.features;
    identity_only_reads(wire, at, device);
    if let Step::Done { next, .. } = identity_at(wire, at, device) {
        info_only_reads(wire, next, features);
        if let Step::Done { value: info, next } = onboard_info_at(wire, next, features) {
            status_only_reads(wire, next, features);
            if let Step::Done { next, .. } = onboard_status_at(wire, next, features) {
                headers_only_read(wire, next, features);
                if let Step::Done { next, .. } = headers_at(wire, next, features) {
                    sectors_only_read(
                        wire,
                        next,
                        features,
                        info.sector_size,
                        0,
                        info.sector_count as int,
                        Seq::empty(),
                    );
                }
            }
        }
    }
}

/// Before a profile is stored, everything is read and checked: no request that could change the memory goes out
/// until the plan is made, and none at all where there is no plan.
pub proof fn planning_only_reads(wire: Wire, at: int, features: Seq<FeatureView>, slot: u8, profile: ProfileView)
    ensures
        end_of(plan_at(wire, at, features, slot, profile)) matches Some(next) ==> at <= next && only_reads(
            wire,
            at,
            next,
        ),
        plan_at(wire, at, features, slot, profile) !is Done ==> end_of(
            write_profile_at(wire, at, features, slot, profile),
        ) == end_of(plan_at(wire, at, features, slot, profile)),
{
    reveal(plan_at);
    reveal(write_profile_at);
    info_only_reads(wire, at, features);
    if let Step::Done { value: info, next } = onboard_info_at(wire, at, features) {
        headers_only_read(wire, next, features);
        if let Step::Done { value: headers, next } = headers_at(wire, next, features) {
            if let Some(header) = header_of_slot(headers, slot, 0) {
                reading_a_sector_only_reads(wire, next, features, header.sector, info.sector_size);
                if let Step::Done { next, .. } = sector_at(wire, next, features, header.sector, info.sector_size) {
                    reading_a_sector_only_reads(wire, next, features, 0, info.sector_size);
                }
            }
        }
    }
}

/// Whether a sector, as it was read, holds the given bytes with a valid checksum.
pub open spec fn holds(read: SectorView, bytes: Seq<u8>) -> bool {
    bytes_of_sector(read) == Outcome::Ok(bytes) && read.crc_valid
}

/// Whether the last thing read on a walk that ended at `next` was a sector that holds the given bytes.
pub open spec fn read_back(
    wire: Wire,
    features: Seq<FeatureView>,
    sector: u16,
    size: u16,
    bytes: Seq<u8>,
    next: int,
) -> bool {
    exists|k: int|
        #![trigger sector_at(wire, k, features, sector, size)]
        sector_at(wire, k, features, sector, size) matches Step::Done { value, next: end } && end == next && holds(
            value,
            bytes,
        )
}

proof fn matching_text_holds(
    wire: Wire,
    at: int,
    features: Seq<FeatureView>,
    sector: u16,
    size: u16,
    bytes: Seq<u8>,
)
    requires
        sector_at(wire, at, features, sector, size) is Done,
        sector_at(wire, at, features, sector, size)->value.crc_valid,
        sector_at(wire, at, features, sector, size)->value.data_hex == hex_text(bytes, true),
    ensures
        read_back(wire, features, sector, size, bytes, end_of(sector_at(wire, at, features, sector, size))->0),
{
    reading_a_sector_only_reads(wire, at, features, sector, size);
    let read = sector_at(wire, at, features, sector, size)->value;
    let held = choose|held: Seq<u8>| held.len() == size && read == #[trigger] sector_of(sector, held);
    hex_text_tells_bytes_apart(held, bytes, true);
    sector_gives_back_bytes(sector, held);
    assert(holds(read, bytes));
}

/// A sector that was written reads back with the bytes that were written and a valid checksum.
pub proof fn written_sector_reads_back(wire: Wire, at: int, features: Seq<FeatureView>, sector: u16, bytes: Seq<u8>)
    requires
        write_sector_at(wire, at, features, sector, bytes) is Done,
    ensures
        read_back(
            wire,
            features,
            sector,
            bytes.len() as u16,
            with_crc(bytes),
            end_of(write_sector_at(wire, at, features, sector, bytes))->0,
        ),
{
    reveal(write_sector_at);
    let data = with_crc(bytes);
    checksum_is_valid_once_set(bytes);
    let feature = required_feature(features, ONBOARD_PROFILES)->Ok_0;
    let started = call_at(wire, at, feature.index, 0x60, write_start(sector, data.len()));
    let sent = payloads_at(wire, end_of(started)->0, feature.index, data, 0);
    let ended = call_at(wire, end_of(sent)->0, feature.index, 0x80, Seq::empty());
    matching_text_holds(wire, end_of(ended)->0, features, sector, data.len() as u16, data);
}

proof fn stages_depend_on_start(a: Seq<u8>, b: Seq<u8>, count: int)
    requires
        a.len() >= 70,
        b.len() >= 70,
        forall|i: int| 0 <= i < 68 ==> #[trigger] a[i] == b[i],
        0 <= count <= 5,
    ensures
        stages_used(a, count) == stages_used(b, count),
    decreases count,
{
    if count > 0 {
        stages_depend_on_start(a, b, count - 1);
        assert(stage_x(a, count - 1) == stage_x(b, count - 1));
    }
}

/// What profile a sector holds does not depend on what comes after the button records.
pub proof fn profile_depends_on_start(a: Seq<u8>, b: Seq<u8>, slot: u8, current_dpi: Option<u8>)
    requires
        a.len() >= 70,
        b.len() >= 70,
        forall|i: int| 0 <= i < 68 ==> #[trigger] a[i] == b[i],
    ensures
        profile_in(a, slot, current_dpi) == profile_in(b, slot, current_dpi),
{
    stages_depend_on_start(a, b, 5);
    let pa = profile_in(a, slot, current_dpi);
    let pb = profile_in(b, slot, current_dpi);
    stages_used_are_stages(a, 5);
    assert forall|k: int| 0 <= k < pa.dpi_points.len() implies #[trigger] pa.dpi_points[k] == pb.dpi_points[k] by {
        let stage = stages_used(a, 5)[k] as int;
        assert(stage_x(a, stage) == stage_x(b, stage));
    }
    assert(pa.dpi_points =~= pb.dpi_points);
    assert forall|k: int| 0 <= k < 5 implies #[trigger] pa.bindings[k] == pb.bindings[k] by {
        assert(a.subrange(48 + 4 * k, 52 + 4 * k) =~= b.subrange(48 + 4 * k, 52 + 4 * k));
    }
    assert(pa.bindings =~= pb.bindings);
}

/// Whether a sector holds the settings of a profile: sensitivities, active and shift stage, report rate, and
/// for every button its action or, where the profile leaves its record as it was, what that stood for.
pub open spec fn holds_settings(bytes: Seq<u8>, original: Seq<u8>, profile: ProfileView, slot: u8) -> bool {
    let read = profile_in(bytes, slot, None);
    &&& read.dpi_points == profile.dpi_points
    &&& read.active_dpi == profile.active_dpi
    &&& read.shift_dpi == profile.shift_dpi
    &&& read.report_rate == profile.report_rate
    &&& forall|k: int|
        0 <= k < 5 ==> #[trigger] read.bindings[k] == (BindingView {
            button: MouseButton::ALL@[k],
            action: stored_action(original, profile, k),
        })
}

/// The bytes that are planned for a sector hold the profile, with a valid checksum.
pub proof fn plan_holds_profile(
    original_profile: SectorView,
    original_directory: SectorView,
    sector: u16,
    sector_size: u16,
    profile: ProfileView,
    slot: u8,
)
    requires
        profile_refusal(profile) is None,
        planned(original_profile, original_directory, sector, sector_size, profile) is Ok,
    ensures
        ({
            let plan = planned(original_profile, original_directory, sector, sector_size, profile)->Ok_0;
            &&& holds_settings(plan.profile, plan.original_profile, profile, slot)
            &&& stored_crc_of(plan.profile) == computed_crc_of(plan.profile)
            &&& plan.profile.len() == plan.original_profile.len()
        }),
{
    let plan = planned(original_profile, original_directory, sector, sector_size, profile)->Ok_0;
    let encoded = encoded_profile(plan.original_profile, profile).0;
    encoding_keeps_length(plan.original_profile, profile);
    stored_profile_reads_back(plan.original_profile, profile, slot);
    checksum_is_valid_once_set(encoded);
    profile_depends_on_start(plan.profile, encoded, slot, None);
}

/// A profile that was stored is there: the sector that was read last holds it, with a valid checksum, and read
/// as a profile it has the settings that were to be stored.
pub proof fn stored_profile_is_there(wire: Wire, at: int, features: Seq<FeatureView>, slot: u8, profile: ProfileView)
    requires
        write_profile_at(wire, at, features, slot, profile) is Done,
    ensures
        plan_at(wire, at, features, slot, profile) is Done,
        ({
            let plan = plan_at(wire, at, features, slot, profile)->value;
            let written = write_profile_at(wire, at, features, slot, profile)->value;
            &&& written.slot == slot
            &&& written.sector == plan.sector
            &&& written.crc_valid
            &&& written.profile_written == (plan.profile != plan.original_profile)
            &&& holds_settings(plan.profile, plan.original_profile, profile, slot)
            &&& read_back(
                wire,
                features,
                plan.sector,
                plan.sector_size,
                plan.profile,
                end_of(write_profile_at(wire, at, features, slot, profile))->0,
            )
        }),
{
    reveal(write_profile_at);
    reveal(plan_at);
    reveal(enable_at);
    reveal(confirm_at);
    let step = plan_at(wire, at, features, slot, profile);
    let plan = step->value;
    plan_was_made(wire, at, features, slot, profile);
    let profile_written = plan.profile != plan.original_profile;
    let first = write_if_at(wire, end_of(step)->0, features, profile_written, plan.sector, plan.profile);
    let directory = directory_with(plan.original_directory, slot, plan.sector)->0;
    let second = write_if_at(
        wire,
        end_of(first)->0,
        features,
        directory != plan.original_directory,
        0,
        directory,
    );
    matching_text_holds(wire, end_of(second)->0, features, plan.sector, plan.sector_size, plan.profile);
}

proof fn plan_was_made(wire: Wire, at: int, features: Seq<FeatureView>, slot: u8, profile: ProfileView)
    requires
        plan_at(wire, at, features, slot, profile) is Done,
    ensures
        ({
            let plan = plan_at(wire, at, features, slot, profile)->value;
            holds_settings(plan.profile, plan.original_profile, profile, slot)
        }),
{
    reveal(plan_at);
    let info_step = onboard_info_at(wire, at, features);
    let info = info_step->value;
    let headers_step = headers_at(wire, end_of(info_step)->0, features);
    let header = header_of_slot(headers_step->value, slot, 0)->0;
    let profile_step = sector_at(wire, end_of(headers_step)->0, features, header.sector, info.sector_size);
    let directory_step = sector_at(wire, end_of(profile_step)->0, features, 0, info.sector_size);
    plan_holds_profile(
        profile_step->value,
        directory_step->value,
        header.sector,
        info.sector_size,
        profile,
        slot,
    );
}

/// Where the sector of a profile cannot be written, what was there before is written again, and the error tells
/// of both.
pub proof fn failed_profile_write_is_undone(
    wire: Wire,
    at: int,
    features: Seq<FeatureView>,
    slot: u8,
    profile: ProfileView,
    plan: PlanView,
    error: ErrorView,
    planned_at: int,
    failed_at: int,
)
    requires
        plan_at(wire, at, features, slot, profile) == (Step::Done { value: plan, next: planned_at }),
        plan.profile != plan.original_profile,
        write_sector_at(wire, planned_at, features, plan.sector, plan.profile) == (Step::<()>::Failed {
            error,
            next: failed_at,
        }),
    ensures
        write_profile_at(wire, at, features, slot, profile) == undone::<OnboardProfileWrite>(
            write_sector_at(wire, failed_at, features, plan.sector, plan.original_profile),
            error,
        ),
{
    reveal(write_profile_at);
}

/// Where the directory cannot be written, the directory and, if it was written, the profile are written again as
/// they were, and the error tells of both.
pub proof fn failed_directory_write_is_undone(
    wire: Wire,
    at: int,
    features: Seq<FeatureView>,
    slot: u8,
    plan: PlanView,
    directory: Seq<u8>,
    error: ErrorView,
    failed_at: int,
)
    requires
        directory_with(plan.original_directory, slot, plan.sector) == Some(directory),
        directory != plan.original_directory,
        write_sector_at(wire, at, features, 0, directory) == (Step::<()>::Failed { error, next: failed_at }),
    ensures
        forall|profile_written: bool| #[trigger]
            enable_at(wire, at, features, slot, plan, profile_written) == undone::<OnboardProfileWrite>(
                restore_at(wire, failed_at, features, plan, true, profile_written),
                error,
            ),
{
    reveal(enable_at);
}

/// A rewrite for verification that succeeds leaves the sector as it was.
pub proof fn verified_sector_is_unchanged(wire: Wire, at: int, features: Seq<FeatureView>, sector: u16)
    requires
        verify_write_at(wire, at, features, sector) is Done,
    ensures
        onboard_info_at(wire, at, features) is Done,
        ({
            let info = onboard_info_at(wire, at, features)->value;
            let original = sector_at(wire, end_of(onboard_info_at(wire, at, features))->0, features, sector, info.sector_size);
            &&& original is Done
            &&& verify_write_at(wire, at, features, sector)->value == original->value
            &&& original->value.crc_valid
        }),
{
    reveal(verify_write_at);
}

/// Whether no device is listed twice: same product, same index, same name.
pub open spec fn listed_once(devices: Seq<DeviceView>) -> bool {
    forall|i: int, j: int|
        0 <= i < j < devices.len() ==> !((#[trigger] devices[i]).endpoint.product_id == (
        #[trigger] devices[j]).endpoint.product_id && devices[i].device_index == devices[j].device_index
            && devices[i].name == devices[j].name)
}

/// Taking in what asking for an index came to never lists a device twice.
pub proof fn devices_are_listed_once(discovery: DiscoveryView, endpoint: EndpointView, index: u8, probe: ProbeView)
    requires
        listed_once(discovery.devices),
    ensures
        listed_once(with_probe(discovery, endpoint, index, probe).devices),
{
    let after = with_probe(discovery, endpoint, index, probe).devices;
    if let ProbeView::Found { name, .. } = probe {
        if !already_known(discovery.devices, endpoint.product_id, index, name) {
            assert forall|i: int, j: int| 0 <= i < j < after.len() implies !((
            #[trigger] after[i]).endpoint.product_id == (#[trigger] after[j]).endpoint.product_id
                && after[i].device_index == after[j].device_index && after[i].name == after[j].name) by {
                if j < discovery.devices.len() {
                    assert(after[i] == discovery.devices[i] && after[j] == discovery.devices[j]);
                } else {
                    assert(after[i] == discovery.devices[i]);
                }
            }
        }
    }
}

/// The order of asking and the order of devices are orders, so that what is arranged by them is in order.
pub proof fn discovery_orders_order()
    ensures
        orders(asking_order()),
        orders(device_order()),
{
    let asking = asking_order();
    assert forall|a: EndpointView, b: EndpointView| #[trigger] asking(a, b) implies !asking(b, a) by {}
    assert forall|a: EndpointView, b: EndpointView, c: EndpointView|
        #![trigger asking(b, a), asking(c, b)]
        !asking(b, a) && !asking(c, b) implies !asking(c, a) by {}
    let devices = device_order();
    assert forall|a: DeviceView, b: DeviceView| #[trigger] devices(a, b) implies !devices(b, a) by {
        text_order_is_total(a.name, b.name);
    }
    assert forall|a: DeviceView, b: DeviceView, c: DeviceView|
        #![trigger devices(b, a), devices(c, b)]
        !devices(b, a) && !devices(c, b) implies !devices(c, a) by {
        text_order_is_total(a.name, b.name);
        text_order_is_total(b.name, c.name);
        text_order_is_total(a.name, c.name);
        text_order_is_transitive(a.name, b.name, c.name);
    }
}

/// Whether every device speaks HID++ 2 or newer.
pub open spec fn all_speak_hidpp_2(devices: Seq<DeviceView>) -> bool {
    forall|i: int| 0 <= i < devices.len() ==> (#[trigger] devices[i]).protocol.major >= 2
}

proof fn found_speaks_hidpp_2(wire: Wire, at: int, endpoint: EndpointView, first: bool)
    ensures
        probe_at(wire, at, endpoint, first) matches Step::Done { value: ProbeView::Found { protocol, .. }, .. }
            ==> protocol.major >= 2,
{
    reveal(probe_at);
}

/// Whether the devices from one on are reached over a node, each under one of the indexes that it is asked for.
pub open spec fn reached_over(devices: Seq<DeviceView>, from: int, endpoint: EndpointView) -> bool {
    forall|i: int|
        from <= i < devices.len() ==> (#[trigger] devices[i]).endpoint == endpoint && indexes_of(endpoint).contains(
            devices[i].device_index,
        )
}

/// Asking a node for its devices brings only devices that speak HID++ 2 or newer, each once, and each reached over that
/// node under one of the indexes that are asked for. Those that were known stay.
pub proof fn asking_finds_proper_devices(
    exchanges: Seq<Exchange>,
    at: int,
    endpoint: EndpointView,
    position: int,
    discovery: DiscoveryView,
)
    requires
        all_speak_hidpp_2(discovery.devices),
        listed_once(discovery.devices),
        probes_at(exchanges, at, endpoint, position, discovery) is Done,
    ensures
        ({
            let after = probes_at(exchanges, at, endpoint, position, discovery)->value;
            &&& all_speak_hidpp_2(after.devices)
            &&& listed_once(after.devices)
            &&& discovery.devices.is_prefix_of(after.devices)
            &&& reached_over(after.devices, discovery.devices.len() as int, endpoint)
            &&& after.endpoints == discovery.endpoints
        }),
    decreases indexes_of(endpoint).len() - position,
{
    if 0 <= position < indexes_of(endpoint).len() {
        let index = indexes_of(endpoint)[position];
        let wire = Wire { device_index: index, exchanges };
        found_speaks_hidpp_2(wire, at, endpoint, position == 0);
        if let Step::Done { value: probe, next } = probe_at(wire, at, endpoint, position == 0) {
            if !(probe is NothingMore) {
                let known = with_probe(discovery, endpoint, index, probe);
                devices_are_listed_once(discovery, endpoint, index, probe);
                asking_finds_proper_devices(exchanges, next, endpoint, position + 1, known);
                let after = probes_at(exchanges, at, endpoint, position, discovery)->value;
                assert(discovery.devices.is_prefix_of(known.devices));
                assert(discovery.devices.is_prefix_of(after.devices));
                assert(indexes_of(endpoint).contains(index));
                assert forall|i: int| discovery.devices.len() <= i < after.devices.len() implies (
                #[trigger] after.devices[i]).endpoint == endpoint && indexes_of(endpoint).contains(
                    after.devices[i].device_index,
                ) by {
                    if i < known.devices.len() {
                        assert(after.devices[i] == known.devices[i]);
                    }
                }
            }
        }
    }
}

/// Who a device is always tells how it is reached: the path of its receiver and its index.
pub proof fn identity_tells_how_to_reach(wire: Wire, at: int, device: DeviceView)
    requires
        identity_at(wire, at, device) is Done,
    ensures
        identity_at(wire, at, device)->value.receiver.path == device.endpoint.path,
        identity_at(wire, at, device)->value.device_index == device.device_index,
{
    reveal(identity_at);
}

/// The request for sixteen bytes of a sector.
pub open spec fn chunk_parameters(sector: u16, offset: u16) -> Seq<u8> {
    seq![high_of(sector), low_of(sector), high_of(offset), low_of(offset)]
}

/// Whether the exchanges of a stretch of a record ask for sixteen bytes each, all of them inside a sector.
pub open spec fn reads_inside(wire: Wire, from: int, to: int, sector: u16, size: int) -> bool {
    forall|i: int|
        from <= i < to && 0 <= i < wire.exchanges.len() ==> inside(
            (#[trigger] wire.exchanges[i]).request.parameters,
            sector,
            size,
        )
}

/// Whether parameters ask for sixteen bytes inside a sector.
pub open spec fn inside(parameters: Seq<u8>, sector: u16, size: int) -> bool {
    exists|offset: u16| offset + 16 <= size && parameters == #[trigger] chunk_parameters(sector, offset)
}

proof fn sector_bytes_read_inside(
    wire: Wire,
    at: int,
    feature_index: u8,
    sector: u16,
    offset: int,
    bytes: Seq<u8>,
)
    requires
        0 <= offset <= bytes.len() - 16,
        bytes.len() <= 0xffff,
    ensures
        end_of(sector_bytes_at(wire, at, feature_index, sector, offset, bytes)) matches Some(next) ==> reads_inside(
            wire,
            at,
            next,
            sector,
            bytes.len() as int,
        ),
    decreases bytes.len() - offset,
{
    let first = chunk_at(wire, at, feature_index, sector, offset as u16);
    if let Some(next) = end_of(first) {
        chunk_only_reads(wire, at, feature_index, sector, offset as u16);
        assert(chunk_parameters(sector, offset as u16) == seq![
            high_of(sector),
            low_of(sector),
            high_of(offset as u16),
            low_of(offset as u16),
        ]);
        assert(inside(chunk_parameters(sector, offset as u16), sector, bytes.len() as int));
        assert(reads_inside(wire, at, next, sector, bytes.len() as int));
    }
    if let Step::Done { value, next } = first {
        let filled = overwritten(bytes, offset, value.take(16));
        if offset < bytes.len() - 16 {
            sector_bytes_read_inside(
                wire,
                next,
                feature_index,
                sector,
                offset_after(offset, bytes.len() as int),
                filled,
            );
        }
    }
}

/// Reading a sector never asks for a byte outside it, whatever its size: the last read overlaps the one before.
pub proof fn sector_reads_stay_inside(wire: Wire, at: int, features: Seq<FeatureView>, sector: u16, size: u16)
    ensures
        end_of(sector_at(wire, at, features, sector, size)) matches Some(next) ==> reads_inside(
            wire,
            at,
            next,
            sector,
            size as int,
        ),
{
    reveal(sector_at);
    if size >= 16 {
        if let Ok(feature) = required_feature(features, ONBOARD_PROFILES) {
            let zeros = Seq::new(size as nat, |i: int| 0u8);
            sector_bytes_read_inside(wire, at, feature.index, sector, 0, zeros);
        }
    }
}

}
