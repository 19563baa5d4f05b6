//! What the commands of the user come to, and what the desktop application shows and keeps of a mouse.

use vstd::prelude::*;

use crate::cli::hex_bytes_of;
use crate::command::{
    chosen_device, chosen_endpoint, command_at, dump_at, endpoint_with_path, list_at, profile_of_slot, raw_at, stage_at,
    store_and_take_up_at, store_rate_at, summary_of, take_up_at, use_slot_at, CommandView, RawCommandView, ReportView,
};
use crate::device::{selection, DeviceView, DiscoveryView};
use crate::device::backup::{backup_at, sectors_at};
use crate::device::battery::battery_at;
use crate::device::dpi::{dpi_at, dpi_capabilities_at, set_dpi_at, DpiCapabilitiesView};
use crate::device::format07::{decoded_profile, OnboardProfileView};
use crate::device::identity::{firmware_at, identity_at};
use crate::device::memory::{
    activate_at, current_stage_at, entries_at, entry_profile, listed_profiles_at, profiles_at, set_stage_at,
    verify_write_at, write_profile_at,
};
use crate::device::onboard::{
    headers_at, onboard_info_at, onboard_status_at, sector_at, set_onboard_mode_at, HeaderView, SectorView,
};
use crate::device::rate::{rate_at, rate_capabilities_at, set_rate_at};
use crate::device::storing::listed_slots_are_counted_from_one;
use crate::error::{error_text, ErrorView, Outcome};
use crate::hid::EndpointView;
use crate::hidpp::asking::{answered, at_index, call_gives_reply, called, missing_feature_is_named, read_gives_answer};
use crate::hidpp::features::FeatureView;
use crate::hidpp::session::{Step, Wire};
use crate::profile::{action_label, button_label, default_profile, LibraryView, ProfileView, REPORT_RATES};
use crate::snapshot::{
    brought, dpi_range, ended, first_active, kept_snapshot, library_of, refreshed_at, restored, safe_profile, saved_at,
    snapshot_at, snapshot_of, Readings, SnapshotView,
};
use crate::state::{
    following, loaded, offered_range, offered_rates, opening, received, refresh_of, result_of, slot_to_save,
    with_default_sensitivity, EditorView, StateView, TaskResultView, TaskView,
};
use crate::text::{dec, trimmed};

verus! {

/// Whether a step goes as another one does, with what that one came to put in a report.
pub open spec fn goes_as<T>(step: Step<ReportView>, other: Step<T>, report: spec_fn(T) -> ReportView) -> bool {
    match other {
        Step::Done { value, next } => step == (Step::Done { value: report(value), next }),
        Step::Failed { error, next } => step == (Step::<ReportView>::Failed { error, next }),
        Step::Astray => step is Astray,
    }
}

/// Each command does its own operation on the device, with what the user gave for it, and reports what that came to.
pub proof fn commands_do_their_operations(wire: Wire, at: int, device: DeviceView, command: CommandView)
    ensures
        ({
            let step = command_at(wire, at, device, command);
            let features = device.features;
            match command {
                CommandView::DeviceInfo => goes_as(step, identity_at(wire, at, device), |v| ReportView::Identity(v)),
                CommandView::DeviceFeatures => step == (Step::Done { value: ReportView::Features(features), next: at }),
                CommandView::DeviceFirmware => goes_as(step, firmware_at(wire, at, features), |v| ReportView::Firmware(v)),
                CommandView::Battery { details } => goes_as(
                    step,
                    battery_at(wire, at, features),
                    |v| ReportView::Battery { battery: v, details },
                ),
                CommandView::DpiGet => goes_as(step, dpi_at(wire, at, features), |v| ReportView::Dpi(v)),
                CommandView::DpiCapabilities => goes_as(
                    step,
                    dpi_capabilities_at(wire, at, features),
                    |v| ReportView::DpiCapabilities(v),
                ),
                CommandView::DpiSet { x, y } => goes_as(
                    step,
                    set_dpi_at(wire, at, features, x, y),
                    |v| ReportView::DpiSet(v),
                ),
                CommandView::RateGet => goes_as(step, rate_at(wire, at, features), |v| ReportView::Rate(v)),
                CommandView::RateCapabilities => goes_as(
                    step,
                    rate_capabilities_at(wire, at, features),
                    |v| ReportView::RateCapabilities(v),
                ),
                CommandView::RateSet { hz } => goes_as(
                    step,
                    set_rate_at(wire, at, features, hz),
                    |v| ReportView::RateSet(v),
                ),
                CommandView::OnboardStatus => goes_as(
                    step,
                    onboard_status_at(wire, at, features),
                    |v| ReportView::Status(v),
                ),
                CommandView::OnboardInfo { raw } => goes_as(
                    step,
                    onboard_info_at(wire, at, features),
                    |v| ReportView::Info { info: v, raw },
                ),
                CommandView::OnboardMode { onboard } => goes_as(
                    step,
                    set_onboard_mode_at(wire, at, features, onboard),
                    |v| ReportView::Status(v),
                ),
                CommandView::ProfilesList => goes_as(step, list_at(wire, at, features), |v| ReportView::Profiles(v)),
                CommandView::ProfilesDump { sector } => goes_as(
                    step,
                    dump_at(wire, at, features, sector),
                    |v| ReportView::Sector(v),
                ),
                CommandView::ProfilesBackup => goes_as(step, backup_at(wire, at, device), |v| ReportView::Backup(v)),
                CommandView::ProfilesActivate { slot } => goes_as(
                    step,
                    use_slot_at(wire, at, features, slot),
                    |v| ReportView::Status(v),
                ),
                CommandView::ProfilesStage { stage } => goes_as(
                    step,
                    stage_at(wire, at, features, stage),
                    |v| ReportView::Stage(v),
                ),
                CommandView::ProfilesSetRate { slot, hz } => goes_as(
                    step,
                    store_rate_at(wire, at, features, slot, hz),
                    |v| ReportView::RateStored { hz, written: v },
                ),
                CommandView::ProfilesVerifyWrite { sector } => goes_as(
                    step,
                    verify_write_at(wire, at, features, sector),
                    |v| ReportView::SectorVerified(v),
                ),
                CommandView::HidppFeatures => step == (Step::Done {
                    value: ReportView::FeatureTable(features),
                    next: at,
                }),
                CommandView::Raw(raw) => goes_as(step, raw_at(wire, at, features, raw), |v| ReportView::Raw(v)),
            }
        }),
{
    reveal(command_at);
}

/// A call that the user spells out is refused before anything is sent where it is not said, or said both ways, whether it
/// only reads; and where it would write to the memory, with functions 6, 7 and 8 of feature 8100.
pub proof fn unsafe_calls_are_refused(wire: Wire, at: int, features: Seq<FeatureView>, command: RawCommandView)
    requires
        command.read_only == command.dangerous_write || (command.feature == 0x8100 && (command.function == 0x60
            || command.function == 0x70 || command.function == 0x80)),
    ensures
        raw_at(wire, at, features, command) matches Step::Failed { error, next } && next == at && error is Unsafe,
{
    reveal(raw_at);
}

/// Any other call is made as it is spelled out: with the index of the feature, the function and the bytes. One that only
/// reads may be repeated, and one that writes is made once. The report has the question and the reply.
pub proof fn calls_are_made_as_spelled_out(
    wire: Wire,
    at: int,
    features: Seq<FeatureView>,
    command: RawCommandView,
    index: u8,
    data: Seq<u8>,
    reply: Seq<u8>,
    next: int,
)
    requires
        command.read_only != command.dangerous_write,
        !(command.feature == 0x8100 && (command.function == 0x60 || command.function == 0x70 || command.function
            == 0x80)),
        hex_bytes_of(command.data) == std::result::Result::<Seq<u8>, Seq<char>>::Ok(data),
        at_index(features, command.feature as int, index),
        command.read_only ==> answered(wire, at, index, command.function as int, data, reply, next),
        command.dangerous_write ==> called(wire, at, index, command.function as int, data, reply) && next == at + 1,
    ensures
        raw_at(wire, at, features, command) matches Step::Done { value, next: end } && end == next && value.feature
            == command.feature && value.feature_index == index && value.function == command.function && value.request
            == data && value.response == reply,
{
    reveal(raw_at);
    missing_feature_is_named(features, command.feature);
    read_gives_answer(wire, at, index, command.function, data, reply, next);
    call_gives_reply(wire, at, index, command.function, data, reply, next);
}

/// The stages are counted from one for the user and from zero for the mouse, and there are five.
pub proof fn stages_are_counted_from_one(wire: Wire, at: int, features: Seq<FeatureView>, stage: u8)
    ensures
        stage == 0 || stage > 5 ==> (stage_at(wire, at, features, stage) matches Step::Failed { error, next }
            && error is Validation && next == at),
        1 <= stage <= 5 ==> stage_at(wire, at, features, stage) == set_stage_at(
            wire,
            at,
            features,
            (stage - 1) as u8,
        ),
{
    reveal(stage_at);
}

/// A slot is used by switching to the memory and then making its profile active.
pub proof fn slot_is_used(wire: Wire, at: int, features: Seq<FeatureView>, slot: u8)
    requires
        set_onboard_mode_at(wire, at, features, true) is Done,
    ensures
        use_slot_at(wire, at, features, slot) == activate_at(
            wire,
            set_onboard_mode_at(wire, at, features, true)->Done_next,
            features,
            slot,
        ),
{
    reveal(use_slot_at);
}

/// A profile that is stored is taken up by switching to the host and back to the memory, making its slot active and
/// choosing its active point as the stage. What was written is told.
pub proof fn stored_profile_is_taken_up(
    wire: Wire,
    at: int,
    features: Seq<FeatureView>,
    slot: u8,
    profile: ProfileView,
)
    requires
        profile.active_dpi < 5,
        write_profile_at(wire, at, features, slot, profile) is Done,
        ({
            let written = write_profile_at(wire, at, features, slot, profile)->Done_next;
            let host = set_onboard_mode_at(wire, written, features, false);
            let memory = set_onboard_mode_at(wire, host->Done_next, features, true);
            let active = activate_at(wire, memory->Done_next, features, slot);
            let chosen = set_stage_at(wire, active->Done_next, features, profile.active_dpi as u8);
            host is Done && memory is Done && active is Done && chosen is Done
        }),
    ensures
        ({
            let written = write_profile_at(wire, at, features, slot, profile)->Done_next;
            let host = set_onboard_mode_at(wire, written, features, false);
            let memory = set_onboard_mode_at(wire, host->Done_next, features, true);
            let active = activate_at(wire, memory->Done_next, features, slot);
            let chosen = set_stage_at(wire, active->Done_next, features, profile.active_dpi as u8);
            store_and_take_up_at(wire, at, features, slot, profile) == (Step::Done {
                value: write_profile_at(wire, at, features, slot, profile)->value,
                next: chosen->Done_next,
            })
        }),
{
    reveal(store_and_take_up_at);
    reveal(take_up_at);
}

/// A profile is taken up only where each of those steps succeeds.
pub proof fn taking_up_needs_every_step(
    wire: Wire,
    at: int,
    features: Seq<FeatureView>,
    slot: u8,
    profile: ProfileView,
)
    requires
        profile.active_dpi < 5,
        store_and_take_up_at(wire, at, features, slot, profile) is Done,
    ensures
        ({
            let written = write_profile_at(wire, at, features, slot, profile);
            let host = set_onboard_mode_at(wire, written->Done_next, features, false);
            let memory = set_onboard_mode_at(wire, host->Done_next, features, true);
            let active = activate_at(wire, memory->Done_next, features, slot);
            let chosen = set_stage_at(wire, active->Done_next, features, profile.active_dpi as u8);
            written is Done && host is Done && memory is Done && active is Done && chosen is Done
        }),
{
    reveal(store_and_take_up_at);
    reveal(take_up_at);
}

/// The profile that is taken for a slot is the first one of its number.
pub proof fn profile_of_slot_is_found(profiles: Seq<OnboardProfileView>, slot: u8, from: int)
    requires
        0 <= from,
    ensures
        match profile_of_slot(profiles, slot, from) {
            Some(profile) => exists|k: int|
                from <= k < profiles.len() && #[trigger] profiles[k] == profile && profile.slot == slot && forall|
                    j: int,
                |
                    from <= j < k ==> (#[trigger] profiles[j]).slot != slot,
            None => forall|j: int| from <= j < profiles.len() ==> (#[trigger] profiles[j]).slot != slot,
        },
    decreases profiles.len() - from,
{
    if from < profiles.len() && profiles[from].slot != slot {
        profile_of_slot_is_found(profiles, slot, from + 1);
        if let Some(profile) = profile_of_slot(profiles, slot, from) {
            let k = choose|k: int|
                from + 1 <= k < profiles.len() && #[trigger] profiles[k] == profile && profile.slot == slot && forall|
                    j: int,
                |
                    from + 1 <= j < k ==> (#[trigger] profiles[j]).slot != slot;
            assert(profiles[k] == profile);
        }
    } else if from < profiles.len() {
        assert(profiles[from].slot == slot);
    }
}

/// Setting the rate of a slot stores the profile that is there with nothing but its rate changed. A slot that is not there
/// is refused.
pub proof fn rate_of_slot_is_stored(wire: Wire, at: int, features: Seq<FeatureView>, slot: u8, hz: u32)
    requires
        profiles_at(wire, at, features) is Done,
    ensures
        ({
            let profiles = profiles_at(wire, at, features)->value;
            let next = profiles_at(wire, at, features)->Done_next;
            match profile_of_slot(profiles, slot, 0) {
                None => store_rate_at(wire, at, features, slot, hz) matches Step::Failed { error, next: end } && end
                    == next && error is Validation,
                Some(there) => store_rate_at(wire, at, features, slot, hz) == store_and_take_up_at(
                    wire,
                    next,
                    features,
                    slot,
                    (ProfileView {
                        name: there.profile.name,
                        dpi_points: there.profile.dpi_points,
                        active_dpi: there.profile.active_dpi,
                        shift_dpi: there.profile.shift_dpi,
                        report_rate: hz,
                        bindings: there.profile.bindings,
                    }),
                ),
            }
        }),
{
    reveal(store_rate_at);
}

/// A sector is dumped where the memory has it, whole; any other number is refused.
pub proof fn sector_is_dumped(wire: Wire, at: int, features: Seq<FeatureView>, sector: u16)
    requires
        onboard_info_at(wire, at, features) is Done,
    ensures
        ({
            let info = onboard_info_at(wire, at, features)->value;
            let next = onboard_info_at(wire, at, features)->Done_next;
            &&& sector < info.sector_count ==> dump_at(wire, at, features, sector) == sector_at(
                wire,
                next,
                features,
                sector,
                info.sector_size,
            )
            &&& sector >= info.sector_count ==> (dump_at(wire, at, features, sector) matches Step::Failed {
                error,
                next: end,
            } && end == next && error is Validation)
        }),
{
    reveal(dump_at);
}

/// What is told of a profile of the memory is what it has, and for each button what it does.
pub proof fn profile_is_summed_up(profile: OnboardProfileView, k: int)
    ensures
        ({
            let told = summary_of(profile);
            &&& told.slot == profile.slot
            &&& told.sector == profile.sector
            &&& told.enabled == profile.enabled
            &&& told.active == profile.active
            &&& told.crc_valid == profile.crc_valid
            &&& told.report_rate == profile.profile.report_rate
            &&& told.dpi_points == profile.profile.dpi_points
            &&& told.active_dpi == profile.profile.active_dpi
            &&& told.shift_dpi == profile.profile.shift_dpi
            &&& told.buttons.len() == profile.profile.bindings.len()
            &&& 0 <= k < told.buttons.len() ==> told.buttons[k] == button_label(profile.profile.bindings[k].button)
                + ": "@ + action_label(profile.profile.bindings[k].action)
        }),
{
}

/// The list of the profiles tells the format, the active sector, and each profile of the memory in its order.
pub proof fn profiles_are_listed(wire: Wire, at: int, features: Seq<FeatureView>)
    requires
        list_at(wire, at, features) is Done,
    ensures
        ({
            let told = list_at(wire, at, features)->value;
            let info = onboard_info_at(wire, at, features);
            let status = onboard_status_at(wire, info->Done_next, features);
            let profiles = profiles_at(wire, status->Done_next, features);
            &&& info is Done && status is Done && profiles is Done
            &&& told.profile_format == info->value.profile_format
            &&& told.active_sector == status->value.active_sector
            &&& told.profiles.len() == profiles->value.len()
            &&& forall|k: int| 0 <= k < told.profiles.len() ==> #[trigger] told.profiles[k] == summary_of(profiles->value[k])
        }),
{
    reveal(list_at);
}

/// Whether a profile of the memory is that of a listed slot: its sector was read with a valid checksum, and it is active
/// where its sector is the active one; then its active point is the stage that the mouse is at.
pub open spec fn read_for_slot(
    wire: Wire,
    features: Seq<FeatureView>,
    sector_size: u16,
    active_sector: Option<u16>,
    current_dpi: Option<u8>,
    header: HeaderView,
    profile: OnboardProfileView,
) -> bool {
    exists|at: int|
        {
            let read = #[trigger] sector_at(wire, at, features, header.sector, sector_size);
            let active = active_sector == Some(header.sector);
            &&& read is Done
            &&& read->value.crc_valid
            &&& decoded_profile(
                header,
                read->value,
                active,
                if active {
                    current_dpi
                } else {
                    None
                },
            ) == Outcome::Ok(profile)
        }
}

proof fn entries_are_read_for_slots(
    wire: Wire,
    at: int,
    features: Seq<FeatureView>,
    sector_size: u16,
    active_sector: Option<u16>,
    current_dpi: Option<u8>,
    headers: Seq<HeaderView>,
    index: int,
    known: Seq<OnboardProfileView>,
)
    requires
        0 <= index == known.len() <= headers.len(),
        forall|k: int|
            0 <= k < known.len() ==> read_for_slot(
                wire,
                features,
                sector_size,
                active_sector,
                current_dpi,
                headers[k],
                #[trigger] known[k],
            ),
        entries_at(wire, at, features, sector_size, active_sector, current_dpi, headers, index, known) is Done,
    ensures
        ({
            let told = entries_at(
                wire,
                at,
                features,
                sector_size,
                active_sector,
                current_dpi,
                headers,
                index,
                known,
            )->value;
            &&& told.len() == headers.len()
            &&& forall|k: int|
                0 <= k < told.len() ==> read_for_slot(
                    wire,
                    features,
                    sector_size,
                    active_sector,
                    current_dpi,
                    headers[k],
                    #[trigger] told[k],
                )
        }),
    decreases headers.len() - index,
{
    if index < headers.len() {
        let header = headers[index];
        let read = sector_at(wire, at, features, header.sector, sector_size);
        let profile = entry_profile(header, read->value, active_sector, current_dpi)->Ok_0;
        let more = known.push(profile);
        assert(read_for_slot(wire, features, sector_size, active_sector, current_dpi, header, profile));
        assert forall|k: int| 0 <= k < more.len() implies read_for_slot(
            wire,
            features,
            sector_size,
            active_sector,
            current_dpi,
            headers[k],
            #[trigger] more[k],
        ) by {
            if k < known.len() {
                assert(more[k] == known[k]);
            }
        }
        entries_are_read_for_slots(
            wire,
            read->Done_next,
            features,
            sector_size,
            active_sector,
            current_dpi,
            headers,
            index + 1,
            more,
        );
    }
}

/// The profiles of the memory are those of the listed slots, in their order, each read from its sector. The memory is one
/// that can be edited. The stage that the mouse is at counts where a profile controls the mouse and the mouse tells it.
pub proof fn profiles_are_read_for_slots(wire: Wire, at: int, features: Seq<FeatureView>) -> (from: (int, Option<u8>))
    requires
        profiles_at(wire, at, features) is Done,
    ensures
        ({
            let told = profiles_at(wire, at, features)->value;
            let info = onboard_info_at(wire, at, features);
            let status = onboard_status_at(wire, info->Done_next, features);
            let stage = current_stage_at(wire, status->Done_next, features);
            let (listing, current_dpi) = from;
            let headers = headers_at(wire, listing, features);
            &&& info is Done && status is Done && headers is Done
            &&& info->value.memory_model == 1 && info->value.profile_format == 7 && info->value.sector_size >= 70
            &&& status->value.mode_code != 1 ==> current_dpi is None && listing == status->Done_next
            &&& status->value.mode_code == 1 && stage is Done ==> current_dpi == Some(stage->value)
            &&& status->value.mode_code == 1 && stage is Failed ==> current_dpi is None
            &&& told.len() == headers->value.len()
            &&& forall|k: int|
                0 <= k < told.len() ==> read_for_slot(
                    wire,
                    features,
                    info->value.sector_size,
                    status->value.active_sector,
                    current_dpi,
                    headers->value[k],
                    #[trigger] told[k],
                )
        }),
{
    reveal(profiles_at);
    reveal(listed_profiles_at);
    let info = onboard_info_at(wire, at, features);
    let status = onboard_status_at(wire, info->Done_next, features);
    let stage = current_stage_at(wire, status->Done_next, features);
    let (listing, current_dpi) = if status->value.mode_code != 1 {
        (status->Done_next, None::<u8>)
    } else if stage is Done {
        (stage->Done_next, Some(stage->value))
    } else {
        (stage->Failed_next, None)
    };
    let headers = headers_at(wire, listing, features);
    entries_are_read_for_slots(
        wire,
        headers->Done_next,
        features,
        info->value.sector_size,
        status->value.active_sector,
        current_dpi,
        headers->value,
        0,
        Seq::empty(),
    );
    (listing, current_dpi)
}

proof fn sectors_are_read_in_turn(
    wire: Wire,
    at: int,
    features: Seq<FeatureView>,
    size: u16,
    sector: int,
    count: int,
    known: Seq<SectorView>,
)
    requires
        0 <= sector == known.len() <= count <= 255,
        forall|k: int| 0 <= k < known.len() ==> sector_was_read(wire, features, k, size, #[trigger] known[k]),
        sectors_at(wire, at, features, size, sector, count, known) is Done,
    ensures
        ({
            let told = sectors_at(wire, at, features, size, sector, count, known)->value;
            &&& told.len() == count
            &&& forall|k: int| 0 <= k < told.len() ==> sector_was_read(wire, features, k, size, #[trigger] told[k])
        }),
    decreases count - sector,
{
    if sector < count {
        let read = sector_at(wire, at, features, sector as u16, size);
        let more = known.push(read->value);
        assert(sector_was_read(wire, features, sector, size, read->value));
        assert forall|k: int| 0 <= k < more.len() implies sector_was_read(wire, features, k, size, #[trigger] more[k]) by {
            if k < known.len() {
                assert(more[k] == known[k]);
            }
        }
        sectors_are_read_in_turn(wire, read->Done_next, features, size, sector + 1, count, more);
    }
}

/// Whether a sector, by its number, was read as it is told.
pub open spec fn sector_was_read(
    wire: Wire,
    features: Seq<FeatureView>,
    number: int,
    size: u16,
    told: SectorView,
) -> bool {
    exists|at: int| (#[trigger] sector_at(wire, at, features, number as u16, size)) matches Step::Done { value, .. }
        && value == told
}

/// A backup in the first form holds who the device is, what it says of its memory and its mode, the slots, and each sector
/// of the memory from the first on, as it was read.
pub proof fn backup_holds_what_was_read(wire: Wire, at: int, device: DeviceView)
    requires
        backup_at(wire, at, device) is Done,
    ensures
        ({
            let told = backup_at(wire, at, device)->value;
            let identity = identity_at(wire, at, device);
            let info = onboard_info_at(wire, identity->Done_next, device.features);
            let status = onboard_status_at(wire, info->Done_next, device.features);
            let headers = headers_at(wire, status->Done_next, device.features);
            &&& told.schema_version == 1
            &&& identity is Done && told.device == identity->value
            &&& info is Done && told.info == info->value
            &&& status is Done && told.status == status->value
            &&& headers is Done && told.profiles == headers->value
            &&& told.sectors.len() == info->value.sector_count
            &&& forall|k: int|
                0 <= k < told.sectors.len() ==> sector_was_read(
                    wire,
                    device.features,
                    k,
                    info->value.sector_size,
                    #[trigger] told.sectors[k],
                )
        }),
{
    reveal(backup_at);
    let identity = identity_at(wire, at, device);
    let info = onboard_info_at(wire, identity->Done_next, device.features);
    let status = onboard_status_at(wire, info->Done_next, device.features);
    let headers = headers_at(wire, status->Done_next, device.features);
    sectors_are_read_in_turn(
        wire,
        headers->Done_next,
        device.features,
        info->value.sector_size,
        0,
        info->value.sector_count as int,
        Seq::empty(),
    );
}

/// Where no device is found, but a node could not be opened for want of the right, that is the error, with the first such
/// node.
pub proof fn missing_right_explains_missing_device(discovery: DiscoveryView, selector: Option<Seq<char>>)
    ensures
        discovery.devices.len() == 0 && discovery.permission_denied_paths.len() > 0 ==> chosen_device(discovery, selector)
            == Outcome::<DeviceView>::Err(
            ErrorView::PermissionDenied { path: discovery.permission_denied_paths[0] },
        ),
        discovery.devices.len() == 0 && discovery.permission_denied_paths.len() == 0 ==> chosen_device(
            discovery,
            selector,
        ) == Outcome::<DeviceView>::Err(ErrorView::NoDevice),
        discovery.devices.len() > 0 ==> chosen_device(discovery, selector) == selection(discovery.devices, selector),
{
}

proof fn first_of_path_is_found(endpoints: Seq<EndpointView>, path: Seq<char>, from: int)
    requires
        0 <= from,
    ensures
        match endpoint_with_path(endpoints, path, from) {
            Some(endpoint) => exists|k: int|
                from <= k < endpoints.len() && #[trigger] endpoints[k] == endpoint && endpoint.path == path && forall|
                    j: int,
                |
                    from <= j < k ==> (#[trigger] endpoints[j]).path != path,
            None => forall|j: int| from <= j < endpoints.len() ==> (#[trigger] endpoints[j]).path != path,
        },
    decreases endpoints.len() - from,
{
    if from < endpoints.len() && endpoints[from].path != path {
        first_of_path_is_found(endpoints, path, from + 1);
        if let Some(endpoint) = endpoint_with_path(endpoints, path, from) {
            let k = choose|k: int|
                from + 1 <= k < endpoints.len() && #[trigger] endpoints[k] == endpoint && endpoint.path == path
                    && forall|j: int| from + 1 <= j < k ==> (#[trigger] endpoints[j]).path != path;
            assert(endpoints[k] == endpoint);
        }
    } else if from < endpoints.len() {
        assert(endpoints[from].path == path);
    }
}

/// Which node is meant: the first one of the path that is given; without one, that of the device that is meant, or the
/// first node where there is no device.
pub proof fn meant_node_is_chosen(discovery: DiscoveryView, selector: Option<Seq<char>>, path: Option<Seq<char>>)
    ensures
        path is Some ==> (match chosen_endpoint(discovery, selector, path) {
            Ok(endpoint) => discovery.endpoints.contains(endpoint) && endpoint.path == path->0,
            Err(error) => error == ErrorView::DeviceNotFound(path->0) && forall|j: int|
                0 <= j < discovery.endpoints.len() ==> (#[trigger] discovery.endpoints[j]).path != path->0,
        }),
        path is None && discovery.devices.len() > 0 ==> (match selection(discovery.devices, selector) {
            Ok(device) => chosen_endpoint(discovery, selector, path) == Outcome::Ok(device.endpoint),
            Err(error) => chosen_endpoint(discovery, selector, path) == Outcome::<EndpointView>::Err(error),
        }),
        path is None && discovery.devices.len() == 0 && discovery.endpoints.len() > 0 ==> chosen_endpoint(
            discovery,
            selector,
            path,
        ) == Outcome::Ok(discovery.endpoints[0]),
        path is None && discovery.devices.len() == 0 && discovery.endpoints.len() == 0 ==> chosen_endpoint(
            discovery,
            selector,
            path,
        ) == Outcome::<EndpointView>::Err(ErrorView::NoDevice),
{
    if let Some(path) = path {
        first_of_path_is_found(discovery.endpoints, path, 0);
    }
}

/// The sensitivities that can be set run from the lowest to the highest of the mouse, in its steps, or in steps of 50 where
/// it has none; and from 100 to 25600 in steps of 50 where it does not tell.
pub proof fn range_is_that_of_mouse(capabilities: DpiCapabilitiesView)
    ensures
        dpi_range(None) == (100u16, 25600u16, 50u16),
        dpi_range(Some(capabilities)).0 == capabilities.minimum,
        dpi_range(Some(capabilities)).1 == capabilities.maximum,
        dpi_range(Some(capabilities)).2 == (match capabilities.step {
            Some(step) => if step == 0 {
                1
            } else {
                step
            },
            None => 50,
        }),
{
}

/// A snapshot has of each reading what it brought, and nothing where it failed: the charge and its state, the sensitivity
/// along, the rate and the rates, whether a profile controls the mouse, and the profiles.
pub proof fn snapshot_has_what_was_read(name: Seq<char>, readings: Readings)
    ensures
        ({
            let shown = snapshot_of(name, readings);
            &&& shown.name == name
            &&& readings.battery matches Some(battery) ==> shown.battery == battery.percentage && shown.battery_status
                == Some(battery.status)
            &&& readings.battery is None ==> shown.battery is None && shown.battery_status is None
            &&& readings.dpi matches Some(dpi) ==> shown.dpi == Some(dpi.x)
            &&& readings.dpi is None ==> shown.dpi is None
            &&& (shown.dpi_min, shown.dpi_max, shown.dpi_step) == dpi_range(readings.dpi_capabilities)
            &&& readings.rate matches Some(rate) ==> shown.report_rate == Some(rate.hz)
            &&& readings.rate is None ==> shown.report_rate is None
            &&& readings.rate_capabilities matches Some(capabilities) ==> shown.report_rates == capabilities.rates_hz
            &&& readings.rate_capabilities is None ==> shown.report_rates.len() == 0
            &&& readings.status matches Some(status) ==> shown.onboard == Some(status.mode_code == 1)
            &&& readings.status is None ==> shown.onboard is None
            &&& readings.profiles matches Some(profiles) ==> shown.onboard_profiles == Some(library_of(profiles))
            &&& readings.profiles is None ==> shown.onboard_profiles is None
        }),
{
}

proof fn first_active_is_active(profiles: Seq<OnboardProfileView>, from: int)
    requires
        0 <= from,
    ensures
        ({
            let first = first_active(profiles, from);
            &&& from <= first < profiles.len() && profiles[first].active && (forall|j: int|
                from <= j < first ==> !(#[trigger] profiles[j]).active) || (first == 0 && forall|j: int|
                from <= j < profiles.len() ==> !(#[trigger] profiles[j]).active)
        }),
    decreases profiles.len() - from,
{
    if from < profiles.len() && !profiles[from].active {
        first_active_is_active(profiles, from + 1);
    }
}

/// The library of a mouse has its profiles in their order, and the first active one is selected, or the first where none
/// is active.
pub proof fn library_selects_the_active_profile(profiles: Seq<OnboardProfileView>)
    requires
        0 < profiles.len() <= usize::MAX,
    ensures
        ({
            let library = library_of(profiles);
            let none = forall|j: int| 0 <= j < profiles.len() ==> !(#[trigger] profiles[j]).active;
            &&& library.profiles.len() == profiles.len()
            &&& forall|k: int| 0 <= k < profiles.len() ==> #[trigger] library.profiles[k] == profiles[k].profile
            &&& library.selected < profiles.len()
            &&& none ==> library.selected == 0
            &&& !none ==> profiles[library.selected as int].active && forall|j: int|
                0 <= j < library.selected ==> !(#[trigger] profiles[j]).active
        }),
{
    first_active_is_active(profiles, 0);
}

/// A mouse that is read again has its charge, sensitivity, rate and mode anew; its lists and its profiles stay. A mouse of
/// another name is read whole.
pub proof fn refreshing_keeps_lists(wire: Wire, at: int, device: DeviceView, snapshot: SnapshotView)
    requires
        refreshed_at(wire, at, device, snapshot) is Done,
    ensures
        device.name != snapshot.name ==> refreshed_at(wire, at, device, snapshot) == snapshot_at(wire, at, device),
        device.name == snapshot.name ==> ({
            let after = refreshed_at(wire, at, device, snapshot)->value;
            let battery = battery_at(wire, at, device.features);
            let dpi = dpi_at(wire, ended(battery), device.features);
            let rate = rate_at(wire, ended(dpi), device.features);
            let status = onboard_status_at(wire, ended(rate), device.features);
            &&& after.name == snapshot.name
            &&& after.dpi_min == snapshot.dpi_min && after.dpi_max == snapshot.dpi_max && after.dpi_step
                == snapshot.dpi_step
            &&& after.report_rates == snapshot.report_rates
            &&& after.onboard_profiles == snapshot.onboard_profiles
            &&& battery is Done ==> after.battery == battery->value.percentage && after.battery_status == Some(
                battery->value.status,
            )
            &&& battery is Failed ==> after.battery is None && after.battery_status is None
            &&& dpi is Done ==> after.dpi == Some(dpi->value.x)
            &&& dpi is Failed ==> after.dpi is None
            &&& rate is Done ==> after.report_rate == Some(rate->value.hz)
            &&& rate is Failed ==> after.report_rate is None
            &&& status is Done ==> after.onboard == Some(status->value.mode_code == 1)
            &&& status is Failed ==> after.onboard is None
        }),
{
    reveal(refreshed_at);
}

/// A snapshot is kept where it has a name, a range of sensitivities with a step, and profiles whose points and rates are in
/// order. The charge of the battery is not kept, and everything else is. Only what was kept in the first form is shown.
pub proof fn sound_snapshots_are_kept(schema_version: u8, snapshot: SnapshotView)
    ensures
        ({
            let sound = {
                &&& trimmed(snapshot.name).len() > 0
                &&& 1 <= snapshot.dpi_min <= snapshot.dpi_max
                &&& snapshot.dpi_step >= 1
                &&& snapshot.onboard_profiles is Some
                &&& snapshot.onboard_profiles->0.selected < snapshot.onboard_profiles->0.profiles.len()
                &&& forall|i: int|
                    0 <= i < snapshot.onboard_profiles->0.profiles.len() ==> sound_profile(
                        #[trigger] snapshot.onboard_profiles->0.profiles[i],
                    )
            };
            &&& kept_snapshot(snapshot) is Some <==> sound
            &&& sound ==> kept_snapshot(snapshot) == Some(
                SnapshotView { battery: None, battery_status: None, ..snapshot },
            )
            &&& schema_version == 1 ==> restored(schema_version, snapshot) == kept_snapshot(snapshot)
            &&& schema_version != 1 ==> restored(schema_version, snapshot) is None
        }),
{
    if snapshot.onboard_profiles is Some {
        let profiles = snapshot.onboard_profiles->0.profiles;
        assert forall|i: int| 0 <= i < profiles.len() implies (safe_profile(#[trigger] profiles[i]) <==> sound_profile(
            profiles[i],
        )) by {
            sound_profiles_are_safe(profiles[i]);
        }
    }
}

/// Whether a profile has one to five points, an active and a shift point that are there, and a rate.
pub open spec fn sound_profile(profile: ProfileView) -> bool {
    let rate = profile.report_rate;
    &&& 1 <= profile.dpi_points.len() <= 5
    &&& profile.active_dpi < profile.dpi_points.len()
    &&& match profile.shift_dpi {
        Some(shift) => shift < profile.dpi_points.len(),
        None => true,
    }
    &&& rate == 125 || rate == 250 || rate == 500 || rate == 1000 || rate == 2000 || rate == 4000 || rate == 8000
}

proof fn sound_profiles_are_safe(profile: ProfileView)
    ensures
        safe_profile(profile) <==> sound_profile(profile),
{
    let rates = REPORT_RATES@;
    assert(rates[0] == 125 && rates[1] == 250 && rates[2] == 500 && rates[3] == 1000 && rates[4] == 2000 && rates[5]
        == 4000 && rates[6] == 8000);
}

/// What a task came to. A mouse that was read is shown; without the right to open it, that is shown; and any other error by
/// its text. Storing and getting access say so. What the user edits is loaded anew after both, after a full read where
/// that is asked for, and never after a read of the values alone.
pub proof fn tasks_are_told_of(task: TaskView, result: Outcome<SnapshotView>)
    ensures
        ({
            let told = result_of(task, result);
            match result {
                Ok(snapshot) => {
                    &&& told.state == StateView::Ready(snapshot)
                    &&& told.load_settings == (match task {
                        TaskView::Refresh { load_settings } => load_settings,
                        TaskView::RefreshStatus { .. } => false,
                        TaskView::SaveOnboard { .. } => true,
                        TaskView::GrantAccess => true,
                    })
                    &&& told.notice is Some <==> task is SaveOnboard || task is GrantAccess
                },
                Err(error) => {
                    &&& !told.load_settings
                    &&& told.notice is None
                    &&& told.state == (if error is PermissionDenied {
                        StateView::Permission
                    } else {
                        StateView::Error(error_text(error))
                    })
                },
            }
        }),
{
}

/// A mouse that is shown is brought up to date; without one, everything is read, and what the user edits stays.
pub proof fn refreshing_starts_from_what_is_shown(state: StateView)
    ensures
        refresh_of(state) == (match state {
            StateView::Ready(snapshot) => TaskView::RefreshStatus { snapshot },
            _ => TaskView::Refresh { load_settings: false },
        }),
{
}

/// The profiles of a mouse take the place of those that are edited. Without profiles, the selected one follows the
/// sensitivity and the rate of the mouse, and the others stay. Either way nothing is left to save.
pub proof fn mouse_is_loaded(editor: EditorView, snapshot: SnapshotView, i: int)
    requires
        editor.profiles.selected < editor.profiles.profiles.len(),
        0 <= i < editor.profiles.profiles.len(),
    ensures
        ({
            let after = loaded(editor, snapshot).0;
            let selected = editor.profiles.selected as int;
            &&& after.saved_profiles == after.profiles
            &&& !after.dirty
            &&& match snapshot.onboard_profiles {
                Some(profiles) => after.profiles == profiles,
                None => {
                    &&& after.profiles.selected == editor.profiles.selected
                    &&& after.profiles.profiles.len() == editor.profiles.profiles.len()
                    &&& i != selected ==> after.profiles.profiles[i] == editor.profiles.profiles[i]
                    &&& after.profiles.profiles[selected] == following(editor.profiles.profiles[selected], snapshot)
                },
            }
        }),
{
}

/// A profile that follows a mouse has its sensitivity as the active point and its rate, where the mouse tells them, and
/// keeps its name and its buttons.
pub proof fn profile_follows_mouse(profile: ProfileView, snapshot: SnapshotView)
    requires
        profile.well_formed(),
    ensures
        ({
            let after = following(profile, snapshot);
            &&& after.name == profile.name
            &&& after.bindings == profile.bindings
            &&& snapshot.report_rate matches Some(rate) ==> after.report_rate == rate
            &&& snapshot.report_rate is None ==> after.report_rate == profile.report_rate
            &&& snapshot.dpi matches Some(dpi) ==> after.active_dpi < after.dpi_points.len()
                && after.dpi_points[after.active_dpi as int] == (if dpi < 100 {
                100
            } else {
                dpi as int
            })
            &&& snapshot.dpi is None ==> after.dpi_points == profile.dpi_points && after.active_dpi == profile.active_dpi
                && after.shift_dpi == profile.shift_dpi
        }),
{
    if let Some(dpi) = snapshot.dpi {
        crate::profile::selecting_changes_one_point(profile, dpi, dpi);
    }
}

/// The application opens with what was kept of a mouse and its profiles, or with the default profile while it looks for a
/// mouse. Nothing is there to save.
pub proof fn application_opens(kept: Option<SnapshotView>)
    ensures
        ({
            let (editor, state) = opening(kept);
            &&& !editor.dirty
            &&& editor.saved_profiles == editor.profiles
            &&& kept matches Some(snapshot) ==> state == StateView::Ready(snapshot)
            &&& kept is None ==> state is Loading && editor.profiles.profiles == seq![default_profile()]
            &&& kept matches Some(snapshot) ==> (snapshot.onboard_profiles matches Some(profiles) ==> editor.profiles
                == profiles)
        }),
{
}

/// Resetting the sensitivity of a profile gives it the points and the rate of the default one, and keeps its name and its
/// buttons.
pub proof fn sensitivity_is_reset(profile: ProfileView)
    ensures
        ({
            let after = with_default_sensitivity(profile);
            &&& after.name == profile.name
            &&& after.bindings == profile.bindings
            &&& after.dpi_points == seq![400u16, 800u16, 1600u16, 3200u16]
            &&& after.active_dpi == 1
            &&& after.shift_dpi == Some(0usize)
            &&& after.report_rate == 1000
        }),
{
}

/// The rates and the range that are offered are those of the mouse that is shown, and otherwise all seven rates and the
/// range from 100 to 25600.
pub proof fn choices_are_those_of_mouse(state: StateView)
    ensures
        state matches StateView::Ready(snapshot) ==> offered_range(state) == (
            snapshot.dpi_min,
            snapshot.dpi_max,
            snapshot.dpi_step,
        ) && (snapshot.report_rates.len() > 0 ==> offered_rates(state) == snapshot.report_rates),
        !(state is Ready) ==> offered_range(state) == (100u16, 25600u16, 50u16) && offered_rates(state) == seq![
            125u32,
            250u32,
            500u32,
            1000u32,
            2000u32,
            4000u32,
            8000u32,
        ],
{
    assert(REPORT_RATES@ =~= seq![125u32, 250u32, 500u32, 1000u32, 2000u32, 4000u32, 8000u32]);
}

/// What a task came to reaches the editor where it is to load a mouse that was read; what the task says goes before what
/// loading says. Any other result leaves what is edited alone.
pub proof fn results_reach_the_editor(editor: EditorView, result: TaskResultView)
    ensures
        ({
            let (after, notice) = received(editor, result);
            match result.state {
                StateView::Ready(snapshot) => if result.load_settings {
                    &&& after == loaded(editor, snapshot).0
                    &&& result.notice is Some ==> notice == result.notice
                    &&& result.notice is None ==> notice == loaded(editor, snapshot).1
                } else {
                    after == editor && notice == result.notice
                },
                _ => after == editor && notice == result.notice,
            }
        }),
{
}

/// Loading says how many profiles came from the memory of the mouse, or that the values of the mouse were taken, where it
/// tells any.
pub proof fn loading_is_told(editor: EditorView, snapshot: SnapshotView)
    ensures
        ({
            let notice = loaded(editor, snapshot).1;
            match snapshot.onboard_profiles {
                Some(library) => notice == Some(
                    "Loaded "@ + dec(library.profiles.len()) + " profiles from onboard memory"@,
                ),
                None => {
                    &&& notice is Some <==> snapshot.dpi is Some || snapshot.report_rate is Some
                    &&& notice is Some && snapshot.onboard == Some(true) ==> notice == Some(
                        "Loaded the current "@ + "onboard"@ + " DPI and report rate"@,
                    )
                    &&& notice is Some && snapshot.onboard != Some(true) ==> notice == Some(
                        "Loaded the current "@ + "device"@ + " DPI and report rate"@,
                    )
                },
            }
        }),
{
}

/// A mouse is read in whole by asking for its battery, its sensitivity and the list, its rate and the list, its mode and its
/// profiles, one behind the other; what fails is left out.
pub proof fn mouse_is_read_in_whole(wire: Wire, at: int, device: DeviceView)
    requires
        snapshot_at(wire, at, device) is Done,
    ensures
        ({
            let features = device.features;
            let battery = battery_at(wire, at, features);
            let dpi = dpi_at(wire, ended(battery), features);
            let list = dpi_capabilities_at(wire, ended(dpi), features);
            let rate = rate_at(wire, ended(list), features);
            let rates = rate_capabilities_at(wire, ended(rate), features);
            let status = onboard_status_at(wire, ended(rates), features);
            let profiles = profiles_at(wire, ended(status), features);
            snapshot_at(wire, at, device) == (Step::Done {
                value: snapshot_of(
                    device.name,
                    Readings {
                        battery: brought(battery),
                        dpi: brought(dpi),
                        dpi_capabilities: brought(list),
                        rate: brought(rate),
                        rate_capabilities: brought(rates),
                        status: brought(status),
                        profiles: brought(profiles),
                    },
                ),
                next: ended(profiles),
            })
        }),
{
    reveal(snapshot_at);
}

/// What a reading brought is there exactly where it did not fail.
pub proof fn readings_may_fail(step: Step<u8>)
    ensures
        step matches Step::Done { value, next } ==> brought(step) == Some(value) && ended(step) == next,
        step matches Step::Failed { next, .. } ==> brought(step) is None && ended(step) == next,
{
}

/// Saving a profile stores it in its slot and takes it up, and then the mouse is read in whole.
pub proof fn saved_profile_is_shown(wire: Wire, at: int, device: DeviceView, slot: u8, profile: ProfileView)
    ensures
        match store_and_take_up_at(wire, at, device.features, slot, profile) {
            Step::Done { next, .. } => saved_at(wire, at, device, slot, profile) == snapshot_at(wire, next, device),
            Step::Failed { error, next } => saved_at(wire, at, device, slot, profile) == (Step::<SnapshotView>::Failed {
                error,
                next,
            }),
            Step::Astray => saved_at(wire, at, device, slot, profile) is Astray,
        },
{
    reveal(saved_at);
}

/// A profile that was read from a slot of the memory is saved to that slot.
pub proof fn profile_is_saved_where_it_was_read(wire: Wire, at: int, features: Seq<FeatureView>, selected: usize)
    requires
        profiles_at(wire, at, features) is Done,
        selected < profiles_at(wire, at, features)->value.len(),
    ensures
        ({
            let profiles = profiles_at(wire, at, features)->value;
            let library = LibraryView { selected, ..library_of(profiles) };
            &&& library.profiles[selected as int] == profiles[selected as int].profile
            &&& slot_to_save(library) == profiles[selected as int].slot
        }),
{
    let (listing, current_dpi) = profiles_are_read_for_slots(wire, at, features);
    let profiles = profiles_at(wire, at, features)->value;
    let headers = headers_at(wire, listing, features)->value;
    let info = onboard_info_at(wire, at, features);
    let status = onboard_status_at(wire, info->Done_next, features);
    let k = selected as int;
    assert(read_for_slot(
        wire,
        features,
        info->value.sector_size,
        status->value.active_sector,
        current_dpi,
        headers[k],
        profiles[k],
    ));
    listed_slots_are_counted_from_one(wire, listing, features, k);
    assert(profiles[k].slot == headers[k].slot);
}

}
