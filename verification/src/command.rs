//! The commands that a user can give a device, carried out.

use vstd::prelude::*;

use crate::cli::{can_be_summarized, hex_bytes_of, parse_hex_bytes, rising_numbers_can_be_summarized};
use crate::device::backup::{backup_at, read_onboard_backup, BackupView, OnboardMemoryBackup};
use crate::device::battery::{battery_at, read_battery, BatteryInfo, BatteryView};
use crate::device::dpi::{
    dpi_at, dpi_capabilities, dpi_capabilities_at, read_dpi, set_dpi, set_dpi_at, DpiCapabilities, DpiCapabilitiesView,
    DpiState,
};
use crate::device::format07::{OnboardProfile, OnboardProfileView};
use crate::device::identity::{
    firmware_at, firmware_views, identity_at, read_firmware, read_identity, DeviceIdentity, FirmwareInfo, FirmwareView,
    IdentityView,
};
use crate::device::memory::{
    activate_at, onboard_profile_views, profiles_at, read_onboard_profiles, set_onboard_active_profile,
    set_onboard_current_dpi_index, set_stage_at, verify_onboard_sector_write, verify_write_at, write_onboard_profile,
    write_profile_at, OnboardProfileWrite,
};
use crate::device::onboard::{
    onboard_info_at, onboard_status_at, read_onboard_info, read_onboard_sector, read_onboard_status, sector_at,
    set_onboard_mode, set_onboard_mode_at, OnboardInfo, OnboardInfoView, OnboardSector, OnboardStatus,
    OnboardStatusView, SectorView,
};
use crate::device::rate::{
    rate_at, rate_capabilities, rate_capabilities_at, read_rate, set_rate, set_rate_at, RateCapabilities,
    RateCapabilitiesView, RateState,
};
use crate::device::{select_device, selection, DeviceView, DiscoveryOutcome, DiscoveryView, LogicalDevice};
use crate::error::{outcome, AppError, ErrorView, Outcome, Result};
use crate::hid::transport::HidIo;
use crate::hid::{endpoint_views, EndpointView, HidEndpoint};
use crate::hidpp::features::{required_feature, FeatureTable, FeatureView, ONBOARD_PROFILES};
use crate::hidpp::protocol::HidppTransport;
use crate::hidpp::session::{call_at, grown, group_session, read_at, reached, Step, Wire};
use crate::profile::{action_label, button_label, BindingView, Profile, ProfileView};
use crate::text::{dec, decimal, hex4, hex_word, join3, join4, same_text, texts};

verus! {

broadcast use group_session;

/// A call of a feature as the user spells it out.
#[derive(Debug, PartialEq, Eq)]
pub struct RawCommand {
    pub feature: u16,
    pub function: u8,
    pub data: String,
    pub read_only: bool,
    pub dangerous_write: bool,
}

/// A [`RawCommand`] with its text as a sequence of characters.
pub struct RawCommandView {
    pub feature: u16,
    pub function: u8,
    pub data: Seq<char>,
    pub read_only: bool,
    pub dangerous_write: bool,
}

impl View for RawCommand {
    type V = RawCommandView;

    open spec fn view(&self) -> RawCommandView {
        RawCommandView {
            feature: self.feature,
            function: self.function,
            data: self.data@,
            read_only: self.read_only,
            dangerous_write: self.dangerous_write,
        }
    }
}

/// What came of a raw call.
#[derive(Debug, PartialEq, Eq)]
pub struct RawReply {
    pub feature: u16,
    pub feature_index: u8,
    pub function: u8,
    pub request: Vec<u8>,
    pub response: Vec<u8>,
}

/// A [`RawReply`] with its bytes as sequences.
pub struct RawReplyView {
    pub feature: u16,
    pub feature_index: u8,
    pub function: u8,
    pub request: Seq<u8>,
    pub response: Seq<u8>,
}

impl View for RawReply {
    type V = RawReplyView;

    open spec fn view(&self) -> RawReplyView {
        RawReplyView {
            feature: self.feature,
            feature_index: self.feature_index,
            function: self.function,
            request: self.request@,
            response: self.response@,
        }
    }
}

/// Why a raw call is not made, if it is not: the user must say whether it reads or writes, and the memory of a
/// mouse is not written this way in any case.
pub open spec fn raw_refusal(command: RawCommandView) -> Option<ErrorView> {
    if command.read_only == command.dangerous_write {
        Some(
            ErrorView::Unsafe(
                "choose exactly one of --read-only or --dangerous-write after classifying the command"@,
            ),
        )
    } else if command.feature == ONBOARD_PROFILES && (command.function == 0x60 || command.function == 0x70
        || command.function == 0x80) {
        Some(
            ErrorView::Unsafe(
                "ONBOARD_PROFILES memory write functions are disabled in v0.1, even with --dangerous-write"@,
            ),
        )
    } else {
        None
    }
}

fn check_raw(command: &RawCommand) -> (allowed: Result<()>)
    ensures
        match allowed {
            Ok(_) => raw_refusal(command@) is None,
            Err(error) => raw_refusal(command@) == Some(error@),
        },
{
    if command.read_only == command.dangerous_write {
        return Err(
            AppError::Unsafe(
                "choose exactly one of --read-only or --dangerous-write after classifying the command".to_owned(),
            ),
        );
    }
    if command.feature == ONBOARD_PROFILES && (command.function == 0x60 || command.function == 0x70
        || command.function == 0x80) {
        return Err(
            AppError::Unsafe(
                "ONBOARD_PROFILES memory write functions are disabled in v0.1, even with --dangerous-write".to_owned(),
            ),
        );
    }
    Ok(())
}

/// Making a raw call: once where it may write, and once more after a timeout where it only reads.
#[verifier::opaque]
pub open spec fn raw_at(wire: Wire, at: int, features: Seq<FeatureView>, command: RawCommandView) -> Step<RawReplyView> {
    match raw_refusal(command) {
        Some(error) => Step::Failed { error, next: at },
        None => match hex_bytes_of(command.data) {
            Err(text) => Step::Failed { error: ErrorView::Validation(text), next: at },
            Ok(data) => match required_feature(features, command.feature) {
                Err(error) => Step::Failed { error, next: at },
                Ok(feature) => {
                    let reply = if command.read_only {
                        read_at(wire, at, feature.index, command.function, data)
                    } else {
                        call_at(wire, at, feature.index, command.function, data)
                    };
                    match reply {
                        Step::Done { value, next } => Step::Done {
                            value: RawReplyView {
                                feature: command.feature,
                                feature_index: feature.index,
                                function: command.function,
                                request: data,
                                response: value,
                            },
                            next,
                        },
                        step => step.stop(),
                    }
                },
            },
        },
    }
}

/// Makes a raw call, unless it is refused.
pub fn raw_command<I: HidIo>(
    transport: &mut HidppTransport<I>,
    features: &FeatureTable,
    command: &RawCommand,
) -> (reply: Result<RawReply>)
    ensures
        grown(old(transport)@, final(transport)@),
        final(transport).held() == old(transport).held(),
        forall|wire: Wire|
            wire.covers(final(transport)@) ==> #[trigger] raw_at(
                wire,
                old(transport)@.mark(),
                features@,
                command@,
            ) == reached(outcome(reply), final(transport)@.mark()),
{
    reveal(raw_at);

    check_raw(command)?;
    let data = match parse_hex_bytes(command.data.as_str()) {
        Ok(data) => data,
        Err(text) => {
            return Err(AppError::Validation(text));
        },
    };
    let feature = features.require(command.feature)?;
    let response = if command.read_only {
        transport.transact_read(feature.index, command.function, data.as_slice())?
    } else {
        transport.transact(feature.index, command.function, data.as_slice())?
    };
    Ok(
        RawReply {
            feature: command.feature,
            feature_index: feature.index,
            function: command.function,
            request: data,
            response,
        },
    )
}

/// A raw call never starts, carries or ends a write to the memory of a mouse: where it would, it is refused and
/// nothing is sent.
pub proof fn raw_call_does_not_write_memory(wire: Wire, at: int, features: Seq<FeatureView>, command: RawCommandView)
    requires
        command.feature == ONBOARD_PROFILES,
        command.function == 0x60 || command.function == 0x70 || command.function == 0x80,
    ensures
        raw_at(wire, at, features, command) matches Step::Failed { error: ErrorView::Unsafe(_), next } && next == at,
{
    reveal(raw_at);
}

/// A profile of the memory in brief.
#[derive(Debug, PartialEq, Eq)]
pub struct OnboardProfileSummary {
    pub slot: u8,
    pub sector: u16,
    pub enabled: bool,
    pub active: bool,
    pub crc_valid: bool,
    pub report_rate: u32,
    pub dpi_points: Vec<u16>,
    pub active_dpi: usize,
    pub shift_dpi: Option<usize>,
    pub buttons: Vec<String>,
}

/// An [`OnboardProfileSummary`] with its lists as sequences.
pub struct SummaryView {
    pub slot: u8,
    pub sector: u16,
    pub enabled: bool,
    pub active: bool,
    pub crc_valid: bool,
    pub report_rate: u32,
    pub dpi_points: Seq<u16>,
    pub active_dpi: usize,
    pub shift_dpi: Option<usize>,
    pub buttons: Seq<Seq<char>>,
}

impl View for OnboardProfileSummary {
    type V = SummaryView;

    open spec fn view(&self) -> SummaryView {
        SummaryView {
            slot: self.slot,
            sector: self.sector,
            enabled: self.enabled,
            active: self.active,
            crc_valid: self.crc_valid,
            report_rate: self.report_rate,
            dpi_points: self.dpi_points@,
            active_dpi: self.active_dpi,
            shift_dpi: self.shift_dpi,
            buttons: texts(self.buttons@),
        }
    }
}

/// The profiles of the memory in brief.
#[derive(Debug, PartialEq, Eq)]
pub struct OnboardProfileList {
    pub profile_format: u8,
    pub active_sector: Option<u16>,
    pub profiles: Vec<OnboardProfileSummary>,
}

/// An [`OnboardProfileList`] with its list as a sequence.
pub struct ProfileListView {
    pub profile_format: u8,
    pub active_sector: Option<u16>,
    pub profiles: Seq<SummaryView>,
}

/// The views of summaries.
pub open spec fn summary_views(summaries: Seq<OnboardProfileSummary>) -> Seq<SummaryView> {
    summaries.map_values(|summary: OnboardProfileSummary| summary@)
}

impl View for OnboardProfileList {
    type V = ProfileListView;

    open spec fn view(&self) -> ProfileListView {
        ProfileListView {
            profile_format: self.profile_format,
            active_sector: self.active_sector,
            profiles: summary_views(self.profiles@),
        }
    }
}

/// A binding in words.
pub open spec fn binding_text(binding: BindingView) -> Seq<char> {
    button_label(binding.button) + ": "@ + action_label(binding.action)
}

/// A profile of the memory in brief.
pub open spec fn summary_of(profile: OnboardProfileView) -> SummaryView {
    SummaryView {
        slot: profile.slot,
        sector: profile.sector,
        enabled: profile.enabled,
        active: profile.active,
        crc_valid: profile.crc_valid,
        report_rate: profile.profile.report_rate,
        dpi_points: profile.profile.dpi_points,
        active_dpi: profile.profile.active_dpi,
        shift_dpi: profile.profile.shift_dpi,
        buttons: profile.profile.bindings.map_values(|binding: BindingView| binding_text(binding)),
    }
}

/// Puts a profile of the memory in brief.
pub fn summarize_profile(onboard: OnboardProfile) -> (summary: OnboardProfileSummary)
    ensures
        summary@ == summary_of(onboard@),
{
    let mut buttons: Vec<String> = Vec::new();
    let mut i: usize = 0;
    let bindings = &onboard.profile.bindings;
    while i < bindings.len()
        invariant
            i <= bindings.len(),
            buttons@.len() == i,
            forall|k: int| 0 <= k < i ==> #[trigger] buttons@[k]@ == binding_text(bindings@[k]@),
        decreases bindings.len() - i,
    {
        buttons.push(join3(bindings[i].button.label(), ": ", bindings[i].action.label().as_str()));
        i = i + 1;
    }
    assert(texts(buttons@) =~= onboard@.profile.bindings.map_values(|binding: BindingView| binding_text(binding)));
    OnboardProfileSummary {
        slot: onboard.slot,
        sector: onboard.sector,
        enabled: onboard.enabled,
        active: onboard.active,
        crc_valid: onboard.crc_valid,
        report_rate: onboard.profile.report_rate,
        dpi_points: onboard.profile.dpi_points,
        active_dpi: onboard.profile.active_dpi,
        shift_dpi: onboard.profile.shift_dpi,
        buttons,
    }
}

/// Listing the profiles of the memory.
#[verifier::opaque]
pub open spec fn list_at(wire: Wire, at: int, features: Seq<FeatureView>) -> Step<ProfileListView> {
    match onboard_info_at(wire, at, features) {
        Step::Done { value: info, next } => match onboard_status_at(wire, next, features) {
            Step::Done { value: status, next } => match profiles_at(wire, next, features) {
                Step::Done { value: profiles, next } => Step::Done {
                    value: ProfileListView {
                        profile_format: info.profile_format,
                        active_sector: status.active_sector,
                        profiles: profiles.map_values(|profile: OnboardProfileView| summary_of(profile)),
                    },
                    next,
                },
                step => step.stop(),
            },
            step => step.stop(),
        },
        step => step.stop(),
    }
}

/// Lists the profiles of the memory.
pub fn list_onboard_profiles<I: HidIo>(
    transport: &mut HidppTransport<I>,
    features: &FeatureTable,
) -> (list: Result<OnboardProfileList>)
    ensures
        grown(old(transport)@, final(transport)@),
        final(transport).held() == old(transport).held(),
        forall|wire: Wire|
            wire.covers(final(transport)@) ==> #[trigger] list_at(wire, old(transport)@.mark(), features@) == reached(
                outcome(list),
                final(transport)@.mark(),
            ),
{
    reveal(list_at);

    let info = read_onboard_info(transport, features)?;
    let status = read_onboard_status(transport, features)?;
    let onboard = read_onboard_profiles(transport, features)?;
    let mut profiles: Vec<OnboardProfileSummary> = Vec::new();
    let mut i: usize = 0;
    while i < onboard.len()
        invariant
            i <= onboard.len(),
            profiles@.len() == i,
            forall|k: int| 0 <= k < i ==> #[trigger] profiles@[k]@ == summary_of(onboard@[k]@),
        decreases onboard.len() - i,
    {
        profiles.push(summarize_profile(onboard[i].clone()));
        i = i + 1;
    }
    assert(summary_views(profiles@) =~= onboard_profile_views(onboard@).map_values(
        |profile: OnboardProfileView| summary_of(profile),
    ));
    Ok(OnboardProfileList { profile_format: info.profile_format, active_sector: status.active_sector, profiles })
}

/// Reading a sector, where the memory has it.
#[verifier::opaque]
pub open spec fn dump_at(wire: Wire, at: int, features: Seq<FeatureView>, sector: u16) -> Step<SectorView> {
    match onboard_info_at(wire, at, features) {
        Step::Done { value: info, next } => if sector >= info.sector_count {
            let last: u16 = if info.sector_count == 0 {
                0
            } else {
                (info.sector_count - 1) as u16
            };
            Step::Failed {
                error: ErrorView::Validation(
                    "sector 0x"@ + hex4(sector, false) + " is outside the device range 0x0000-0x"@ + hex4(last, false),
                ),
                next,
            }
        } else {
            sector_at(wire, next, features, sector, info.sector_size)
        },
        step => step.stop(),
    }
}

/// Reads a sector, where the memory has it.
pub fn dump_onboard_sector<I: HidIo>(
    transport: &mut HidppTransport<I>,
    features: &FeatureTable,
    sector: u16,
) -> (content: Result<OnboardSector>)
    ensures
        grown(old(transport)@, final(transport)@),
        final(transport).held() == old(transport).held(),
        forall|wire: Wire|
            wire.covers(final(transport)@) ==> #[trigger] dump_at(
                wire,
                old(transport)@.mark(),
                features@,
                sector,
            ) == reached(outcome(content), final(transport)@.mark()),
{
    reveal(dump_at);

    let info = read_onboard_info(transport, features)?;
    if sector >= info.sector_count as u16 {
        let last: u16 = if info.sector_count == 0 { 0 } else { (info.sector_count - 1) as u16 };
        return Err(
            AppError::Validation(
                join4(
                    "sector 0x",
                    hex_word(sector, false).as_str(),
                    " is outside the device range 0x0000-0x",
                    hex_word(last, false).as_str(),
                ),
            ),
        );
    }
    read_onboard_sector(transport, features, sector, info.sector_size)
}

/// Switching to onboard mode and making the profile of a slot the active one.
#[verifier::opaque]
pub open spec fn use_slot_at(wire: Wire, at: int, features: Seq<FeatureView>, slot: u8) -> Step<OnboardStatusView> {
    match set_onboard_mode_at(wire, at, features, true) {
        Step::Done { next, .. } => activate_at(wire, next, features, slot),
        step => step,
    }
}

/// Switches to onboard mode and makes the profile of a slot the active one.
pub fn use_onboard_slot<I: HidIo>(
    transport: &mut HidppTransport<I>,
    features: &FeatureTable,
    slot: u8,
) -> (status: Result<OnboardStatus>)
    ensures
        grown(old(transport)@, final(transport)@),
        final(transport).held() == old(transport).held(),
        forall|wire: Wire|
            wire.covers(final(transport)@) ==> #[trigger] use_slot_at(
                wire,
                old(transport)@.mark(),
                features@,
                slot,
            ) == reached(outcome(status), final(transport)@.mark()),
{
    reveal(use_slot_at);

    set_onboard_mode(transport, features, true)?;
    set_onboard_active_profile(transport, features, slot)
}

/// Choosing a stage, counted from one.
#[verifier::opaque]
pub open spec fn stage_at(wire: Wire, at: int, features: Seq<FeatureView>, stage: u8) -> Step<u8> {
    if !(1 <= stage <= 5) {
        Step::Failed { error: ErrorView::Validation("onboard stage must be between 1 and 5"@), next: at }
    } else {
        set_stage_at(wire, at, features, (stage - 1) as u8)
    }
}

/// Chooses a stage, counted from one. Says its index, counted from zero.
pub fn choose_stage<I: HidIo>(transport: &mut HidppTransport<I>, features: &FeatureTable, stage: u8) -> (index: Result<u8>)
    ensures
        grown(old(transport)@, final(transport)@),
        final(transport).held() == old(transport).held(),
        forall|wire: Wire|
            wire.covers(final(transport)@) ==> #[trigger] stage_at(
                wire,
                old(transport)@.mark(),
                features@,
                stage,
            ) == reached(outcome(index), final(transport)@.mark()),
{
    reveal(stage_at);

    if stage < 1 || stage > 5 {
        return Err(AppError::Validation("onboard stage must be between 1 and 5".to_owned()));
    }
    set_onboard_current_dpi_index(transport, features, stage - 1)
}

/// The first profile of a slot, from a place on.
pub open spec fn profile_of_slot(profiles: Seq<OnboardProfileView>, slot: u8, from: int) -> Option<OnboardProfileView>
    decreases profiles.len() - from,
{
    if from < 0 || from >= profiles.len() {
        None
    } else if profiles[from].slot == slot {
        Some(profiles[from])
    } else {
        profile_of_slot(profiles, slot, from + 1)
    }
}

fn find_profile(profiles: &Vec<OnboardProfile>, slot: u8) -> (place: Option<usize>)
    ensures
        match place {
            Some(at) => at < profiles@.len() && profile_of_slot(onboard_profile_views(profiles@), slot, 0) == Some(
                profiles@[at as int]@,
            ),
            None => profile_of_slot(onboard_profile_views(profiles@), slot, 0) is None,
        },
{
    let mut i: usize = 0;
    while i < profiles.len()
        invariant
            i <= profiles.len(),
            profile_of_slot(onboard_profile_views(profiles@), slot, 0) == profile_of_slot(
                onboard_profile_views(profiles@),
                slot,
                i as int,
            ),
        decreases profiles.len() - i,
    {
        if profiles[i].slot == slot {
            return Some(i);
        }
        i = i + 1;
    }
    None
}

/// Making the mouse take up what is stored in a slot: out of onboard mode and into it again, then the slot, then
/// the stage.
#[verifier::opaque]
pub open spec fn take_up_at(wire: Wire, at: int, features: Seq<FeatureView>, slot: u8, stage: u8) -> Step<u8> {
    match set_onboard_mode_at(wire, at, features, false) {
        Step::Done { next, .. } => match set_onboard_mode_at(wire, next, features, true) {
            Step::Done { next, .. } => match activate_at(wire, next, features, slot) {
                Step::Done { next, .. } => set_stage_at(wire, next, features, stage),
                step => step.stop(),
            },
            step => step.stop(),
        },
        step => step.stop(),
    }
}

/// Makes the mouse take up what is stored in a slot.
pub fn take_up_slot<I: HidIo>(
    transport: &mut HidppTransport<I>,
    features: &FeatureTable,
    slot: u8,
    stage: u8,
) -> (taken: Result<u8>)
    ensures
        grown(old(transport)@, final(transport)@),
        final(transport).held() == old(transport).held(),
        forall|wire: Wire|
            wire.covers(final(transport)@) ==> #[trigger] take_up_at(
                wire,
                old(transport)@.mark(),
                features@,
                slot,
                stage,
            ) == reached(outcome(taken), final(transport)@.mark()),
{
    reveal(take_up_at);

    set_onboard_mode(transport, features, false)?;
    set_onboard_mode(transport, features, true)?;
    set_onboard_active_profile(transport, features, slot)?;
    set_onboard_current_dpi_index(transport, features, stage)
}

/// Storing a profile in a slot and making the mouse take it up.
#[verifier::opaque]
pub open spec fn store_and_take_up_at(
    wire: Wire,
    at: int,
    features: Seq<FeatureView>,
    slot: u8,
    profile: ProfileView,
) -> Step<OnboardProfileWrite> {
    match write_profile_at(wire, at, features, slot, profile) {
        Step::Done { value: written, next } => match take_up_at(
            wire,
            next,
            features,
            slot,
            (profile.active_dpi % 256) as u8,
        ) {
            Step::Done { next, .. } => Step::Done { value: written, next },
            step => step.stop(),
        },
        step => step,
    }
}

/// Stores a profile in a slot and makes the mouse take it up.
pub fn store_and_take_up<I: HidIo>(
    transport: &mut HidppTransport<I>,
    features: &FeatureTable,
    slot: u8,
    profile: &Profile,
) -> (written: Result<OnboardProfileWrite>)
    ensures
        grown(old(transport)@, final(transport)@),
        final(transport).held() == old(transport).held(),
        forall|wire: Wire|
            wire.covers(final(transport)@) ==> #[trigger] store_and_take_up_at(
                wire,
                old(transport)@.mark(),
                features@,
                slot,
                profile@,
            ) == reached(outcome(written), final(transport)@.mark()),
{
    reveal(store_and_take_up_at);

    let written = write_onboard_profile(transport, features, slot, profile)?;
    take_up_slot(transport, features, slot, (profile.active_dpi % 256) as u8)?;
    Ok(written)
}

/// Storing another report rate in the profile of a slot.
#[verifier::opaque]
pub open spec fn store_rate_at(wire: Wire, at: int, features: Seq<FeatureView>, slot: u8, hz: u32) -> Step<OnboardProfileWrite> {
    match profiles_at(wire, at, features) {
        Step::Done { value: profiles, next } => match profile_of_slot(profiles, slot, 0) {
            None => Step::Failed {
                error: ErrorView::Validation("onboard profile slot "@ + dec(slot as nat) + " does not exist"@),
                next,
            },
            Some(onboard) => store_and_take_up_at(
                wire,
                next,
                features,
                slot,
                ProfileView { report_rate: hz, ..onboard.profile },
            ),
        },
        step => step.stop(),
    }
}

/// Stores another report rate in the profile of a slot.
pub fn store_onboard_rate<I: HidIo>(
    transport: &mut HidppTransport<I>,
    features: &FeatureTable,
    slot: u8,
    hz: u32,
) -> (written: Result<OnboardProfileWrite>)
    ensures
        grown(old(transport)@, final(transport)@),
        final(transport).held() == old(transport).held(),
        forall|wire: Wire|
            wire.covers(final(transport)@) ==> #[trigger] store_rate_at(
                wire,
                old(transport)@.mark(),
                features@,
                slot,
                hz,
            ) == reached(outcome(written), final(transport)@.mark()),
{
    reveal(store_rate_at);

    let profiles = read_onboard_profiles(transport, features)?;
    let mut profile = match find_profile(&profiles, slot) {
        Some(at) => profiles[at].profile.clone(),
        None => {
            return Err(
                AppError::Validation(
                    join3("onboard profile slot ", decimal(slot as u64).as_str(), " does not exist"),
                ),
            );
        },
    };
    profile.report_rate = hz;
    store_and_take_up(transport, features, slot, &profile)
}

/// A command for a device.
#[derive(Debug, PartialEq, Eq)]
pub enum Command {
    DeviceInfo,
    DeviceFeatures,
    DeviceFirmware,
    Battery { details: bool },
    DpiGet,
    DpiCapabilities,
    DpiSet { x: u16, y: Option<u16> },
    RateGet,
    RateCapabilities,
    RateSet { hz: u32 },
    OnboardStatus,
    OnboardInfo { raw: bool },
    OnboardMode { onboard: bool },
    ProfilesList,
    ProfilesDump { sector: u16 },
    ProfilesBackup,
    ProfilesActivate { slot: u8 },
    ProfilesStage { stage: u8 },
    ProfilesSetRate { slot: u8, hz: u32 },
    ProfilesVerifyWrite { sector: u16 },
    HidppFeatures,
    Raw(RawCommand),
}

/// A [`Command`] with the view of its raw call.
pub enum CommandView {
    DeviceInfo,
    DeviceFeatures,
    DeviceFirmware,
    Battery { details: bool },
    DpiGet,
    DpiCapabilities,
    DpiSet { x: u16, y: Option<u16> },
    RateGet,
    RateCapabilities,
    RateSet { hz: u32 },
    OnboardStatus,
    OnboardInfo { raw: bool },
    OnboardMode { onboard: bool },
    ProfilesList,
    ProfilesDump { sector: u16 },
    ProfilesBackup,
    ProfilesActivate { slot: u8 },
    ProfilesStage { stage: u8 },
    ProfilesSetRate { slot: u8, hz: u32 },
    ProfilesVerifyWrite { sector: u16 },
    HidppFeatures,
    Raw(RawCommandView),
}

impl View for Command {
    type V = CommandView;

    open spec fn view(&self) -> CommandView {
        match *self {
            Command::DeviceInfo => CommandView::DeviceInfo,
            Command::DeviceFeatures => CommandView::DeviceFeatures,
            Command::DeviceFirmware => CommandView::DeviceFirmware,
            Command::Battery { details } => CommandView::Battery { details },
            Command::DpiGet => CommandView::DpiGet,
            Command::DpiCapabilities => CommandView::DpiCapabilities,
            Command::DpiSet { x, y } => CommandView::DpiSet { x, y },
            Command::RateGet => CommandView::RateGet,
            Command::RateCapabilities => CommandView::RateCapabilities,
            Command::RateSet { hz } => CommandView::RateSet { hz },
            Command::OnboardStatus => CommandView::OnboardStatus,
            Command::OnboardInfo { raw } => CommandView::OnboardInfo { raw },
            Command::OnboardMode { onboard } => CommandView::OnboardMode { onboard },
            Command::ProfilesList => CommandView::ProfilesList,
            Command::ProfilesDump { sector } => CommandView::ProfilesDump { sector },
            Command::ProfilesBackup => CommandView::ProfilesBackup,
            Command::ProfilesActivate { slot } => CommandView::ProfilesActivate { slot },
            Command::ProfilesStage { stage } => CommandView::ProfilesStage { stage },
            Command::ProfilesSetRate { slot, hz } => CommandView::ProfilesSetRate { slot, hz },
            Command::ProfilesVerifyWrite { sector } => CommandView::ProfilesVerifyWrite { sector },
            Command::HidppFeatures => CommandView::HidppFeatures,
            Command::Raw(raw) => CommandView::Raw(raw@),
        }
    }
}

/// What a command came to.
#[derive(Debug)]
pub enum Report {
    Identity(DeviceIdentity),
    Features(FeatureTable),
    Firmware(Vec<FirmwareInfo>),
    Battery { battery: BatteryInfo, details: bool },
    Dpi(DpiState),
    DpiCapabilities(DpiCapabilities),
    DpiSet(DpiState),
    Rate(RateState),
    RateCapabilities(RateCapabilities),
    RateSet(RateState),
    Status(OnboardStatus),
    Info { info: OnboardInfo, raw: bool },
    Profiles(OnboardProfileList),
    Sector(OnboardSector),
    Backup(OnboardMemoryBackup),
    Stage(u8),
    RateStored { hz: u32, written: OnboardProfileWrite },
    SectorVerified(OnboardSector),
    FeatureTable(FeatureTable),
    Raw(RawReply),
}

/// A [`Report`] with the views of what it holds.
pub enum ReportView {
    Identity(IdentityView),
    Features(Seq<FeatureView>),
    Firmware(Seq<FirmwareView>),
    Battery { battery: BatteryView, details: bool },
    Dpi(DpiState),
    DpiCapabilities(DpiCapabilitiesView),
    DpiSet(DpiState),
    Rate(RateState),
    RateCapabilities(RateCapabilitiesView),
    RateSet(RateState),
    Status(OnboardStatusView),
    Info { info: OnboardInfoView, raw: bool },
    Profiles(ProfileListView),
    Sector(SectorView),
    Backup(BackupView),
    Stage(u8),
    RateStored { hz: u32, written: OnboardProfileWrite },
    SectorVerified(SectorView),
    FeatureTable(Seq<FeatureView>),
    Raw(RawReplyView),
}

impl View for Report {
    type V = ReportView;

    open spec fn view(&self) -> ReportView {
        match *self {
            Report::Identity(identity) => ReportView::Identity(identity@),
            Report::Features(features) => ReportView::Features(features@),
            Report::Firmware(firmware) => ReportView::Firmware(firmware_views(firmware@)),
            Report::Battery { battery, details } => ReportView::Battery { battery: battery@, details },
            Report::Dpi(dpi) => ReportView::Dpi(dpi),
            Report::DpiCapabilities(capabilities) => ReportView::DpiCapabilities(capabilities@),
            Report::DpiSet(dpi) => ReportView::DpiSet(dpi),
            Report::Rate(rate) => ReportView::Rate(rate),
            Report::RateCapabilities(capabilities) => ReportView::RateCapabilities(capabilities@),
            Report::RateSet(rate) => ReportView::RateSet(rate),
            Report::Status(status) => ReportView::Status(status@),
            Report::Info { info, raw } => ReportView::Info { info: info@, raw },
            Report::Profiles(list) => ReportView::Profiles(list@),
            Report::Sector(sector) => ReportView::Sector(sector@),
            Report::Backup(backup) => ReportView::Backup(backup@),
            Report::Stage(index) => ReportView::Stage(index),
            Report::RateStored { hz, written } => ReportView::RateStored { hz, written },
            Report::SectorVerified(sector) => ReportView::SectorVerified(sector@),
            Report::FeatureTable(features) => ReportView::FeatureTable(features@),
            Report::Raw(reply) => ReportView::Raw(reply@),
        }
    }
}

/// Whether a report can be put into lines: the sensitivities in it can be summarized.
pub open spec fn printable(report: ReportView) -> bool {
    match report {
        ReportView::DpiCapabilities(capabilities) => can_be_summarized(capabilities.x_values, 0),
        _ => true,
    }
}

/// Carrying out a command.
#[verifier::opaque]
pub open spec fn command_at(wire: Wire, at: int, device: DeviceView, command: CommandView) -> Step<ReportView> {
    match command {
        CommandView::DeviceInfo => match identity_at(wire, at, device) {
            Step::Done { value, next } => Step::Done { value: ReportView::Identity(value), next },
            step => step.stop(),
        },
        CommandView::DeviceFeatures => Step::Done { value: ReportView::Features(device.features), next: at },
        CommandView::DeviceFirmware => match firmware_at(wire, at, device.features) {
            Step::Done { value, next } => Step::Done { value: ReportView::Firmware(value), next },
            step => step.stop(),
        },
        CommandView::Battery { details } => match battery_at(wire, at, device.features) {
            Step::Done { value, next } => Step::Done { value: ReportView::Battery { battery: value, details }, next },
            step => step.stop(),
        },
        CommandView::DpiGet => match dpi_at(wire, at, device.features) {
            Step::Done { value, next } => Step::Done { value: ReportView::Dpi(value), next },
            step => step.stop(),
        },
        CommandView::DpiCapabilities => match dpi_capabilities_at(wire, at, device.features) {
            Step::Done { value, next } => Step::Done { value: ReportView::DpiCapabilities(value), next },
            step => step.stop(),
        },
        CommandView::DpiSet { x, y } => match set_dpi_at(wire, at, device.features, x, y) {
            Step::Done { value, next } => Step::Done { value: ReportView::DpiSet(value), next },
            step => step.stop(),
        },
        CommandView::RateGet => match rate_at(wire, at, device.features) {
            Step::Done { value, next } => Step::Done { value: ReportView::Rate(value), next },
            step => step.stop(),
        },
        CommandView::RateCapabilities => match rate_capabilities_at(wire, at, device.features) {
            Step::Done { value, next } => Step::Done { value: ReportView::RateCapabilities(value), next },
            step => step.stop(),
        },
        CommandView::RateSet { hz } => match set_rate_at(wire, at, device.features, hz) {
            Step::Done { value, next } => Step::Done { value: ReportView::RateSet(value), next },
            step => step.stop(),
        },
        CommandView::OnboardStatus => match onboard_status_at(wire, at, device.features) {
            Step::Done { value, next } => Step::Done { value: ReportView::Status(value), next },
            step => step.stop(),
        },
        CommandView::OnboardInfo { raw } => match onboard_info_at(wire, at, device.features) {
            Step::Done { value, next } => Step::Done { value: ReportView::Info { info: value, raw }, next },
            step => step.stop(),
        },
        CommandView::OnboardMode { onboard } => match set_onboard_mode_at(wire, at, device.features, onboard) {
            Step::Done { value, next } => Step::Done { value: ReportView::Status(value), next },
            step => step.stop(),
        },
        CommandView::ProfilesList => match list_at(wire, at, device.features) {
            Step::Done { value, next } => Step::Done { value: ReportView::Profiles(value), next },
            step => step.stop(),
        },
        CommandView::ProfilesDump { sector } => match dump_at(wire, at, device.features, sector) {
            Step::Done { value, next } => Step::Done { value: ReportView::Sector(value), next },
            step => step.stop(),
        },
        CommandView::ProfilesBackup => match backup_at(wire, at, device) {
            Step::Done { value, next } => Step::Done { value: ReportView::Backup(value), next },
            step => step.stop(),
        },
        CommandView::ProfilesActivate { slot } => match use_slot_at(wire, at, device.features, slot) {
            Step::Done { value, next } => Step::Done { value: ReportView::Status(value), next },
            step => step.stop(),
        },
        CommandView::ProfilesStage { stage } => match stage_at(wire, at, device.features, stage) {
            Step::Done { value, next } => Step::Done { value: ReportView::Stage(value), next },
            step => step.stop(),
        },
        CommandView::ProfilesSetRate { slot, hz } => match store_rate_at(wire, at, device.features, slot, hz) {
            Step::Done { value, next } => Step::Done { value: ReportView::RateStored { hz, written: value }, next },
            step => step.stop(),
        },
        CommandView::ProfilesVerifyWrite { sector } => match verify_write_at(wire, at, device.features, sector) {
            Step::Done { value, next } => Step::Done { value: ReportView::SectorVerified(value), next },
            step => step.stop(),
        },
        CommandView::HidppFeatures => Step::Done { value: ReportView::FeatureTable(device.features), next: at },
        CommandView::Raw(raw) => match raw_at(wire, at, device.features, raw) {
            Step::Done { value, next } => Step::Done { value: ReportView::Raw(value), next },
            step => step.stop(),
        },
    }
}

/// Carries out a command on a device.
pub fn execute<I: HidIo>(
    transport: &mut HidppTransport<I>,
    device: &LogicalDevice,
    command: &Command,
) -> (report: Result<Report>)
    ensures
        grown(old(transport)@, final(transport)@),
        final(transport).held() == old(transport).held(),
        forall|wire: Wire|
            wire.covers(final(transport)@) ==> #[trigger] command_at(
                wire,
                old(transport)@.mark(),
                device@,
                command@,
            ) == reached(outcome(report), final(transport)@.mark()),
        report matches Ok(report) ==> printable(report@),
{
    reveal(command_at);

    let report = match command {
        Command::DeviceInfo => Report::Identity(read_identity(transport, device)?),
        Command::DeviceFeatures => Report::Features(device.features.clone()),
        Command::DeviceFirmware => Report::Firmware(read_firmware(transport, &device.features)?),
        Command::Battery { details } => Report::Battery { battery: read_battery(transport, &device.features)?, details: *details },
        Command::DpiGet => Report::Dpi(read_dpi(transport, &device.features)?),
        Command::DpiCapabilities => {
            let capabilities = dpi_capabilities(transport, &device.features)?;
            proof {
                rising_numbers_can_be_summarized(capabilities.x_values@, 0);
            }
            Report::DpiCapabilities(capabilities)
        },
        Command::DpiSet { x, y } => Report::DpiSet(set_dpi(transport, &device.features, *x, *y)?),
        Command::RateGet => Report::Rate(read_rate(transport, &device.features)?),
        Command::RateCapabilities => Report::RateCapabilities(rate_capabilities(transport, &device.features)?),
        Command::RateSet { hz } => Report::RateSet(set_rate(transport, &device.features, *hz)?),
        Command::OnboardStatus => Report::Status(read_onboard_status(transport, &device.features)?),
        Command::OnboardInfo { raw } => Report::Info { info: read_onboard_info(transport, &device.features)?, raw: *raw },
        Command::OnboardMode { onboard } => Report::Status(set_onboard_mode(transport, &device.features, *onboard)?),
        Command::ProfilesList => Report::Profiles(list_onboard_profiles(transport, &device.features)?),
        Command::ProfilesDump { sector } => Report::Sector(dump_onboard_sector(transport, &device.features, *sector)?),
        Command::ProfilesBackup => Report::Backup(read_onboard_backup(transport, device)?),
        Command::ProfilesActivate { slot } => Report::Status(use_onboard_slot(transport, &device.features, *slot)?),
        Command::ProfilesStage { stage } => Report::Stage(choose_stage(transport, &device.features, *stage)?),
        Command::ProfilesSetRate { slot, hz } => Report::RateStored {
            hz: *hz,
            written: store_onboard_rate(transport, &device.features, *slot, *hz)?,
        },
        Command::ProfilesVerifyWrite { sector } => Report::SectorVerified(
            verify_onboard_sector_write(transport, &device.features, *sector)?,
        ),
        Command::HidppFeatures => Report::FeatureTable(device.features.clone()),
        Command::Raw(raw) => Report::Raw(raw_command(transport, &device.features, raw)?),
    };
    Ok(report)
}

/// The device that a command is for. Where there is none, and a node could not be opened for want of permission,
/// that is what is wrong.
pub open spec fn chosen_device(discovery: DiscoveryView, selector: Option<Seq<char>>) -> Outcome<DeviceView> {
    match selection(discovery.devices, selector) {
        Err(ErrorView::NoDevice) => if discovery.permission_denied_paths.len() > 0 {
            Err(ErrorView::PermissionDenied { path: discovery.permission_denied_paths[0] })
        } else {
            Err(ErrorView::NoDevice)
        },
        selected => selected,
    }
}

/// An optional text by its view.
pub open spec fn selector_view(selector: Option<&str>) -> Option<Seq<char>> {
    match selector {
        Some(selector) => Some(selector@),
        None => None,
    }
}

/// Finds the device that a command is for.
pub fn choose_device<'a>(discovery: &'a DiscoveryOutcome, selector: Option<&str>) -> (device: Result<&'a LogicalDevice>)
    ensures
        outcome(device) == chosen_device(discovery@, selector_view(selector)),
{
    match select_device(discovery.devices.as_slice(), selector) {
        Ok(device) => Ok(device),
        Err(AppError::NoDevice) => if discovery.permission_denied_paths.len() > 0 {
            Err(AppError::PermissionDenied { path: discovery.permission_denied_paths[0].clone() })
        } else {
            Err(AppError::NoDevice)
        },
        Err(error) => Err(error),
    }
}

/// The first endpoint with a path, from a place on.
pub open spec fn endpoint_with_path(endpoints: Seq<EndpointView>, path: Seq<char>, from: int) -> Option<EndpointView>
    decreases endpoints.len() - from,
{
    if from < 0 || from >= endpoints.len() {
        None
    } else if endpoints[from].path == path {
        Some(endpoints[from])
    } else {
        endpoint_with_path(endpoints, path, from + 1)
    }
}

/// The endpoint whose descriptor is asked for: the one with a path, that of the selected device, or the first.
pub open spec fn chosen_endpoint(
    discovery: DiscoveryView,
    selector: Option<Seq<char>>,
    path: Option<Seq<char>>,
) -> Outcome<EndpointView> {
    match path {
        Some(path) => match endpoint_with_path(discovery.endpoints, path, 0) {
            Some(endpoint) => Ok(endpoint),
            None => Err(ErrorView::DeviceNotFound(path)),
        },
        None => if discovery.devices.len() > 0 {
            match selection(discovery.devices, selector) {
                Ok(device) => Ok(device.endpoint),
                Err(error) => Err(error),
            }
        } else if discovery.endpoints.len() > 0 {
            Ok(discovery.endpoints[0])
        } else {
            Err(ErrorView::NoDevice)
        },
    }
}

fn find_endpoint<'a>(endpoints: &'a Vec<HidEndpoint>, path: &str) -> (endpoint: Option<&'a HidEndpoint>)
    ensures
        match endpoint {
            Some(endpoint) => endpoint_with_path(endpoint_views(endpoints@), path@, 0) == Some(endpoint@),
            None => endpoint_with_path(endpoint_views(endpoints@), path@, 0) is None,
        },
{
    let ghost views = endpoint_views(endpoints@);
    let mut i: usize = 0;
    while i < endpoints.len()
        invariant
            i <= endpoints.len(),
            views == endpoint_views(endpoints@),
            endpoint_with_path(views, path@, 0) == endpoint_with_path(views, path@, i as int),
        decreases endpoints.len() - i,
    {
        if same_text(endpoints[i].path.as_str(), path) {
            return Some(&endpoints[i]);
        }
        i = i + 1;
    }
    None
}

/// Finds the endpoint whose descriptor is asked for.
pub fn choose_endpoint<'a>(
    discovery: &'a DiscoveryOutcome,
    selector: Option<&str>,
    path: Option<&str>,
) -> (endpoint: Result<&'a HidEndpoint>)
    ensures
        outcome(endpoint) == chosen_endpoint(discovery@, selector_view(selector), selector_view(path)),
{
    if let Some(path) = path {
        return match find_endpoint(&discovery.endpoints, path) {
            Some(endpoint) => Ok(endpoint),
            None => Err(AppError::DeviceNotFound(path.to_owned())),
        };
    }
    if discovery.devices.len() > 0 {
        let device = select_device(discovery.devices.as_slice(), selector)?;
        return Ok(&device.endpoint);
    }
    if discovery.endpoints.len() > 0 {
        Ok(&discovery.endpoints[0])
    } else {
        Err(AppError::NoDevice)
    }
}

}
