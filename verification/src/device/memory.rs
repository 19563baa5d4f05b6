//! Writing to the memory of a mouse, reading back what was written and undoing what went wrong.

use vstd::prelude::*;

use crate::bytes::{copied, high, high_of, low, low_of, overwrite, overwritten, same_bytes};
use crate::device::format07::{
    bytes_of_sector, decode_format_07_profile, decoded_profile, encode_format_07_profile, encoded_profile,
    encoding_keeps_length, format_refusal, long_sectors_are_readable, onboard_sector_bytes, profile_refusal,
    set_onboard_crc, validate_format_07, validate_profile_for_onboard, with_crc, OnboardProfile, OnboardProfileView,
};
use crate::device::onboard::{
    headers_at, header_views, onboard_info_at, onboard_status_at, read_onboard_info, read_onboard_profile_headers,
    read_onboard_sector, read_onboard_status, sector_at, HeaderView, OnboardProfileHeader, OnboardSector, OnboardStatus,
    OnboardStatusView, SectorView,
};
use crate::error::{error_text, outcome, AppError, ErrorView, Outcome, Result};
use crate::hexcode::{encode_upper, hex_text};
use crate::hid::transport::HidIo;
use crate::hidpp::features::{required_feature, FeatureTable, FeatureView, ONBOARD_PROFILES};
use crate::hidpp::protocol::HidppTransport;
use crate::hidpp::session::{call_at, grown, group_session, read_at, reached, Step, Wire};
use crate::profile::{Profile, ProfileView};
use crate::text::{dec, decimal, hex4, hex_word, join2, join3, join4, same_text};

verus! {

broadcast use group_session;

/// Sixteen bytes of the data from an offset on, filled up with ones where the data ends.
pub open spec fn payload_of(data: Seq<u8>, offset: int) -> Seq<u8> {
    Seq::new(
        16,
        |i: int|
            if offset + i < data.len() {
                data[offset + i]
            } else {
                0xffu8
            },
    )
}

/// Sending the data from an offset on, sixteen bytes at a time. Where that fails, the write is ended all the
/// same, and the first error counts.
pub open spec fn payloads_at(wire: Wire, at: int, feature_index: u8, data: Seq<u8>, offset: int) -> Step<()>
    decreases data.len() + 16 - offset,
{
    if offset < 0 || offset >= data.len() {
        Step::Done { value: (), next: at }
    } else {
        match call_at(wire, at, feature_index, 0x70, payload_of(data, offset)) {
            Step::Done { next, .. } => payloads_at(wire, next, feature_index, data, offset + 16),
            Step::Failed { error, next } => match call_at(wire, next, feature_index, 0x80, Seq::empty()) {
                Step::Done { next, .. } => Step::Failed { error, next },
                Step::Failed { next, .. } => Step::Failed { error, next },
                Step::Astray => Step::Astray,
            },
            Step::Astray => Step::Astray,
        }
    }
}

/// The parameters that start a write of a whole sector.
pub open spec fn write_start(sector: u16, length: nat) -> Seq<u8> {
    seq![high_of(sector), low_of(sector), 0u8, 0u8, high_of(length as u16), low_of(length as u16)]
}

/// What a sector that was read back says of a write.
pub open spec fn readback(sector: u16, data: Seq<u8>, read: SectorView) -> Outcome<()> {
    if !read.crc_valid || read.data_hex != hex_text(data, true) {
        Err(
            ErrorView::Verification(
                "onboard sector 0x"@ + hex4(sector, false) + " failed readback verification"@,
            ),
        )
    } else {
        Ok(())
    }
}

/// Writing a sector with its checksum and reading it back.
#[verifier::opaque]
pub open spec fn write_sector_at(
    wire: Wire,
    at: int,
    features: Seq<FeatureView>,
    sector: u16,
    bytes: Seq<u8>,
) -> Step<()> {
    if bytes.len() < 16 || bytes.len() > u16::MAX {
        Step::Failed { error: ErrorView::Validation("onboard sector size is invalid"@), next: at }
    } else {
        let data = with_crc(bytes);
        match required_feature(features, ONBOARD_PROFILES) {
            Err(error) => Step::Failed { error, next: at },
            Ok(feature) => match call_at(wire, at, feature.index, 0x60, write_start(sector, data.len())) {
                Step::Done { next, .. } => match payloads_at(wire, next, feature.index, data, 0) {
                    Step::Done { next, .. } => match call_at(wire, next, feature.index, 0x80, Seq::empty()) {
                        Step::Done { next, .. } => match sector_at(wire, next, features, sector, data.len() as u16) {
                            Step::Done { value, next } => reached(readback(sector, data, value), next),
                            step => step.stop(),
                        },
                        step => step.stop(),
                    },
                    step => step,
                },
                step => step.stop(),
            },
        }
    }
}

/// Sends the data of a write, sixteen bytes at a time.
fn send_payloads<I: HidIo>(transport: &mut HidppTransport<I>, feature_index: u8, data: &Vec<u8>) -> (sent: Result<()>)
    requires
        data@.len() <= u16::MAX,
    ensures
        grown(old(transport)@, final(transport)@),
        final(transport).held() == old(transport).held(),
        forall|wire: Wire|
            wire.covers(final(transport)@) ==> #[trigger] payloads_at(
                wire,
                old(transport)@.mark(),
                feature_index,
                data@,
                0,
            ) == reached(outcome(sent), final(transport)@.mark()),
{
    let nothing: [u8; 0] = [];
    assert(nothing@ =~= Seq::empty());
    let mut offset: usize = 0;
    while offset < data.len()
        invariant
            data@.len() <= u16::MAX,
            offset <= data@.len() + 16,
            nothing@ == Seq::<u8>::empty(),
            grown(old(transport)@, transport@),
            transport.held() == old(transport).held(),
            forall|wire: Wire|
                wire.covers(transport@) ==> #[trigger] payloads_at(
                    wire,
                    old(transport)@.mark(),
                    feature_index,
                    data@,
                    0,
                ) == payloads_at(wire, transport@.mark(), feature_index, data@, offset as int),
        decreases data.len() + 16 - offset,
    {
        let mut payload: Vec<u8> = Vec::new();
        while payload.len() < 16
            invariant
                payload@.len() <= 16,
                data@.len() <= u16::MAX,
                offset <= data@.len() + 16,
                payload@ =~= payload_of(data@, offset as int).take(payload@.len() as int),
            decreases 16 - payload.len(),
        {
            let at: usize = offset + payload.len();
            payload.push(if at < data.len() { data[at] } else { 0xff });
        }
        assert(payload@ =~= payload_of(data@, offset as int));
        if let Err(error) = transport.transact(feature_index, 0x70, payload.as_slice()) {
            let _ = transport.transact(feature_index, 0x80, &nothing);
            return Err(error);
        }
        offset = offset + 16;
    }
    Ok(())
}

fn write_onboard_sector_bytes<I: HidIo>(
    transport: &mut HidppTransport<I>,
    features: &FeatureTable,
    sector: u16,
    bytes: &Vec<u8>,
) -> (written: Result<()>)
    ensures
        grown(old(transport)@, final(transport)@),
        final(transport).held() == old(transport).held(),
        forall|wire: Wire|
            wire.covers(final(transport)@) ==> #[trigger] write_sector_at(
                wire,
                old(transport)@.mark(),
                features@,
                sector,
                bytes@,
            ) == reached(outcome(written), final(transport)@.mark()),
{
    reveal(write_sector_at);

    if bytes.len() < 16 || bytes.len() > 0xffff {
        return Err(AppError::Validation("onboard sector size is invalid".to_owned()));
    }
    let mut data = copied(bytes.as_slice());
    set_onboard_crc(&mut data)?;
    let feature = features.require(ONBOARD_PROFILES)?;
    let length: u16 = data.len() as u16;
    let start = [high(sector), low(sector), 0u8, 0u8, high(length), low(length)];
    assert(start@ =~= write_start(sector, data@.len()));
    transport.transact(feature.index, 0x60, &start)?;
    send_payloads(transport, feature.index, &data)?;
    let nothing: [u8; 0] = [];
    assert(nothing@ =~= Seq::empty());
    transport.transact(feature.index, 0x80, &nothing)?;
    let verified = read_onboard_sector(transport, features, sector, length)?;
    if !verified.crc_valid || !same_text(verified.data_hex.as_str(), encode_upper(data.as_slice()).as_str()) {
        return Err(
            AppError::Verification(
                join3("onboard sector 0x", hex_word(sector, false).as_str(), " failed readback verification"),
            ),
        );
    }
    Ok(())
}

/// The error of a write that failed, with what became of the attempt to undo it.
pub open spec fn failure_after_rollback(error: ErrorView, rollback: Outcome<()>) -> ErrorView {
    match rollback {
        Ok(_) => ErrorView::Other(error_text(error) + "; the original onboard data was restored"@),
        Err(rollback_error) => ErrorView::Other(
            error_text(error) + "; restoring the original onboard data also failed: "@ + error_text(rollback_error),
        ),
    }
}

/// Tells of a write that failed and of the attempt to undo it.
pub fn write_failure_with_rollback(error: AppError, rollback: Result<()>) -> (failure: AppError)
    ensures
        failure@ == failure_after_rollback(error@, outcome(rollback)),
{
    match rollback {
        Ok(_) => AppError::Other(join2(error.message().as_str(), "; the original onboard data was restored")),
        Err(rollback_error) => AppError::Other(
            join3(
                error.message().as_str(),
                "; restoring the original onboard data also failed: ",
                rollback_error.message().as_str(),
            ),
        ),
    }
}

/// The first directory entry of a slot, from a place on.
pub open spec fn header_of_slot(headers: Seq<HeaderView>, slot: u8, from: int) -> Option<HeaderView>
    decreases headers.len() - from,
{
    if from < 0 || from >= headers.len() {
        None
    } else if headers[from].slot == slot {
        Some(headers[from])
    } else {
        header_of_slot(headers, slot, from + 1)
    }
}

fn find_slot(headers: &Vec<OnboardProfileHeader>, slot: u8) -> (place: Option<usize>)
    ensures
        match place {
            Some(at) => at < headers@.len() && header_of_slot(header_views(headers@), slot, 0) == Some(
                headers@[at as int]@,
            ),
            None => header_of_slot(header_views(headers@), slot, 0) is None,
        },
{
    let mut i: usize = 0;
    while i < headers.len()
        invariant
            i <= headers.len(),
            header_of_slot(header_views(headers@), slot, 0) == header_of_slot(header_views(headers@), slot, i as int),
        decreases headers.len() - i,
    {
        if headers[i].slot == slot {
            return Some(i);
        }
        i = i + 1;
    }
    None
}

/// What is to be written to store a profile, and what was there before.
pub struct WritePlan {
    pub sector: u16,
    pub sector_size: u16,
    pub original_profile: Vec<u8>,
    pub original_directory: Vec<u8>,
    pub profile: Vec<u8>,
}

/// A [`WritePlan`] with its bytes as sequences.
pub struct PlanView {
    pub sector: u16,
    pub sector_size: u16,
    pub original_profile: Seq<u8>,
    pub original_directory: Seq<u8>,
    pub profile: Seq<u8>,
}

impl View for WritePlan {
    type V = PlanView;

    open spec fn view(&self) -> PlanView {
        PlanView {
            sector: self.sector,
            sector_size: self.sector_size,
            original_profile: self.original_profile@,
            original_directory: self.original_directory@,
            profile: self.profile@,
        }
    }
}

/// What two sectors and a profile come to as a plan. Nothing is planned on a memory whose checksums are wrong.
pub open spec fn planned(
    original_profile: SectorView,
    original_directory: SectorView,
    sector: u16,
    sector_size: u16,
    profile: ProfileView,
) -> Outcome<PlanView> {
    if !original_profile.crc_valid || !original_directory.crc_valid {
        Err(ErrorView::Verification("onboard memory has an invalid checksum and will not be written"@))
    } else {
        match bytes_of_sector(original_profile) {
            Err(error) => Err(error),
            Ok(profile_bytes) => match bytes_of_sector(original_directory) {
                Err(error) => Err(error),
                Ok(directory_bytes) => match encoded_profile(profile_bytes, profile).1 {
                    Err(error) => Err(error),
                    Ok(_) => Ok(
                        PlanView {
                            sector,
                            sector_size,
                            original_profile: profile_bytes,
                            original_directory: directory_bytes,
                            profile: with_crc(encoded_profile(profile_bytes, profile).0),
                        },
                    ),
                },
            },
        }
    }
}

/// Finding out what is to be written to store a profile in a slot. Nothing is written here.
#[verifier::opaque]
pub open spec fn plan_at(
    wire: Wire,
    at: int,
    features: Seq<FeatureView>,
    slot: u8,
    profile: ProfileView,
) -> Step<PlanView> {
    match profile_refusal(profile) {
        Some(error) => Step::Failed { error, next: at },
        None => match onboard_info_at(wire, at, features) {
            Step::Done { value: info, next } => match format_refusal(info) {
                Some(error) => Step::Failed { error, next },
                None => match headers_at(wire, next, features) {
                    Step::Done { value: headers, next } => match header_of_slot(headers, slot, 0) {
                        None => Step::Failed {
                            error: ErrorView::Validation(
                                "onboard profile slot "@ + dec(slot as nat) + " does not exist"@,
                            ),
                            next,
                        },
                        Some(header) => if header.sector >= info.sector_count {
                            Step::Failed {
                                error: ErrorView::Verification(
                                    "onboard profile slot "@ + dec(slot as nat)
                                        + " points outside memory at sector 0x"@ + hex4(header.sector, false),
                                ),
                                next,
                            }
                        } else {
                            match sector_at(wire, next, features, header.sector, info.sector_size) {
                                Step::Done { value: original_profile, next } => match sector_at(
                                    wire,
                                    next,
                                    features,
                                    0,
                                    info.sector_size,
                                ) {
                                    Step::Done { value: original_directory, next } => reached(
                                        planned(
                                            original_profile,
                                            original_directory,
                                            header.sector,
                                            info.sector_size,
                                            profile,
                                        ),
                                        next,
                                    ),
                                    step => step.stop(),
                                },
                                step => step.stop(),
                            }
                        },
                    },
                    step => step.stop(),
                },
            },
            step => step.stop(),
        },
    }
}

fn plan_from_sectors(
    original_profile: &OnboardSector,
    original_directory: &OnboardSector,
    sector: u16,
    sector_size: u16,
    profile: &Profile,
) -> (plan: Result<WritePlan>)
    ensures
        outcome(plan) == planned(original_profile@, original_directory@, sector, sector_size, profile@),
        plan matches Ok(plan) ==> plan@.original_directory.len() == original_directory.size,
{
    if !original_profile.crc_valid || !original_directory.crc_valid {
        return Err(
            AppError::Verification("onboard memory has an invalid checksum and will not be written".to_owned()),
        );
    }
    let original_profile_bytes = onboard_sector_bytes(original_profile)?;
    let original_directory_bytes = onboard_sector_bytes(original_directory)?;
    let mut profile_bytes = copied(original_profile_bytes.as_slice());
    encode_format_07_profile(&mut profile_bytes, profile)?;
    proof {
        encoding_keeps_length(original_profile_bytes@, profile@);
    }
    set_onboard_crc(&mut profile_bytes)?;
    Ok(
        WritePlan {
            sector,
            sector_size,
            original_profile: original_profile_bytes,
            original_directory: original_directory_bytes,
            profile: profile_bytes,
        },
    )
}

fn plan_profile_write<I: HidIo>(
    transport: &mut HidppTransport<I>,
    features: &FeatureTable,
    slot: u8,
    profile: &Profile,
) -> (plan: Result<WritePlan>)
    ensures
        grown(old(transport)@, final(transport)@),
        final(transport).held() == old(transport).held(),
        forall|wire: Wire|
            wire.covers(final(transport)@) ==> #[trigger] plan_at(
                wire,
                old(transport)@.mark(),
                features@,
                slot,
                profile@,
            ) == reached(outcome(plan), final(transport)@.mark()),
        plan matches Ok(plan) ==> plan@.original_directory.len() >= 2,
{
    reveal(plan_at);

    validate_profile_for_onboard(profile)?;
    let info = read_onboard_info(transport, features)?;
    validate_format_07(&info)?;
    let headers = read_onboard_profile_headers(transport, features)?;
    let header = match find_slot(&headers, slot) {
        Some(at) => &headers[at],
        None => {
            return Err(
                AppError::Validation(
                    join3("onboard profile slot ", decimal(slot as u64).as_str(), " does not exist"),
                ),
            );
        },
    };
    if header.sector >= info.sector_count as u16 {
        return Err(
            AppError::Verification(
                join4(
                    "onboard profile slot ",
                    decimal(slot as u64).as_str(),
                    " points outside memory at sector 0x",
                    hex_word(header.sector, false).as_str(),
                ),
            ),
        );
    }
    let original_profile = read_onboard_sector(transport, features, header.sector, info.sector_size)?;
    let original_directory = read_onboard_sector(transport, features, 0, info.sector_size)?;
    plan_from_sectors(&original_profile, &original_directory, header.sector, info.sector_size, profile)
}

/// What storing a profile did.
#[derive(Debug, Clone, Copy, PartialEq, Eq, Structural)]
pub struct OnboardProfileWrite {
    pub slot: u8,
    pub sector: u16,
    pub profile_written: bool,
    pub directory_written: bool,
    pub crc_valid: bool,
}

impl View for OnboardProfileWrite {
    type V = OnboardProfileWrite;

    open spec fn view(&self) -> OnboardProfileWrite {
        *self
    }
}

/// Where the directory keeps the entry of a slot.
pub open spec fn directory_offset(slot: u8) -> int {
    if slot == 0 {
        0
    } else {
        4 * (slot - 1)
    }
}

/// The directory with a slot enabled and at a sector, with its checksum, where it has an entry for the slot.
pub open spec fn directory_with(directory: Seq<u8>, slot: u8, sector: u16) -> Option<Seq<u8>> {
    if directory_offset(slot) + 4 > directory.len() - 2 {
        None
    } else {
        Some(
            with_crc(
                overwritten(directory, directory_offset(slot), seq![high_of(sector), low_of(sector), 1u8, 0u8]),
            ),
        )
    }
}

/// Writing a sector where that is called for.
pub open spec fn write_if_at(
    wire: Wire,
    at: int,
    features: Seq<FeatureView>,
    called_for: bool,
    sector: u16,
    bytes: Seq<u8>,
) -> Step<()> {
    if called_for {
        write_sector_at(wire, at, features, sector, bytes)
    } else {
        Step::Done { value: (), next: at }
    }
}

/// Putting back the directory and then the profile, each where it was written. Both are tried, and the first
/// error counts.
#[verifier::opaque]
pub open spec fn restore_at(
    wire: Wire,
    at: int,
    features: Seq<FeatureView>,
    plan: PlanView,
    directory_written: bool,
    profile_written: bool,
) -> Step<()> {
    match write_if_at(wire, at, features, directory_written, 0, plan.original_directory) {
        Step::Astray => Step::Astray,
        Step::Done { next, .. } => write_if_at(
            wire,
            next,
            features,
            profile_written,
            plan.sector,
            plan.original_profile,
        ),
        Step::Failed { error, next } => match write_if_at(
            wire,
            next,
            features,
            profile_written,
            plan.sector,
            plan.original_profile,
        ) {
            Step::Astray => Step::Astray,
            Step::Done { next, .. } => Step::Failed { error, next },
            Step::Failed { next, .. } => Step::Failed { error, next },
        },
    }
}

/// The failure of a write after the attempt to undo it.
pub open spec fn undone<T>(rollback: Step<()>, error: ErrorView) -> Step<T> {
    match rollback {
        Step::Astray => Step::Astray,
        Step::Done { next, .. } => Step::Failed { error: failure_after_rollback(error, Ok(())), next },
        Step::Failed { error: rollback_error, next } => Step::Failed {
            error: failure_after_rollback(error, Err(rollback_error)),
            next,
        },
    }
}

/// Reading a written profile back a last time, and undoing everything where it is not there.
#[verifier::opaque]
pub open spec fn confirm_at(
    wire: Wire,
    at: int,
    features: Seq<FeatureView>,
    slot: u8,
    plan: PlanView,
    directory_written: bool,
    profile_written: bool,
) -> Step<OnboardProfileWrite> {
    match sector_at(wire, at, features, plan.sector, plan.sector_size) {
        Step::Done { value: verified, next } => if verified.data_hex != hex_text(plan.profile, true)
            || !verified.crc_valid {
            undone(
                restore_at(wire, next, features, plan, directory_written, profile_written),
                ErrorView::Verification(
                    "onboard profile slot "@ + dec(slot as nat) + " did not match after writing"@,
                ),
            )
        } else {
            Step::Done {
                value: OnboardProfileWrite {
                    slot,
                    sector: plan.sector,
                    profile_written,
                    directory_written,
                    crc_valid: verified.crc_valid,
                },
                next,
            }
        },
        step => step.stop(),
    }
}

/// Writing the directory with a slot enabled, and undoing everything where that fails.
#[verifier::opaque]
pub open spec fn enable_at(
    wire: Wire,
    at: int,
    features: Seq<FeatureView>,
    slot: u8,
    plan: PlanView,
    profile_written: bool,
) -> Step<OnboardProfileWrite> {
    match directory_with(plan.original_directory, slot, plan.sector) {
        None => {
            let error = ErrorView::Verification(
                "onboard profile slot "@ + dec(slot as nat) + " has no directory record"@,
            );
            match write_if_at(wire, at, features, profile_written, plan.sector, plan.original_profile) {
                Step::Astray => Step::Astray,
                Step::Done { next, .. } => Step::Failed { error, next },
                Step::Failed { next, .. } => Step::Failed { error, next },
            }
        },
        Some(directory) => {
            let directory_written = directory != plan.original_directory;
            match write_if_at(wire, at, features, directory_written, 0, directory) {
                Step::Astray => Step::Astray,
                Step::Done { next, .. } => confirm_at(
                    wire,
                    next,
                    features,
                    slot,
                    plan,
                    directory_written,
                    profile_written,
                ),
                Step::Failed { error, next } => undone(
                    restore_at(wire, next, features, plan, true, profile_written),
                    error,
                ),
            }
        },
    }
}

/// Writing a planned profile: first its sector, then the directory.
pub open spec fn carry_out_at(
    wire: Wire,
    at: int,
    features: Seq<FeatureView>,
    slot: u8,
    plan: PlanView,
) -> Step<OnboardProfileWrite> {
    let profile_written = plan.profile != plan.original_profile;
    match write_if_at(wire, at, features, profile_written, plan.sector, plan.profile) {
        Step::Astray => Step::Astray,
        Step::Done { next, .. } => enable_at(wire, next, features, slot, plan, profile_written),
        Step::Failed { error, next } => undone(
            write_sector_at(wire, next, features, plan.sector, plan.original_profile),
            error,
        ),
    }
}

/// Storing a profile in a slot.
#[verifier::opaque]
pub open spec fn write_profile_at(
    wire: Wire,
    at: int,
    features: Seq<FeatureView>,
    slot: u8,
    profile: ProfileView,
) -> Step<OnboardProfileWrite> {
    match plan_at(wire, at, features, slot, profile) {
        Step::Done { value: plan, next } => carry_out_at(wire, next, features, slot, plan),
        step => step.stop(),
    }
}

fn write_if<I: HidIo>(
    transport: &mut HidppTransport<I>,
    features: &FeatureTable,
    called_for: bool,
    sector: u16,
    bytes: &Vec<u8>,
) -> (written: Result<()>)
    ensures
        grown(old(transport)@, final(transport)@),
        final(transport).held() == old(transport).held(),
        forall|wire: Wire|
            wire.covers(final(transport)@) ==> #[trigger] write_if_at(
                wire,
                old(transport)@.mark(),
                features@,
                called_for,
                sector,
                bytes@,
            ) == reached(outcome(written), final(transport)@.mark()),
{
    if called_for {
        write_onboard_sector_bytes(transport, features, sector, bytes)
    } else {
        Ok(())
    }
}

fn restore<I: HidIo>(
    transport: &mut HidppTransport<I>,
    features: &FeatureTable,
    plan: &WritePlan,
    directory_written: bool,
    profile_written: bool,
) -> (restored: Result<()>)
    ensures
        grown(old(transport)@, final(transport)@),
        final(transport).held() == old(transport).held(),
        forall|wire: Wire|
            wire.covers(final(transport)@) ==> #[trigger] restore_at(
                wire,
                old(transport)@.mark(),
                features@,
                plan@,
                directory_written,
                profile_written,
            ) == reached(outcome(restored), final(transport)@.mark()),
{
    reveal(restore_at);

    let directory = write_if(transport, features, directory_written, 0, &plan.original_directory);
    let profile = write_if(transport, features, profile_written, plan.sector, &plan.original_profile);
    match directory {
        Ok(_) => profile,
        Err(error) => Err(error),
    }
}

fn confirm<I: HidIo>(
    transport: &mut HidppTransport<I>,
    features: &FeatureTable,
    slot: u8,
    plan: &WritePlan,
    directory_written: bool,
    profile_written: bool,
) -> (written: Result<OnboardProfileWrite>)
    ensures
        grown(old(transport)@, final(transport)@),
        final(transport).held() == old(transport).held(),
        forall|wire: Wire|
            wire.covers(final(transport)@) ==> #[trigger] confirm_at(
                wire,
                old(transport)@.mark(),
                features@,
                slot,
                plan@,
                directory_written,
                profile_written,
            ) == reached(outcome(written), final(transport)@.mark()),
{
    reveal(confirm_at);

    let verified = read_onboard_sector(transport, features, plan.sector, plan.sector_size)?;
    if !same_text(verified.data_hex.as_str(), encode_upper(plan.profile.as_slice()).as_str()) || !verified.crc_valid {
        let rollback = restore(transport, features, plan, directory_written, profile_written);
        return Err(
            write_failure_with_rollback(
                AppError::Verification(
                    join3("onboard profile slot ", decimal(slot as u64).as_str(), " did not match after writing"),
                ),
                rollback,
            ),
        );
    }
    Ok(
        OnboardProfileWrite {
            slot,
            sector: plan.sector,
            profile_written,
            directory_written,
            crc_valid: verified.crc_valid,
        },
    )
}

fn enable<I: HidIo>(
    transport: &mut HidppTransport<I>,
    features: &FeatureTable,
    slot: u8,
    plan: &WritePlan,
    profile_written: bool,
) -> (written: Result<OnboardProfileWrite>)
    requires
        plan@.original_directory.len() >= 2,
    ensures
        grown(old(transport)@, final(transport)@),
        final(transport).held() == old(transport).held(),
        forall|wire: Wire|
            wire.covers(final(transport)@) ==> #[trigger] enable_at(
                wire,
                old(transport)@.mark(),
                features@,
                slot,
                plan@,
                profile_written,
            ) == reached(outcome(written), final(transport)@.mark()),
{
    reveal(enable_at);

    let offset: usize = if slot == 0 { 0 } else { 4 * (slot as usize - 1) };
    if offset + 4 > plan.original_directory.len() - 2 {
        let _ = write_if(transport, features, profile_written, plan.sector, &plan.original_profile);
        return Err(
            AppError::Verification(
                join3("onboard profile slot ", decimal(slot as u64).as_str(), " has no directory record"),
            ),
        );
    }
    let mut directory = copied(plan.original_directory.as_slice());
    let entry = [high(plan.sector), low(plan.sector), 1u8, 0u8];
    assert(entry@ =~= seq![high_of(plan.sector), low_of(plan.sector), 1u8, 0u8]);
    overwrite(&mut directory, offset, &entry);
    set_onboard_crc(&mut directory)?;
    let directory_written = !same_bytes(directory.as_slice(), plan.original_directory.as_slice());
    if let Err(error) = write_if(transport, features, directory_written, 0, &directory) {
        let rollback = restore(transport, features, plan, true, profile_written);
        return Err(write_failure_with_rollback(error, rollback));
    }
    confirm(transport, features, slot, plan, directory_written, profile_written)
}

/// Stores a profile in a slot of the memory and enables the slot.
///
/// Everything is read and checked before anything is written. Sectors that would not change are not written.
/// Every write is read back, and where one fails, what was there before is written again.
pub fn write_onboard_profile<I: HidIo>(
    transport: &mut HidppTransport<I>,
    features: &FeatureTable,
    slot: u8,
    profile: &Profile,
) -> (written: Result<OnboardProfileWrite>)
    ensures
        grown(old(transport)@, final(transport)@),
        final(transport).held() == old(transport).held(),
        forall|wire: Wire|
            wire.covers(final(transport)@) ==> #[trigger] write_profile_at(
                wire,
                old(transport)@.mark(),
                features@,
                slot,
                profile@,
            ) == reached(outcome(written), final(transport)@.mark()),
{
    reveal(write_profile_at);

    let plan = plan_profile_write(transport, features, slot, profile)?;
    let profile_written = !same_bytes(plan.profile.as_slice(), plan.original_profile.as_slice());
    if let Err(error) = write_if(transport, features, profile_written, plan.sector, &plan.profile) {
        let rollback = write_onboard_sector_bytes(transport, features, plan.sector, &plan.original_profile);
        return Err(write_failure_with_rollback(error, rollback));
    }
    enable(transport, features, slot, &plan, profile_written)
}

/// What a sector that was rewritten unchanged should be, and is not, where it changed.
pub open spec fn rewrite_at(
    wire: Wire,
    at: int,
    features: Seq<FeatureView>,
    sector: u16,
    original: SectorView,
    bytes: Seq<u8>,
    size: u16,
) -> Step<SectorView> {
    match write_sector_at(wire, at, features, sector, bytes) {
        Step::Astray => Step::Astray,
        Step::Failed { error, next } => undone(write_sector_at(wire, next, features, sector, bytes), error),
        Step::Done { next, .. } => match sector_at(wire, next, features, sector, size) {
            Step::Done { value: verified, next } => if verified != original {
                undone(
                    write_sector_at(wire, next, features, sector, bytes),
                    ErrorView::Verification(
                        "onboard sector 0x"@ + hex4(sector, false) + " changed during write verification"@,
                    ),
                )
            } else {
                Step::Done { value: verified, next }
            },
            step => step,
        },
    }
}

/// Writing a sector as it is and reading it back.
#[verifier::opaque]
pub open spec fn verify_write_at(wire: Wire, at: int, features: Seq<FeatureView>, sector: u16) -> Step<SectorView> {
    match onboard_info_at(wire, at, features) {
        Step::Done { value: info, next } => match format_refusal(info) {
            Some(error) => Step::Failed { error, next },
            None => if sector >= info.sector_count {
                Step::Failed {
                    error: ErrorView::Validation(
                        "sector 0x"@ + hex4(sector, false) + " is outside onboard memory"@,
                    ),
                    next,
                }
            } else {
                match sector_at(wire, next, features, sector, info.sector_size) {
                    Step::Done { value: original, next } => if !original.crc_valid {
                        Step::Failed {
                            error: ErrorView::Verification(
                                "onboard sector 0x"@ + hex4(sector, false) + " has an invalid checksum"@,
                            ),
                            next,
                        }
                    } else {
                        match bytes_of_sector(original) {
                            Err(error) => Step::Failed { error, next },
                            Ok(bytes) => rewrite_at(wire, next, features, sector, original, bytes, info.sector_size),
                        }
                    },
                    step => step,
                }
            },
        },
        step => step.stop(),
    }
}

fn same_sector(a: &OnboardSector, b: &OnboardSector) -> (same: bool)
    ensures
        same == (a@ == b@),
{
    a.sector == b.sector && a.size == b.size && a.stored_crc == b.stored_crc && a.computed_crc == b.computed_crc
        && a.crc_valid == b.crc_valid && same_text(a.data_hex.as_str(), b.data_hex.as_str())
}

/// Writes a sector as it is, and fails unless it reads back the same.
pub fn verify_onboard_sector_write<I: HidIo>(
    transport: &mut HidppTransport<I>,
    features: &FeatureTable,
    sector: u16,
) -> (content: Result<OnboardSector>)
    ensures
        grown(old(transport)@, final(transport)@),
        final(transport).held() == old(transport).held(),
        forall|wire: Wire|
            wire.covers(final(transport)@) ==> #[trigger] verify_write_at(
                wire,
                old(transport)@.mark(),
                features@,
                sector,
            ) == reached(outcome(content), final(transport)@.mark()),
{
    reveal(verify_write_at);

    let info = read_onboard_info(transport, features)?;
    validate_format_07(&info)?;
    if sector >= info.sector_count as u16 {
        return Err(
            AppError::Validation(
                join3("sector 0x", hex_word(sector, false).as_str(), " is outside onboard memory"),
            ),
        );
    }
    let original = read_onboard_sector(transport, features, sector, info.sector_size)?;
    if !original.crc_valid {
        return Err(
            AppError::Verification(
                join3("onboard sector 0x", hex_word(sector, false).as_str(), " has an invalid checksum"),
            ),
        );
    }
    let bytes = onboard_sector_bytes(&original)?;
    if let Err(error) = write_onboard_sector_bytes(transport, features, sector, &bytes) {
        let rollback = write_onboard_sector_bytes(transport, features, sector, &bytes);
        return Err(write_failure_with_rollback(error, rollback));
    }
    let verified = read_onboard_sector(transport, features, sector, info.sector_size)?;
    if !same_sector(&verified, &original) {
        let rollback = write_onboard_sector_bytes(transport, features, sector, &bytes);
        return Err(
            write_failure_with_rollback(
                AppError::Verification(
                    join3("onboard sector 0x", hex_word(sector, false).as_str(), " changed during write verification"),
                ),
                rollback,
            ),
        );
    }
    Ok(verified)
}

/// What a reply says of the current stage.
pub open spec fn current_stage_of(reply: Seq<u8>) -> Outcome<u8> {
    if reply.len() == 0 {
        Err(ErrorView::Other("current onboard dpi response is empty"@))
    } else {
        Ok(reply[0])
    }
}

/// Asking for the current stage.
#[verifier::opaque]
pub open spec fn current_stage_at(wire: Wire, at: int, features: Seq<FeatureView>) -> Step<u8> {
    match required_feature(features, ONBOARD_PROFILES) {
        Err(error) => Step::Failed { error, next: at },
        Ok(feature) => match read_at(wire, at, feature.index, 0xb0, Seq::empty()) {
            Step::Done { value, next } => reached(current_stage_of(value), next),
            step => step.stop(),
        },
    }
}

fn read_onboard_current_dpi_index<I: HidIo>(
    transport: &mut HidppTransport<I>,
    features: &FeatureTable,
) -> (stage: Result<u8>)
    ensures
        grown(old(transport)@, final(transport)@),
        final(transport).held() == old(transport).held(),
        forall|wire: Wire|
            wire.covers(final(transport)@) ==> #[trigger] current_stage_at(wire, old(transport)@.mark(), features@)
                == reached(outcome(stage), final(transport)@.mark()),
{
    reveal(current_stage_at);

    let feature = features.require(ONBOARD_PROFILES)?;
    let nothing: [u8; 0] = [];
    assert(nothing@ =~= Seq::empty());
    let response = transport.transact_read(feature.index, 0xb0, &nothing)?;
    if response.len() == 0 {
        return Err(AppError::Other("current onboard dpi response is empty".to_owned()));
    }
    Ok(response[0])
}

/// Choosing a stage and reading it back.
#[verifier::opaque]
pub open spec fn set_stage_at(wire: Wire, at: int, features: Seq<FeatureView>, index: u8) -> Step<u8> {
    if index >= 5 {
        Step::Failed {
            error: ErrorView::Validation(
                "onboard dpi index "@ + dec(index as nat) + " is outside the five available stages"@,
            ),
            next: at,
        }
    } else {
        match required_feature(features, ONBOARD_PROFILES) {
            Err(error) => Step::Failed { error, next: at },
            Ok(feature) => match call_at(wire, at, feature.index, 0xc0, seq![index]) {
                Step::Done { next, .. } => match current_stage_at(wire, next, features) {
                    Step::Done { value, next } => if value != index {
                        Step::Failed {
                            error: ErrorView::Verification(
                                "requested onboard dpi index "@ + dec(index as nat) + " but the device reports "@ + dec(
                                    value as nat,
                                ),
                            ),
                            next,
                        }
                    } else {
                        Step::Done { value, next }
                    },
                    step => step,
                },
                step => step.stop(),
            },
        }
    }
}

/// Chooses a stage of the active profile, and fails unless the device then reports that stage.
pub fn set_onboard_current_dpi_index<I: HidIo>(
    transport: &mut HidppTransport<I>,
    features: &FeatureTable,
    index: u8,
) -> (stage: Result<u8>)
    ensures
        grown(old(transport)@, final(transport)@),
        final(transport).held() == old(transport).held(),
        forall|wire: Wire|
            wire.covers(final(transport)@) ==> #[trigger] set_stage_at(
                wire,
                old(transport)@.mark(),
                features@,
                index,
            ) == reached(outcome(stage), final(transport)@.mark()),
{
    reveal(set_stage_at);

    if index >= 5 {
        return Err(
            AppError::Validation(
                join3(
                    "onboard dpi index ",
                    decimal(index as u64).as_str(),
                    " is outside the five available stages",
                ),
            ),
        );
    }
    let feature = features.require(ONBOARD_PROFILES)?;
    let parameters = [index];
    assert(parameters@ =~= seq![index]);
    transport.transact(feature.index, 0xc0, &parameters)?;
    let actual = read_onboard_current_dpi_index(transport, features)?;
    if actual != index {
        return Err(
            AppError::Verification(
                join4(
                    "requested onboard dpi index ",
                    decimal(index as u64).as_str(),
                    " but the device reports ",
                    decimal(actual as u64).as_str(),
                ),
            ),
        );
    }
    Ok(actual)
}

/// An optional sector as `Debug` shows it.
pub open spec fn shown_sector(sector: Option<u16>) -> Seq<char> {
    match sector {
        Some(sector) => "Some("@ + dec(sector as nat) + ")"@,
        None => "None"@,
    }
}

/// The first enabled directory entry of a slot, from a place on.
pub open spec fn enabled_slot(headers: Seq<HeaderView>, slot: u8, from: int) -> Option<HeaderView>
    decreases headers.len() - from,
{
    if from < 0 || from >= headers.len() {
        None
    } else if headers[from].slot == slot && headers[from].enabled {
        Some(headers[from])
    } else {
        enabled_slot(headers, slot, from + 1)
    }
}

fn find_enabled_slot(headers: &Vec<OnboardProfileHeader>, slot: u8) -> (place: Option<usize>)
    ensures
        match place {
            Some(at) => at < headers@.len() && enabled_slot(header_views(headers@), slot, 0) == Some(
                headers@[at as int]@,
            ),
            None => enabled_slot(header_views(headers@), slot, 0) is None,
        },
{
    let mut i: usize = 0;
    while i < headers.len()
        invariant
            i <= headers.len(),
            enabled_slot(header_views(headers@), slot, 0) == enabled_slot(header_views(headers@), slot, i as int),
        decreases headers.len() - i,
    {
        if headers[i].slot == slot && headers[i].enabled {
            return Some(i);
        }
        i = i + 1;
    }
    None
}

/// Making the profile of a slot the active one and reading that back.
#[verifier::opaque]
pub open spec fn activate_at(wire: Wire, at: int, features: Seq<FeatureView>, slot: u8) -> Step<OnboardStatusView> {
    match headers_at(wire, at, features) {
        Step::Done { value: headers, next } => match enabled_slot(headers, slot, 0) {
            None => Step::Failed {
                error: ErrorView::Validation("onboard profile slot "@ + dec(slot as nat) + " is not enabled"@),
                next,
            },
            Some(header) => match required_feature(features, ONBOARD_PROFILES) {
                Err(error) => Step::Failed { error, next },
                Ok(feature) => match call_at(wire, next, feature.index, 0x30, seq![0u8, slot]) {
                    Step::Done { next, .. } => match onboard_status_at(wire, next, features) {
                        Step::Done { value: status, next } => if status.active_sector != Some(header.sector) {
                            Step::Failed {
                                error: ErrorView::Verification(
                                    "requested onboard profile slot "@ + dec(slot as nat) + " but active sector is "@
                                        + shown_sector(status.active_sector),
                                ),
                                next,
                            }
                        } else {
                            Step::Done { value: status, next }
                        },
                        step => step,
                    },
                    step => step.stop(),
                },
            },
        },
        step => step.stop(),
    }
}

/// Makes the profile of an enabled slot the active one, and fails unless the device then reports its sector.
pub fn set_onboard_active_profile<I: HidIo>(
    transport: &mut HidppTransport<I>,
    features: &FeatureTable,
    slot: u8,
) -> (status: Result<OnboardStatus>)
    ensures
        grown(old(transport)@, final(transport)@),
        final(transport).held() == old(transport).held(),
        forall|wire: Wire|
            wire.covers(final(transport)@) ==> #[trigger] activate_at(
                wire,
                old(transport)@.mark(),
                features@,
                slot,
            ) == reached(outcome(status), final(transport)@.mark()),
{
    reveal(activate_at);

    let headers = read_onboard_profile_headers(transport, features)?;
    let header = match find_enabled_slot(&headers, slot) {
        Some(at) => &headers[at],
        None => {
            return Err(
                AppError::Validation(
                    join3("onboard profile slot ", decimal(slot as u64).as_str(), " is not enabled"),
                ),
            );
        },
    };
    let feature = features.require(ONBOARD_PROFILES)?;
    let parameters = [0u8, slot];
    assert(parameters@ =~= seq![0u8, slot]);
    transport.transact(feature.index, 0x30, &parameters)?;
    let status = read_onboard_status(transport, features)?;
    let active = match status.active_sector {
        Some(sector) => sector == header.sector,
        None => false,
    };
    if !active {
        let shown = match status.active_sector {
            Some(sector) => join3("Some(", decimal(sector as u64).as_str(), ")"),
            None => "None".to_owned(),
        };
        return Err(
            AppError::Verification(
                join4(
                    "requested onboard profile slot ",
                    decimal(slot as u64).as_str(),
                    " but active sector is ",
                    shown.as_str(),
                ),
            ),
        );
    }
    Ok(status)
}

/// The views of profiles in the memory.
pub open spec fn onboard_profile_views(profiles: Seq<OnboardProfile>) -> Seq<OnboardProfileView> {
    profiles.map_values(|profile: OnboardProfile| profile@)
}

/// A result with its list of profiles taken by their views.
pub open spec fn profiles_outcome(profiles: Result<Vec<OnboardProfile>>) -> Outcome<Seq<OnboardProfileView>> {
    match profiles {
        Ok(profiles) => Ok(onboard_profile_views(profiles@)),
        Err(error) => Err(error@),
    }
}

/// What the sector of a directory entry comes to as a profile. The stage that the device is at counts for the
/// active profile only.
pub open spec fn entry_profile(
    header: HeaderView,
    sector: SectorView,
    active_sector: Option<u16>,
    current_dpi: Option<u8>,
) -> Outcome<OnboardProfileView> {
    if !sector.crc_valid {
        Err(
            ErrorView::Verification(
                "onboard profile slot "@ + dec(header.slot as nat) + " has an invalid checksum"@,
            ),
        )
    } else {
        let active = active_sector == Some(header.sector);
        decoded_profile(
            header,
            sector,
            active,
            if active {
                current_dpi
            } else {
                None
            },
        )
    }
}

/// Reading the profiles of the directory entries from one on, after those that are known.
pub open spec fn entries_at(
    wire: Wire,
    at: int,
    features: Seq<FeatureView>,
    sector_size: u16,
    active_sector: Option<u16>,
    current_dpi: Option<u8>,
    headers: Seq<HeaderView>,
    index: int,
    known: Seq<OnboardProfileView>,
) -> Step<Seq<OnboardProfileView>>
    decreases headers.len() - index,
{
    if index < 0 || index >= headers.len() {
        Step::Done { value: known, next: at }
    } else {
        match sector_at(wire, at, features, headers[index].sector, sector_size) {
            Step::Done { value: sector, next } => match entry_profile(
                headers[index],
                sector,
                active_sector,
                current_dpi,
            ) {
                Err(error) => Step::Failed { error, next },
                Ok(profile) => entries_at(
                    wire,
                    next,
                    features,
                    sector_size,
                    active_sector,
                    current_dpi,
                    headers,
                    index + 1,
                    known.push(profile),
                ),
            },
            step => step.stop(),
        }
    }
}

/// Reading the directory and the profiles that it lists, when the stage that the device is at is known.
#[verifier::opaque]
pub open spec fn listed_profiles_at(
    wire: Wire,
    at: int,
    features: Seq<FeatureView>,
    sector_size: u16,
    active_sector: Option<u16>,
    current_dpi: Option<u8>,
) -> Step<Seq<OnboardProfileView>> {
    match headers_at(wire, at, features) {
        Step::Done { value: headers, next } => entries_at(
            wire,
            next,
            features,
            sector_size,
            active_sector,
            current_dpi,
            headers,
            0,
            Seq::empty(),
        ),
        step => step.stop(),
    }
}

/// Reading all profiles of the memory. In onboard mode the device is asked for its stage; where it does not
/// tell, the profiles say.
#[verifier::opaque]
pub open spec fn profiles_at(wire: Wire, at: int, features: Seq<FeatureView>) -> Step<Seq<OnboardProfileView>> {
    match onboard_info_at(wire, at, features) {
        Step::Done { value: info, next } => match format_refusal(info) {
            Some(error) => Step::Failed { error, next },
            None => match onboard_status_at(wire, next, features) {
                Step::Done { value: status, next } => if status.mode_code == 1 {
                    match current_stage_at(wire, next, features) {
                        Step::Done { value, next } => listed_profiles_at(
                            wire,
                            next,
                            features,
                            info.sector_size,
                            status.active_sector,
                            Some(value),
                        ),
                        Step::Failed { next, .. } => listed_profiles_at(
                            wire,
                            next,
                            features,
                            info.sector_size,
                            status.active_sector,
                            None,
                        ),
                        Step::Astray => Step::Astray,
                    }
                } else {
                    listed_profiles_at(wire, next, features, info.sector_size, status.active_sector, None)
                },
                step => step.stop(),
            },
        },
        step => step.stop(),
    }
}

fn read_listed_profiles<I: HidIo>(
    transport: &mut HidppTransport<I>,
    features: &FeatureTable,
    sector_size: u16,
    active_sector: Option<u16>,
    current_dpi: Option<u8>,
) -> (profiles: Result<Vec<OnboardProfile>>)
    requires
        sector_size >= 70,
    ensures
        grown(old(transport)@, final(transport)@),
        final(transport).held() == old(transport).held(),
        forall|wire: Wire|
            wire.covers(final(transport)@) ==> #[trigger] listed_profiles_at(
                wire,
                old(transport)@.mark(),
                features@,
                sector_size,
                active_sector,
                current_dpi,
            ) == reached(profiles_outcome(profiles), final(transport)@.mark()),
{
    reveal(listed_profiles_at);

    let headers = read_onboard_profile_headers(transport, features)?;
    let mut profiles: Vec<OnboardProfile> = Vec::new();
    let mut index: usize = 0;
    assert(onboard_profile_views(profiles@) =~= Seq::empty());
    while index < headers.len()
        invariant
            index <= headers.len(),
            sector_size >= 70,
            grown(old(transport)@, transport@),
            transport.held() == old(transport).held(),
            forall|wire: Wire|
                wire.covers(transport@) ==> #[trigger] listed_profiles_at(
                    wire,
                    old(transport)@.mark(),
                    features@,
                    sector_size,
                    active_sector,
                    current_dpi,
                ) == entries_at(
                    wire,
                    transport@.mark(),
                    features@,
                    sector_size,
                    active_sector,
                    current_dpi,
                    header_views(headers@),
                    index as int,
                    onboard_profile_views(profiles@),
                ),
        decreases headers.len() - index,
    {
        let header = &headers[index];
        let sector = read_onboard_sector(transport, features, header.sector, sector_size)?;
        if !sector.crc_valid {
            return Err(
                AppError::Verification(
                    join3(
                        "onboard profile slot ",
                        decimal(header.slot as u64).as_str(),
                        " has an invalid checksum",
                    ),
                ),
            );
        }
        let active = match active_sector {
            Some(active_sector) => active_sector == header.sector,
            None => false,
        };
        proof {
            if let Ok(bytes) = bytes_of_sector(sector@) {
                long_sectors_are_readable(bytes);
            }
        }
        let profile = decode_format_07_profile(header, &sector, active, if active { current_dpi } else { None })?;
        let ghost known = onboard_profile_views(profiles@);
        profiles.push(profile);
        assert(onboard_profile_views(profiles@) =~= known.push(profile@));
        index = index + 1;
    }
    Ok(profiles)
}

/// Reads all profiles of the memory.
pub fn read_onboard_profiles<I: HidIo>(
    transport: &mut HidppTransport<I>,
    features: &FeatureTable,
) -> (profiles: Result<Vec<OnboardProfile>>)
    ensures
        grown(old(transport)@, final(transport)@),
        final(transport).held() == old(transport).held(),
        forall|wire: Wire|
            wire.covers(final(transport)@) ==> #[trigger] profiles_at(wire, old(transport)@.mark(), features@)
                == reached(profiles_outcome(profiles), final(transport)@.mark()),
{
    reveal(profiles_at);

    let info = read_onboard_info(transport, features)?;
    validate_format_07(&info)?;
    let status = read_onboard_status(transport, features)?;
    let current_dpi: Option<u8> = if status.mode_code == 1 {
        match read_onboard_current_dpi_index(transport, features) {
            Ok(stage) => Some(stage),
            Err(_) => None,
        }
    } else {
        None
    };
    read_listed_profiles(transport, features, info.sector_size, status.active_sector, current_dpi)
}

}
