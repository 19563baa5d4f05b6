//! Profile format 0x07: a profile as a sector of the mouse's memory holds it.

use vstd::prelude::*;

use crate::bytes::{high, high_of, low, low_of, overwrite, overwritten, word, word_of, word_round_trip};
use crate::device::onboard::{
    computed_crc_of, onboard_crc16, sector_of, stored_crc_of, HeaderView, OnboardInfo, OnboardInfoView, OnboardProfileHeader,
    OnboardSector, SectorView,
};
use crate::device::rate::{code_of_rate, known_code_is_found, rate_code, rate_code_is_a_code, EXTENDED_RATES};
use crate::error::{outcome, AppError, ErrorView, Outcome, Result};
use crate::hexcode::{decode, encode_upper, error_message, hex_decoded, hex_error_text, hex_round_trip, hex_text};
use crate::order::find_value;
use crate::profile::{
    action_of, binding_views, ActionView, BindingView, ButtonAction, ButtonBinding, MouseButton, Profile, ProfileView,
};
use crate::text::{dec, decimal, hex2, hex4, hex_byte, hex_word, join2, join3, join4, join5};

verus! {

/// Why the memory of a mouse cannot be edited, if it cannot.
pub open spec fn format_refusal(info: OnboardInfoView) -> Option<ErrorView> {
    if info.memory_model != 1 || info.profile_format != 7 || info.sector_size < 70 {
        Some(
            ErrorView::Validation(
                "onboard profile format 0x"@ + hex2(info.profile_format, false) + " with memory model 0x"@ + hex2(
                    info.memory_model,
                    false,
                ) + " is not supported for profile editing"@,
            ),
        )
    } else {
        None
    }
}

/// Refuses a memory that does not hold format 0x07 profiles.
pub fn validate_format_07(info: &OnboardInfo) -> (valid: Result<()>)
    ensures
        match valid {
            Ok(_) => format_refusal(info@) is None,
            Err(error) => format_refusal(info@) == Some(error@),
        },
{
    if info.memory_model != 1 || info.profile_format != 7 || info.sector_size < 70 {
        return Err(
            AppError::Validation(
                join5(
                    "onboard profile format 0x",
                    hex_byte(info.profile_format, false).as_str(),
                    " with memory model 0x",
                    hex_byte(info.memory_model, false).as_str(),
                    " is not supported for profile editing",
                ),
            ),
        );
    }
    Ok(())
}

/// The bytes of a sector, from its hexadecimal text. There must be as many as the sector says.
pub open spec fn bytes_of_sector(sector: SectorView) -> Outcome<Seq<u8>> {
    match hex_decoded(sector.data_hex) {
        Err(error) => Err(ErrorView::Other("cannot decode onboard sector: "@ + hex_error_text(error))),
        Ok(bytes) => if bytes.len() != sector.size {
            Err(
                ErrorView::Verification(
                    "onboard sector 0x"@ + hex4(sector.sector, false) + " has "@ + dec(bytes.len()) + (
                    " bytes instead of "@ + dec(sector.size as nat)),
                ),
            )
        } else {
            Ok(bytes)
        },
    }
}

/// The bytes of a sector.
pub fn onboard_sector_bytes(sector: &OnboardSector) -> (bytes: Result<Vec<u8>>)
    ensures
        outcome(bytes) == bytes_of_sector(sector@),
{
    let bytes = match decode(sector.data_hex.as_str()) {
        Ok(bytes) => bytes,
        Err(error) => {
            return Err(AppError::Other(join2("cannot decode onboard sector: ", error_message(error).as_str())));
        },
    };
    if bytes.len() != sector.size as usize {
        let mut text = join4(
            "onboard sector 0x",
            hex_word(sector.sector, false).as_str(),
            " has ",
            decimal(bytes.len() as u64).as_str(),
        );
        text.append(join2(" bytes instead of ", decimal(sector.size as u64).as_str()).as_str());
        return Err(AppError::Verification(text));
    }
    Ok(bytes)
}

/// The bytes with the checksum that they call for in the last two.
pub open spec fn with_crc(bytes: Seq<u8>) -> Seq<u8> {
    overwritten(
        bytes,
        bytes.len() - 2,
        seq![high_of(computed_crc_of(bytes)), low_of(computed_crc_of(bytes))],
    )
}

/// Puts the checksum of the bytes in the last two of them.
pub fn set_onboard_crc(bytes: &mut Vec<u8>) -> (set: Result<()>)
    ensures
        match set {
            Ok(_) => old(bytes)@.len() >= 2 && final(bytes)@ == with_crc(old(bytes)@),
            Err(error) => {
                &&& old(bytes)@.len() < 2
                &&& final(bytes)@ == old(bytes)@
                &&& error@ == ErrorView::Validation("onboard sector is too small"@)
            },
        },
{
    if bytes.len() < 2 {
        return Err(AppError::Validation("onboard sector is too small".to_owned()));
    }
    let crc_offset: usize = bytes.len() - 2;
    let guarded = vstd::slice::slice_subrange(bytes.as_slice(), 0, crc_offset);
    assert(guarded@ =~= bytes@.take(bytes@.len() - 2));
    let crc: u16 = onboard_crc16(guarded);
    let stored = [high(crc), low(crc)];
    assert(stored@ =~= seq![high_of(crc), low_of(crc)]);
    overwrite(bytes, crc_offset, &stored);
    Ok(())
}

/// The action that four bytes of a button record stand for. What is unknown is kept as it is.
pub open spec fn button_action(record: Seq<u8>) -> ActionView {
    if record == seq![0x80u8, 0x01u8, 0x00u8, 0x01u8] {
        ActionView::PrimaryClick
    } else if record == seq![0x80u8, 0x01u8, 0x00u8, 0x02u8] {
        ActionView::SecondaryClick
    } else if record == seq![0x80u8, 0x01u8, 0x00u8, 0x04u8] {
        ActionView::MiddleClick
    } else if record == seq![0x80u8, 0x01u8, 0x00u8, 0x08u8] {
        ActionView::Back
    } else if record == seq![0x80u8, 0x01u8, 0x00u8, 0x10u8] {
        ActionView::Forward
    } else if record[0] == 0x90 && record[1] == 0x03 {
        ActionView::DpiUp
    } else if record[0] == 0x90 && record[1] == 0x04 {
        ActionView::DpiDown
    } else if record[0] == 0x90 && record[1] == 0x05 {
        ActionView::DpiCycle
    } else if record[0] == 0x90 && record[1] == 0x07 {
        ActionView::DpiShift
    } else if record[0] == 0xff {
        ActionView::Disabled
    } else {
        ActionView::OnboardRaw(hex_text(record, true))
    }
}

/// Tells the action that the four bytes of a button record stand for.
pub fn decode_format_07_button(bytes: &[u8]) -> (action: ButtonAction)
    requires
        bytes@.len() == 4,
    ensures
        action@ == button_action(bytes@),
        action@ is PrimaryClick <==> bytes@[0] == 0x80 && bytes@[1] == 0x01 && bytes@[2] == 0x00 && bytes@[3] == 0x01,
        action@ is SecondaryClick <==> bytes@[0] == 0x80 && bytes@[1] == 0x01 && bytes@[2] == 0x00 && bytes@[3] == 0x02,
        action@ is MiddleClick <==> bytes@[0] == 0x80 && bytes@[1] == 0x01 && bytes@[2] == 0x00 && bytes@[3] == 0x04,
        action@ is Back <==> bytes@[0] == 0x80 && bytes@[1] == 0x01 && bytes@[2] == 0x00 && bytes@[3] == 0x08,
        action@ is Forward <==> bytes@[0] == 0x80 && bytes@[1] == 0x01 && bytes@[2] == 0x00 && bytes@[3] == 0x10,
        action@ is DpiUp <==> bytes@[0] == 0x90 && bytes@[1] == 0x03,
        action@ is DpiDown <==> bytes@[0] == 0x90 && bytes@[1] == 0x04,
        action@ is DpiCycle <==> bytes@[0] == 0x90 && bytes@[1] == 0x05,
        action@ is DpiShift <==> bytes@[0] == 0x90 && bytes@[1] == 0x07,
        action@ is Disabled <==> bytes@[0] == 0xff,
{
    proof {
        records_mean_actions(bytes@);
    }
    if bytes[0] == 0x80 && bytes[1] == 0x01 && bytes[2] == 0x00 {
        let ghost end = bytes@[3];
        assert(bytes@ =~= seq![0x80u8, 0x01u8, 0x00u8, end]);
        assert(seq![0x80u8, 0x01u8, 0x00u8, 0x01u8][3] == 0x01);
        assert(seq![0x80u8, 0x01u8, 0x00u8, 0x02u8][3] == 0x02);
        assert(seq![0x80u8, 0x01u8, 0x00u8, 0x04u8][3] == 0x04);
        assert(seq![0x80u8, 0x01u8, 0x00u8, 0x08u8][3] == 0x08);
        assert(seq![0x80u8, 0x01u8, 0x00u8, 0x10u8][3] == 0x10);
        match bytes[3] {
            0x01 => {
                return ButtonAction::PrimaryClick;
            },
            0x02 => {
                return ButtonAction::SecondaryClick;
            },
            0x04 => {
                return ButtonAction::MiddleClick;
            },
            0x08 => {
                return ButtonAction::Back;
            },
            0x10 => {
                return ButtonAction::Forward;
            },
            _ => {},
        }
    }
    if bytes[0] == 0x90 && bytes[1] == 0x03 {
        ButtonAction::DpiUp
    } else if bytes[0] == 0x90 && bytes[1] == 0x04 {
        ButtonAction::DpiDown
    } else if bytes[0] == 0x90 && bytes[1] == 0x05 {
        ButtonAction::DpiCycle
    } else if bytes[0] == 0x90 && bytes[1] == 0x07 {
        ButtonAction::DpiShift
    } else if bytes[0] == 0xff {
        ButtonAction::Disabled
    } else {
        ButtonAction::OnboardRaw(encode_upper(bytes))
    }
}

/// The four bytes that stand for an action. A raw action leaves the bytes of the sector as they are; keys and
/// macros have none.
pub open spec fn button_record(action: ActionView) -> Outcome<Option<Seq<u8>>> {
    match action {
        ActionView::PrimaryClick => Ok(Some(seq![0x80u8, 0x01u8, 0x00u8, 0x01u8])),
        ActionView::SecondaryClick => Ok(Some(seq![0x80u8, 0x01u8, 0x00u8, 0x02u8])),
        ActionView::MiddleClick => Ok(Some(seq![0x80u8, 0x01u8, 0x00u8, 0x04u8])),
        ActionView::Back => Ok(Some(seq![0x80u8, 0x01u8, 0x00u8, 0x08u8])),
        ActionView::Forward => Ok(Some(seq![0x80u8, 0x01u8, 0x00u8, 0x10u8])),
        ActionView::DpiUp => Ok(Some(seq![0x90u8, 0x03u8, 0x00u8, 0x00u8])),
        ActionView::DpiDown => Ok(Some(seq![0x90u8, 0x04u8, 0x00u8, 0x00u8])),
        ActionView::DpiCycle => Ok(Some(seq![0x90u8, 0x05u8, 0x00u8, 0x00u8])),
        ActionView::DpiShift => Ok(Some(seq![0x90u8, 0x07u8, 0x00u8, 0x00u8])),
        ActionView::Disabled => Ok(Some(seq![0xffu8, 0xffu8, 0xffu8, 0xffu8])),
        ActionView::OnboardRaw(_) => Ok(None),
        ActionView::Keystroke(_) => Err(ErrorView::Validation("free-form keys cannot be stored onboard yet"@)),
        ActionView::Macro(_) => Err(ErrorView::Validation("macros cannot be stored onboard yet"@)),
    }
}

/// The four bytes that stand for an action.
pub fn encode_format_07_button(action: &ButtonAction) -> (record: Result<Option<[u8; 4]>>)
    ensures
        match record {
            Ok(Some(record)) => button_record(action@) == Outcome::Ok(Some(record@)),
            Ok(None) => button_record(action@) == Outcome::<Option<Seq<u8>>>::Ok(None),
            Err(error) => button_record(action@) == Outcome::<Option<Seq<u8>>>::Err(error@),
        },
        action@ is PrimaryClick ==> (record matches Ok(Some(bytes)) && bytes@ == seq![0x80u8, 0x01u8, 0x00u8, 0x01u8]),
        action@ is SecondaryClick ==> (record matches Ok(Some(bytes)) && bytes@ == seq![0x80u8, 0x01u8, 0x00u8, 0x02u8]),
        action@ is MiddleClick ==> (record matches Ok(Some(bytes)) && bytes@ == seq![0x80u8, 0x01u8, 0x00u8, 0x04u8]),
        action@ is Back ==> (record matches Ok(Some(bytes)) && bytes@ == seq![0x80u8, 0x01u8, 0x00u8, 0x08u8]),
        action@ is Forward ==> (record matches Ok(Some(bytes)) && bytes@ == seq![0x80u8, 0x01u8, 0x00u8, 0x10u8]),
        action@ is DpiUp ==> (record matches Ok(Some(bytes)) && bytes@ == seq![0x90u8, 0x03u8, 0x00u8, 0x00u8]),
        action@ is DpiDown ==> (record matches Ok(Some(bytes)) && bytes@ == seq![0x90u8, 0x04u8, 0x00u8, 0x00u8]),
        action@ is DpiCycle ==> (record matches Ok(Some(bytes)) && bytes@ == seq![0x90u8, 0x05u8, 0x00u8, 0x00u8]),
        action@ is DpiShift ==> (record matches Ok(Some(bytes)) && bytes@ == seq![0x90u8, 0x07u8, 0x00u8, 0x00u8]),
        action@ is Disabled ==> (record matches Ok(Some(bytes)) && bytes@ == seq![0xffu8, 0xffu8, 0xffu8, 0xffu8]),
{
    proof {
        actions_have_fixed_records(action@);
    }
    let record: [u8; 4] = match action {
        ButtonAction::PrimaryClick => [0x80, 0x01, 0x00, 0x01],
        ButtonAction::SecondaryClick => [0x80, 0x01, 0x00, 0x02],
        ButtonAction::MiddleClick => [0x80, 0x01, 0x00, 0x04],
        ButtonAction::Back => [0x80, 0x01, 0x00, 0x08],
        ButtonAction::Forward => [0x80, 0x01, 0x00, 0x10],
        ButtonAction::DpiUp => [0x90, 0x03, 0x00, 0x00],
        ButtonAction::DpiDown => [0x90, 0x04, 0x00, 0x00],
        ButtonAction::DpiCycle => [0x90, 0x05, 0x00, 0x00],
        ButtonAction::DpiShift => [0x90, 0x07, 0x00, 0x00],
        ButtonAction::Disabled => [0xff, 0xff, 0xff, 0xff],
        ButtonAction::OnboardRaw(_) => {
            return Ok(None);
        },
        ButtonAction::Keystroke(_) => {
            return Err(AppError::Validation("free-form keys cannot be stored onboard yet".to_owned()));
        },
        ButtonAction::Macro(_) => {
            return Err(AppError::Validation("macros cannot be stored onboard yet".to_owned()));
        },
    };
    assert(record@ =~= button_record(action@)->Ok_0->0);
    Ok(Some(record))
}

/// A profile as the memory of the mouse holds it.
#[derive(Debug, PartialEq, Eq)]
pub struct OnboardProfile {
    pub slot: u8,
    pub sector: u16,
    pub enabled: bool,
    pub active: bool,
    pub crc_valid: bool,
    pub profile: Profile,
}

/// An [`OnboardProfile`] with the view of its profile.
pub struct OnboardProfileView {
    pub slot: u8,
    pub sector: u16,
    pub enabled: bool,
    pub active: bool,
    pub crc_valid: bool,
    pub profile: ProfileView,
}

impl View for OnboardProfile {
    type V = OnboardProfileView;

    open spec fn view(&self) -> OnboardProfileView {
        OnboardProfileView {
            slot: self.slot,
            sector: self.sector,
            enabled: self.enabled,
            active: self.active,
            crc_valid: self.crc_valid,
            profile: self.profile@,
        }
    }
}

impl Clone for OnboardProfile {
    fn clone(&self) -> (copy: Self)
        ensures
            copy@ == self@,
    {
        OnboardProfile {
            slot: self.slot,
            sector: self.sector,
            enabled: self.enabled,
            active: self.active,
            crc_valid: self.crc_valid,
            profile: self.profile.clone(),
        }
    }
}

/// The horizontal sensitivity of a stage.
pub open spec fn stage_x(bytes: Seq<u8>, stage: int) -> u16 {
    word_of(bytes[5 + 5 * stage], bytes[4 + 5 * stage])
}

/// The vertical sensitivity of a stage.
pub open spec fn stage_y(bytes: Seq<u8>, stage: int) -> u16 {
    word_of(bytes[7 + 5 * stage], bytes[6 + 5 * stage])
}

/// Whether the two sensitivities of some stage from a stage on differ.
pub open spec fn stages_differ(bytes: Seq<u8>, stage: int) -> bool
    decreases 5 - stage,
{
    stage < 5 && (stage_x(bytes, stage) != stage_y(bytes, stage) || stages_differ(bytes, stage + 1))
}

/// The stages below a number that are in use.
pub open spec fn stages_used(bytes: Seq<u8>, count: int) -> Seq<usize>
    decreases count,
{
    if count <= 0 {
        Seq::empty()
    } else if stage_x(bytes, count - 1) != 0 && stage_x(bytes, count - 1) != 0xffff {
        stages_used(bytes, count - 1).push((count - 1) as usize)
    } else {
        stages_used(bytes, count - 1)
    }
}

/// The place of a number in a list, from a place on.
pub open spec fn place_in(list: Seq<usize>, number: int, from: int) -> Option<usize>
    decreases list.len() - from,
{
    if from < 0 || from >= list.len() {
        None
    } else if list[from] == number {
        Some(from as usize)
    } else {
        place_in(list, number, from + 1)
    }
}

fn find_in(list: &Vec<usize>, number: usize) -> (place: Option<usize>)
    ensures
        place == place_in(list@, number as int, 0),
        place matches Some(at) ==> at < list@.len() && list@[at as int] == number,
{
    let mut i: usize = 0;
    while i < list.len()
        invariant
            i <= list.len(),
            place_in(list@, number as int, 0) == place_in(list@, number as int, i as int),
        decreases list.len() - i,
    {
        if list[i] == number {
            return Some(i);
        }
        i = i + 1;
    }
    None
}

/// The bindings that the button records of a sector stand for.
pub open spec fn decoded_bindings(bytes: Seq<u8>) -> Seq<BindingView> {
    Seq::new(
        5,
        |i: int|
            BindingView {
                button: MouseButton::ALL@[i],
                action: button_action(bytes.subrange(48 + 4 * i, 52 + 4 * i)),
            },
    )
}

/// The profile that the bytes of a sector stand for. The active stage is the one given or, where none is, the
/// one that the sector names; a stage that is not in use counts as the first one, a shift stage that is not in
/// use as none.
pub open spec fn profile_in(bytes: Seq<u8>, slot: u8, current_dpi: Option<u8>) -> ProfileView {
    let used = stages_used(bytes, 5);
    let requested = match current_dpi {
        Some(stage) => stage,
        None => bytes[1],
    };
    ProfileView {
        name: "Onboard Slot "@ + dec(slot as nat),
        dpi_points: used.map_values(|stage: usize| stage_x(bytes, stage as int)),
        active_dpi: match place_in(used, requested as int, 0) {
            Some(at) => at,
            None => 0,
        },
        shift_dpi: if bytes[2] == 0xff {
            None
        } else {
            place_in(used, bytes[2] as int, 0)
        },
        report_rate: EXTENDED_RATES@[bytes[0] as int],
        bindings: decoded_bindings(bytes),
    }
}

/// What a sector comes to as a profile.
pub open spec fn decoded_profile(
    header: HeaderView,
    sector: SectorView,
    active: bool,
    current_dpi: Option<u8>,
) -> Outcome<OnboardProfileView> {
    match bytes_of_sector(sector) {
        Err(error) => Err(error),
        Ok(bytes) => if bytes[0] >= 7 {
            Err(ErrorView::Other("unknown onboard report-rate code "@ + dec(bytes[0] as nat)))
        } else if stages_differ(bytes, 0) {
            Err(
                ErrorView::Verification(
                    "onboard profile slot "@ + dec(header.slot as nat) + " has separate x and y dpi values"@,
                ),
            )
        } else if stages_used(bytes, 5).len() == 0 {
            Err(
                ErrorView::Verification(
                    "onboard profile slot "@ + dec(header.slot as nat) + " contains no dpi points"@,
                ),
            )
        } else {
            Ok(
                OnboardProfileView {
                    slot: header.slot,
                    sector: header.sector,
                    enabled: header.enabled,
                    active,
                    crc_valid: sector.crc_valid,
                    profile: profile_in(bytes, header.slot, current_dpi),
                },
            )
        },
    }
}

/// Whether the stages from a stage on can be read: the bytes reach as far as the reading goes.
pub open spec fn stages_readable(bytes: Seq<u8>, stage: int) -> bool
    decreases 5 - stage,
{
    if stage >= 5 {
        stages_used(bytes, 5).len() > 0 ==> bytes.len() >= 68
    } else {
        bytes.len() >= 8 + 5 * stage && (stage_x(bytes, stage) == stage_y(bytes, stage) ==> stages_readable(
            bytes,
            stage + 1,
        ))
    }
}

/// Whether a sector can be read as a profile: it is long enough for as much as the reading gets to.
pub open spec fn readable(bytes: Seq<u8>) -> bool {
    bytes.len() >= 1 && (bytes[0] < 7 ==> stages_readable(bytes, 0))
}

proof fn long_stages_are_readable(bytes: Seq<u8>, stage: int)
    requires
        bytes.len() >= 68,
        0 <= stage <= 5,
    ensures
        stages_readable(bytes, stage),
    decreases 5 - stage,
{
    if stage < 5 {
        long_stages_are_readable(bytes, stage + 1);
    }
}

/// A sector that reaches to the end of the button records can be read as a profile, whatever it holds.
pub proof fn long_sectors_are_readable(bytes: Seq<u8>)
    requires
        bytes.len() >= 68,
    ensures
        readable(bytes),
{
    long_stages_are_readable(bytes, 0);
}

/// Takes a sector apart as a format 0x07 profile.
pub fn decode_format_07_profile(
    header: &OnboardProfileHeader,
    sector: &OnboardSector,
    active: bool,
    current_dpi: Option<u8>,
) -> (profile: Result<OnboardProfile>)
    requires
        bytes_of_sector(sector@) matches Ok(bytes) ==> readable(bytes),
    ensures
        outcome(profile) == decoded_profile(header@, sector@, active, current_dpi),
{
    let bytes = onboard_sector_bytes(sector)?;
    let code: usize = bytes[0] as usize;
    if code >= 7 {
        return Err(
            AppError::Other(join2("unknown onboard report-rate code ", decimal(bytes[0] as u64).as_str())),
        );
    }
    let report_rate: u32 = EXTENDED_RATES[code];
    let mut stages: Vec<usize> = Vec::new();
    let mut dpi_points: Vec<u16> = Vec::new();
    let mut stage: usize = 0;
    assert(dpi_points@ =~= stages@.map_values(|stage: usize| stage_x(bytes@, stage as int)));
    while stage < 5
        invariant
            stage <= 5,
            bytes_of_sector(sector@) == Outcome::Ok(bytes@),
            bytes@[0] < 7,
            stages_readable(bytes@, stage as int),
            stages_differ(bytes@, 0) == stages_differ(bytes@, stage as int),
            stages@ == stages_used(bytes@, stage as int),
            dpi_points@ =~= stages@.map_values(|stage: usize| stage_x(bytes@, stage as int)),
        decreases 5 - stage,
    {
        let x: u16 = word(bytes[5 + 5 * stage], bytes[4 + 5 * stage]);
        let y: u16 = word(bytes[7 + 5 * stage], bytes[6 + 5 * stage]);
        if x != y {
            return Err(
                AppError::Verification(
                    join3(
                        "onboard profile slot ",
                        decimal(header.slot as u64).as_str(),
                        " has separate x and y dpi values",
                    ),
                ),
            );
        }
        if x != 0 && x != 0xffff {
            stages.push(stage);
            dpi_points.push(x);
        }
        stage = stage + 1;
    }
    if stages.len() == 0 {
        return Err(
            AppError::Verification(
                join3("onboard profile slot ", decimal(header.slot as u64).as_str(), " contains no dpi points"),
            ),
        );
    }
    let requested: u8 = match current_dpi {
        Some(stage) => stage,
        None => bytes[1],
    };
    let active_dpi: usize = match find_in(&stages, requested as usize) {
        Some(at) => at,
        None => 0,
    };
    let shift_dpi: Option<usize> = if bytes[2] == 0xff { None } else { find_in(&stages, bytes[2] as usize) };
    let mut bindings: Vec<ButtonBinding> = Vec::new();
    let mut index: usize = 0;
    while index < 5
        invariant
            index <= 5,
            bytes@.len() >= 68,
            binding_views(bindings@) =~= decoded_bindings(bytes@).take(index as int),
        decreases 5 - index,
    {
        let record = vstd::slice::slice_subrange(bytes.as_slice(), 48 + 4 * index, 52 + 4 * index);
        let ghost known = binding_views(bindings@);
        let binding = ButtonBinding { button: MouseButton::ALL[index], action: decode_format_07_button(record) };
        assert(binding@ == decoded_bindings(bytes@)[index as int]);
        bindings.push(binding);
        assert(binding_views(bindings@) =~= known.push(binding@));
        index = index + 1;
    }
    let profile = OnboardProfile {
        slot: header.slot,
        sector: header.sector,
        enabled: header.enabled,
        active,
        crc_valid: sector.crc_valid,
        profile: Profile {
            name: join2("Onboard Slot ", decimal(header.slot as u64).as_str()),
            dpi_points,
            active_dpi,
            shift_dpi,
            report_rate,
            bindings,
        },
    };
    proof {
        let expected = profile_in(bytes@, header.slot, current_dpi);
        assert(profile@.profile.bindings =~= expected.bindings);
        assert(profile@.profile.dpi_points =~= expected.dpi_points);
    }
    Ok(profile)
}

/// Why a profile cannot be stored in the memory, if it cannot.
pub open spec fn profile_refusal(profile: ProfileView) -> Option<ErrorView> {
    if profile.dpi_points.len() == 0 || profile.dpi_points.len() > 5 {
        Some(ErrorView::Validation("onboard profiles require one to five dpi points"@))
    } else if profile.active_dpi >= profile.dpi_points.len() || (profile.shift_dpi matches Some(shift) && shift
        >= profile.dpi_points.len()) {
        Some(ErrorView::Validation("onboard dpi indexes are invalid"@))
    } else if profile.dpi_points.contains(0) || profile.dpi_points.contains(0xffff) {
        Some(ErrorView::Validation("onboard dpi points contain an invalid value"@))
    } else if rate_code(profile.report_rate, 0) is None {
        Some(
            ErrorView::Validation(
                dec(profile.report_rate as nat) + " Hz is not supported by format 0x07 onboard profiles"@,
            ),
        )
    } else {
        None
    }
}

/// Refuses a profile that cannot be stored in the memory.
pub fn validate_profile_for_onboard(profile: &Profile) -> (valid: Result<()>)
    ensures
        match valid {
            Ok(_) => profile_refusal(profile@) is None,
            Err(error) => profile_refusal(profile@) == Some(error@),
        },
{
    if profile.dpi_points.len() == 0 || profile.dpi_points.len() > 5 {
        return Err(AppError::Validation("onboard profiles require one to five dpi points".to_owned()));
    }
    let shift_missing = match profile.shift_dpi {
        Some(shift) => shift >= profile.dpi_points.len(),
        None => false,
    };
    if profile.active_dpi >= profile.dpi_points.len() || shift_missing {
        return Err(AppError::Validation("onboard dpi indexes are invalid".to_owned()));
    }
    if find_value(profile.dpi_points.as_slice(), 0).is_some() || find_value(
        profile.dpi_points.as_slice(),
        0xffff,
    ).is_some() {
        return Err(AppError::Validation("onboard dpi points contain an invalid value".to_owned()));
    }
    if code_of_rate(profile.report_rate).is_none() {
        return Err(
            AppError::Validation(
                join2(
                    decimal(profile.report_rate as u64).as_str(),
                    " Hz is not supported by format 0x07 onboard profiles",
                ),
            ),
        );
    }
    Ok(())
}

/// The sensitivity of a stage in a profile: none is zero.
pub open spec fn stage_dpi(points: Seq<u16>, stage: int) -> u16 {
    if stage < points.len() {
        points[stage]
    } else {
        0
    }
}

/// The bytes with the sensitivities of the first `count` stages written over their places. The first byte of
/// each stage stays as it is.
pub open spec fn with_stages(bytes: Seq<u8>, points: Seq<u16>, count: int) -> Seq<u8> {
    Seq::new(
        bytes.len(),
        |i: int|
            if 3 <= i < 3 + 5 * count && (i - 3) % 5 != 0 {
                let dpi = stage_dpi(points, (i - 3) / 5);
                if (i - 3) % 5 % 2 == 1 {
                    low_of(dpi)
                } else {
                    high_of(dpi)
                }
            } else {
                bytes[i]
            },
    )
}

/// The bytes with the report rate, the active stage and the shift stage written over their places.
pub open spec fn with_settings(bytes: Seq<u8>, code: int, profile: ProfileView) -> Seq<u8> {
    bytes.update(0, code as u8).update(1, (profile.active_dpi % 256) as u8).update(
        2,
        match profile.shift_dpi {
            Some(shift) => (shift % 256) as u8,
            None => 0xff,
        },
    )
}

/// The bytes with the records of the buttons from one on written over their places, and what that came to. An
/// action that has no record ends the writing.
pub open spec fn with_buttons(bytes: Seq<u8>, bindings: Seq<BindingView>, index: int) -> (Seq<u8>, Outcome<()>)
    decreases 5 - index,
{
    if index < 0 || index >= 5 {
        (bytes, Ok(()))
    } else {
        match button_record(action_of(bindings, MouseButton::ALL@[index])) {
            Err(error) => (bytes, Err(error)),
            Ok(None) => with_buttons(bytes, bindings, index + 1),
            Ok(Some(record)) => with_buttons(overwritten(bytes, 48 + 4 * index, record), bindings, index + 1),
        }
    }
}

/// The bytes of a sector with a profile written over them, and what that came to.
pub open spec fn encoded_profile(bytes: Seq<u8>, profile: ProfileView) -> (Seq<u8>, Outcome<()>) {
    if bytes.len() < 70 {
        (bytes, Err(ErrorView::Verification("onboard profile sector is truncated"@)))
    } else {
        match rate_code(profile.report_rate, 0) {
            None => (
                bytes,
                Err(ErrorView::Validation("unsupported report rate "@ + dec(profile.report_rate as nat))),
            ),
            Some(code) => with_buttons(
                with_stages(with_settings(bytes, code, profile), profile.dpi_points, 5),
                profile.bindings,
                0,
            ),
        }
    }
}

/// Writes a profile over the bytes of a sector. Bytes that do not belong to the profile stay as they are.
pub fn encode_format_07_profile(bytes: &mut Vec<u8>, profile: &Profile) -> (encoded: Result<()>)
    ensures
        (final(bytes)@, outcome(encoded)) == encoded_profile(old(bytes)@, profile@),
{
    if bytes.len() < 70 {
        return Err(AppError::Verification("onboard profile sector is truncated".to_owned()));
    }
    let code: u8 = match code_of_rate(profile.report_rate) {
        Some(code) => code,
        None => {
            return Err(
                AppError::Validation(join2("unsupported report rate ", decimal(profile.report_rate as u64).as_str())),
            );
        },
    };
    bytes.set(0, code);
    bytes.set(1, (profile.active_dpi % 256) as u8);
    bytes.set(
        2,
        match profile.shift_dpi {
            Some(shift) => (shift % 256) as u8,
            None => 0xff,
        },
    );
    let ghost settled = with_settings(old(bytes)@, code as int, profile@);
    assert(bytes@ =~= settled);
    let mut stage: usize = 0;
    assert(with_stages(settled, profile.dpi_points@, 0) =~= settled);
    while stage < 5
        invariant
            stage <= 5,
            bytes@.len() >= 70,
            bytes@ == with_stages(settled, profile.dpi_points@, stage as int),
        decreases 5 - stage,
    {
        let dpi: u16 = if stage < profile.dpi_points.len() { profile.dpi_points[stage] } else { 0 };
        let at: usize = 4 + 5 * stage;
        let part = [low(dpi), high(dpi), low(dpi), high(dpi)];
        let ghost before = bytes@;
        overwrite(bytes, at, &part);
        proof {
            let after = with_stages(settled, profile.dpi_points@, stage + 1);
            assert forall|i: int| 0 <= i < after.len() implies bytes@[i] == after[i] by {
                if at <= i < at + 4 {
                    assert((i - 3) / 5 == stage && (i - 3) % 5 == i - 3 - 5 * stage);
                }
            }
            assert(bytes@ =~= after);
        }
        stage = stage + 1;
    }
    let mut index: usize = 0;
    while index < 5
        invariant
            index <= 5,
            bytes@.len() >= 70,
            encoded_profile(old(bytes)@, profile@) == with_buttons(bytes@, profile@.bindings, index as int),
        decreases 5 - index,
    {
        let action = profile.action(MouseButton::ALL[index]);
        match encode_format_07_button(action) {
            Err(error) => {
                return Err(error);
            },
            Ok(None) => {},
            Ok(Some(record)) => {
                overwrite(bytes, 48 + 4 * index, &record);
            },
        }
        index = index + 1;
    }
    Ok(())
}

/// The record of a button in a sector.
pub open spec fn record_in(bytes: Seq<u8>, index: int) -> Seq<u8> {
    bytes.subrange(48 + 4 * index, 52 + 4 * index)
}

/// Whether the record of a button is that of its action or, where the action has none, what it was before.
pub open spec fn records_action(before: Seq<u8>, after: Seq<u8>, bindings: Seq<BindingView>, index: int) -> bool {
    match button_record(action_of(bindings, MouseButton::ALL@[index])) {
        Ok(Some(record)) => record_in(after, index) == record,
        Ok(None) => record_in(after, index) == record_in(before, index),
        Err(_) => false,
    }
}

proof fn with_buttons_writes_records(bytes: Seq<u8>, bindings: Seq<BindingView>, index: int)
    requires
        bytes.len() >= 70,
        0 <= index <= 5,
    ensures
        with_buttons(bytes, bindings, index).0.len() == bytes.len(),
        forall|i: int|
            0 <= i < bytes.len() && !(48 + 4 * index <= i < 68) ==> #[trigger] with_buttons(bytes, bindings, index).0[i]
                == bytes[i],
        with_buttons(bytes, bindings, index).1 is Ok ==> forall|k: int|
            index <= k < 5 ==> #[trigger] records_action(bytes, with_buttons(bytes, bindings, index).0, bindings, k),
    decreases 5 - index,
{
    if index < 5 {
        let action = action_of(bindings, MouseButton::ALL@[index]);
        let after = with_buttons(bytes, bindings, index).0;
        match button_record(action) {
            Err(_) => {},
            Ok(None) => {
                with_buttons_writes_records(bytes, bindings, index + 1);
                assert(record_in(after, index) =~= record_in(bytes, index));
            },
            Ok(Some(record)) => {
                let written = overwritten(bytes, 48 + 4 * index, record);
                with_buttons_writes_records(written, bindings, index + 1);
                assert(record.len() == 4);
                assert(record_in(after, index) =~= record);
                if with_buttons(bytes, bindings, index).1 is Ok {
                    assert forall|k: int| index <= k < 5 implies #[trigger] records_action(bytes, after, bindings, k) by {
                        if k > index {
                            assert(records_action(written, after, bindings, k));
                            assert(record_in(written, k) =~= record_in(bytes, k));
                        }
                    }
                }
            },
        }
    }
}

/// Whether a byte of a sector belongs to the profile that it holds.
pub open spec fn belongs_to_profile(i: int) -> bool {
    ||| 0 <= i < 3
    ||| 3 <= i < 28 && (i - 3) % 5 != 0
    ||| 48 <= i < 68
}

/// Writing a profile over a sector keeps its length and every byte that does not belong to the profile,
/// whether the writing succeeds or not.
pub proof fn encoding_keeps_unknown_bytes(bytes: Seq<u8>, profile: ProfileView, i: int)
    requires
        0 <= i < bytes.len(),
        !belongs_to_profile(i),
    ensures
        encoded_profile(bytes, profile).0.len() == bytes.len(),
        encoded_profile(bytes, profile).0[i] == bytes[i],
{
    if bytes.len() >= 70 {
        if let Some(code) = rate_code(profile.report_rate, 0) {
            let settled = with_stages(with_settings(bytes, code, profile), profile.dpi_points, 5);
            with_buttons_writes_records(settled, profile.bindings, 0);
        }
    }
}

/// Writing a profile over a sector keeps its length, and succeeds only where the sector is long enough.
pub proof fn encoding_keeps_length(bytes: Seq<u8>, profile: ProfileView)
    ensures
        encoded_profile(bytes, profile).0.len() == bytes.len(),
        encoded_profile(bytes, profile).1 is Ok ==> bytes.len() >= 70,
{
    if bytes.len() >= 70 {
        if let Some(code) = rate_code(profile.report_rate, 0) {
            let settled = with_stages(with_settings(bytes, code, profile), profile.dpi_points, 5);
            with_buttons_writes_records(settled, profile.bindings, 0);
        }
    }
}

proof fn place_in_finds(list: Seq<usize>, number: int, from: int)
    requires
        0 <= from,
        list.len() <= usize::MAX,
    ensures
        match place_in(list, number, from) {
            Some(at) => from <= at < list.len() && list[at as int] == number,
            None => forall|k: int| from <= k < list.len() ==> #[trigger] list[k] != number,
        },
    decreases list.len() - from,
{
    if from < list.len() && list[from] != number {
        place_in_finds(list, number, from + 1);
    }
}

proof fn stages_used_counts(bytes: Seq<u8>, count: int, points: Seq<u16>)
    requires
        0 <= count <= 5,
        forall|k: int| 0 <= k < 5 ==> #[trigger] stage_x(bytes, k) == stage_dpi(points, k),
        !points.contains(0),
        !points.contains(0xffff),
        points.len() <= 5,
    ensures
        stages_used(bytes, count).len() == if count < points.len() {
            count as nat
        } else {
            points.len()
        },
        forall|k: int| 0 <= k < stages_used(bytes, count).len() ==> #[trigger] stages_used(bytes, count)[k] == k,
    decreases count,
{
    if count > 0 {
        stages_used_counts(bytes, count - 1, points);
        let earlier = stages_used(bytes, count - 1);
        assert(stage_x(bytes, count - 1) == stage_dpi(points, count - 1));
        if count - 1 < points.len() {
            assert(points.contains(points[count - 1]));
        }
        assert forall|k: int| 0 <= k < stages_used(bytes, count).len() implies #[trigger] stages_used(bytes, count)[k]
            == k by {
            if k < earlier.len() {
                assert(earlier[k] == k);
            }
        }
    }
}

proof fn equal_stages_do_not_differ(bytes: Seq<u8>, stage: int)
    requires
        0 <= stage <= 5,
        forall|k: int| 0 <= k < 5 ==> #[trigger] stage_x(bytes, k) == stage_y(bytes, k),
    ensures
        !stages_differ(bytes, stage),
    decreases 5 - stage,
{
    if stage < 5 {
        assert(stage_x(bytes, stage) == stage_y(bytes, stage));
        equal_stages_do_not_differ(bytes, stage + 1);
    }
}

proof fn stages_read_back(bytes: Seq<u8>, points: Seq<u16>, stage: int)
    requires
        bytes.len() >= 70,
        0 <= stage < 5,
    ensures
        stage_x(with_stages(bytes, points, 5), stage) == stage_dpi(points, stage),
        stage_y(with_stages(bytes, points, 5), stage) == stage_dpi(points, stage),
{
    let after = with_stages(bytes, points, 5);
    let dpi = stage_dpi(points, stage);
    assert(after[4 + 5 * stage] == low_of(dpi)) by {
        assert((4 + 5 * stage - 3) / 5 == stage && (4 + 5 * stage - 3) % 5 == 1);
    }
    assert(after[5 + 5 * stage] == high_of(dpi)) by {
        assert((5 + 5 * stage - 3) / 5 == stage && (5 + 5 * stage - 3) % 5 == 2);
    }
    assert(after[6 + 5 * stage] == low_of(dpi)) by {
        assert((6 + 5 * stage - 3) / 5 == stage && (6 + 5 * stage - 3) % 5 == 3);
    }
    assert(after[7 + 5 * stage] == high_of(dpi)) by {
        assert((7 + 5 * stage - 3) / 5 == stage && (7 + 5 * stage - 3) % 5 == 4);
    }
    word_round_trip(dpi, high_of(dpi), low_of(dpi));
}

proof fn stored_stages_read_back(stored: Seq<u8>, profile: ProfileView, slot: u8)
    requires
        profile_refusal(profile) is None,
        stored.len() >= 70,
        forall|k: int| 0 <= k < 5 ==> #[trigger] stage_x(stored, k) == stage_dpi(profile.dpi_points, k),
        forall|k: int| 0 <= k < 5 ==> stage_y(stored, k) == #[trigger] stage_x(stored, k),
        stored[1] == profile.active_dpi,
        stored[2] == match profile.shift_dpi {
            Some(shift) => shift as int,
            None => 0xff,
        },
    ensures
        !stages_differ(stored, 0),
        stages_used(stored, 5).len() > 0,
        profile_in(stored, slot, None).dpi_points == profile.dpi_points,
        profile_in(stored, slot, None).active_dpi == profile.active_dpi,
        profile_in(stored, slot, None).shift_dpi == profile.shift_dpi,
{
    let points = profile.dpi_points;
    let read = profile_in(stored, slot, None);
    let used = stages_used(stored, 5);
    equal_stages_do_not_differ(stored, 0);
    stages_used_counts(stored, 5, points);
    assert forall|k: int| 0 <= k < points.len() implies read.dpi_points[k] == #[trigger] points[k] by {
        assert(used[k] == k);
        assert(stage_x(stored, k) == stage_dpi(points, k));
    }
    assert(read.dpi_points =~= points);
    place_in_finds(used, stored[1] as int, 0);
    assert(used[profile.active_dpi as int] == profile.active_dpi);
    if let Some(shift) = profile.shift_dpi {
        place_in_finds(used, stored[2] as int, 0);
        assert(used[shift as int] == shift);
    }
}

/// What a button does once a profile was stored: its action in the profile or, where the profile leaves the
/// record as it is, what the record stood for before.
pub open spec fn stored_action(bytes: Seq<u8>, profile: ProfileView, index: int) -> ActionView {
    match action_of(profile.bindings, MouseButton::ALL@[index]) {
        ActionView::OnboardRaw(_) => button_action(record_in(bytes, index)),
        action => action,
    }
}

/// A profile that can be stored and was written over a sector is what the sector holds afterwards: the same
/// sensitivities, active and shift stage and report rate, and for every button its action or, where the
/// profile leaves the record as it is, what the record stood for before.
pub proof fn stored_profile_reads_back(bytes: Seq<u8>, profile: ProfileView, slot: u8)
    requires
        profile_refusal(profile) is None,
        encoded_profile(bytes, profile).1 is Ok,
    ensures
        encoded_profile(bytes, profile).0[0] < 7,
        !stages_differ(encoded_profile(bytes, profile).0, 0),
        stages_used(encoded_profile(bytes, profile).0, 5).len() > 0,
        profile_in(encoded_profile(bytes, profile).0, slot, None).dpi_points == profile.dpi_points,
        profile_in(encoded_profile(bytes, profile).0, slot, None).active_dpi == profile.active_dpi,
        profile_in(encoded_profile(bytes, profile).0, slot, None).shift_dpi == profile.shift_dpi,
        profile_in(encoded_profile(bytes, profile).0, slot, None).report_rate == profile.report_rate,
        forall|k: int|
            0 <= k < 5 ==> #[trigger] profile_in(encoded_profile(bytes, profile).0, slot, None).bindings[k] == (
            BindingView { button: MouseButton::ALL@[k], action: stored_action(bytes, profile, k) }),
{
    let stored = encoded_profile(bytes, profile).0;
    let read = profile_in(stored, slot, None);
    let points = profile.dpi_points;
    rate_code_is_a_code(profile.report_rate, 0);
    let code = rate_code(profile.report_rate, 0)->0;
    let settings = with_settings(bytes, code, profile);
    let settled = with_stages(settings, points, 5);
    with_buttons_writes_records(settled, profile.bindings, 0);
    assert forall|k: int| 0 <= k < 5 implies #[trigger] stage_x(stored, k) == stage_dpi(points, k) && stage_y(stored, k)
        == stage_x(stored, k) by {
        stages_read_back(settings, points, k);
        assert(stage_x(stored, k) == stage_x(settled, k));
        assert(stage_y(stored, k) == stage_y(settled, k));
    }
    assert(stored[1] == settings[1] && stored[2] == settings[2] && stored[0] == settings[0]);
    stored_stages_read_back(stored, profile, slot);
    assert forall|k: int| 0 <= k < 5 implies #[trigger] read.bindings[k] == (BindingView {
        button: MouseButton::ALL@[k],
        action: stored_action(bytes, profile, k),
    }) by {
        assert(records_action(settled, stored, profile.bindings, k));
        assert(record_in(stored, k) =~= stored.subrange(48 + 4 * k, 52 + 4 * k));
        assert(record_in(settled, k) =~= record_in(bytes, k));
        let action = action_of(profile.bindings, MouseButton::ALL@[k]);
        if button_record(action)->Ok_0 is Some {
            record_stands_for_action(action);
        }
    }
}

/// The record of an action stands for that action.
pub proof fn record_stands_for_action(action: ActionView)
    requires
        button_record(action) matches Ok(Some(_)),
    ensures
        button_action(button_record(action)->Ok_0->0) == action,
{
    let record = button_record(action)->Ok_0->0;
    assert(seq![0x80u8, 0x01u8, 0x00u8, 0x01u8][3] == 0x01);
    assert(seq![0x80u8, 0x01u8, 0x00u8, 0x02u8][3] == 0x02);
    assert(seq![0x80u8, 0x01u8, 0x00u8, 0x04u8][3] == 0x04);
    assert(seq![0x80u8, 0x01u8, 0x00u8, 0x08u8][3] == 0x08);
    assert(seq![0x80u8, 0x01u8, 0x00u8, 0x10u8][3] == 0x10);
    assert(record[0] == 0x80 || record[0] == 0x90 || record[0] == 0xff);
    assert(seq![0x80u8, 0x01u8, 0x00u8, 0x01u8][0] == 0x80);
    assert(seq![0x80u8, 0x01u8, 0x00u8, 0x02u8][0] == 0x80);
    assert(seq![0x80u8, 0x01u8, 0x00u8, 0x04u8][0] == 0x80);
    assert(seq![0x80u8, 0x01u8, 0x00u8, 0x08u8][0] == 0x80);
    assert(seq![0x80u8, 0x01u8, 0x00u8, 0x10u8][0] == 0x80);
}

/// The stages in use are stages with a usable sensitivity.
pub proof fn stages_used_are_stages(bytes: Seq<u8>, count: int)
    requires
        0 <= count <= 5,
    ensures
        stages_used(bytes, count).len() <= count,
        forall|k: int|
            #![trigger stages_used(bytes, count)[k]]
            0 <= k < stages_used(bytes, count).len() ==> {
                &&& stages_used(bytes, count)[k] < count
                &&& stage_x(bytes, stages_used(bytes, count)[k] as int) != 0
                &&& stage_x(bytes, stages_used(bytes, count)[k] as int) != 0xffff
            },
    decreases count,
{
    if count > 0 {
        stages_used_are_stages(bytes, count - 1);
        let earlier = stages_used(bytes, count - 1);
        assert forall|k: int|
            #![trigger stages_used(bytes, count)[k]]
            0 <= k < stages_used(bytes, count).len() implies {
            &&& stages_used(bytes, count)[k] < count
            &&& stage_x(bytes, stages_used(bytes, count)[k] as int) != 0
            &&& stage_x(bytes, stages_used(bytes, count)[k] as int) != 0xffff
        } by {
            if k < earlier.len() {
                assert(stages_used(bytes, count)[k] == earlier[k]);
            }
        }
    }
}

/// A profile that was read from a sector can be stored again.
pub proof fn read_profile_can_be_stored(bytes: Seq<u8>, slot: u8, current_dpi: Option<u8>)
    requires
        bytes.len() >= 68,
        bytes[0] < 7,
        stages_used(bytes, 5).len() > 0,
    ensures
        profile_refusal(profile_in(bytes, slot, current_dpi)) is None,
{
    let used = stages_used(bytes, 5);
    let profile = profile_in(bytes, slot, current_dpi);
    stages_used_are_stages(bytes, 5);
    let requested = match current_dpi {
        Some(stage) => stage,
        None => bytes[1],
    };
    place_in_finds(used, requested as int, 0);
    place_in_finds(used, bytes[2] as int, 0);
    if profile.dpi_points.contains(0) {
        let k = choose|k: int| 0 <= k < profile.dpi_points.len() && profile.dpi_points[k] == 0;
        assert(profile.dpi_points[k] == stage_x(bytes, used[k] as int));
    }
    if profile.dpi_points.contains(0xffff) {
        let k = choose|k: int| 0 <= k < profile.dpi_points.len() && profile.dpi_points[k] == 0xffff;
        assert(profile.dpi_points[k] == stage_x(bytes, used[k] as int));
    }
    known_code_is_found(bytes[0] as int, 0);
}

/// Setting the checksum makes it valid and changes nothing but the last two bytes.
pub proof fn checksum_is_valid_once_set(bytes: Seq<u8>)
    requires
        bytes.len() >= 2,
    ensures
        with_crc(bytes).len() == bytes.len(),
        with_crc(bytes).take(bytes.len() - 2) == bytes.take(bytes.len() - 2),
        stored_crc_of(with_crc(bytes)) == computed_crc_of(with_crc(bytes)),
        with_crc(with_crc(bytes)) == with_crc(bytes),
{
    let after = with_crc(bytes);
    let crc = computed_crc_of(bytes);
    assert(after.take(bytes.len() - 2) =~= bytes.take(bytes.len() - 2));
    word_round_trip(crc, high_of(crc), low_of(crc));
    assert(with_crc(after) =~= after);
}

/// A sector gives back the bytes that it was made of.
pub proof fn sector_gives_back_bytes(sector: u16, bytes: Seq<u8>)
    requires
        bytes.len() <= u16::MAX,
    ensures
        bytes_of_sector(sector_of(sector, bytes)) == Outcome::Ok(bytes),
{
    hex_round_trip(bytes, true);
}

/// Which of the five buttons of a mouse is at a place: the two main ones, the wheel and the two at the side.
pub open spec fn button_at(place: int) -> MouseButton {
    if place == 0 {
        MouseButton::Primary
    } else if place == 1 {
        MouseButton::Secondary
    } else if place == 2 {
        MouseButton::Middle
    } else if place == 3 {
        MouseButton::Back
    } else {
        MouseButton::Forward
    }
}

/// The reports in a second that a rate code stands for: 125, and twice as many with each code.
pub open spec fn hertz(code: int) -> int
    decreases code,
{
    if code <= 0 {
        125
    } else {
        2 * hertz(code - 1)
    }
}

/// Rate codes double the rate, from 125 reports in a second on, and there are seven of them.
pub proof fn rate_codes_double(rate: u32)
    ensures
        match rate_code(rate, 0) {
            Some(code) => 0 <= code <= 6 && rate == hertz(code),
            None => forall|code: int| 0 <= code <= 6 ==> rate != #[trigger] hertz(code),
        },
{
    reveal_with_fuel(hertz, 8);
    reveal_with_fuel(rate_code, 8);
    assert forall|code: int| rate_code(rate, 0) is None && 0 <= code <= 6 implies rate != #[trigger] hertz(code) by {
        if code == 0 {
        } else if code == 1 {
        } else if code == 2 {
        } else if code == 3 {
        } else if code == 4 {
        } else if code == 5 {
        } else {
        }
    }
}

/// A record of a click starts with 80 01 00, and its last byte has the bit of the clicked button: the first for the
/// primary one, and so on. A record that steers the sensitivity starts with 90 and a code. A button that does nothing
/// has a record of ones. Free-form keys and macros have no record, and a raw action leaves the record alone.
pub proof fn actions_have_fixed_records(action: ActionView)
    ensures
        match action {
            ActionView::PrimaryClick => button_record(action) == Outcome::Ok(Some(seq![0x80u8, 0x01u8, 0u8, 1u8])),
            ActionView::SecondaryClick => button_record(action) == Outcome::Ok(Some(seq![0x80u8, 0x01u8, 0u8, 2u8])),
            ActionView::MiddleClick => button_record(action) == Outcome::Ok(Some(seq![0x80u8, 0x01u8, 0u8, 4u8])),
            ActionView::Back => button_record(action) == Outcome::Ok(Some(seq![0x80u8, 0x01u8, 0u8, 8u8])),
            ActionView::Forward => button_record(action) == Outcome::Ok(Some(seq![0x80u8, 0x01u8, 0u8, 16u8])),
            ActionView::DpiUp => button_record(action) == Outcome::Ok(Some(seq![0x90u8, 3u8, 0u8, 0u8])),
            ActionView::DpiDown => button_record(action) == Outcome::Ok(Some(seq![0x90u8, 4u8, 0u8, 0u8])),
            ActionView::DpiCycle => button_record(action) == Outcome::Ok(Some(seq![0x90u8, 5u8, 0u8, 0u8])),
            ActionView::DpiShift => button_record(action) == Outcome::Ok(Some(seq![0x90u8, 7u8, 0u8, 0u8])),
            ActionView::Disabled => button_record(action) == Outcome::Ok(Some(seq![0xffu8, 0xffu8, 0xffu8, 0xffu8])),
            ActionView::OnboardRaw(_) => button_record(action) == Outcome::<Option<Seq<u8>>>::Ok(None),
            ActionView::Keystroke(_) => button_record(action) is Err,
            ActionView::Macro(_) => button_record(action) is Err,
        },
{
}

/// What a record stands for, byte by byte: each action has its records and no others, and a record that is none of
/// them is kept as it is.
pub proof fn records_mean_actions(record: Seq<u8>)
    requires
        record.len() == 4,
    ensures
        ({
            let action = button_action(record);
            let click = record[0] == 0x80 && record[1] == 0x01 && record[2] == 0;
            let steers = record[0] == 0x90;
            &&& action is PrimaryClick <==> click && record[3] == 1
            &&& action is SecondaryClick <==> click && record[3] == 2
            &&& action is MiddleClick <==> click && record[3] == 4
            &&& action is Back <==> click && record[3] == 8
            &&& action is Forward <==> click && record[3] == 16
            &&& action is DpiUp <==> steers && record[1] == 3
            &&& action is DpiDown <==> steers && record[1] == 4
            &&& action is DpiCycle <==> steers && record[1] == 5
            &&& action is DpiShift <==> steers && record[1] == 7
            &&& action is Disabled <==> record[0] == 0xff
            &&& action is Keystroke || action is Macro ==> false
            &&& action matches ActionView::OnboardRaw(text) ==> text == hex_text(record, true)
        }),
{
    let last = record[3];
    if record[0] == 0x80 && record[1] == 0x01 && record[2] == 0 {
        assert(record =~= seq![0x80u8, 0x01u8, 0u8, last]);
    }
    assert(seq![0x80u8, 0x01u8, 0u8, 1u8][3] == 1);
    assert(seq![0x80u8, 0x01u8, 0u8, 2u8][3] == 2);
    assert(seq![0x80u8, 0x01u8, 0u8, 4u8][3] == 4);
    assert(seq![0x80u8, 0x01u8, 0u8, 8u8][3] == 8);
    assert(seq![0x80u8, 0x01u8, 0u8, 16u8][3] == 16);
    assert(seq![0x80u8, 0x01u8, 0u8, 1u8][0] == 0x80 && seq![0x80u8, 0x01u8, 0u8, 1u8][1] == 1);
    assert(seq![0x80u8, 0x01u8, 0u8, 1u8][2] == 0 && seq![0x80u8, 0x01u8, 0u8, 2u8][2] == 0);
    assert(seq![0x80u8, 0x01u8, 0u8, 2u8][0] == 0x80 && seq![0x80u8, 0x01u8, 0u8, 2u8][1] == 1);
    assert(seq![0x80u8, 0x01u8, 0u8, 4u8][0] == 0x80 && seq![0x80u8, 0x01u8, 0u8, 4u8][1] == 1);
    assert(seq![0x80u8, 0x01u8, 0u8, 4u8][2] == 0 && seq![0x80u8, 0x01u8, 0u8, 8u8][2] == 0);
    assert(seq![0x80u8, 0x01u8, 0u8, 8u8][0] == 0x80 && seq![0x80u8, 0x01u8, 0u8, 8u8][1] == 1);
    assert(seq![0x80u8, 0x01u8, 0u8, 16u8][0] == 0x80 && seq![0x80u8, 0x01u8, 0u8, 16u8][1] == 1);
    assert(seq![0x80u8, 0x01u8, 0u8, 16u8][2] == 0);
}

/// Whether a stage of a sector has a sensitivity for both directions, low byte first.
pub open spec fn stage_holds(bytes: Seq<u8>, stage: int, dpi: int) -> bool {
    &&& bytes[4 + 5 * stage] + 256 * bytes[5 + 5 * stage] == dpi
    &&& bytes[6 + 5 * stage] + 256 * bytes[7 + 5 * stage] == dpi
}

/// Whether the record of a button, by its place, has these four bytes.
pub open spec fn button_holds(bytes: Seq<u8>, place: int, record: Seq<u8>) -> bool {
    &&& bytes[48 + 4 * place] == record[0]
    &&& bytes[49 + 4 * place] == record[1]
    &&& bytes[50 + 4 * place] == record[2]
    &&& bytes[51 + 4 * place] == record[3]
}

/// Whether a sector has for a button, by its place, the record of an action, or what it had before where the action has
/// none.
pub open spec fn button_stored(before: Seq<u8>, after: Seq<u8>, place: int, action: ActionView) -> bool {
    match button_record(action) {
        Ok(Some(record)) => button_holds(after, place, record),
        Ok(None) => button_holds(after, place, before.subrange(48 + 4 * place, 52 + 4 * place)),
        Err(_) => false,
    }
}

/// Where a stored profile stands in its sector: the rate code, the active and the shift stage in the first three bytes;
/// then five stages of five bytes, each with its sensitivity twice, low byte first, from its second byte on; and from
/// byte 48 on the records of the five buttons, four bytes each.
pub proof fn stored_profile_has_its_places(bytes: Seq<u8>, profile: ProfileView)
    requires
        profile_refusal(profile) is None,
        encoded_profile(bytes, profile).1 is Ok,
    ensures
        ({
            let stored = encoded_profile(bytes, profile).0;
            &&& profile.report_rate == hertz(stored[0] as int)
            &&& stored[1] == profile.active_dpi
            &&& stored[2] == (match profile.shift_dpi {
                Some(shift) => shift as int,
                None => 255,
            })
            &&& forall|k: int|
                0 <= k < profile.dpi_points.len() ==> #[trigger] stage_holds(stored, k, profile.dpi_points[k] as int)
            &&& forall|k: int| profile.dpi_points.len() <= k < 5 ==> #[trigger] stage_holds(stored, k, 0)
            &&& forall|k: int|
                0 <= k < 5 ==> #[trigger] button_stored(
                    bytes,
                    stored,
                    k,
                    action_of(profile.bindings, button_at(k)),
                )
        }),
{
    let stored = encoded_profile(bytes, profile).0;
    let points = profile.dpi_points;
    rate_codes_double(profile.report_rate);
    let code = rate_code(profile.report_rate, 0)->0;
    let settings = with_settings(bytes, code, profile);
    let settled = with_stages(settings, points, 5);
    with_buttons_writes_records(settled, profile.bindings, 0);
    assert(stored[0] == settings[0] && stored[1] == settings[1] && stored[2] == settings[2]);
    let stages = Seq::new(
        5,
        |k: int|
            if k < points.len() {
                points[k] as int
            } else {
                0
            },
    );
    assert forall|k: int| 0 <= k < 5 implies #[trigger] stage_holds(stored, k, stages[k]) by {
        assert(stored[4 + 5 * k] == settled[4 + 5 * k] && stored[5 + 5 * k] == settled[5 + 5 * k]);
        assert(stored[6 + 5 * k] == settled[6 + 5 * k] && stored[7 + 5 * k] == settled[7 + 5 * k]);
        assert((4 + 5 * k - 3) / 5 == k && (4 + 5 * k - 3) % 5 == 1);
        assert((5 + 5 * k - 3) / 5 == k && (5 + 5 * k - 3) % 5 == 2);
        assert((6 + 5 * k - 3) / 5 == k && (6 + 5 * k - 3) % 5 == 3);
        assert((7 + 5 * k - 3) / 5 == k && (7 + 5 * k - 3) % 5 == 4);
    }
    assert forall|k: int| 0 <= k < 5 implies #[trigger] button_stored(
        bytes,
        stored,
        k,
        action_of(profile.bindings, button_at(k)),
    ) by {
        assert(MouseButton::ALL@[k] == button_at(k));
        assert(records_action(settled, stored, profile.bindings, k));
        let after = record_in(stored, k);
        let before = record_in(settled, k);
        assert(after[0] == stored[48 + 4 * k] && after[1] == stored[49 + 4 * k]);
        assert(after[2] == stored[50 + 4 * k] && after[3] == stored[51 + 4 * k]);
        assert(before =~= bytes.subrange(48 + 4 * k, 52 + 4 * k));
    }
    assert forall|k: int| 0 <= k < points.len() implies #[trigger] stage_holds(stored, k, points[k] as int) by {
        assert(stage_holds(stored, k, stages[k]));
    }
    assert forall|k: int| points.len() <= k < 5 implies #[trigger] stage_holds(stored, k, 0) by {
        assert(stage_holds(stored, k, stages[k]));
    }
}

/// Storing a profile leaves alone what it does not hold: every byte but the first three, the two sensitivities of the
/// five stages, and the records of the five buttons.
pub proof fn storing_leaves_other_bytes(bytes: Seq<u8>, profile: ProfileView, i: int)
    requires
        0 <= i < bytes.len(),
        i == 3 || i == 8 || i == 13 || i == 18 || i == 23 || 28 <= i < 48 || 68 <= i,
    ensures
        encoded_profile(bytes, profile).0[i] == bytes[i],
        encoded_profile(bytes, profile).0.len() == bytes.len(),
{
    encoding_keeps_unknown_bytes(bytes, profile, i);
}

/// The sensitivity of a stage, which stands in a sector low byte first.
pub open spec fn dpi_in(bytes: Seq<u8>, stage: int) -> int {
    bytes[4 + 5 * stage] + 256 * bytes[5 + 5 * stage]
}

/// Whether a sensitivity is one: neither zero nor all ones.
pub open spec fn is_dpi(value: int) -> bool {
    value != 0 && value != 65535
}

proof fn stages_used_are_all(bytes: Seq<u8>, count: int)
    requires
        0 <= count <= 5,
    ensures
        forall|k: int| 0 <= k < count && is_dpi(#[trigger] dpi_in(bytes, k)) ==> stages_used(bytes, count).contains(
            k as usize,
        ),
        forall|i: int, j: int|
            0 <= i < j < stages_used(bytes, count).len() ==> #[trigger] stages_used(bytes, count)[i]
                < #[trigger] stages_used(bytes, count)[j],
    decreases count,
{
    if count > 0 {
        stages_used_are_all(bytes, count - 1);
        stages_used_are_stages(bytes, count - 1);
        let earlier = stages_used(bytes, count - 1);
        let used = stages_used(bytes, count);
        assert(stage_x(bytes, count - 1) == dpi_in(bytes, count - 1));
        assert forall|k: int| 0 <= k < count && is_dpi(#[trigger] dpi_in(bytes, k)) implies used.contains(
            k as usize,
        ) by {
            if k < count - 1 {
                let i = choose|i: int| 0 <= i < earlier.len() && earlier[i] == k as usize;
                assert(used[i] == k as usize);
            } else {
                assert(used.last() == k as usize);
            }
        }
    }
}

/// Whether a stage of a sector has a sensitivity.
pub open spec fn stage_there(bytes: Seq<u8>, stage: int) -> bool {
    0 <= stage < 5 && is_dpi(dpi_in(bytes, stage))
}

/// What a sector says as a profile. The report rate follows from the first byte. The points are the sensitivities of
/// the stages that have one, in their order. The active point is that of the stage that is asked for, or that the
/// second byte names, where it has one, and otherwise the first. The third byte names the stage of the shift point;
/// there is none where that stage has no sensitivity. Each button does what its record says. The law gives the stages.
pub proof fn sector_says_profile(bytes: Seq<u8>, slot: u8, current_dpi: Option<u8>) -> (stages: Seq<usize>)
    requires
        bytes.len() >= 68,
        bytes[0] < 7,
    ensures
        ({
            let profile = profile_in(bytes, slot, current_dpi);
            let asked: int = match current_dpi {
                Some(stage) => stage as int,
                None => bytes[1] as int,
            };
            let points = profile.dpi_points;
            &&& profile.name == "Onboard Slot "@ + dec(slot as nat)
            &&& profile.report_rate == hertz(bytes[0] as int)
            &&& stages.len() == points.len() <= 5
            &&& forall|i: int, j: int| 0 <= i < j < stages.len() ==> #[trigger] stages[i] < #[trigger] stages[j]
            &&& forall|i: int|
                0 <= i < stages.len() ==> stage_there(bytes, #[trigger] stages[i] as int) && points[i] == dpi_in(
                    bytes,
                    stages[i] as int,
                )
            &&& forall|k: int| #[trigger] stage_there(bytes, k) ==> stages.contains(k as usize)
            &&& if stage_there(bytes, asked) {
                profile.active_dpi < stages.len() && stages[profile.active_dpi as int] == asked
            } else {
                profile.active_dpi == 0
            }
            &&& match profile.shift_dpi {
                Some(shift) => shift < stages.len() && stages[shift as int] == bytes[2],
                None => !stage_there(bytes, bytes[2] as int),
            }
            &&& profile.bindings.len() == 5
            &&& forall|k: int|
                0 <= k < 5 ==> (#[trigger] profile.bindings[k]).button == button_at(k) && profile.bindings[k].action
                    == button_action(seq![bytes[48 + 4 * k], bytes[49 + 4 * k], bytes[50 + 4 * k], bytes[51 + 4 * k]])
        }),
{
    let profile = profile_in(bytes, slot, current_dpi);
    let used = stages_used(bytes, 5);
    let points = profile.dpi_points;
    let asked: u8 = match current_dpi {
        Some(stage) => stage,
        None => bytes[1],
    };
    stages_used_are_stages(bytes, 5);
    stages_used_are_all(bytes, 5);
    place_in_finds(used, asked as int, 0);
    place_in_finds(used, bytes[2] as int, 0);
    assert(profile.report_rate == hertz(bytes[0] as int)) by {
        reveal_with_fuel(hertz, 8);
    }
    assert forall|i: int| 0 <= i < used.len() implies stage_there(bytes, #[trigger] used[i] as int) && points[i]
        == dpi_in(bytes, used[i] as int) by {
        let k = used[i] as int;
        assert(points[i] == stage_x(bytes, k) && stage_x(bytes, k) == dpi_in(bytes, k));
    }
    assert forall|k: int| #[trigger] stage_there(bytes, k) implies used.contains(k as usize) by {
        assert(is_dpi(dpi_in(bytes, k)));
    }
    if stage_there(bytes, asked as int) {
        let i = choose|i: int| 0 <= i < used.len() && used[i] == asked as usize;
        assert(used[i] == asked);
    } else if place_in(used, asked as int, 0) is Some {
        let i = place_in(used, asked as int, 0)->0 as int;
        assert(stage_there(bytes, used[i] as int));
    }
    if stage_there(bytes, bytes[2] as int) {
        let i = choose|i: int| 0 <= i < used.len() && used[i] == bytes[2] as usize;
        assert(used[i] == bytes[2]);
    }
    assert forall|k: int| 0 <= k < 5 implies (#[trigger] profile.bindings[k]).button == button_at(k)
        && profile.bindings[k].action == button_action(
        seq![bytes[48 + 4 * k], bytes[49 + 4 * k], bytes[50 + 4 * k], bytes[51 + 4 * k]],
    ) by {
        assert(MouseButton::ALL@[k] == button_at(k));
        assert(bytes.subrange(48 + 4 * k, 52 + 4 * k) =~= seq![
            bytes[48 + 4 * k],
            bytes[49 + 4 * k],
            bytes[50 + 4 * k],
            bytes[51 + 4 * k],
        ]);
    }
    used
}

proof fn stages_differ_somewhere(bytes: Seq<u8>, from: int)
    requires
        0 <= from <= 5,
    ensures
        stages_differ(bytes, from) <==> exists|k: int|
            from <= k < 5 && bytes[6 + 5 * k] + 256 * bytes[7 + 5 * k] != #[trigger] dpi_in(bytes, k),
    decreases 5 - from,
{
    if from < 5 {
        stages_differ_somewhere(bytes, from + 1);
        assert(stage_x(bytes, from) == dpi_in(bytes, from));
        assert(stage_y(bytes, from) == bytes[6 + 5 * from] + 256 * bytes[7 + 5 * from]);
    }
}

/// A sector that was read is a profile exactly where its rate code is one of the seven, one stage at least has a
/// sensitivity, and no stage has another one across. The profile is that of the slot and the sector, as the directory
/// has them.
pub proof fn sector_is_read_as_profile(
    header: HeaderView,
    sector: SectorView,
    bytes: Seq<u8>,
    active: bool,
    current_dpi: Option<u8>,
)
    requires
        bytes_of_sector(sector) == Outcome::Ok(bytes),
        bytes.len() >= 68,
    ensures
        ({
            let one_way = forall|k: int|
                0 <= k < 5 ==> bytes[6 + 5 * k] + 256 * bytes[7 + 5 * k] == #[trigger] dpi_in(bytes, k);
            let some = exists|k: int| 0 <= k < 5 && is_dpi(#[trigger] dpi_in(bytes, k));
            match decoded_profile(header, sector, active, current_dpi) {
                Err(_) => bytes[0] >= 7 || !one_way || !some,
                Ok(told) => {
                    &&& bytes[0] < 7 && one_way && some
                    &&& told.slot == header.slot
                    &&& told.sector == header.sector
                    &&& told.enabled == header.enabled
                    &&& told.active == active
                    &&& told.crc_valid == sector.crc_valid
                    &&& told.profile == profile_in(bytes, header.slot, current_dpi)
                },
            }
        }),
{
    stages_differ_somewhere(bytes, 0);
    stages_used_are_stages(bytes, 5);
    stages_used_are_all(bytes, 5);
    let used = stages_used(bytes, 5);
    if used.len() > 0 {
        let k = used[0] as int;
        assert(stage_x(bytes, k) == dpi_in(bytes, k));
        assert(is_dpi(dpi_in(bytes, k)));
    }
    if exists|k: int| 0 <= k < 5 && is_dpi(#[trigger] dpi_in(bytes, k)) {
        let k = choose|k: int| 0 <= k < 5 && is_dpi(#[trigger] dpi_in(bytes, k));
        assert(used.contains(k as usize));
    }
}

/// A profile can be stored exactly where it has one to five points, none of them zero or all ones, an active point and a
/// shift point, if any, that are there, and a rate that has a code.
pub proof fn storable_profiles(profile: ProfileView)
    ensures
        profile_refusal(profile) is None <==> {
            &&& 1 <= profile.dpi_points.len() <= 5
            &&& profile.active_dpi < profile.dpi_points.len()
            &&& profile.shift_dpi matches Some(shift) ==> shift < profile.dpi_points.len()
            &&& forall|i: int| 0 <= i < profile.dpi_points.len() ==> is_dpi(#[trigger] profile.dpi_points[i] as int)
            &&& exists|code: int| 0 <= code <= 6 && profile.report_rate == #[trigger] hertz(code)
        },
        profile_refusal(profile) matches Some(error) ==> error is Validation,
{
    rate_codes_double(profile.report_rate);
    let points = profile.dpi_points;
    if points.contains(0) {
        let i = choose|i: int| 0 <= i < points.len() && points[i] == 0;
        assert(!is_dpi(points[i] as int));
    }
    if points.contains(0xffff) {
        let i = choose|i: int| 0 <= i < points.len() && points[i] == 0xffff;
        assert(!is_dpi(points[i] as int));
    }
    if !points.contains(0) && !points.contains(0xffff) {
        assert forall|i: int| 0 <= i < points.len() implies is_dpi(#[trigger] points[i] as int) by {
            assert(points.contains(points[i]));
        }
    }
    if let Some(code) = rate_code(profile.report_rate, 0) {
        assert(profile.report_rate == hertz(code));
    }
}

/// A memory can be edited exactly where its model is 1, its format 7, and its sectors have at least 70 bytes.
pub proof fn editable_memories(info: OnboardInfoView)
    ensures
        format_refusal(info) is None <==> info.memory_model == 1 && info.profile_format == 7 && info.sector_size >= 70,
        format_refusal(info) matches Some(error) ==> error is Validation,
{
}

}
