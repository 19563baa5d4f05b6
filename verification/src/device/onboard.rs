//! The memory of a mouse: its mode, its profile directory and its sectors.

use vstd::prelude::*;

use crate::bytes::{append_bytes, cut, high, high_of, low, low_of, overwrite, overwritten, repeated, word, word_of};
use crate::error::{outcome, AppError, ErrorView, Outcome, Result};
use crate::hexcode::{encode_upper, hex_text};
use crate::hid::transport::HidIo;
use crate::hidpp::features::{required_feature, FeatureTable, FeatureView, ONBOARD_PROFILES};
use crate::hidpp::protocol::HidppTransport;
use crate::hidpp::session::{call_at, grown, group_session, read_at, reached, Step, Wire};
use crate::text::{dec, decimal, hex2, hex4, hex_byte, hex_word, join3, join4};

verus! {

broadcast use group_session;

/// Who controls the settings of the mouse, and from which sector.
#[derive(Debug, Clone, PartialEq, Eq)]
pub struct OnboardStatus {
    pub mode: String,
    pub mode_code: u8,
    pub active_sector: Option<u16>,
}

/// An [`OnboardStatus`] with its text as a sequence of characters.
pub struct OnboardStatusView {
    pub mode: Seq<char>,
    pub mode_code: u8,
    pub active_sector: Option<u16>,
}

impl View for OnboardStatus {
    type V = OnboardStatusView;

    open spec fn view(&self) -> OnboardStatusView {
        OnboardStatusView { mode: self.mode@, mode_code: self.mode_code, active_sector: self.active_sector }
    }
}

/// The name of a mode.
pub open spec fn mode_name(mode: u8) -> Seq<char> {
    if mode == 1 {
        "onboard"@
    } else if mode == 2 {
        "host"@
    } else {
        "unknown"@
    }
}

/// The status with a mode and a sector.
pub open spec fn status_of(mode: u8, active_sector: Option<u16>) -> OnboardStatusView {
    OnboardStatusView { mode: mode_name(mode), mode_code: mode, active_sector }
}

/// The sector that a reply names, where it is long enough to name one.
pub open spec fn sector_named(reply: Seq<u8>) -> Option<u16> {
    if reply.len() >= 2 {
        Some(word_of(reply[0], reply[1]))
    } else {
        None
    }
}

/// Asking for the mode and, in onboard mode, for the active sector.
#[verifier::opaque]
pub open spec fn onboard_status_at(wire: Wire, at: int, features: Seq<FeatureView>) -> Step<OnboardStatusView> {
    match required_feature(features, ONBOARD_PROFILES) {
        Err(error) => Step::Failed { error, next: at },
        Ok(feature) => match read_at(wire, at, feature.index, 0x20, Seq::empty()) {
            Step::Done { value, next } => if value.len() == 0 {
                Step::Failed { error: ErrorView::Other("onboard mode response is empty"@), next }
            } else if value[0] == 1 {
                match read_at(wire, next, feature.index, 0x40, Seq::empty()) {
                    Step::Done { value: reply, next } => Step::Done {
                        value: status_of(value[0], sector_named(reply)),
                        next,
                    },
                    step => step.stop(),
                }
            } else {
                Step::Done { value: status_of(value[0], None), next }
            },
            step => step.stop(),
        },
    }
}

/// Reads the mode and, in onboard mode, the active sector.
pub fn read_onboard_status<I: HidIo>(
    transport: &mut HidppTransport<I>,
    features: &FeatureTable,
) -> (status: Result<OnboardStatus>)
    ensures
        grown(old(transport)@, final(transport)@),
        final(transport).held() == old(transport).held(),
        forall|wire: Wire|
            wire.covers(final(transport)@) ==> #[trigger] onboard_status_at(
                wire,
                old(transport)@.mark(),
                features@,
            ) == reached(outcome(status), final(transport)@.mark()),
{
    reveal(onboard_status_at);

    let feature = features.require(ONBOARD_PROFILES)?;
    let nothing: [u8; 0] = [];
    assert(nothing@ =~= Seq::empty());
    let response = transport.transact_read(feature.index, 0x20, &nothing)?;
    if response.len() == 0 {
        return Err(AppError::Other("onboard mode response is empty".to_owned()));
    }
    let mode: u8 = response[0];
    let active_sector: Option<u16> = if mode == 1 {
        let response = transport.transact_read(feature.index, 0x40, &nothing)?;
        if response.len() >= 2 {
            Some(word(response[0], response[1]))
        } else {
            None
        }
    } else {
        None
    };
    Ok(
        OnboardStatus {
            mode: if mode == 1 {
                "onboard".to_owned()
            } else if mode == 2 {
                "host".to_owned()
            } else {
                "unknown".to_owned()
            },
            mode_code: mode,
            active_sector,
        },
    )
}

/// The code of onboard mode or of host mode.
pub open spec fn mode_code_of(onboard: bool) -> u8 {
    if onboard {
        1
    } else {
        2
    }
}

/// Switching the mode and reading it back.
#[verifier::opaque]
pub open spec fn set_onboard_mode_at(
    wire: Wire,
    at: int,
    features: Seq<FeatureView>,
    onboard: bool,
) -> Step<OnboardStatusView> {
    match required_feature(features, ONBOARD_PROFILES) {
        Err(error) => Step::Failed { error, next: at },
        Ok(feature) => match call_at(wire, at, feature.index, 0x10, seq![mode_code_of(onboard)]) {
            Step::Done { next, .. } => match onboard_status_at(wire, next, features) {
                Step::Done { value, next } => if value.mode_code != mode_code_of(onboard) {
                    Step::Failed {
                        error: ErrorView::Verification(
                            "requested mode 0x"@ + hex2(mode_code_of(onboard), false) + " but device reports 0x"@
                                + hex2(value.mode_code, false),
                        ),
                        next,
                    }
                } else {
                    Step::Done { value, next }
                },
                step => step,
            },
            step => step.stop(),
        },
    }
}

/// Switches the mode, and fails unless the device then reports the mode asked for.
pub fn set_onboard_mode<I: HidIo>(
    transport: &mut HidppTransport<I>,
    features: &FeatureTable,
    onboard: bool,
) -> (status: Result<OnboardStatus>)
    ensures
        grown(old(transport)@, final(transport)@),
        final(transport).held() == old(transport).held(),
        forall|wire: Wire|
            wire.covers(final(transport)@) ==> #[trigger] set_onboard_mode_at(
                wire,
                old(transport)@.mark(),
                features@,
                onboard,
            ) == reached(outcome(status), final(transport)@.mark()),
{
    reveal(set_onboard_mode_at);

    let feature = features.require(ONBOARD_PROFILES)?;
    let requested: u8 = if onboard { 1 } else { 2 };
    let parameters = [requested];
    assert(parameters@ =~= seq![requested]);
    transport.transact(feature.index, 0x10, &parameters)?;
    let actual = read_onboard_status(transport, features)?;
    if actual.mode_code != requested {
        return Err(
            AppError::Verification(
                join4(
                    "requested mode 0x",
                    hex_byte(requested, false).as_str(),
                    " but device reports 0x",
                    hex_byte(actual.mode_code, false).as_str(),
                ),
            ),
        );
    }
    Ok(actual)
}

/// What the memory of a mouse is like.
#[derive(Debug, Clone, PartialEq, Eq)]
pub struct OnboardInfo {
    pub memory_model: u8,
    pub profile_format: u8,
    pub macro_format: u8,
    pub profile_count: u8,
    pub rom_profile_count: u8,
    pub button_count: u8,
    pub sector_count: u8,
    pub sector_size: u16,
    pub mechanical_layout: u8,
    pub various_info: u8,
    pub reserved_hex: String,
    pub raw_hex: String,
}

/// An [`OnboardInfo`] with its texts as sequences of characters.
pub struct OnboardInfoView {
    pub memory_model: u8,
    pub profile_format: u8,
    pub macro_format: u8,
    pub profile_count: u8,
    pub rom_profile_count: u8,
    pub button_count: u8,
    pub sector_count: u8,
    pub sector_size: u16,
    pub mechanical_layout: u8,
    pub various_info: u8,
    pub reserved_hex: Seq<char>,
    pub raw_hex: Seq<char>,
}

impl View for OnboardInfo {
    type V = OnboardInfoView;

    open spec fn view(&self) -> OnboardInfoView {
        OnboardInfoView {
            memory_model: self.memory_model,
            profile_format: self.profile_format,
            macro_format: self.macro_format,
            profile_count: self.profile_count,
            rom_profile_count: self.rom_profile_count,
            button_count: self.button_count,
            sector_count: self.sector_count,
            sector_size: self.sector_size,
            mechanical_layout: self.mechanical_layout,
            various_info: self.various_info,
            reserved_hex: self.reserved_hex@,
            raw_hex: self.raw_hex@,
        }
    }
}

/// What a reply says of the memory.
pub open spec fn info_of(reply: Seq<u8>) -> Outcome<OnboardInfoView> {
    if reply.len() < 16 {
        Err(
            ErrorView::Other(
                "ONBOARD_PROFILES.GetInfo returned "@ + dec(reply.len()) + " bytes; expected 16"@,
            ),
        )
    } else {
        Ok(
            OnboardInfoView {
                memory_model: reply[0],
                profile_format: reply[1],
                macro_format: reply[2],
                profile_count: reply[3],
                rom_profile_count: reply[4],
                button_count: reply[5],
                sector_count: reply[6],
                sector_size: word_of(reply[7], reply[8]),
                mechanical_layout: reply[9],
                various_info: reply[10],
                reserved_hex: hex_text(reply.subrange(11, 16), true),
                raw_hex: hex_text(reply.subrange(0, 16), true),
            },
        )
    }
}

/// Takes a reply apart that describes the memory.
pub fn decode_onboard_info(response: &[u8]) -> (info: Result<OnboardInfo>)
    ensures
        outcome(info) == info_of(response@),
{
    if response.len() < 16 {
        return Err(
            AppError::Other(
                join3(
                    "ONBOARD_PROFILES.GetInfo returned ",
                    decimal(response.len() as u64).as_str(),
                    " bytes; expected 16",
                ),
            ),
        );
    }
    Ok(
        OnboardInfo {
            memory_model: response[0],
            profile_format: response[1],
            macro_format: response[2],
            profile_count: response[3],
            rom_profile_count: response[4],
            button_count: response[5],
            sector_count: response[6],
            sector_size: word(response[7], response[8]),
            mechanical_layout: response[9],
            various_info: response[10],
            reserved_hex: encode_upper(cut(response, 11, 16).as_slice()),
            raw_hex: encode_upper(cut(response, 0, 16).as_slice()),
        },
    )
}

/// Asking what the memory is like.
#[verifier::opaque]
pub open spec fn onboard_info_at(wire: Wire, at: int, features: Seq<FeatureView>) -> Step<OnboardInfoView> {
    match required_feature(features, ONBOARD_PROFILES) {
        Err(error) => Step::Failed { error, next: at },
        Ok(feature) => match read_at(wire, at, feature.index, 0x00, Seq::empty()) {
            Step::Done { value, next } => reached(info_of(value), next),
            step => step.stop(),
        },
    }
}

/// Reads what the memory is like.
pub fn read_onboard_info<I: HidIo>(
    transport: &mut HidppTransport<I>,
    features: &FeatureTable,
) -> (info: Result<OnboardInfo>)
    ensures
        grown(old(transport)@, final(transport)@),
        final(transport).held() == old(transport).held(),
        forall|wire: Wire|
            wire.covers(final(transport)@) ==> #[trigger] onboard_info_at(
                wire,
                old(transport)@.mark(),
                features@,
            ) == reached(outcome(info), final(transport)@.mark()),
{
    reveal(onboard_info_at);

    let feature = features.require(ONBOARD_PROFILES)?;
    let nothing: [u8; 0] = [];
    assert(nothing@ =~= Seq::empty());
    let response = transport.transact_read(feature.index, 0x00, &nothing)?;
    decode_onboard_info(response.as_slice())
}

/// What a reply to a read of sixteen bytes comes to: the reply, where it is long enough.
pub open spec fn chunk_of(sector: u16, offset: u16, reply: Seq<u8>) -> Outcome<Seq<u8>> {
    if reply.len() < 16 {
        Err(
            ErrorView::Other(
                "onboard sector 0x"@ + hex4(sector, false) + " offset 0x"@ + hex4(offset, false) + (" returned "@ + dec(
                    reply.len(),
                ) + " bytes; expected 16"@),
            ),
        )
    } else {
        Ok(reply)
    }
}

/// Reading sixteen bytes of a sector.
pub open spec fn chunk_at(wire: Wire, at: int, feature_index: u8, sector: u16, offset: u16) -> Step<Seq<u8>> {
    match read_at(
        wire,
        at,
        feature_index,
        0x50,
        seq![high_of(sector), low_of(sector), high_of(offset), low_of(offset)],
    ) {
        Step::Done { value, next } => reached(chunk_of(sector, offset, value), next),
        step => step,
    }
}

fn read_onboard_chunk<I: HidIo>(
    transport: &mut HidppTransport<I>,
    feature_index: u8,
    sector: u16,
    offset: u16,
) -> (chunk: Result<Vec<u8>>)
    ensures
        grown(old(transport)@, final(transport)@),
        final(transport).held() == old(transport).held(),
        forall|wire: Wire|
            wire.covers(final(transport)@) ==> #[trigger] chunk_at(
                wire,
                old(transport)@.mark(),
                feature_index,
                sector,
                offset,
            ) == reached(outcome(chunk), final(transport)@.mark()),
        chunk matches Ok(bytes) ==> bytes@.len() >= 16,
{
    let parameters = [high(sector), low(sector), high(offset), low(offset)];
    assert(parameters@ =~= seq![high_of(sector), low_of(sector), high_of(offset), low_of(offset)]);
    let response = transport.transact_read(feature_index, 0x50, &parameters)?;
    if response.len() < 16 {
        let mut text = join4(
            "onboard sector 0x",
            hex_word(sector, false).as_str(),
            " offset 0x",
            hex_word(offset, false).as_str(),
        );
        text.append(
            join3(" returned ", decimal(response.len() as u64).as_str(), " bytes; expected 16").as_str(),
        );
        return Err(AppError::Other(text));
    }
    Ok(response)
}

/// An entry of the profile directory.
#[derive(Debug, Clone, PartialEq, Eq)]
pub struct OnboardProfileHeader {
    pub slot: u8,
    pub sector: u16,
    pub enabled: bool,
    pub enabled_code: u8,
    pub flags: u8,
    pub raw_hex: String,
}

/// An [`OnboardProfileHeader`] with its text as a sequence of characters.
pub struct HeaderView {
    pub slot: u8,
    pub sector: u16,
    pub enabled: bool,
    pub enabled_code: u8,
    pub flags: u8,
    pub raw_hex: Seq<char>,
}

impl View for OnboardProfileHeader {
    type V = HeaderView;

    open spec fn view(&self) -> HeaderView {
        HeaderView {
            slot: self.slot,
            sector: self.sector,
            enabled: self.enabled,
            enabled_code: self.enabled_code,
            flags: self.flags,
            raw_hex: self.raw_hex@,
        }
    }
}

/// The views of directory entries.
pub open spec fn header_views(headers: Seq<OnboardProfileHeader>) -> Seq<HeaderView> {
    headers.map_values(|header: OnboardProfileHeader| header@)
}

/// The directory entry with the given number, counted from zero.
pub open spec fn header_of(bytes: Seq<u8>, index: int) -> HeaderView {
    HeaderView {
        slot: (index + 1) as u8,
        sector: word_of(bytes[4 * index], bytes[4 * index + 1]),
        enabled: bytes[4 * index + 2] == 1,
        enabled_code: bytes[4 * index + 2],
        flags: bytes[4 * index + 3],
        raw_hex: hex_text(bytes.subrange(4 * index, 4 * index + 4), true),
    }
}

/// The directory entries from a number on, up to a count, to the end of the bytes or to the end mark.
pub open spec fn headers_from(bytes: Seq<u8>, count: int, index: int) -> Seq<HeaderView>
    decreases count - index,
{
    if index < 0 || index >= count || 4 * index + 4 > bytes.len() || (bytes[4 * index] == 0xff && bytes[4 * index + 1]
        == 0xff) {
        Seq::empty()
    } else {
        seq![header_of(bytes, index)] + headers_from(bytes, count, index + 1)
    }
}

/// Takes the profile directory apart.
pub fn decode_onboard_profile_headers(bytes: &[u8], count: u8) -> (headers: Vec<OnboardProfileHeader>)
    ensures
        header_views(headers@) == headers_from(bytes@, count as int, 0),
{
    let mut headers: Vec<OnboardProfileHeader> = Vec::new();
    let mut index: usize = 0;
    assert(header_views(headers@) + headers_from(bytes@, count as int, 0) =~= headers_from(bytes@, count as int, 0));
    while index < count as usize && bytes.len() / 4 > index && !(bytes[4 * index] == 0xff && bytes[4 * index + 1]
        == 0xff)
        invariant
            index <= count,
            header_views(headers@) + headers_from(bytes@, count as int, index as int) == headers_from(
                bytes@,
                count as int,
                0,
            ),
        decreases count - index,
    {
        let ghost known = header_views(headers@);
        let enabled_code: u8 = bytes[4 * index + 2];
        let header = OnboardProfileHeader {
            slot: index as u8 + 1,
            sector: word(bytes[4 * index], bytes[4 * index + 1]),
            enabled: enabled_code == 1,
            enabled_code,
            flags: bytes[4 * index + 3],
            raw_hex: encode_upper(cut(bytes, 4 * index, 4 * index + 4).as_slice()),
        };
        assert(header@ == header_of(bytes@, index as int));
        headers.push(header);
        assert(header_views(headers@) =~= known.push(header_of(bytes@, index as int)));
        assert(known + (seq![header_of(bytes@, index as int)] + headers_from(bytes@, count as int, index + 1))
            =~= header_views(headers@) + headers_from(bytes@, count as int, index + 1));
        index = index + 1;
    }
    assert(header_views(headers@) =~= headers_from(bytes@, count as int, 0));
    headers
}

/// Reading the directory from `offset` on, sixteen bytes at a time, until `required` bytes are there.
pub open spec fn directory_at(
    wire: Wire,
    at: int,
    feature_index: u8,
    offset: int,
    required: int,
    bytes: Seq<u8>,
) -> Step<Seq<u8>>
    decreases required + 16 - offset,
{
    if offset >= required {
        Step::Done { value: bytes, next: at }
    } else {
        match chunk_at(wire, at, feature_index, 0, offset as u16) {
            Step::Done { value, next } => directory_at(
                wire,
                next,
                feature_index,
                offset + 16,
                required,
                bytes + value,
            ),
            step => step,
        }
    }
}

/// Reading the profile directory: how many profiles there are, and then as many entries.
#[verifier::opaque]
pub open spec fn headers_at(wire: Wire, at: int, features: Seq<FeatureView>) -> Step<Seq<HeaderView>> {
    match onboard_info_at(wire, at, features) {
        Step::Done { value: info, next } => match required_feature(features, ONBOARD_PROFILES) {
            Err(error) => Step::Failed { error, next },
            Ok(feature) => match directory_at(
                wire,
                next,
                feature.index,
                0,
                info.profile_count * 4 + 4,
                Seq::empty(),
            ) {
                Step::Done { value, next } => Step::Done {
                    value: headers_from(value, info.profile_count as int, 0),
                    next,
                },
                step => step.stop(),
            },
        },
        step => step.stop(),
    }
}

/// A result with its list of directory entries taken by their views.
pub open spec fn headers_outcome(headers: Result<Vec<OnboardProfileHeader>>) -> Outcome<Seq<HeaderView>> {
    match headers {
        Ok(headers) => Ok(header_views(headers@)),
        Err(error) => Err(error@),
    }
}

/// Reads the profile directory.
pub fn read_onboard_profile_headers<I: HidIo>(
    transport: &mut HidppTransport<I>,
    features: &FeatureTable,
) -> (headers: Result<Vec<OnboardProfileHeader>>)
    ensures
        grown(old(transport)@, final(transport)@),
        final(transport).held() == old(transport).held(),
        forall|wire: Wire|
            wire.covers(final(transport)@) ==> #[trigger] headers_at(wire, old(transport)@.mark(), features@)
                == reached(headers_outcome(headers), final(transport)@.mark()),
{
    reveal(headers_at);

    let info = read_onboard_info(transport, features)?;
    let feature = features.require(ONBOARD_PROFILES)?;
    let feature_index: u8 = feature.index;
    let required: usize = info.profile_count as usize * 4 + 4;
    let mut bytes: Vec<u8> = Vec::new();
    let mut offset: usize = 0;
    assert(bytes@ =~= Seq::empty());
    while offset < required
        invariant
            offset <= required + 16 <= 1100,
            grown(old(transport)@, transport@),
            transport.held() == old(transport).held(),
            forall|wire: Wire|
                wire.covers(transport@) ==> #[trigger] headers_at(wire, old(transport)@.mark(), features@) == (
                match directory_at(wire, transport@.mark(), feature_index, offset as int, required as int, bytes@) {
                    Step::Done { value, next } => Step::Done {
                        value: headers_from(value, info.profile_count as int, 0),
                        next,
                    },
                    step => step.stop(),
                }),
        decreases required + 16 - offset,
    {
        let response = read_onboard_chunk(transport, feature_index, 0, offset as u16)?;
        append_bytes(&mut bytes, response.as_slice());
        offset = offset + 16;
    }
    Ok(decode_onboard_profile_headers(bytes.as_slice(), info.profile_count))
}

/// The remainder after one bit more.
pub open spec fn crc_shift(crc: u16) -> u16 {
    if crc & 0x8000 != 0 {
        (crc << 1) ^ 0x1021
    } else {
        crc << 1
    }
}

/// The remainder after some bits more.
pub open spec fn crc_shifts(crc: u16, count: nat) -> u16
    decreases count,
{
    if count == 0 {
        crc
    } else {
        crc_shift(crc_shifts(crc, (count - 1) as nat))
    }
}

/// The CRC-16 that guards a sector: polynomial 0x1021, starting from 0xffff, the highest bit first.
pub open spec fn crc16(bytes: Seq<u8>) -> u16
    decreases bytes.len(),
{
    if bytes.len() == 0 {
        0xffff
    } else {
        crc_shifts(crc16(bytes.drop_last()) ^ ((bytes.last() as u16) << 8), 8)
    }
}

/// Computes the CRC-16 that guards a sector.
pub fn onboard_crc16(bytes: &[u8]) -> (crc: u16)
    ensures
        crc == crc16(bytes@),
{
    let mut crc: u16 = 0xffff;
    let mut i: usize = 0;
    assert(bytes@.take(0) =~= Seq::empty());
    while i < bytes.len()
        invariant
            i <= bytes.len(),
            crc == crc16(bytes@.take(i as int)),
        decreases bytes.len() - i,
    {
        assert(bytes@.take(i + 1).drop_last() =~= bytes@.take(i as int));
        crc = crc ^ ((bytes[i] as u16) << 8);
        let ghost start = crc;
        let mut bit: usize = 0;
        while bit < 8
            invariant
                bit <= 8,
                crc == crc_shifts(start, bit as nat),
            decreases 8 - bit,
        {
            crc = if crc & 0x8000 != 0 { (crc << 1) ^ 0x1021 } else { crc << 1 };
            bit = bit + 1;
        }
        i = i + 1;
    }
    assert(bytes@.take(bytes@.len() as int) =~= bytes@);
    crc
}

/// A sector of the memory with its checksum.
#[derive(Debug, Clone, PartialEq, Eq)]
pub struct OnboardSector {
    pub sector: u16,
    pub size: u16,
    pub stored_crc: u16,
    pub computed_crc: u16,
    pub crc_valid: bool,
    pub data_hex: String,
}

/// An [`OnboardSector`] with its text as a sequence of characters.
pub struct SectorView {
    pub sector: u16,
    pub size: u16,
    pub stored_crc: u16,
    pub computed_crc: u16,
    pub crc_valid: bool,
    pub data_hex: Seq<char>,
}

impl View for OnboardSector {
    type V = SectorView;

    open spec fn view(&self) -> SectorView {
        SectorView {
            sector: self.sector,
            size: self.size,
            stored_crc: self.stored_crc,
            computed_crc: self.computed_crc,
            crc_valid: self.crc_valid,
            data_hex: self.data_hex@,
        }
    }
}

/// The checksum that the last two bytes of a sector hold.
pub open spec fn stored_crc_of(bytes: Seq<u8>) -> u16 {
    word_of(bytes[bytes.len() - 2], bytes[bytes.len() - 1])
}

/// The checksum that the bytes before the last two call for.
pub open spec fn computed_crc_of(bytes: Seq<u8>) -> u16 {
    crc16(bytes.take(bytes.len() - 2))
}

/// A sector with the given bytes.
pub open spec fn sector_of(sector: u16, bytes: Seq<u8>) -> SectorView {
    SectorView {
        sector,
        size: bytes.len() as u16,
        stored_crc: stored_crc_of(bytes),
        computed_crc: computed_crc_of(bytes),
        crc_valid: stored_crc_of(bytes) == computed_crc_of(bytes),
        data_hex: hex_text(bytes, true),
    }
}

/// Where the read after one at `offset` starts: sixteen bytes on, or at the last sixteen bytes.
pub open spec fn offset_after(offset: int, size: int) -> int {
    if offset + 16 <= size - 16 {
        offset + 16
    } else {
        size - 16
    }
}

/// Reading a sector from `offset` on into bytes of its size, sixteen at a time. The last sixteen are read
/// last, whatever the size.
pub open spec fn sector_bytes_at(
    wire: Wire,
    at: int,
    feature_index: u8,
    sector: u16,
    offset: int,
    bytes: Seq<u8>,
) -> Step<Seq<u8>>
    decreases bytes.len() - offset,
{
    if offset < 0 {
        Step::Astray
    } else {
        match chunk_at(wire, at, feature_index, sector, offset as u16) {
            Step::Done { value, next } => {
                let filled = overwritten(bytes, offset, value.take(16));
                if offset >= bytes.len() - 16 {
                    Step::Done { value: filled, next }
                } else {
                    sector_bytes_at(wire, next, feature_index, sector, offset_after(offset, bytes.len() as int), filled)
                }
            },
            step => step,
        }
    }
}

/// Reading a sector of a given size.
#[verifier::opaque]
pub open spec fn sector_at(wire: Wire, at: int, features: Seq<FeatureView>, sector: u16, size: u16) -> Step<SectorView> {
    if size < 16 {
        Step::Failed {
            error: ErrorView::Validation("onboard sector size must be at least 16 bytes"@),
            next: at,
        }
    } else {
        match required_feature(features, ONBOARD_PROFILES) {
            Err(error) => Step::Failed { error, next: at },
            Ok(feature) => match sector_bytes_at(
                wire,
                at,
                feature.index,
                sector,
                0,
                Seq::new(size as nat, |i: int| 0u8),
            ) {
                Step::Done { value, next } => Step::Done { value: sector_of(sector, value), next },
                step => step.stop(),
            },
        }
    }
}

/// Reads a sector of a given size and checks its checksum.
pub fn read_onboard_sector<I: HidIo>(
    transport: &mut HidppTransport<I>,
    features: &FeatureTable,
    sector: u16,
    size: u16,
) -> (content: Result<OnboardSector>)
    ensures
        grown(old(transport)@, final(transport)@),
        final(transport).held() == old(transport).held(),
        forall|wire: Wire|
            wire.covers(final(transport)@) ==> #[trigger] sector_at(
                wire,
                old(transport)@.mark(),
                features@,
                sector,
                size,
            ) == reached(outcome(content), final(transport)@.mark()),
        content matches Ok(content) ==> content.sector == sector && content.size == size && size >= 16,
{
    reveal(sector_at);

    if size < 16 {
        return Err(AppError::Validation("onboard sector size must be at least 16 bytes".to_owned()));
    }
    let feature = features.require(ONBOARD_PROFILES)?;
    let feature_index: u8 = feature.index;
    let length: usize = size as usize;
    let mut bytes: Vec<u8> = repeated(0, length);
    let mut offset: usize = 0;
    let mut done = false;
    while !done
        invariant
            length == size,
            16 <= length,
            bytes@.len() == length,
            offset <= length - 16,
            grown(old(transport)@, transport@),
            transport.held() == old(transport).held(),
            forall|wire: Wire|
                wire.covers(transport@) ==> #[trigger] sector_at(wire, old(transport)@.mark(), features@, sector, size)
                    == (if done {
                    Step::Done { value: sector_of(sector, bytes@), next: transport@.mark() }
                } else {
                    match sector_bytes_at(wire, transport@.mark(), feature_index, sector, offset as int, bytes@) {
                        Step::Done { value, next } => Step::Done { value: sector_of(sector, value), next },
                        step => step.stop(),
                    }
                }),
        decreases length - offset, if done { 0int } else { 1int },
    {
        let response = read_onboard_chunk(transport, feature_index, sector, offset as u16)?;
        let chunk = cut(response.as_slice(), 0, 16);
        assert(chunk@ =~= response@.take(16));
        overwrite(&mut bytes, offset, chunk.as_slice());
        if offset >= length - 16 {
            done = true;
        } else if offset + 16 <= length - 16 {
            offset = offset + 16;
        } else {
            offset = length - 16;
        }
    }
    let crc_offset: usize = bytes.len() - 2;
    let stored_crc: u16 = word(bytes[crc_offset], bytes[crc_offset + 1]);
    let guarded = cut(bytes.as_slice(), 0, crc_offset);
    assert(guarded@ =~= bytes@.take(bytes@.len() - 2));
    let computed_crc: u16 = onboard_crc16(guarded.as_slice());
    Ok(
        OnboardSector {
            sector,
            size,
            stored_crc,
            computed_crc,
            crc_valid: stored_crc == computed_crc,
            data_hex: encode_upper(bytes.as_slice()),
        },
    )
}

}
