//! Who a device is: its name, its identifiers and its firmware.

use vstd::prelude::*;
use vstd::utf8::{decode_utf8, valid_utf8};

use crate::bytes::{append_bytes, cut, word, word_of};
use crate::device::onboard::{onboard_info_at, read_onboard_info};
use crate::device::{DeviceView, LogicalDevice};
use crate::error::{outcome, AppError, ErrorView, Outcome, Result};
use crate::hexcode::{encode_upper, hex_text};
use crate::hid::transport::HidIo;
use crate::hidpp::features::{
    find_feature, required_feature, FeatureTable, FeatureView, DEVICE_FW_VERSION, DEVICE_NAME, ONBOARD_PROFILES,
};
use crate::hidpp::protocol::{HidppTransport, ProtocolVersion};
use crate::hidpp::session::{grown, group_session, read_at, reached, Step, Wire};
use crate::text::{
    chars_of, copy_option, dec, decimal, hex2, hex4, hex_byte, hex_word, join2, join3, text_of, text_option,
};
use crate::utf8::{fault_text, from_utf8, from_utf8_lossy, longest_valid, text_or_lossy, utf8_error_len};

verus! {

broadcast use group_session;

/// What the bytes of a name come to.
pub open spec fn name_of_bytes(bytes: Seq<u8>) -> Outcome<Seq<char>> {
    if valid_utf8(bytes) {
        Ok(decode_utf8(bytes))
    } else {
        Err(
            ErrorView::Other(
                "device name is not UTF-8: "@ + fault_text(
                    longest_valid(bytes, bytes.len() as int) as nat,
                    utf8_error_len(bytes),
                ),
            ),
        )
    }
}

/// Makes a name of its bytes.
pub fn device_name_from(bytes: Vec<u8>) -> (name: Result<String>)
    ensures
        outcome(name) == name_of_bytes(bytes@),
{
    match from_utf8(bytes) {
        Ok(name) => Ok(name),
        Err(fault) => Err(AppError::Other(join2("device name is not UTF-8: ", fault.message().as_str()))),
    }
}

/// Asking for the fragments of a name from where it is known, until it has its length.
pub open spec fn name_fragments_at(
    wire: Wire,
    at: int,
    feature_index: u8,
    length: int,
    name: Seq<u8>,
) -> Step<Seq<u8>>
    decreases length - name.len(),
{
    if name.len() >= length {
        Step::Done { value: name, next: at }
    } else {
        match read_at(wire, at, feature_index, 0x10, seq![name.len() as u8]) {
            Step::Done { value, next } => {
                let take = if length - name.len() < value.len() {
                    length - name.len()
                } else {
                    value.len() as int
                };
                if take <= 0 {
                    Step::Failed { error: ErrorView::Other("DEVICE_NAME returned an empty fragment"@), next }
                } else {
                    name_fragments_at(wire, next, feature_index, length, name + value.take(take))
                }
            },
            step => step,
        }
    }
}

/// Asking a device for its name: how long it is, then piece by piece.
#[verifier::opaque]
pub open spec fn device_name_at(wire: Wire, at: int, features: Seq<FeatureView>) -> Step<Seq<char>> {
    match required_feature(features, DEVICE_NAME) {
        Err(error) => Step::Failed { error, next: at },
        Ok(feature) => match read_at(wire, at, feature.index, 0x00, Seq::empty()) {
            Step::Done { value, next } => if value.len() == 0 {
                Step::Failed { error: ErrorView::Other("DEVICE_NAME.GetCount returned no length"@), next }
            } else {
                match name_fragments_at(wire, next, feature.index, value[0] as int, Seq::empty()) {
                    Step::Done { value, next } => reached(name_of_bytes(value), next),
                    step => step.stop(),
                }
            },
            step => step.stop(),
        },
    }
}

/// Reads the name of a device.
pub fn read_device_name<I: HidIo>(transport: &mut HidppTransport<I>, features: &FeatureTable) -> (name: Result<String>)
    ensures
        grown(old(transport)@, final(transport)@),
        final(transport).held() == old(transport).held(),
        forall|wire: Wire|
            wire.covers(final(transport)@) ==> #[trigger] device_name_at(wire, old(transport)@.mark(), features@)
                == reached(outcome(name), final(transport)@.mark()),
{
    reveal(device_name_at);

    let feature = features.require(DEVICE_NAME)?;
    let feature_index: u8 = feature.index;
    let nothing: [u8; 0] = [];
    assert(nothing@ =~= Seq::empty());
    let response = transport.transact_read(feature_index, 0x00, &nothing)?;
    if response.len() == 0 {
        return Err(AppError::Other("DEVICE_NAME.GetCount returned no length".to_owned()));
    }
    let length: usize = response[0] as usize;
    let mut name: Vec<u8> = Vec::new();
    assert(name@ =~= Seq::empty());
    while name.len() < length
        invariant
            name@.len() <= length <= 255,
            grown(old(transport)@, transport@),
            transport.held() == old(transport).held(),
            forall|wire: Wire|
                wire.covers(transport@) ==> #[trigger] device_name_at(wire, old(transport)@.mark(), features@) == (
                match name_fragments_at(wire, transport@.mark(), feature_index, length as int, name@) {
                    Step::Done { value, next } => reached(name_of_bytes(value), next),
                    step => step.stop(),
                }),
        decreases length - name.len(),
    {
        let parameters = [name.len() as u8];
        assert(parameters@ =~= seq![name@.len() as u8]);
        let response = transport.transact_read(feature_index, 0x10, &parameters)?;
        let missing: usize = length - name.len();
        let take: usize = if missing < response.len() { missing } else { response.len() };
        if take == 0 {
            return Err(AppError::Other("DEVICE_NAME returned an empty fragment".to_owned()));
        }
        let fragment = cut(response.as_slice(), 0, take);
        assert(fragment@ =~= response@.take(take as int));
        append_bytes(&mut name, fragment.as_slice());
    }
    device_name_from(name)
}

/// What is known of one of the programs of a device.
#[derive(Debug, Clone, PartialEq, Eq)]
pub struct FirmwareInfo {
    pub kind: String,
    pub name: Option<String>,
    pub version: Option<String>,
    pub extra_hex: Option<String>,
}

/// A [`FirmwareInfo`] with its texts as sequences of characters.
pub struct FirmwareView {
    pub kind: Seq<char>,
    pub name: Option<Seq<char>>,
    pub version: Option<Seq<char>>,
    pub extra_hex: Option<Seq<char>>,
}

impl View for FirmwareInfo {
    type V = FirmwareView;

    open spec fn view(&self) -> FirmwareView {
        FirmwareView {
            kind: self.kind@,
            name: text_option(self.name),
            version: text_option(self.version),
            extra_hex: text_option(self.extra_hex),
        }
    }
}

/// The views of firmware records.
pub open spec fn firmware_views(records: Seq<FirmwareInfo>) -> Seq<FirmwareView> {
    records.map_values(|record: FirmwareInfo| record@)
}

/// The text without null characters at its end.
pub open spec fn without_nulls(text: Seq<char>) -> Seq<char>
    decreases text.len(),
{
    if text.len() > 0 && text.last() == '\0' {
        without_nulls(text.drop_last())
    } else {
        text
    }
}

fn trim_nulls(text: &str) -> (kept: String)
    ensures
        kept@ == without_nulls(text@),
{
    let chars = chars_of(text);
    let mut end: usize = chars.len();
    assert(chars@.take(end as int) =~= chars@);
    while end > 0 && chars[end - 1] == '\0'
        invariant
            end <= chars.len(),
            chars@ == text@,
            without_nulls(text@) == without_nulls(chars@.take(end as int)),
        decreases end,
    {
        assert(chars@.take(end as int).drop_last() =~= chars@.take(end - 1));
        end = end - 1;
    }
    let kept = vstd::slice::slice_subrange(chars.as_slice(), 0, end);
    assert(kept@ =~= chars@.take(end as int));
    text_of(kept)
}

/// The bytes from a place on, up to the first zero.
pub open spec fn up_to_zero(bytes: Seq<u8>, from: int) -> Seq<u8>
    decreases bytes.len() - from,
{
    if from < 0 || from >= bytes.len() || bytes[from] == 0 {
        Seq::empty()
    } else {
        seq![bytes[from]] + up_to_zero(bytes, from + 1)
    }
}

fn bytes_up_to_zero(bytes: &[u8], from: usize) -> (part: Vec<u8>)
    ensures
        part@ == up_to_zero(bytes@, from as int),
{
    let mut part: Vec<u8> = Vec::new();
    let mut i: usize = from;
    assert(part@ + up_to_zero(bytes@, from as int) =~= up_to_zero(bytes@, from as int));
    while i < bytes.len() && bytes[i] != 0
        invariant
            part@ + up_to_zero(bytes@, i as int) == up_to_zero(bytes@, from as int),
        decreases bytes.len() - i,
    {
        let ghost known = part@;
        part.push(bytes[i]);
        assert(known + (seq![bytes@[i as int]] + up_to_zero(bytes@, i + 1)) =~= part@ + up_to_zero(bytes@, i + 1));
        i = i + 1;
    }
    assert(part@ =~= up_to_zero(bytes@, from as int));
    part
}

/// The version of a program: two numbers and, where there is one, its build.
pub open spec fn firmware_version(reply: Seq<u8>) -> Seq<char> {
    let build = word_of(reply[6], reply[7]);
    let version = hex2(reply[4], true) + "."@ + hex2(reply[5], true);
    if build != 0 {
        version + (".B"@ + hex4(build, true))
    } else {
        version
    }
}

/// What a reply says of a program, when the text of its name is known.
pub open spec fn firmware_named(reply: Seq<u8>, name: Seq<char>) -> FirmwareView {
    FirmwareView {
        kind: if reply[0] % 16 == 0 {
            "firmware"@
        } else {
            "bootloader"@
        },
        name: Some(without_nulls(name)),
        version: Some(firmware_version(reply)),
        extra_hex: if up_to_zero(reply, 9).len() == 0 {
            None
        } else {
            Some(hex_text(up_to_zero(reply, 9), true))
        },
    }
}

/// What a reply says of the program with a number.
pub open spec fn firmware_of(index: u8, reply: Seq<u8>) -> Outcome<FirmwareView> {
    if reply.len() < 2 {
        Err(ErrorView::Other("firmware record "@ + dec(index as nat) + " is truncated"@))
    } else {
        let level = reply[0] % 16;
        if level <= 1 && reply.len() >= 8 {
            Ok(firmware_named(reply, text_or_lossy(reply.subrange(1, 4))))
        } else if level == 2 {
            Ok(
                FirmwareView {
                    kind: "hardware"@,
                    name: None,
                    version: Some(dec(reply[1] as nat)),
                    extra_hex: None,
                },
            )
        } else {
            Ok(
                FirmwareView {
                    kind: "other-"@ + dec(level as nat),
                    name: None,
                    version: None,
                    extra_hex: Some(hex_text(reply, true)),
                },
            )
        }
    }
}

/// Takes a reply apart that describes a program whose name is known.
pub fn firmware_with_name(response: &[u8], name: &str) -> (firmware: FirmwareInfo)
    requires
        response@.len() >= 8,
    ensures
        firmware@ == firmware_named(response@, name@),
{
    let build = word(response[6], response[7]);
    let mut version = join3(hex_byte(response[4], true).as_str(), ".", hex_byte(response[5], true).as_str());
    if build != 0 {
        version.append(join2(".B", hex_word(build, true).as_str()).as_str());
    }
    let extra = bytes_up_to_zero(response, 9);
    FirmwareInfo {
        kind: if response[0] % 16 == 0 { "firmware".to_owned() } else { "bootloader".to_owned() },
        name: Some(trim_nulls(name)),
        version: Some(version),
        extra_hex: if extra.len() == 0 { None } else { Some(encode_upper(extra.as_slice())) },
    }
}

/// Takes a reply apart that describes a program.
pub fn decode_firmware(index: u8, response: &[u8]) -> (firmware: Result<FirmwareInfo>)
    ensures
        outcome(firmware) == firmware_of(index, response@),
{
    if response.len() < 2 {
        return Err(
            AppError::Other(join3("firmware record ", decimal(index as u64).as_str(), " is truncated")),
        );
    }
    let level: u8 = response[0] % 16;
    if level <= 1 && response.len() >= 8 {
        let name = from_utf8_lossy(vstd::slice::slice_subrange(response, 1, 4));
        return Ok(firmware_with_name(response, name.as_str()));
    }
    if level == 2 {
        return Ok(
            FirmwareInfo {
                kind: "hardware".to_owned(),
                name: None,
                version: Some(decimal(response[1] as u64)),
                extra_hex: None,
            },
        );
    }
    Ok(
        FirmwareInfo {
            kind: join2("other-", decimal(level as u64).as_str()),
            name: None,
            version: None,
            extra_hex: Some(encode_upper(response)),
        },
    )
}

/// Asking for the programs from one on, after those that are known.
pub open spec fn firmware_records_at(
    wire: Wire,
    at: int,
    feature_index: u8,
    index: int,
    count: int,
    known: Seq<FirmwareView>,
) -> Step<Seq<FirmwareView>>
    decreases count - index,
{
    if index >= count {
        Step::Done { value: known, next: at }
    } else {
        match read_at(wire, at, feature_index, 0x10, seq![index as u8]) {
            Step::Done { value, next } => match firmware_of(index as u8, value) {
                Ok(firmware) => firmware_records_at(
                    wire,
                    next,
                    feature_index,
                    index + 1,
                    count,
                    known.push(firmware),
                ),
                Err(error) => Step::Failed { error, next },
            },
            step => step.stop(),
        }
    }
}

/// Asking a device for its programs.
#[verifier::opaque]
pub open spec fn firmware_at(wire: Wire, at: int, features: Seq<FeatureView>) -> Step<Seq<FirmwareView>> {
    match required_feature(features, DEVICE_FW_VERSION) {
        Err(error) => Step::Failed { error, next: at },
        Ok(feature) => match read_at(wire, at, feature.index, 0x00, Seq::empty()) {
            Step::Done { value, next } => if value.len() == 0 {
                Step::Failed { error: ErrorView::Other("firmware count is missing"@), next }
            } else {
                firmware_records_at(wire, next, feature.index, 0, value[0] as int, Seq::empty())
            },
            step => step.stop(),
        },
    }
}

/// A result with its list of programs taken by their views.
pub open spec fn firmware_outcome(records: Result<Vec<FirmwareInfo>>) -> Outcome<Seq<FirmwareView>> {
    match records {
        Ok(records) => Ok(firmware_views(records@)),
        Err(error) => Err(error@),
    }
}

/// Reads what programs a device has.
pub fn read_firmware<I: HidIo>(
    transport: &mut HidppTransport<I>,
    features: &FeatureTable,
) -> (firmware: Result<Vec<FirmwareInfo>>)
    ensures
        grown(old(transport)@, final(transport)@),
        final(transport).held() == old(transport).held(),
        forall|wire: Wire|
            wire.covers(final(transport)@) ==> #[trigger] firmware_at(wire, old(transport)@.mark(), features@)
                == reached(firmware_outcome(firmware), final(transport)@.mark()),
{
    reveal(firmware_at);

    let feature = features.require(DEVICE_FW_VERSION)?;
    let feature_index: u8 = feature.index;
    let nothing: [u8; 0] = [];
    assert(nothing@ =~= Seq::empty());
    let response = transport.transact_read(feature_index, 0x00, &nothing)?;
    if response.len() == 0 {
        return Err(AppError::Other("firmware count is missing".to_owned()));
    }
    let count: u8 = response[0];
    let mut firmware: Vec<FirmwareInfo> = Vec::new();
    let mut index: u8 = 0;
    assert(firmware_views(firmware@) =~= Seq::empty());
    while index < count
        invariant
            index <= count,
            grown(old(transport)@, transport@),
            transport.held() == old(transport).held(),
            forall|wire: Wire|
                wire.covers(transport@) ==> #[trigger] firmware_at(wire, old(transport)@.mark(), features@)
                    == firmware_records_at(
                    wire,
                    transport@.mark(),
                    feature_index,
                    index as int,
                    count as int,
                    firmware_views(firmware@),
                ),
        decreases count - index,
    {
        let parameters = [index];
        assert(parameters@ =~= seq![index as int as u8]);
        let response = transport.transact_read(feature_index, 0x10, &parameters)?;
        let record = decode_firmware(index, response.as_slice())?;
        let ghost known = firmware_views(firmware@);
        firmware.push(record);
        assert(firmware_views(firmware@) =~= known.push(record@));
        index = index + 1;
    }
    Ok(firmware)
}

/// The identifier of a device on one of its ways of connecting.
#[derive(Debug, Clone, PartialEq, Eq)]
pub struct TransportId {
    pub transport: String,
    pub id: String,
}

/// A [`TransportId`] with its texts as sequences of characters.
pub struct TransportIdView {
    pub transport: Seq<char>,
    pub id: Seq<char>,
}

impl View for TransportId {
    type V = TransportIdView;

    open spec fn view(&self) -> TransportIdView {
        TransportIdView { transport: self.transport@, id: self.id@ }
    }
}

/// The views of identifiers.
pub open spec fn transport_id_views(ids: Seq<TransportId>) -> Seq<TransportIdView> {
    ids.map_values(|id: TransportId| id@)
}

/// The node that a device answers on.
#[derive(Debug, Clone, PartialEq, Eq)]
pub struct ReceiverIdentity {
    pub vid: String,
    pub pid: String,
    pub path: String,
    pub serial: Option<String>,
}

/// A [`ReceiverIdentity`] with its texts as sequences of characters.
pub struct ReceiverView {
    pub vid: Seq<char>,
    pub pid: Seq<char>,
    pub path: Seq<char>,
    pub serial: Option<Seq<char>>,
}

impl View for ReceiverIdentity {
    type V = ReceiverView;

    open spec fn view(&self) -> ReceiverView {
        ReceiverView { vid: self.vid@, pid: self.pid@, path: self.path@, serial: text_option(self.serial) }
    }
}

/// Who a device is.
#[derive(Debug, Clone, PartialEq, Eq)]
pub struct DeviceIdentity {
    pub name: String,
    pub hidpp_version: ProtocolVersion,
    pub receiver: ReceiverIdentity,
    pub device_index: u8,
    pub serial: Option<String>,
    pub unit_id: Option<String>,
    pub model_id: Option<String>,
    pub transport_ids: Vec<TransportId>,
    pub profile_format: Option<u8>,
}

/// A [`DeviceIdentity`] with its texts and lists as sequences.
pub struct IdentityView {
    pub name: Seq<char>,
    pub hidpp_version: ProtocolVersion,
    pub receiver: ReceiverView,
    pub device_index: u8,
    pub serial: Option<Seq<char>>,
    pub unit_id: Option<Seq<char>>,
    pub model_id: Option<Seq<char>>,
    pub transport_ids: Seq<TransportIdView>,
    pub profile_format: Option<u8>,
}

impl View for DeviceIdentity {
    type V = IdentityView;

    open spec fn view(&self) -> IdentityView {
        IdentityView {
            name: self.name@,
            hidpp_version: self.hidpp_version,
            receiver: self.receiver@,
            device_index: self.device_index,
            serial: text_option(self.serial),
            unit_id: text_option(self.unit_id),
            model_id: text_option(self.model_id),
            transport_ids: transport_id_views(self.transport_ids@),
            profile_format: self.profile_format,
        }
    }
}

/// The identifiers that a device gives of itself.
pub struct DeviceIds {
    pub unit_id: Option<String>,
    pub model_id: Option<String>,
    pub transport_ids: Vec<TransportId>,
}

/// [`DeviceIds`] with their texts and lists as sequences.
pub struct DeviceIdsView {
    pub unit_id: Option<Seq<char>>,
    pub model_id: Option<Seq<char>>,
    pub transport_ids: Seq<TransportIdView>,
}

impl View for DeviceIds {
    type V = DeviceIdsView;

    open spec fn view(&self) -> DeviceIdsView {
        DeviceIdsView {
            unit_id: text_option(self.unit_id),
            model_id: text_option(self.model_id),
            transport_ids: transport_id_views(self.transport_ids@),
        }
    }
}

/// The flag of a way of connecting, counted from zero.
pub open spec fn connection_flag(way: int) -> u8 {
    if way == 0 {
        0x01
    } else if way == 1 {
        0x02
    } else if way == 2 {
        0x04
    } else {
        0x08
    }
}

/// The name of a way of connecting, counted from zero.
pub open spec fn connection_name(way: int) -> Seq<char> {
    if way == 0 {
        "bluetooth"@
    } else if way == 1 {
        "bluetooth-le"@
    } else if way == 2 {
        "wireless"@
    } else {
        "usb"@
    }
}

/// The identifiers on the ways of connecting from one on. Each way whose flag is set takes the next two bytes.
pub open spec fn connection_ids(reply: Seq<u8>, way: int, offset: int) -> Seq<TransportIdView>
    decreases 4 - way,
{
    if way < 0 || way >= 4 {
        Seq::empty()
    } else if reply[6] & connection_flag(way) != 0 && offset + 2 <= reply.len() {
        seq![
            TransportIdView {
                transport: connection_name(way),
                id: hex_text(reply.subrange(offset, offset + 2), true),
            },
        ] + connection_ids(reply, way + 1, offset + 2)
    } else {
        connection_ids(reply, way + 1, offset)
    }
}

/// The identifiers in a reply. A short one holds none.
pub open spec fn ids_of(reply: Seq<u8>) -> DeviceIdsView {
    if reply.len() >= 13 {
        DeviceIdsView {
            unit_id: Some(hex_text(reply.subrange(1, 5), true)),
            model_id: Some(hex_text(reply.subrange(7, 13), true)),
            transport_ids: connection_ids(reply, 0, 7),
        }
    } else {
        no_ids()
    }
}

/// No identifiers at all.
pub open spec fn no_ids() -> DeviceIdsView {
    DeviceIdsView { unit_id: None, model_id: None, transport_ids: Seq::empty() }
}

fn connection(way: usize) -> (connection: (u8, &'static str))
    requires
        way < 4,
    ensures
        connection.0 == connection_flag(way as int),
        connection.1@ == connection_name(way as int),
{
    if way == 0 {
        (0x01, "bluetooth")
    } else if way == 1 {
        (0x02, "bluetooth-le")
    } else if way == 2 {
        (0x04, "wireless")
    } else {
        (0x08, "usb")
    }
}

/// Takes a reply apart that holds the identifiers of a device.
pub fn decode_device_ids(response: &[u8]) -> (ids: DeviceIds)
    ensures
        ids@ == ids_of(response@),
{
    let mut transport_ids: Vec<TransportId> = Vec::new();
    assert(transport_id_views(transport_ids@) =~= Seq::empty());
    if response.len() < 13 {
        return DeviceIds { unit_id: None, model_id: None, transport_ids };
    }
    let flags: u8 = response[6];
    let mut offset: usize = 7;
    let mut way: usize = 0;
    assert(transport_id_views(transport_ids@) + connection_ids(response@, 0, 7) =~= connection_ids(response@, 0, 7));
    while way < 4
        invariant
            way <= 4,
            7 <= offset <= 7 + 2 * way,
            response@.len() >= 13,
            flags == response@[6],
            transport_id_views(transport_ids@) + connection_ids(response@, way as int, offset as int)
                == connection_ids(response@, 0, 7),
        decreases 4 - way,
    {
        let (flag, name) = connection(way);
        if flags & flag != 0 && response.len() >= offset + 2 {
            let ghost known = transport_id_views(transport_ids@);
            let ghost rest = connection_ids(response@, way + 1, offset + 2);
            let id = TransportId {
                transport: name.to_owned(),
                id: encode_upper(vstd::slice::slice_subrange(response, offset, offset + 2)),
            };
            transport_ids.push(id);
            assert(transport_id_views(transport_ids@) =~= known.push(id@));
            assert(known + (seq![id@] + rest) =~= transport_id_views(transport_ids@) + rest);
            offset = offset + 2;
        }
        way = way + 1;
    }
    assert(transport_id_views(transport_ids@) =~= connection_ids(response@, 0, 7));
    DeviceIds {
        unit_id: Some(encode_upper(vstd::slice::slice_subrange(response, 1, 5))),
        model_id: Some(encode_upper(vstd::slice::slice_subrange(response, 7, 13))),
        transport_ids,
    }
}

/// Asking a device for its identifiers, where it has the feature for that.
pub open spec fn ids_at(wire: Wire, at: int, features: Seq<FeatureView>) -> Step<DeviceIdsView> {
    match find_feature(features, DEVICE_FW_VERSION) {
        None => Step::Done { value: no_ids(), next: at },
        Some(feature) => match read_at(wire, at, feature.index, 0x00, Seq::empty()) {
            Step::Done { value, next } => Step::Done { value: ids_of(value), next },
            step => step.stop(),
        },
    }
}

/// Asking a device for the format of its profiles, where it keeps any.
pub open spec fn profile_format_at(wire: Wire, at: int, features: Seq<FeatureView>) -> Step<Option<u8>> {
    match find_feature(features, ONBOARD_PROFILES) {
        None => Step::Done { value: None, next: at },
        Some(_) => match onboard_info_at(wire, at, features) {
            Step::Done { value, next } => Step::Done { value: Some(value.profile_format), next },
            step => step.stop(),
        },
    }
}

/// What the parts come to. The serial number is the unit's own or, where there is none, that of its node.
pub open spec fn identity_of(device: DeviceView, ids: DeviceIdsView, profile_format: Option<u8>) -> IdentityView {
    IdentityView {
        name: device.name,
        hidpp_version: device.protocol,
        receiver: ReceiverView {
            vid: hex4(device.endpoint.vendor_id, false),
            pid: hex4(device.endpoint.product_id, false),
            path: device.endpoint.path,
            serial: device.endpoint.serial_number,
        },
        device_index: device.device_index,
        serial: if ids.unit_id is Some {
            ids.unit_id
        } else {
            device.endpoint.serial_number
        },
        unit_id: ids.unit_id,
        model_id: ids.model_id,
        transport_ids: ids.transport_ids,
        profile_format,
    }
}

/// Asking a device who it is.
#[verifier::opaque]
pub open spec fn identity_at(wire: Wire, at: int, device: DeviceView) -> Step<IdentityView> {
    match ids_at(wire, at, device.features) {
        Step::Done { value: ids, next } => match profile_format_at(wire, next, device.features) {
            Step::Done { value: profile_format, next } => Step::Done {
                value: identity_of(device, ids, profile_format),
                next,
            },
            step => step.stop(),
        },
        step => step.stop(),
    }
}

fn read_ids<I: HidIo>(transport: &mut HidppTransport<I>, features: &FeatureTable) -> (ids: Result<DeviceIds>)
    ensures
        grown(old(transport)@, final(transport)@),
        final(transport).held() == old(transport).held(),
        forall|wire: Wire|
            wire.covers(final(transport)@) ==> #[trigger] ids_at(wire, old(transport)@.mark(), features@) == reached(
                outcome(ids),
                final(transport)@.mark(),
            ),
{
    match features.get(DEVICE_FW_VERSION) {
        None => {
            let ids = DeviceIds { unit_id: None, model_id: None, transport_ids: Vec::new() };
            assert(ids@.transport_ids =~= Seq::empty());
            Ok(ids)
        },
        Some(feature) => {
            let nothing: [u8; 0] = [];
            assert(nothing@ =~= Seq::empty());
            let response = transport.transact_read(feature.index, 0x00, &nothing)?;
            Ok(decode_device_ids(response.as_slice()))
        },
    }
}

fn read_profile_format<I: HidIo>(
    transport: &mut HidppTransport<I>,
    features: &FeatureTable,
) -> (format: Result<Option<u8>>)
    ensures
        grown(old(transport)@, final(transport)@),
        final(transport).held() == old(transport).held(),
        forall|wire: Wire|
            wire.covers(final(transport)@) ==> #[trigger] profile_format_at(wire, old(transport)@.mark(), features@)
                == reached(outcome(format), final(transport)@.mark()),
{
    match features.get(ONBOARD_PROFILES) {
        None => Ok(None),
        Some(_) => {
            let info = read_onboard_info(transport, features)?;
            Ok(Some(info.profile_format))
        },
    }
}

/// Reads who a device is.
pub fn read_identity<I: HidIo>(
    transport: &mut HidppTransport<I>,
    device: &LogicalDevice,
) -> (identity: Result<DeviceIdentity>)
    ensures
        grown(old(transport)@, final(transport)@),
        final(transport).held() == old(transport).held(),
        forall|wire: Wire|
            wire.covers(final(transport)@) ==> #[trigger] identity_at(wire, old(transport)@.mark(), device@)
                == reached(outcome(identity), final(transport)@.mark()),
{
    reveal(identity_at);

    let ids = read_ids(transport, &device.features)?;
    let profile_format = read_profile_format(transport, &device.features)?;
    let serial = match &ids.unit_id {
        Some(unit_id) => Some(unit_id.clone()),
        None => copy_option(&device.endpoint.serial_number),
    };
    Ok(
        DeviceIdentity {
            name: device.name.clone(),
            hidpp_version: device.protocol,
            receiver: ReceiverIdentity {
                vid: hex_word(device.endpoint.vendor_id, false),
                pid: hex_word(device.endpoint.product_id, false),
                path: device.endpoint.path.clone(),
                serial: copy_option(&device.endpoint.serial_number),
            },
            device_index: device.device_index,
            serial,
            unit_id: ids.unit_id,
            model_id: ids.model_id,
            transport_ids: ids.transport_ids,
            profile_format,
        },
    )
}

}
