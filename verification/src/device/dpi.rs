//! The sensitivity of a mouse: what it can be, what it is, and setting it.

use vstd::prelude::*;

use crate::bytes::{append_bytes, cut, high, high_of, low, low_of, word, word_of};
use crate::device::onboard::{onboard_status_at, read_onboard_status};
use crate::error::{outcome, AppError, ErrorView, Outcome, Result};
use crate::hid::transport::HidIo;
use crate::hidpp::features::{
    find_feature, required_feature, Feature, FeatureTable, FeatureView, ADJUSTABLE_DPI, EXTENDED_ADJUSTABLE_DPI,
    ONBOARD_PROFILES,
};
use crate::hidpp::protocol::HidppTransport;
use crate::hidpp::session::{call_at, grown, group_session, read_at, reached, Step, Wire};
use crate::order::{ascending_u16, find_value, sort_distinct, sorted_distinct, sorted_distinct_ascends};
use crate::text::{dec, decimal, join3, join4, join5};

verus! {

broadcast use group_session;

/// What the sensitivity of a mouse can be.
#[derive(Debug, Clone, PartialEq, Eq)]
pub struct DpiCapabilities {
    pub feature: String,
    pub x_values: Vec<u16>,
    pub y_values: Option<Vec<u16>>,
    pub minimum: u16,
    pub maximum: u16,
    pub step: Option<u16>,
    pub separate_xy: bool,
    pub lift_off_distance: bool,
}

/// [`DpiCapabilities`] with their text and lists as sequences.
pub struct DpiCapabilitiesView {
    pub feature: Seq<char>,
    pub x_values: Seq<u16>,
    pub y_values: Option<Seq<u16>>,
    pub minimum: u16,
    pub maximum: u16,
    pub step: Option<u16>,
    pub separate_xy: bool,
    pub lift_off_distance: bool,
}

/// An optional list as an optional sequence.
pub open spec fn values_option(values: Option<Vec<u16>>) -> Option<Seq<u16>> {
    match values {
        Some(values) => Some(values@),
        None => None,
    }
}

impl View for DpiCapabilities {
    type V = DpiCapabilitiesView;

    open spec fn view(&self) -> DpiCapabilitiesView {
        DpiCapabilitiesView {
            feature: self.feature@,
            x_values: self.x_values@,
            y_values: values_option(self.y_values),
            minimum: self.minimum,
            maximum: self.maximum,
            step: self.step,
            separate_xy: self.separate_xy,
            lift_off_distance: self.lift_off_distance,
        }
    }
}

/// What the sensitivity of a mouse is.
#[derive(Debug, Clone, Copy, PartialEq, Eq)]
pub struct DpiState {
    pub x: u16,
    pub y: u16,
    pub lift_off_distance: Option<u8>,
}

impl View for DpiState {
    type V = DpiState;

    open spec fn view(&self) -> DpiState {
        *self
    }
}

/// The numbers from a start on, a step apart, up to a maximum.
pub open spec fn progression(start: int, step: int, maximum: int) -> Seq<u16>
    decreases maximum + step + 1 - start,
{
    if step <= 0 || start > maximum {
        Seq::empty()
    } else {
        seq![start as u16] + progression(start + step, step, maximum)
    }
}

/// A sum that stays within sixteen bits.
pub open spec fn saturated(a: int, b: int) -> int {
    if a + b > 0xffff {
        0xffff
    } else {
        a + b
    }
}

/// The values of an encoded list from an offset on, after those that are known, in the order in which the
/// list gives them. A word with the upper three bits set is a step, and the word after it a maximum: together
/// they continue the last value up to the maximum. Zero ends the list.
pub open spec fn listed_values(bytes: Seq<u8>, offset: int, values: Seq<u16>) -> Outcome<Seq<u16>>
    decreases bytes.len() - offset,
{
    if offset < 0 || offset + 1 >= bytes.len() {
        Ok(values)
    } else {
        let value = word_of(bytes[offset], bytes[offset + 1]);
        if value == 0 {
            Ok(values)
        } else if value >= 0xe000 {
            let step = value - 0xe000;
            if step == 0 || offset + 3 >= bytes.len() || values.len() == 0 {
                Err(ErrorView::Other("invalid encoded DPI range"@))
            } else {
                let maximum = word_of(bytes[offset + 2], bytes[offset + 3]) as int;
                let start = saturated(values.last() as int, step);
                if maximum < start {
                    Err(ErrorView::Other("DPI range maximum precedes its minimum"@))
                } else {
                    listed_values(bytes, offset + 4, values + progression(start, step, maximum))
                }
            }
        } else {
            listed_values(bytes, offset + 2, values.push(value))
        }
    }
}

/// The values of an encoded list in ascending order, each once.
pub open spec fn decoded_dpi_list(bytes: Seq<u8>) -> Outcome<Seq<u16>> {
    match listed_values(bytes, 0, Seq::empty()) {
        Ok(values) => Ok(sorted_distinct(values)),
        Err(error) => Err(error),
    }
}

fn extend_progression(values: &mut Vec<u16>, start: u16, step: u16, maximum: u16)
    requires
        step > 0,
    ensures
        final(values)@ == old(values)@ + progression(start as int, step as int, maximum as int),
{
    let ghost known = values@;
    let ghost all = progression(start as int, step as int, maximum as int);
    let mut next: u32 = start as u32;
    assert(values@ + all =~= known + all);
    while next <= maximum as u32
        invariant
            step > 0,
            next <= maximum + step || next == start,
            values@ + progression(next as int, step as int, maximum as int) == known + all,
        decreases maximum + step + 0x10000 - next,
    {
        let ghost rest = progression(next + step, step as int, maximum as int);
        let ghost before = values@;
        values.push(next as u16);
        assert(before + (seq![next as u16] + rest) =~= values@ + rest);
        next = next + step as u32;
    }
    assert(values@ =~= known + all);
}

/// Decodes a list of sensitivities.
pub fn decode_dpi_list(bytes: &[u8]) -> (values: Result<Vec<u16>>)
    ensures
        outcome(values) == decoded_dpi_list(bytes@),
        values matches Ok(values) ==> ascending_u16(values@),
{
    let mut values: Vec<u16> = Vec::new();
    let mut offset: usize = 0;
    assert(values@ =~= Seq::empty());
    while bytes.len() >= 2 && offset < bytes.len() - 1
        invariant_except_break
            listed_values(bytes@, 0, Seq::empty()) == listed_values(bytes@, offset as int, values@),
        invariant
            offset <= bytes@.len(),
        ensures
            listed_values(bytes@, 0, Seq::empty()) == Outcome::Ok(values@),
        decreases bytes.len() - offset,
    {
        let value: u16 = word(bytes[offset], bytes[offset + 1]);
        if value == 0 {
            break;
        }
        if value >= 0xe000 {
            let step: u16 = value - 0xe000;
            if step == 0 || bytes.len() - offset < 4 || values.len() == 0 {
                return Err(AppError::Other("invalid encoded DPI range".to_owned()));
            }
            let maximum: u16 = word(bytes[offset + 2], bytes[offset + 3]);
            let last: u16 = values[values.len() - 1];
            let start: u16 = if last as u32 + step as u32 > 0xffff { 0xffff } else { last + step };
            if maximum < start {
                return Err(AppError::Other("DPI range maximum precedes its minimum".to_owned()));
            }
            extend_progression(&mut values, start, step, maximum);
            offset = offset + 4;
        } else {
            values.push(value);
            offset = offset + 2;
        }
    }
    let sorted = sort_distinct(&values);
    proof {
        sorted_distinct_ascends(values@);
    }
    Ok(sorted)
}

/// Whether two zero bytes stand next to each other.
pub open spec fn has_zero_pair(bytes: Seq<u8>) -> bool {
    exists|i: int| 0 <= i < bytes.len() - 1 && #[trigger] bytes[i] == 0 && bytes[i + 1] == 0
}

fn zero_pair_in(bytes: &Vec<u8>) -> (found: bool)
    ensures
        found == has_zero_pair(bytes@),
{
    let mut i: usize = 0;
    while bytes.len() >= 2 && i < bytes.len() - 1
        invariant
            forall|k: int| 0 <= k < i && k < bytes@.len() - 1 ==> !(#[trigger] bytes@[k] == 0 && bytes@[k + 1] == 0),
        decreases bytes.len() - i,
    {
        if bytes[i] == 0 && bytes[i + 1] == 0 {
            assert(bytes@[i as int] == 0);
            return true;
        }
        i = i + 1;
    }
    false
}

/// Asking for an encoded list page by page, after what is known of it, until two zeros stand in it or there
/// are no more pages. The first few bytes of each page are left out.
pub open spec fn dpi_pages_at(
    wire: Wire,
    at: int,
    feature_index: u8,
    function: u8,
    direction: u8,
    ignore: int,
    page: int,
    encoded: Seq<u8>,
) -> Step<Seq<u16>>
    decreases 256 - page,
{
    if page > 255 {
        reached(decoded_dpi_list(encoded), at)
    } else {
        match read_at(wire, at, feature_index, function, seq![0u8, direction, page as u8]) {
            Step::Done { value, next } => if value.len() <= ignore {
                Step::Failed { error: ErrorView::Other("DPI capability response is truncated"@), next }
            } else if has_zero_pair(encoded + value.skip(ignore)) {
                reached(decoded_dpi_list(encoded + value.skip(ignore)), next)
            } else {
                dpi_pages_at(
                    wire,
                    next,
                    feature_index,
                    function,
                    direction,
                    ignore,
                    page + 1,
                    encoded + value.skip(ignore),
                )
            },
            step => step.stop(),
        }
    }
}

fn read_dpi_values<I: HidIo>(
    transport: &mut HidppTransport<I>,
    feature_index: u8,
    function: u8,
    direction: u8,
    ignore: usize,
) -> (values: Result<Vec<u16>>)
    ensures
        grown(old(transport)@, final(transport)@),
        final(transport).held() == old(transport).held(),
        forall|wire: Wire|
            wire.covers(final(transport)@) ==> #[trigger] dpi_pages_at(
                wire,
                old(transport)@.mark(),
                feature_index,
                function,
                direction,
                ignore as int,
                0,
                Seq::empty(),
            ) == reached(outcome(values), final(transport)@.mark()),
        values matches Ok(values) ==> ascending_u16(values@),
{
    let mut encoded: Vec<u8> = Vec::new();
    let mut page: u16 = 0;
    assert(encoded@ =~= Seq::empty());
    while page <= 255
        invariant
            page <= 256,
            grown(old(transport)@, transport@),
            transport.held() == old(transport).held(),
            forall|wire: Wire|
                wire.covers(transport@) ==> #[trigger] dpi_pages_at(
                    wire,
                    old(transport)@.mark(),
                    feature_index,
                    function,
                    direction,
                    ignore as int,
                    0,
                    Seq::empty(),
                ) == dpi_pages_at(
                    wire,
                    transport@.mark(),
                    feature_index,
                    function,
                    direction,
                    ignore as int,
                    page as int,
                    encoded@,
                ),
        decreases 256 - page,
    {
        let parameters = [0u8, direction, page as u8];
        assert(parameters@ =~= seq![0u8, direction, page as int as u8]);
        let response = transport.transact_read(feature_index, function, &parameters)?;
        if response.len() <= ignore {
            return Err(AppError::Other("DPI capability response is truncated".to_owned()));
        }
        let part = cut(response.as_slice(), ignore, response.len());
        assert(part@ =~= response@.skip(ignore as int));
        append_bytes(&mut encoded, part.as_slice());
        if zero_pair_in(&encoded) {
            return decode_dpi_list(encoded.as_slice());
        }
        page = page + 1;
    }
    decode_dpi_list(encoded.as_slice())
}

/// Whether neighbours from a place on are all the given distance apart.
pub open spec fn evenly_spaced(values: Seq<u16>, distance: int, from: int) -> bool {
    forall|i: int| from <= i < values.len() - 1 ==> #[trigger] values[i] + distance == values[i + 1]
}

/// The distance between neighbours, where there are any and it is always the same.
pub open spec fn common_step(values: Seq<u16>) -> Option<u16> {
    if values.len() >= 2 && evenly_spaced(values, values[1] - values[0], 0) {
        Some((values[1] - values[0]) as u16)
    } else {
        None
    }
}

fn infer_step(values: &Vec<u16>) -> (step: Option<u16>)
    requires
        ascending_u16(values@),
    ensures
        step == common_step(values@),
{
    if values.len() < 2 {
        return None;
    }
    assert(values@[0] < values@[1]);
    let first: u16 = values[1] - values[0];
    let mut i: usize = 0;
    while i < values.len() - 1
        invariant
            i <= values@.len() - 1,
            values@.len() >= 2,
            ascending_u16(values@),
            first == values@[1] - values@[0],
            forall|k: int| 0 <= k < i ==> #[trigger] values@[k] + first == values@[k + 1],
        decreases values.len() - i,
    {
        assert(values@[i as int] < values@[i + 1]);
        if values[i + 1] - values[i] != first {
            assert(values@[i as int] + first != values@[i + 1]);
            return None;
        }
        i = i + 1;
    }
    Some(first)
}

/// What lists of values come to.
pub open spec fn capability_record(
    feature: Seq<char>,
    x_values: Seq<u16>,
    y_values: Option<Seq<u16>>,
    separate_xy: bool,
    lift_off_distance: bool,
) -> Outcome<DpiCapabilitiesView> {
    if x_values.len() == 0 {
        Err(ErrorView::Other("device returned an empty DPI list"@))
    } else {
        Ok(
            DpiCapabilitiesView {
                feature,
                x_values,
                y_values,
                minimum: x_values[0],
                maximum: x_values.last(),
                step: common_step(x_values),
                separate_xy,
                lift_off_distance,
            },
        )
    }
}

fn dpi_capability_record(
    feature: String,
    x_values: Vec<u16>,
    y_values: Option<Vec<u16>>,
    separate_xy: bool,
    lift_off_distance: bool,
) -> (record: Result<DpiCapabilities>)
    requires
        ascending_u16(x_values@),
    ensures
        outcome(record) == capability_record(
            feature@,
            x_values@,
            values_option(y_values),
            separate_xy,
            lift_off_distance,
        ),
        record matches Ok(record) ==> record.x_values@ == x_values@,
{
    if x_values.len() == 0 {
        return Err(AppError::Other("device returned an empty DPI list".to_owned()));
    }
    let minimum: u16 = x_values[0];
    let maximum: u16 = x_values[x_values.len() - 1];
    let step = infer_step(&x_values);
    Ok(
        DpiCapabilities {
            feature,
            x_values,
            y_values,
            minimum,
            maximum,
            step,
            separate_xy,
            lift_off_distance,
        },
    )
}

/// Asking for the sensitivities of a sensor whose flags are known.
pub open spec fn extended_lists_at(wire: Wire, at: int, feature: FeatureView, flags: u8) -> Step<DpiCapabilitiesView> {
    let separate_xy = flags & 0x01 != 0;
    let lift_off_distance = flags & 0x02 != 0;
    match dpi_pages_at(wire, at, feature.index, 0x20, 0, 3, 0, Seq::empty()) {
        Step::Done { value: x_values, next } => if separate_xy {
            match dpi_pages_at(wire, next, feature.index, 0x20, 1, 3, 0, Seq::empty()) {
                Step::Done { value: y_values, next } => reached(
                    capability_record(feature.name, x_values, Some(y_values), separate_xy, lift_off_distance),
                    next,
                ),
                step => step.stop(),
            }
        } else {
            reached(capability_record(feature.name, x_values, None, separate_xy, lift_off_distance), next)
        },
        step => step.stop(),
    }
}

/// Asking what the sensitivity can be, by the extended feature where the device has it.
#[verifier::opaque]
pub open spec fn dpi_capabilities_at(wire: Wire, at: int, features: Seq<FeatureView>) -> Step<DpiCapabilitiesView> {
    if let Some(feature) = find_feature(features, EXTENDED_ADJUSTABLE_DPI) {
        match read_at(wire, at, feature.index, 0x10, seq![0u8]) {
            Step::Done { value, next } => if value.len() < 3 {
                Step::Failed {
                    error: ErrorView::Other("EXTENDED_ADJUSTABLE_DPI sensor info is truncated"@),
                    next,
                }
            } else {
                extended_lists_at(wire, next, feature, value[2])
            },
            step => step.stop(),
        }
    } else {
        match required_feature(features, ADJUSTABLE_DPI) {
            Err(error) => Step::Failed { error, next: at },
            Ok(feature) => match dpi_pages_at(wire, at, feature.index, 0x10, 0, 1, 0, Seq::empty()) {
                Step::Done { value, next } => reached(
                    capability_record(feature.name, value, None, false, false),
                    next,
                ),
                step => step.stop(),
            },
        }
    }
}

fn read_extended_lists<I: HidIo>(
    transport: &mut HidppTransport<I>,
    feature: &Feature,
    flags: u8,
) -> (capabilities: Result<DpiCapabilities>)
    ensures
        grown(old(transport)@, final(transport)@),
        final(transport).held() == old(transport).held(),
        forall|wire: Wire|
            wire.covers(final(transport)@) ==> #[trigger] extended_lists_at(
                wire,
                old(transport)@.mark(),
                feature@,
                flags,
            ) == reached(outcome(capabilities), final(transport)@.mark()),
        capabilities matches Ok(capabilities) ==> ascending_u16(capabilities.x_values@),
{
    let separate_xy = flags & 0x01 != 0;
    let lift_off_distance = flags & 0x02 != 0;
    let x_values = read_dpi_values(transport, feature.index, 0x20, 0, 3)?;
    let y_values = if separate_xy {
        Some(read_dpi_values(transport, feature.index, 0x20, 1, 3)?)
    } else {
        None
    };
    dpi_capability_record(feature.name.clone(), x_values, y_values, separate_xy, lift_off_distance)
}

/// Reads what the sensitivity can be.
pub fn dpi_capabilities<I: HidIo>(
    transport: &mut HidppTransport<I>,
    features: &FeatureTable,
) -> (capabilities: Result<DpiCapabilities>)
    ensures
        grown(old(transport)@, final(transport)@),
        final(transport).held() == old(transport).held(),
        forall|wire: Wire|
            wire.covers(final(transport)@) ==> #[trigger] dpi_capabilities_at(wire, old(transport)@.mark(), features@)
                == reached(outcome(capabilities), final(transport)@.mark()),
        capabilities matches Ok(capabilities) ==> ascending_u16(capabilities.x_values@),
{
    reveal(dpi_capabilities_at);

    if let Some(feature) = features.get(EXTENDED_ADJUSTABLE_DPI) {
        let parameters = [0u8];
        assert(parameters@ =~= seq![0u8]);
        let info = transport.transact_read(feature.index, 0x10, &parameters)?;
        if info.len() < 3 {
            return Err(AppError::Other("EXTENDED_ADJUSTABLE_DPI sensor info is truncated".to_owned()));
        }
        return read_extended_lists(transport, feature, info[2]);
    }
    let feature = features.require(ADJUSTABLE_DPI)?;
    let values = read_dpi_values(transport, feature.index, 0x10, 0, 1)?;
    dpi_capability_record(feature.name.clone(), values, None, false, false)
}

/// The selected value of a pair of words or, where none is selected, the default one.
pub open spec fn selected_of(bytes: Seq<u8>, at: int) -> u16 {
    if word_of(bytes[at], bytes[at + 1]) == 0 {
        word_of(bytes[at + 2], bytes[at + 3])
    } else {
        word_of(bytes[at], bytes[at + 1])
    }
}

fn selected_or_default(bytes: &[u8], at: usize) -> (value: u16)
    requires
        at + 4 <= bytes@.len(),
    ensures
        value == selected_of(bytes@, at as int),
{
    let selected: u16 = word(bytes[at], bytes[at + 1]);
    if selected == 0 {
        word(bytes[at + 2], bytes[at + 3])
    } else {
        selected
    }
}

/// What the extended feature's reply says. A vertical sensitivity of zero is the horizontal one.
pub open spec fn extended_dpi(reply: Seq<u8>) -> Outcome<DpiState> {
    if reply.len() < 10 {
        Err(ErrorView::Other("EXTENDED_ADJUSTABLE_DPI current value is truncated"@))
    } else {
        let x = selected_of(reply, 1);
        let y = selected_of(reply, 5);
        Ok(
            DpiState {
                x,
                y: if y == 0 {
                    x
                } else {
                    y
                },
                lift_off_distance: Some(reply[9]),
            },
        )
    }
}

/// What the plain feature's reply says.
pub open spec fn plain_dpi(reply: Seq<u8>) -> Outcome<DpiState> {
    if reply.len() < 5 {
        Err(ErrorView::Other("ADJUSTABLE_DPI current value is truncated"@))
    } else {
        Ok(DpiState { x: selected_of(reply, 1), y: selected_of(reply, 1), lift_off_distance: None })
    }
}

/// Takes apart what the extended feature says of the sensitivity.
pub fn decode_extended_dpi(response: &[u8]) -> (dpi: Result<DpiState>)
    ensures
        outcome(dpi) == extended_dpi(response@),
{
    if response.len() < 10 {
        return Err(AppError::Other("EXTENDED_ADJUSTABLE_DPI current value is truncated".to_owned()));
    }
    let x: u16 = selected_or_default(response, 1);
    let y: u16 = selected_or_default(response, 5);
    Ok(DpiState { x, y: if y == 0 { x } else { y }, lift_off_distance: Some(response[9]) })
}

/// Takes apart what the plain feature says of the sensitivity.
pub fn decode_plain_dpi(response: &[u8]) -> (dpi: Result<DpiState>)
    ensures
        outcome(dpi) == plain_dpi(response@),
{
    if response.len() < 5 {
        return Err(AppError::Other("ADJUSTABLE_DPI current value is truncated".to_owned()));
    }
    let dpi: u16 = selected_or_default(response, 1);
    Ok(DpiState { x: dpi, y: dpi, lift_off_distance: None })
}

/// Asking what the sensitivity is, by the extended feature where the device has it.
#[verifier::opaque]
pub open spec fn dpi_at(wire: Wire, at: int, features: Seq<FeatureView>) -> Step<DpiState> {
    if let Some(feature) = find_feature(features, EXTENDED_ADJUSTABLE_DPI) {
        match read_at(wire, at, feature.index, 0x50, Seq::empty()) {
            Step::Done { value, next } => reached(extended_dpi(value), next),
            step => step.stop(),
        }
    } else {
        match required_feature(features, ADJUSTABLE_DPI) {
            Err(error) => Step::Failed { error, next: at },
            Ok(feature) => match read_at(wire, at, feature.index, 0x20, seq![0u8]) {
                Step::Done { value, next } => reached(plain_dpi(value), next),
                step => step.stop(),
            },
        }
    }
}

/// Reads what the sensitivity is.
pub fn read_dpi<I: HidIo>(transport: &mut HidppTransport<I>, features: &FeatureTable) -> (dpi: Result<DpiState>)
    ensures
        grown(old(transport)@, final(transport)@),
        final(transport).held() == old(transport).held(),
        forall|wire: Wire|
            wire.covers(final(transport)@) ==> #[trigger] dpi_at(wire, old(transport)@.mark(), features@) == reached(
                outcome(dpi),
                final(transport)@.mark(),
            ),
{
    reveal(dpi_at);

    if let Some(feature) = features.get(EXTENDED_ADJUSTABLE_DPI) {
        let nothing: [u8; 0] = [];
        assert(nothing@ =~= Seq::empty());
        let response = transport.transact_read(feature.index, 0x50, &nothing)?;
        return decode_extended_dpi(response.as_slice());
    }
    let feature = features.require(ADJUSTABLE_DPI)?;
    let parameters = [0u8];
    assert(parameters@ =~= seq![0u8]);
    let response = transport.transact_read(feature.index, 0x20, &parameters)?;
    decode_plain_dpi(response.as_slice())
}

/// Making sure that no profile controls a setting: a device that keeps profiles must be in host mode.
#[verifier::opaque]
pub open spec fn host_mode_at(wire: Wire, at: int, features: Seq<FeatureView>, setting: Seq<char>) -> Step<()> {
    if find_feature(features, ONBOARD_PROFILES) is Some {
        match onboard_status_at(wire, at, features) {
            Step::Done { value: status, next } => if status.mode_code != 2 {
                Step::Failed {
                    error: ErrorView::Validation(
                        "an onboard profile currently controls "@ + setting
                            + "; run 'open-mouse-memory onboard disable' explicitly first"@,
                    ),
                    next,
                }
            } else {
                Step::Done { value: (), next }
            },
            step => step.stop(),
        }
    } else {
        Step::Done { value: (), next: at }
    }
}

pub(crate) fn require_host_mode_for_live_write<I: HidIo>(
    transport: &mut HidppTransport<I>,
    features: &FeatureTable,
    setting: &str,
) -> (free: Result<()>)
    ensures
        grown(old(transport)@, final(transport)@),
        final(transport).held() == old(transport).held(),
        forall|wire: Wire|
            wire.covers(final(transport)@) ==> #[trigger] host_mode_at(
                wire,
                old(transport)@.mark(),
                features@,
                setting@,
            ) == reached(outcome(free), final(transport)@.mark()),
{
    reveal(host_mode_at);

    if features.get(ONBOARD_PROFILES).is_some() {
        let status = read_onboard_status(transport, features)?;
        if status.mode_code != 2 {
            return Err(
                AppError::Validation(
                    join3(
                        "an onboard profile currently controls ",
                        setting,
                        "; run 'open-mouse-memory onboard disable' explicitly first",
                    ),
                ),
            );
        }
    }
    Ok(())
}

/// Why a value cannot be chosen, if it cannot: it is none of those on offer.
pub open spec fn choice_refusal(label: Seq<char>, value: u16, values: Seq<u16>) -> Option<ErrorView> {
    if values.contains(value) {
        None
    } else {
        let minimum: u16 = if values.len() > 0 {
            values[0]
        } else {
            0
        };
        let maximum: u16 = if values.len() > 0 {
            values.last()
        } else {
            0
        };
        Some(
            ErrorView::Validation(
                label + " "@ + dec(value as nat) + " is unsupported; device range is "@ + dec(minimum as nat) + ("-"@
                    + dec(maximum as nat) + " and values are not silently clamped"@),
            ),
        )
    }
}

/// Refuses a value that is none of those on offer.
pub fn validate_choice(label: &str, value: u16, values: &[u16]) -> (valid: Result<()>)
    ensures
        match valid {
            Ok(_) => choice_refusal(label@, value, values@) is None,
            Err(error) => choice_refusal(label@, value, values@) == Some(error@),
        },
{
    match find_value(values, value) {
        Some(at) => {
            assert(values@.contains(values@[at as int]));
            Ok(())
        },
        None => {
            let minimum: u16 = if values.len() > 0 { values[0] } else { 0 };
            let maximum: u16 = if values.len() > 0 { values[values.len() - 1] } else { 0 };
            let mut text = join5(
                label,
                " ",
                decimal(value as u64).as_str(),
                " is unsupported; device range is ",
                decimal(minimum as u64).as_str(),
            );
            text.append(
                join3("-", decimal(maximum as u64).as_str(), " and values are not silently clamped").as_str(),
            );
            Err(AppError::Validation(text))
        },
    }
}

/// Why a pair of sensitivities cannot be set, if it cannot.
pub open spec fn pair_refusal(capabilities: DpiCapabilitiesView, x: u16, y: u16) -> Option<ErrorView> {
    match choice_refusal("X DPI"@, x, capabilities.x_values) {
        Some(error) => Some(error),
        None => if capabilities.separate_xy {
            choice_refusal(
                "Y DPI"@,
                y,
                match capabilities.y_values {
                    Some(values) => values,
                    None => capabilities.x_values,
                },
            )
        } else if y != x {
            Some(ErrorView::Validation("device does not advertise separate X/Y DPI"@))
        } else {
            None
        },
    }
}

fn validate_pair(capabilities: &DpiCapabilities, x: u16, y: u16) -> (valid: Result<()>)
    ensures
        match valid {
            Ok(_) => pair_refusal(capabilities@, x, y) is None,
            Err(error) => pair_refusal(capabilities@, x, y) == Some(error@),
        },
{
    validate_choice("X DPI", x, capabilities.x_values.as_slice())?;
    if capabilities.separate_xy {
        match &capabilities.y_values {
            Some(values) => validate_choice("Y DPI", y, values.as_slice()),
            None => validate_choice("Y DPI", y, capabilities.x_values.as_slice()),
        }
    } else if y != x {
        Err(AppError::Validation("device does not advertise separate X/Y DPI".to_owned()))
    } else {
        Ok(())
    }
}

/// The parameters that set a pair of sensitivities and a lift-off distance, which is zero where there is none.
pub open spec fn extended_payload(x: u16, y: u16, lift_off_distance: Option<u8>) -> Seq<u8> {
    let distance: u8 = match lift_off_distance {
        Some(distance) => distance,
        None => 0,
    };
    seq![0u8, high_of(x), low_of(x), high_of(y), low_of(y), distance]
}

/// Sending a pair of sensitivities. The extended feature is also told the lift-off distance that it has.
pub open spec fn send_dpi_at(wire: Wire, at: int, features: Seq<FeatureView>, x: u16, y: u16) -> Step<Seq<u8>> {
    if let Some(feature) = find_feature(features, EXTENDED_ADJUSTABLE_DPI) {
        match dpi_at(wire, at, features) {
            Step::Done { value: current, next } => call_at(
                wire,
                next,
                feature.index,
                0x60,
                extended_payload(x, y, current.lift_off_distance),
            ),
            step => step.stop(),
        }
    } else {
        match required_feature(features, ADJUSTABLE_DPI) {
            Err(error) => Step::Failed { error, next: at },
            Ok(feature) => call_at(wire, at, feature.index, 0x30, seq![0u8, high_of(x), low_of(x)]),
        }
    }
}

fn send_dpi<I: HidIo>(
    transport: &mut HidppTransport<I>,
    features: &FeatureTable,
    x: u16,
    y: u16,
) -> (sent: Result<Vec<u8>>)
    ensures
        grown(old(transport)@, final(transport)@),
        final(transport).held() == old(transport).held(),
        forall|wire: Wire|
            wire.covers(final(transport)@) ==> #[trigger] send_dpi_at(
                wire,
                old(transport)@.mark(),
                features@,
                x,
                y,
            ) == reached(outcome(sent), final(transport)@.mark()),
{
    if let Some(feature) = features.get(EXTENDED_ADJUSTABLE_DPI) {
        let current = read_dpi(transport, features)?;
        let distance: u8 = match current.lift_off_distance {
            Some(distance) => distance,
            None => 0,
        };
        let payload = [0u8, high(x), low(x), high(y), low(y), distance];
        assert(payload@ =~= extended_payload(x, y, current.lift_off_distance));
        return transport.transact(feature.index, 0x60, &payload);
    }
    let feature = features.require(ADJUSTABLE_DPI)?;
    let payload = [0u8, high(x), low(x)];
    assert(payload@ =~= seq![0u8, high_of(x), low_of(x)]);
    transport.transact(feature.index, 0x30, &payload)
}

/// What the sensitivity that was read back says of the one that was asked for.
pub open spec fn dpi_readback(separate_xy: bool, x: u16, y: u16, actual: DpiState) -> Outcome<DpiState> {
    if actual.x != x || (separate_xy && actual.y != y) {
        Err(
            ErrorView::Verification(
                "requested "@ + dec(x as nat) + "x"@ + dec(y as nat) + " DPI but device reports "@ + (dec(
                    actual.x as nat,
                ) + "x"@ + dec(actual.y as nat) + "; disable onboard mode first if a profile controls DPI"@),
            ),
        )
    } else {
        Ok(actual)
    }
}

/// Setting the sensitivity and reading it back. Nothing is sent while a profile controls it, or where it is
/// none that the device has.
#[verifier::opaque]
pub open spec fn set_dpi_at(wire: Wire, at: int, features: Seq<FeatureView>, x: u16, y: Option<u16>) -> Step<DpiState> {
    let y = match y {
        Some(y) => y,
        None => x,
    };
    match host_mode_at(wire, at, features, "DPI"@) {
        Step::Done { next, .. } => match dpi_capabilities_at(wire, next, features) {
            Step::Done { value: capabilities, next } => match pair_refusal(capabilities, x, y) {
                Some(error) => Step::Failed { error, next },
                None => match send_dpi_at(wire, next, features, x, y) {
                    Step::Done { next, .. } => match dpi_at(wire, next, features) {
                        Step::Done { value: actual, next } => reached(
                            dpi_readback(capabilities.separate_xy, x, y, actual),
                            next,
                        ),
                        step => step,
                    },
                    step => step.stop(),
                },
            },
            step => step.stop(),
        },
        step => step.stop(),
    }
}

/// Sets the sensitivity, and fails unless the device then reports the one asked for.
pub fn set_dpi<I: HidIo>(
    transport: &mut HidppTransport<I>,
    features: &FeatureTable,
    x: u16,
    y: Option<u16>,
) -> (dpi: Result<DpiState>)
    ensures
        grown(old(transport)@, final(transport)@),
        final(transport).held() == old(transport).held(),
        forall|wire: Wire|
            wire.covers(final(transport)@) ==> #[trigger] set_dpi_at(
                wire,
                old(transport)@.mark(),
                features@,
                x,
                y,
            ) == reached(outcome(dpi), final(transport)@.mark()),
{
    reveal(set_dpi_at);

    require_host_mode_for_live_write(transport, features, "DPI")?;
    let capabilities = dpi_capabilities(transport, features)?;
    let vertical: u16 = match y {
        Some(y) => y,
        None => x,
    };
    validate_pair(&capabilities, x, vertical)?;
    send_dpi(transport, features, x, vertical)?;
    let actual = read_dpi(transport, features)?;
    if actual.x != x || (capabilities.separate_xy && actual.y != vertical) {
        let mut text = join5(
            "requested ",
            decimal(x as u64).as_str(),
            "x",
            decimal(vertical as u64).as_str(),
            " DPI but device reports ",
        );
        text.append(
            join4(
                decimal(actual.x as u64).as_str(),
                "x",
                decimal(actual.y as u64).as_str(),
                "; disable onboard mode first if a profile controls DPI",
            ).as_str(),
        );
        return Err(AppError::Verification(text));
    }
    Ok(actual)
}

}
