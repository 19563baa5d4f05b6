//! The battery of a device.

use vstd::prelude::*;

use crate::bytes::{word, word_of};
use crate::error::{outcome, AppError, ErrorView, Outcome, Result};
use crate::hexcode::{encode_upper, hex_text};
use crate::hid::transport::HidIo;
use crate::hidpp::features::{
    find_feature, FeatureTable, FeatureView, BATTERY_STATUS, BATTERY_VOLTAGE, UNIFIED_BATTERY,
};
use crate::hidpp::protocol::HidppTransport;
use crate::hidpp::session::{grown, group_session, read_at, reached, Step, Wire};
use crate::text::{copy_option, text_option};

verus! {

broadcast use group_session;

/// What a device says of its battery.
#[derive(Debug, PartialEq, Eq)]
pub struct BatteryInfo {
    pub source: String,
    pub percentage: Option<u8>,
    pub approximate_level: Option<String>,
    pub next_level: Option<u8>,
    pub status: String,
    pub voltage_mv: Option<u16>,
    pub raw_hex: String,
}

/// A [`BatteryInfo`] with its texts as sequences of characters.
pub struct BatteryView {
    pub source: Seq<char>,
    pub percentage: Option<u8>,
    pub approximate_level: Option<Seq<char>>,
    pub next_level: Option<u8>,
    pub status: Seq<char>,
    pub voltage_mv: Option<u16>,
    pub raw_hex: Seq<char>,
}

impl View for BatteryInfo {
    type V = BatteryView;

    open spec fn view(&self) -> BatteryView {
        BatteryView {
            source: self.source@,
            percentage: self.percentage,
            approximate_level: text_option(self.approximate_level),
            next_level: self.next_level,
            status: self.status@,
            voltage_mv: self.voltage_mv,
            raw_hex: self.raw_hex@,
        }
    }
}

impl Clone for BatteryInfo {
    fn clone(&self) -> (copy: Self)
        ensures
            copy@ == self@,
    {
        BatteryInfo {
            source: self.source.clone(),
            percentage: self.percentage,
            approximate_level: copy_option(&self.approximate_level),
            next_level: self.next_level,
            status: self.status.clone(),
            voltage_mv: self.voltage_mv,
            raw_hex: self.raw_hex.clone(),
        }
    }
}

/// Voltages of a cell as it runs down, in millivolts.
pub const CELL_MILLIVOLTS: [u16; 11] = [4186, 4067, 3989, 3922, 3859, 3811, 3778, 3751, 3731, 3716, 3500];

/// The charge that is left at each of those voltages, in percent.
pub const CELL_PERCENT: [u8; 11] = [100, 90, 80, 70, 60, 50, 40, 30, 20, 10, 0];

/// The name of a charging state.
pub open spec fn charging_state(status: u8) -> Seq<char> {
    if status == 0 {
        "discharging"@
    } else if status == 1 {
        "recharging"@
    } else if status == 2 {
        "almost-full"@
    } else if status == 3 {
        "full"@
    } else if status == 4 {
        "slow-recharge"@
    } else if status == 5 {
        "invalid-battery"@
    } else if status == 6 {
        "thermal-error"@
    } else {
        "unknown"@
    }
}

/// The name of a charging state.
pub fn battery_status(status: u8) -> (name: &'static str)
    ensures
        name@ == charging_state(status),
{
    match status {
        0 => "discharging",
        1 => "recharging",
        2 => "almost-full",
        3 => "full",
        4 => "slow-recharge",
        5 => "invalid-battery",
        6 => "thermal-error",
        _ => "unknown",
    }
}

/// The charge on the straight line between two neighbours of the table.
pub open spec fn interpolated(mv: int, segment: int) -> int {
    let high = CELL_MILLIVOLTS@[segment] as int;
    let low = CELL_MILLIVOLTS@[segment + 1] as int;
    CELL_PERCENT@[segment + 1] + (CELL_PERCENT@[segment] - CELL_PERCENT@[segment + 1]) * (mv - low) / (high - low)
}

/// The charge at a voltage by the first segment from one on that it lies in, and a full charge above all.
pub open spec fn charge_from(mv: int, segment: int) -> int
    decreases 10 - segment,
{
    if segment < 0 || segment >= 10 {
        100
    } else if CELL_MILLIVOLTS@[segment + 1] <= mv <= CELL_MILLIVOLTS@[segment] {
        interpolated(mv, segment)
    } else {
        charge_from(mv, segment + 1)
    }
}

/// The charge that a voltage stands for. Below the lowest voltage of the table, and more than 200 millivolts
/// above its highest, it stands for none.
pub open spec fn charge_at(mv: u16) -> Option<u8> {
    if mv < 3500 || mv > 4386 {
        None
    } else {
        Some(charge_from(mv as int, 0) as u8)
    }
}

proof fn interpolated_is_a_share(mv: int, segment: int)
    requires
        0 <= segment < 10,
        CELL_MILLIVOLTS@[segment + 1] <= mv <= CELL_MILLIVOLTS@[segment],
    ensures
        CELL_PERCENT@[segment + 1] <= interpolated(mv, segment) <= CELL_PERCENT@[segment],
        CELL_PERCENT@[segment] - CELL_PERCENT@[segment + 1] == 10,
        CELL_MILLIVOLTS@[segment] > CELL_MILLIVOLTS@[segment + 1],
        0 <= 10 * (mv - CELL_MILLIVOLTS@[segment + 1]) / (CELL_MILLIVOLTS@[segment] - CELL_MILLIVOLTS@[segment + 1])
            <= 10,
{
    let high = CELL_MILLIVOLTS@[segment] as int;
    let low = CELL_MILLIVOLTS@[segment + 1] as int;
    assert(0 <= 10 * (mv - low) / (high - low) <= 10) by (nonlinear_arith)
        requires
            low <= mv <= high,
            low < high,
    ;
}

/// Estimates the charge of a battery from its voltage.
pub fn estimate_battery_percentage(mv: u16) -> (charge: Option<u8>)
    ensures
        charge == charge_at(mv),
{
    if mv < 3500 || mv > 4186 + 200 {
        return None;
    }
    let mut segment: usize = 0;
    while segment < 10
        invariant
            segment <= 10,
            3500 <= mv <= 4386,
            charge_from(mv as int, 0) == charge_from(mv as int, segment as int),
        decreases 10 - segment,
    {
        let high: u16 = CELL_MILLIVOLTS[segment];
        let low: u16 = CELL_MILLIVOLTS[segment + 1];
        if low <= mv && mv <= high {
            proof {
                interpolated_is_a_share(mv as int, segment as int);
            }
            let span: u32 = (high - low) as u32;
            let position: u32 = (mv - low) as u32;
            let share: u32 = (CELL_PERCENT[segment] - CELL_PERCENT[segment + 1]) as u32 * position / span;
            return Some(CELL_PERCENT[segment + 1] + share as u8);
        }
        segment = segment + 1;
    }
    Some(100)
}

/// The name of an approximate level.
pub open spec fn level_name(level: u8) -> Seq<char> {
    if level == 8 {
        "full"@
    } else if level == 4 {
        "good"@
    } else if level == 2 {
        "low"@
    } else if level == 1 {
        "critical"@
    } else {
        "empty"@
    }
}

/// A percentage, where zero stands for none.
pub open spec fn percentage_of(value: u8) -> Option<u8> {
    if value != 0 {
        Some(value)
    } else {
        None
    }
}

/// What the unified battery feature's reply says.
pub open spec fn unified_battery(source: Seq<char>, reply: Seq<u8>) -> Outcome<BatteryView> {
    if reply.len() < 4 {
        Err(ErrorView::Other("UNIFIED_BATTERY response is truncated"@))
    } else {
        Ok(
            BatteryView {
                source,
                percentage: percentage_of(reply[0]),
                approximate_level: Some(level_name(reply[1])),
                next_level: None,
                status: charging_state(reply[2]),
                voltage_mv: None,
                raw_hex: hex_text(reply, true),
            },
        )
    }
}

/// What the battery status feature's reply says.
pub open spec fn status_battery(source: Seq<char>, reply: Seq<u8>) -> Outcome<BatteryView> {
    if reply.len() < 3 {
        Err(ErrorView::Other("BATTERY_STATUS response is truncated"@))
    } else {
        Ok(
            BatteryView {
                source,
                percentage: percentage_of(reply[0]),
                approximate_level: None,
                next_level: Some(reply[1]),
                status: charging_state(reply[2]),
                voltage_mv: None,
                raw_hex: hex_text(reply, true),
            },
        )
    }
}

/// What the battery voltage feature's reply says.
pub open spec fn voltage_battery(source: Seq<char>, reply: Seq<u8>) -> Outcome<BatteryView> {
    if reply.len() < 3 {
        Err(ErrorView::Other("BATTERY_VOLTAGE response is truncated"@))
    } else {
        Ok(
            BatteryView {
                source,
                percentage: charge_at(word_of(reply[0], reply[1])),
                approximate_level: None,
                next_level: None,
                status: if reply[2] & 0x80 != 0 {
                    "charging"@
                } else {
                    "discharging"@
                },
                voltage_mv: Some(word_of(reply[0], reply[1])),
                raw_hex: hex_text(reply, true),
            },
        )
    }
}

/// Asking a device for its battery, by the first of three features that it has.
#[verifier::opaque]
pub open spec fn battery_at(wire: Wire, at: int, features: Seq<FeatureView>) -> Step<BatteryView> {
    if let Some(feature) = find_feature(features, UNIFIED_BATTERY) {
        match read_at(wire, at, feature.index, 0x10, Seq::empty()) {
            Step::Done { value, next } => reached(unified_battery(feature.name, value), next),
            step => step.stop(),
        }
    } else if let Some(feature) = find_feature(features, BATTERY_STATUS) {
        match read_at(wire, at, feature.index, 0x00, Seq::empty()) {
            Step::Done { value, next } => reached(status_battery(feature.name, value), next),
            step => step.stop(),
        }
    } else if let Some(feature) = find_feature(features, BATTERY_VOLTAGE) {
        match read_at(wire, at, feature.index, 0x00, Seq::empty()) {
            Step::Done { value, next } => reached(voltage_battery(feature.name, value), next),
            step => step.stop(),
        }
    } else {
        Step::Failed {
            error: ErrorView::UnsupportedFeature { id: BATTERY_STATUS, name: "BATTERY"@ },
            next: at,
        }
    }
}

/// Takes apart what the unified battery feature says.
pub fn decode_unified_battery(source: &str, response: &[u8]) -> (battery: Result<BatteryInfo>)
    ensures
        outcome(battery) == unified_battery(source@, response@),
{
    if response.len() < 4 {
        return Err(AppError::Other("UNIFIED_BATTERY response is truncated".to_owned()));
    }
    let level = match response[1] {
        8 => "full",
        4 => "good",
        2 => "low",
        1 => "critical",
        _ => "empty",
    };
    Ok(
        BatteryInfo {
            source: source.to_owned(),
            percentage: if response[0] != 0 { Some(response[0]) } else { None },
            approximate_level: Some(level.to_owned()),
            next_level: None,
            status: battery_status(response[2]).to_owned(),
            voltage_mv: None,
            raw_hex: encode_upper(response),
        },
    )
}

/// Takes apart what the battery status feature says.
pub fn decode_status_battery(source: &str, response: &[u8]) -> (battery: Result<BatteryInfo>)
    ensures
        outcome(battery) == status_battery(source@, response@),
{
    if response.len() < 3 {
        return Err(AppError::Other("BATTERY_STATUS response is truncated".to_owned()));
    }
    Ok(
        BatteryInfo {
            source: source.to_owned(),
            percentage: if response[0] != 0 { Some(response[0]) } else { None },
            approximate_level: None,
            next_level: Some(response[1]),
            status: battery_status(response[2]).to_owned(),
            voltage_mv: None,
            raw_hex: encode_upper(response),
        },
    )
}

/// Takes apart what the battery voltage feature says.
pub fn decode_voltage_battery(source: &str, response: &[u8]) -> (battery: Result<BatteryInfo>)
    ensures
        outcome(battery) == voltage_battery(source@, response@),
{
    if response.len() < 3 {
        return Err(AppError::Other("BATTERY_VOLTAGE response is truncated".to_owned()));
    }
    let voltage = word(response[0], response[1]);
    Ok(
        BatteryInfo {
            source: source.to_owned(),
            percentage: estimate_battery_percentage(voltage),
            approximate_level: None,
            next_level: None,
            status: if response[2] & 0x80 != 0 { "charging".to_owned() } else { "discharging".to_owned() },
            voltage_mv: Some(voltage),
            raw_hex: encode_upper(response),
        },
    )
}

/// Reads the battery of a device, by the first of three features that it has.
pub fn read_battery<I: HidIo>(transport: &mut HidppTransport<I>, features: &FeatureTable) -> (battery: Result<BatteryInfo>)
    ensures
        grown(old(transport)@, final(transport)@),
        final(transport).held() == old(transport).held(),
        forall|wire: Wire|
            wire.covers(final(transport)@) ==> #[trigger] battery_at(wire, old(transport)@.mark(), features@)
                == reached(outcome(battery), final(transport)@.mark()),
{
    reveal(battery_at);

    let nothing: [u8; 0] = [];
    assert(nothing@ =~= Seq::empty());
    if let Some(feature) = features.get(UNIFIED_BATTERY) {
        let response = transport.transact_read(feature.index, 0x10, &nothing)?;
        return decode_unified_battery(feature.name.as_str(), response.as_slice());
    }
    if let Some(feature) = features.get(BATTERY_STATUS) {
        let response = transport.transact_read(feature.index, 0x00, &nothing)?;
        return decode_status_battery(feature.name.as_str(), response.as_slice());
    }
    if let Some(feature) = features.get(BATTERY_VOLTAGE) {
        let response = transport.transact_read(feature.index, 0x00, &nothing)?;
        return decode_voltage_battery(feature.name.as_str(), response.as_slice());
    }
    Err(AppError::UnsupportedFeature { id: BATTERY_STATUS, name: "BATTERY" })
}

/// The segment of the table that a voltage lies in.
spec fn segment_of(mv: int, segment: int) -> int
    decreases 10 - segment,
{
    if segment < 0 || segment >= 10 || CELL_MILLIVOLTS@[segment + 1] <= mv <= CELL_MILLIVOLTS@[segment] {
        segment
    } else {
        segment_of(mv, segment + 1)
    }
}

proof fn charge_is_that_of_segment(mv: int, segment: int)
    requires
        0 <= segment <= 10,
        3500 <= mv <= 4186,
        segment < 10 ==> mv <= CELL_MILLIVOLTS@[segment],
        segment == 10 ==> mv < 3500,
    ensures
        segment <= segment_of(mv, segment) < 10,
        CELL_MILLIVOLTS@[segment_of(mv, segment) + 1] <= mv <= CELL_MILLIVOLTS@[segment_of(mv, segment)],
        charge_from(mv, segment) == interpolated(mv, segment_of(mv, segment)),
    decreases 10 - segment,
{
    if segment < 10 && mv < CELL_MILLIVOLTS@[segment + 1] {
        charge_is_that_of_segment(mv, segment + 1);
    }
}

proof fn charge_above_the_table(mv: int, segment: int)
    requires
        0 <= segment <= 10,
        mv > 4186,
    ensures
        charge_from(mv, segment) == 100,
    decreases 10 - segment,
{
    if segment < 10 {
        charge_above_the_table(mv, segment + 1);
    }
}

/// An estimated charge is a percentage, and a higher voltage never stands for a lower charge.
pub proof fn charge_grows_with_voltage(lower: u16, higher: u16)
    requires
        3500 <= lower <= higher <= 4386,
    ensures
        charge_at(lower) is Some,
        charge_at(higher) is Some,
        charge_at(lower)->0 <= charge_at(higher)->0 <= 100,
{
    if lower > 4186 {
        charge_above_the_table(lower as int, 0);
        charge_above_the_table(higher as int, 0);
    } else {
        charge_is_that_of_segment(lower as int, 0);
        let a = segment_of(lower as int, 0);
        interpolated_is_a_share(lower as int, a);
        if higher > 4186 {
            charge_above_the_table(higher as int, 0);
        } else {
            charge_is_that_of_segment(higher as int, 0);
            let b = segment_of(higher as int, 0);
            interpolated_is_a_share(higher as int, b);
            if a == b {
                let high = CELL_MILLIVOLTS@[a] as int;
                let low = CELL_MILLIVOLTS@[a + 1] as int;
                assert(10 * (lower - low) / (high - low) <= 10 * (higher - low) / (high - low)) by (nonlinear_arith)
                    requires
                        low <= lower <= higher,
                        low < high,
                ;
            } else {
                assert(b <= a);
                assert(CELL_PERCENT@[a] <= CELL_PERCENT@[b + 1]);
            }
        }
    }
}

}
