//! How often a mouse reports: what it can be, what it is, and setting it.

use vstd::prelude::*;

use crate::bytes::{word, word_of};
use crate::device::dpi::{host_mode_at, require_host_mode_for_live_write};
use crate::error::{outcome, AppError, ErrorView, Outcome, Result};
use crate::hid::transport::HidIo;
use crate::hidpp::features::{
    find_feature, required_feature, FeatureTable, FeatureView, EXTENDED_REPORT_RATE, REPORT_RATE,
};
use crate::hidpp::protocol::HidppTransport;
use crate::hidpp::session::{call_at, grown, group_session, read_at, reached, Step, Wire};
use crate::text::{dec, decimal, join2, join3, join5, join_all, joined, texts};

verus! {

broadcast use group_session;

/// The rates of the extended feature and of format 0x07 profiles, each at the place of its code.
pub const EXTENDED_RATES: [u32; 7] = [125, 250, 500, 1000, 2000, 4000, 8000];

/// The code of a report rate, from a code on.
pub open spec fn rate_code(rate: u32, from: int) -> Option<int>
    decreases 7 - from,
{
    if from < 0 || from >= 7 {
        None
    } else if EXTENDED_RATES@[from] == rate {
        Some(from)
    } else {
        rate_code(rate, from + 1)
    }
}

/// The code of a report rate.
pub fn code_of_rate(rate: u32) -> (code: Option<u8>)
    ensures
        match code {
            Some(code) => rate_code(rate, 0) == Some(code as int) && code < 7 && EXTENDED_RATES@[code as int] == rate,
            None => rate_code(rate, 0) is None,
        },
{
    let mut i: usize = 0;
    while i < 7
        invariant
            i <= 7,
            rate_code(rate, 0) == rate_code(rate, i as int),
        decreases 7 - i,
    {
        if EXTENDED_RATES[i] == rate {
            return Some(i as u8);
        }
        i = i + 1;
    }
    None
}

/// A code that is found is the code of the rate.
pub proof fn rate_code_is_a_code(rate: u32, from: int)
    requires
        0 <= from,
    ensures
        rate_code(rate, from) matches Some(code) ==> from <= code < 7 && EXTENDED_RATES@[code] == rate,
    decreases 7 - from,
{
    if from < 7 && EXTENDED_RATES@[from] != rate {
        rate_code_is_a_code(rate, from + 1);
    }
}

/// The rate of a code has a code.
pub proof fn known_code_is_found(code: int, from: int)
    requires
        0 <= from <= code < 7,
    ensures
        rate_code(EXTENDED_RATES@[code], from) is Some,
    decreases code - from,
{
    if from < code {
        known_code_is_found(code, from + 1);
    }
}

/// What the report rate of a mouse can be.
#[derive(Debug, Clone, PartialEq, Eq)]
pub struct RateCapabilities {
    pub feature: String,
    pub rates_hz: Vec<u32>,
}

/// [`RateCapabilities`] with their text and list as sequences.
pub struct RateCapabilitiesView {
    pub feature: Seq<char>,
    pub rates_hz: Seq<u32>,
}

impl View for RateCapabilities {
    type V = RateCapabilitiesView;

    open spec fn view(&self) -> RateCapabilitiesView {
        RateCapabilitiesView { feature: self.feature@, rates_hz: self.rates_hz@ }
    }
}

/// What the report rate of a mouse is.
#[derive(Debug, Clone, Copy, PartialEq, Eq, Structural)]
pub struct RateState {
    pub hz: u32,
    pub interval_microseconds: u32,
}

impl View for RateState {
    type V = RateState;

    open spec fn view(&self) -> RateState {
        *self
    }
}

/// The rates of the codes below a number whose flags are set.
pub open spec fn flagged_rates(flags: u16, count: u16) -> Seq<u32>
    decreases count,
{
    if count == 0 {
        Seq::empty()
    } else {
        let code = (count - 1) as u16;
        if flags & (1u16 << code) != 0 {
            flagged_rates(flags, code).push(EXTENDED_RATES@[code as int])
        } else {
            flagged_rates(flags, code)
        }
    }
}

/// The rates of the intervals up to a number of milliseconds whose flags are set.
pub open spec fn flagged_intervals(flags: u8, count: u8) -> Seq<u32>
    decreases count,
{
    if count == 0 {
        Seq::empty()
    } else {
        let below = (count - 1) as u8;
        if flags & (1u8 << below) != 0 {
            flagged_intervals(flags, below).push((1000int / (count as int)) as u32)
        } else {
            flagged_intervals(flags, below)
        }
    }
}

/// What the extended feature's reply says of the rates there are.
pub open spec fn extended_rates(feature: Seq<char>, reply: Seq<u8>) -> Outcome<RateCapabilitiesView> {
    if reply.len() < 2 {
        Err(ErrorView::Other("extended report-rate capabilities are truncated"@))
    } else {
        Ok(RateCapabilitiesView { feature, rates_hz: flagged_rates(word_of(reply[0], reply[1]), 7) })
    }
}

/// What the plain feature's reply says of the rates there are.
pub open spec fn plain_rates(feature: Seq<char>, reply: Seq<u8>) -> Outcome<RateCapabilitiesView> {
    if reply.len() == 0 {
        Err(ErrorView::Other("report-rate capabilities are empty"@))
    } else {
        Ok(RateCapabilitiesView { feature, rates_hz: flagged_intervals(reply[0], 8) })
    }
}

/// Takes apart what the extended feature says of the rates there are.
pub fn decode_extended_rates(feature: &str, response: &[u8]) -> (capabilities: Result<RateCapabilities>)
    ensures
        outcome(capabilities) == extended_rates(feature@, response@),
        capabilities matches Ok(capabilities) ==> forall|i: int|
            0 <= i < capabilities.rates_hz@.len() ==> rate_code(#[trigger] capabilities.rates_hz@[i], 0) is Some,
{
    if response.len() < 2 {
        return Err(AppError::Other("extended report-rate capabilities are truncated".to_owned()));
    }
    let flags: u16 = word(response[0], response[1]);
    let mut rates_hz: Vec<u32> = Vec::new();
    let mut code: u16 = 0;
    assert(rates_hz@ =~= flagged_rates(flags, 0));
    while code < 7
        invariant
            code <= 7,
            rates_hz@ == flagged_rates(flags, code),
            forall|i: int| 0 <= i < rates_hz@.len() ==> rate_code(#[trigger] rates_hz@[i], 0) is Some,
        decreases 7 - code,
    {
        if flags & (1u16 << code) != 0 {
            proof {
                known_code_is_found(code as int, 0);
            }
            rates_hz.push(EXTENDED_RATES[code as usize]);
        }
        code = code + 1;
    }
    Ok(RateCapabilities { feature: feature.to_owned(), rates_hz })
}

/// Takes apart what the plain feature says of the rates there are.
pub fn decode_plain_rates(feature: &str, response: &[u8]) -> (capabilities: Result<RateCapabilities>)
    ensures
        outcome(capabilities) == plain_rates(feature@, response@),
        capabilities matches Ok(capabilities) ==> forall|i: int|
            0 <= i < capabilities.rates_hz@.len() ==> 125 <= #[trigger] capabilities.rates_hz@[i] <= 1000,
{
    if response.len() == 0 {
        return Err(AppError::Other("report-rate capabilities are empty".to_owned()));
    }
    let flags: u8 = response[0];
    let mut rates_hz: Vec<u32> = Vec::new();
    let mut interval: u8 = 0;
    assert(rates_hz@ =~= flagged_intervals(flags, 0));
    while interval < 8
        invariant
            interval <= 8,
            rates_hz@ == flagged_intervals(flags, interval),
            forall|i: int| 0 <= i < rates_hz@.len() ==> 125 <= #[trigger] rates_hz@[i] <= 1000,
        decreases 8 - interval,
    {
        if flags & (1u8 << interval) != 0 {
            let rate: u32 = 1000 / (interval as u32 + 1);
            assert(125 <= rate <= 1000) by (nonlinear_arith)
                requires
                    rate == 1000int / (interval as int + 1),
                    0 <= interval < 8,
            ;
            rates_hz.push(rate);
        }
        interval = interval + 1;
    }
    Ok(RateCapabilities { feature: feature.to_owned(), rates_hz })
}

/// Asking what the report rate can be, by the extended feature where the device has it.
#[verifier::opaque]
pub open spec fn rate_capabilities_at(wire: Wire, at: int, features: Seq<FeatureView>) -> Step<RateCapabilitiesView> {
    if let Some(feature) = find_feature(features, EXTENDED_REPORT_RATE) {
        match read_at(wire, at, feature.index, 0x10, Seq::empty()) {
            Step::Done { value, next } => reached(extended_rates(feature.name, value), next),
            step => step.stop(),
        }
    } else {
        match required_feature(features, REPORT_RATE) {
            Err(error) => Step::Failed { error, next: at },
            Ok(feature) => match read_at(wire, at, feature.index, 0x00, Seq::empty()) {
                Step::Done { value, next } => reached(plain_rates(feature.name, value), next),
                step => step.stop(),
            },
        }
    }
}

/// Reads what the report rate can be.
pub fn rate_capabilities<I: HidIo>(
    transport: &mut HidppTransport<I>,
    features: &FeatureTable,
) -> (capabilities: Result<RateCapabilities>)
    ensures
        grown(old(transport)@, final(transport)@),
        final(transport).held() == old(transport).held(),
        forall|wire: Wire|
            wire.covers(final(transport)@) ==> #[trigger] rate_capabilities_at(wire, old(transport)@.mark(), features@)
                == reached(outcome(capabilities), final(transport)@.mark()),
        capabilities matches Ok(capabilities) ==> forall|i: int|
            0 <= i < capabilities.rates_hz@.len() ==> if find_feature(features@, EXTENDED_REPORT_RATE) is Some {
                rate_code(#[trigger] capabilities.rates_hz@[i], 0) is Some
            } else {
                125 <= capabilities.rates_hz@[i] <= 1000
            },
{
    reveal(rate_capabilities_at);

    let nothing: [u8; 0] = [];
    assert(nothing@ =~= Seq::empty());
    if let Some(feature) = features.get(EXTENDED_REPORT_RATE) {
        let response = transport.transact_read(feature.index, 0x10, &nothing)?;
        return decode_extended_rates(feature.name.as_str(), response.as_slice());
    }
    let feature = features.require(REPORT_RATE)?;
    let response = transport.transact_read(feature.index, 0x00, &nothing)?;
    decode_plain_rates(feature.name.as_str(), response.as_slice())
}

/// The state of a rate, with the interval between reports.
pub open spec fn state_of_rate(hz: u32) -> RateState {
    RateState { hz, interval_microseconds: (1_000_000int / (hz as int)) as u32 }
}

/// The state of a rate, with the interval between reports.
pub fn rate_state(hz: u32) -> (state: RateState)
    requires
        hz > 0,
    ensures
        state == state_of_rate(hz),
{
    assert(1_000_000int / (hz as int) <= 1_000_000) by (nonlinear_arith)
        requires
            hz > 0,
    ;
    RateState { hz, interval_microseconds: 1_000_000 / hz }
}

/// The connection that the extended feature is asked about: none for a device that is connected by itself.
pub open spec fn connection_of(device_index: u8) -> u8 {
    if device_index == 0xff {
        0
    } else {
        1
    }
}

/// The connection that the extended feature is asked about.
pub fn extended_rate_connection(device_index: u8) -> (connection: u8)
    ensures
        connection == connection_of(device_index),
{
    if device_index == 0xff {
        0
    } else {
        1
    }
}

/// What the extended feature's reply says of the rate.
pub open spec fn extended_rate(reply: Seq<u8>) -> Outcome<RateState> {
    if reply.len() == 0 {
        Err(ErrorView::Other("extended report rate is empty"@))
    } else if reply[0] >= 7 {
        Err(ErrorView::Other("unknown extended report-rate code "@ + dec(reply[0] as nat)))
    } else {
        Ok(state_of_rate(EXTENDED_RATES@[reply[0] as int]))
    }
}

/// What the plain feature's reply says of the rate.
pub open spec fn plain_rate(reply: Seq<u8>) -> Outcome<RateState> {
    if reply.len() == 0 {
        Err(ErrorView::Other("report rate is empty"@))
    } else if !(1 <= reply[0] <= 8) {
        Err(ErrorView::Other("unknown report-rate interval "@ + dec(reply[0] as nat) + " ms"@))
    } else {
        Ok(
            RateState {
                hz: (1000int / (reply[0] as int)) as u32,
                interval_microseconds: (reply[0] * 1000) as u32,
            },
        )
    }
}

/// Takes apart what the extended feature says of the rate.
pub fn decode_extended_rate(response: &[u8]) -> (rate: Result<RateState>)
    ensures
        outcome(rate) == extended_rate(response@),
{
    if response.len() == 0 {
        return Err(AppError::Other("extended report rate is empty".to_owned()));
    }
    let code: u8 = response[0];
    if code >= 7 {
        return Err(
            AppError::Other(join2("unknown extended report-rate code ", decimal(code as u64).as_str())),
        );
    }
    let hz: u32 = EXTENDED_RATES[code as usize];
    assert(hz > 0);
    Ok(rate_state(hz))
}

/// Takes apart what the plain feature says of the rate.
pub fn decode_plain_rate(response: &[u8]) -> (rate: Result<RateState>)
    ensures
        outcome(rate) == plain_rate(response@),
{
    if response.len() == 0 {
        return Err(AppError::Other("report rate is empty".to_owned()));
    }
    let interval: u8 = response[0];
    if interval < 1 || interval > 8 {
        return Err(
            AppError::Other(join3("unknown report-rate interval ", decimal(interval as u64).as_str(), " ms")),
        );
    }
    assert(1000int / (interval as int) <= 1000) by (nonlinear_arith)
        requires
            interval >= 1,
    ;
    Ok(RateState { hz: 1000 / interval as u32, interval_microseconds: interval as u32 * 1000 })
}

/// Asking what the report rate is, by the extended feature where the device has it.
#[verifier::opaque]
pub open spec fn rate_at(wire: Wire, at: int, features: Seq<FeatureView>) -> Step<RateState> {
    if let Some(feature) = find_feature(features, EXTENDED_REPORT_RATE) {
        match read_at(wire, at, feature.index, 0x20, seq![connection_of(wire.device_index), 0u8, 0u8]) {
            Step::Done { value, next } => reached(extended_rate(value), next),
            step => step.stop(),
        }
    } else {
        match required_feature(features, REPORT_RATE) {
            Err(error) => Step::Failed { error, next: at },
            Ok(feature) => match read_at(wire, at, feature.index, 0x10, Seq::empty()) {
                Step::Done { value, next } => reached(plain_rate(value), next),
                step => step.stop(),
            },
        }
    }
}

/// Reads what the report rate is.
pub fn read_rate<I: HidIo>(transport: &mut HidppTransport<I>, features: &FeatureTable) -> (rate: Result<RateState>)
    ensures
        grown(old(transport)@, final(transport)@),
        final(transport).held() == old(transport).held(),
        forall|wire: Wire|
            wire.covers(final(transport)@) ==> #[trigger] rate_at(wire, old(transport)@.mark(), features@) == reached(
                outcome(rate),
                final(transport)@.mark(),
            ),
{
    reveal(rate_at);

    if let Some(feature) = features.get(EXTENDED_REPORT_RATE) {
        let connection: u8 = extended_rate_connection(transport.device_index());
        let parameters = [connection, 0u8, 0u8];
        assert(parameters@ =~= seq![connection, 0u8, 0u8]);
        let response = transport.transact_read(feature.index, 0x20, &parameters)?;
        return decode_extended_rate(response.as_slice());
    }
    let feature = features.require(REPORT_RATE)?;
    let nothing: [u8; 0] = [];
    assert(nothing@ =~= Seq::empty());
    let response = transport.transact_read(feature.index, 0x10, &nothing)?;
    decode_plain_rate(response.as_slice())
}

/// Rates as text, with commas between them.
pub open spec fn rates_text(rates: Seq<u32>) -> Seq<char> {
    joined(rates.map_values(|rate: u32| dec(rate as nat)), ", "@)
}

fn list_rates(rates: &Vec<u32>) -> (text: String)
    ensures
        text@ == rates_text(rates@),
{
    let mut parts: Vec<String> = Vec::new();
    let mut i: usize = 0;
    while i < rates.len()
        invariant
            i <= rates.len(),
            parts@.len() == i,
            forall|k: int| 0 <= k < i ==> #[trigger] parts@[k]@ == dec(rates@[k] as nat),
        decreases rates.len() - i,
    {
        parts.push(decimal(rates[i] as u64));
        i = i + 1;
    }
    assert(texts(parts@) =~= rates@.map_values(|rate: u32| dec(rate as nat)));
    join_all(&parts, ", ")
}

/// Why a rate cannot be set, if it cannot: it is none of those on offer.
pub open spec fn rate_refusal(hz: u32, rates: Seq<u32>) -> Option<ErrorView> {
    if rates.contains(hz) {
        None
    } else {
        Some(
            ErrorView::Validation(
                dec(hz as nat) + " Hz is unsupported; supported values: "@ + rates_text(rates),
            ),
        )
    }
}

fn validate_rate(hz: u32, rates: &Vec<u32>) -> (valid: Result<()>)
    ensures
        match valid {
            Ok(_) => rate_refusal(hz, rates@) is None,
            Err(error) => rate_refusal(hz, rates@) == Some(error@),
        },
{
    let mut i: usize = 0;
    while i < rates.len()
        invariant
            i <= rates.len(),
            forall|k: int| 0 <= k < i ==> rates@[k] != hz,
        decreases rates.len() - i,
    {
        if rates[i] == hz {
            return Ok(());
        }
        i = i + 1;
    }
    Err(
        AppError::Validation(
            join3(
                decimal(hz as u64).as_str(),
                " Hz is unsupported; supported values: ",
                list_rates(rates).as_str(),
            ),
        ),
    )
}

/// Sending a rate: its code by the extended feature, otherwise its interval.
pub open spec fn send_rate_at(wire: Wire, at: int, features: Seq<FeatureView>, hz: u32) -> Step<Seq<u8>> {
    if let Some(feature) = find_feature(features, EXTENDED_REPORT_RATE) {
        match rate_code(hz, 0) {
            Some(code) => call_at(wire, at, feature.index, 0x30, seq![code as u8, 0u8, 0u8]),
            None => Step::Astray,
        }
    } else {
        match required_feature(features, REPORT_RATE) {
            Err(error) => Step::Failed { error, next: at },
            Ok(feature) => call_at(wire, at, feature.index, 0x20, seq![(1000int / (hz as int)) as u8]),
        }
    }
}

fn send_rate<I: HidIo>(transport: &mut HidppTransport<I>, features: &FeatureTable, hz: u32) -> (sent: Result<Vec<u8>>)
    requires
        if find_feature(features@, EXTENDED_REPORT_RATE) is Some {
            rate_code(hz, 0) is Some
        } else {
            125 <= hz <= 1000
        },
    ensures
        grown(old(transport)@, final(transport)@),
        final(transport).held() == old(transport).held(),
        forall|wire: Wire|
            wire.covers(final(transport)@) ==> #[trigger] send_rate_at(
                wire,
                old(transport)@.mark(),
                features@,
                hz,
            ) == reached(outcome(sent), final(transport)@.mark()),
{
    if let Some(feature) = features.get(EXTENDED_REPORT_RATE) {
        let code: u8 = match code_of_rate(hz) {
            Some(code) => code,
            None => 0,
        };
        let payload = [code, 0u8, 0u8];
        assert(payload@ =~= seq![code as int as u8, 0u8, 0u8]);
        return transport.transact(feature.index, 0x30, &payload);
    }
    let feature = features.require(REPORT_RATE)?;
    assert(1000int / (hz as int) <= 8) by (nonlinear_arith)
        requires
            125 <= hz,
    ;
    let payload = [(1000 / hz) as u8];
    assert(payload@ =~= seq![(1000int / (hz as int)) as u8]);
    transport.transact(feature.index, 0x20, &payload)
}

/// What the rate that was read back says of the one that was asked for.
pub open spec fn rate_readback(hz: u32, actual: RateState) -> Outcome<RateState> {
    if actual.hz != hz {
        Err(
            ErrorView::Verification(
                "requested "@ + dec(hz as nat) + " Hz but device reports "@ + dec(actual.hz as nat)
                    + " Hz; disable onboard mode first if a profile controls report rate"@,
            ),
        )
    } else {
        Ok(actual)
    }
}

/// Setting the report rate and reading it back. Nothing is sent while a profile controls it, or where it is
/// none that the device has.
#[verifier::opaque]
pub open spec fn set_rate_at(wire: Wire, at: int, features: Seq<FeatureView>, hz: u32) -> Step<RateState> {
    match host_mode_at(wire, at, features, "report rate"@) {
        Step::Done { next, .. } => match rate_capabilities_at(wire, next, features) {
            Step::Done { value: capabilities, next } => match rate_refusal(hz, capabilities.rates_hz) {
                Some(error) => Step::Failed { error, next },
                None => match send_rate_at(wire, next, features, hz) {
                    Step::Done { next, .. } => match rate_at(wire, next, features) {
                        Step::Done { value: actual, next } => reached(rate_readback(hz, actual), next),
                        step => step,
                    },
                    step => step.stop(),
                },
            },
            step => step.stop(),
        },
        step => step.stop(),
    }
}

/// Sets the report rate, and fails unless the device then reports the one asked for.
pub fn set_rate<I: HidIo>(
    transport: &mut HidppTransport<I>,
    features: &FeatureTable,
    hz: u32,
) -> (rate: Result<RateState>)
    ensures
        grown(old(transport)@, final(transport)@),
        final(transport).held() == old(transport).held(),
        forall|wire: Wire|
            wire.covers(final(transport)@) ==> #[trigger] set_rate_at(
                wire,
                old(transport)@.mark(),
                features@,
                hz,
            ) == reached(outcome(rate), final(transport)@.mark()),
{
    reveal(set_rate_at);

    require_host_mode_for_live_write(transport, features, "report rate")?;
    let capabilities = rate_capabilities(transport, features)?;
    validate_rate(hz, &capabilities.rates_hz)?;
    assert(exists|i: int| 0 <= i < capabilities.rates_hz@.len() && capabilities.rates_hz@[i] == hz);
    send_rate(transport, features, hz)?;
    let actual = read_rate(transport, features)?;
    if actual.hz != hz {
        return Err(
            AppError::Verification(
                join5(
                    "requested ",
                    decimal(hz as u64).as_str(),
                    " Hz but device reports ",
                    decimal(actual.hz as u64).as_str(),
                    " Hz; disable onboard mode first if a profile controls report rate",
                ),
            ),
        );
    }
    Ok(actual)
}

}
