//! What sensitivities and report rates look like on the wire.

use vstd::prelude::*;

use crate::bytes::{high_of, low_of};
use crate::device::dpi::{dpi_at, host_mode_at, send_dpi_at, set_dpi_at, DpiCapabilitiesView};
use crate::device::format07::{hertz, rate_codes_double};
use crate::device::guarantees::{dpi_choices, rate_choices};
use crate::device::onboard::onboard_status_at;
use crate::device::rate::{
    flagged_intervals, flagged_rates, rate_at, rate_capabilities_at, send_rate_at, set_rate_at, EXTENDED_RATES,
};
use crate::error::Outcome;
use crate::hidpp::asking::{
    answered, asked, at_index, bytes_make_word, call_gives_reply, called, first_feature_is_found,
    missing_feature_is_named, offers, read_gives_answer,
};
use crate::hidpp::features::{find_feature, FeatureView};
use crate::hidpp::session::{read_at, Step, Wire};

verus! {

/// The word at a place of a reply, or where it is zero, the one behind it: a sensitivity, or the one that the mouse
/// starts with.
pub open spec fn reported(reply: Seq<u8>, place: int) -> int {
    if 256 * reply[place] + reply[place + 1] == 0 {
        256 * reply[place + 2] + reply[place + 3]
    } else {
        256 * reply[place] + reply[place + 1]
    }
}

/// A mouse with the extended feature tells its sensitivity when it is asked for function 5 of it: behind the sensor, the
/// one along and its default, the one across and its default, high byte first, and the lift-off distance. No
/// sensitivity across means the same as along.
pub proof fn extended_sensitivity_is_read(
    wire: Wire,
    at: int,
    features: Seq<FeatureView>,
    index: u8,
    reply: Seq<u8>,
    next: int,
)
    requires
        at_index(features, 0x2202, index),
        answered(wire, at, index, 0x50, Seq::empty(), reply, next),
    ensures
        reply.len() >= 10 ==> (dpi_at(wire, at, features) matches Step::Done { value, next: end } && end == next
            && value.x == reported(reply, 1) && value.y == (if reported(reply, 5) == 0 {
            reported(reply, 1)
        } else {
            reported(reply, 5)
        }) && value.lift_off_distance == Some(reply[9])),
        reply.len() < 10 ==> (dpi_at(wire, at, features) matches Step::Failed { next: end, .. } && end == next),
{
    reveal(dpi_at);
    first_feature_is_found(features, 0x2202);
    read_gives_answer(wire, at, index, 0x50, Seq::empty(), reply, next);
}

/// A mouse with the plain feature alone tells its sensitivity when it is asked for function 2 of it with the number of
/// the sensor: behind that, the sensitivity and its default, high byte first.
pub proof fn plain_sensitivity_is_read(
    wire: Wire,
    at: int,
    features: Seq<FeatureView>,
    index: u8,
    reply: Seq<u8>,
    next: int,
)
    requires
        !offers(features, 0x2202),
        at_index(features, 0x2201, index),
        answered(wire, at, index, 0x20, seq![0u8], reply, next),
    ensures
        reply.len() >= 5 ==> (dpi_at(wire, at, features) matches Step::Done { value, next: end } && end == next
            && value.x == reported(reply, 1) && value.y == reported(reply, 1) && value.lift_off_distance is None),
        reply.len() < 5 ==> (dpi_at(wire, at, features) matches Step::Failed { next: end, .. } && end == next),
{
    reveal(dpi_at);
    first_feature_is_found(features, 0x2202);
    missing_feature_is_named(features, 0x2201);
    read_gives_answer(wire, at, index, 0x20, seq![0u8], reply, next);
}

/// Whether a sensitivity was sent at a place of a record, high byte first: with function 6 of the extended feature both
/// ways and with the lift-off distance that the mouse told just before; with function 3 of the plain one along alone.
pub open spec fn sensitivity_sent(wire: Wire, at: int, features: Seq<FeatureView>, x: int, y: int) -> bool {
    let exchange = wire.exchanges[at];
    let parameters = exchange.request.parameters;
    &&& asked(wire, at, exchange.request.feature_index, exchange.request.function as int, parameters)
    &&& parameters[0] == 0
    &&& 256 * parameters[1] + parameters[2] == x
    &&& if offers(features, 0x2202) {
        &&& at_index(features, 0x2202, exchange.request.feature_index)
        &&& exchange.request.function == 0x60
        &&& parameters.len() == 6
        &&& 256 * parameters[3] + parameters[4] == y
        &&& exists|told: Seq<u8>|
            (#[trigger] told.len()) >= 10 && wire.exchanges[at - 1].reply == Outcome::Ok(told) && parameters[5]
                == told[9] && asked(wire, at - 1, exchange.request.feature_index, 0x50, Seq::empty())
    } else {
        &&& at_index(features, 0x2201, exchange.request.feature_index)
        &&& exchange.request.function == 0x30
        &&& parameters.len() == 3
    }
}

/// What is sent to set a sensitivity is that sensitivity, high byte first, and the mouse took it.
pub proof fn sent_sensitivity_is_the_one_asked_for(wire: Wire, at: int, features: Seq<FeatureView>, x: u16, y: u16)
    requires
        send_dpi_at(wire, at, features, x, y) is Done,
    ensures
        ({
            let last = send_dpi_at(wire, at, features, x, y)->Done_next - 1;
            &&& at <= last
            &&& sensitivity_sent(wire, last, features, x as int, y as int)
            &&& wire.exchanges[last].reply is Ok
        }),
{
    reveal(dpi_at);
    first_feature_is_found(features, 0x2202);
    missing_feature_is_named(features, 0x2201);
    bytes_make_word(high_of(x), low_of(x), x);
    bytes_make_word(high_of(y), low_of(y), y);
    if let Some(feature) = find_feature(features, 0x2202) {
        if let Step::Done { value: current, next } = dpi_at(wire, at, features) {
            let told = read_at(wire, at, feature.index, 0x50, Seq::empty())->value;
            read_gives_answer(wire, at, feature.index, 0x50, Seq::empty(), told, next);
            assert(current.lift_off_distance == Some(told[9]));
            assert(told.len() >= 10);
        }
    }
}

/// A mouse that takes the sensitivity that is sent to it with the plain feature makes the sending succeed.
pub proof fn plain_sensitivity_is_sent(
    wire: Wire,
    at: int,
    features: Seq<FeatureView>,
    index: u8,
    x: u16,
    y: u16,
    high: u8,
    low: u8,
    reply: Seq<u8>,
)
    requires
        !offers(features, 0x2202),
        at_index(features, 0x2201, index),
        256 * high + low == x,
        called(wire, at, index, 0x30, seq![0u8, high, low], reply),
    ensures
        send_dpi_at(wire, at, features, x, y) == (Step::Done { value: reply, next: at + 1 }),
{
    first_feature_is_found(features, 0x2202);
    missing_feature_is_named(features, 0x2201);
    bytes_make_word(high, low, x);
    call_gives_reply(wire, at, index, 0x30, seq![0u8, high, low], reply, at + 1);
}

/// The sensitivity across that is meant: the one given, or else the one along.
pub open spec fn across(x: u16, y: Option<u16>) -> u16 {
    match y {
        Some(y) => y,
        None => x,
    }
}

/// Whether a mouse offers a sensitivity: the one along is on its list, and the one across on its own list where it has
/// one, or else the same.
pub open spec fn on_offer(capabilities: DpiCapabilitiesView, x: u16, y: u16) -> bool {
    &&& capabilities.x_values.contains(x)
    &&& if capabilities.separate_xy {
        match capabilities.y_values {
            Some(values) => values.contains(y),
            None => capabilities.x_values.contains(y),
        }
    } else {
        y == x
    }
}

/// Setting a sensitivity that is not on offer fails as soon as the lists are read; nothing is sent to set it.
pub proof fn sensitivity_not_on_offer_is_refused(wire: Wire, at: int, features: Seq<FeatureView>, x: u16, y: Option<u16>)
    requires
        dpi_choices(wire, at, features) is Done,
        !on_offer(dpi_choices(wire, at, features)->value, x, across(x, y)),
    ensures
        set_dpi_at(wire, at, features, x, y) matches Step::Failed { error, next } && error is Validation && next
            == dpi_choices(wire, at, features)->Done_next,
{
    reveal(set_dpi_at);
}

/// Setting a sensitivity that is on offer succeeds with what the mouse reports then, where it takes what it is sent and
/// reports that.
pub proof fn offered_sensitivity_is_set(wire: Wire, at: int, features: Seq<FeatureView>, x: u16, y: Option<u16>)
    requires
        dpi_choices(wire, at, features) is Done,
        on_offer(dpi_choices(wire, at, features)->value, x, across(x, y)),
        ({
            let offered = dpi_choices(wire, at, features);
            let sent = send_dpi_at(wire, offered->Done_next, features, x, across(x, y));
            let report = dpi_at(wire, sent->Done_next, features);
            &&& sent is Done
            &&& report is Done
            &&& report->value.x == x
            &&& offered->value.separate_xy ==> report->value.y == across(x, y)
        }),
    ensures
        ({
            let offered = dpi_choices(wire, at, features);
            let sent = send_dpi_at(wire, offered->Done_next, features, x, across(x, y));
            set_dpi_at(wire, at, features, x, y) == dpi_at(wire, sent->Done_next, features)
        }),
{
    reveal(set_dpi_at);
}

/// A mouse that reports, behind the number of the sensor, the very bytes that were sent to it makes setting a
/// sensitivity on offer succeed: with the plain feature those of the one sensitivity, with the extended one those of
/// both.
pub proof fn mouse_that_keeps_what_it_is_sent_is_set(
    wire: Wire,
    at: int,
    features: Seq<FeatureView>,
    x: u16,
    y: Option<u16>,
    index: u8,
    report: Seq<u8>,
    next: int,
)
    requires
        x != 0,
        across(x, y) != 0,
        dpi_choices(wire, at, features) is Done,
        on_offer(dpi_choices(wire, at, features)->value, x, across(x, y)),
        send_dpi_at(wire, dpi_choices(wire, at, features)->Done_next, features, x, across(x, y)) is Done,
        ({
            let sent = send_dpi_at(wire, dpi_choices(wire, at, features)->Done_next, features, x, across(x, y))->Done_next;
            let parameters = wire.exchanges[sent - 1].request.parameters;
            &&& report.len() >= 10
            &&& report[1] == parameters[1] && report[2] == parameters[2]
            &&& if offers(features, 0x2202) {
                &&& at_index(features, 0x2202, index)
                &&& answered(wire, sent, index, 0x50, Seq::empty(), report, next)
                &&& report[5] == parameters[3] && report[6] == parameters[4]
            } else {
                &&& at_index(features, 0x2201, index)
                &&& answered(wire, sent, index, 0x20, seq![0u8], report, next)
                &&& dpi_choices(wire, at, features)->value.separate_xy ==> across(x, y) == x
            }
        }),
    ensures
        set_dpi_at(wire, at, features, x, y) matches Step::Done { value, next: end } && end == next && value.x == x
            && value.y == across(x, y),
{
    let offered = dpi_choices(wire, at, features);
    let sent = send_dpi_at(wire, offered->Done_next, features, x, across(x, y))->Done_next;
    sent_sensitivity_is_the_one_asked_for(wire, offered->Done_next, features, x, across(x, y));
    if offers(features, 0x2202) {
        extended_sensitivity_is_read(wire, sent, features, index, report, next);
    } else {
        plain_sensitivity_is_read(wire, sent, features, index, report, next);
    }
    offered_sensitivity_is_set(wire, at, features, x, y);
}

/// While the host controls a mouse, or it has no memory, nothing stands in the way of setting it.
pub proof fn free_mouse_can_be_set(
    wire: Wire,
    at: int,
    features: Seq<FeatureView>,
    setting: Seq<char>,
    index: u8,
    reply: Seq<u8>,
    next: int,
)
    ensures
        !offers(features, 0x8100) ==> host_mode_at(wire, at, features, setting) == (Step::Done { value: (), next: at }),
        at_index(features, 0x8100, index) && answered(wire, at, index, 0x20, Seq::empty(), reply, next) && reply.len()
            > 0 && reply[0] == 2 ==> host_mode_at(wire, at, features, setting) == (Step::Done { value: (), next }),
{
    reveal(host_mode_at);
    reveal(onboard_status_at);
    missing_feature_is_named(features, 0x8100);
    first_feature_is_found(features, 0x8100);
    read_gives_answer(wire, at, index, 0x20, Seq::empty(), reply, next);
}

proof fn flagged_rates_have_flags(flags: u16, count: u16, code: u16)
    requires
        count <= 7,
        code < 7,
    ensures
        flagged_rates(flags, count).contains(hertz(code as int) as u32) <==> code < count && flags & (1u16 << code) != 0,
        flagged_rates(flags, count).len() <= count,
        forall|i: int|
            0 <= i < flagged_rates(flags, count).len() ==> exists|c: int|
                0 <= c < count && #[trigger] flagged_rates(flags, count)[i] == #[trigger] hertz(c),
        forall|i: int, j: int|
            0 <= i < j < flagged_rates(flags, count).len() ==> #[trigger] flagged_rates(flags, count)[i]
                < #[trigger] flagged_rates(flags, count)[j],
    decreases count,
{
    reveal_with_fuel(hertz, 8);
    if count > 0 {
        let below = (count - 1) as u16;
        flagged_rates_have_flags(flags, below, code);
        let earlier = flagged_rates(flags, below);
        let rates = flagged_rates(flags, count);
        let rate = EXTENDED_RATES@[below as int];
        assert(rate == hertz(below as int));
        if flags & (1u16 << below) != 0 {
            assert(rates == earlier.push(rate));
            assert(rates.last() == rate);
            if earlier.contains(hertz(code as int) as u32) {
                let i = choose|i: int| 0 <= i < earlier.len() && earlier[i] == hertz(code as int) as u32;
                assert(rates[i] == hertz(code as int) as u32);
            }
            if rates.contains(hertz(code as int) as u32) && code != below {
                let i = choose|i: int| 0 <= i < rates.len() && rates[i] == hertz(code as int) as u32;
                assert(i < earlier.len());
                assert(earlier[i] == rates[i]);
            }
            assert forall|i: int| 0 <= i < rates.len() implies exists|c: int|
                0 <= c < count && #[trigger] rates[i] == #[trigger] hertz(c) by {
                if i < earlier.len() {
                    assert(rates[i] == earlier[i]);
                }
            }
            assert forall|i: int, j: int| 0 <= i < j < rates.len() implies #[trigger] rates[i] < #[trigger] rates[j] by {
                assert(rates[i] == earlier[i]);
                if j < earlier.len() {
                    assert(rates[j] == earlier[j]);
                }
            }
        }
    }
}

/// The rates that a mouse with the extended feature offers: code 0 stands for 125 reports in a second and each further
/// one for twice as many, and bit by bit from the lowest on a word tells which of the seven it has.
pub proof fn extended_rates_have_flags(flags: u16, code: u16)
    requires
        code < 7,
    ensures
        flagged_rates(flags, 7).contains(hertz(code as int) as u32) <==> flags & (1u16 << code) != 0,
        flagged_rates(flags, 7).len() <= 7,
        forall|i: int|
            0 <= i < flagged_rates(flags, 7).len() ==> exists|c: int|
                0 <= c < 7 && #[trigger] flagged_rates(flags, 7)[i] == #[trigger] hertz(c),
        forall|i: int, j: int|
            0 <= i < j < flagged_rates(flags, 7).len() ==> #[trigger] flagged_rates(flags, 7)[i]
                < #[trigger] flagged_rates(flags, 7)[j],
{
    flagged_rates_have_flags(flags, 7, code);
}

/// The whole reports in a second at an interval in milliseconds.
pub open spec fn per_second(interval: int) -> int {
    1000int / interval
}

/// The rates of the eight intervals, and that each tells its interval.
pub proof fn intervals_have_rates(interval: int)
    requires
        1 <= interval <= 8,
    ensures
        per_second(1) == 1000,
        per_second(2) == 500,
        per_second(3) == 333,
        per_second(4) == 250,
        per_second(5) == 200,
        per_second(6) == 166,
        per_second(7) == 142,
        per_second(8) == 125,
        1000int / per_second(interval) == interval,
{
    assert(per_second(1) == 1000 && per_second(2) == 500 && per_second(3) == 333 && per_second(4) == 250);
    assert(per_second(5) == 200 && per_second(6) == 166 && per_second(7) == 142 && per_second(8) == 125);
    assert(1000int / 1000 == 1 && 1000int / 500 == 2 && 1000int / 333 == 3 && 1000int / 250 == 4);
    assert(1000int / 200 == 5 && 1000int / 166 == 6 && 1000int / 142 == 7 && 1000int / 125 == 8);
    if interval == 1 {
    } else if interval == 2 {
    } else if interval == 3 {
    } else if interval == 4 {
    } else if interval == 5 {
    } else if interval == 6 {
    } else if interval == 7 {
    } else {
        assert(interval == 8);
    }
}

proof fn flagged_intervals_have_flags(flags: u8, count: u8, interval: u8)
    requires
        count <= 8,
        1 <= interval <= 8,
    ensures
        flagged_intervals(flags, count).contains((per_second(interval as int)) as u32) <==> interval <= count && flags & (
        1u8 << (interval - 1) as u8) != 0,
        flagged_intervals(flags, count).len() <= count,
        forall|i: int|
            0 <= i < flagged_intervals(flags, count).len() ==> exists|k: int|
                1 <= k <= count && #[trigger] flagged_intervals(flags, count)[i] == #[trigger] per_second(k),
        forall|i: int, j: int|
            0 <= i < j < flagged_intervals(flags, count).len() ==> #[trigger] flagged_intervals(flags, count)[i]
                > #[trigger] flagged_intervals(flags, count)[j],
    decreases count,
{
    if count > 0 {
        let below = (count - 1) as u8;
        flagged_intervals_have_flags(flags, below, interval);
        let earlier = flagged_intervals(flags, below);
        let rates = flagged_intervals(flags, count);
        let rate = (per_second(count as int)) as u32;
        let asked_rate = (per_second(interval as int)) as u32;
        if flags & (1u8 << below) != 0 {
            assert(rates == earlier.push(rate));
            assert(rates.last() == rate);
            if earlier.contains(asked_rate) {
                let i = choose|i: int| 0 <= i < earlier.len() && earlier[i] == asked_rate;
                assert(rates[i] == asked_rate);
            }
            if rates.contains(asked_rate) && interval != count {
                let i = choose|i: int| 0 <= i < rates.len() && rates[i] == asked_rate;
                intervals_have_rates(interval as int);
                intervals_have_rates(count as int);
                assert(rate != asked_rate);
                assert(i < earlier.len());
                assert(earlier[i] == rates[i]);
            }
            assert forall|i: int| 0 <= i < rates.len() implies exists|k: int|
                1 <= k <= count && #[trigger] rates[i] == #[trigger] per_second(k) by {
                if i < earlier.len() {
                    assert(rates[i] == earlier[i]);
                } else {
                    assert(rates[i] == per_second(count as int));
                }
            }
            intervals_have_rates(count as int);
            assert forall|i: int, j: int| 0 <= i < j < rates.len() implies #[trigger] rates[i] > #[trigger] rates[j] by {
                assert(rates[i] == earlier[i]);
                if j < earlier.len() {
                    assert(rates[j] == earlier[j]);
                }
            }
        }
    }
}

/// The rates that a mouse with the plain feature offers: bit by bit from the lowest on a byte tells which intervals of
/// one to eight milliseconds it has.
pub proof fn plain_rates_have_flags(flags: u8, interval: u8)
    requires
        1 <= interval <= 8,
    ensures
        flagged_intervals(flags, 8).contains((per_second(interval as int)) as u32) <==> flags & (1u8 << (interval
            - 1) as u8) != 0,
        flagged_intervals(flags, 8).len() <= 8,
        forall|i: int|
            0 <= i < flagged_intervals(flags, 8).len() ==> exists|k: int|
                1 <= k <= 8 && #[trigger] flagged_intervals(flags, 8)[i] == #[trigger] per_second(k),
        forall|i: int, j: int|
            0 <= i < j < flagged_intervals(flags, 8).len() ==> #[trigger] flagged_intervals(flags, 8)[i]
                > #[trigger] flagged_intervals(flags, 8)[j],
{
    flagged_intervals_have_flags(flags, 8, interval);
}

/// A mouse with the extended feature tells the rates that it offers when it is asked for function 1 of it: by a word of
/// flags, high byte first.
pub proof fn extended_rates_are_read(
    wire: Wire,
    at: int,
    features: Seq<FeatureView>,
    index: u8,
    reply: Seq<u8>,
    next: int,
    code: u16,
)
    requires
        at_index(features, 0x8061, index),
        answered(wire, at, index, 0x10, Seq::empty(), reply, next),
        code < 7,
    ensures
        reply.len() >= 2 ==> (rate_capabilities_at(wire, at, features) matches Step::Done { value, next: end } && end
            == next && (value.rates_hz.contains(hertz(code as int) as u32) <==> (256 * reply[0] + reply[1]) as u16 & (
        1u16 << code) != 0)),
        reply.len() < 2 ==> (rate_capabilities_at(wire, at, features) matches Step::Failed { next: end, .. } && end
            == next),
{
    reveal(rate_capabilities_at);
    first_feature_is_found(features, 0x8061);
    read_gives_answer(wire, at, index, 0x10, Seq::empty(), reply, next);
    if reply.len() >= 2 {
        extended_rates_have_flags((256 * reply[0] + reply[1]) as u16, code);
    }
}

/// A mouse with the plain feature alone tells the rates that it offers when it is asked for function 0 of it: by a byte
/// of flags.
pub proof fn plain_rates_are_read(
    wire: Wire,
    at: int,
    features: Seq<FeatureView>,
    index: u8,
    reply: Seq<u8>,
    next: int,
    interval: u8,
)
    requires
        !offers(features, 0x8061),
        at_index(features, 0x8060, index),
        answered(wire, at, index, 0x00, Seq::empty(), reply, next),
        1 <= interval <= 8,
    ensures
        reply.len() >= 1 ==> (rate_capabilities_at(wire, at, features) matches Step::Done { value, next: end } && end
            == next && (value.rates_hz.contains(per_second(interval as int) as u32) <==> reply[0] & (1u8 << (interval
            - 1) as u8) != 0)),
        reply.len() < 1 ==> (rate_capabilities_at(wire, at, features) matches Step::Failed { next: end, .. } && end
            == next),
{
    reveal(rate_capabilities_at);
    first_feature_is_found(features, 0x8061);
    missing_feature_is_named(features, 0x8060);
    read_gives_answer(wire, at, index, 0x00, Seq::empty(), reply, next);
    if reply.len() >= 1 {
        plain_rates_have_flags(reply[0], interval);
    }
}

/// A mouse with the extended feature tells its report rate as a code when it is asked for function 2 of it with the kind
/// of its connection: 0 at a cable, where it answers under index 0xff, and 1 at a receiver.
pub proof fn extended_rate_is_read(
    wire: Wire,
    at: int,
    features: Seq<FeatureView>,
    index: u8,
    connection: u8,
    reply: Seq<u8>,
    next: int,
)
    requires
        at_index(features, 0x8061, index),
        wire.device_index == 0xff ==> connection == 0,
        wire.device_index != 0xff ==> connection == 1,
        answered(wire, at, index, 0x20, seq![connection, 0u8, 0u8], reply, next),
    ensures
        reply.len() >= 1 && reply[0] < 7 ==> (rate_at(wire, at, features) matches Step::Done { value, next: end } && end
            == next && value.hz == hertz(reply[0] as int) && value.hz * value.interval_microseconds == 1_000_000),
        reply.len() < 1 || reply[0] >= 7 ==> (rate_at(wire, at, features) matches Step::Failed { next: end, .. } && end
            == next),
{
    reveal(rate_at);
    reveal_with_fuel(hertz, 8);
    assert(1_000_000int / 125 == 8000 && 1_000_000int / 250 == 4000 && 1_000_000int / 500 == 2000);
    assert(1_000_000int / 1000 == 1000 && 1_000_000int / 2000 == 500 && 1_000_000int / 4000 == 250);
    assert(1_000_000int / 8000 == 125);
    if reply.len() >= 1 && reply[0] < 7 {
        let hz = EXTENDED_RATES@[reply[0] as int];
        assert(hz == hertz(reply[0] as int));
        let interval = 1_000_000int / hz as int;
        if reply[0] == 0 {
            assert(hz == 125 && interval == 8000);
        } else if reply[0] == 1 {
            assert(hz == 250 && interval == 4000);
        } else if reply[0] == 2 {
            assert(hz == 500 && interval == 2000);
        } else if reply[0] == 3 {
            assert(hz == 1000 && interval == 1000);
        } else if reply[0] == 4 {
            assert(hz == 2000 && interval == 500);
        } else if reply[0] == 5 {
            assert(hz == 4000 && interval == 250);
        } else if reply[0] == 6 {
            assert(hz == 8000 && interval == 125);
        }
        assert(hz * interval == 1_000_000);
    }
    first_feature_is_found(features, 0x8061);
    read_gives_answer(wire, at, index, 0x20, seq![connection, 0u8, 0u8], reply, next);
}

/// A mouse with the plain feature alone tells its report rate as an interval of one to eight milliseconds when it is
/// asked for function 1 of it.
pub proof fn plain_rate_is_read(wire: Wire, at: int, features: Seq<FeatureView>, index: u8, reply: Seq<u8>, next: int)
    requires
        !offers(features, 0x8061),
        at_index(features, 0x8060, index),
        answered(wire, at, index, 0x10, Seq::empty(), reply, next),
    ensures
        reply.len() >= 1 && 1 <= reply[0] <= 8 ==> (rate_at(wire, at, features) matches Step::Done { value, next: end }
            && end == next && value.hz == per_second(reply[0] as int) && value.interval_microseconds == 1000 * reply[0]),
        reply.len() < 1 || !(1 <= reply[0] <= 8) ==> (rate_at(wire, at, features) matches Step::Failed { next: end, .. }
            && end == next),
{
    reveal(rate_at);
    first_feature_is_found(features, 0x8061);
    missing_feature_is_named(features, 0x8060);
    read_gives_answer(wire, at, index, 0x10, Seq::empty(), reply, next);
}

/// What is sent to set a report rate stands for that rate: with function 3 of the extended feature its code, with
/// function 2 of the plain one its interval in milliseconds.
pub proof fn sent_rate_is_the_one_asked_for(wire: Wire, at: int, features: Seq<FeatureView>, hz: u32)
    requires
        send_rate_at(wire, at, features, hz) is Done,
        1 <= hz,
    ensures
        send_rate_at(wire, at, features, hz)->Done_next == at + 1,
        ({
            let request = wire.exchanges[at].request;
            &&& wire.exchanges[at].reply is Ok
            &&& asked(wire, at, request.feature_index, request.function as int, request.parameters)
            &&& if offers(features, 0x8061) {
                &&& at_index(features, 0x8061, request.feature_index)
                &&& request.function == 0x30
                &&& request.parameters.len() == 3
                &&& request.parameters[0] < 7 && hz == hertz(request.parameters[0] as int)
                &&& request.parameters[1] == 0 && request.parameters[2] == 0
            } else {
                &&& at_index(features, 0x8060, request.feature_index)
                &&& request.function == 0x20
                &&& request.parameters.len() == 1
                &&& forall|interval: int|
                    1 <= interval <= 8 && hz == #[trigger] per_second(interval) ==> request.parameters[0] == interval
            }
        }),
{
    first_feature_is_found(features, 0x8061);
    missing_feature_is_named(features, 0x8060);
    rate_codes_double(hz);
    if !offers(features, 0x8061) {
        assert forall|interval: int| 1 <= interval <= 8 && hz == #[trigger] per_second(interval) implies wire.exchanges[at].request.parameters[0]
            == interval by {
            intervals_have_rates(interval);
        }
    }
}

/// Setting a report rate that is not on offer fails as soon as the rates are read; nothing is sent to set it.
pub proof fn rate_not_on_offer_is_refused(wire: Wire, at: int, features: Seq<FeatureView>, hz: u32)
    requires
        rate_choices(wire, at, features) is Done,
        !rate_choices(wire, at, features)->value.rates_hz.contains(hz),
    ensures
        set_rate_at(wire, at, features, hz) matches Step::Failed { error, next } && error is Validation && next
            == rate_choices(wire, at, features)->Done_next,
{
    reveal(set_rate_at);
}

/// Setting a report rate that is on offer succeeds with what the mouse reports then, where it takes what it is sent and
/// reports that.
pub proof fn offered_rate_is_set(wire: Wire, at: int, features: Seq<FeatureView>, hz: u32)
    requires
        rate_choices(wire, at, features) is Done,
        rate_choices(wire, at, features)->value.rates_hz.contains(hz),
        ({
            let sent = send_rate_at(wire, rate_choices(wire, at, features)->Done_next, features, hz);
            let report = rate_at(wire, sent->Done_next, features);
            &&& sent is Done
            &&& report is Done
            &&& report->value.hz == hz
        }),
    ensures
        set_rate_at(wire, at, features, hz) == rate_at(
            wire,
            send_rate_at(wire, rate_choices(wire, at, features)->Done_next, features, hz)->Done_next,
            features,
        ),
{
    reveal(set_rate_at);
}

/// A mouse that reports the very code, or the very interval, that was sent to it makes setting a report rate on offer
/// succeed.
pub proof fn mouse_that_keeps_its_rate_is_set(
    wire: Wire,
    at: int,
    features: Seq<FeatureView>,
    hz: u32,
    index: u8,
    connection: u8,
    report: Seq<u8>,
    next: int,
)
    requires
        1 <= hz,
        rate_choices(wire, at, features) is Done,
        rate_choices(wire, at, features)->value.rates_hz.contains(hz),
        send_rate_at(wire, rate_choices(wire, at, features)->Done_next, features, hz) is Done,
        report.len() >= 1,
        ({
            let sent = rate_choices(wire, at, features)->Done_next;
            &&& report[0] == wire.exchanges[sent].request.parameters[0]
            &&& if offers(features, 0x8061) {
                &&& at_index(features, 0x8061, index)
                &&& connection == (if wire.device_index == 0xff {
                    0int
                } else {
                    1
                })
                &&& answered(wire, sent + 1, index, 0x20, seq![connection, 0u8, 0u8], report, next)
            } else {
                &&& at_index(features, 0x8060, index)
                &&& answered(wire, sent + 1, index, 0x10, Seq::empty(), report, next)
                &&& exists|interval: int| 1 <= interval <= 8 && hz == #[trigger] per_second(interval)
            }
        }),
    ensures
        set_rate_at(wire, at, features, hz) matches Step::Done { value, next: end } && end == next && value.hz == hz,
{
    let sent = rate_choices(wire, at, features)->Done_next;
    sent_rate_is_the_one_asked_for(wire, sent, features, hz);
    if offers(features, 0x8061) {
        extended_rate_is_read(wire, sent + 1, features, index, connection, report, next);
    } else {
        plain_rate_is_read(wire, sent + 1, features, index, report, next);
    }
    offered_rate_is_set(wire, at, features, hz);
}

/// Setting a sensitivity or a rate fails, and says so, where the mouse then reports another one.
pub proof fn other_reports_fail(
    wire: Wire,
    at: int,
    features: Seq<FeatureView>,
    x: u16,
    y: Option<u16>,
    hz: u32,
)
    ensures
        ({
            let offered = dpi_choices(wire, at, features);
            let sent = send_dpi_at(wire, offered->Done_next, features, x, across(x, y));
            let report = dpi_at(wire, sent->Done_next, features);
            offered is Done && on_offer(offered->value, x, across(x, y)) && sent is Done && report is Done && (
            report->value.x != x || (offered->value.separate_xy && report->value.y != across(x, y))) ==> (set_dpi_at(
                wire,
                at,
                features,
                x,
                y,
            ) matches Step::Failed { error, next } && error is Verification && next == report->Done_next)
        }),
        ({
            let offered = rate_choices(wire, at, features);
            let sent = send_rate_at(wire, offered->Done_next, features, hz);
            let report = rate_at(wire, sent->Done_next, features);
            offered is Done && offered->value.rates_hz.contains(hz) && sent is Done && report is Done && report->value.hz
                != hz ==> (set_rate_at(wire, at, features, hz) matches Step::Failed { error, next }
                && error is Verification && next == report->Done_next)
        }),
{
    reveal(set_dpi_at);
    reveal(set_rate_at);
}

}
