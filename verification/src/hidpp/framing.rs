//! What reports are made of, and which of those that come in belong to a request.

use vstd::prelude::*;

use crate::error::{ErrorView, Outcome};
use crate::hid::transport::IoEvent;
use crate::hidpp::protocol::{
    echo_byte, error_code_name, is_software_id, software_id_after, spaced_pairs, version_text, ProtocolVersion,
};
use crate::hidpp::session::{
    allowed_nanoseconds, brought, drained, remaining_of, sent, traffic_lines, verdict, Exchange, Request, Verdict,
};
use crate::text::{dec, hex2};

verus! {

/// The upper half of the byte behind the feature is the function and its lower half the software ID.
pub proof fn function_and_software_id_share_a_byte(function: u8, software_id: u8)
    requires
        function % 16 == 0,
        software_id < 16,
    ensures
        echo_byte(function, software_id) == function + software_id,
{
    assert(function | (software_id & 0x0f) == function + software_id) by (bit_vector)
        requires
            function % 16 == 0,
            software_id < 16,
    ;
}

/// A request can be sent exactly where its function is one of the sixteen in the upper half of a byte, and its
/// parameters are at most three in a short report and sixteen in a long one.
pub proof fn requests_that_can_be_sent(request: Request)
    ensures
        request.refusal() is None <==> request.function % 16 == 0 && request.parameters.len() <= (if request.long {
            16int
        } else {
            3
        }),
        request.refusal() matches Some(error) ==> error is Validation,
{
    let function = request.function;
    assert((function & 0x0f == 0) == (function % 16 == 0)) by (bit_vector);
}

/// The report of a request: its ID, 0x11 for a long one of twenty bytes and 0x10 for a short one of seven; the index of
/// the device; the index of the feature; the function and the software ID in one byte; the parameters; and zeros.
pub proof fn report_is_laid_out(request: Request, software_id: u8)
    requires
        request.refusal() is None,
        8 <= software_id <= 15,
    ensures
        ({
            let report = request.report(software_id);
            &&& report.len() == (if request.long {
                20int
            } else {
                7
            })
            &&& report[0] == (if request.long {
                0x11int
            } else {
                0x10
            })
            &&& report[1] == request.device_index
            &&& report[2] == request.feature_index
            &&& report[3] == request.function + software_id
            &&& forall|i: int| 0 <= i < request.parameters.len() ==> #[trigger] report[4 + i] == request.parameters[i]
            &&& forall|i: int| 4 + request.parameters.len() <= i < report.len() ==> #[trigger] report[i] == 0
        }),
{
    requests_that_can_be_sent(request);
    function_and_software_id_share_a_byte(request.function, software_id);
}

/// Software IDs are the numbers from 8 to 15; behind 15 comes 8, and behind any other the next one.
pub proof fn software_ids_are_eight(id: u8)
    ensures
        is_software_id(id) <==> 8 <= id <= 15,
        8 <= id < 15 ==> software_id_after(id) == id + 1,
        id == 15 ==> software_id_after(id) == 8,
{
}

/// What a report that comes in is to a request, byte by byte. It answers the request where it is from the device, and
/// has the feature and the byte of the function and the software ID behind that: the answer is what is behind those. It
/// fails the request where it has 0xff before those two: then the code of the error is behind them.
pub proof fn reports_belong_to_requests(response: Seq<u8>, device_index: u8, feature_index: u8, echo: u8)
    ensures
        ({
            let fails = response.len() >= 6 && response[1] == device_index && response[2] == 0xff && response[3]
                == feature_index && response[4] == echo;
            let answers = response.len() >= 4 && response[1] == device_index && response[2] == feature_index
                && response[3] == echo;
            match verdict(response, device_index, feature_index, echo) {
                Verdict::Failed(code) => fails && code == response[5],
                Verdict::Answered(parameters) => answers && !fails && parameters == response.subrange(
                    4,
                    response.len() as int,
                ),
                Verdict::Ignored => !fails && !answers,
            }
        }),
{
    if response.len() >= 4 {
        assert(response.skip(4) =~= response.subrange(4, response.len() as int));
    }
}

/// A device answers a request by sending back the start of its report with the answer behind it.
pub proof fn answer_repeats_the_start(request: Request, software_id: u8, response: Seq<u8>, reply: Seq<u8>)
    requires
        request.refusal() is None,
        request.feature_index != 0xff,
        8 <= software_id <= 15,
        response.len() == 4 + reply.len(),
        forall|i: int| 1 <= i < 4 ==> #[trigger] response[i] == request.report(software_id)[i],
        forall|i: int| 0 <= i < reply.len() ==> #[trigger] response[4 + i] == reply[i],
    ensures
        verdict(
            response,
            request.device_index,
            request.feature_index,
            echo_byte(request.function, software_id),
        ) == Verdict::Answered(reply),
{
    assert(response[1] == request.report(software_id)[1]);
    assert(response[2] == request.report(software_id)[2]);
    assert(response[3] == request.report(software_id)[3]);
    assert forall|i: int| 0 <= i < reply.len() implies response.skip(4)[i] == reply[i] by {
        assert(response[4 + i] == reply[i]);
    }
    assert(response.skip(4) =~= reply);
}

/// What the codes of errors are called.
pub proof fn errors_have_names(code: u8)
    ensures
        error_code_name(code) == (match code {
            0 => "NO_ERROR"@,
            1 => "UNKNOWN"@,
            2 => "INVALID_ARGUMENT"@,
            3 => "OUT_OF_RANGE"@,
            4 => "HARDWARE_ERROR"@,
            5 => "LOGITECH_INTERNAL"@,
            6 => "INVALID_FEATURE_INDEX"@,
            7 => "INVALID_FUNCTION"@,
            8 => "BUSY"@,
            9 => "UNSUPPORTED"@,
            _ => "UNKNOWN_ERROR"@,
        }),
{
}

/// The errors of an exchange tell what was asked of which device: a code of the device with its name, or how long was
/// waited for what report.
pub proof fn errors_tell_the_request(exchange: Exchange, code: u8)
    ensures
        exchange.failure(code) == (ErrorView::Protocol {
            device_index: exchange.request.device_index,
            feature_index: exchange.request.feature_index,
            function: exchange.request.function,
            code,
            name: error_code_name(code),
        }),
        exchange.timeout() == (ErrorView::Timeout {
            timeout_ms: exchange.timeout_ms,
            device_index: exchange.request.device_index,
            feature_index: exchange.request.feature_index,
            function: exchange.request.function,
            request: spaced_pairs(exchange.request.report(exchange.software_id)),
        }),
{
}

/// The time that is left of a wait, in whole milliseconds, is that of the exchange less what has gone by, and never less
/// than one. A time that is not positive counts as one millisecond.
pub proof fn time_goes_by(timeout_ms: i32, nanoseconds: int)
    requires
        0 <= nanoseconds,
    ensures
        ({
            let allowed: int = if timeout_ms < 1 {
                1
            } else {
                timeout_ms as int
            };
            let left = remaining_of(timeout_ms, nanoseconds);
            &&& allowed_nanoseconds(timeout_ms) == 1_000_000 * allowed
            &&& 1 <= left <= allowed
            &&& left > 1 ==> 1_000_000 * left <= 1_000_000 * allowed - nanoseconds < 1_000_000 * (left + 1)
            &&& left == 1 ==> 1_000_000 * allowed - nanoseconds < 2_000_000
        }),
{
}

/// Before a request goes out, reports that are left over are read, one millisecond each, until none comes, and at most 32
/// of them.
pub proof fn left_overs_are_read_first(exchange: Exchange, cut: int, i: int)
    requires
        exchange.splits(cut),
        0 <= i < cut,
    ensures
        1 <= cut <= 32,
        exchange.traffic[i] matches IoEvent::Read { timeout_ms, .. } && timeout_ms == 1,
        i < cut - 1 ==> (exchange.traffic[i] matches IoEvent::Read { received: Ok(report), .. } && report.len() > 0),
        i == cut - 1 && cut < 32 ==> !(exchange.traffic[i] matches IoEvent::Read { received: Ok(report), .. }
            && report.len() > 0),
{
    let reads = exchange.traffic.take(cut);
    assert(reads[i] == exchange.traffic[i]);
    assert(reads.last() == exchange.traffic[cut - 1]);
}

/// What is told of the traffic with a device: each report that goes out, and each that comes in behind it, with the index
/// of the device and its bytes. What is read before nothing has gone out is not told.
pub proof fn traffic_is_told(device_index: u8, traffic: Seq<IoEvent>, event: IoEvent)
    ensures
        traffic_lines(device_index, Seq::empty()) == Seq::<Seq<char>>::empty(),
        traffic_lines(device_index, traffic.push(event)) == (match event {
            IoEvent::Wrote { report, .. } => traffic_lines(device_index, traffic).push(
                "TX dev=0x"@ + hex2(device_index, false) + " "@ + spaced_pairs(report),
            ),
            IoEvent::Read { received: Ok(report), .. } => if report.len() > 0 && exists|i: int|
                0 <= i < traffic.len() && #[trigger] traffic[i] is Wrote {
                traffic_lines(device_index, traffic).push(
                    "RX dev=0x"@ + hex2(device_index, false) + " "@ + spaced_pairs(report),
                )
            } else {
                traffic_lines(device_index, traffic)
            },
            _ => traffic_lines(device_index, traffic),
        }),
{
    assert(traffic.push(event).drop_last() =~= traffic);
    sent_is_having_written(traffic);
    reveal_strlit("TX");
    reveal_strlit("RX");
    reveal_strlit("TX dev=0x");
    reveal_strlit("RX dev=0x");
    reveal_strlit(" dev=0x");
    assert("TX"@ + " dev=0x"@ =~= "TX dev=0x"@);
    assert("RX"@ + " dev=0x"@ =~= "RX dev=0x"@);
}

proof fn sent_is_having_written(traffic: Seq<IoEvent>)
    ensures
        sent(traffic) <==> exists|i: int| 0 <= i < traffic.len() && #[trigger] traffic[i] is Wrote,
    decreases traffic.len(),
{
    if traffic.len() > 0 {
        let front = traffic.drop_last();
        sent_is_having_written(front);
        if sent(front) {
            let i = choose|i: int| 0 <= i < front.len() && #[trigger] front[i] is Wrote;
            assert(traffic[i] is Wrote);
        }
        if traffic.last() is Wrote {
            assert(traffic[traffic.len() - 1] is Wrote);
        }
        if exists|i: int| 0 <= i < traffic.len() && #[trigger] traffic[i] is Wrote {
            let i = choose|i: int| 0 <= i < traffic.len() && #[trigger] traffic[i] is Wrote;
            if i < front.len() {
                assert(front[i] is Wrote);
            }
        }
    }
}

/// A version is told by its two numbers with a point between them.
pub proof fn version_has_a_point(version: ProtocolVersion)
    ensures
        version_text(version) == dec(version.major as nat) + "."@ + dec(version.minor as nat),
{
}

/// Bytes are written as pairs of capital hexadecimal digits with one space between each two.
pub proof fn pairs_have_spaces_between(bytes: Seq<u8>, byte: u8)
    ensures
        spaced_pairs(Seq::empty()) == Seq::<char>::empty(),
        spaced_pairs(seq![byte]) == hex2(byte, true),
        bytes.len() > 0 ==> spaced_pairs(bytes.push(byte)) == spaced_pairs(bytes) + " "@ + hex2(byte, true),
{
    let pair = |byte: u8| hex2(byte, true);
    assert(Seq::<u8>::empty().map_values(pair) =~= Seq::<Seq<char>>::empty());
    assert(seq![byte].map_values(pair) =~= seq![hex2(byte, true)]);
    assert(bytes.push(byte).map_values(pair) =~= bytes.map_values(pair).push(hex2(byte, true)));
    assert(bytes.map_values(pair).push(hex2(byte, true)).drop_last() =~= bytes.map_values(pair));
}

/// Whether a report came in within a millisecond.
pub open spec fn came_at_once(event: IoEvent) -> bool {
    event matches IoEvent::Read { timeout_ms, received } && timeout_ms == 1 && (received matches Ok(report)
        && report.len() > 0)
}

/// Reading what is left over is done after 32 reports, or after the first try of a millisecond that brings none, and not
/// before.
pub proof fn left_overs_are_read_to_the_end(reads: Seq<IoEvent>)
    ensures
        reads.len() == 32 && (forall|i: int| 0 <= i < 32 ==> came_at_once(#[trigger] reads[i])) ==> drained(reads),
        1 <= reads.len() <= 32 && (forall|i: int| 0 <= i < reads.len() - 1 ==> came_at_once(#[trigger] reads[i])) && (
        reads.last() matches IoEvent::Read { timeout_ms, .. } && timeout_ms == 1) && !came_at_once(reads.last())
            ==> drained(reads),
        reads.len() > 32 || reads.len() == 0 ==> !drained(reads),
        0 < reads.len() < 32 && came_at_once(reads.last()) ==> !drained(reads),
{
    if 1 <= reads.len() <= 32 && (forall|i: int| 0 <= i < reads.len() - 1 ==> came_at_once(#[trigger] reads[i])) && (
    reads.last() matches IoEvent::Read { timeout_ms, .. } && timeout_ms == 1) {
        assert forall|i: int| 0 <= i < reads.len() implies (#[trigger] reads[i] matches IoEvent::Read { timeout_ms, .. }
            && timeout_ms == 1) by {
            if i < reads.len() - 1 {
                assert(came_at_once(reads[i]));
            }
        }
        assert forall|i: int| 0 <= i < reads.len() - 1 implies brought(#[trigger] reads[i]) by {
            assert(came_at_once(reads[i]));
        }
    }
}

/// How a wait for a reply ends. Where the time is up, it is a timeout. Otherwise a read for the time that is left ends it:
/// with the error of the node, with a timeout where nothing came, with the error of the device, or with the answer. A
/// report that belongs to no request, or to another, does not end it.
pub proof fn waits_end(exchange: Exchange, before: u128, after: u128, timeout_ms: i32, received: Outcome<Seq<u8>>, rounds: nat)
    requires
        rounds > 0,
        timeout_ms == remaining_of(exchange.timeout_ms, after as int),
    ensures
        before >= allowed_nanoseconds(exchange.timeout_ms) ==> exchange.wait_of(
            seq![IoEvent::Looked { nanoseconds: before }],
            rounds,
        ) == Some(Outcome::<Seq<u8>>::Err(exchange.timeout())),
        before < allowed_nanoseconds(exchange.timeout_ms) ==> exchange.wait_of(
            seq![IoEvent::Looked { nanoseconds: before }],
            rounds,
        ) is None,
        before < allowed_nanoseconds(exchange.timeout_ms) ==> ({
            let ended = exchange.wait_of(
                seq![
                    IoEvent::Looked { nanoseconds: before },
                    IoEvent::Looked { nanoseconds: after },
                    IoEvent::Read { timeout_ms, received },
                ],
                rounds,
            );
            match received {
                Err(error) => ended == Some(Outcome::<Seq<u8>>::Err(error)),
                Ok(report) => if report.len() == 0 {
                    ended == Some(Outcome::<Seq<u8>>::Err(exchange.timeout()))
                } else {
                    match exchange.judge(report) {
                        Verdict::Answered(reply) => ended == Some(Outcome::Ok(reply)),
                        Verdict::Failed(code) => ended == Some(Outcome::<Seq<u8>>::Err(exchange.failure(code))),
                        Verdict::Ignored => ended == exchange.wait_of(Seq::empty(), (rounds - 1) as nat),
                    }
                },
            }
        }),
{
    let events = seq![
        IoEvent::Looked { nanoseconds: before },
        IoEvent::Looked { nanoseconds: after },
        IoEvent::Read { timeout_ms, received },
    ];
    assert(events.skip(3) =~= Seq::<IoEvent>::empty());
}

/// What a report is to an exchange follows from the device, the feature, the function and the software ID of its request.
pub proof fn exchange_judges_by_its_request(exchange: Exchange, response: Seq<u8>)
    requires
        exchange.request.function % 16 == 0,
        exchange.software_id < 16,
    ensures
        exchange.judge(response) == verdict(
            response,
            exchange.request.device_index,
            exchange.request.feature_index,
            (exchange.request.function + exchange.software_id) as u8,
        ),
{
    function_and_software_id_share_a_byte(exchange.request.function, exchange.software_id);
}

/// Where the node fails to send the report, or to read what is left over, that is what the exchange comes to.
pub proof fn failing_node_ends_the_exchange(exchange: Exchange, cut: int, error: ErrorView)
    requires
        exchange.splits(cut),
    ensures
        (exchange.traffic[cut - 1] matches IoEvent::Read { received: Err(told), .. } && told == error)
            ==> exchange.reply == Outcome::<Seq<u8>>::Err(error) && exchange.traffic.len() == cut,
        cut < exchange.traffic.len() && (exchange.traffic[cut] matches IoEvent::Wrote { written: Err(told), .. } && told
            == error) ==> exchange.reply == Outcome::<Seq<u8>>::Err(error) && exchange.traffic.len() == cut + 1,
        cut < exchange.traffic.len() ==> (exchange.traffic[cut] matches IoEvent::Wrote { report, .. } && report
            == exchange.request.report(exchange.software_id)),
        !exchange.awaits_reply && cut < exchange.traffic.len() && (exchange.traffic[cut] matches IoEvent::Wrote {
            written: Ok(_),
            ..
        }) ==> exchange.reply == Outcome::Ok(Seq::<u8>::empty()),
{
}

/// A request that is put again is told of before its traffic, with the device, the feature and the function.
pub proof fn repetition_is_told(exchange: Exchange)
    ensures
        !exchange.retry ==> exchange.lines() == traffic_lines(exchange.request.device_index, exchange.traffic),
        exchange.retry ==> exchange.lines() == seq![
            "RETRY dev=0x"@ + hex2(exchange.request.device_index, false) + " feature=0x"@ + hex2(
                exchange.request.feature_index,
                false,
            ) + (" function=0x"@ + hex2(exchange.request.function, false)),
        ] + traffic_lines(exchange.request.device_index, exchange.traffic),
{
    assert(Seq::<Seq<char>>::empty() + traffic_lines(exchange.request.device_index, exchange.traffic)
        =~= traffic_lines(exchange.request.device_index, exchange.traffic));
}

/// A request that can be sent leaves the next software ID to the one behind it; one that is refused takes none.
pub proof fn requests_take_software_ids(exchange: Exchange)
    requires
        8 <= exchange.software_id <= 15,
    ensures
        exchange.request.refusal() is Some ==> exchange.next_id() == exchange.software_id,
        exchange.request.refusal() is None ==> exchange.next_id() == (if exchange.software_id == 15 {
            8int
        } else {
            exchange.software_id + 1
        }),
{
}

}
