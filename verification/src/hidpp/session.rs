//! What passes between the host and a device, as the contracts of the crate speak of it.

use vstd::prelude::*;

use crate::error::{ErrorView, Outcome};
use crate::hid::transport::IoEvent;
use crate::hidpp::protocol::{
    echo_byte, error_code_name, is_software_id, report_bytes, report_id_of, request_refusal, software_id_after,
    spaced_pairs, ProtocolVersion,
};
use crate::text::hex2;

verus! {

/// What the host asks of a device.
pub struct Request {
    pub device_index: u8,
    pub feature_index: u8,
    pub function: u8,
    pub parameters: Seq<u8>,
    pub long: bool,
}

impl Request {
    /// The report that carries the request under a software ID.
    pub open spec fn report(self, software_id: u8) -> Seq<u8> {
        report_bytes(
            report_id_of(self.long),
            self.device_index,
            self.feature_index,
            echo_byte(self.function, software_id),
            self.parameters,
        )
    }

    /// Why the request cannot be sent, if it cannot.
    pub open spec fn refusal(self) -> Option<ErrorView> {
        request_refusal(self.function, self.parameters.len(), self.long)
    }
}

/// What a received report is to a waiting request.
pub enum Verdict {
    Ignored,
    Answered(Seq<u8>),
    Failed(u8),
}

/// What a received report is to a request: an answer or an error report that repeats the request's feature
/// index and echo byte, or nothing to it.
pub open spec fn verdict(response: Seq<u8>, device_index: u8, feature_index: u8, echo: u8) -> Verdict {
    if response.len() < 4 || response[1] != device_index {
        Verdict::Ignored
    } else if response[2] == 0xff && response.len() >= 6 && response[3] == feature_index && response[4] == echo {
        Verdict::Failed(response[5])
    } else if response[2] == feature_index && response[3] == echo {
        Verdict::Answered(response.skip(4))
    } else {
        Verdict::Ignored
    }
}

/// One request with everything that came of it.
pub struct Exchange {
    pub request: Request,
    /// Whether the host waited for a reply.
    pub awaits_reply: bool,
    /// Whether the exchange repeats one that timed out.
    pub retry: bool,
    pub software_id: u8,
    pub timeout_ms: i32,
    /// Every call of the HID node that the exchange made, in order.
    pub traffic: Seq<IoEvent>,
    pub reply: Outcome<Seq<u8>>,
}

/// Whether an event is a read that brought a report.
pub open spec fn brought(event: IoEvent) -> bool {
    event matches IoEvent::Read { received: Ok(report), .. } && report.len() > 0
}

/// Whether `reads` empty the input: reads that wait one millisecond each, until one brings nothing or
/// fails, and no more than 32 of them.
pub open spec fn drained(reads: Seq<IoEvent>) -> bool {
    &&& 1 <= reads.len() <= 32
    &&& forall|i: int|
        0 <= i < reads.len() ==> (#[trigger] reads[i] matches IoEvent::Read { timeout_ms, .. } && timeout_ms == 1)
    &&& forall|i: int| 0 <= i < reads.len() - 1 ==> brought(#[trigger] reads[i])
    &&& reads.len() == 32 || !brought(reads.last())
}

/// How a read failed, if it did.
pub open spec fn read_failure(event: IoEvent) -> Option<ErrorView> {
    match event {
        IoEvent::Read { received: Err(error), .. } => Some(error),
        _ => None,
    }
}

/// How the node failed in an event, if it did.
pub open spec fn io_failure(event: IoEvent) -> Option<ErrorView> {
    match event {
        IoEvent::Wrote { written: Err(error), .. } => Some(error),
        IoEvent::Read { received: Err(error), .. } => Some(error),
        _ => None,
    }
}

/// More reports than anyone waits for.
pub const MOST_REPORTS: u64 = 0xffff_ffff_ffff_ffff;

/// How many milliseconds an exchange may take: at least one.
pub open spec fn allowed_milliseconds(timeout_ms: i32) -> int {
    if timeout_ms > 1 {
        timeout_ms as int
    } else {
        1
    }
}

/// How many nanoseconds an exchange may take.
pub open spec fn allowed_nanoseconds(timeout_ms: i32) -> int {
    allowed_milliseconds(timeout_ms) * 1_000_000
}

/// How long to wait for the next report, in whole milliseconds and never less than one, when so many nanoseconds have
/// passed.
pub open spec fn remaining_of(timeout_ms: i32, nanoseconds: int) -> int {
    let left = (allowed_nanoseconds(timeout_ms) - nanoseconds) / 1_000_000;
    if left < 1 {
        1
    } else {
        left
    }
}

impl Exchange {
    /// What a received report is to this exchange.
    pub open spec fn judge(self, response: Seq<u8>) -> Verdict {
        verdict(
            response,
            self.request.device_index,
            self.request.feature_index,
            echo_byte(self.request.function, self.software_id),
        )
    }

    /// The error of an exchange that got no reply in time.
    pub open spec fn timeout(self) -> ErrorView {
        ErrorView::Timeout {
            timeout_ms: self.timeout_ms,
            device_index: self.request.device_index,
            feature_index: self.request.feature_index,
            function: self.request.function,
            request: spaced_pairs(self.request.report(self.software_id)),
        }
    }

    /// The error of an exchange that the device answered with an error code.
    pub open spec fn failure(self, code: u8) -> ErrorView {
        ErrorView::Protocol {
            device_index: self.request.device_index,
            feature_index: self.request.feature_index,
            function: self.request.function,
            code,
            name: error_code_name(code),
        }
    }

    /// Whether three events are a look at the clock that left time, another one, and a report that came within the time
    /// left by then and has nothing to do with the exchange.
    pub open spec fn passed_over(self, first: IoEvent, second: IoEvent, third: IoEvent) -> bool {
        match (first, second, third) {
            (
                IoEvent::Looked { nanoseconds: before },
                IoEvent::Looked { nanoseconds: after },
                IoEvent::Read { timeout_ms, received: Ok(report) },
            ) => {
                &&& before < allowed_nanoseconds(self.timeout_ms)
                &&& timeout_ms == remaining_of(self.timeout_ms, after as int)
                &&& report.len() > 0
                &&& self.judge(report) is Ignored
            },
            _ => false,
        }
    }

    /// What a report that was waited for comes to, where it ends the wait.
    pub open spec fn concluded(self, received: Outcome<Seq<u8>>) -> Option<Outcome<Seq<u8>>> {
        match received {
            Err(error) => Some(Err(error)),
            Ok(report) => if report.len() == 0 {
                Some(Err(self.timeout()))
            } else {
                match self.judge(report) {
                    Verdict::Ignored => None,
                    Verdict::Answered(parameters) => Some(Ok(parameters)),
                    Verdict::Failed(code) => Some(Err(self.failure(code))),
                }
            },
        }
    }

    /// What a wait for the reply comes to, if the events are one. While the clock leaves time, it is looked at once more
    /// and a report is waited for as long as there is time; the first that is not passed over decides. Where the time is
    /// up, there was no reply. No more than so many reports are passed over.
    pub open spec fn wait_of(self, events: Seq<IoEvent>, rounds: nat) -> Option<Outcome<Seq<u8>>>
        decreases rounds,
    {
        if rounds == 0 {
            if events.len() == 0 {
                Some(Err(self.timeout()))
            } else {
                None
            }
        } else if events.len() == 1 {
            match events[0] {
                IoEvent::Looked { nanoseconds } if nanoseconds >= allowed_nanoseconds(self.timeout_ms) => Some(
                    Err(self.timeout()),
                ),
                _ => None,
            }
        } else if events.len() < 3 {
            None
        } else if self.passed_over(events[0], events[1], events[2]) {
            self.wait_of(events.skip(3), (rounds - 1) as nat)
        } else if events.len() > 3 {
            None
        } else {
            match (events[0], events[1], events[2]) {
                (
                    IoEvent::Looked { nanoseconds: before },
                    IoEvent::Looked { nanoseconds: after },
                    IoEvent::Read { timeout_ms, received },
                ) => if before < allowed_nanoseconds(self.timeout_ms) && timeout_ms == remaining_of(
                    self.timeout_ms,
                    after as int,
                ) {
                    self.concluded(received)
                } else {
                    None
                },
                _ => None,
            }
        }
    }

    /// Whether events are nothing but reports that were passed over.
    pub open spec fn all_passed_over(self, events: Seq<IoEvent>) -> bool {
        &&& events.len() % 3 == 0
        &&& forall|k: int|
            #![trigger events[3 * k]]
            0 <= k < events.len() / 3 ==> self.passed_over(events[3 * k], events[3 * k + 1], events[3 * k + 2])
    }

    /// Whether the traffic splits at `cut` into emptying the input, sending the request once, and waiting.
    pub open spec fn splits(self, cut: int) -> bool {
        &&& 0 < cut <= self.traffic.len()
        &&& drained(self.traffic.take(cut))
        &&& match read_failure(self.traffic[cut - 1]) {
            Some(error) => self.traffic.len() == cut && self.reply == Outcome::<Seq<u8>>::Err(error),
            None => {
                &&& cut < self.traffic.len()
                &&& match self.traffic[cut] {
                    IoEvent::Wrote { report, written } => {
                        &&& report == self.request.report(self.software_id)
                        &&& match written {
                            Err(error) => self.traffic.len() == cut + 1 && self.reply == Outcome::<Seq<u8>>::Err(error),
                            Ok(_) => if self.awaits_reply {
                                &&& cut + 1 < self.traffic.len()
                                &&& self.traffic[cut + 1] is Started
                                &&& self.wait_of(self.traffic.skip(cut + 2), MOST_REPORTS as nat) == Some(self.reply)
                            } else {
                                self.traffic.len() == cut + 1 && self.reply == Outcome::Ok(Seq::<u8>::empty())
                            },
                        }
                    },
                    _ => false,
                }
            },
        }
    }

    /// Whether the exchange went as the protocol has it: a request that cannot be sent touches nothing;
    /// otherwise the input is emptied, the request goes out once, under a software ID, and the reply is awaited.
    pub open spec fn conducted(self) -> bool {
        &&& is_software_id(self.software_id)
        &&& match self.request.refusal() {
            Some(error) => self.traffic.len() == 0 && self.reply == Outcome::<Seq<u8>>::Err(error),
            None => exists|cut: int| self.splits(cut),
        }
    }

    /// The software ID of the request after this one: the next one, unless this request took none.
    pub open spec fn next_id(self) -> u8 {
        if self.request.refusal() is Some {
            self.software_id
        } else {
            software_id_after(self.software_id)
        }
    }

    /// The lines that tell of the exchange to someone who watches.
    pub open spec fn lines(self) -> Seq<Seq<char>> {
        (if self.retry {
            seq![
                "RETRY dev=0x"@ + hex2(self.request.device_index, false) + " feature=0x"@ + hex2(
                    self.request.feature_index,
                    false,
                ) + (" function=0x"@ + hex2(self.request.function, false)),
            ]
        } else {
            Seq::empty()
        }) + traffic_lines(self.request.device_index, self.traffic)
    }
}

/// The line that shows one report on its way out or in.
pub open spec fn report_line(direction: Seq<char>, device_index: u8, report: Seq<u8>) -> Seq<char> {
    direction + " dev=0x"@ + hex2(device_index, false) + " "@ + spaced_pairs(report)
}

/// Whether a report has gone out.
pub open spec fn sent(traffic: Seq<IoEvent>) -> bool
    decreases traffic.len(),
{
    traffic.len() > 0 && (traffic.last() is Wrote || sent(traffic.drop_last()))
}

/// The lines that show the reports of an exchange: the request, and what came in after it.
pub open spec fn traffic_lines(device_index: u8, traffic: Seq<IoEvent>) -> Seq<Seq<char>>
    decreases traffic.len(),
{
    if traffic.len() == 0 {
        Seq::empty()
    } else {
        let before = traffic_lines(device_index, traffic.drop_last());
        match traffic.last() {
            IoEvent::Wrote { report, .. } => before.push(report_line("TX"@, device_index, report)),
            IoEvent::Read { received: Ok(report), .. } => if sent(traffic.drop_last()) && report.len() > 0 {
                before.push(report_line("RX"@, device_index, report))
            } else {
                before
            },
            _ => before,
        }
    }
}

/// Before anything is sent there is nothing to show.
pub proof fn unsent_shows_nothing(device_index: u8, traffic: Seq<IoEvent>)
    requires
        forall|i: int| 0 <= i < traffic.len() ==> #[trigger] traffic[i] is Read,
    ensures
        !sent(traffic),
        traffic_lines(device_index, traffic) == Seq::<Seq<char>>::empty(),
    decreases traffic.len(),
{
    if traffic.len() > 0 {
        assert(traffic.last() is Read);
        unsent_shows_nothing(device_index, traffic.drop_last());
    }
}

/// The clock is not worth a line.
pub proof fn clock_shows_nothing(device_index: u8, traffic: Seq<IoEvent>, event: IoEvent)
    requires
        event is Started || event is Looked,
    ensures
        sent(traffic.push(event)) == sent(traffic),
        traffic_lines(device_index, traffic.push(event)) == traffic_lines(device_index, traffic),
{
    assert(traffic.push(event).drop_last() =~= traffic);
}

/// After reports that were passed over, a wait goes on as if it began there.
pub proof fn wait_goes_on(exchange: Exchange, seen: Seq<IoEvent>, rest: Seq<IoEvent>, rounds: nat)
    requires
        exchange.all_passed_over(seen),
        seen.len() / 3 <= rounds,
    ensures
        exchange.wait_of(seen + rest, rounds) == exchange.wait_of(rest, (rounds - seen.len() / 3) as nat),
    decreases seen.len(),
{
    if seen.len() == 0 {
        assert(seen + rest =~= rest);
    } else {
        let later = seen.skip(3);
        let all = seen + rest;
        let first: int = 0;
        assert(exchange.passed_over(seen[3 * first], seen[3 * first + 1], seen[3 * first + 2]));
        assert(all[0] == seen[0] && all[1] == seen[1] && all[2] == seen[2]);
        assert(all.skip(3) =~= later + rest);
        assert forall|k: int| #![trigger later[3 * k]] 0 <= k < later.len() / 3 implies exchange.passed_over(
            later[3 * k],
            later[3 * k + 1],
            later[3 * k + 2],
        ) by {
            assert(later[3 * k] == seen[3 * (k + 1)]);
        }
        wait_goes_on(exchange, later, rest, (rounds - 1) as nat);
    }
}

/// What a wait comes to depends on the request and the time it has, and on nothing else of an exchange.
pub proof fn wait_is_of_request(first: Exchange, second: Exchange, events: Seq<IoEvent>, rounds: nat)
    requires
        first.request == second.request,
        first.software_id == second.software_id,
        first.timeout_ms == second.timeout_ms,
    ensures
        first.wait_of(events, rounds) == second.wait_of(events, rounds),
    decreases rounds,
{
    if rounds > 0 {
        wait_is_of_request(first, second, events.skip(3), (rounds - 1) as nat);
    }
}

/// One more report that is passed over.
pub proof fn one_more_passed_over(exchange: Exchange, seen: Seq<IoEvent>, first: IoEvent, second: IoEvent, third: IoEvent)
    requires
        exchange.all_passed_over(seen),
        exchange.passed_over(first, second, third),
    ensures
        exchange.all_passed_over(seen.push(first).push(second).push(third)),
{
    let all = seen.push(first).push(second).push(third);
    assert forall|k: int| #![trigger all[3 * k]] 0 <= k < all.len() / 3 implies exchange.passed_over(
        all[3 * k],
        all[3 * k + 1],
        all[3 * k + 2],
    ) by {
        if k < seen.len() / 3 {
            assert(all[3 * k] == seen[3 * k]);
        }
    }
}

proof fn wait_sends_nothing(exchange: Exchange, events: Seq<IoEvent>, rounds: nat)
    requires
        exchange.wait_of(events, rounds) is Some,
    ensures
        forall|i: int| 0 <= i < events.len() ==> !(#[trigger] events[i] is Wrote),
    decreases rounds,
{
    if rounds > 0 && events.len() >= 3 && exchange.passed_over(events[0], events[1], events[2]) {
        let later = events.skip(3);
        wait_sends_nothing(exchange, later, (rounds - 1) as nat);
        assert forall|i: int| 0 <= i < events.len() implies !(#[trigger] events[i] is Wrote) by {
            if i >= 3 {
                assert(later[i - 3] == events[i]);
            }
        }
    }
}

proof fn wait_ends_with_answer(exchange: Exchange, events: Seq<IoEvent>, rounds: nat)
    requires
        exchange.wait_of(events, rounds) matches Some(Ok(_)),
    ensures
        events.len() > 0,
        events.last() matches IoEvent::Read { received: Ok(report), .. } && exchange.judge(report) == Verdict::Answered(
            exchange.wait_of(events, rounds)->0->Ok_0,
        ),
    decreases rounds,
{
    if rounds > 0 && events.len() >= 3 && exchange.passed_over(events[0], events[1], events[2]) {
        let later = events.skip(3);
        wait_ends_with_answer(exchange, later, (rounds - 1) as nat);
        assert(later.last() == events.last());
    }
}

/// Where the node never fails, a wait that fails does so by an error of the device or because the time is up.
pub proof fn wait_fails_by_device_or_time(exchange: Exchange, events: Seq<IoEvent>, rounds: nat)
    requires
        exchange.wait_of(events, rounds) is Some,
        forall|i: int| 0 <= i < events.len() ==> io_failure(#[trigger] events[i]) is None,
    ensures
        exchange.wait_of(events, rounds) matches Some(Err(error)) ==> error == exchange.timeout() || exists|code: u8|
            error == #[trigger] exchange.failure(code),
    decreases rounds,
{
    if rounds > 0 && events.len() >= 3 {
        assert(io_failure(events[2]) is None);
        if exchange.passed_over(events[0], events[1], events[2]) {
            let later = events.skip(3);
            assert forall|i: int| 0 <= i < later.len() implies io_failure(#[trigger] later[i]) is None by {
                assert(later[i] == events[i + 3]);
            }
            wait_fails_by_device_or_time(exchange, later, (rounds - 1) as nat);
        }
    }
}

/// A request goes out at most once in an exchange, and nothing else does.
pub proof fn sent_at_most_once(exchange: Exchange, i: int, j: int)
    requires
        exchange.conducted(),
        0 <= i < exchange.traffic.len(),
        exchange.traffic[i] is Wrote,
        0 <= j < exchange.traffic.len(),
        exchange.traffic[j] is Wrote,
    ensures
        i == j,
        exchange.request.refusal() is None,
        exchange.traffic[i]->report == exchange.request.report(exchange.software_id),
{
    let cut = choose|cut: int| exchange.splits(cut);
    assert forall|k: int| 0 <= k < exchange.traffic.len() && exchange.traffic[k] is Wrote implies k == cut by {
        if k < cut {
            assert(exchange.traffic.take(cut)[k] == exchange.traffic[k]);
        } else if k > cut + 1 {
            let later = exchange.traffic.skip(cut + 2);
            wait_sends_nothing(exchange, later, MOST_REPORTS as nat);
            assert(later[k - cut - 2] == exchange.traffic[k]);
        }
    }
}

/// An answer is what came in under the request's own address and echo byte, and nothing else.
pub proof fn answer_was_received(exchange: Exchange)
    requires
        exchange.conducted(),
        exchange.awaits_reply,
        exchange.reply is Ok,
    ensures
        exchange.traffic.len() > 0,
        exchange.traffic.last() matches IoEvent::Read { received: Ok(report), .. } && exchange.judge(report)
            == Verdict::Answered(exchange.reply->Ok_0),
{
    let cut = choose|cut: int| exchange.splits(cut);
    let later = exchange.traffic.skip(cut + 2);
    wait_ends_with_answer(exchange, later, MOST_REPORTS as nat);
    assert(later.last() == exchange.traffic.last());
}

/// An answer that comes in while there is time is taken: where the request went out and the first report that is not
/// passed over answers it, the exchange has that answer.
pub proof fn answer_in_time_is_taken(
    exchange: Exchange,
    cut: int,
    seen: Seq<IoEvent>,
    before: u128,
    after: u128,
    report: Seq<u8>,
    parameters: Seq<u8>,
)
    requires
        exchange.awaits_reply,
        exchange.request.refusal() is None,
        exchange.splits(cut),
        cut + 1 < exchange.traffic.len(),
        exchange.all_passed_over(seen),
        seen.len() / 3 < MOST_REPORTS,
        before < allowed_nanoseconds(exchange.timeout_ms),
        exchange.traffic.skip(cut + 2) == seen + seq![
            IoEvent::Looked { nanoseconds: before },
            IoEvent::Looked { nanoseconds: after },
            IoEvent::Read {
                timeout_ms: remaining_of(exchange.timeout_ms, after as int) as i32,
                received: Ok(report),
            },
        ],
        exchange.judge(report) == Verdict::Answered(parameters),
        report.len() > 0,
    ensures
        exchange.reply == Outcome::<Seq<u8>>::Ok(parameters),
{
    let rest = seq![
        IoEvent::Looked { nanoseconds: before },
        IoEvent::Looked { nanoseconds: after },
        IoEvent::Read {
            timeout_ms: remaining_of(exchange.timeout_ms, after as int) as i32,
            received: Outcome::<Seq<u8>>::Ok(report),
        },
    ];
    wait_goes_on(exchange, seen, rest, MOST_REPORTS as nat);
}

/// The lines that tell of several exchanges.
pub open spec fn lines_of(exchanges: Seq<Exchange>) -> Seq<Seq<char>>
    decreases exchanges.len(),
{
    if exchanges.len() == 0 {
        Seq::empty()
    } else {
        lines_of(exchanges.drop_last()) + exchanges.last().lines()
    }
}

/// What was done with the node in several exchanges.
pub open spec fn traffic_of(exchanges: Seq<Exchange>) -> Seq<IoEvent>
    decreases exchanges.len(),
{
    if exchanges.len() == 0 {
        Seq::empty()
    } else {
        traffic_of(exchanges.drop_last()) + exchanges.last().traffic
    }
}

/// The state of a transport.
pub struct Session {
    pub device_index: u8,
    pub timeout_ms: i32,
    pub trace: bool,
    /// The software ID of the next request.
    pub software_id: u8,
    /// Every exchange so far.
    pub exchanges: Seq<Exchange>,
    /// Everything that was done with the node so far.
    pub events: Seq<IoEvent>,
    /// The lines that nobody has taken yet.
    pub lines: Seq<Seq<char>>,
}

impl Session {
    /// How many exchanges there have been.
    pub open spec fn mark(self) -> int {
        self.exchanges.len() as int
    }
}

/// The software ID that is due at a place of a record that goes on from a session.
pub open spec fn id_due(session: Session, exchanges: Seq<Exchange>, at: int) -> u8 {
    if at <= session.mark() {
        session.software_id
    } else {
        exchanges[at - 1].next_id()
    }
}

/// Whether the exchanges of `after` that `before` has not were under the software IDs that were due, and the next one
/// is the one that is due.
spec fn ids_in_turn(before: Session, after: Session) -> bool {
    &&& forall|i: int|
        before.mark() <= i < after.mark() ==> (#[trigger] after.exchanges[i]).software_id == id_due(
            before,
            after.exchanges,
            i,
        )
    &&& after.software_id == id_due(before, after.exchanges, after.mark())
}

/// Whether `after` is `before` with more exchanges, each conducted as the protocol has it, under the software ID that
/// was due, and told of where the session is traced, and nothing but their traffic was done with the node.
pub closed spec fn grown(before: Session, after: Session) -> bool {
    &&& after.device_index == before.device_index
    &&& after.timeout_ms == before.timeout_ms
    &&& after.trace == before.trace
    &&& before.exchanges.is_prefix_of(after.exchanges)
    &&& forall|i: int| before.exchanges.len() <= i < after.exchanges.len() ==> (#[trigger] after.exchanges[i]).conducted()
    &&& ids_in_turn(before, after)
    &&& after.events == before.events + traffic_of(after.exchanges.skip(before.exchanges.len() as int))
    &&& after.lines == if before.trace {
        before.lines + lines_of(after.exchanges.skip(before.exchanges.len() as int))
    } else {
        before.lines
    }
}

/// What `grown` stands for.
pub proof fn grown_means(before: Session, after: Session)
    requires
        grown(before, after),
    ensures
        after.device_index == before.device_index,
        after.timeout_ms == before.timeout_ms,
        after.trace == before.trace,
        before.exchanges.is_prefix_of(after.exchanges),
        forall|i: int|
            before.exchanges.len() <= i < after.exchanges.len() ==> (#[trigger] after.exchanges[i]).conducted(),
        forall|i: int|
            before.mark() <= i < after.mark() ==> (#[trigger] after.exchanges[i]).software_id == id_due(
                before,
                after.exchanges,
                i,
            ),
        after.software_id == id_due(before, after.exchanges, after.mark()),
        after.events == before.events + traffic_of(after.exchanges.skip(before.exchanges.len() as int)),
        after.lines == if before.trace {
            before.lines + lines_of(after.exchanges.skip(before.exchanges.len() as int))
        } else {
            before.lines
        },
{
}

proof fn lines_of_append(first: Seq<Exchange>, second: Seq<Exchange>)
    ensures
        lines_of(first + second) == lines_of(first) + lines_of(second),
    decreases second.len(),
{
    if second.len() == 0 {
        assert(first + second =~= first);
        assert(lines_of(first) + lines_of(second) =~= lines_of(first));
    } else {
        lines_of_append(first, second.drop_last());
        assert((first + second).drop_last() =~= first + second.drop_last());
        assert((first + second).last() == second.last());
        assert(lines_of(first) + lines_of(second.drop_last()) + second.last().lines() =~= lines_of(first) + (lines_of(
            second.drop_last(),
        ) + second.last().lines()));
    }
}

proof fn traffic_of_append(first: Seq<Exchange>, second: Seq<Exchange>)
    ensures
        traffic_of(first + second) == traffic_of(first) + traffic_of(second),
    decreases second.len(),
{
    if second.len() == 0 {
        assert(first + second =~= first);
        assert(traffic_of(first) + traffic_of(second) =~= traffic_of(first));
    } else {
        traffic_of_append(first, second.drop_last());
        assert((first + second).drop_last() =~= first + second.drop_last());
        assert((first + second).last() == second.last());
        assert(traffic_of(first) + traffic_of(second.drop_last()) + second.last().traffic =~= traffic_of(first) + (
        traffic_of(second.drop_last()) + second.last().traffic));
    }
}

/// A session is grown from itself.
pub broadcast proof fn grown_from_itself(session: Session)
    ensures
        #[trigger] grown(session, session),
{
    assert(session.exchanges.skip(session.exchanges.len() as int) =~= Seq::empty());
    assert(session.lines + lines_of(Seq::empty()) =~= session.lines);
    assert(session.events + traffic_of(Seq::empty()) =~= session.events);
}

proof fn ids_go_on(first: Session, second: Session, third: Session)
    requires
        first.exchanges.is_prefix_of(second.exchanges),
        second.exchanges.is_prefix_of(third.exchanges),
        ids_in_turn(first, second),
        ids_in_turn(second, third),
    ensures
        ids_in_turn(first, third),
{
    let a = first.mark();
    let b = second.mark();
    assert forall|i: int| a <= i < third.mark() implies (#[trigger] third.exchanges[i]).software_id == id_due(
        first,
        third.exchanges,
        i,
    ) by {
        if i < b {
            assert(third.exchanges[i] == second.exchanges[i]);
        }
        if a < i <= b {
            assert(third.exchanges[i - 1] == second.exchanges[i - 1]);
        }
    }
    if a < b {
        assert(third.exchanges[b - 1] == second.exchanges[b - 1]);
    }
}

proof fn tale_goes_on(first: Seq<Exchange>, second: Seq<Exchange>, third: Seq<Exchange>)
    requires
        first.is_prefix_of(second),
        second.is_prefix_of(third),
    ensures
        lines_of(third.skip(first.len() as int)) == lines_of(second.skip(first.len() as int)) + lines_of(
            third.skip(second.len() as int),
        ),
        traffic_of(third.skip(first.len() as int)) == traffic_of(second.skip(first.len() as int)) + traffic_of(
            third.skip(second.len() as int),
        ),
{
    let early = second.skip(first.len() as int);
    let late = third.skip(second.len() as int);
    lines_of_append(early, late);
    traffic_of_append(early, late);
    assert(third.skip(first.len() as int) =~= early + late);
}

proof fn all_conducted_goes_on(first: Seq<Exchange>, second: Seq<Exchange>, third: Seq<Exchange>)
    requires
        second.is_prefix_of(third),
        forall|i: int| first.len() <= i < second.len() ==> (#[trigger] second[i]).conducted(),
        forall|i: int| second.len() <= i < third.len() ==> (#[trigger] third[i]).conducted(),
    ensures
        forall|i: int| first.len() <= i < third.len() ==> (#[trigger] third[i]).conducted(),
{
    assert forall|i: int| first.len() <= i < third.len() implies (#[trigger] third[i]).conducted() by {
        if i < second.len() {
            assert(third[i] == second[i]);
        }
    }
}

/// Growing on and on is growing.
pub broadcast proof fn grown_further(first: Session, second: Session, third: Session)
    requires
        #[trigger] grown(first, second),
        #[trigger] grown(second, third),
    ensures
        grown(first, third),
{
    let early = second.exchanges.skip(first.mark());
    let late = third.exchanges.skip(second.mark());
    all_conducted_goes_on(first.exchanges, second.exchanges, third.exchanges);
    ids_go_on(first, second, third);
    tale_goes_on(first.exchanges, second.exchanges, third.exchanges);
    assert(first.events + traffic_of(early) + traffic_of(late) =~= first.events + (traffic_of(early) + traffic_of(late)));
    assert(first.lines + lines_of(early) + lines_of(late) =~= first.lines + (lines_of(early) + lines_of(late)));
}

/// A record of exchanges with one device, as far as it goes.
pub struct Wire {
    pub device_index: u8,
    pub exchanges: Seq<Exchange>,
}

impl Wire {
    /// Whether the record starts with everything that a session has seen.
    pub closed spec fn covers(self, session: Session) -> bool {
        self.device_index == session.device_index && session.exchanges.is_prefix_of(self.exchanges)
    }
}

/// An exchange that came with growth was under a software ID, the one that was due.
pub proof fn growth_is_under_software_ids(before: Session, after: Session, at: int)
    requires
        grown(before, after),
        before.mark() <= at < after.mark(),
    ensures
        is_software_id(after.exchanges[at].software_id),
        after.exchanges[at].software_id == id_due(before, after.exchanges, at),
{
    assert(after.exchanges[at].conducted());
}

/// Growth leaves the software ID that is due next.
pub proof fn growth_leaves_due_id(before: Session, after: Session)
    requires
        grown(before, after),
    ensures
        after.software_id == id_due(before, after.exchanges, after.mark()),
{
}

/// One more exchange, conducted as the protocol has it and told of where the session is traced, is growth,
/// and a record that covers it has the exchange at its place.
pub proof fn grown_by_one(before: Session, after: Session)
    requires
        after.device_index == before.device_index,
        after.timeout_ms == before.timeout_ms,
        after.trace == before.trace,
        after.exchanges == before.exchanges.push(after.exchanges.last()),
        after.exchanges.last().conducted(),
        after.exchanges.last().software_id == before.software_id,
        after.software_id == after.exchanges.last().next_id(),
        after.events == before.events + after.exchanges.last().traffic,
        after.lines == if before.trace {
            before.lines + after.exchanges.last().lines()
        } else {
            before.lines
        },
    ensures
        grown(before, after),
        forall|wire: Wire|
            #[trigger] wire.covers(after) ==> wire.exchanges.len() > before.mark() && wire.device_index
                == after.device_index && wire.exchanges[before.mark()] == after.exchanges.last(),
{
    let fresh = after.exchanges.skip(before.exchanges.len() as int);
    assert(fresh =~= seq![after.exchanges.last()]);
    assert(lines_of(fresh.drop_last()) =~= Seq::empty());
    assert(lines_of(fresh) =~= after.exchanges.last().lines());
    assert(traffic_of(fresh.drop_last()) =~= Seq::empty());
    assert(traffic_of(fresh) =~= after.exchanges.last().traffic);
    assert forall|wire: Wire| #[trigger] wire.covers(after) implies wire.exchanges.len() > before.mark()
        && wire.exchanges[before.mark()] == after.exchanges.last() by {
        assert(wire.exchanges[before.mark()] == after.exchanges[before.mark()]);
    }
}

/// A record that covers a session covers what the session grew from.
pub broadcast proof fn covers_earlier(wire: Wire, before: Session, after: Session)
    requires
        #[trigger] wire.covers(after),
        #[trigger] grown(before, after),
    ensures
        wire.covers(before),
{
}

/// A record that covers a session is one of exchanges with the same device.
pub broadcast proof fn covers_same_device(wire: Wire, session: Session)
    requires
        #[trigger] wire.covers(session),
    ensures
        wire.device_index == session.device_index,
{
}

/// A session that grew is still one with the same device.
pub broadcast proof fn grown_same_device(before: Session, after: Session)
    requires
        #[trigger] grown(before, after),
    ensures
        after.device_index == before.device_index,
{
}

/// A session that turns to another device.
pub open spec fn turned_to(session: Session, device_index: u8) -> Session {
    Session { device_index, ..session }
}

/// Growth does not depend on which device a session is turned to.
pub proof fn grown_when_turned(before: Session, after: Session, device_index: u8)
    requires
        grown(before, after),
    ensures
        grown(turned_to(before, device_index), turned_to(after, device_index)),
{
}

/// A record whose exchanges start with those of a session covers the session.
pub proof fn prefix_covers(wire: Wire, session: Session)
    requires
        wire.device_index == session.device_index,
        session.exchanges.is_prefix_of(wire.exchanges),
    ensures
        wire.covers(session),
{
}

/// The record of a session.
pub open spec fn record(session: Session) -> Wire {
    Wire { device_index: session.device_index, exchanges: session.exchanges }
}

/// The record of a session covers it.
pub broadcast proof fn record_covers(session: Session)
    ensures
        #[trigger] record(session).covers(session),
{
}

/// Where a walk along a record got: to a value, to an error, or off the record, each but the last with the
/// place of the next exchange.
pub enum Step<T> {
    Done { value: T, next: int },
    Failed { error: ErrorView, next: int },
    Astray,
}

impl<T> Step<T> {
    /// The same failure for a walk that was after something else.
    pub open spec fn stop<U>(self) -> Step<U> {
        match self {
            Step::Done { .. } => Step::Astray,
            Step::Failed { error, next } => Step::Failed { error, next },
            Step::Astray => Step::Astray,
        }
    }
}

/// An outcome with the place of the next exchange.
pub open spec fn reached<T>(outcome: Outcome<T>, next: int) -> Step<T> {
    match outcome {
        Ok(value) => Step::Done { value, next },
        Err(error) => Step::Failed { error, next },
    }
}

/// The exchange at a place of a record, if it is the one described.
pub open spec fn exchange_at(wire: Wire, at: int, request: Request, awaits_reply: bool, retry: bool) -> Step<Seq<u8>> {
    if 0 <= at < wire.exchanges.len() && wire.exchanges[at].request == request && wire.exchanges[at].awaits_reply
        == awaits_reply && wire.exchanges[at].retry == retry {
        reached(wire.exchanges[at].reply, at + 1)
    } else {
        Step::Astray
    }
}

/// A call of a feature's function: one long request with its reply, never repeated.
pub open spec fn call_at(wire: Wire, at: int, feature_index: u8, function: u8, parameters: Seq<u8>) -> Step<Seq<u8>> {
    exchange_at(
        wire,
        at,
        Request { device_index: wire.device_index, feature_index, function, parameters, long: true },
        true,
        false,
    )
}

/// A call of a function that only reads: repeated once where it timed out.
pub open spec fn read_at(wire: Wire, at: int, feature_index: u8, function: u8, parameters: Seq<u8>) -> Step<Seq<u8>> {
    match call_at(wire, at, feature_index, function, parameters) {
        Step::Failed { error: ErrorView::Timeout { .. }, next } => exchange_at(
            wire,
            next,
            Request { device_index: wire.device_index, feature_index, function, parameters, long: true },
            true,
            true,
        ),
        step => step,
    }
}

/// The request for the protocol version.
pub open spec fn ping_request(device_index: u8, long: bool) -> Request {
    Request { device_index, feature_index: 0, function: 0x10, parameters: seq![0u8, 0u8, 0u8], long }
}

/// A ping: a short request, and where that timed out a long one; the reply starts with the version.
pub open spec fn ping_at(wire: Wire, at: int) -> Step<ProtocolVersion> {
    let reply = match exchange_at(wire, at, ping_request(wire.device_index, false), true, false) {
        Step::Failed { error: ErrorView::Timeout { .. }, next } => exchange_at(
            wire,
            next,
            ping_request(wire.device_index, true),
            true,
            false,
        ),
        step => step,
    };
    match reply {
        Step::Done { value, next } => if value.len() < 2 {
            Step::Failed {
                error: ErrorView::Other("ROOT.GetProtocolVersion returned fewer than two bytes"@),
                next,
            }
        } else {
            Step::Done { value: ProtocolVersion { major: value[0], minor: value[1] }, next }
        },
        step => step.stop(),
    }
}

pub broadcast group group_session {
    grown_from_itself,
    grown_further,
    grown_same_device,
    covers_earlier,
    covers_same_device,
    record_covers,
}

}
