//! HID++ reports and the exchanges they make up.

use vstd::prelude::*;

use crate::bytes::{append_bytes, copied, cut, repeated};
use crate::error::{outcome, AppError, ErrorView, Outcome, Result};
use crate::hid::transport::{looked, received_in, HidIo, IoEvent, Node};
use crate::hidpp::session::{
    allowed_nanoseconds, brought, call_at, clock_shows_nothing, drained, exchange_at, group_session, grown,
    growth_is_under_software_ids, growth_leaves_due_id, grown_by_one, grown_means, io_failure, one_more_passed_over,
    ping_at, reached, read_at, read_failure, record, remaining_of, report_line, sent, sent_at_most_once,
    traffic_lines, unsent_shows_nothing, verdict, wait_fails_by_device_or_time, wait_goes_on, wait_is_of_request,
    Exchange, Request, Session, Verdict, Wire, MOST_REPORTS,
};
use crate::text::{dec, decimal, hex2, hex_byte, join2, join3, join4, join5, join_all, joined, texts};

verus! {

pub const SHORT_REPORT_ID: u8 = 0x10;

pub const LONG_REPORT_ID: u8 = 0x11;

pub const SHORT_REPORT_LEN: usize = 7;

pub const LONG_REPORT_LEN: usize = 20;

/// The software ID that the first request is marked with.
pub const FIRST_SOFTWARE_ID: u8 = 8;

/// The software ID after which they start anew.
pub const LAST_SOFTWARE_ID: u8 = 15;

/// The version of HID++ that a device speaks.
#[derive(Debug, Clone, Copy, PartialEq, Eq, Structural)]
pub struct ProtocolVersion {
    pub major: u8,
    pub minor: u8,
}

impl View for ProtocolVersion {
    type V = ProtocolVersion;

    open spec fn view(&self) -> ProtocolVersion {
        *self
    }
}

/// A version as text: major and minor number with a dot between them.
pub open spec fn version_text(version: ProtocolVersion) -> Seq<char> {
    dec(version.major as nat) + "."@ + dec(version.minor as nat)
}

impl ProtocolVersion {
    /// The version as text.
    pub fn text(&self) -> (text: String)
        ensures
            text@ == version_text(*self),
    {
        join3(decimal(self.major as u64).as_str(), ".", decimal(self.minor as u64).as_str())
    }
}

/// The byte by which a reply is told to belong to a request: its function in the upper half, the software
/// ID in the lower half.
pub open spec fn echo_byte(function: u8, software_id: u8) -> u8 {
    function | (software_id & 0x0f)
}

/// The bytes of a report: four bytes of address, the parameters and zeros to the end.
pub open spec fn report_bytes(
    report_id: u8,
    device_index: u8,
    feature_index: u8,
    echo: u8,
    parameters: Seq<u8>,
) -> Seq<u8> {
    Seq::new(
        if report_id == LONG_REPORT_ID {
            LONG_REPORT_LEN as nat
        } else {
            SHORT_REPORT_LEN as nat
        },
        |i: int|
            if i == 0 {
                report_id
            } else if i == 1 {
                device_index
            } else if i == 2 {
                feature_index
            } else if i == 3 {
                echo
            } else if i < 4 + parameters.len() {
                parameters[i - 4]
            } else {
                0u8
            },
    )
}

/// How many parameter bytes a report holds.
pub open spec fn report_room(long: bool) -> nat {
    if long {
        16
    } else {
        3
    }
}

/// The report ID of a short or a long report.
pub open spec fn report_id_of(long: bool) -> u8 {
    if long {
        LONG_REPORT_ID
    } else {
        SHORT_REPORT_ID
    }
}

/// Why a request cannot be sent: its function uses the lower half of its byte, or its parameters do not fit.
pub open spec fn request_refusal(function: u8, count: nat, long: bool) -> Option<ErrorView> {
    if function & 0x0f != 0 {
        Some(
            ErrorView::Validation(
                "HID++ function must use its upper nibble only (got 0x"@ + hex2(function, false) + ")"@,
            ),
        )
    } else if count > report_room(long) {
        Some(
            ErrorView::Validation(
                dec(count) + " parameters do not fit in a "@ + if long {
                    "long"@
                } else {
                    "short"@
                } + " HID++ report (maximum "@ + (dec(report_room(long)) + ")"@),
            ),
        )
    } else {
        None
    }
}

/// A request as it goes out on the wire.
#[derive(Debug, Clone, PartialEq, Eq)]
pub struct HidppMessage {
    pub report_id: u8,
    pub device_index: u8,
    pub feature_index: u8,
    pub function: u8,
    pub software_id: u8,
    pub parameters: Vec<u8>,
}

impl HidppMessage {
    /// Whether the parameters fit in the report that the message's ID stands for.
    pub open spec fn fits(&self) -> bool {
        self.parameters@.len() <= report_room(self.report_id == LONG_REPORT_ID)
    }

    /// Makes a request with the next software ID. Refuses a function that uses the lower half of its byte,
    /// and parameters that do not fit in the report, and then gives out no ID.
    pub fn request(
        device_index: u8,
        feature_index: u8,
        function: u8,
        parameters: &[u8],
        long: bool,
        software_ids: &mut SoftwareIds,
    ) -> (message: Result<Self>)
        ensures
            match message {
                Ok(message) => {
                    &&& request_refusal(function, parameters@.len(), long) is None
                    &&& message.report_id == report_id_of(long)
                    &&& message.device_index == device_index
                    &&& message.feature_index == feature_index
                    &&& message.function == function
                    &&& message.software_id == old(software_ids)@
                    &&& is_software_id(message.software_id)
                    &&& message.parameters@ == parameters@
                    &&& message.fits()
                    &&& final(software_ids)@ == software_id_after(old(software_ids)@)
                },
                Err(error) => {
                    &&& request_refusal(function, parameters@.len(), long) == Some(error@)
                    &&& final(software_ids)@ == old(software_ids)@
                },
            },
    {
        if function & 0x0f != 0 {
            return Err(
                AppError::Validation(
                    join3(
                        "HID++ function must use its upper nibble only (got 0x",
                        hex_byte(function, false).as_str(),
                        ")",
                    ),
                ),
            );
        }
        let max: usize = if long { 16 } else { 3 };
        if parameters.len() > max {
            let mut text = join4(
                decimal(parameters.len() as u64).as_str(),
                " parameters do not fit in a ",
                if long { "long" } else { "short" },
                " HID++ report (maximum ",
            );
            text.append(join2(decimal(max as u64).as_str(), ")").as_str());
            return Err(AppError::Validation(text));
        }
        Ok(
            HidppMessage {
                report_id: if long { LONG_REPORT_ID } else { SHORT_REPORT_ID },
                device_index,
                feature_index,
                function,
                software_id: next_software_id(software_ids),
                parameters: copied(parameters),
            },
        )
    }

    /// The bytes of the report.
    pub fn encode(&self) -> (report: Vec<u8>)
        requires
            self.fits(),
        ensures
            report@ == report_bytes(
                self.report_id,
                self.device_index,
                self.feature_index,
                echo_byte(self.function, self.software_id),
                self.parameters@,
            ),
    {
        let len: usize = if self.report_id == LONG_REPORT_ID { LONG_REPORT_LEN } else { SHORT_REPORT_LEN };
        let mut report: Vec<u8> = Vec::new();
        report.push(self.report_id);
        report.push(self.device_index);
        report.push(self.feature_index);
        report.push(self.function_and_software_id());
        append_bytes(&mut report, self.parameters.as_slice());
        let rest: usize = len - report.len();
        append_bytes(&mut report, repeated(0, rest).as_slice());
        assert(report@ =~= report_bytes(
            self.report_id,
            self.device_index,
            self.feature_index,
            echo_byte(self.function, self.software_id),
            self.parameters@,
        ));
        report
    }

    fn function_and_software_id(&self) -> (echo: u8)
        ensures
            echo == echo_byte(self.function, self.software_id),
    {
        self.function | (self.software_id & 0x0f)
    }
}

/// Whether a number is a software ID.
pub open spec fn is_software_id(id: u8) -> bool {
    FIRST_SOFTWARE_ID <= id <= LAST_SOFTWARE_ID
}

/// The software ID that follows `current`: they go round from 8 to 15.
pub open spec fn software_id_after(current: u8) -> u8 {
    if current >= LAST_SOFTWARE_ID {
        FIRST_SOFTWARE_ID
    } else {
        (current + 1) as u8
    }
}

/// The software IDs that requests are marked with, one after the other. A process has one of these and hands it from
/// transport to transport, so that its requests are told apart whichever transport sends them.
#[derive(Debug)]
pub struct SoftwareIds {
    next: u8,
}

impl View for SoftwareIds {
    type V = u8;

    /// The ID of the next request.
    closed spec fn view(&self) -> u8 {
        self.next
    }
}

impl SoftwareIds {
    #[verifier::type_invariant]
    spec fn in_range(self) -> bool {
        is_software_id(self.next)
    }

    /// The IDs of a process that has sent nothing yet.
    pub fn new() -> (ids: Self)
        ensures
            ids@ == FIRST_SOFTWARE_ID,
    {
        SoftwareIds { next: FIRST_SOFTWARE_ID }
    }
}

/// Gives out the next software ID.
pub fn next_software_id(ids: &mut SoftwareIds) -> (id: u8)
    ensures
        id == old(ids)@,
        is_software_id(id),
        final(ids)@ == software_id_after(old(ids)@),
{
    proof {
        use_type_invariant(&*ids);
    }
    let id: u8 = ids.next;
    ids.next = if id >= LAST_SOFTWARE_ID { FIRST_SOFTWARE_ID } else { id + 1 };
    id
}

/// Bytes as pairs of capital hexadecimal digits with spaces between them.
pub open spec fn spaced_pairs(bytes: Seq<u8>) -> Seq<char> {
    joined(bytes.map_values(|byte: u8| hex2(byte, true)), " "@)
}

/// Renders bytes as pairs of capital hexadecimal digits with spaces between them.
pub fn spaced_hex(bytes: &[u8]) -> (text: String)
    ensures
        text@ == spaced_pairs(bytes@),
{
    let mut pairs: Vec<String> = Vec::new();
    let mut i: usize = 0;
    while i < bytes.len()
        invariant
            i <= bytes.len(),
            pairs@.len() == i,
            forall|k: int| 0 <= k < i ==> #[trigger] pairs@[k]@ == hex2(bytes@[k], true),
        decreases bytes.len() - i,
    {
        pairs.push(hex_byte(bytes[i], true));
        i = i + 1;
    }
    assert(texts(pairs@) =~= bytes@.map_values(|byte: u8| hex2(byte, true)));
    join_all(&pairs, " ")
}

/// The name of a HID++ error code.
pub open spec fn error_code_name(code: u8) -> Seq<char> {
    if code == 0x00 {
        "NO_ERROR"@
    } else if code == 0x01 {
        "UNKNOWN"@
    } else if code == 0x02 {
        "INVALID_ARGUMENT"@
    } else if code == 0x03 {
        "OUT_OF_RANGE"@
    } else if code == 0x04 {
        "HARDWARE_ERROR"@
    } else if code == 0x05 {
        "LOGITECH_INTERNAL"@
    } else if code == 0x06 {
        "INVALID_FEATURE_INDEX"@
    } else if code == 0x07 {
        "INVALID_FUNCTION"@
    } else if code == 0x08 {
        "BUSY"@
    } else if code == 0x09 {
        "UNSUPPORTED"@
    } else {
        "UNKNOWN_ERROR"@
    }
}

/// The name of a HID++ error code.
pub fn protocol_error_name(code: u8) -> (name: &'static str)
    ensures
        name@ == error_code_name(code),
{
    match code {
        0x00 => "NO_ERROR",
        0x01 => "UNKNOWN",
        0x02 => "INVALID_ARGUMENT",
        0x03 => "OUT_OF_RANGE",
        0x04 => "HARDWARE_ERROR",
        0x05 => "LOGITECH_INTERNAL",
        0x06 => "INVALID_FEATURE_INDEX",
        0x07 => "INVALID_FUNCTION",
        0x08 => "BUSY",
        0x09 => "UNSUPPORTED",
        _ => "UNKNOWN_ERROR",
    }
}

/// What a received report is to a waiting request.
#[derive(Debug, PartialEq, Eq)]
pub enum ResponseKind {
    Ignored,
    Answered(Vec<u8>),
    Failed(u8),
}

impl View for ResponseKind {
    type V = Verdict;

    open spec fn view(&self) -> Verdict {
        match *self {
            ResponseKind::Ignored => Verdict::Ignored,
            ResponseKind::Answered(parameters) => Verdict::Answered(parameters@),
            ResponseKind::Failed(code) => Verdict::Failed(code),
        }
    }
}

/// Tells what a received report is to a request: its answer, its failure, or nothing to it.
pub fn classify_response(response: &[u8], device_index: u8, feature_index: u8, echo: u8) -> (kind: ResponseKind)
    ensures
        kind@ == verdict(response@, device_index, feature_index, echo),
{
    if response.len() < 4 || response[1] != device_index {
        return ResponseKind::Ignored;
    }
    if response[2] == 0xff && response.len() >= 6 && response[3] == feature_index && response[4] == echo {
        return ResponseKind::Failed(response[5]);
    }
    if response[2] == feature_index && response[3] == echo {
        let parameters = cut(response, 4, response.len());
        assert(parameters@ =~= response@.skip(4));
        return ResponseKind::Answered(parameters);
    }
    ResponseKind::Ignored
}

/// How long to wait for the next report when so many nanoseconds have passed.
fn remaining_ms(timeout_ms: i32, nanoseconds: u128) -> (remaining: i32)
    ensures
        remaining == remaining_of(timeout_ms, nanoseconds as int),
{
    let timeout: u128 = if timeout_ms > 1 { timeout_ms as u128 } else { 1 };
    let whole: u128 = timeout * 1_000_000;
    if nanoseconds >= whole {
        return 1;
    }
    let remaining: u128 = (whole - nanoseconds) / 1_000_000;
    if remaining < 1 {
        1
    } else {
        remaining as i32
    }
}

/// Whether `after` is `before` with one more exchange.
pub open spec fn exchanged(
    before: Session,
    after: Session,
    request: Request,
    awaits_reply: bool,
    retry: bool,
    reply: Outcome<Seq<u8>>,
) -> bool {
    let exchange = after.exchanges.last();
    &&& after.exchanges == before.exchanges.push(exchange)
    &&& exchange.request == request
    &&& exchange.awaits_reply == awaits_reply
    &&& exchange.retry == retry
    &&& exchange.software_id == before.software_id
    &&& exchange.timeout_ms == before.timeout_ms
    &&& exchange.reply == reply
    &&& exchange.conducted()
    &&& after.events == before.events + exchange.traffic
    &&& after.device_index == before.device_index
    &&& after.timeout_ms == before.timeout_ms
    &&& after.trace == before.trace
    &&& after.software_id == exchange.next_id()
    &&& is_software_id(after.software_id)
    &&& after.lines == if before.trace {
        before.lines + exchange.lines()
    } else {
        before.lines
    }
}

/// Whether `after` is `before` with one more exchange, or with two of which the second repeats the first
/// under the next software ID because that timed out.
pub open spec fn tried_at_most_twice(before: Session, after: Session) -> bool {
    let at = before.mark();
    &&& after.mark() == at + 1 || after.mark() == at + 2
    &&& after.exchanges[at].software_id == before.software_id
    &&& after.software_id == after.exchanges.last().next_id()
    &&& is_software_id(after.software_id)
    &&& after.mark() == at + 2 ==> {
        &&& after.exchanges[at].reply matches Err(ErrorView::Timeout { .. })
        &&& after.exchanges[at + 1].retry
        &&& after.exchanges[at + 1].request == after.exchanges[at].request
        &&& after.exchanges[at + 1].software_id == software_id_after(after.exchanges[at].software_id)
    }
}

/// Sends requests to one device behind a HID node and takes its replies.
pub struct HidppTransport<I: HidIo> {
    node: Node<I>,
    device_index: u8,
    timeout_ms: i32,
    trace: bool,
    software_ids: SoftwareIds,
    lines: Vec<String>,
    exchanges: Ghost<Seq<Exchange>>,
}

impl<I: HidIo> View for HidppTransport<I> {
    type V = Session;

    closed spec fn view(&self) -> Session {
        Session {
            device_index: self.device_index,
            timeout_ms: self.timeout_ms,
            trace: self.trace,
            software_id: self.software_ids@,
            exchanges: self.exchanges@,
            events: self.node@,
            lines: texts(self.lines@),
        }
    }
}

impl<I: HidIo> HidppTransport<I> {
    /// The HID node itself.
    pub closed spec fn held(&self) -> I {
        self.node.held()
    }

    /// A transport that has exchanged nothing yet. It goes on with the given software IDs.
    pub fn new(io: I, device_index: u8, timeout_ms: i32, trace: bool, software_ids: SoftwareIds) -> (transport: Self)
        ensures
            transport@ == (Session {
                device_index,
                timeout_ms,
                trace,
                software_id: software_ids@,
                exchanges: Seq::empty(),
                events: Seq::empty(),
                lines: Seq::empty(),
            }),
            is_software_id(transport@.software_id),
            transport.held() == io,
    {
        proof {
            use_type_invariant(&software_ids);
        }
        let transport = HidppTransport {
            node: Node::new(io),
            device_index,
            timeout_ms,
            trace,
            software_ids,
            lines: Vec::new(),
            exchanges: Ghost(Seq::empty()),
        };
        assert(transport@.lines =~= Seq::empty());
        transport
    }

    /// Ends the transport and hands over its software IDs, for the one that comes after it.
    pub fn into_software_ids(self) -> (software_ids: SoftwareIds)
        ensures
            software_ids@ == self@.software_id,
            is_software_id(software_ids@),
    {
        proof {
            use_type_invariant(&self.software_ids);
        }
        self.software_ids
    }

    /// The index of the device behind the node.
    pub fn device_index(&self) -> (index: u8)
        ensures
            index == self@.device_index,
    {
        self.device_index
    }

    /// Turns to another device behind the same node.
    pub fn retarget(&mut self, device_index: u8)
        ensures
            final(self)@ == (Session { device_index, ..old(self)@ }),
            final(self).held() == old(self).held(),
    {
        self.device_index = device_index;
    }

    /// Hands over the lines that tell of the exchanges since the last call. There are none unless the
    /// transport traces.
    pub fn take_trace(&mut self) -> (lines: Vec<String>)
        ensures
            texts(lines@) == old(self)@.lines,
            final(self)@ == (Session { lines: Seq::empty(), ..old(self)@ }),
            final(self).held() == old(self).held(),
    {
        let mut lines: Vec<String> = Vec::new();
        assert(texts(lines@) =~= Seq::empty());
        std::mem::swap(&mut lines, &mut self.lines);
        lines
    }

    /// The HID node itself.
    pub fn io(&self) -> (io: &I)
        ensures
            *io == self.held(),
    {
        self.node.io()
    }

    fn tell(&mut self, direction: &str, bytes: &[u8])
        ensures
            final(self).device_index == old(self).device_index,
            final(self).timeout_ms == old(self).timeout_ms,
            final(self).trace == old(self).trace,
            final(self).software_ids == old(self).software_ids,
            final(self).exchanges == old(self).exchanges,
            final(self).held() == old(self).held(),
            final(self).node == old(self).node,
            texts(final(self).lines@) == if old(self).trace {
                texts(old(self).lines@).push(report_line(direction@, old(self).device_index, bytes@))
            } else {
                texts(old(self).lines@)
            },
    {
        if self.trace {
            let line = join5(
                direction,
                " dev=0x",
                hex_byte(self.device_index, false).as_str(),
                " ",
                spaced_hex(bytes).as_str(),
            );
            self.lines.push(line);
            assert(texts(self.lines@) =~= texts(old(self).lines@).push(report_line(direction@, old(self).device_index, bytes@)));
        }
    }

    fn drain_input(&mut self) -> (drained_with: (Result<()>, Ghost<Seq<IoEvent>>))
        ensures
            final(self).device_index == old(self).device_index,
            final(self).timeout_ms == old(self).timeout_ms,
            final(self).trace == old(self).trace,
            final(self).software_ids == old(self).software_ids,
            final(self).exchanges == old(self).exchanges,
            final(self).held() == old(self).held(),
            final(self).lines == old(self).lines,
            final(self).node@ == old(self).node@ + drained_with.1@,
            drained(drained_with.1@),
            match drained_with.0 {
                Ok(_) => read_failure(drained_with.1@.last()) is None,
                Err(error) => read_failure(drained_with.1@.last()) == Some(error@),
            },
    {
        let mut buffer: Vec<u8> = repeated(0, 64);
        let ghost mut reads: Seq<IoEvent> = Seq::empty();
        let mut count: usize = 0;
        assert(self.node@ =~= old(self).node@ + reads);
        while count < 32
            invariant
                self.device_index == old(self).device_index,
                self.timeout_ms == old(self).timeout_ms,
                self.trace == old(self).trace,
                self.software_ids == old(self).software_ids,
                self.exchanges == old(self).exchanges,
                self.held() == old(self).held(),
                self.lines == old(self).lines,
                self.node@ == old(self).node@ + reads,
                count <= 32,
                reads.len() == count,
                forall|i: int|
                    0 <= i < reads.len() ==> (#[trigger] reads[i] matches IoEvent::Read { timeout_ms, .. } && timeout_ms
                        == 1),
                forall|i: int| 0 <= i < reads.len() ==> brought(#[trigger] reads[i]),
                buffer@.len() == 64,
            decreases 32 - count,
        {
            let ghost earlier = self.node@;
            let read = self.node.read(buffer.as_mut_slice(), 1);
            proof {
                reads = reads.push(self.node@.last());
                assert(self.node@ =~= old(self).node@ + reads);
            }
            match read {
                Ok(read) => {
                    if read == 0 {
                        return (Ok(()), Ghost(reads));
                    }
                },
                Err(error) => {
                    return (Err(error), Ghost(reads));
                },
            }
            count = count + 1;
        }
        (Ok(()), Ghost(reads))
    }

    /// Looks at the clock and waits for a report as long as there is time. Says what came, or nothing where the time was
    /// up.
    fn next_report(&mut self, buffer: &mut Vec<u8>) -> (received: Option<Result<usize>>)
        requires
            old(buffer)@.len() == 64,
        ensures
            final(buffer)@.len() == 64,
            final(self).device_index == old(self).device_index,
            final(self).timeout_ms == old(self).timeout_ms,
            final(self).trace == old(self).trace,
            final(self).software_ids == old(self).software_ids,
            final(self).exchanges == old(self).exchanges,
            final(self).held() == old(self).held(),
            final(self).lines == old(self).lines,
            match received {
                None => exists|nanoseconds: u128|
                    nanoseconds >= allowed_nanoseconds(old(self).timeout_ms) && final(self).node@ == old(
                        self,
                    ).node@.push(#[trigger] looked(nanoseconds)),
                Some(read) => {
                    &&& read matches Ok(count) ==> count <= 64
                    &&& exists|before: u128, after: u128|
                        #![trigger looked(before), looked(after)]
                        before < allowed_nanoseconds(old(self).timeout_ms) && final(self).node@ == old(
                            self,
                        ).node@.push(looked(before)).push(looked(after)).push(
                            IoEvent::Read {
                                timeout_ms: remaining_of(old(self).timeout_ms, after as int) as i32,
                                received: received_in(read, final(buffer)@),
                            },
                        )
                },
            },
    {
        let timeout: u128 = if self.timeout_ms > 1 { self.timeout_ms as u128 } else { 1 };
        let before: u128 = self.node.elapsed();
        if before >= timeout * 1_000_000 {
            assert(self.node@ == old(self).node@.push(looked(before)));
            return None;
        }
        let after: u128 = self.node.elapsed();
        let remaining: i32 = remaining_ms(self.timeout_ms, after);
        let read = self.node.read(buffer.as_mut_slice(), remaining);
        assert(self.node@ == old(self).node@.push(looked(before)).push(looked(after)).push(self.node@.last()));
        Some(read)
    }

    /// Reads until a report concludes the exchange, nothing comes, or the time is up.
    fn await_reply(
        &mut self,
        feature_index: u8,
        function: u8,
        echo: u8,
        encoded: &Vec<u8>,
        Ghost(exchange): Ghost<Exchange>,
        Ghost(told): Ghost<Seq<Seq<char>>>,
        Ghost(prefix): Ghost<Seq<IoEvent>>,
    ) -> (awaited: (Result<Vec<u8>>, Ghost<Seq<IoEvent>>))
        requires
            exchange.request.device_index == old(self).device_index,
            exchange.request.feature_index == feature_index,
            exchange.request.function == function,
            exchange.timeout_ms == old(self).timeout_ms,
            echo == echo_byte(function, exchange.software_id),
            encoded@ == exchange.request.report(exchange.software_id),
            sent(prefix),
            texts(old(self).lines@) == if old(self).trace {
                told + traffic_lines(old(self).device_index, prefix)
            } else {
                told
            },
        ensures
            final(self).device_index == old(self).device_index,
            final(self).timeout_ms == old(self).timeout_ms,
            final(self).trace == old(self).trace,
            final(self).software_ids == old(self).software_ids,
            final(self).exchanges == old(self).exchanges,
            final(self).held() == old(self).held(),
            final(self).node@ == old(self).node@ + awaited.1@,
            exchange.wait_of(awaited.1@, MOST_REPORTS as nat) == Some(outcome(awaited.0)),
            texts(final(self).lines@) == if old(self).trace {
                told + traffic_lines(old(self).device_index, prefix + awaited.1@)
            } else {
                told
            },
    {
        let mut buffer: Vec<u8> = repeated(0, 64);
        let ghost mut seen: Seq<IoEvent> = Seq::empty();
        let mut budget: u64 = MOST_REPORTS;
        assert(prefix + seen =~= prefix);
        assert(self.node@ =~= old(self).node@ + seen);
        while budget > 0
            invariant
                exchange.request.device_index == self.device_index,
                exchange.request.feature_index == feature_index,
                exchange.request.function == function,
                exchange.timeout_ms == self.timeout_ms,
                echo == echo_byte(function, exchange.software_id),
                encoded@ == exchange.request.report(exchange.software_id),
                self.device_index == old(self).device_index,
                self.timeout_ms == old(self).timeout_ms,
                self.trace == old(self).trace,
                self.software_ids == old(self).software_ids,
                self.exchanges == old(self).exchanges,
                self.held() == old(self).held(),
                self.node@ == old(self).node@ + seen,
                buffer@.len() == 64,
                exchange.all_passed_over(seen),
                seen.len() / 3 == MOST_REPORTS - budget,
                sent(prefix + seen),
                texts(self.lines@) == if self.trace {
                    told + traffic_lines(self.device_index, prefix + seen)
                } else {
                    told
                },
            decreases budget,
        {
            let ghost earlier = self.node@;
            let received = self.next_report(&mut buffer);
            let ghost rest = self.node@.skip(earlier.len() as int);
            proof {
                wait_goes_on(exchange, seen, rest, MOST_REPORTS as nat);
                assert(self.node@ =~= old(self).node@ + (seen + rest));
            }
            match received {
                None => {
                    proof {
                        let look = choose|nanoseconds: u128|
                            nanoseconds >= allowed_nanoseconds(self.timeout_ms) && self.node@ == earlier.push(
                                #[trigger] looked(nanoseconds),
                            );
                        assert(rest =~= seq![looked(look)]);
                        clock_shows_nothing(self.device_index, prefix + seen, looked(look));
                        assert(prefix + (seen + rest) =~= (prefix + seen).push(looked(look)));
                    }
                    return (Err(self.timeout_error(feature_index, function, encoded)), Ghost(seen + rest));
                },
                Some(read) => {
                    let ghost event = self.node@.last();
                    let ghost before = rest[0];
                    let ghost after = rest[1];
                    proof {
                        assert(rest =~= seq![before, after, event]);
                        clock_shows_nothing(self.device_index, prefix + seen, before);
                        clock_shows_nothing(self.device_index, (prefix + seen).push(before), after);
                        assert(prefix + (seen + rest) =~= (prefix + seen).push(before).push(after).push(event));
                        assert((prefix + seen).push(before).push(after).push(event).drop_last() =~= (prefix
                            + seen).push(before).push(after));
                    }
                    let count: usize = match read {
                        Err(error) => {
                            return (Err(error), Ghost(seen + rest));
                        },
                        Ok(count) => count,
                    };
                    if count == 0 {
                        return (Err(self.timeout_error(feature_index, function, encoded)), Ghost(seen + rest));
                    }
                    let response = cut(buffer.as_slice(), 0, count);
                    assert(response@ =~= buffer@.take(count as int));
                    self.tell("RX", response.as_slice());
                    assert(self.trace ==> texts(self.lines@) =~= told + traffic_lines(
                        self.device_index,
                        prefix + (seen + rest),
                    ));
                    match classify_response(response.as_slice(), self.device_index, feature_index, echo) {
                        ResponseKind::Ignored => {
                            proof {
                                one_more_passed_over(exchange, seen, before, after, event);
                                assert(seen + rest =~= seen.push(before).push(after).push(event));
                                seen = seen + rest;
                            }
                        },
                        ResponseKind::Answered(parameters) => {
                            return (Ok(parameters), Ghost(seen + rest));
                        },
                        ResponseKind::Failed(code) => {
                            return (
                                Err(
                                    AppError::Protocol {
                                        device_index: self.device_index,
                                        feature_index,
                                        function,
                                        code,
                                        name: protocol_error_name(code),
                                    },
                                ),
                                Ghost(seen + rest),
                            );
                        },
                    }
                },
            }
            budget = budget - 1;
        }
        proof {
            wait_goes_on(exchange, seen, Seq::empty(), MOST_REPORTS as nat);
            assert(seen + Seq::empty() =~= seen);
        }
        (Err(self.timeout_error(feature_index, function, encoded)), Ghost(seen))
    }

    fn timeout_error(&self, feature_index: u8, function: u8, encoded: &Vec<u8>) -> (error: AppError)
        ensures
            error@ == (ErrorView::Timeout {
                timeout_ms: self.timeout_ms,
                device_index: self.device_index,
                feature_index,
                function,
                request: spaced_pairs(encoded@),
            }),
    {
        AppError::Timeout {
            timeout_ms: self.timeout_ms,
            device_index: self.device_index,
            feature_index,
            function,
            request: spaced_hex(encoded.as_slice()),
        }
    }

    fn transact_with_report(
        &mut self,
        feature_index: u8,
        function: u8,
        parameters: &[u8],
        long: bool,
        awaits_reply: bool,
        retry: bool,
    ) -> (reply: Result<Vec<u8>>)
        ensures
            exchanged(
                old(self)@,
                final(self)@,
                Request { device_index: old(self)@.device_index, feature_index, function, parameters: parameters@, long },
                awaits_reply,
                retry,
                outcome(reply),
            ),
            grown(old(self)@, final(self)@),
            final(self).held() == old(self).held(),
            forall|wire: Wire|
                wire.covers(final(self)@) ==> #[trigger] exchange_at(
                    wire,
                    old(self)@.mark(),
                    Request {
                        device_index: old(self)@.device_index,
                        feature_index,
                        function,
                        parameters: parameters@,
                        long,
                    },
                    awaits_reply,
                    retry,
                ) == reached(outcome(reply), final(self)@.mark()),
    {
        let ghost before = self@;
        let ghost mut exchange = Exchange {
            request: Request {
                device_index: self.device_index,
                feature_index,
                function,
                parameters: parameters@,
                long,
            },
            awaits_reply,
            retry,
            software_id: self.software_ids@,
            timeout_ms: self.timeout_ms,
            traffic: Seq::empty(),
            reply: Ok(Seq::empty()),
        };
        if retry && self.trace {
            let mut line = join4(
                "RETRY dev=0x",
                hex_byte(self.device_index, false).as_str(),
                " feature=0x",
                hex_byte(feature_index, false).as_str(),
            );
            line.append(join2(" function=0x", hex_byte(function, false).as_str()).as_str());
            self.lines.push(line);
        }
        let ghost told = texts(self.lines@);
        assert(self.trace ==> told =~= before.lines + exchange.lines());
        let (reply, Ghost(traffic)) = self.send_and_await(
            feature_index,
            function,
            parameters,
            long,
            awaits_reply,
            Ghost(exchange),
            Ghost(told),
        );
        proof {
            exchange.traffic = traffic;
            exchange.reply = outcome(reply);
            self.exchanges@ = self.exchanges@.push(exchange);
            assert(self.trace ==> self@.lines =~= before.lines + exchange.lines());
            grown_by_one(before, self@);
        }
        reply
    }

    /// Empties the input, sends the request and waits for its reply where one is due.
    fn send_and_await(
        &mut self,
        feature_index: u8,
        function: u8,
        parameters: &[u8],
        long: bool,
        awaits_reply: bool,
        Ghost(exchange): Ghost<Exchange>,
        Ghost(told): Ghost<Seq<Seq<char>>>,
    ) -> (done: (Result<Vec<u8>>, Ghost<Seq<IoEvent>>))
        requires
            exchange.request == (Request {
                device_index: old(self).device_index,
                feature_index,
                function,
                parameters: parameters@,
                long,
            }),
            exchange.awaits_reply == awaits_reply,
            exchange.software_id == old(self).software_ids@,
            exchange.timeout_ms == old(self).timeout_ms,
            texts(old(self).lines@) == told,
        ensures
            final(self).device_index == old(self).device_index,
            final(self).timeout_ms == old(self).timeout_ms,
            final(self).trace == old(self).trace,
            final(self).exchanges == old(self).exchanges,
            final(self).held() == old(self).held(),
            final(self).software_ids@ == exchange.next_id(),
            final(self).node@ == old(self).node@ + done.1@,
            (Exchange { traffic: done.1@, reply: outcome(done.0), ..exchange }).conducted(),
            texts(final(self).lines@) == if old(self).trace {
                told + traffic_lines(old(self).device_index, done.1@)
            } else {
                told
            },
    {
        proof {
            use_type_invariant(&self.software_ids);
        }
        let message = match HidppMessage::request(
            self.device_index,
            feature_index,
            function,
            parameters,
            long,
            &mut self.software_ids,
        ) {
            Ok(message) => message,
            Err(error) => {
                assert(told + traffic_lines(self.device_index, Seq::empty()) =~= told);
                assert(self.node@ + Seq::empty() =~= self.node@);
                return (Err(error), Ghost(Seq::empty()));
            },
        };
        let encoded = message.encode();
        let echo = message.function_and_software_id();
        let (drain, Ghost(reads)) = self.drain_input();
        proof {
            unsent_shows_nothing(self.device_index, reads);
            assert(told + traffic_lines(self.device_index, reads) =~= told);
        }
        if let Err(error) = drain {
            proof {
                let done = Exchange { traffic: reads, reply: Err(error@), ..exchange };
                assert(done.traffic.take(reads.len() as int) =~= reads);
                assert(done.splits(reads.len() as int));
            }
            return (Err(error), Ghost(reads));
        }
        self.tell("TX", encoded.as_slice());
        let written = self.node.write(encoded.as_slice());
        let ghost event = IoEvent::Wrote { report: encoded@, written: outcome(written) };
        let ghost prefix = reads.push(event);
        proof {
            assert(self.node@ =~= old(self).node@ + prefix);
            assert(prefix.drop_last() =~= reads);
            assert(self.trace ==> texts(self.lines@) =~= told + traffic_lines(self.device_index, prefix));
        }
        let reply = match written {
            Err(error) => Err(error),
            Ok(_) => Ok(Vec::new()),
        };
        if reply.is_err() || !awaits_reply {
            proof {
                let done = Exchange { traffic: prefix, reply: outcome(reply), ..exchange };
                assert(done.traffic.take(reads.len() as int) =~= reads);
                assert(done.traffic[reads.len() - 1] == reads.last());
                assert(outcome(reply) is Ok ==> outcome(reply)->Ok_0 =~= Seq::<u8>::empty());
                assert(done.splits(reads.len() as int));
            }
            return (reply, Ghost(prefix));
        }
        self.node.start();
        let ghost started = prefix.push(IoEvent::Started);
        proof {
            clock_shows_nothing(self.device_index, prefix, IoEvent::Started);
            assert(self.node@ =~= old(self).node@ + started);
        }
        let (reply, Ghost(later)) = self.await_reply(
            feature_index,
            function,
            echo,
            &encoded,
            Ghost(exchange),
            Ghost(told),
            Ghost(started),
        );
        proof {
            let done = Exchange { traffic: started + later, reply: outcome(reply), ..exchange };
            assert(done.traffic.take(reads.len() as int) =~= reads);
            assert(done.traffic[reads.len() - 1] == reads.last());
            assert(done.traffic[reads.len() as int] == event);
            assert(done.traffic[reads.len() as int + 1] is Started);
            assert(done.traffic.skip(reads.len() as int + 2) =~= later);
            wait_is_of_request(exchange, done, later, MOST_REPORTS as nat);
            assert(done.splits(reads.len() as int));
            assert(self.node@ =~= old(self).node@ + (started + later));
        }
        (reply, Ghost(started + later))
    }

    /// Asks the device for the version of HID++ that it speaks, by a short report and, where that gets no
    /// reply in time, by a long one.
    pub fn ping(&mut self) -> (version: Result<ProtocolVersion>)
        ensures
            grown(old(self)@, final(self)@),
            final(self).held() == old(self).held(),
            forall|wire: Wire|
                wire.covers(final(self)@) ==> #[trigger] ping_at(wire, old(self)@.mark()) == reached(
                    outcome(version),
                    final(self)@.mark(),
                ),
    {
        broadcast use group_session;

        let short = self.transact_with_report(0, 0x10, &[0u8, 0u8, 0u8], false, true, false);
        assert([0u8, 0u8, 0u8]@ =~= seq![0u8, 0u8, 0u8]);
        let response = match short {
            Ok(response) => response,
            Err(AppError::Timeout { .. }) => self.transact_with_report(0, 0x10, &[0u8, 0u8, 0u8], true, true, false)?,
            Err(error) => return Err(error),
        };
        if response.len() < 2 {
            return Err(AppError::Other("ROOT.GetProtocolVersion returned fewer than two bytes".to_owned()));
        }
        Ok(ProtocolVersion { major: response[0], minor: response[1] })
    }

    /// Calls a function of a feature and waits for its reply. The request goes out once, whatever comes of it.
    pub fn transact(&mut self, feature_index: u8, function: u8, parameters: &[u8]) -> (reply: Result<Vec<u8>>)
        ensures
            exchanged(
                old(self)@,
                final(self)@,
                Request {
                    device_index: old(self)@.device_index,
                    feature_index,
                    function,
                    parameters: parameters@,
                    long: true,
                },
                true,
                false,
                outcome(reply),
            ),
            grown(old(self)@, final(self)@),
            final(self).held() == old(self).held(),
            forall|wire: Wire|
                wire.covers(final(self)@) ==> #[trigger] call_at(
                    wire,
                    old(self)@.mark(),
                    feature_index,
                    function,
                    parameters@,
                ) == reached(outcome(reply), final(self)@.mark()),
    {
        broadcast use group_session;

        self.transact_with_report(feature_index, function, parameters, true, true, false)
    }

    /// Calls a function that only reads, and calls it once more where no reply came in time.
    pub fn transact_read(&mut self, feature_index: u8, function: u8, parameters: &[u8]) -> (reply: Result<Vec<u8>>)
        ensures
            grown(old(self)@, final(self)@),
            final(self).held() == old(self).held(),
            tried_at_most_twice(old(self)@, final(self)@),
            forall|wire: Wire|
                wire.covers(final(self)@) ==> #[trigger] read_at(
                    wire,
                    old(self)@.mark(),
                    feature_index,
                    function,
                    parameters@,
                ) == reached(outcome(reply), final(self)@.mark()),
    {
        broadcast use group_session;

        let first = self.transact(feature_index, function, parameters);
        match first {
            Err(AppError::Timeout { .. }) => {
                self.transact_with_report(feature_index, function, parameters, true, true, true)
            },
            result => result,
        }
    }

    /// Calls a function of a feature without waiting for a reply.
    pub fn transact_no_reply(&mut self, feature_index: u8, function: u8, parameters: &[u8]) -> (done: Result<()>)
        ensures
            exchanged(
                old(self)@,
                final(self)@,
                Request {
                    device_index: old(self)@.device_index,
                    feature_index,
                    function,
                    parameters: parameters@,
                    long: true,
                },
                false,
                false,
                match done {
                    Ok(_) => Ok(Seq::empty()),
                    Err(error) => Err(error@),
                },
            ),
            grown(old(self)@, final(self)@),
            final(self).held() == old(self).held(),
    {
        match self.transact_with_report(feature_index, function, parameters, true, false, false) {
            Ok(_) => Ok(()),
            Err(error) => Err(error),
        }
    }
}

/// Software IDs stay between 8 and 15, and each differs from the one before it.
pub proof fn software_ids_go_round(current: u8)
    requires
        is_software_id(current),
    ensures
        is_software_id(software_id_after(current)),
        software_id_after(current) != current,
{
}

/// Requests for the same function under different software IDs have different echo bytes.
pub proof fn echo_tells_software_ids_apart(function: u8, first: u8, second: u8)
    requires
        function & 0x0f == 0,
        is_software_id(first),
        is_software_id(second),
        first != second,
    ensures
        echo_byte(function, first) != echo_byte(function, second),
{
    assert((function | (first & 0x0f)) != (function | (second & 0x0f))) by (bit_vector)
        requires
            function & 0x0f == 0,
            8 <= first <= 15,
            8 <= second <= 15,
            first != second,
    ;
}

/// A late reply to a request that timed out is not taken for the reply to its repetition: whatever the first
/// try would have taken, as an answer or as an error, the second passes over.
pub proof fn late_reply_is_passed_over(
    response: Seq<u8>,
    device_index: u8,
    feature_index: u8,
    function: u8,
    software_id: u8,
)
    requires
        function & 0x0f == 0,
        is_software_id(software_id),
        feature_index != 0xff,
        verdict(response, device_index, feature_index, echo_byte(function, software_id)) !is Ignored,
    ensures
        verdict(response, device_index, feature_index, echo_byte(function, software_id_after(software_id))) is Ignored,
{
    echo_tells_software_ids_apart(function, software_id, software_id_after(software_id));
}

/// Every request of a session carries a software ID between 8 and 15, whatever was asked of the device, and such an
/// ID is left for the next one.
pub proof fn sessions_keep_to_software_ids(before: Session, after: Session)
    requires
        grown(before, after),
        is_software_id(before.software_id),
    ensures
        is_software_id(after.software_id),
        forall|i: int| before.mark() <= i < after.mark() ==> is_software_id((#[trigger] after.exchanges[i]).software_id),
{
    assert forall|i: int| before.mark() <= i < after.mark() implies is_software_id(
        (#[trigger] after.exchanges[i]).software_id,
    ) by {
        growth_is_under_software_ids(before, after, i);
    }
    growth_leaves_due_id(before, after);
    if before.mark() < after.mark() {
        next_id_is_another(after.exchanges[after.mark() - 1]);
    }
}

/// After a request that took a software ID comes another ID; after one that took none, the same.
proof fn next_id_is_another(exchange: Exchange)
    requires
        is_software_id(exchange.software_id),
    ensures
        is_software_id(exchange.next_id()),
        exchange.request.refusal() is None <==> exchange.next_id() != exchange.software_id,
{
    software_ids_go_round(exchange.software_id);
}

/// A request that took a software ID and the one that comes right after it have different ones.
pub proof fn neighbours_have_different_software_ids(before: Session, after: Session, at: int)
    requires
        grown(before, after),
        before.mark() <= at,
        at + 1 < after.mark(),
        after.exchanges[at].request.refusal() is None,
    ensures
        after.exchanges[at].software_id != after.exchanges[at + 1].software_id,
{
    growth_is_under_software_ids(before, after, at);
    growth_is_under_software_ids(before, after, at + 1);
    next_id_is_another(after.exchanges[at]);
}

/// Whether two reports are alike but for the software ID, which differs.
pub open spec fn differ_in_software_id(first: Seq<u8>, second: Seq<u8>) -> bool {
    &&& first.len() == second.len()
    &&& first.len() > 3
    &&& forall|i: int| 0 <= i < first.len() && i != 3 ==> first[i] == second[i]
    &&& first[3] & 0xf0 == second[3] & 0xf0
    &&& first[3] & 0x0f != second[3] & 0x0f
}

/// Under different software IDs a request makes reports that are alike but for the ID.
pub proof fn reports_differ_in_software_id(request: Request, first: u8, second: u8)
    requires
        request.refusal() is None,
        is_software_id(first),
        is_software_id(second),
        first != second,
    ensures
        differ_in_software_id(request.report(first), request.report(second)),
{
    let function = request.function;
    assert((function | (first & 0x0f)) & 0xf0 == (function | (second & 0x0f)) & 0xf0 && (function | (first & 0x0f)) & 0x0f
        != (function | (second & 0x0f)) & 0x0f) by (bit_vector)
        requires
            function & 0x0f == 0,
            8 <= first <= 15,
            8 <= second <= 15,
            first != second,
    ;
}

/// A request that timed out was one that can be sent.
proof fn timed_out_request_can_be_sent(exchange: Exchange)
    requires
        exchange.conducted(),
        exchange.reply matches Err(ErrorView::Timeout { .. }),
    ensures
        exchange.request.refusal() is None,
{
}

/// A call that only reads is made once, and its reply is the result, unless that is a timeout. Then it is made exactly
/// once more, and the second reply is the result, a timeout too. The two reports are alike but for the software ID,
/// which differs.
pub proof fn read_is_repeated_once(
    before: Session,
    after: Session,
    feature_index: u8,
    function: u8,
    parameters: Seq<u8>,
    reply: Outcome<Seq<u8>>,
)
    requires
        grown(before, after),
        tried_at_most_twice(before, after),
        read_at(record(after), before.mark(), feature_index, function, parameters) == reached(reply, after.mark()),
    ensures
        ({
            let request = Request {
                device_index: before.device_index,
                feature_index,
                function,
                parameters,
                long: true,
            };
            let first = after.exchanges[before.mark()];
            let second = after.exchanges[before.mark() + 1];
            &&& first.request == request
            &&& first.conducted()
            &&& if first.reply matches Err(ErrorView::Timeout { .. }) {
                &&& after.mark() == before.mark() + 2
                &&& second.request == request
                &&& second.conducted()
                &&& reply == second.reply
                &&& differ_in_software_id(request.report(first.software_id), request.report(second.software_id))
            } else {
                &&& after.mark() == before.mark() + 1
                &&& reply == first.reply
            }
        }),
{
    grown_means(before, after);
    let first = after.exchanges[before.mark()];
    if first.reply matches Err(ErrorView::Timeout { .. }) {
        timed_out_request_can_be_sent(first);
        growth_is_under_software_ids(before, after, before.mark());
        growth_is_under_software_ids(before, after, before.mark() + 1);
        neighbours_have_different_software_ids(before, after, before.mark());
        reports_differ_in_software_id(
            first.request,
            first.software_id,
            after.exchanges[before.mark() + 1].software_id,
        );
    }
}

/// Where the node never fails, a request that can be sent goes out exactly once, as one report under a software ID
/// between 8 and 15, and comes to an answer, to an error of the device or to a timeout.
pub proof fn request_goes_out_exactly_once(exchange: Exchange)
    requires
        exchange.conducted(),
        exchange.awaits_reply,
        exchange.request.refusal() is None,
        forall|i: int| 0 <= i < exchange.traffic.len() ==> io_failure(#[trigger] exchange.traffic[i]) is None,
    ensures
        is_software_id(exchange.software_id),
        exists|at: int|
            {
                &&& 0 <= at < exchange.traffic.len()
                &&& #[trigger] exchange.traffic[at] is Wrote
                &&& exchange.traffic[at]->report == exchange.request.report(exchange.software_id)
                &&& forall|i: int|
                    0 <= i < exchange.traffic.len() && #[trigger] exchange.traffic[i] is Wrote ==> i == at
            },
        match exchange.reply {
            Ok(_) => true,
            Err(error) => error == exchange.timeout() || exists|code: u8| error == #[trigger] exchange.failure(code),
        },
{
    let cut = choose|cut: int| exchange.splits(cut);
    assert(exchange.splits(cut));
    assert(io_failure(exchange.traffic[cut - 1]) is None);
    assert(io_failure(exchange.traffic[cut]) is None);
    assert(exchange.traffic[cut] is Wrote);
    assert forall|i: int| 0 <= i < exchange.traffic.len() && #[trigger] exchange.traffic[i] is Wrote implies i == cut by {
        sent_at_most_once(exchange, i, cut);
    }
    let later = exchange.traffic.skip(cut + 2);
    assert forall|i: int| 0 <= i < later.len() implies io_failure(#[trigger] later[i]) is None by {
        assert(later[i] == exchange.traffic[cut + 2 + i]);
    }
    wait_fails_by_device_or_time(exchange, later, MOST_REPORTS as nat);
}

/// Every report is seven or twenty bytes long, by its report ID.
pub proof fn report_has_fixed_length(request: Request, software_id: u8)
    ensures
        request.report(software_id).len() == if request.long {
            LONG_REPORT_LEN as nat
        } else {
            SHORT_REPORT_LEN as nat
        },
        request.report(software_id)[0] == report_id_of(request.long),
        request.report(software_id)[1] == request.device_index,
{
}

}
