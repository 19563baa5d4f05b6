//! The seam between the protocol and a HID node.

use std::time::Instant;

use vstd::prelude::*;

use crate::error::{outcome, Outcome, Result};
use crate::hid::clock::{nanoseconds_since, now};

verus! {

/// A HID node that reports are written to and read from.
///
/// Reports are raw: the first byte is the report ID.
pub trait HidIo {
    /// Writes one report and says how many bytes went out.
    fn write_report(&self, data: &[u8]) -> (written: Result<usize>);

    /// Waits for one report, at most `timeout_ms` milliseconds, and puts it at the start of `data`.
    /// Says how many bytes of `data` it filled: none where nothing came in time.
    fn read_report(&self, data: &mut [u8], timeout_ms: i32) -> (read: Result<usize>)
        ensures
            final(data)@.len() == old(data)@.len(),
            read matches Ok(count) ==> count <= old(data)@.len(),
    ;
}

/// One thing that was done with a HID node or with the clock: what was handed over and what came back.
pub enum IoEvent {
    /// A report was written.
    Wrote { report: Seq<u8>, written: Outcome<usize> },
    /// A report was waited for.
    Read { timeout_ms: i32, received: Outcome<Seq<u8>> },
    /// The clock was started anew.
    Started,
    /// The clock was looked at, so many nanoseconds after it was started.
    Looked { nanoseconds: u128 },
}

/// A look at the clock.
pub open spec fn looked(nanoseconds: u128) -> IoEvent {
    IoEvent::Looked { nanoseconds }
}

/// The report that a read put at the start of some bytes, or what is wrong.
pub open spec fn received_in(read: Result<usize>, data: Seq<u8>) -> Outcome<Seq<u8>> {
    match read {
        Ok(count) => Ok(data.take(count as int)),
        Err(error) => Err(error@),
    }
}

/// A HID node and a clock, with a record of everything that was done with them.
pub struct Node<I: HidIo> {
    io: I,
    started: Instant,
    events: Ghost<Seq<IoEvent>>,
}

impl<I: HidIo> View for Node<I> {
    type V = Seq<IoEvent>;

    closed spec fn view(&self) -> Seq<IoEvent> {
        self.events@
    }
}

impl<I: HidIo> Node<I> {
    /// The HID node itself.
    pub closed spec fn held(&self) -> I {
        self.io
    }

    /// A node with which nothing has been done yet.
    pub fn new(io: I) -> (node: Self)
        ensures
            node@ == Seq::<IoEvent>::empty(),
            node.held() == io,
    {
        Node { io, started: now(), events: Ghost(Seq::empty()) }
    }

    /// The HID node itself.
    pub fn io(&self) -> (io: &I)
        ensures
            *io == self.held(),
    {
        &self.io
    }

    /// Writes one report: the HID node is handed these bytes, and what it says is passed on and recorded.
    pub fn write(&mut self, data: &[u8]) -> (written: Result<usize>)
        ensures
            call_ensures(I::write_report, (&old(self).held(), data), written),
            final(self)@ == old(self)@.push(IoEvent::Wrote { report: data@, written: outcome(written) }),
            final(self).held() == old(self).held(),
    {
        let written = self.io.write_report(data);
        proof {
            self.events@ = self.events@.push(IoEvent::Wrote { report: data@, written: outcome(written) });
        }
        written
    }

    /// Waits for one report: the HID node is lent these bytes for so long, and what it says and leaves there is passed
    /// on and recorded.
    pub fn read(&mut self, data: &mut [u8], timeout_ms: i32) -> (read: Result<usize>)
        ensures
            exists|lent: &mut [u8]|
                lent@ == old(data)@ && final(lent)@ == final(data)@ && #[trigger] call_ensures(
                    I::read_report,
                    (&old(self).held(), lent, timeout_ms),
                    read,
                ),
            final(data)@.len() == old(data)@.len(),
            read matches Ok(count) ==> count <= old(data)@.len(),
            final(self)@ == old(self)@.push(
                IoEvent::Read { timeout_ms, received: received_in(read, final(data)@) },
            ),
            final(self).held() == old(self).held(),
    {
        let read = self.io.read_report(data, timeout_ms);
        assert(self.io == old(self).held());
        proof {
            self.events@ = self.events@.push(IoEvent::Read { timeout_ms, received: received_in(read, data@) });
        }
        read
    }

    /// Starts the clock anew.
    pub fn start(&mut self)
        ensures
            final(self)@ == old(self)@.push(IoEvent::Started),
            final(self).held() == old(self).held(),
    {
        self.started = now();
        proof {
            self.events@ = self.events@.push(IoEvent::Started);
        }
    }

    /// Says how many nanoseconds have passed since the clock was started.
    pub fn elapsed(&mut self) -> (nanoseconds: u128)
        ensures
            final(self)@ == old(self)@.push(IoEvent::Looked { nanoseconds }),
            final(self).held() == old(self).held(),
    {
        let nanoseconds = nanoseconds_since(&self.started);
        proof {
            self.events@ = self.events@.push(IoEvent::Looked { nanoseconds });
        }
        nanoseconds
    }
}

}
