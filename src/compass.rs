//! The polling cycle of a serial compass.
//!
//! Each cycle sends one request byte, then reads an eight-byte big-endian
//! reply holding the raw heading. The offset in force when the request has
//! been sent travels with that cycle, so a later change of the offset only
//! reaches later readings. Headings are carried as the bit patterns of the
//! device's IEEE-754 doubles; the caller turns them into numbers.
use vstd::prelude::*;

use crate::wire::{be_value, read_be_u64};

verus! {

/// The byte that asks the device for a reading (`'$'`).
pub const REQUEST_BYTE: u8 = 0x24;

/// Length of the device's reply.
pub const REPLY_LEN: usize = 8;

/// The bytes of one request.
pub fn request_bytes() -> (r: Vec<u8>)
    ensures
        r@ == seq![REQUEST_BYTE],
{
    let mut r: Vec<u8> = Vec::new();
    r.push(REQUEST_BYTE);
    r
}

/// Reads a reply: its eight bytes, big-endian, as the bit pattern of the raw
/// heading. A reply of any other length gives `None`.
pub fn decode_reply(bytes: &[u8]) -> (r: Option<u64>)
    ensures
        r == (if bytes@.len() == REPLY_LEN {
            Some(be_value(bytes@) as u64)
        } else {
            None::<u64>
        }),
        r is Some ==> r->0 as nat == be_value(bytes@),
{
    if bytes.len() != REPLY_LEN {
        return None;
    }
    let v = read_be_u64(bytes, 0);
    assert(bytes@.subrange(0, 8) =~= bytes@);
    Some(v)
}

/// A heading as published: the raw bit pattern the device sent and the
/// bit pattern of the calibration offset to subtract from it.
#[derive(Clone, Copy, Debug, PartialEq, Eq, Structural)]
pub struct Reading {
    pub raw: u64,
    pub offset: u64,
}

/// Where the poller stands within a cycle.
#[derive(Clone, Copy, Debug, PartialEq, Eq, Structural)]
pub enum Phase {
    /// Between cycles.
    Idle,
    /// The request byte is being written.
    Requesting,
    /// The reply is being read; `offset` is the offset this cycle applies.
    Awaiting { offset: u64 },
    /// The poller has seen the stop signal and ended.
    Stopped,
}

/// What the polling task is to do next.
#[derive(Clone, Copy, Debug, PartialEq, Eq, Structural)]
pub enum PollAction {
    /// Write `request_bytes()` to the device.
    SendRequest,
    /// Read `REPLY_LEN` bytes from the device.
    ReadReply,
    /// Wait for the next interval tick.
    Wait,
    /// Leave the loop.
    Stop,
}

/// State of a compass polling task: the stop flag, the current offset, the
/// cycle in progress and the last published reading.
#[derive(Clone, Copy, Debug, PartialEq, Eq, Structural)]
pub struct CompassPoller {
    pub running: bool,
    pub offset: u64,
    pub phase: Phase,
    pub last: Option<Reading>,
}

/// A fresh poller: running, idle, with no reading yet.
pub open spec fn spec_new(offset: u64) -> CompassPoller {
    CompassPoller { running: true, offset, phase: Phase::Idle, last: None }
}

/// An interval tick: the stop flag is looked at before any I/O. A cycle that
/// has not finished by the next tick is abandoned.
pub open spec fn spec_tick(p: CompassPoller) -> (CompassPoller, PollAction) {
    if !p.running || p.phase == Phase::Stopped {
        (CompassPoller { phase: Phase::Stopped, ..p }, PollAction::Stop)
    } else {
        (CompassPoller { phase: Phase::Requesting, ..p }, PollAction::SendRequest)
    }
}

/// The request was written (`ok`) or the write failed. A failure makes the
/// reading unknown; a success fixes the offset for this cycle.
pub open spec fn spec_written(p: CompassPoller, ok: bool) -> (CompassPoller, PollAction) {
    if p.phase != Phase::Requesting {
        (p, PollAction::Wait)
    } else if ok {
        (CompassPoller { phase: Phase::Awaiting { offset: p.offset }, ..p }, PollAction::ReadReply)
    } else {
        (CompassPoller { phase: Phase::Idle, last: None, ..p }, PollAction::Wait)
    }
}

/// The reading that a reply gives under `offset`.
pub open spec fn reply_reading(reply: Option<Seq<u8>>, offset: u64) -> Option<Reading> {
    match reply {
        Some(b) => if b.len() == REPLY_LEN {
            Some(Reading { raw: be_value(b) as u64, offset })
        } else {
            None
        },
        None => None,
    }
}

/// The reply was read (`Some(bytes)`) or the read failed (`None`). Only a
/// cycle that is awaiting its reply takes it.
pub open spec fn spec_replied(p: CompassPoller, reply: Option<Seq<u8>>) -> CompassPoller {
    match p.phase {
        Phase::Awaiting { offset } => CompassPoller {
            phase: Phase::Idle,
            last: reply_reading(reply, offset),
            ..p
        },
        _ => p,
    }
}

impl CompassPoller {
    /// A poller that runs with the given offset and has no reading yet.
    pub fn new(offset: u64) -> (r: CompassPoller)
        ensures
            r == spec_new(offset),
    {
        CompassPoller { running: true, offset, phase: Phase::Idle, last: None }
    }

    /// Handles an interval tick.
    pub fn on_tick(&mut self) -> (r: PollAction)
        ensures
            (*final(self), r) == spec_tick(*old(self)),
    {
        if !self.running || self.phase == Phase::Stopped {
            self.phase = Phase::Stopped;
            PollAction::Stop
        } else {
            self.phase = Phase::Requesting;
            PollAction::SendRequest
        }
    }

    /// Handles the outcome of writing the request.
    pub fn on_written(&mut self, ok: bool) -> (r: PollAction)
        ensures
            (*final(self), r) == spec_written(*old(self), ok),
    {
        if self.phase != Phase::Requesting {
            PollAction::Wait
        } else if ok {
            self.phase = Phase::Awaiting { offset: self.offset };
            PollAction::ReadReply
        } else {
            self.phase = Phase::Idle;
            self.last = None;
            PollAction::Wait
        }
    }

    /// Handles the outcome of reading the reply.
    pub fn on_replied(&mut self, reply: Option<&[u8]>) -> (r: PollAction)
        ensures
            *final(self) == spec_replied(*old(self), match reply {
                Some(b) => Some(b@),
                None => None,
            }),
            r == PollAction::Wait,
    {
        match self.phase {
            Phase::Awaiting { offset } => {
                let reading = match reply {
                    Some(b) => match decode_reply(b) {
                        Some(raw) => Some(Reading { raw, offset }),
                        None => None,
                    },
                    None => None,
                };
                self.phase = Phase::Idle;
                self.last = reading;
            },
            _ => {},
        }
        PollAction::Wait
    }

    /// Replaces the calibration offset. A cycle in flight keeps its own.
    pub fn set_offset(&mut self, new_offset: u64)
        ensures
            *final(self) == (CompassPoller { offset: new_offset, ..*old(self) }),
    {
        self.offset = new_offset;
    }

    /// Raises the stop signal; the poller ends at its next tick.
    pub fn stop(&mut self)
        ensures
            *final(self) == (CompassPoller { running: false, ..*old(self) }),
    {
        self.running = false;
    }

    /// The last published reading, if the last cycle gave one.
    pub fn get_value(&self) -> (r: Option<Reading>)
        ensures
            r == self.last,
    {
        self.last
    }
}

/// A full cycle of a running poller, with a written request and an
/// eight-byte reply, publishes the reply's raw heading together with the
/// offset that was in force when the cycle began.
pub proof fn lemma_cycle_applies_offset(p: CompassPoller, reply: Seq<u8>)
    requires
        p.running,
        p.phase != Phase::Stopped,
        reply.len() == REPLY_LEN,
    ensures
        ({
            let (a, act1) = spec_tick(p);
            let (b, act2) = spec_written(a, true);
            let c = spec_replied(b, Some(reply));
            &&& act1 == PollAction::SendRequest
            &&& act2 == PollAction::ReadReply
            &&& c.last == Some(Reading { raw: be_value(reply) as u64, offset: p.offset })
        }),
{
}

/// Changing the offset while a reply is awaited leaves that reply's reading
/// as it would have been; the next cycle uses the new offset.
pub proof fn lemma_offset_change_in_flight(
    p: CompassPoller,
    new_offset: u64,
    reply: Option<Seq<u8>>,
    next_reply: Seq<u8>,
)
    requires
        p.phase is Awaiting,
        p.running,
        next_reply.len() == REPLY_LEN,
    ensures
        ({
            let changed = CompassPoller { offset: new_offset, ..p };
            let done = spec_replied(changed, reply);
            let (a, _) = spec_tick(done);
            let (b, _) = spec_written(a, true);
            let later = spec_replied(b, Some(next_reply));
            &&& done.last == spec_replied(p, reply).last
            &&& later.last == Some(Reading { raw: be_value(next_reply) as u64, offset: new_offset })
        }),
{
}

/// Once stopped, the next tick ends the poller without touching the device,
/// and the poller stays ended.
pub proof fn lemma_stop_before_io(p: CompassPoller)
    ensures
        ({
            let q = CompassPoller { running: false, ..p };
            let (a, act) = spec_tick(q);
            let (_, act2) = spec_tick(a);
            &&& act == PollAction::Stop
            &&& act2 == PollAction::Stop
            &&& a.phase == Phase::Stopped
        }),
{
}

} // verus!
