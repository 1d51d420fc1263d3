//! One accepted connection: its pacing state and the packet it sends.

use crate::error::ServerError;
use vstd::bytes::{
    lemma_auto_spec_u64_to_from_le_bytes, spec_u64_from_le_bytes, spec_u64_to_le_bytes,
    spec_u64_to_le_bytes_open, spec_u64_to_le_bytes_to_open,
};
use vstd::prelude::*;

verus! {

/// Length in bytes of every packet sent.
pub const PACKET_SIZE: usize = 1024;

/// Length in bytes of the timestamp at the start of a packet.
pub const STAMP_SIZE: usize = 8;

/// What became of one attempt to write a whole packet to a socket.
#[derive(Clone, Copy, Debug, PartialEq, Eq, Structural)]
pub enum WriteOutcome {
    /// The whole packet was written.
    Written,
    /// The socket cannot take the packet now.
    WouldBlock,
    /// The stream ended before the packet was written.
    UnexpectedEof,
    /// The peer reset the connection.
    ConnectionReset,
    /// The write failed for any other reason.
    Failed,
}

/// Nanoseconds from `since` to `now`; zero where `now` lies before `since`.
pub open spec fn elapsed(since: u64, now: u64) -> nat {
    if now >= since {
        (now - since) as nat
    } else {
        0
    }
}

/// A packet that carries only padding.
pub open spec fn blank_packet() -> Seq<u8> {
    Seq::new(PACKET_SIZE as nat, |i: int| 0u8)
}

/// `packet` with its first eight bytes replaced by `now`, least significant
/// byte first.
pub open spec fn stamp(packet: Seq<u8>, now: u64) -> Seq<u8> {
    spec_u64_to_le_bytes(now) + packet.subrange(STAMP_SIZE as int, packet.len() as int)
}

/// The timestamp that the first eight bytes of `packet` carry.
pub open spec fn timestamp_of(packet: Seq<u8>) -> u64 {
    spec_u64_from_le_bytes(packet.subrange(0, STAMP_SIZE as int))
}

/// A stamped packet carries the clock value it was stamped with, and is as
/// long as it was.
pub proof fn lemma_stamp_carries_time(packet: Seq<u8>, now: u64)
    requires
        packet.len() >= STAMP_SIZE,
    ensures
        timestamp_of(stamp(packet, now)) == now,
        stamp(packet, now).len() == packet.len(),
        stamp(packet, now).subrange(STAMP_SIZE as int, packet.len() as int) == packet.subrange(
            STAMP_SIZE as int,
            packet.len() as int,
        ),
{
    lemma_auto_spec_u64_to_from_le_bytes();
    assert(stamp(packet, now).subrange(0, STAMP_SIZE as int) =~= spec_u64_to_le_bytes(now));
    assert(stamp(packet, now).subrange(STAMP_SIZE as int, packet.len() as int) =~= packet.subrange(
        STAMP_SIZE as int,
        packet.len() as int,
    ));
}

/// The state of a connection as the pacing rules see it.
pub struct ConnState {
    /// Index of the slot that holds the connection.
    pub id: nat,
    /// Least number of nanoseconds between two writes.
    pub period: u64,
    /// Whether the socket was last known to take a write.
    pub writable: bool,
    /// Clock value at the last completed write, if there was one.
    pub last_write: Option<u64>,
    /// The packet as it was last stamped.
    pub packet: Seq<u8>,
}

impl ConnState {
    /// A connection just accepted into slot `id`.
    pub open spec fn fresh(period: u64, id: nat) -> ConnState {
        ConnState { id, period, writable: true, last_write: None, packet: blank_packet() }
    }

    /// The packet has the length of every packet sent.
    pub open spec fn wf(self) -> bool {
        self.packet.len() == PACKET_SIZE
    }

    /// The period has run out since the last completed write, or there was
    /// no write yet.
    pub open spec fn period_over(self, now: u64) -> bool {
        match self.last_write {
            Some(t) => elapsed(t, now) >= self.period,
            None => true,
        }
    }

    /// A write is to be attempted at clock value `now`.
    pub open spec fn due(self, now: u64) -> bool {
        self.writable && self.period_over(now)
    }

    /// The state once a write has been prepared at `now`: where one is due
    /// the packet carries `now`, otherwise nothing changes.
    pub open spec fn prepared(self, now: u64) -> ConnState {
        if self.due(now) {
            ConnState { packet: stamp(self.packet, now), ..self }
        } else {
            self
        }
    }

    /// The state after an attempted write at `now` ended with `outcome`.
    pub open spec fn completed(self, now: u64, outcome: WriteOutcome) -> ConnState {
        match outcome {
            WriteOutcome::Written => ConnState { last_write: Some(now), ..self },
            WriteOutcome::WouldBlock => ConnState { writable: false, ..self },
            _ => self,
        }
    }

    /// The state after the socket was reported writable again.
    pub open spec fn unblocked(self) -> ConnState {
        ConnState { writable: true, ..self }
    }
}

/// Whether a connection stays open after a write that ended with `outcome`,
/// or the error that ends the server.
pub open spec fn verdict(outcome: WriteOutcome) -> Result<bool, ServerError> {
    match outcome {
        WriteOutcome::Written => Ok(true),
        WriteOutcome::WouldBlock => Ok(true),
        WriteOutcome::UnexpectedEof => Ok(false),
        WriteOutcome::ConnectionReset => Ok(false),
        WriteOutcome::Failed => Err(ServerError::Io),
    }
}

/// The eight bytes of `now`, least significant first.
pub fn stamp_bytes(now: u64) -> (bytes: [u8; STAMP_SIZE])
    ensures
        bytes@ == spec_u64_to_le_bytes(now),
{
    assert(now & 0xff < 256 && (now >> 8) & 0xff < 256 && (now >> 16) & 0xff < 256 && (now >> 24)
        & 0xff < 256 && (now >> 32) & 0xff < 256 && (now >> 40) & 0xff < 256 && (now >> 48) & 0xff
        < 256 && (now >> 56) & 0xff < 256) by (bit_vector);
    let bytes = [
        (now & 0xff) as u8,
        ((now >> 8) & 0xff) as u8,
        ((now >> 16) & 0xff) as u8,
        ((now >> 24) & 0xff) as u8,
        ((now >> 32) & 0xff) as u8,
        ((now >> 40) & 0xff) as u8,
        ((now >> 48) & 0xff) as u8,
        ((now >> 56) & 0xff) as u8,
    ];
    proof {
        spec_u64_to_le_bytes_to_open(now);
        assert(bytes@ =~= spec_u64_to_le_bytes_open(now));
    }
    bytes
}

/// The record kept for one accepted connection.
pub struct Conn {
    buffer: [u8; PACKET_SIZE],
    writable: bool,
    period: u64,
    last_write: Option<u64>,
    id: usize,
}

impl View for Conn {
    type V = ConnState;

    closed spec fn view(&self) -> ConnState {
        ConnState {
            id: self.id as nat,
            period: self.period,
            writable: self.writable,
            last_write: self.last_write,
            packet: self.buffer@,
        }
    }
}

impl Conn {
    /// The record of a connection just accepted into slot `id`, which sends
    /// at most once every `period` nanoseconds.
    pub fn new(period: u64, id: usize) -> (conn: Conn)
        ensures
            conn@ == ConnState::fresh(period, id as nat),
            conn@.wf(),
    {
        let conn = Conn { buffer: [0; PACKET_SIZE], writable: true, period, last_write: None, id };
        assert(conn.buffer@ =~= blank_packet());
        conn
    }

    /// Index of the slot that holds the connection.
    pub fn id(&self) -> (id: usize)
        ensures
            id == self@.id,
            self@.wf(),
    {
        self.id
    }

    /// Least number of nanoseconds between two writes.
    pub fn period(&self) -> (period: u64)
        ensures
            period == self@.period,
    {
        self.period
    }

    /// Whether the socket was last known to take a write.
    pub fn is_writable(&self) -> (writable: bool)
        ensures
            writable == self@.writable,
    {
        self.writable
    }

    /// Clock value at the last completed write.
    pub fn last_write(&self) -> (last: Option<u64>)
        ensures
            last == self@.last_write,
    {
        self.last_write
    }

    /// The packet to hand to the socket.
    pub fn packet(&self) -> (packet: &[u8; PACKET_SIZE])
        ensures
            packet@ == self@.packet,
            self@.wf(),
    {
        &self.buffer
    }

    /// Whether a write is to be attempted at clock value `now`.
    pub fn is_due(&self, now: u64) -> (due: bool)
        ensures
            due == self@.due(now),
    {
        if !self.writable {
            return false;
        }
        match self.last_write {
            Some(t) => now.saturating_sub(t) >= self.period,
            None => true,
        }
    }

    /// Notes that the socket takes writes again.
    pub fn set_writable(&mut self)
        ensures
            final(self)@ == old(self)@.unblocked(),
            final(self)@.wf(),
    {
        self.writable = true;
    }

    /// Prepares a write at clock value `now`. Where one is due, the packet
    /// is stamped with `now` and the result is `true`; otherwise the record
    /// is left as it is.
    pub fn begin_write(&mut self, now: u64) -> (due: bool)
        ensures
            due == old(self)@.due(now),
            final(self)@ == old(self)@.prepared(now),
            final(self)@.wf(),
    {
        if !self.is_due(now) {
            return false;
        }
        let bytes = stamp_bytes(now);
        let mut i: usize = 0;
        while i < STAMP_SIZE
            invariant
                i <= STAMP_SIZE,
                bytes@ == spec_u64_to_le_bytes(now),
                bytes@.len() == STAMP_SIZE,
                self.writable == old(self).writable,
                self.period == old(self).period,
                self.last_write == old(self).last_write,
                self.id == old(self).id,
                forall|j: int| 0 <= j < i ==> self.buffer@[j] == bytes@[j],
                forall|j: int| i <= j < PACKET_SIZE ==> self.buffer@[j] == old(self).buffer@[j],
            decreases STAMP_SIZE - i,
        {
            self.buffer[i] = bytes[i];
            i += 1;
        }
        assert(self.buffer@ =~= stamp(old(self).buffer@, now));
        true
    }

    /// Takes in what became of the write prepared at `now`. A completed
    /// write starts a new period at `now`; a socket that would block is not
    /// tried again until it is reported writable. The result says whether
    /// the connection stays open, or names the error that ends the server.
    pub fn complete_write(&mut self, now: u64, outcome: WriteOutcome) -> (alive: Result<
        bool,
        ServerError,
    >)
        ensures
            alive == verdict(outcome),
            final(self)@ == old(self)@.completed(now, outcome),
            final(self)@.wf(),
    {
        match outcome {
            WriteOutcome::Written => {
                self.last_write = Some(now);
                Ok(true)
            },
            WriteOutcome::WouldBlock => {
                self.writable = false;
                Ok(true)
            },
            WriteOutcome::UnexpectedEof => Ok(false),
            WriteOutcome::ConnectionReset => Ok(false),
            WriteOutcome::Failed => Err(ServerError::Io),
        }
    }
}

} // verus!
