//! The slot table, the token counter and the rules of one server loop turn.

use crate::conn::{
    lemma_stamp_carries_time, verdict, Conn, ConnState, WriteOutcome, PACKET_SIZE,
};
use crate::error::ServerError;
use vstd::prelude::*;

verus! {

/// Token of the listening socket. Connection tokens lie below it.
pub const LISTENER: usize = 10000;

/// Nanoseconds in one second.
pub const NANOS_PER_SEC: u64 = 1_000_000_000;

/// The pacing period in nanoseconds for `rate` writes a second.
pub open spec fn period_of(rate: nat) -> u64
    recommends
        rate > 0,
{
    (NANOS_PER_SEC as nat / rate) as u64
}

/// How long one poll of the multiplexer may wait, in nanoseconds: it
/// returns at once with what is ready.
pub const POLL_TIMEOUT_NANOS: u64 = 0;

/// How long the server pauses after a reset, in nanoseconds.
pub const RESET_PAUSE_NANOS: u64 = 1_000_000_000;

/// The readiness that a socket is registered for.
#[derive(Clone, Copy, Debug, PartialEq, Eq, Structural)]
pub enum Interest {
    /// The socket can be read, or a connection is pending on it.
    Readable,
    /// The socket takes writes.
    Writable,
}

/// How a socket is to be set up and registered with the multiplexer.
#[derive(Clone, Copy, Debug, PartialEq, Eq, Structural)]
pub struct Registration {
    /// Token under which the socket is registered.
    pub token: usize,
    /// The readiness to be reported for it.
    pub interest: Interest,
    /// Whether the socket sends each packet at once, without delay.
    pub nodelay: bool,
}

/// What became of one attempt to accept a pending connection.
#[derive(Clone, Copy, Debug, PartialEq, Eq, Structural)]
pub enum AcceptOutcome {
    /// A connection was accepted.
    Accepted,
    /// No connection is pending.
    WouldBlock,
    /// Accepting failed for any other reason.
    Failed,
}

/// How the listening socket is registered: under its own token, for
/// readability.
pub open spec fn listener_registration() -> Registration {
    Registration { token: LISTENER, interest: Interest::Readable, nodelay: false }
}

/// How the connection with token `token` is registered: for writability
/// only, and sending without delay.
pub open spec fn conn_registration(token: usize) -> Registration {
    Registration { token, interest: Interest::Writable, nodelay: true }
}

/// What the multiplexer reported about one registered socket.
#[derive(Clone, Copy, Debug, PartialEq, Eq, Structural)]
pub struct Readiness {
    /// Token under which the socket was registered.
    pub token: usize,
    /// The socket takes writes.
    pub writable: bool,
    /// The write side of the socket is closed.
    pub write_closed: bool,
}

/// What the server did on a readiness event, and so what is left to do
/// with the sockets.
#[derive(Clone, Copy, Debug, PartialEq, Eq, Structural)]
pub enum Reaction {
    /// The listener is ready: pending connections are to be accepted.
    Accept,
    /// The connection's slot was emptied: its socket is to be dropped.
    Closed,
    /// The connection was marked writable.
    Unblocked,
    /// Nothing changed.
    Ignored,
}

/// The slot table and the token counter as the rules see them.
pub struct ServerState {
    /// Least number of nanoseconds between two writes on one connection.
    pub period: u64,
    /// The slots in order of their index; an emptied slot stays in place.
    pub slots: Seq<Option<ConnState>>,
    /// The token that the next accepted connection gets.
    pub next_token: nat,
}

impl ServerState {
    /// No connection accepted yet.
    pub open spec fn initial(period: u64) -> ServerState {
        ServerState { period, slots: Seq::empty(), next_token: 0 }
    }

    /// Slot `i` exists and holds a connection.
    pub open spec fn occupied(self, i: int) -> bool {
        0 <= i < self.slots.len() && self.slots[i] is Some
    }

    /// Every connection sits in the slot that its `id` names.
    pub open spec fn ids_match(self) -> bool {
        forall|i: int| #[trigger] self.occupied(i) ==> self.slots[i]->0.id == i
    }

    /// The table is as accepting and closing connections can leave it: one
    /// slot for each token handed out, no token at or above the listener's,
    /// and every connection in its own slot, with the server's period and a
    /// packet of full length.
    pub open spec fn wf(self) -> bool {
        &&& self.next_token == self.slots.len()
        &&& self.next_token <= LISTENER
        &&& self.ids_match()
        &&& forall|i: int|
            #[trigger] self.occupied(i) ==> self.slots[i]->0.period == self.period
                && self.slots[i]->0.wf()
    }

    /// No token is left for another connection.
    pub open spec fn full(self) -> bool {
        self.next_token >= LISTENER
    }

    /// The state after one more connection was accepted.
    pub open spec fn accepted(self) -> ServerState {
        ServerState {
            slots: self.slots.push(Some(ConnState::fresh(self.period, self.next_token))),
            next_token: self.next_token + 1,
            ..self
        }
    }

    /// What the server answers to an attempt to accept that ended with
    /// `outcome`: how to register the new connection, that no more is
    /// pending, or the error that ends the server.
    pub open spec fn accept_verdict(self, outcome: AcceptOutcome) -> Result<
        Option<Registration>,
        ServerError,
    > {
        match outcome {
            AcceptOutcome::Accepted => if self.full() {
                Err(ServerError::CapacityExceeded)
            } else {
                Ok(Some(conn_registration(self.next_token as usize)))
            },
            AcceptOutcome::WouldBlock => Ok(None),
            AcceptOutcome::Failed => Err(ServerError::Io),
        }
    }

    /// The state after an attempt to accept that ended with `outcome`.
    pub open spec fn after_accept(self, outcome: AcceptOutcome) -> ServerState {
        if outcome is Accepted && !self.full() {
            self.accepted()
        } else {
            self
        }
    }

    /// The state with slot `i` emptied.
    pub open spec fn closed(self, i: int) -> ServerState {
        ServerState { slots: self.slots.update(i, None), ..self }
    }

    /// The state with the connection in slot `i` replaced by `conn`.
    pub open spec fn with_conn(self, i: int, conn: ConnState) -> ServerState {
        ServerState { slots: self.slots.update(i, Some(conn)), ..self }
    }

    /// What the server answers to the event `ev`.
    pub open spec fn reaction(self, ev: Readiness) -> Result<Reaction, ServerError> {
        if ev.token == LISTENER {
            Ok(Reaction::Accept)
        } else if ev.token >= self.slots.len() {
            Err(ServerError::UnknownToken)
        } else if self.slots[ev.token as int] is None {
            Ok(Reaction::Ignored)
        } else if ev.write_closed {
            Ok(Reaction::Closed)
        } else if ev.writable {
            Ok(Reaction::Unblocked)
        } else {
            Ok(Reaction::Ignored)
        }
    }

    /// The state after the event `ev`.
    pub open spec fn reacted(self, ev: Readiness) -> ServerState {
        match self.reaction(ev) {
            Ok(Reaction::Closed) => self.closed(ev.token as int),
            Ok(Reaction::Unblocked) => self.with_conn(
                ev.token as int,
                self.slots[ev.token as int]->0.unblocked(),
            ),
            _ => self,
        }
    }

    /// A write is to be attempted on slot `i` at clock value `now`.
    pub open spec fn due(self, i: int, now: u64) -> bool {
        self.occupied(i) && self.slots[i]->0.due(now)
    }

    /// The state once a write on slot `i` has been prepared at `now`.
    pub open spec fn prepared(self, i: int, now: u64) -> ServerState {
        if self.occupied(i) {
            self.with_conn(i, self.slots[i]->0.prepared(now))
        } else {
            self
        }
    }

    /// Whether slot `i` holds a connection after a write on it ended with
    /// `outcome`, or the error that ends the server.
    pub open spec fn write_verdict(self, i: int, outcome: WriteOutcome) -> Result<
        bool,
        ServerError,
    > {
        if self.occupied(i) {
            verdict(outcome)
        } else {
            Ok(false)
        }
    }

    /// The state after a write on slot `i`, attempted at `now`, ended with
    /// `outcome`.
    pub open spec fn completed(self, i: int, now: u64, outcome: WriteOutcome) -> ServerState {
        match self.write_verdict(i, outcome) {
            Ok(true) => self.with_conn(i, self.slots[i]->0.completed(now, outcome)),
            Ok(false) => if self.occupied(i) {
                self.closed(i)
            } else {
                self
            },
            Err(_) => self,
        }
    }

    /// No slot holds a connection.
    pub open spec fn all_closed(self) -> bool {
        forall|i: int| 0 <= i < self.slots.len() ==> self.slots[i] is None
    }

    /// A round has ended: connections were accepted since the last reset
    /// and all of them are gone.
    pub open spec fn quiescent(self) -> bool {
        self.next_token > 0 && self.all_closed()
    }

    /// The state at the end of a loop turn: reset where the round has
    /// ended, else as it was.
    pub open spec fn round_closed(self) -> ServerState {
        if self.quiescent() {
            ServerState::initial(self.period)
        } else {
            self
        }
    }
}

impl ServerState {
    /// Accepting a connection keeps the table well formed.
    pub proof fn lemma_accepted_wf(self)
        requires
            self.wf(),
            !self.full(),
        ensures
            self.accepted().wf(),
    {
        let after = self.accepted();
        assert forall|i: int| #[trigger] after.occupied(i) implies after.slots[i]->0.id == i
            && after.slots[i]->0.period == after.period && after.slots[i]->0.wf() by {
            if i < self.slots.len() {
                assert(self.occupied(i));
            }
        }
    }

    /// Emptying a slot keeps the table well formed.
    pub proof fn lemma_closed_wf(self, i: int)
        requires
            self.wf(),
            0 <= i < self.slots.len(),
        ensures
            self.closed(i).wf(),
    {
        let after = self.closed(i);
        assert forall|j: int| #[trigger] after.occupied(j) implies after.slots[j]->0.id == j
            && after.slots[j]->0.period == after.period && after.slots[j]->0.wf() by {
            assert(self.occupied(j));
        }
    }

    /// Replacing a connection by one with the same slot index and period
    /// keeps the table well formed.
    pub proof fn lemma_with_conn_wf(self, i: int, conn: ConnState)
        requires
            self.wf(),
            0 <= i < self.slots.len(),
            conn.id == i,
            conn.period == self.period,
            conn.wf(),
        ensures
            self.with_conn(i, conn).wf(),
    {
        let after = self.with_conn(i, conn);
        assert forall|j: int| #[trigger] after.occupied(j) implies after.slots[j]->0.id == j
            && after.slots[j]->0.period == after.period && after.slots[j]->0.wf() by {
            if j != i {
                assert(self.occupied(j));
            }
        }
    }

    /// A readiness event keeps the table well formed.
    pub proof fn lemma_reacted_wf(self, ev: Readiness)
        requires
            self.wf(),
        ensures
            self.reacted(ev).wf(),
    {
        match self.reaction(ev) {
            Ok(Reaction::Closed) => {
                self.lemma_closed_wf(ev.token as int);
            },
            Ok(Reaction::Unblocked) => {
                let i = ev.token as int;
                assert(self.occupied(i));
                self.lemma_with_conn_wf(i, self.slots[i]->0.unblocked());
            },
            _ => {},
        }
    }
}

impl ServerState {
    /// Preparing a write keeps the table well formed.
    pub proof fn lemma_prepared_wf(self, i: int, now: u64)
        requires
            self.wf(),
        ensures
            self.prepared(i, now).wf(),
    {
        if self.occupied(i) {
            lemma_stamp_carries_time(self.slots[i]->0.packet, now);
            self.lemma_with_conn_wf(i, self.slots[i]->0.prepared(now));
        }
    }

    /// Taking in the outcome of a write keeps the table well formed.
    pub proof fn lemma_completed_wf(self, i: int, now: u64, outcome: WriteOutcome)
        requires
            self.wf(),
        ensures
            self.completed(i, now, outcome).wf(),
    {
        if self.occupied(i) {
            match verdict(outcome) {
                Ok(true) => {
                    self.lemma_with_conn_wf(i, self.slots[i]->0.completed(now, outcome));
                },
                Ok(false) => {
                    self.lemma_closed_wf(i);
                },
                Err(_) => {},
            }
        }
    }

    /// Ending a loop turn keeps the table well formed, and after a reset
    /// the table is empty and the token counter is zero.
    pub proof fn lemma_round_closed_wf(self)
        requires
            self.wf(),
        ensures
            self.round_closed().wf(),
            self.quiescent() ==> self.round_closed().slots.len() == 0
                && self.round_closed().next_token == 0,
    {
    }
}

impl ServerState {
    /// `after` follows `self` within one round: the period is the same, no
    /// slot was removed and no token taken back, and a slot once emptied is
    /// still empty.
    pub open spec fn continued_by(self, after: ServerState) -> bool {
        &&& after.period == self.period
        &&& after.slots.len() >= self.slots.len()
        &&& after.next_token >= self.next_token
        &&& forall|i: int|
            0 <= i < self.slots.len() && self.slots[i] is None ==> #[trigger] after.slots[i] is None
    }

    /// The table only grows by appending, and emptied slots stay empty,
    /// until a reset clears it: every step but the end of a round continues
    /// the state, and the end of a turn either continues it or leaves the
    /// initial state.
    pub proof fn lemma_table_grows_until_reset(
        self,
        accepting: AcceptOutcome,
        ev: Readiness,
        i: int,
        now: u64,
        outcome: WriteOutcome,
    )
        ensures
            self.continued_by(self.after_accept(accepting)),
            self.continued_by(self.reacted(ev)),
            self.continued_by(self.prepared(i, now)),
            self.continued_by(self.completed(i, now, outcome)),
            self.continued_by(self.round_closed()) || (self.quiescent() && self.round_closed()
                == ServerState::initial(self.period)),
    {
    }
}

/// The view of one slot.
pub open spec fn slot_view(slot: Option<Conn>) -> Option<ConnState> {
    match slot {
        Some(conn) => Some(conn@),
        None => None,
    }
}

/// The view of the slots of a table.
pub open spec fn slots_view(slots: Seq<Option<Conn>>) -> Seq<Option<ConnState>> {
    slots.map_values(|slot: Option<Conn>| slot_view(slot))
}

/// Hands out the token `*current` and moves the counter on by one.
pub fn next(current: &mut usize) -> (token: usize)
    requires
        *old(current) < usize::MAX,
    ensures
        token == *old(current),
        *final(current) == *old(current) + 1,
{
    let token = *current;
    *current += 1;
    token
}

/// The server's own state: the pacing period, the slot table and the token
/// counter.
pub struct Server {
    period: u64,
    conns: Vec<Option<Conn>>,
    next_token: usize,
}

impl View for Server {
    type V = ServerState;

    closed spec fn view(&self) -> ServerState {
        ServerState {
            period: self.period,
            slots: slots_view(self.conns@),
            next_token: self.next_token as nat,
        }
    }
}

impl Server {
    #[verifier::type_invariant]
    spec fn inv(self) -> bool {
        self@.wf()
    }

    /// A server with an empty table that lets each connection send `rate`
    /// times a second.
    pub fn new(rate: usize) -> (server: Server)
        requires
            rate > 0,
        ensures
            server@ == ServerState::initial(period_of(rate as nat)),
            server@.wf(),
    {
        let period = NANOS_PER_SEC / (rate as u64);
        Server::empty(period)
    }

    fn empty(period: u64) -> (server: Server)
        ensures
            server@ == ServerState::initial(period),
    {
        let server = Server { period, conns: Vec::new(), next_token: 0 };
        assert(server@.slots =~= Seq::empty());
        server
    }

    /// Moves the table out and leaves an empty one behind. A method that
    /// changes the table works on it outside the server and puts it back
    /// with `put_conns`, so that the server is well formed at every point.
    fn take_conns(&mut self) -> (conns: Vec<Option<Conn>>)
        ensures
            slots_view(conns@) == old(self)@.slots,
            final(self)@ == ServerState::initial(old(self)@.period),
    {
        let mut taken = Server::empty(self.period);
        core::mem::swap(self, &mut taken);
        taken.conns
    }

    /// Puts a table and a token counter in place.
    fn put_conns(&mut self, conns: Vec<Option<Conn>>, next_token: usize)
        requires
            (ServerState {
                period: old(self)@.period,
                slots: slots_view(conns@),
                next_token: next_token as nat,
            }).wf(),
        ensures
            final(self)@ == (ServerState {
                period: old(self)@.period,
                slots: slots_view(conns@),
                next_token: next_token as nat,
            }),
    {
        *self = Server { period: self.period, conns, next_token };
    }

    /// Least number of nanoseconds between two writes on one connection.
    pub fn period(&self) -> (period: u64)
        ensures
            period == self@.period,
    {
        self.period
    }

    /// Number of slots in the table, emptied ones included. It equals the
    /// number of tokens handed out since the last reset.
    pub fn len(&self) -> (len: usize)
        ensures
            len == self@.slots.len(),
            len == self@.next_token,
            self@.wf(),
    {
        proof {
            use_type_invariant(self);
        }
        self.conns.len()
    }

    /// The token that the next accepted connection gets.
    pub fn next_token(&self) -> (token: usize)
        ensures
            token == self@.next_token,
            token <= LISTENER,
            self@.wf(),
    {
        proof {
            use_type_invariant(self);
        }
        self.next_token
    }

    /// The connection in slot `index`, if the slot exists and holds one.
    /// Its `id` is `index`.
    pub fn conn(&self, index: usize) -> (conn: Option<&Conn>)
        ensures
            self@.wf(),
            conn is Some <==> self@.occupied(index as int),
            conn matches Some(c) ==> c@ == self@.slots[index as int]->0 && c@.id == index,
    {
        proof {
            use_type_invariant(self);
        }
        if index >= self.conns.len() {
            return None;
        }
        assert(self@.occupied(index as int) ==> self@.slots[index as int]->0.id == index);
        self.conns[index].as_ref()
    }

    /// The packet of the connection in slot `index`, to hand to its socket.
    pub fn packet(&self, index: usize) -> (packet: Option<&[u8; PACKET_SIZE]>)
        ensures
            packet is Some <==> self@.occupied(index as int),
            packet matches Some(p) ==> p@ == self@.slots[index as int]->0.packet && p@.len()
                == PACKET_SIZE,
    {
        match self.conn(index) {
            Some(conn) => Some(conn.packet()),
            None => None,
        }
    }

    /// How the listening socket is to be registered.
    pub fn listener_registration() -> (registration: Registration)
        ensures
            registration == listener_registration(),
    {
        Registration { token: LISTENER, interest: Interest::Readable, nodelay: false }
    }

    /// Takes a new connection into the table and returns its token, which
    /// is also the index of its slot. Where no token is left the table
    /// stays as it is.
    pub fn accept(&mut self) -> (token: Result<usize, ServerError>)
        ensures
            final(self)@.wf(),
            old(self)@.full() ==> token == Err::<usize, ServerError>(ServerError::CapacityExceeded)
                && final(self)@ == old(self)@,
            !old(self)@.full() ==> token == Ok::<usize, ServerError>(old(self)@.next_token as usize)
                && final(self)@ == old(self)@.accepted(),
    {
        proof {
            use_type_invariant(&*self);
        }
        if self.next_token >= LISTENER {
            return Err(ServerError::CapacityExceeded);
        }
        let mut counter = self.next_token;
        let token = next(&mut counter);
        let mut conns = self.take_conns();
        conns.push(Some(Conn::new(self.period, token)));
        proof {
            assert(slots_view(conns@) =~= old(self)@.accepted().slots);
            old(self)@.lemma_accepted_wf();
        }
        self.put_conns(conns, counter);
        Ok(token)
    }

    /// Takes in what became of one attempt to accept a pending connection.
    /// An accepted connection gets the next token and a slot, and the
    /// result says how to register it. `None` says that no more connection
    /// is pending. On an error the table stays as it is.
    pub fn on_accept(&mut self, outcome: AcceptOutcome) -> (verdict: Result<
        Option<Registration>,
        ServerError,
    >)
        ensures
            final(self)@.wf(),
            verdict == old(self)@.accept_verdict(outcome),
            final(self)@ == old(self)@.after_accept(outcome),
    {
        proof {
            use_type_invariant(&*self);
        }
        match outcome {
            AcceptOutcome::Accepted => match self.accept() {
                Ok(token) => Ok(
                    Some(Registration { token, interest: Interest::Writable, nodelay: true }),
                ),
                Err(e) => Err(e),
            },
            AcceptOutcome::WouldBlock => Ok(None),
            AcceptOutcome::Failed => Err(ServerError::Io),
        }
    }

    /// Takes in one readiness event. An event on the listener asks for
    /// pending connections to be accepted. An event on a connection empties
    /// its slot where the write side is closed, and otherwise marks the
    /// connection writable where the event says so. An event on an emptied
    /// slot changes nothing; one on a token without a slot is an error.
    pub fn on_event(&mut self, ev: Readiness) -> (reaction: Result<Reaction, ServerError>)
        ensures
            final(self)@.wf(),
            reaction == old(self)@.reaction(ev),
            final(self)@ == old(self)@.reacted(ev),
    {
        proof {
            use_type_invariant(&*self);
            old(self)@.lemma_reacted_wf(ev);
        }
        if ev.token == LISTENER {
            return Ok(Reaction::Accept);
        }
        let index = ev.token;
        if index >= self.conns.len() {
            return Err(ServerError::UnknownToken);
        }
        if self.conns[index].is_none() || !(ev.write_closed || ev.writable) {
            return Ok(Reaction::Ignored);
        }
        let next_token = self.next_token;
        let mut conns = self.take_conns();
        let mut slot: Option<Conn> = None;
        core::mem::swap(&mut slot, &mut conns[index]);
        let reaction = if ev.write_closed {
            Reaction::Closed
        } else {
            let mut conn = slot.unwrap();
            conn.set_writable();
            conns[index] = Some(conn);
            Reaction::Unblocked
        };
        assert(slots_view(conns@) =~= old(self)@.reacted(ev).slots);
        self.put_conns(conns, next_token);
        Ok(reaction)
    }

    /// Prepares a write on slot `index` at clock value `now`. Where the
    /// slot holds a connection on which a write is due, its packet is
    /// stamped with `now` and the result is `true`; otherwise nothing
    /// changes.
    pub fn begin_write(&mut self, index: usize, now: u64) -> (due: bool)
        ensures
            final(self)@.wf(),
            due == old(self)@.due(index as int, now),
            final(self)@ == old(self)@.prepared(index as int, now),
    {
        proof {
            use_type_invariant(&*self);
            old(self)@.lemma_prepared_wf(index as int, now);
        }
        let due = match self.conn(index) {
            Some(conn) => conn.is_due(now),
            None => false,
        };
        if !due {
            assert(old(self)@.prepared(index as int, now).slots =~= old(self)@.slots);
            return false;
        }
        let next_token = self.next_token;
        let mut conns = self.take_conns();
        let mut slot: Option<Conn> = None;
        core::mem::swap(&mut slot, &mut conns[index]);
        let mut conn = slot.unwrap();
        conn.begin_write(now);
        conns[index] = Some(conn);
        assert(slots_view(conns@) =~= old(self)@.prepared(index as int, now).slots);
        self.put_conns(conns, next_token);
        true
    }

    /// Takes in what became of the write on slot `index` that was prepared
    /// at `now`. The slot is emptied where the connection is gone. The
    /// result says whether the slot still holds a connection, or names the
    /// error that ends the server; on an error, and for a slot that holds
    /// no connection, nothing changes.
    pub fn complete_write(&mut self, index: usize, now: u64, outcome: WriteOutcome) -> (alive:
        Result<bool, ServerError>)
        ensures
            final(self)@.wf(),
            alive == old(self)@.write_verdict(index as int, outcome),
            final(self)@ == old(self)@.completed(index as int, now, outcome),
    {
        proof {
            use_type_invariant(&*self);
            old(self)@.lemma_completed_wf(index as int, now, outcome);
        }
        if index >= self.conns.len() || self.conns[index].is_none() {
            return Ok(false);
        }
        let next_token = self.next_token;
        let mut conns = self.take_conns();
        let mut slot: Option<Conn> = None;
        core::mem::swap(&mut slot, &mut conns[index]);
        let mut conn = slot.unwrap();
        let alive = conn.complete_write(now, outcome);
        match alive {
            Ok(false) => {},
            _ => {
                conns[index] = Some(conn);
            },
        }
        assert(slots_view(conns@) =~= old(self)@.completed(index as int, now, outcome).slots);
        self.put_conns(conns, next_token);
        alive
    }

    /// Whether no slot holds a connection.
    pub fn all_closed(&self) -> (done: bool)
        ensures
            done == self@.all_closed(),
    {
        let mut i: usize = 0;
        while i < self.conns.len()
            invariant
                i <= self.conns.len(),
                forall|j: int| 0 <= j < i ==> self@.slots[j] is None,
            decreases self.conns.len() - i,
        {
            if self.conns[i].is_some() {
                assert(self@.slots[i as int] is Some);
                return false;
            }
            i += 1;
        }
        true
    }

    /// Empties the table and sets the token counter back to zero.
    pub fn reset(&mut self)
        ensures
            final(self)@ == ServerState::initial(old(self)@.period),
            final(self)@.wf(),
    {
        let _ = self.take_conns();
    }

    /// Ends a loop turn. Where connections were accepted since the last
    /// reset and every slot is empty, the server is reset and the result is
    /// `true`: a round has ended. Otherwise nothing changes.
    pub fn finish_round(&mut self) -> (ended: bool)
        ensures
            final(self)@.wf(),
            ended == old(self)@.quiescent(),
            final(self)@ == old(self)@.round_closed(),
    {
        proof {
            use_type_invariant(&*self);
        }
        if self.next_token > 0 && self.all_closed() {
            self.reset();
            true
        } else {
            false
        }
    }
}

} // verus!
