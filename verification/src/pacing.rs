//! What holds of the writes on one connection over any run of loop turns.

use crate::conn::{elapsed, lemma_stamp_carries_time, timestamp_of, ConnState, WriteOutcome};
use vstd::prelude::*;

verus! {

/// One thing that happens to a connection.
pub enum Step {
    /// The loop reaches the connection at clock value `now`; should it
    /// attempt a write, the socket answers with `outcome`.
    Write { now: u64, outcome: WriteOutcome },
    /// The multiplexer reports the socket writable.
    Writable,
}

/// A packet is written in full when `step` happens to a connection in
/// state `c`.
pub open spec fn writes(c: ConnState, step: Step) -> bool {
    step matches Step::Write { now, outcome } && c.due(now) && outcome is Written
}

/// The state of a connection after `step` happened to it in state `c`.
pub open spec fn after_step(c: ConnState, step: Step) -> ConnState {
    match step {
        Step::Write { now, outcome } => if c.due(now) {
            c.prepared(now).completed(now, outcome)
        } else {
            c
        },
        Step::Writable => c.unblocked(),
    }
}

/// The state of a connection after all of `steps` happened to it, in order.
pub open spec fn after_steps(c: ConnState, steps: Seq<Step>) -> ConnState
    decreases steps.len(),
{
    if steps.len() == 0 {
        c
    } else {
        after_step(after_steps(c, steps.drop_last()), steps.last())
    }
}

/// The packets written in full while `steps` happen to a connection that
/// starts in state `c`, in the order in which they are written.
pub open spec fn packets_written(c: ConnState, steps: Seq<Step>) -> Seq<Seq<u8>>
    decreases steps.len(),
{
    if steps.len() == 0 {
        Seq::empty()
    } else {
        let before = after_steps(c, steps.drop_last());
        let earlier = packets_written(c, steps.drop_last());
        if writes(before, steps.last()) {
            earlier.push(before.prepared(steps.last()->now).packet)
        } else {
            earlier
        }
    }
}

/// The clock values at which those packets are written.
pub open spec fn write_times(c: ConnState, steps: Seq<Step>) -> Seq<u64>
    decreases steps.len(),
{
    if steps.len() == 0 {
        Seq::empty()
    } else {
        let before = after_steps(c, steps.drop_last());
        let earlier = write_times(c, steps.drop_last());
        if writes(before, steps.last()) {
            earlier.push(steps.last()->now)
        } else {
            earlier
        }
    }
}

/// Every clock value in `steps` lies between `start` and `start + span`.
pub open spec fn within(steps: Seq<Step>, start: u64, span: nat) -> bool {
    forall|i: int|
        0 <= i < steps.len() ==> (#[trigger] steps[i] matches Step::Write { now, .. } ==> start
            <= now <= start + span)
}

/// The clock values in `steps` never go back.
pub open spec fn clock_monotone(steps: Seq<Step>) -> bool {
    forall|i: int, j: int|
        0 <= i <= j < steps.len() ==> (#[trigger] steps[i] matches Step::Write { now: earlier, .. }
            ==> (#[trigger] steps[j] matches Step::Write { now: later, .. } ==> earlier <= later))
}

/// Steps change neither the period of a connection nor its slot, nor the
/// length of its packet. A completed write is remembered as the last one:
/// after the steps the connection's last write is the last of the write
/// times, or what it was where nothing was written.
pub proof fn lemma_steps_keep_record(c: ConnState, steps: Seq<Step>)
    requires
        c.wf(),
    ensures
        after_steps(c, steps).period == c.period,
        after_steps(c, steps).id == c.id,
        after_steps(c, steps).wf(),
        write_times(c, steps).len() == 0 ==> after_steps(c, steps).last_write == c.last_write,
        write_times(c, steps).len() > 0 ==> after_steps(c, steps).last_write == Some(
            write_times(c, steps).last(),
        ),
    decreases steps.len(),
{
    if steps.len() > 0 {
        lemma_steps_keep_record(c, steps.drop_last());
        let before = after_steps(c, steps.drop_last());
        if let Step::Write { now, .. } = steps.last() {
            lemma_stamp_carries_time(before.packet, now);
        }
    }
}

/// Each packet written carries, in its first eight bytes, the clock value
/// at which it was written.
pub proof fn lemma_packets_carry_write_times(c: ConnState, steps: Seq<Step>)
    requires
        c.wf(),
    ensures
        packets_written(c, steps).len() == write_times(c, steps).len(),
        forall|k: int|
            0 <= k < write_times(c, steps).len() ==> timestamp_of(
                #[trigger] packets_written(c, steps)[k],
            ) == write_times(c, steps)[k],
    decreases steps.len(),
{
    if steps.len() > 0 {
        lemma_packets_carry_write_times(c, steps.drop_last());
        lemma_steps_keep_record(c, steps.drop_last());
        let before = after_steps(c, steps.drop_last());
        if let Step::Write { now, .. } = steps.last() {
            lemma_stamp_carries_time(before.packet, now);
        }
    }
}

/// Two writes that follow each other on a connection lie at least one
/// period apart.
pub proof fn lemma_writes_spaced(c: ConnState, steps: Seq<Step>)
    requires
        c.wf(),
    ensures
        forall|k: int|
            0 < k < write_times(c, steps).len() ==> elapsed(
                write_times(c, steps)[k - 1],
                #[trigger] write_times(c, steps)[k],
            ) >= c.period,
    decreases steps.len(),
{
    if steps.len() > 0 {
        lemma_writes_spaced(c, steps.drop_last());
        lemma_steps_keep_record(c, steps.drop_last());
    }
}

/// Every write time is one of the clock values of the steps.
pub proof fn lemma_write_times_within(c: ConnState, steps: Seq<Step>, start: u64, span: nat)
    requires
        within(steps, start, span),
    ensures
        forall|k: int|
            0 <= k < write_times(c, steps).len() ==> start <= #[trigger] write_times(c, steps)[k]
                <= start + span,
    decreases steps.len(),
{
    if steps.len() > 0 {
        let shorter = steps.drop_last();
        assert forall|i: int| 0 <= i < shorter.len() implies (#[trigger] shorter[i] matches Step::Write {
            now,
            ..
        } ==> start <= now <= start + span) by {
            assert(shorter[i] == steps[i]);
        }
        lemma_write_times_within(c, shorter, start, span);
        let w = write_times(c, steps);
        let ws = write_times(c, shorter);
        assert forall|k: int| 0 <= k < w.len() implies start <= #[trigger] w[k] <= start
            + span by {
            if k < ws.len() {
                assert(w[k] == ws[k]);
            } else {
                assert(steps[steps.len() - 1] is Write);
            }
        }
    }
}

/// With a period above zero the `k`-th write after the first lies at least
/// `k` periods after the first.
proof fn lemma_write_times_grow(c: ConnState, steps: Seq<Step>, k: int)
    requires
        c.wf(),
        c.period > 0,
        0 <= k < write_times(c, steps).len(),
    ensures
        write_times(c, steps)[k] >= write_times(c, steps)[0] + k * c.period,
    decreases k,
{
    let p = c.period as int;
    if k > 0 {
        lemma_write_times_grow(c, steps, k - 1);
        lemma_writes_spaced(c, steps);
        let w = write_times(c, steps);
        assert(elapsed(w[k - 1], w[k]) >= c.period);
        assert(k * p == (k - 1) * p + p) by (nonlinear_arith);
    } else {
        assert(k * p == 0) by (nonlinear_arith)
            requires
                k == 0,
        ;
    }
}

/// On a connection with a period above zero, over any steps whose clock
/// values span at most `span` nanoseconds, the number of packets written is
/// at most `span / period + 1`, whatever the sockets answer and in whatever
/// state the connection starts.
pub proof fn lemma_rate_bound(c: ConnState, steps: Seq<Step>, start: u64, span: nat)
    requires
        c.wf(),
        c.period > 0,
        within(steps, start, span),
    ensures
        packets_written(c, steps).len() <= span / (c.period as nat) + 1,
{
    lemma_packets_carry_write_times(c, steps);
    let w = write_times(c, steps);
    let n = w.len() as int;
    if n > 0 {
        lemma_write_times_within(c, steps, start, span);
        lemma_write_times_grow(c, steps, n - 1);
        let p = c.period as int;
        assert(w[0] >= start);
        assert(w[n - 1] <= start + span);
        assert((n - 1) * p <= span);
        assert(n - 1 <= (span as int) / p) by (nonlinear_arith)
            requires
                (n - 1) * p <= span,
                p > 0,
                n >= 1,
        ;
    }
}

/// Where the clock never goes back, the timestamps in the packets written
/// on a connection never go back either.
pub proof fn lemma_timestamps_monotone(c: ConnState, steps: Seq<Step>)
    requires
        c.wf(),
        clock_monotone(steps),
    ensures
        forall|j: int, k: int|
            0 <= j <= k < packets_written(c, steps).len() ==> timestamp_of(
                #[trigger] packets_written(c, steps)[j],
            ) <= timestamp_of(#[trigger] packets_written(c, steps)[k]),
{
    lemma_packets_carry_write_times(c, steps);
    lemma_write_times_monotone(c, steps);
}

/// Where the clock never goes back, the write times never go back.
proof fn lemma_write_times_monotone(c: ConnState, steps: Seq<Step>)
    requires
        clock_monotone(steps),
    ensures
        forall|j: int, k: int|
            0 <= j <= k < write_times(c, steps).len() ==> #[trigger] write_times(c, steps)[j]
                <= #[trigger] write_times(c, steps)[k],
    decreases steps.len(),
{
    if steps.len() > 0 {
        let shorter = steps.drop_last();
        let last = steps.len() - 1;
        assert forall|i: int, j: int| 0 <= i <= j < shorter.len() implies (
        #[trigger] shorter[i] matches Step::Write { now: earlier, .. } ==> (
        #[trigger] shorter[j] matches Step::Write { now: later, .. } ==> earlier <= later)) by {
            assert(shorter[i] == steps[i]);
            assert(shorter[j] == steps[j]);
        }
        lemma_write_times_monotone(c, shorter);
        if let Step::Write { now, .. } = steps[last] {
            assert forall|i: int| 0 <= i < shorter.len() implies (
            #[trigger] shorter[i] matches Step::Write { now: earlier, .. } ==> 0 <= earlier <= 0
                + now) by {
                assert(shorter[i] == steps[i]);
                assert(steps[last] is Write);
            }
            lemma_write_times_within(c, shorter, 0, now as nat);
        }
        let w = write_times(c, steps);
        let ws = write_times(c, shorter);
        assert forall|j: int, k: int| 0 <= j <= k < w.len() implies #[trigger] w[j]
            <= #[trigger] w[k] by {
            if k < ws.len() {
                assert(w[j] == ws[j] && w[k] == ws[k]);
            } else if j < ws.len() {
                assert(w[j] == ws[j]);
            }
        }
    }
}

} // verus!
