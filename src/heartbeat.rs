use vstd::prelude::*;
use crate::messages::KeepAliveRequest;
use vstd::arithmetic::div_mod::{lemma_div_is_ordered, lemma_fundamental_div_mod};

verus! {

/// The server's keep-alive schedule: one request every `interval` seconds after `origin`,
/// each stamped with the second it falls due.
#[derive(Clone, Copy, Debug)]
pub struct Heartbeat {
    /// Seconds since the epoch when the schedule started.
    pub origin: i64,
    /// Seconds between two requests.
    pub interval: u64,
    /// How many requests have been handed out.
    pub sent: u64,
}

/// The timestamp of the `k`-th request (counting from 1) of a schedule.
pub open spec fn beat_time(origin: int, interval: int, k: int) -> int {
    origin + k * interval
}

/// How many requests a schedule has handed out after polls at the given elapsed times,
/// starting from `sent`.
pub open spec fn beats_after(sent: nat, interval: nat, polls: Seq<nat>) -> nat
    decreases polls.len(),
{
    if polls.len() == 0 {
        sent
    } else {
        let due = polls[0] / interval;
        beats_after(if sent >= due { sent } else { due }, interval, polls.drop_first())
    }
}

impl Heartbeat {
    pub open spec fn wf(&self) -> bool {
        self.interval > 0
    }

    /// A schedule starting at `origin` with nothing sent yet.
    pub fn new(origin: i64, interval: u64) -> (r: Heartbeat)
        requires
            interval > 0,
        ensures
            r.wf(),
            r.origin == origin,
            r.interval == interval,
            r.sent == 0,
    {
        Heartbeat { origin, interval, sent: 0 }
    }

    /// The requests that have fallen due by `elapsed` seconds after the origin and were not
    /// handed out yet, oldest first.
    pub fn poll(&mut self, elapsed: u64) -> (r: Vec<KeepAliveRequest>)
        requires
            old(self).wf(),
            old(self).origin + elapsed <= i64::MAX,
        ensures
            final(self).wf(),
            final(self).origin == old(self).origin,
            final(self).interval == old(self).interval,
            final(self).sent == if old(self).sent >= elapsed / old(self).interval {
                old(self).sent
            } else {
                elapsed / old(self).interval
            },
            r@.len() == final(self).sent - old(self).sent,
            forall|k: int|
                0 <= k < r@.len() ==> #[trigger] r@[k].timestamp == beat_time(
                    old(self).origin as int,
                    old(self).interval as int,
                    old(self).sent + k + 1,
                ),
    {
        let due = elapsed / self.interval;
        let mut out: Vec<KeepAliveRequest> = Vec::new();
        proof {
            lemma_fundamental_div_mod(elapsed as int, self.interval as int);
        }
        while self.sent < due
            invariant
                self.wf(),
                self.origin == old(self).origin,
                self.interval == old(self).interval,
                due == elapsed / self.interval,
                due * self.interval <= elapsed,
                self.origin + elapsed <= i64::MAX,
                self.sent >= old(self).sent,
                self.sent > old(self).sent ==> self.sent <= due,
                out@.len() == self.sent - old(self).sent,
                forall|k: int|
                    0 <= k < out@.len() ==> #[trigger] out@[k].timestamp == beat_time(
                        old(self).origin as int,
                        old(self).interval as int,
                        old(self).sent + k + 1,
                    ),
            decreases due - self.sent,
        {
            self.sent = self.sent + 1;
            let n = self.sent;
            let i = self.interval;
            assert(n * i <= due * i) by (nonlinear_arith)
                requires
                    n <= due,
            ;
            let offset = n * i;
            let timestamp = (self.origin as i128 + offset as i128) as i64;
            out.push(KeepAliveRequest { timestamp });
        }
        out
    }
}

/// However often the timer wakes, a fresh schedule polled last at `d` seconds has handed
/// out exactly `d / interval` requests, provided the polls come in time order.
pub proof fn lemma_heartbeat_count(interval: nat, polls: Seq<nat>)
    requires
        interval > 0,
        polls.len() > 0,
        forall|a: int, b: int| 0 <= a < b < polls.len() ==> polls[a] <= polls[b],
    ensures
        beats_after(0, interval, polls) == polls.last() / interval,
{
    lemma_beats_after(0, interval, polls);
}

proof fn lemma_beats_after(sent: nat, interval: nat, polls: Seq<nat>)
    requires
        interval > 0,
        polls.len() > 0,
        forall|a: int, b: int| 0 <= a < b < polls.len() ==> polls[a] <= polls[b],
        sent <= polls[0] / interval,
    ensures
        beats_after(sent, interval, polls) == polls.last() / interval,
    decreases polls.len(),
{
    let due = polls[0] / interval;
    let tail = polls.drop_first();
    assert(beats_after(sent, interval, polls) == beats_after(due, interval, tail));
    if polls.len() > 1 {
        assert(polls[0] <= polls[1]);
        lemma_div_is_ordered(polls[0] as int, polls[1] as int, interval as int);
        assert forall|a: int, b: int| 0 <= a < b < tail.len() implies tail[a] <= tail[b] by {
            assert(tail[a] == polls[a + 1] && tail[b] == polls[b + 1]);
        }
        lemma_beats_after(due, interval, tail);
        assert(tail.last() == polls.last());
    }
}

/// Requests later in a schedule carry strictly later timestamps.
pub proof fn lemma_beat_times_increase(origin: int, interval: int, j: int, k: int)
    requires
        interval > 0,
        j < k,
    ensures
        beat_time(origin, interval, j) < beat_time(origin, interval, k),
{
    assert(j * interval < k * interval) by (nonlinear_arith)
        requires
            interval > 0,
            j < k,
    ;
}

} // verus!
