//! The software timer queue: multiplexes the single hardware alarm into
//! arbitrarily many concurrent delays and timeouts.
//!
//! Pending waits are kept ordered by deadline, ties in insertion order, so
//! the queue's order is the wakeup order. Inserting a new earliest
//! deadline reprograms the hardware compare; the interrupt entry point
//! acknowledges the alarm, drains every due entry in order, and reprograms
//! the compare to the next deadline, leaving the alarm alone when nothing
//! remains. A timeout is a race between a deadline entry and some other
//! suspension; whichever side loses has its registration cancelled, so no
//! dangling wakeup is left behind.

use vstd::prelude::*;

use crate::monotonic::Timer;
use crate::monotonic::spec_compare_value;
use crate::monotonic::sat_add64;

verus! {

/// A pending wait: the task handle `waiter` becomes eligible to resume
/// once the clock reaches `deadline`.
#[derive(Debug, PartialEq, Eq, Clone, Copy, Structural)]
pub struct TimerQueueEntry {
    pub deadline: u64,
    pub waiter: u32,
}

/// The timeout race was decided against the raced suspension.
#[derive(Debug, PartialEq, Eq, Clone, Copy, Structural)]
pub struct TimeoutError;

/// Entries in non-decreasing deadline order.
pub open spec fn sorted_by_deadline(s: Seq<TimerQueueEntry>) -> bool {
    forall|i: int, j: int| 0 <= i <= j < s.len() ==> s[i].deadline <= s[j].deadline
}

/// No task handle registered twice.
pub open spec fn distinct_waiters(s: Seq<TimerQueueEntry>) -> bool {
    forall|i: int, j: int| 0 <= i < j < s.len() ==> s[i].waiter != s[j].waiter
}

/// The pending (deadline, waiter) pairs, earliest deadline first.
pub struct TimerQueue {
    entries: Vec<TimerQueueEntry>,
}

impl TimerQueue {
    /// The pending entries, in wakeup order.
    pub closed spec fn entries(self) -> Seq<TimerQueueEntry> {
        self.entries@
    }

    /// The queue invariant: wakeup order is deadline order (ties resolved
    /// at insertion), and a task waits at most once.
    pub open spec fn wf(self) -> bool {
        sorted_by_deadline(self.entries()) && distinct_waiters(self.entries())
    }

    /// Whether `w` has a pending registration.
    pub open spec fn contains_waiter(self, w: u32) -> bool {
        exists|i: int| 0 <= i < self.entries().len() && self.entries()[i].waiter == w
    }

    /// An empty queue; the hardware alarm stays disarmed until the first
    /// insertion.
    pub fn new() -> (q: TimerQueue)
        ensures
            q.wf(),
            q.entries() == Seq::<TimerQueueEntry>::empty(),
    {
        let q = TimerQueue { entries: Vec::new() };
        proof {
            assert(q.entries@ =~= Seq::<TimerQueueEntry>::empty());
        }
        q
    }

    /// How many waits are pending.
    pub fn len(&self) -> (n: usize)
        ensures
            n == self.entries().len(),
    {
        self.entries.len()
    }

    /// The earliest pending deadline, which is what the hardware compare
    /// must be armed for.
    pub fn next_deadline(&self) -> (r: Option<u64>)
        ensures
            match r {
                None => self.entries().len() == 0,
                Some(d) => self.entries().len() > 0 && d == self.entries()[0].deadline,
            },
    {
        if self.entries.len() > 0 {
            Some(self.entries[0].deadline)
        } else {
            None
        }
    }

    /// Registers `waiter` for `deadline`, after every entry with an equal
    /// or earlier deadline (equal deadlines wake in insertion order) and
    /// before every later one; returns the position, 0 meaning the new
    /// entry is now the earliest wakeup.
    pub fn insert(&mut self, deadline: u64, waiter: u32) -> (idx: usize)
        requires
            old(self).wf(),
            !old(self).contains_waiter(waiter),
        ensures
            final(self).wf(),
            idx <= old(self).entries().len(),
            forall|j: int| 0 <= j < idx ==> old(self).entries()[j].deadline <= deadline,
            idx < old(self).entries().len() ==> old(self).entries()[idx as int].deadline
                > deadline,
            final(self).entries() == old(self).entries().take(idx as int) + seq![
                (TimerQueueEntry { deadline, waiter }),
            ] + old(self).entries().skip(idx as int),
    {
        let mut idx: usize = 0;
        while idx < self.entries.len() && self.entries[idx].deadline <= deadline
            invariant
                *self == *old(self),
                idx <= self.entries().len(),
                forall|j: int| 0 <= j < idx ==> self.entries()[j].deadline <= deadline,
            decreases self.entries().len() - idx,
        {
            idx = idx + 1;
        }
        let ghost pre = self.entries@;
        self.entries.insert(idx, TimerQueueEntry { deadline, waiter });
        proof {
            assert(self.entries@ =~= pre.take(idx as int) + seq![
                (TimerQueueEntry { deadline, waiter }),
            ] + pre.skip(idx as int));
            assert forall|i: int, j: int| 0 <= i <= j < self.entries@.len() implies self.entries@[i].deadline
                <= self.entries@[j].deadline by {
                assert(sorted_by_deadline(pre));
            }
            assert forall|i: int, j: int| 0 <= i < j < self.entries@.len() implies self.entries@[i].waiter
                != self.entries@[j].waiter by {
                assert(distinct_waiters(pre));
                if i == idx {
                    assert(self.entries@[j] == pre[j - 1]);
                    assert(!old(self).contains_waiter(waiter));
                }
                if j == idx {
                    assert(self.entries@[i] == pre[i]);
                    assert(!old(self).contains_waiter(waiter));
                }
            }
        }
        idx
    }

    /// Removes and hands back, in order, every entry whose deadline has
    /// been reached: the woken entries are exactly the due prefix of the
    /// queue, so wakeups fire in non-decreasing deadline order with ties
    /// in insertion order.
    pub fn drain_due(&mut self, now: u64) -> (woken: Vec<TimerQueueEntry>)
        requires
            old(self).wf(),
        ensures
            final(self).wf(),
            woken@.len() <= old(self).entries().len(),
            woken@ == old(self).entries().take(woken@.len() as int),
            final(self).entries() == old(self).entries().skip(woken@.len() as int),
            forall|i: int| 0 <= i < woken@.len() ==> woken@[i].deadline <= now,
            forall|i: int|
                woken@.len() <= i < old(self).entries().len() ==> old(self).entries()[i].deadline
                    > now,
            final(self).entries().len() > 0 ==> final(self).entries()[0].deadline > now,
    {
        let ghost pre = self.entries@;
        let mut woken: Vec<TimerQueueEntry> = Vec::new();
        while self.entries.len() > 0 && self.entries[0].deadline <= now
            invariant
                self.wf(),
                sorted_by_deadline(pre),
                woken@ + self.entries@ == pre,
                forall|i: int| 0 <= i < woken@.len() ==> woken@[i].deadline <= now,
            decreases self.entries@.len(),
        {
            let e = self.entries.remove(0);
            woken.push(e);
            proof {
                assert(woken@ + self.entries@ =~= pre);
            }
        }
        proof {
            assert(woken@ =~= pre.take(woken@.len() as int));
            assert(self.entries@ =~= pre.skip(woken@.len() as int));
            let k = woken@.len() as int;
            assert forall|i: int| k <= i < pre.len() implies pre[i].deadline > now by {
                assert(self.entries@[i - k] == pre[i]);
                assert(self.entries@[0] == pre[k]);
                assert(pre[k].deadline <= pre[i].deadline);
            }
        }
        woken
    }

    /// Withdraws `waiter`'s registration, telling where it stood; the
    /// queue is left without any registration for `waiter`, the order of
    /// the rest untouched.
    pub fn cancel(&mut self, waiter: u32) -> (r: Option<usize>)
        requires
            old(self).wf(),
        ensures
            final(self).wf(),
            !final(self).contains_waiter(waiter),
            match r {
                Some(i) => i < old(self).entries().len() && old(self).entries()[i as int].waiter
                    == waiter && final(self).entries() == old(self).entries().remove(i as int),
                None => final(self).entries() == old(self).entries() && !old(self).contains_waiter(
                    waiter,
                ),
            },
    {
        let mut i: usize = 0;
        while i < self.entries.len()
            invariant
                old(self).wf(),
                *self == *old(self),
                i <= self.entries().len(),
                forall|j: int| 0 <= j < i ==> self.entries()[j].waiter != waiter,
            decreases self.entries().len() - i,
        {
            if self.entries[i].waiter == waiter {
                let ghost pre = self.entries@;
                self.entries.remove(i);
                proof {
                    assert(sorted_by_deadline(pre));
                    assert(distinct_waiters(pre));
                    assert forall|a: int, b: int| 0 <= a <= b < self.entries@.len() implies self.entries@[a].deadline
                        <= self.entries@[b].deadline by {
                        assert(self.entries@[a] == if a < i {
                            pre[a]
                        } else {
                            pre[a + 1]
                        });
                        assert(self.entries@[b] == if b < i {
                            pre[b]
                        } else {
                            pre[b + 1]
                        });
                    }
                    assert forall|a: int, b: int| 0 <= a < b < self.entries@.len() implies self.entries@[a].waiter
                        != self.entries@[b].waiter by {
                        assert(self.entries@[a] == if a < i {
                            pre[a]
                        } else {
                            pre[a + 1]
                        });
                        assert(self.entries@[b] == if b < i {
                            pre[b]
                        } else {
                            pre[b + 1]
                        });
                    }
                    assert forall|a: int| 0 <= a < self.entries@.len() implies self.entries@[a].waiter
                        != waiter by {
                        assert(self.entries@[a] == if a < i {
                            pre[a]
                        } else {
                            pre[a + 1]
                        });
                    }
                }
                return Some(i);
            }
            i = i + 1;
        }
        None
    }
}

/// How a registration changes the queue: the new (deadline, waiter) entry
/// stands after every entry with an equal or earlier deadline and before
/// every strictly later one.
pub open spec fn registered(
    pre: Seq<TimerQueueEntry>,
    post: Seq<TimerQueueEntry>,
    deadline: u64,
    waiter: u32,
) -> bool {
    exists|i: int|
        0 <= i <= pre.len() && post == pre.take(i) + seq![(TimerQueueEntry { deadline, waiter })]
            + #[trigger] pre.skip(i) && (forall|j: int| 0 <= j < i ==> pre[j].deadline <= deadline)
            && (i < pre.len() ==> pre[i].deadline > deadline)
}

/// A passive step of the clock: registers it does not own are untouched
/// and the counter has only moved forward.
pub open spec fn clock_advanced(pre: Timer, post: Timer) -> bool {
    &&& post.advances() == pre.advances()
    &&& post.compare_flag() == pre.compare_flag()
    &&& post.irq_pending() == pre.irq_pending()
    &&& post.pos() >= pre.pos()
    &&& pre.ticks() <= post.ticks()
}

/// How an interrupt's drain relates the woken entries and the queue rest
/// to the instant `n` the handler read: the woken entries are exactly the
/// due prefix, everything left is still in the future.
pub open spec fn due_split(
    pre: Seq<TimerQueueEntry>,
    woken: Seq<TimerQueueEntry>,
    rest: Seq<TimerQueueEntry>,
    n: u64,
) -> bool {
    &&& woken == pre.take(woken.len() as int)
    &&& rest == pre.skip(woken.len() as int)
    &&& forall|i: int| 0 <= i < woken.len() ==> #[trigger] woken[i].deadline <= n
    &&& rest.len() > 0 ==> rest[0].deadline > n
}

impl TimerQueue {
    /// Suspends `waiter` until the clock reaches `instant`: the entry is
    /// registered in deadline order, and when it becomes the earliest
    /// wakeup the hardware compare is reprogrammed for it. A deadline
    /// already in the past still registers — a zero-length delay suspends
    /// at least once, keeping same-priority scheduling fair — and wakes on
    /// the spurious-but-safe immediate alarm the compare rule arms.
    pub fn delay_until(&mut self, timer: &mut Timer, instant: u64, waiter: u32) -> (became_first:
        bool)
        requires
            old(self).wf(),
            !old(self).contains_waiter(waiter),
        ensures
            final(self).wf(),
            registered(old(self).entries(), final(self).entries(), instant, waiter),
            became_first == (old(self).entries().len() == 0 || old(self).entries()[0].deadline
                > instant),
            became_first ==> clock_advanced(*old(timer), *final(timer)) && exists|n: u64|
                old(timer).ticks() <= n <= final(timer).ticks() && final(timer).compare()
                    == #[trigger] spec_compare_value(n, instant),
            !became_first ==> *final(timer) == *old(timer),
    {
        let idx = self.insert(instant, waiter);
        proof {
            let pre = old(self).entries();
            assert(0 <= idx as int <= pre.len() && self.entries() == pre.take(idx as int) + seq![
                (TimerQueueEntry { deadline: instant, waiter }),
            ] + pre.skip(idx as int) && (forall|j: int|
                0 <= j < idx as int ==> pre[j].deadline <= instant) && ((idx as int) < pre.len()
                ==> pre[idx as int].deadline > instant));
        }
        if idx == 0 {
            timer.set_compare(instant);
            true
        } else {
            false
        }
    }

    /// Suspends `waiter` for `duration` ticks from now: reads the clock
    /// once and registers the wait for that instant plus the duration,
    /// clamped at the top of the tick range rather than wrapped.
    pub fn delay(&mut self, timer: &mut Timer, duration: u64, waiter: u32) -> (deadline: u64)
        requires
            old(self).wf(),
            !old(self).contains_waiter(waiter),
        ensures
            final(self).wf(),
            registered(old(self).entries(), final(self).entries(), deadline, waiter),
            clock_advanced(*old(timer), *final(timer)),
            exists|n: u64|
                old(timer).ticks() <= n <= final(timer).ticks() && deadline == #[trigger] sat_add64(
                    n,
                    duration,
                ),
    {
        let n = timer.now();
        let deadline = if duration > u64::MAX - n {
            u64::MAX
        } else {
            n + duration
        };
        self.delay_until(timer, deadline, waiter);
        proof {
            assert(deadline == sat_add64(n, duration));
        }
        deadline
    }

    /// Registers the deadline arm of a timeout race: the raced suspension
    /// keeps its own registration elsewhere, and `timeout_waiter` will
    /// wake when `instant` is reached, exactly as a delay does.
    pub fn timeout_at(&mut self, timer: &mut Timer, instant: u64, timeout_waiter: u32)
        -> (became_first: bool)
        requires
            old(self).wf(),
            !old(self).contains_waiter(timeout_waiter),
        ensures
            final(self).wf(),
            registered(old(self).entries(), final(self).entries(), instant, timeout_waiter),
            became_first == (old(self).entries().len() == 0 || old(self).entries()[0].deadline
                > instant),
            became_first ==> clock_advanced(*old(timer), *final(timer)) && exists|n: u64|
                old(timer).ticks() <= n <= final(timer).ticks() && final(timer).compare()
                    == #[trigger] spec_compare_value(n, instant),
            !became_first ==> *final(timer) == *old(timer),
    {
        self.delay_until(timer, instant, timeout_waiter)
    }

    /// Registers the deadline arm of a timeout race `duration` ticks from
    /// now.
    pub fn timeout_after(&mut self, timer: &mut Timer, duration: u64, timeout_waiter: u32)
        -> (deadline: u64)
        requires
            old(self).wf(),
            !old(self).contains_waiter(timeout_waiter),
        ensures
            final(self).wf(),
            registered(old(self).entries(), final(self).entries(), deadline, timeout_waiter),
            clock_advanced(*old(timer), *final(timer)),
            exists|n: u64|
                old(timer).ticks() <= n <= final(timer).ticks() && deadline == #[trigger] sat_add64(
                    n,
                    duration,
                ),
    {
        self.delay(timer, duration, timeout_waiter)
    }

    /// The raced suspension completed before its deadline: the race
    /// returns the suspension's own result and the timeout arm's
    /// registration is withdrawn, leaving no residual timer entry to fire
    /// a stale wakeup later.
    pub fn timeout_complete<T>(&mut self, value: T, timeout_waiter: u32) -> (r: Result<
        T,
        TimeoutError,
    >)
        requires
            old(self).wf(),
        ensures
            final(self).wf(),
            r == Ok::<T, TimeoutError>(value),
            !final(self).contains_waiter(timeout_waiter),
            old(self).contains_waiter(timeout_waiter) ==> exists|i: int|
                0 <= i < old(self).entries().len() && old(self).entries()[i].waiter
                    == timeout_waiter && final(self).entries() == #[trigger] old(
                    self,
                ).entries().remove(i),
            !old(self).contains_waiter(timeout_waiter) ==> final(self).entries() == old(
                self,
            ).entries(),
    {
        self.cancel(timeout_waiter);
        Ok(value)
    }

    /// The deadline fired before the raced suspension completed: the race
    /// reports a timeout and the suspension's own registration — here, a
    /// wait in this queue — is withdrawn, so no dangling wakeup for it
    /// remains.
    pub fn timeout_expire<T>(&mut self, fut_waiter: u32) -> (r: Result<T, TimeoutError>)
        requires
            old(self).wf(),
        ensures
            final(self).wf(),
            r == Err::<T, TimeoutError>(TimeoutError),
            !final(self).contains_waiter(fut_waiter),
            old(self).contains_waiter(fut_waiter) ==> exists|i: int|
                0 <= i < old(self).entries().len() && old(self).entries()[i].waiter == fut_waiter
                    && final(self).entries() == #[trigger] old(self).entries().remove(i),
            !old(self).contains_waiter(fut_waiter) ==> final(self).entries() == old(self).entries(),
    {
        self.cancel(fut_waiter);
        Err(TimeoutError)
    }

    /// The timer interrupt entry point: acknowledge the hardware flag,
    /// read the clock, wake every entry whose deadline has been reached —
    /// in deadline order, ties in insertion order — and reprogram the
    /// compare for the new earliest deadline, leaving the alarm alone when
    /// nothing remains.
    pub fn on_interrupt(&mut self, timer: &mut Timer) -> (woken: Vec<TimerQueueEntry>)
        requires
            old(self).wf(),
        ensures
            final(self).wf(),
            final(timer).advances() == old(timer).advances(),
            final(timer).irq_pending() == old(timer).irq_pending(),
            !final(timer).compare_flag(),
            old(timer).ticks() <= final(timer).ticks(),
            exists|n: u64|
                old(timer).ticks() <= n <= final(timer).ticks() && #[trigger] due_split(
                    old(self).entries(),
                    woken@,
                    final(self).entries(),
                    n,
                ),
            final(self).entries().len() > 0 ==> exists|m: u64|
                old(timer).ticks() <= m <= final(timer).ticks() && final(timer).compare()
                    == #[trigger] spec_compare_value(m, final(self).entries()[0].deadline),
            final(self).entries().len() == 0 ==> final(timer).compare() == old(timer).compare(),
    {
        timer.clear_compare_flag();
        let n = timer.now();
        let woken = self.drain_due(n);
        proof {
            assert(due_split(old(self).entries(), woken@, self.entries(), n));
        }
        match self.next_deadline() {
            Some(d) => {
                timer.set_compare(d);
            },
            None => {},
        }
        woken
    }
}

/// Wakeup order: in a well-formed queue the pending entries — and so the
/// wakeups, which `drain_due` hands out as a prefix of them — stand in
/// non-decreasing deadline order.
pub proof fn lemma_wakeup_order(q: TimerQueue)
    requires
        q.wf(),
    ensures
        forall|i: int, j: int|
            0 <= i <= j < q.entries().len() ==> q.entries()[i].deadline <= q.entries()[j].deadline,
{
}

/// Insertion-order ties: registering a wait puts it behind every pending
/// wait with an equal or earlier deadline and in front of every strictly
/// later one, so equal deadlines wake first-registered first.
pub proof fn lemma_ties_fifo(
    pre: Seq<TimerQueueEntry>,
    post: Seq<TimerQueueEntry>,
    deadline: u64,
    waiter: u32,
)
    requires
        sorted_by_deadline(pre),
        registered(pre, post, deadline, waiter),
    ensures
        exists|i: int|
            0 <= i <= pre.len() && post == pre.take(i) + seq![
                (TimerQueueEntry { deadline, waiter }),
            ] + #[trigger] pre.skip(i) && (forall|j: int|
                0 <= j < pre.len() && pre[j].deadline <= deadline ==> j < i) && (forall|j: int|
                0 <= j < pre.len() && #[trigger] pre[j].deadline > deadline ==> j >= i),
{
    let i = choose|i: int|
        0 <= i <= pre.len() && post == pre.take(i) + seq![(TimerQueueEntry { deadline, waiter })]
            + #[trigger] pre.skip(i) && (forall|j: int| 0 <= j < i ==> pre[j].deadline <= deadline)
            && (i < pre.len() ==> pre[i].deadline > deadline);
    assert forall|j: int| 0 <= j < pre.len() && pre[j].deadline <= deadline implies j < i by {
        if j >= i {
            assert(pre[i].deadline <= pre[j].deadline);
        }
    }
    assert(0 <= i <= pre.len() && post == pre.take(i) + seq![
        (TimerQueueEntry { deadline, waiter }),
    ] + pre.skip(i) && (forall|j: int| 0 <= j < pre.len() && pre[j].deadline <= deadline ==> j < i)
        && (forall|j: int| 0 <= j < pre.len() && #[trigger] pre[j].deadline > deadline ==> j >= i));
}

} // verus!
