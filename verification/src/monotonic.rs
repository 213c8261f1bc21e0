//! The monotonic clock: a 64-bit tick count (1 MHz in the reference
//! system) assembled from a hardware counter whose low and high 32-bit
//! halves cannot be read atomically as a pair.
//!
//! The hardware registers are simulated: the counter advances by a
//! scripted amount at each register read, standing for whatever interrupts
//! and bus traffic happen between two reads. `now` runs the real
//! high/low/high read loop against this device and is proved to return a
//! value the counter actually passed through, so repeated reads can never
//! regress — even when a scripted advance carries the low half across an
//! overflow boundary.

use vstd::prelude::*;

verus! {

/// The low 32 bits of a tick count.
pub open spec fn low32(t: u64) -> u32 {
    (t & 0xFFFF_FFFF) as u32
}

/// The high 32 bits of a tick count.
pub open spec fn high32(t: u64) -> u32 {
    (t >> 32) as u32
}

/// Tick addition that clamps at the top of the 64-bit range: at 1 MHz the
/// counter would take half a million years to get there, so clamping
/// stands for "never wraps".
pub open spec fn sat_add64(a: u64, b: u64) -> u64 {
    if a + b > u64::MAX {
        u64::MAX
    } else {
        (a + b) as u64
    }
}

/// The timer hardware: a free-running 64-bit counter read as two 32-bit
/// halves, one 32-bit alarm compare register, its interrupt flag, and a
/// software-pendable interrupt line. The counter advances by the next
/// scripted amount at every register read.
pub struct Timer {
    ticks: u64,
    advances: Vec<u64>,
    pos: usize,
    compare: u32,
    compare_flag: bool,
    irq_pending: bool,
}

impl Timer {
    /// The true 64-bit counter value.
    pub closed spec fn ticks(self) -> u64 {
        self.ticks
    }

    /// The scripted advances applied at successive register reads.
    pub closed spec fn advances(self) -> Seq<u64> {
        self.advances@
    }

    /// How many scripted advances have been applied.
    pub closed spec fn pos(self) -> nat {
        self.pos as nat
    }

    /// The alarm compare register.
    pub closed spec fn compare(self) -> u32 {
        self.compare
    }

    /// The alarm interrupt flag.
    pub closed spec fn compare_flag(self) -> bool {
        self.compare_flag
    }

    /// Whether the timer interrupt is software-pended.
    pub closed spec fn irq_pending(self) -> bool {
        self.irq_pending
    }

    /// One register read's effect on the counter: the next scripted
    /// advance is applied, or nothing once the script is exhausted; the
    /// alarm state is untouched.
    pub open spec fn stepped(pre: Timer, post: Timer) -> bool {
        &&& post.advances() == pre.advances()
        &&& post.compare() == pre.compare()
        &&& post.compare_flag() == pre.compare_flag()
        &&& post.irq_pending() == pre.irq_pending()
        &&& if pre.pos() < pre.advances().len() {
            post.pos() == pre.pos() + 1 && post.ticks() == sat_add64(
                pre.ticks(),
                pre.advances()[pre.pos() as int],
            )
        } else {
            post.pos() == pre.pos() && post.ticks() == pre.ticks()
        }
    }

    /// A timer whose counter starts at `initial` and advances by
    /// `advances` at successive register reads.
    pub fn start(initial: u64, advances: Vec<u64>) -> (t: Timer)
        ensures
            t.ticks() == initial,
            t.advances() == advances@,
            t.pos() == 0,
            t.compare() == 0,
            !t.compare_flag(),
            !t.irq_pending(),
    {
        Timer { ticks: initial, advances, pos: 0, compare: 0, compare_flag: false, irq_pending: false }
    }

    /// Advances the counter by the next scripted amount, as a side effect
    /// of one register read.
    fn advance_on_read(&mut self)
        ensures
            Timer::stepped(*old(self), *final(self)),
    {
        if self.pos < self.advances.len() {
            let a = self.advances[self.pos];
            self.pos = self.pos + 1;
            if a > u64::MAX - self.ticks {
                self.ticks = u64::MAX;
            } else {
                self.ticks = self.ticks + a;
            }
        }
    }

    /// Reads the low half of the counter.
    fn read_low(&mut self) -> (r: u32)
        ensures
            Timer::stepped(*old(self), *final(self)),
            r == low32(final(self).ticks()),
    {
        self.advance_on_read();
        low32_of(self.ticks)
    }

    /// Reads the high half of the counter.
    fn read_high(&mut self) -> (r: u32)
        ensures
            Timer::stepped(*old(self), *final(self)),
            r == high32(final(self).ticks()),
    {
        self.advance_on_read();
        let t = self.ticks;
        proof {
            assert(t >> 32 <= 0xFFFF_FFFF) by (bit_vector);
        }
        (t >> 32) as u32
    }

    /// The current instant. The two counter halves advance independently,
    /// so the high half is read before and after the low half and the pair
    /// is taken only when both high reads agree; otherwise the race lost
    /// against a low-half overflow and the reads are retried. The result
    /// is a tick count the counter held between entry and exit, which is
    /// what makes repeated reads non-decreasing.
    pub fn now(&mut self) -> (t: u64)
        ensures
            final(self).advances() == old(self).advances(),
            final(self).compare() == old(self).compare(),
            final(self).compare_flag() == old(self).compare_flag(),
            final(self).irq_pending() == old(self).irq_pending(),
            final(self).pos() >= old(self).pos(),
            old(self).ticks() <= t,
            t <= final(self).ticks(),
    {
        let mut hi0 = self.read_high();
        loop
            invariant
                hi0 == high32(self.ticks()),
                self.advances() == old(self).advances(),
                self.compare() == old(self).compare(),
                self.compare_flag() == old(self).compare_flag(),
                self.irq_pending() == old(self).irq_pending(),
                self.pos() >= old(self).pos(),
                self.pos() <= self.advances().len() || self.pos() == old(self).pos(),
                old(self).ticks() <= self.ticks(),
            decreases self.advances().len() - self.pos() + 1,
        {
            let ghost t_start = self.ticks();
            let ghost pos_start = self.pos();
            let low = self.read_low();
            let ghost t_mid = self.ticks();
            let hi1 = self.read_high();
            let ghost t_end = self.ticks();
            proof {
                lemma_sat_add64_grows();
                assert(t_start <= t_mid && t_mid <= t_end);
            }
            if hi0 == hi1 {
                let t = ((hi1 as u64) << 32) | (low as u64);
                proof {
                    lemma_high32_monotonic(t_start, t_mid);
                    lemma_high32_monotonic(t_mid, t_end);
                    assert(high32(t_mid) == hi1);
                    lemma_split32_rejoin(t_mid);
                }
                return t;
            }
            proof {
                // the high half moved, so an advance was consumed and the
                // remaining script shrank
                assert(self.pos() > pos_start);
                assert(pos_start < self.advances().len());
            }
            hi0 = hi1;
        }
    }

    /// Programs the alarm to fire when the low counter half matches the
    /// returned register value: the target's own low half when the target
    /// is reachable within one low-half period of now, and otherwise —
    /// target already past, or farther away than one period — the current
    /// instant, trading a spurious early wake for never missing one.
    pub fn set_compare(&mut self, instant: u64)
        ensures
            final(self).advances() == old(self).advances(),
            final(self).compare_flag() == old(self).compare_flag(),
            final(self).irq_pending() == old(self).irq_pending(),
            final(self).pos() >= old(self).pos(),
            old(self).ticks() <= final(self).ticks(),
            exists|n: u64|
                old(self).ticks() <= n <= final(self).ticks() && final(self).compare()
                    == spec_compare_value(n, instant),
    {
        let n = self.now();
        let v = compare_value(n, instant);
        self.compare = v;
        proof {
            assert(old(self).ticks() <= n <= self.ticks() && self.compare()
                == spec_compare_value(n, instant));
        }
    }

    /// Everything but the alarm state: the counter, its script, and the
    /// read position.
    pub open spec fn counter_unchanged(pre: Timer, post: Timer) -> bool {
        &&& post.ticks() == pre.ticks()
        &&& post.advances() == pre.advances()
        &&& post.pos() == pre.pos()
    }

    /// Acknowledges the alarm interrupt.
    pub fn clear_compare_flag(&mut self)
        ensures
            Timer::counter_unchanged(*old(self), *final(self)),
            final(self).compare() == old(self).compare(),
            !final(self).compare_flag(),
            final(self).irq_pending() == old(self).irq_pending(),
    {
        self.compare_flag = false;
    }

    /// Marks the alarm as fired, as the hardware does when the low counter
    /// half reaches the compare register.
    pub fn raise_compare_flag(&mut self)
        ensures
            Timer::counter_unchanged(*old(self), *final(self)),
            final(self).compare() == old(self).compare(),
            final(self).compare_flag(),
            final(self).irq_pending() == old(self).irq_pending(),
    {
        self.compare_flag = true;
    }

    /// Pends the timer interrupt in software, so deferred work runs even
    /// without a hardware alarm.
    pub fn pend_interrupt(&mut self)
        ensures
            Timer::counter_unchanged(*old(self), *final(self)),
            final(self).compare() == old(self).compare(),
            final(self).compare_flag() == old(self).compare_flag(),
            final(self).irq_pending(),
    {
        self.irq_pending = true;
    }

    /// The alarm compare register, as a plain value.
    pub fn get_compare(&self) -> (r: u32)
        ensures
            r == self.compare(),
    {
        self.compare
    }

    /// Whether the alarm interrupt flag is raised.
    pub fn get_compare_flag(&self) -> (r: bool)
        ensures
            r == self.compare_flag(),
    {
        self.compare_flag
    }

    /// Whether the timer interrupt is software-pended.
    pub fn get_irq_pending(&self) -> (r: bool)
        ensures
            r == self.irq_pending(),
    {
        self.irq_pending
    }

    /// Takes the pending-interrupt mark, as interrupt delivery does.
    pub fn take_pending(&mut self) -> (was: bool)
        ensures
            Timer::counter_unchanged(*old(self), *final(self)),
            final(self).compare() == old(self).compare(),
            final(self).compare_flag() == old(self).compare_flag(),
            !final(self).irq_pending(),
            was == old(self).irq_pending(),
    {
        let was = self.irq_pending;
        self.irq_pending = false;
        was
    }
}

/// The compare register value `set_compare` programs for a target
/// `instant` when the counter reads `now`.
pub open spec fn spec_compare_value(now: u64, target: u64) -> u32 {
    if now <= target && target - now <= 0xFFFF_FFFF {
        low32(target)
    } else {
        low32(now)
    }
}

/// The low half of a tick count.
pub fn low32_of(x: u64) -> (r: u32)
    ensures
        r == low32(x),
{
    proof {
        assert(x & 0xFFFF_FFFF <= 0xFFFF_FFFF) by (bit_vector);
    }
    (x & 0xFFFF_FFFF) as u32
}

/// The alarm register value for a target, per the reachability rule.
pub fn compare_value(now: u64, target: u64) -> (v: u32)
    ensures
        v == spec_compare_value(now, target),
{
    if target >= now && target - now <= 0xFFFF_FFFF {
        low32_of(target)
    } else {
        low32_of(now)
    }
}

/// A scripted advance never moves the counter backwards.
pub proof fn lemma_sat_add64_grows()
    ensures
        forall|a: u64, b: u64| #[trigger] sat_add64(a, b) >= a,
{
}

/// A larger tick count never has a smaller high half.
pub proof fn lemma_high32_monotonic(a: u64, b: u64)
    requires
        a <= b,
    ensures
        high32(a) <= high32(b),
{
    assert(a <= b ==> ((a >> 32) as u32) <= ((b >> 32) as u32)) by (bit_vector);
}

/// Splitting a tick count into halves and rejoining them is the identity.
pub proof fn lemma_split32_rejoin(t: u64)
    ensures
        (((high32(t) as u64) << 32) | (low32(t) as u64)) == t,
{
    assert(((((t >> 32) as u32) as u64) << 32) | (((t & 0xFFFF_FFFF) as u32) as u64) == t)
        by (bit_vector);
}

/// How one `now` call relates the timer before, the returned instant, and
/// the timer after: the instant lies between the counter values at entry
/// and at exit.
pub open spec fn now_call(pre: Timer, t: u64, post: Timer) -> bool {
    pre.ticks() <= t && t <= post.ticks()
}

/// Monotonicity of the clock: across any two successive `now` calls — any
/// sequence of reads, by induction — the second instant is never smaller
/// than the first, whatever the counter did in between, including a
/// low-half overflow.
pub proof fn lemma_now_monotonic(pre1: Timer, t1: u64, mid: Timer, t2: u64, post: Timer)
    requires
        now_call(pre1, t1, mid),
        now_call(mid, t2, post),
    ensures
        t1 <= t2,
{
}

} // verus!
