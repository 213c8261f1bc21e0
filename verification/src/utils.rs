//! The shared-bus wrapper: every transaction runs inside a
//! priority-ceiling critical section, so the two tasks that share the bus
//! can never observe it mid-transaction.
//!
//! The wrapper owns the bus; each operation raises the execution priority
//! to the bus ceiling, performs exactly one short transaction — never a
//! suspension — and restores the priority on the way out, on the error
//! path too.

use vstd::prelude::*;

use crate::bus::BusError;
use crate::bus::BusEvent;
use crate::bus::SimBus;
use crate::monotonic::Timer;
use crate::monotonic::sat_add64;
use crate::sched::Scheduler;
use crate::timer_queue::TimerQueue;
use crate::timer_queue::clock_advanced;
use crate::timer_queue::registered;

verus! {

/// What a task needs from a timer: a delay that suspends it for a
/// duration. Deployments bind it to their clock; drivers written against
/// it — the sensor's retry pause, the blinker — stay portable.
pub trait AppTimer {
    /// Registers `waiter` to wake `duration` ticks from now, clamped at
    /// the top of the tick range.
    fn delay(q: &mut TimerQueue, timer: &mut Timer, duration: u64, waiter: u32) -> (deadline: u64)
        requires
            old(q).wf(),
            !old(q).contains_waiter(waiter),
        ensures
            final(q).wf(),
            registered(old(q).entries(), final(q).entries(), deadline, waiter),
            clock_advanced(*old(timer), *final(timer)),
            exists|n: u64|
                old(timer).ticks() <= n <= final(timer).ticks() && deadline == #[trigger] sat_add64(
                    n,
                    duration,
                ),
    ;
}

/// The deployment's timer: delays go through the shared timer queue over
/// the hardware clock.
pub struct Rp2040Timer();

impl AppTimer for Rp2040Timer {
    fn delay(q: &mut TimerQueue, timer: &mut Timer, duration: u64, waiter: u32) -> (deadline: u64) {
        q.delay(timer, duration, waiter)
    }
}

/// A bus shared between tasks, usable only through ceiling-guarded
/// critical sections.
pub struct I2CWrapper {
    inner: SimBus,
    ceiling: u8,
}

impl I2CWrapper {
    /// The wrapped bus.
    pub closed spec fn inner(self) -> SimBus {
        self.inner
    }

    /// The priority ceiling of the bus: at or above every task that can
    /// touch it.
    pub closed spec fn ceiling(self) -> u8 {
        self.ceiling
    }

    /// Wraps `i2c` with the most conservative ceiling — the top priority
    /// masks every task, as a global critical section does.
    pub fn new(i2c: SimBus) -> (w: I2CWrapper)
        ensures
            w.inner() == i2c,
            w.ceiling() == u8::MAX,
    {
        I2CWrapper { inner: i2c, ceiling: u8::MAX }
    }

    /// Wraps `i2c` with a ceiling chosen for a known accessor set, so
    /// higher-priority unrelated tasks stay schedulable during sections.
    pub fn with_ceiling(i2c: SimBus, ceiling: u8) -> (w: I2CWrapper)
        ensures
            w.inner() == i2c,
            w.ceiling() == ceiling,
    {
        I2CWrapper { inner: i2c, ceiling }
    }

    /// Writes a one-byte command inside a critical section: the execution
    /// priority is at the ceiling for exactly the one transaction and is
    /// restored afterwards, whatever the bus answered.
    pub fn write(&mut self, sched: &mut Scheduler, addr: u8, byte: u8) -> (r: Result<(), BusError>)
        requires
            old(sched).exec_priority() <= old(self).ceiling(),
        ensures
            final(sched).tasks() == old(sched).tasks(),
            final(sched).exec_priority() == old(sched).exec_priority(),
            final(self).ceiling() == old(self).ceiling(),
            r == Ok::<(), BusError>(()),
            final(self).inner().script() == old(self).inner().script(),
            final(self).inner().pos() == old(self).inner().pos(),
            final(self).inner().trace() == old(self).inner().trace().push(
                (BusEvent::Write { addr, byte }),
            ),
    {
        let saved = sched.lock_raise(self.ceiling);
        let r = self.inner.write(addr, byte);
        sched.lock_restore(saved);
        r
    }

    /// Performs one read transaction inside a critical section, with the
    /// same priority discipline as `write`.
    pub fn read(&mut self, sched: &mut Scheduler, addr: u8) -> (r: Result<Vec<u8>, BusError>)
        requires
            old(sched).exec_priority() <= old(self).ceiling(),
        ensures
            final(sched).tasks() == old(sched).tasks(),
            final(sched).exec_priority() == old(sched).exec_priority(),
            final(self).ceiling() == old(self).ceiling(),
            final(self).inner().script() == old(self).inner().script(),
            final(self).inner().pos() == old(self).inner().next_pos(old(self).inner().pos() as int),
            match old(self).inner().outcome_at(old(self).inner().pos() as int) {
                None => r == Err::<Vec<u8>, BusError>(BusError::Nack) && final(self).inner().trace()
                    == old(self).inner().trace().push((BusEvent::Read { addr, ok: false })),
                Some(f) => (r matches Ok(v) && v@ == f) && final(self).inner().trace() == old(
                    self,
                ).inner().trace().push((BusEvent::Read { addr, ok: true })),
            },
    {
        let saved = sched.lock_raise(self.ceiling);
        let r = self.inner.read(addr);
        sched.lock_restore(saved);
        r
    }

    /// Records the pause a driver takes between attempts. A pause is a
    /// suspension, not a bus transaction, so it runs outside any critical
    /// section — a section is never held across a suspension point.
    pub fn pause(&mut self, ticks: u64)
        ensures
            final(self).ceiling() == old(self).ceiling(),
            final(self).inner().script() == old(self).inner().script(),
            final(self).inner().pos() == old(self).inner().pos(),
            final(self).inner().trace() == old(self).inner().trace().push(
                (BusEvent::Pause { ticks }),
            ),
    {
        self.inner.pause(ticks);
    }

    /// Hands the bus back, ending the sharing.
    pub fn into_inner(self) -> (b: SimBus)
        ensures
            b == self.inner(),
    {
        self.inner
    }
}

} // verus!
