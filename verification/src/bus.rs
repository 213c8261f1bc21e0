//! A scripted I2C-like bus.
//!
//! The real bus is an external driver reached through hardware registers;
//! the sensor logic only ever sees plain values coming back from it. This
//! simulated bus plays back a script of read outcomes (a negative
//! acknowledge, or a frame of bytes) and records every transaction,
//! together with the pauses the driver takes between retries, so that
//! contracts and tests can speak about the exact order of bus activity.

use vstd::prelude::*;

verus! {

/// A bus transport failure: the addressed device did not acknowledge.
#[derive(Debug, PartialEq, Eq, Clone, Copy, Structural)]
pub enum BusError {
    Nack,
}

/// One recorded step of bus activity.
#[derive(Debug, PartialEq, Eq, Clone, Copy, Structural)]
pub enum BusEvent {
    /// A one-byte command write to `addr`.
    Write { addr: u8, byte: u8 },
    /// A read from `addr`; `ok` is false when the device did not acknowledge.
    Read { addr: u8, ok: bool },
    /// A pause of `ticks` timer ticks between attempts.
    Pause { ticks: u64 },
}

/// The scripted outcomes, each read outcome as the byte sequence it returns,
/// or `None` for a negative acknowledge.
pub open spec fn script_of(rs: Seq<Option<Vec<u8>>>) -> Seq<Option<Seq<u8>>> {
    rs.map_values(
        |r: Option<Vec<u8>>|
            match r {
                None => None,
                Some(v) => Some(v@),
            },
    )
}

/// A bus whose read outcomes are scripted in advance.
pub struct SimBus {
    responses: Vec<Option<Vec<u8>>>,
    pos: usize,
    trace: Vec<BusEvent>,
}

impl SimBus {
    /// The remaining-and-consumed script of read outcomes.
    pub closed spec fn script(self) -> Seq<Option<Seq<u8>>> {
        script_of(self.responses@)
    }

    /// How many scripted outcomes have been consumed.
    pub closed spec fn pos(self) -> nat {
        self.pos as nat
    }

    /// Everything that happened on the bus, in order.
    pub closed spec fn trace(self) -> Seq<BusEvent> {
        self.trace@
    }

    /// What the next read at script position `p` returns: `None` is a
    /// negative acknowledge, both for a scripted one and for a script that
    /// has run out (a dead bus stays dead).
    pub open spec fn outcome_at(self, p: int) -> Option<Seq<u8>> {
        if 0 <= p < self.script().len() {
            self.script()[p]
        } else {
            None
        }
    }

    /// The script position after a read at position `p`.
    pub open spec fn next_pos(self, p: int) -> int {
        if 0 <= p < self.script().len() {
            p + 1
        } else {
            p
        }
    }

    /// Every scripted frame has exactly `len` bytes, as a read of `len`
    /// bytes from real hardware would.
    pub open spec fn sized_frames(self, len: nat) -> bool {
        forall|i: int|
            0 <= i < self.script().len() ==> (#[trigger] self.script()[i] matches Some(f) ==> f.len()
                == len)
    }

    /// A fresh bus that will play back `responses` in order.
    pub fn new(responses: Vec<Option<Vec<u8>>>) -> (b: SimBus)
        ensures
            b.script() == script_of(responses@),
            b.pos() == 0,
            b.trace() == Seq::<BusEvent>::empty(),
    {
        let b = SimBus { responses, pos: 0, trace: Vec::new() };
        proof {
            assert(b.trace@ =~= Seq::<BusEvent>::empty());
        }
        b
    }

    /// Writes a one-byte command; the scripted device always acknowledges
    /// writes.
    pub fn write(&mut self, addr: u8, byte: u8) -> (r: Result<(), BusError>)
        ensures
            r == Ok::<(), BusError>(()),
            final(self).script() == old(self).script(),
            final(self).pos() == old(self).pos(),
            final(self).trace() == old(self).trace().push((BusEvent::Write { addr, byte })),
    {
        self.trace.push(BusEvent::Write { addr, byte });
        Ok(())
    }

    /// Performs one read: consumes the next scripted outcome, or reports a
    /// negative acknowledge once the script has run out.
    pub fn read(&mut self, addr: u8) -> (r: Result<Vec<u8>, BusError>)
        ensures
            final(self).script() == old(self).script(),
            final(self).pos() == old(self).next_pos(old(self).pos() as int),
            match old(self).outcome_at(old(self).pos() as int) {
                None => r == Err::<Vec<u8>, BusError>(BusError::Nack) && final(self).trace()
                    == old(self).trace().push((BusEvent::Read { addr, ok: false })),
                Some(f) => (r matches Ok(v) && v@ == f) && final(self).trace()
                    == old(self).trace().push((BusEvent::Read { addr, ok: true })),
            },
    {
        if self.pos >= self.responses.len() {
            self.trace.push(BusEvent::Read { addr, ok: false });
            return Err(BusError::Nack);
        }
        let idx = self.pos;
        self.pos = idx + 1;
        let out: Option<Vec<u8>> = match &self.responses[idx] {
            None => None,
            Some(f) => Some(copy_bytes(f)),
        };
        match out {
            None => {
                self.trace.push(BusEvent::Read { addr, ok: false });
                Err(BusError::Nack)
            },
            Some(v) => {
                self.trace.push(BusEvent::Read { addr, ok: true });
                Ok(v)
            },
        }
    }

    /// How many scripted outcomes have been consumed, as a plain value.
    pub fn reads_consumed(&self) -> (n: usize)
        ensures
            n == self.pos(),
    {
        self.pos
    }

    /// A copy of the recorded bus activity, in order.
    pub fn events(&self) -> (r: Vec<BusEvent>)
        ensures
            r@ == self.trace(),
    {
        let mut r: Vec<BusEvent> = Vec::new();
        let mut i: usize = 0;
        while i < self.trace.len()
            invariant
                i <= self.trace@.len(),
                r@ == self.trace@.take(i as int),
            decreases self.trace@.len() - i,
        {
            r.push(self.trace[i]);
            proof {
                assert(self.trace@.take(i + 1) =~= self.trace@.take(i as int).push(
                    self.trace@[i as int],
                ));
            }
            i = i + 1;
        }
        proof {
            assert(self.trace@.take(self.trace@.len() as int) =~= self.trace@);
        }
        r
    }

    /// Records the pause the driver takes between attempts; on hardware
    /// this is an awaited timer delay.
    pub fn pause(&mut self, ticks: u64)
        ensures
            final(self).script() == old(self).script(),
            final(self).pos() == old(self).pos(),
            final(self).trace() == old(self).trace().push((BusEvent::Pause { ticks })),
    {
        self.trace.push(BusEvent::Pause { ticks });
    }
}

/// A byte-for-byte copy of `v`.
fn copy_bytes(v: &Vec<u8>) -> (r: Vec<u8>)
    ensures
        r@ == v@,
{
    let mut r: Vec<u8> = Vec::new();
    let mut i: usize = 0;
    while i < v.len()
        invariant
            i <= v@.len(),
            r@ == v@.take(i as int),
        decreases v@.len() - i,
    {
        r.push(v[i]);
        proof {
            assert(v@.take(i + 1) =~= v@.take(i as int).push(v@[i as int]));
        }
        i = i + 1;
    }
    proof {
        assert(v@.take(v@.len() as int) =~= v@);
    }
    r
}

} // verus!
