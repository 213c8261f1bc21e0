//! SHT40 sensor protocol: command encoding, frame CRC validation, and the
//! bounded-retry read state machine.
//!
//! Every frame read from the sensor is a sequence of 3-byte groups, each
//! group being two data bytes followed by an 8-bit CRC (polynomial 0x31,
//! initial value 0xFF, MSB first, no final XOR) over those two bytes.
//! Transport errors are retried up to a fixed budget with a fixed pause
//! between attempts; a checksum mismatch is surfaced immediately.

use vstd::prelude::*;

use crate::bus::BusError;
use crate::bus::BusEvent;
use crate::bus::SimBus;
use crate::channel::Channel;
use crate::channel::SendOutcome;
use crate::sched::Scheduler;
use crate::utils::I2CWrapper;

verus! {

/// How many times a read is attempted before the retry budget is exhausted.
pub const RETRY_ATTEMPTS: usize = 5;

/// The pause between read attempts, in timer ticks (5 ms at 1 MHz).
pub const RETRY_PAUSE_TICKS: u64 = 5000;

/// One CRC round: shift left, folding in the polynomial 0x31 when the
/// top bit was set.
pub open spec fn crc8_round(crc: u8) -> u8 {
    if crc & 0x80 != 0 {
        (crc << 1) ^ 0x31
    } else {
        crc << 1
    }
}

/// `n` CRC rounds applied to `crc`.
pub open spec fn crc8_rounds(crc: u8, n: nat) -> u8
    decreases n,
{
    if n == 0 {
        crc
    } else {
        crc8_round(crc8_rounds(crc, (n - 1) as nat))
    }
}

/// CRC state after absorbing every byte of `s`, starting from `init`:
/// each byte is XORed in and followed by eight rounds.
pub open spec fn crc8_bytes(init: u8, s: Seq<u8>) -> u8
    decreases s.len(),
{
    if s.len() == 0 {
        init
    } else {
        crc8_rounds(crc8_bytes(init, s.drop_last()) ^ s.last(), 8)
    }
}

/// The checksum of `s`: absorb from the initial value 0xFF, no final XOR.
pub open spec fn spec_crc8(s: Seq<u8>) -> u8 {
    crc8_bytes(0xff, s)
}

/// The 8-bit checksum over `data`, as the sensor computes it.
pub fn crc8(data: &[u8]) -> (r: u8)
    ensures
        r == spec_crc8(data@),
{
    let mut crc: u8 = 0xff;
    let mut i: usize = 0;
    while i < data.len()
        invariant
            i <= data.len(),
            crc == crc8_bytes(0xff, data@.take(i as int)),
        decreases data.len() - i,
    {
        crc = crc ^ data[i];
        let ghost base = crc;
        let mut k: usize = 0;
        while k < 8
            invariant
                k <= 8,
                crc == crc8_rounds(base, k as nat),
            decreases 8 - k,
        {
            if crc & 0x80 != 0 {
                crc = (crc << 1) ^ 0x31;
            } else {
                crc = crc << 1;
            }
            k = k + 1;
        }
        proof {
            assert(data@.take(i + 1).drop_last() =~= data@.take(i as int));
            assert(data@.take(i + 1).last() == data@[i as int]);
            assert(crc == crc8_bytes(0xff, data@.take(i + 1)));
        }
        i = i + 1;
    }
    proof {
        assert(data@.take(data@.len() as int) =~= data@);
    }
    crc
}

/// Commands the driver may issue to the sensor; each maps to a fixed
/// one-byte code written on the bus.
#[derive(Debug, PartialEq, Eq, Clone, Copy, Structural)]
pub enum Sht40Command {
    MeasureHighRepeatability,
    MeasureMediumRepeatability,
    MeasureLowRepeatability,
    ReadSerial,
    SoftReset,
}

/// The one-byte bus code of each command.
pub open spec fn spec_command_byte(c: Sht40Command) -> u8 {
    match c {
        Sht40Command::MeasureHighRepeatability => 0xFD,
        Sht40Command::MeasureMediumRepeatability => 0xF6,
        Sht40Command::MeasureLowRepeatability => 0xE0,
        Sht40Command::ReadSerial => 0x89,
        Sht40Command::SoftReset => 0x94,
    }
}

impl Sht40Command {
    pub fn to_byte(&self) -> (b: u8)
        ensures
            b == spec_command_byte(*self),
    {
        match self {
            Sht40Command::MeasureHighRepeatability => 0xFD,
            Sht40Command::MeasureMediumRepeatability => 0xF6,
            Sht40Command::MeasureLowRepeatability => 0xE0,
            Sht40Command::ReadSerial => 0x89,
            Sht40Command::SoftReset => 0x94,
        }
    }
}

/// Errors of the sensor protocol: a frame whose checksum does not match,
/// a transport failure reported by the bus, and an exhausted retry budget.
#[derive(Debug, PartialEq, Eq)]
pub enum Sht40Error<E> {
    CrcError,
    I2cError(E),
    TimeoutError,
}

impl<E> From<E> for Sht40Error<E> {
    /// A bus transport error always maps into the protocol's transport
    /// variant.
    fn from(err: E) -> (r: Self)
        ensures
            r == Sht40Error::I2cError(err),
    {
        Sht40Error::I2cError(err)
    }
}

impl<E> vstd::std_specs::convert::FromSpecImpl<E> for Sht40Error<E> {
    open spec fn obeys_from_spec() -> bool {
        true
    }

    open spec fn from_spec(err: E) -> Self {
        Sht40Error::I2cError(err)
    }
}

/// Whether the 3-byte group at index `i` of `s` carries the checksum of
/// its two data bytes.
pub open spec fn group_ok(s: Seq<u8>, i: int) -> bool {
    spec_crc8(s.subrange(3 * i, 3 * i + 2)) == s[3 * i + 2]
}

/// Whether every complete 3-byte group of `s` validates.
pub open spec fn frame_ok(s: Seq<u8>) -> bool {
    forall|i: int| 0 <= i < s.len() as int / 3 ==> group_ok(s, i)
}

/// Validates every 3-byte group of `data` against its trailing checksum
/// byte; reports `CrcError` on the first mismatch.
pub fn sht40_verify_crc<E>(data: &[u8]) -> (r: Result<(), Sht40Error<E>>)
    ensures
        frame_ok(data@) ==> r == Ok::<(), Sht40Error<E>>(()),
        !frame_ok(data@) ==> r == Err::<(), Sht40Error<E>>(Sht40Error::CrcError),
{
    let n = data.len() / 3;
    proof {
        assert(3 * (data@.len() as int / 3) <= data@.len()) by (nonlinear_arith);
    }
    let mut i: usize = 0;
    while i < n
        invariant
            n == data@.len() as int / 3,
            3 * n <= data@.len(),
            data@.len() <= usize::MAX,
            i <= n,
            forall|j: int| 0 <= j < i ==> group_ok(data@, j),
        decreases n - i,
    {
        let g = vstd::slice::slice_subrange(data, i * 3, i * 3 + 2);
        if crc8(g) != data[i * 3 + 2] {
            assert(!group_ok(data@, i as int));
            return Err(Sht40Error::CrcError);
        }
        assert(group_ok(data@, i as int));
        i = i + 1;
    }
    Ok(())
}

/// The unsigned 16-bit value of two big-endian bytes.
pub open spec fn spec_be16(hi: u8, lo: u8) -> u16 {
    (hi * 256 + lo) as u16
}

/// Combines two big-endian bytes into a 16-bit field.
pub fn be16(hi: u8, lo: u8) -> (r: u16)
    ensures
        r == spec_be16(hi, lo),
{
    (hi as u16) * 256 + (lo as u16)
}

/// One validated measurement, as the two raw 16-bit big-endian fields the
/// sensor reports. Scaling them to physical degrees and percent is a
/// floating-point concern of the display side, outside this library.
#[derive(Debug, PartialEq, Eq, Clone, Copy, Structural)]
pub struct SensorData {
    pub tmpr_raw: u16,
    pub humi_raw: u16,
}

/// A frame result with the frame as a byte sequence.
pub open spec fn frame_result_view(r: Result<Vec<u8>, Sht40Error<BusError>>) -> Result<
    Seq<u8>,
    Sht40Error<BusError>,
> {
    match r {
        Ok(v) => Ok(v@),
        Err(e) => Err(e),
    }
}

/// What `k` read attempts starting at script position `p` of `bus` end in:
/// a transport failure consumes one attempt and the next is tried; a frame
/// ends the attempts at once, successfully when its checksum groups
/// validate and with `CrcError` otherwise — a checksum mismatch is never
/// retried; `k` transport failures in a row exhaust the budget as
/// `TimeoutError`.
pub open spec fn retry_result(bus: SimBus, p: int, k: nat) -> Result<
    Seq<u8>,
    Sht40Error<BusError>,
>
    decreases k,
{
    if k == 0 {
        Err(Sht40Error::TimeoutError)
    } else {
        match bus.outcome_at(p) {
            None => retry_result(bus, bus.next_pos(p), (k - 1) as nat),
            Some(f) => if frame_ok(f) {
                Ok(f)
            } else {
                Err(Sht40Error::CrcError)
            },
        }
    }
}

/// The script position after `k` read attempts starting at `p`.
pub open spec fn retry_end_pos(bus: SimBus, p: int, k: nat) -> int
    decreases k,
{
    if k == 0 {
        p
    } else {
        match bus.outcome_at(p) {
            None => retry_end_pos(bus, bus.next_pos(p), (k - 1) as nat),
            Some(f) => bus.next_pos(p),
        }
    }
}

/// The bus activity of `k` read attempts starting at `p`: each transport
/// failure is followed by the fixed inter-attempt pause; a frame ends the
/// attempts.
pub open spec fn retry_trace(bus: SimBus, p: int, k: nat, addr: u8) -> Seq<BusEvent>
    decreases k,
{
    if k == 0 {
        Seq::empty()
    } else {
        match bus.outcome_at(p) {
            None => seq![
                (BusEvent::Read { addr, ok: false }),
                (BusEvent::Pause { ticks: RETRY_PAUSE_TICKS }),
            ] + retry_trace(bus, bus.next_pos(p), (k - 1) as nat, addr),
            Some(f) => seq![(BusEvent::Read { addr, ok: true })],
        }
    }
}

/// The retry specification depends only on the bus's script, not on its
/// position or trace.
pub proof fn lemma_retry_same_script(a: SimBus, b: SimBus, p: int, k: nat, addr: u8)
    requires
        a.script() == b.script(),
    ensures
        retry_result(a, p, k) == retry_result(b, p, k),
        retry_end_pos(a, p, k) == retry_end_pos(b, p, k),
        retry_trace(a, p, k, addr) == retry_trace(b, p, k, addr),
    decreases k,
{
    if k != 0 {
        lemma_retry_same_script(a, b, a.next_pos(p), (k - 1) as nat, addr);
    }
}

/// A successful retry outcome hands back a scripted frame, so it has the
/// scripted frame size.
pub proof fn lemma_retry_ok_sized(bus: SimBus, p: int, k: nat, len: nat)
    requires
        bus.sized_frames(len),
        retry_result(bus, p, k) matches Ok(f),
    ensures
        retry_result(bus, p, k) matches Ok(f) ==> f.len() == len,
    decreases k,
{
    if k != 0 {
        match bus.outcome_at(p) {
            None => {
                lemma_retry_ok_sized(bus, bus.next_pos(p), (k - 1) as nat, len);
            },
            Some(f) => {},
        }
    }
}

impl Sht40Command {
    /// Writes this command's one-byte code on the bus. The sensor needs a
    /// repeatability pause before its data can be read, so the command
    /// write and the data read are separate transactions; a combined
    /// write-read would be refused by the device.
    pub fn send(&self, i2c: &mut SimBus, addr: u8) -> (r: Result<(), Sht40Error<BusError>>)
        ensures
            r == Ok::<(), Sht40Error<BusError>>(()),
            final(i2c).script() == old(i2c).script(),
            final(i2c).pos() == old(i2c).pos(),
            final(i2c).trace() == old(i2c).trace().push(
                (BusEvent::Write { addr, byte: spec_command_byte(*self) }),
            ),
    {
        match i2c.write(addr, self.to_byte()) {
            Ok(()) => Ok(()),
            Err(e) => Err(Sht40Error::I2cError(e)),
        }
    }
}

/// One read attempt of a `len`-byte frame: a transport failure is reported
/// as `I2cError`, a frame whose checksum groups do not validate as
/// `CrcError`, and a validated frame is handed back.
pub fn sht40_read_data(i2c: &mut SimBus, addr: u8, len: usize) -> (r: Result<
    Vec<u8>,
    Sht40Error<BusError>,
>)
    requires
        old(i2c).sized_frames(len as nat),
    ensures
        final(i2c).script() == old(i2c).script(),
        final(i2c).pos() == old(i2c).next_pos(old(i2c).pos() as int),
        match old(i2c).outcome_at(old(i2c).pos() as int) {
            None => r == Err::<Vec<u8>, Sht40Error<BusError>>(
                Sht40Error::I2cError(BusError::Nack),
            ) && final(i2c).trace() == old(i2c).trace().push(
                (BusEvent::Read { addr, ok: false }),
            ),
            Some(f) => final(i2c).trace() == old(i2c).trace().push(
                (BusEvent::Read { addr, ok: true }),
            ) && (if frame_ok(f) {
                (r matches Ok(v) && v@ == f) && f.len() == len
            } else {
                r == Err::<Vec<u8>, Sht40Error<BusError>>(Sht40Error::CrcError)
            }),
        },
{
    match i2c.read(addr) {
        Err(e) => Err(Sht40Error::I2cError(e)),
        Ok(frame) => {
            match sht40_verify_crc::<BusError>(frame.as_slice()) {
                Err(e) => Err(e),
                Ok(()) => Ok(frame),
            }
        },
    }
}

/// Reads a `len`-byte frame with the full retry policy: transport errors
/// are retried up to `RETRY_ATTEMPTS` times with the fixed pause in
/// between; a checksum mismatch surfaces at once; an exhausted budget is a
/// `TimeoutError`. The result, the script consumption and the exact bus
/// activity are all pinned by the retry specification.
pub fn sht40_read_data_with_retry(i2c: &mut SimBus, addr: u8, len: usize) -> (r: Result<
    Vec<u8>,
    Sht40Error<BusError>,
>)
    requires
        old(i2c).sized_frames(len as nat),
    ensures
        final(i2c).script() == old(i2c).script(),
        frame_result_view(r) == retry_result(*old(i2c), old(i2c).pos() as int, RETRY_ATTEMPTS as nat),
        final(i2c).pos() == retry_end_pos(*old(i2c), old(i2c).pos() as int, RETRY_ATTEMPTS as nat),
        final(i2c).trace() == old(i2c).trace() + retry_trace(
            *old(i2c),
            old(i2c).pos() as int,
            RETRY_ATTEMPTS as nat,
            addr,
        ),
{
    let ghost bus0 = *old(i2c);
    let ghost p0 = bus0.pos() as int;
    let mut attempt: usize = 0;
    while attempt < RETRY_ATTEMPTS
        invariant
            bus0 == *old(i2c),
            p0 == bus0.pos() as int,
            attempt <= RETRY_ATTEMPTS,
            i2c.script() == bus0.script(),
            i2c.sized_frames(len as nat),
            retry_result(bus0, p0, RETRY_ATTEMPTS as nat) == retry_result(
                bus0,
                i2c.pos() as int,
                (RETRY_ATTEMPTS - attempt) as nat,
            ),
            retry_end_pos(bus0, p0, RETRY_ATTEMPTS as nat) == retry_end_pos(
                bus0,
                i2c.pos() as int,
                (RETRY_ATTEMPTS - attempt) as nat,
            ),
            bus0.trace() + retry_trace(bus0, p0, RETRY_ATTEMPTS as nat, addr) == i2c.trace()
                + retry_trace(bus0, i2c.pos() as int, (RETRY_ATTEMPTS - attempt) as nat, addr),
        decreases RETRY_ATTEMPTS - attempt,
    {
        let ghost p = i2c.pos() as int;
        let ghost rem = (RETRY_ATTEMPTS - attempt) as nat;
        proof {
            assert(i2c.outcome_at(p) == bus0.outcome_at(p));
            assert(i2c.next_pos(p) == bus0.next_pos(p));
        }
        match sht40_read_data(i2c, addr, len) {
            Ok(data) => {
                proof {
                    assert(retry_result(bus0, p, rem) == Ok::<Seq<u8>, Sht40Error<BusError>>(
                        data@,
                    ));
                    assert(retry_trace(bus0, p, rem, addr) =~= seq![
                        (BusEvent::Read { addr, ok: true }),
                    ]);
                    assert(i2c.trace() =~= bus0.trace() + retry_trace(
                        bus0,
                        p0,
                        RETRY_ATTEMPTS as nat,
                        addr,
                    ));
                }
                return Ok(data);
            },
            Err(Sht40Error::I2cError(_)) => {
                i2c.pause(RETRY_PAUSE_TICKS);
                proof {
                    assert(retry_result(bus0, p, rem) == retry_result(
                        bus0,
                        bus0.next_pos(p),
                        (rem - 1) as nat,
                    ));
                    assert(retry_end_pos(bus0, p, rem) == retry_end_pos(
                        bus0,
                        bus0.next_pos(p),
                        (rem - 1) as nat,
                    ));
                    assert(retry_trace(bus0, p, rem, addr) =~= seq![
                        (BusEvent::Read { addr, ok: false }),
                        (BusEvent::Pause { ticks: RETRY_PAUSE_TICKS }),
                    ] + retry_trace(bus0, bus0.next_pos(p), (rem - 1) as nat, addr));
                    assert(i2c.trace() + retry_trace(
                        bus0,
                        i2c.pos() as int,
                        (rem - 1) as nat,
                        addr,
                    ) =~= bus0.trace() + retry_trace(bus0, p0, RETRY_ATTEMPTS as nat, addr));
                }
                attempt = attempt + 1;
            },
            Err(e) => {
                proof {
                    assert(retry_result(bus0, p, rem) == Err::<Seq<u8>, Sht40Error<BusError>>(
                        Sht40Error::CrcError,
                    ));
                    assert(retry_trace(bus0, p, rem, addr) =~= seq![
                        (BusEvent::Read { addr, ok: true }),
                    ]);
                    assert(i2c.trace() =~= bus0.trace() + retry_trace(
                        bus0,
                        p0,
                        RETRY_ATTEMPTS as nat,
                        addr,
                    ));
                }
                return Err(e);
            },
        }
    }
    proof {
        assert(retry_trace(bus0, i2c.pos() as int, 0, addr) =~= Seq::<BusEvent>::empty());
        assert(i2c.trace() =~= bus0.trace() + retry_trace(bus0, p0, RETRY_ATTEMPTS as nat, addr));
    }
    Err(Sht40Error::TimeoutError)
}

/// Issues a high-repeatability measurement command and reads the 6-byte
/// measurement frame with the retry policy, handing back the two raw
/// big-endian 16-bit fields of a validated frame.
pub fn sht40_sensor_data(i2c: &mut SimBus, addr: u8) -> (r: Result<SensorData, Sht40Error<BusError>>)
    requires
        old(i2c).sized_frames(6),
    ensures
        final(i2c).script() == old(i2c).script(),
        final(i2c).pos() == retry_end_pos(*old(i2c), old(i2c).pos() as int, RETRY_ATTEMPTS as nat),
        final(i2c).trace() == old(i2c).trace().push(
            (BusEvent::Write { addr, byte: 0xFD }),
        ) + retry_trace(*old(i2c), old(i2c).pos() as int, RETRY_ATTEMPTS as nat, addr),
        match retry_result(*old(i2c), old(i2c).pos() as int, RETRY_ATTEMPTS as nat) {
            Ok(f) => r == Ok::<SensorData, Sht40Error<BusError>>(
                (SensorData { tmpr_raw: spec_be16(f[0], f[1]), humi_raw: spec_be16(f[3], f[4]) }),
            ),
            Err(e) => r == Err::<SensorData, Sht40Error<BusError>>(e),
        },
{
    let ghost bus0 = *old(i2c);
    match Sht40Command::MeasureHighRepeatability.send(i2c, addr) {
        Err(e) => Err(e),
        Ok(()) => {
            proof {
                lemma_retry_same_script(*i2c, bus0, bus0.pos() as int, RETRY_ATTEMPTS as nat, addr);
            }
            match sht40_read_data_with_retry(i2c, addr, 6) {
                Err(e) => Err(e),
                Ok(frame) => {
                    proof {
                        lemma_retry_ok_sized(bus0, bus0.pos() as int, RETRY_ATTEMPTS as nat, 6);
                    }
                    let tmpr_raw = be16(frame[0], frame[1]);
                    let humi_raw = be16(frame[3], frame[4]);
                    Ok(SensorData { tmpr_raw, humi_raw })
                },
            }
        },
    }
}

/// The full measurement sequence over the shared bus: the same command,
/// retry and validation behaviour as `sht40_sensor_data`, with every
/// transaction inside its own priority-ceiling critical section and every
/// inter-attempt pause outside of one, so the execution priority is back
/// where it was on every path out.
pub fn sht40_sensor_data_shared(w: &mut I2CWrapper, sched: &mut Scheduler, addr: u8) -> (r: Result<
    SensorData,
    Sht40Error<BusError>,
>)
    requires
        old(w).inner().sized_frames(6),
        old(sched).exec_priority() <= old(w).ceiling(),
    ensures
        final(sched).tasks() == old(sched).tasks(),
        final(sched).exec_priority() == old(sched).exec_priority(),
        final(w).ceiling() == old(w).ceiling(),
        final(w).inner().script() == old(w).inner().script(),
        final(w).inner().pos() == retry_end_pos(
            old(w).inner(),
            old(w).inner().pos() as int,
            RETRY_ATTEMPTS as nat,
        ),
        final(w).inner().trace() == old(w).inner().trace().push(
            (BusEvent::Write { addr, byte: 0xFD }),
        ) + retry_trace(old(w).inner(), old(w).inner().pos() as int, RETRY_ATTEMPTS as nat, addr),
        match retry_result(old(w).inner(), old(w).inner().pos() as int, RETRY_ATTEMPTS as nat) {
            Ok(f) => r == Ok::<SensorData, Sht40Error<BusError>>(
                (SensorData { tmpr_raw: spec_be16(f[0], f[1]), humi_raw: spec_be16(f[3], f[4]) }),
            ),
            Err(e) => r == Err::<SensorData, Sht40Error<BusError>>(e),
        },
{
    let ghost bus0 = old(w).inner();
    let ghost p0 = bus0.pos() as int;
    match w.write(sched, addr, Sht40Command::MeasureHighRepeatability.to_byte()) {
        Err(e) => Err(Sht40Error::I2cError(e)),
        Ok(()) => {
            let mut attempt: usize = 0;
            while attempt < RETRY_ATTEMPTS
                invariant
                    bus0 == old(w).inner(),
                    p0 == bus0.pos() as int,
                    attempt <= RETRY_ATTEMPTS,
                    w.ceiling() == old(w).ceiling(),
                    sched.tasks() == old(sched).tasks(),
                    sched.exec_priority() == old(sched).exec_priority(),
                    sched.exec_priority() <= w.ceiling(),
                    w.inner().script() == bus0.script(),
                    w.inner().sized_frames(6),
                    retry_result(bus0, p0, RETRY_ATTEMPTS as nat) == retry_result(
                        bus0,
                        w.inner().pos() as int,
                        (RETRY_ATTEMPTS - attempt) as nat,
                    ),
                    retry_end_pos(bus0, p0, RETRY_ATTEMPTS as nat) == retry_end_pos(
                        bus0,
                        w.inner().pos() as int,
                        (RETRY_ATTEMPTS - attempt) as nat,
                    ),
                    bus0.trace().push((BusEvent::Write { addr, byte: 0xFD })) + retry_trace(
                        bus0,
                        p0,
                        RETRY_ATTEMPTS as nat,
                        addr,
                    ) == w.inner().trace() + retry_trace(
                        bus0,
                        w.inner().pos() as int,
                        (RETRY_ATTEMPTS - attempt) as nat,
                        addr,
                    ),
                decreases RETRY_ATTEMPTS - attempt,
            {
                let ghost p = w.inner().pos() as int;
                let ghost rem = (RETRY_ATTEMPTS - attempt) as nat;
                proof {
                    assert(w.inner().outcome_at(p) == bus0.outcome_at(p));
                    assert(w.inner().next_pos(p) == bus0.next_pos(p));
                }
                match w.read(sched, addr) {
                    Err(_) => {
                        w.pause(RETRY_PAUSE_TICKS);
                        proof {
                            assert(retry_trace(bus0, p, rem, addr) =~= seq![
                                (BusEvent::Read { addr, ok: false }),
                                (BusEvent::Pause { ticks: RETRY_PAUSE_TICKS }),
                            ] + retry_trace(bus0, bus0.next_pos(p), (rem - 1) as nat, addr));
                            assert(w.inner().trace() + retry_trace(
                                bus0,
                                w.inner().pos() as int,
                                (rem - 1) as nat,
                                addr,
                            ) =~= bus0.trace().push((BusEvent::Write { addr, byte: 0xFD }))
                                + retry_trace(bus0, p0, RETRY_ATTEMPTS as nat, addr));
                        }
                        attempt = attempt + 1;
                    },
                    Ok(frame) => {
                        proof {
                            assert(retry_trace(bus0, p, rem, addr) =~= seq![
                                (BusEvent::Read { addr, ok: true }),
                            ]);
                            assert(w.inner().trace() =~= bus0.trace().push(
                                (BusEvent::Write { addr, byte: 0xFD }),
                            ) + retry_trace(bus0, p0, RETRY_ATTEMPTS as nat, addr));
                        }
                        match sht40_verify_crc::<BusError>(frame.as_slice()) {
                            Err(e) => {
                                return Err(e);
                            },
                            Ok(()) => {
                                proof {
                                    lemma_retry_ok_sized(bus0, p0, RETRY_ATTEMPTS as nat, 6);
                                }
                                let tmpr_raw = be16(frame[0], frame[1]);
                                let humi_raw = be16(frame[3], frame[4]);
                                return Ok(SensorData { tmpr_raw, humi_raw });
                            },
                        }
                    },
                }
            }
            proof {
                assert(retry_trace(bus0, w.inner().pos() as int, 0, addr) =~= Seq::<
                    BusEvent,
                >::empty());
                assert(w.inner().trace() =~= bus0.trace().push(
                    (BusEvent::Write { addr, byte: 0xFD }),
                ) + retry_trace(bus0, p0, RETRY_ATTEMPTS as nat, addr));
            }
            Err(Sht40Error::TimeoutError)
        },
    }
}

/// One round of the sensor task between suspensions: poll the sensor over
/// the shared bus and, on a validated reading, offer it to the channel
/// toward the display task. The caller acts on the outcome — waking the
/// consumer, or parking itself when the channel is full — and a failed
/// poll is reported without touching the channel, so the task's loop can
/// go on to its next iteration.
pub fn sensor_task_step(
    w: &mut I2CWrapper,
    sched: &mut Scheduler,
    ch: &mut Channel<SensorData>,
    addr: u8,
) -> (r: Result<SendOutcome, Sht40Error<BusError>>)
    requires
        old(w).inner().sized_frames(6),
        old(sched).exec_priority() <= old(w).ceiling(),
        old(ch).wf(),
        old(ch).pending().len() == 0,
    ensures
        final(sched).tasks() == old(sched).tasks(),
        final(sched).exec_priority() == old(sched).exec_priority(),
        final(w).ceiling() == old(w).ceiling(),
        final(w).inner().script() == old(w).inner().script(),
        final(w).inner().pos() == retry_end_pos(
            old(w).inner(),
            old(w).inner().pos() as int,
            RETRY_ATTEMPTS as nat,
        ),
        final(w).inner().trace() == old(w).inner().trace().push(
            (BusEvent::Write { addr, byte: 0xFD }),
        ) + retry_trace(old(w).inner(), old(w).inner().pos() as int, RETRY_ATTEMPTS as nat, addr),
        final(ch).wf(),
        final(ch).cap() == old(ch).cap(),
        final(ch).received() == old(ch).received(),
        match retry_result(old(w).inner(), old(w).inner().pos() as int, RETRY_ATTEMPTS as nat) {
            Ok(f) => {
                &&& final(ch).sent() == old(ch).sent().push(
                    (SensorData { tmpr_raw: spec_be16(f[0], f[1]), humi_raw: spec_be16(f[3], f[4]) }),
                )
                &&& (if old(ch).queue().len() < old(ch).cap() {
                    r == Ok::<SendOutcome, Sht40Error<BusError>>(
                        (SendOutcome::Sent { wake_consumer: old(ch).consumer_waiting() }),
                    )
                } else {
                    r == Ok::<SendOutcome, Sht40Error<BusError>>(SendOutcome::Suspended)
                })
            },
            Err(e) => {
                &&& r == Err::<SendOutcome, Sht40Error<BusError>>(e)
                &&& final(ch).sent() == old(ch).sent()
                &&& final(ch).queue() == old(ch).queue()
                &&& final(ch).pending() == old(ch).pending()
                &&& final(ch).consumer_waiting() == old(ch).consumer_waiting()
            },
        },
{
    match sht40_sensor_data_shared(w, sched, addr) {
        Ok(data) => Ok(ch.send(data)),
        Err(e) => Err(e),
    }
}

} // verus!
