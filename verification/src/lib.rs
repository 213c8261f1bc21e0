//! Core logic of a single-core, interrupt-driven embedded control loop:
//! a monotonic clock read over a split 32+32 bit hardware counter, a
//! software timer queue multiplexing one hardware alarm, a cooperative
//! priority scheduler with priority-ceiling resource sharing, a bounded
//! single-producer/single-consumer channel, and the SHT40 sensor protocol
//! state machine with CRC validation and bounded retry.
//!
//! Hardware register access, interrupt wiring and display rendering are
//! external collaborators; here they appear as simulated devices driven by
//! plain values, so that every decision the firmware makes is verified.

pub mod bus;
pub mod channel;
pub mod display;
pub mod monotonic;
pub mod sched;
pub mod sensors;
pub mod timer_queue;
pub mod utils;
