//! Verified core of a two-wire water-meter link.
//!
//! Two roles share an asymmetric physical link made of a clock line (driven
//! by the master, the MTU) and a data line (driven by the responder, the
//! METER). The METER shifts a UART-style character frame onto the data line,
//! one bit per rising clock edge, after a wake-up sequence of clock pulses;
//! the MTU generates the clock, samples the data line once per cycle,
//! reassembles the frames and decodes the carriage-return-terminated
//! telegram.
//!
//! This crate holds the logic of that link: the frame codec, the METER's
//! bit-pump state machine, the MTU's bit queue, frame reassembler and
//! session layer, and the command parsers of the two roles' consoles. Pin
//! handling, real-time waits and consoles live outside the crate; they feed
//! these state machines with plain values (sampled bits, edge timestamps,
//! command lines) and carry their outputs back to the hardware.

pub mod cli;
pub mod meter;
pub mod mtu;
