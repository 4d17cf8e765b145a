use vstd::prelude::*;

use crate::meter::config::MeterConfig;
use crate::meter::handler::response_frame_bits;
use crate::meter::handler::spec_response_bits;

verus! {

/// Rising clock edges that must accumulate before the meter starts
/// transmitting: the wake-up sequence.
pub const WAKE_UP_THRESHOLD: u32 = 10;

/// An edge gap longer than this while transmitting means the MTU has
/// stalled or abandoned the transaction. It must exceed the slowest
/// anticipated cycle time.
pub const PULSE_TIMEOUT_MICROS: u64 = 2_000_000;

/// Abstract state of the bit-pump.
#[verifier::ext_equal]
pub ghost struct PumpModel {
    /// The flattened response frames the pump indexes.
    pub response_bits: Seq<u8>,
    /// Next bit of the buffer to shift out.
    pub bit_index: int,
    /// Rising edges counted since idle was last entered; counting
    /// saturates at the wake threshold, the only value it is compared
    /// against.
    pub pulse_count: int,
    /// True from the wake-up edge until the last bit has been shifted.
    pub transmitting: bool,
    /// Timestamp of the previous rising edge, in microseconds.
    pub last_pulse_micros: int,
}

impl PumpModel {
    pub open spec fn wf(self) -> bool {
        &&& 0 <= self.bit_index <= self.response_bits.len()
        &&& 0 <= self.pulse_count <= WAKE_UP_THRESHOLD
        &&& !self.transmitting ==> self.bit_index == 0
    }
}

/// One rising clock edge, at time `now` (microseconds).
///
/// A stalled transmission (edge gap beyond the pulse timeout) first falls
/// back to idle. The edge is then counted. The wake-up edge — the edge
/// that brings the count to the threshold while idle — starts the
/// transmission and already drives the first bit. While transmitting,
/// each edge shifts the next bit out; the edge that shifts the last bit
/// returns to idle, clears the counters and parks the data line HIGH.
/// The driven data-line level is the second component; `None` leaves the
/// line as it is.
pub open spec fn spec_pump_step(pre: PumpModel, now: int) -> (PumpModel, Option<u8>) {
    let stalled = pre.transmitting && now - pre.last_pulse_micros > PULSE_TIMEOUT_MICROS;
    let transmitting = pre.transmitting && !stalled;
    let bit_index = if stalled { 0int } else { pre.bit_index };
    let counted = if stalled { 0int } else { pre.pulse_count };
    let pulse_count = if counted < WAKE_UP_THRESHOLD { counted + 1 } else { counted };
    if !transmitting && pulse_count >= WAKE_UP_THRESHOLD {
        if pre.response_bits.len() > 0 {
            (
                PumpModel {
                    bit_index: 1,
                    pulse_count,
                    transmitting: true,
                    last_pulse_micros: now,
                    ..pre
                },
                Some(pre.response_bits[0]),
            )
        } else {
            (
                PumpModel {
                    bit_index: 0,
                    pulse_count,
                    transmitting: true,
                    last_pulse_micros: now,
                    ..pre
                },
                None,
            )
        }
    } else if transmitting && bit_index < pre.response_bits.len() {
        let bit = pre.response_bits[bit_index];
        if bit_index + 1 == pre.response_bits.len() {
            (
                PumpModel {
                    bit_index: 0,
                    pulse_count: 0,
                    transmitting: false,
                    last_pulse_micros: now,
                    ..pre
                },
                Some(1u8),
            )
        } else {
            (
                PumpModel {
                    bit_index: bit_index + 1,
                    pulse_count,
                    transmitting,
                    last_pulse_micros: now,
                    ..pre
                },
                Some(bit),
            )
        }
    } else {
        (
            PumpModel { bit_index, pulse_count, transmitting, last_pulse_micros: now, ..pre },
            None,
        )
    }
}

/// The METER's bit-pump: answers each rising clock edge by shifting the
/// next bit of the pre-built response buffer onto the data line.
///
/// The buffer is built once, while idle, and indexed monotonically; the
/// edge handler itself does nothing but test, index and count.
pub struct MeterPump {
    /// Snapshot of the configuration the response buffer was built from.
    pub config: MeterConfig,
    pub response_bits: Vec<u8>,
    pub bit_index: usize,
    pub pulse_count: u32,
    pub transmitting: bool,
    pub last_pulse_micros: u64,
}

impl View for MeterPump {
    type V = PumpModel;

    open spec fn view(&self) -> PumpModel {
        PumpModel {
            response_bits: self.response_bits@,
            bit_index: self.bit_index as int,
            pulse_count: self.pulse_count as int,
            transmitting: self.transmitting,
            last_pulse_micros: self.last_pulse_micros as int,
        }
    }
}

impl MeterPump {
    /// The buffer always holds exactly the frames of the configured
    /// telegram.
    pub open spec fn wf(&self) -> bool {
        &&& self@.wf()
        &&& self.config.wf()
        &&& self@.response_bits == spec_response_bits(
            self.config.response_message@,
            self.config.meter_type,
        )
    }

    /// A pump in idle state with the response buffer built eagerly from
    /// `config`.
    pub fn new(config: MeterConfig) -> (p: MeterPump)
        requires
            config.wf(),
        ensures
            p.wf(),
            p.config == config,
            p@ == (PumpModel {
                response_bits: spec_response_bits(config.response_message@, config.meter_type),
                bit_index: 0,
                pulse_count: 0,
                transmitting: false,
                last_pulse_micros: 0,
            }),
    {
        let response_bits = response_frame_bits(&config);
        MeterPump {
            config,
            response_bits,
            bit_index: 0,
            pulse_count: 0,
            transmitting: false,
            last_pulse_micros: 0,
        }
    }

    /// Handles one rising clock edge; see [`spec_pump_step`]. Returns the
    /// level to drive on the data line, or `None` to leave it unchanged.
    pub fn on_rising_edge(&mut self, now_micros: u64) -> (action: Option<u8>)
        requires
            old(self).wf(),
            now_micros >= old(self)@.last_pulse_micros,
        ensures
            final(self).wf(),
            final(self).config == old(self).config,
            final(self)@ == spec_pump_step(old(self)@, now_micros as int).0,
            action == spec_pump_step(old(self)@, now_micros as int).1,
    {
        // A stalled transmission falls back to idle before the edge is
        // counted.
        if self.transmitting && now_micros - self.last_pulse_micros > PULSE_TIMEOUT_MICROS {
            self.transmitting = false;
            self.bit_index = 0;
            self.pulse_count = 0;
        }

        if self.pulse_count < WAKE_UP_THRESHOLD {
            self.pulse_count = self.pulse_count + 1;
        }
        self.last_pulse_micros = now_micros;

        if !self.transmitting && self.pulse_count >= WAKE_UP_THRESHOLD {
            // Wake-up complete: start transmitting on this very edge.
            if self.response_bits.len() == 0 {
                self.response_bits = response_frame_bits(&self.config);
            }
            self.transmitting = true;
            self.bit_index = 0;
            if self.response_bits.len() > 0 {
                let bit = self.response_bits[0];
                self.bit_index = 1;
                proof {
                    assert(self@ =~= spec_pump_step(old(self)@, now_micros as int).0);
                }
                return Some(bit);
            }
            proof {
                assert(self@ =~= spec_pump_step(old(self)@, now_micros as int).0);
            }
            return None;
        }

        if self.transmitting && self.bit_index < self.response_bits.len() {
            let bit = self.response_bits[self.bit_index];
            self.bit_index = self.bit_index + 1;
            if self.bit_index >= self.response_bits.len() {
                // Last bit shifted: back to idle, park the line HIGH.
                self.transmitting = false;
                self.bit_index = 0;
                self.pulse_count = 0;
                proof {
                    assert(self@ =~= spec_pump_step(old(self)@, now_micros as int).0);
                }
                return Some(1);
            }
            proof {
                assert(self@ =~= spec_pump_step(old(self)@, now_micros as int).0);
            }
            return Some(bit);
        }

        proof {
            assert(self@ =~= spec_pump_step(old(self)@, now_micros as int).0);
        }
        None
    }
}

} // verus!
