//! The master (MTU) side of the link: configuration, errors, the frame
//! codec, the sampled-bit queue, the frame reassembler and the session
//! layer that grades received telegrams.

pub mod config;
pub mod error;
pub mod gpio_mtu;
pub mod queue;
pub mod reassembler;
pub mod uart_framing;
