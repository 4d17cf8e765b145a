//! The responder (METER) side of the link: configuration, the console
//! command parser and handler, and the bit-pump that answers the MTU's
//! clock edges.

pub mod config;
pub mod handler;
pub mod parser;
pub mod pump;
