//! Command/response protocol of a PIV smart-card application.
//!
//! The library holds the protocol logic as verified, transport-free code:
//! the length-prefixed structure codec, status-word classification, the
//! chaining/continuation engine and the command handlers. A caller owns the
//! transport: it transmits each frame the library hands out and feeds the
//! card's answer back in.

pub mod bytes;
pub mod error;
pub mod tlv;
pub mod status;
pub mod apdu;
pub mod chain;
pub mod commands;
pub mod serial;
