//! Serial line protocol engine for an acknowledgment-based motion controller.
//!
//! The library covers the pure protocol logic: reassembling a raw byte
//! stream into delimiter-terminated lines, encoding outbound commands,
//! classifying inbound status lines, and driving the single-outstanding-
//! command session state machine.  The caller owns the serial device and
//! the program source; it feeds bytes and program lines in and writes
//! encoded command lines out.

pub mod command;
pub mod laws;
pub mod reassembly;
pub mod session;
pub mod text;

pub use command::Command;
