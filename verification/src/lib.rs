//! A memo instruction processor for a ledger runtime.
//!
//! The processor decodes a binary instruction, checks what the call is
//! allowed to do, and answers with the one thing the host has to carry out:
//! append a line to the log, or store the fixed-size commitment of a memo in a
//! target account, creating that account first where it does not exist yet.
//! The library itself touches no account and performs no I/O; every decision
//! it takes is stated as a contract and proved.
pub mod digest;
pub mod error;
pub mod instruction;
pub mod processor;
pub mod provisioner;
