//! Lottery and binary-options ledger program: record codec, instruction
//! decoding and the validated state transitions, all verified.

pub mod error;
pub mod codec;
pub mod state;
pub mod instruction;
pub mod processor;
