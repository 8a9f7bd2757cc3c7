//! Instruction processing for a wagering ledger program: instruction decoding,
//! fixed-layout record codecs, program-derived authority checks and the
//! bet-opening state transition, each stated and proved with Verus.

pub mod authority;
pub mod error;
pub mod instruction;
pub mod processor;
pub mod state;
