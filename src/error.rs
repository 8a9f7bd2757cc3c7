use vstd::prelude::*;

verus! {

/// The program's own failure reasons, surfaced to the ledger as a numeric code.
#[derive(Debug, Clone, Copy, PartialEq, Eq, Structural)]
pub enum GPTError {
    /// Malformed or unrecognised instruction buffer.
    InvalidInstruction,
    /// A byte that does not name a known bet type.
    InvalidBetType,
    /// Reserved: the wagering window is closed.
    BetIsClose,
    /// The authority account fails its ownership or derivation check.
    InvalidPDAAccount,
    /// The authority account cannot stay on the ledger at its size.
    NotRentExempt,
    /// The wager account holds less than the minimum stake.
    BetLamportNotEnough,
    /// The wager account already holds data.
    BetAccountContainsData,
}

/// The numeric code of each failure: its position in the declaration.
pub open spec fn error_code(e: GPTError) -> u32 {
    match e {
        GPTError::InvalidInstruction => 0,
        GPTError::InvalidBetType => 1,
        GPTError::BetIsClose => 2,
        GPTError::InvalidPDAAccount => 3,
        GPTError::NotRentExempt => 4,
        GPTError::BetLamportNotEnough => 5,
        GPTError::BetAccountContainsData => 6,
    }
}

impl GPTError {
    /// The custom error code reported to the ledger.
    pub fn code(&self) -> (r: u32)
        ensures
            r == error_code(*self),
    {
        match self {
            GPTError::InvalidInstruction => 0,
            GPTError::InvalidBetType => 1,
            GPTError::BetIsClose => 2,
            GPTError::InvalidPDAAccount => 3,
            GPTError::NotRentExempt => 4,
            GPTError::BetLamportNotEnough => 5,
            GPTError::BetAccountContainsData => 6,
        }
    }
}

/// Why processing an instruction, or decoding or encoding a record, failed.
#[derive(Debug, Clone, Copy, PartialEq, Eq, Structural)]
pub enum ProcessError {
    /// One of the program's own failures.
    Program(GPTError),
    /// A record buffer has the wrong length or holds an invalid value.
    InvalidAccountData,
    /// The account that must sign did not.
    MissingRequiredSignature,
    /// Fewer accounts were supplied than the instruction needs.
    NotEnoughAccountKeys,
}

} // verus!
