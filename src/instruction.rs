use crate::error::GPTError;
use crate::state::{bet_type_byte, bet_type_from_byte, BetType};
use vstd::bytes::*;
use vstd::prelude::*;
use vstd::slice::slice_subrange;

verus! {

/// The operations the program accepts.
#[derive(Debug, Clone, Copy, PartialEq, Eq, Structural)]
pub enum GPTInstruction {
    /// Opens a wager. Accounts expected, in order:
    /// the wagerer (signer), the derived authority account of the bet type
    /// (writable), the wagerer's bet account (writable), the system program.
    NewBet { bet_type: BetType, bump_seed: u8, guess: u64 },
}

/// What an instruction buffer decodes to: tag 0 followed by the bet type
/// ordinal, the bump byte and the guess in eight little-endian bytes; a
/// missing byte or unknown tag is an invalid instruction, checked in the order
/// the fields are read.
pub open spec fn instruction_decode(s: Seq<u8>) -> Result<GPTInstruction, GPTError> {
    if s.len() == 0 || s[0] != 0 || s.len() < 2 {
        Err(GPTError::InvalidInstruction)
    } else {
        match bet_type_from_byte(s[1]) {
            None => Err(GPTError::InvalidBetType),
            Some(t) => if s.len() < 11 {
                Err(GPTError::InvalidInstruction)
            } else {
                Ok(
                    GPTInstruction::NewBet {
                        bet_type: t,
                        bump_seed: s[2],
                        guess: spec_u64_from_le_bytes(s.subrange(3, 11)),
                    },
                )
            },
        }
    }
}

/// The 11-byte wire form of a new-bet instruction.
pub open spec fn new_bet_encode(bet_type: BetType, bump_seed: u8, guess: u64) -> Seq<u8> {
    seq![0u8, bet_type_byte(bet_type), bump_seed] + spec_u64_to_le_bytes(guess)
}

impl GPTInstruction {
    /// Decodes an instruction buffer; bytes after the guess are ignored.
    pub fn unpack(input: &[u8]) -> (r: Result<GPTInstruction, GPTError>)
        ensures
            r == instruction_decode(input@),
    {
        if input.len() == 0 || input[0] != 0 || input.len() < 2 {
            return Err(GPTError::InvalidInstruction);
        }
        let bet_type = match BetType::from_u8(input[1]) {
            Some(t) => t,
            None => {
                return Err(GPTError::InvalidBetType);
            },
        };
        if input.len() < 3 {
            return Err(GPTError::InvalidInstruction);
        }
        let bump_seed = input[2];
        let rest = slice_subrange(input, 3, input.len());
        let guess = match Self::unpack_guess(rest) {
            Ok(g) => g,
            Err(e) => {
                return Err(e);
            },
        };
        assert(rest@.subrange(0, 8) =~= input@.subrange(3, 11));
        Ok(GPTInstruction::NewBet { bet_type, bump_seed, guess })
    }

    /// Reads the guess from the first eight bytes of `input`, little-endian.
    pub fn unpack_guess(input: &[u8]) -> (r: Result<u64, GPTError>)
        ensures
            input@.len() < 8 ==> r == Err::<u64, GPTError>(GPTError::InvalidInstruction),
            input@.len() >= 8 ==> r == Ok::<u64, GPTError>(
                spec_u64_from_le_bytes(input@.subrange(0, 8)),
            ),
    {
        if input.len() < 8 {
            return Err(GPTError::InvalidInstruction);
        }
        Ok(u64_from_le_bytes(slice_subrange(input, 0, 8)))
    }
}

/// Decoding the encoding of any new-bet instruction gives back exactly its
/// bet type, bump and guess.
pub proof fn lemma_new_bet_round_trip(bet_type: BetType, bump_seed: u8, guess: u64)
    ensures
        new_bet_encode(bet_type, bump_seed, guess).len() == 11,
        instruction_decode(new_bet_encode(bet_type, bump_seed, guess)) == Ok::<
            GPTInstruction,
            GPTError,
        >(GPTInstruction::NewBet { bet_type, bump_seed, guess }),
{
    lemma_auto_spec_u64_to_from_le_bytes();
    let s = new_bet_encode(bet_type, bump_seed, guess);
    assert(s.subrange(3, 11) =~= spec_u64_to_le_bytes(guess));
}

/// An empty buffer, and a tag-0 buffer shorter than 11 bytes whose bet type
/// byte (when present) is known, are invalid instructions.
pub proof fn lemma_short_buffer_rejected(s: Seq<u8>)
    requires
        s.len() == 0 || (s[0] == 0 && s.len() < 11 && (s.len() >= 2 ==> bet_type_from_byte(
            s[1],
        ) is Some)),
    ensures
        instruction_decode(s) == Err::<GPTInstruction, GPTError>(GPTError::InvalidInstruction),
{
}

/// A tag-0 buffer whose second byte names no bet type is an invalid bet type.
pub proof fn lemma_unknown_bet_type_rejected(s: Seq<u8>)
    requires
        s.len() >= 2,
        s[0] == 0,
        bet_type_from_byte(s[1]) is None,
    ensures
        instruction_decode(s) == Err::<GPTInstruction, GPTError>(GPTError::InvalidBetType),
{
}

} // verus!
