use crate::error::{GPTError, ProcessError};
use vstd::bytes::*;
use vstd::prelude::*;
use vstd::slice::slice_subrange;

verus! {

/// The categories a wager can be placed on.
#[derive(Debug, Clone, Copy, PartialEq, Eq, Structural)]
pub enum BetType {
    SolUsd,
}

/// The byte that stands for a bet type in instructions and records.
pub open spec fn bet_type_byte(t: BetType) -> u8 {
    match t {
        BetType::SolUsd => 0,
    }
}

/// The bet type a byte names, if any.
pub open spec fn bet_type_from_byte(b: u8) -> Option<BetType> {
    if b == 0 {
        Some(BetType::SolUsd)
    } else {
        None
    }
}

impl BetType {
    /// The byte that stands for this bet type.
    pub fn to_byte(&self) -> (r: u8)
        ensures
            r == bet_type_byte(*self),
    {
        match self {
            BetType::SolUsd => 0,
        }
    }

    /// The bet type that `b` names, or `None` for an unknown ordinal.
    pub fn from_u8(b: u8) -> (r: Option<BetType>)
        ensures
            r == bet_type_from_byte(b),
    {
        if b == 0 {
            Some(BetType::SolUsd)
        } else {
            None
        }
    }
}

/// Every bet type survives the trip through its byte.
pub proof fn lemma_bet_type_byte_round_trip(t: BetType)
    ensures
        bet_type_from_byte(bet_type_byte(t)) == Some(t),
{
}

/// A 32-byte ledger address.
#[derive(Debug, Clone, Copy)]
pub struct Address {
    pub bytes: [u8; 32],
}

impl View for Address {
    type V = Seq<u8>;

    open spec fn view(&self) -> Seq<u8> {
        self.bytes@
    }
}

impl Address {
    /// The all-zero address.
    pub fn zero() -> (r: Address)
        ensures
            r@ == Seq::new(32, |i: int| 0u8),
    {
        let r = Address { bytes: [0u8; 32] };
        assert(r@ =~= Seq::new(32, |i: int| 0u8));
        r
    }

    /// The address held in `src` from `off` on.
    pub fn read_from(src: &[u8], off: usize) -> (r: Address)
        requires
            off + 32 <= src@.len(),
        ensures
            r@ == src@.subrange(off as int, off + 32),
    {
        let mut bytes = [0u8; 32];
        let mut i: usize = 0;
        while i < 32
            invariant
                0 <= i <= 32,
                off + 32 <= src.len(),
                forall|k: int| 0 <= k < i ==> bytes@[k] == src@[off + k],
            decreases 32 - i,
        {
            bytes[i] = src[off + i];
            i += 1;
        }
        let r = Address { bytes };
        assert(r@ =~= src@.subrange(off as int, off + 32));
        r
    }
}

impl PartialEq for Address {
    fn eq(&self, other: &Address) -> (r: bool) {
        let mut i: usize = 0;
        while i < 32
            invariant
                0 <= i <= 32,
                forall|k: int| 0 <= k < i ==> self@[k] == other@[k],
            decreases 32 - i,
        {
            if self.bytes[i] != other.bytes[i] {
                return false;
            }
            i += 1;
        }
        assert(self@ =~= other@);
        true
    }
}

impl vstd::std_specs::cmp::PartialEqSpecImpl for Address {
    open spec fn obeys_eq_spec() -> bool {
        true
    }

    open spec fn eq_spec(&self, other: &Address) -> bool {
        self@ == other@
    }
}

/// Two addresses with the same bytes are the same value.
pub proof fn lemma_address_view_injective(a: Address, b: Address)
    requires
        a@ == b@,
    ensures
        a == b,
{
    assert(a.bytes == b.bytes);
}

/// `dst` with the bytes of `src` written from `off` on.
pub open spec fn overwrite(dst: Seq<u8>, off: int, src: Seq<u8>) -> Seq<u8> {
    dst.subrange(0, off) + src + dst.subrange(off + src.len(), dst.len() as int)
}

/// Writes `src` into `dst` from `off` on.
fn copy_into(dst: &mut [u8], off: usize, src: &[u8])
    requires
        off + src@.len() <= old(dst)@.len(),
    ensures
        final(dst)@ == overwrite(old(dst)@, off as int, src@),
{
    let ghost start = dst@;
    let mut i: usize = 0;
    while i < src.len()
        invariant
            0 <= i <= src@.len(),
            off + src@.len() <= start.len(),
            off + src@.len() <= dst.len(),
            dst@ == overwrite(start, off as int, src@.subrange(0, i as int)),
        decreases src@.len() - i,
    {
        dst[off + i] = src[i];
        i += 1;
        assert(dst@ =~= overwrite(start, off as int, src@.subrange(0, i as int)));
    }
    assert(src@.subrange(0, i as int) =~= src@);
}

/// Writes the bytes of `a` into `dst` from `off` on.
fn copy_address_into(dst: &mut [u8], off: usize, a: &Address)
    requires
        off + 32 <= old(dst)@.len(),
    ensures
        final(dst)@ == overwrite(old(dst)@, off as int, a@),
{
    let ghost start = dst@;
    let mut i: usize = 0;
    while i < 32
        invariant
            0 <= i <= 32,
            off + 32 <= start.len(),
            off + 32 <= dst.len(),
            dst@ == overwrite(start, off as int, a@.subrange(0, i as int)),
        decreases 32 - i,
    {
        dst[off + i] = a.bytes[i];
        i += 1;
        assert(dst@ =~= overwrite(start, off as int, a@.subrange(0, i as int)));
    }
    assert(a@.subrange(0, 32) =~= a@);
}

/// The bytes that stand for a boolean flag.
pub open spec fn bool_byte(b: bool) -> u8 {
    if b {
        1
    } else {
        0
    }
}

/// The per-bet-type control record: 38 bytes on the ledger.
#[derive(Debug, Clone, Copy)]
pub struct ProgramAccount {
    pub bet_type: BetType,
    pub is_open: bool,
    pub head_pubkey: Address,
    pub number_of_bettors: u32,
}

/// Which check, if any, a 38-byte control record fails when decoded.
pub open spec fn program_account_check(s: Seq<u8>) -> Result<(), ProcessError> {
    if bet_type_from_byte(s[0]) is None {
        Err(ProcessError::Program(GPTError::InvalidBetType))
    } else if s[1] > 1 {
        Err(ProcessError::InvalidAccountData)
    } else {
        Ok(())
    }
}

impl ProgramAccount {
    pub const LEN: usize = 38;

    /// The record's layout: bet type, open flag, chain head, bettor count
    /// (little-endian).
    pub open spec fn spec_encode(&self) -> Seq<u8> {
        seq![bet_type_byte(self.bet_type), bool_byte(self.is_open)] + self.head_pubkey@
            + spec_u32_to_le_bytes(self.number_of_bettors)
    }

    /// Decodes the first 38 bytes of `src`: the record whose encoding they
    /// are, or the first check they fail.
    pub fn unpack_from_slice(src: &[u8]) -> (r: Result<ProgramAccount, ProcessError>)
        requires
            src@.len() >= 38,
        ensures
            match r {
                Ok(a) => program_account_check(src@) is Ok && a.spec_encode() == src@.subrange(
                    0,
                    38,
                ),
                Err(e) => program_account_check(src@) == Err::<(), ProcessError>(e),
            },
    {
        let bet_type = match BetType::from_u8(src[0]) {
            Some(t) => t,
            None => {
                return Err(ProcessError::Program(GPTError::InvalidBetType));
            },
        };
        let is_open = if src[1] == 0 {
            false
        } else if src[1] == 1 {
            true
        } else {
            return Err(ProcessError::InvalidAccountData);
        };
        let head_pubkey = Address::read_from(src, 2);
        let number_of_bettors = u32_from_le_bytes(slice_subrange(src, 34, 38));
        let a = ProgramAccount { bet_type, is_open, head_pubkey, number_of_bettors };
        proof {
            lemma_auto_spec_u32_to_from_le_bytes();
            assert(spec_u32_to_le_bytes(number_of_bettors) == src@.subrange(34, 38));
            assert(a.spec_encode() =~= src@.subrange(0, 38));
        }
        Ok(a)
    }

    /// Writes the record's encoding over the first 38 bytes of `dst`.
    pub fn pack_into_slice(&self, dst: &mut [u8])
        requires
            old(dst)@.len() >= 38,
        ensures
            final(dst)@ == overwrite(old(dst)@, 0, self.spec_encode()),
    {
        let ghost start = dst@;
        proof {
            lemma_auto_spec_u32_to_from_le_bytes();
        }
        dst[0] = self.bet_type.to_byte();
        dst[1] = if self.is_open {
            1
        } else {
            0
        };
        copy_address_into(dst, 2, &self.head_pubkey);
        let count = u32_to_le_bytes(self.number_of_bettors);
        copy_into(dst, 34, count.as_slice());
        assert(dst@ =~= overwrite(start, 0, self.spec_encode()));
    }

    /// Decodes a buffer that must be exactly one record long.
    pub fn unpack_unchecked(input: &[u8]) -> (r: Result<ProgramAccount, ProcessError>)
        ensures
            input@.len() != 38 ==> r == Err::<ProgramAccount, ProcessError>(
                ProcessError::InvalidAccountData,
            ),
            input@.len() == 38 ==> match r {
                Ok(a) => program_account_check(input@) is Ok && a.spec_encode() == input@,
                Err(e) => program_account_check(input@) == Err::<(), ProcessError>(e),
            },
    {
        if input.len() != Self::LEN {
            return Err(ProcessError::InvalidAccountData);
        }
        let r = Self::unpack_from_slice(input);
        assert(input@.subrange(0, 38) =~= input@);
        r
    }

    /// Encodes `src` into a buffer that must be exactly one record long.
    pub fn pack(src: ProgramAccount, dst: &mut [u8]) -> (r: Result<(), ProcessError>)
        ensures
            old(dst)@.len() != 38 ==> r == Err::<(), ProcessError>(ProcessError::InvalidAccountData)
                && final(dst)@ == old(dst)@,
            old(dst)@.len() == 38 ==> r is Ok && final(dst)@ == src.spec_encode(),
    {
        if dst.len() != Self::LEN {
            return Err(ProcessError::InvalidAccountData);
        }
        src.pack_into_slice(dst);
        proof {
            lemma_auto_spec_u32_to_from_le_bytes();
        }
        assert(dst@ =~= src.spec_encode());
        Ok(())
    }
}

/// The per-wager record: 81 bytes on the ledger.
#[derive(Debug, Clone, Copy)]
pub struct BetAccount {
    pub bet_type: BetType,
    pub guess: u64,
    pub time_slot: u64,
    pub next_bet_pubkey: Address,
    pub bettor_pubkey: Address,
}

/// Which check, if any, an 81-byte wager record fails when decoded.
pub open spec fn bet_account_check(s: Seq<u8>) -> Result<(), ProcessError> {
    if bet_type_from_byte(s[0]) is None {
        Err(ProcessError::Program(GPTError::InvalidBetType))
    } else {
        Ok(())
    }
}

impl BetAccount {
    pub const LEN: usize = 81;

    /// The record's layout: bet type, guess and time slot (little-endian),
    /// next record in the chain, bettor.
    pub open spec fn spec_encode(&self) -> Seq<u8> {
        seq![bet_type_byte(self.bet_type)] + spec_u64_to_le_bytes(self.guess)
            + spec_u64_to_le_bytes(self.time_slot) + self.next_bet_pubkey@ + self.bettor_pubkey@
    }

    /// Decodes the first 81 bytes of `src`: the record whose encoding they
    /// are, or the first check they fail.
    pub fn unpack_from_slice(src: &[u8]) -> (r: Result<BetAccount, ProcessError>)
        requires
            src@.len() >= 81,
        ensures
            match r {
                Ok(a) => bet_account_check(src@) is Ok && a.spec_encode() == src@.subrange(0, 81),
                Err(e) => bet_account_check(src@) == Err::<(), ProcessError>(e),
            },
    {
        let bet_type = match BetType::from_u8(src[0]) {
            Some(t) => t,
            None => {
                return Err(ProcessError::Program(GPTError::InvalidBetType));
            },
        };
        let guess = u64_from_le_bytes(slice_subrange(src, 1, 9));
        let time_slot = u64_from_le_bytes(slice_subrange(src, 9, 17));
        let next_bet_pubkey = Address::read_from(src, 17);
        let bettor_pubkey = Address::read_from(src, 49);
        let a = BetAccount { bet_type, guess, time_slot, next_bet_pubkey, bettor_pubkey };
        proof {
            lemma_auto_spec_u64_to_from_le_bytes();
            assert(spec_u64_to_le_bytes(guess) == src@.subrange(1, 9));
            assert(spec_u64_to_le_bytes(time_slot) == src@.subrange(9, 17));
            assert(a.spec_encode() =~= src@.subrange(0, 81));
        }
        Ok(a)
    }

    /// Writes the record's encoding over the first 81 bytes of `dst`.
    pub fn pack_into_slice(&self, dst: &mut [u8])
        requires
            old(dst)@.len() >= 81,
        ensures
            final(dst)@ == overwrite(old(dst)@, 0, self.spec_encode()),
    {
        let ghost start = dst@;
        proof {
            lemma_auto_spec_u64_to_from_le_bytes();
        }
        dst[0] = self.bet_type.to_byte();
        let guess = u64_to_le_bytes(self.guess);
        copy_into(dst, 1, guess.as_slice());
        let time_slot = u64_to_le_bytes(self.time_slot);
        copy_into(dst, 9, time_slot.as_slice());
        copy_address_into(dst, 17, &self.next_bet_pubkey);
        copy_address_into(dst, 49, &self.bettor_pubkey);
        assert(dst@ =~= overwrite(start, 0, self.spec_encode()));
    }

    /// Decodes a buffer that must be exactly one record long.
    pub fn unpack_unchecked(input: &[u8]) -> (r: Result<BetAccount, ProcessError>)
        ensures
            input@.len() != 81 ==> r == Err::<BetAccount, ProcessError>(
                ProcessError::InvalidAccountData,
            ),
            input@.len() == 81 ==> match r {
                Ok(a) => bet_account_check(input@) is Ok && a.spec_encode() == input@,
                Err(e) => bet_account_check(input@) == Err::<(), ProcessError>(e),
            },
    {
        if input.len() != Self::LEN {
            return Err(ProcessError::InvalidAccountData);
        }
        let r = Self::unpack_from_slice(input);
        assert(input@.subrange(0, 81) =~= input@);
        r
    }

    /// Encodes `src` into a buffer that must be exactly one record long.
    pub fn pack(src: BetAccount, dst: &mut [u8]) -> (r: Result<(), ProcessError>)
        ensures
            old(dst)@.len() != 81 ==> r == Err::<(), ProcessError>(ProcessError::InvalidAccountData)
                && final(dst)@ == old(dst)@,
            old(dst)@.len() == 81 ==> r is Ok && final(dst)@ == src.spec_encode(),
    {
        if dst.len() != Self::LEN {
            return Err(ProcessError::InvalidAccountData);
        }
        src.pack_into_slice(dst);
        proof {
            lemma_auto_spec_u64_to_from_le_bytes();
        }
        assert(dst@ =~= src.spec_encode());
        Ok(())
    }
}

/// Round trip of the control record: its encoding is 38 bytes that pass every
/// decoding check, and no other record has the same encoding, so decoding it
/// gives back the record itself.
pub proof fn lemma_program_account_round_trip(a: ProgramAccount, b: ProgramAccount)
    ensures
        a.spec_encode().len() == ProgramAccount::LEN,
        program_account_check(a.spec_encode()) is Ok,
        b.spec_encode() == a.spec_encode() ==> b == a,
{
    lemma_auto_spec_u32_to_from_le_bytes();
    let ea = a.spec_encode();
    let eb = b.spec_encode();
    if eb == ea {
        assert(bet_type_from_byte(eb[0]) == Some(b.bet_type));
        assert(bet_type_from_byte(ea[0]) == Some(a.bet_type));
        assert(eb[1] == bool_byte(b.is_open));
        assert(b.head_pubkey@ =~= eb.subrange(2, 34));
        assert(a.head_pubkey@ =~= ea.subrange(2, 34));
        lemma_address_view_injective(a.head_pubkey, b.head_pubkey);
        assert(spec_u32_to_le_bytes(b.number_of_bettors) =~= eb.subrange(34, 38));
        assert(spec_u32_to_le_bytes(a.number_of_bettors) =~= ea.subrange(34, 38));
    }
}

/// Round trip of the wager record: its encoding is 81 bytes that pass every
/// decoding check, and no other record has the same encoding, so decoding it
/// gives back the record itself.
pub proof fn lemma_bet_account_round_trip(a: BetAccount, b: BetAccount)
    ensures
        a.spec_encode().len() == BetAccount::LEN,
        bet_account_check(a.spec_encode()) is Ok,
        b.spec_encode() == a.spec_encode() ==> b == a,
{
    lemma_auto_spec_u64_to_from_le_bytes();
    let ea = a.spec_encode();
    let eb = b.spec_encode();
    if eb == ea {
        assert(bet_type_from_byte(eb[0]) == Some(b.bet_type));
        assert(bet_type_from_byte(ea[0]) == Some(a.bet_type));
        assert(spec_u64_to_le_bytes(b.guess) =~= eb.subrange(1, 9));
        assert(spec_u64_to_le_bytes(a.guess) =~= ea.subrange(1, 9));
        assert(spec_u64_to_le_bytes(b.time_slot) =~= eb.subrange(9, 17));
        assert(spec_u64_to_le_bytes(a.time_slot) =~= ea.subrange(9, 17));
        assert(b.next_bet_pubkey@ =~= eb.subrange(17, 49));
        assert(a.next_bet_pubkey@ =~= ea.subrange(17, 49));
        lemma_address_view_injective(a.next_bet_pubkey, b.next_bet_pubkey);
        assert(b.bettor_pubkey@ =~= eb.subrange(49, 81));
        assert(a.bettor_pubkey@ =~= ea.subrange(49, 81));
        lemma_address_view_injective(a.bettor_pubkey, b.bettor_pubkey);
    }
}

} // verus!
