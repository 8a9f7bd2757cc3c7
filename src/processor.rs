use crate::authority::{bet_type_seed, derive_authority, derived_address, AuthoritySigner};
use crate::error::{GPTError, ProcessError};
use crate::instruction::{instruction_decode, GPTInstruction};
use crate::state::{bet_account_check, bet_type_byte, Address, BetAccount, BetType};
use vstd::bytes::*;
use vstd::prelude::*;

verus! {

/// The least balance a wager account must hold: a tenth of one native unit
/// of 10^9 lamports.
pub const MIN_BET_LAMPORTS: u64 = 100_000_000;

/// What the processor reads of one account the ledger hands it.
#[derive(Debug, Clone, Copy)]
pub struct AccountView {
    pub key: Address,
    pub owner: Address,
    pub lamports: u64,
    pub data_len: usize,
    pub is_signer: bool,
    /// The least balance that keeps this account on the ledger at its
    /// current size.
    pub rent_exempt_minimum: u64,
}

/// The checks of a new bet, in order; the first that fails decides the error.
pub open spec fn new_bet_check(
    accounts: Seq<AccountView>,
    bet_type: BetType,
    bump_seed: u8,
    program_id: Seq<u8>,
) -> Result<(), ProcessError> {
    if accounts.len() < 1 {
        Err(ProcessError::NotEnoughAccountKeys)
    } else if !accounts[0].is_signer {
        Err(ProcessError::MissingRequiredSignature)
    } else if accounts.len() < 2 {
        Err(ProcessError::NotEnoughAccountKeys)
    } else if accounts[1].owner@ != program_id {
        Err(ProcessError::Program(GPTError::InvalidPDAAccount))
    } else if derived_address(program_id, bet_type_seed(bet_type), bump_seed) != Some(
        accounts[1].key@,
    ) {
        Err(ProcessError::Program(GPTError::InvalidPDAAccount))
    } else if accounts[1].lamports < accounts[1].rent_exempt_minimum {
        Err(ProcessError::Program(GPTError::NotRentExempt))
    } else if accounts.len() < 3 {
        Err(ProcessError::NotEnoughAccountKeys)
    } else if accounts[2].lamports < MIN_BET_LAMPORTS {
        Err(ProcessError::Program(GPTError::BetLamportNotEnough))
    } else if accounts[2].data_len > 0 {
        Err(ProcessError::Program(GPTError::BetAccountContainsData))
    } else if accounts.len() < 4 {
        Err(ProcessError::NotEnoughAccountKeys)
    } else {
        Ok(())
    }
}

/// The work a validated new bet asks of the ledger, in order: make `signer`'s
/// address the owner of `wager`, allocate `space` bytes on `wager` signed by
/// `signer`, then write the record with `write_record`.
#[derive(Debug)]
pub struct NewBetPlan {
    pub bettor: Address,
    pub wager: Address,
    pub signer: AuthoritySigner,
    pub space: u64,
    pub bet_type: BetType,
    pub guess: u64,
    pub time_slot: u64,
}

/// The wager record bytes after `plan` is written over `data`: every field
/// but the link to the next record comes from the plan.
pub open spec fn written_record(plan: NewBetPlan, data: Seq<u8>) -> Seq<u8> {
    seq![bet_type_byte(plan.bet_type)] + spec_u64_to_le_bytes(plan.guess) + spec_u64_to_le_bytes(
        plan.time_slot,
    ) + data.subrange(17, 49) + plan.bettor@
}

impl NewBetPlan {
    /// Initialises the freshly allocated wager record in `data`: decodes it,
    /// sets bet type, guess, time slot and bettor, keeps the link to the next
    /// record, and encodes it back.
    pub fn write_record(&self, data: &mut [u8]) -> (r: Result<(), ProcessError>)
        ensures
            old(data)@.len() != BetAccount::LEN ==> r == Err::<(), ProcessError>(
                ProcessError::InvalidAccountData,
            ) && final(data)@ == old(data)@,
            old(data)@.len() == BetAccount::LEN ==> match bet_account_check(old(data)@) {
                Err(e) => r == Err::<(), ProcessError>(e) && final(data)@ == old(data)@,
                Ok(_) => r is Ok && final(data)@ == written_record(*self, old(data)@),
            },
    {
        let mut record = match BetAccount::unpack_unchecked(data) {
            Ok(a) => a,
            Err(e) => {
                return Err(e);
            },
        };
        let ghost before = data@;
        record.bet_type = self.bet_type;
        record.guess = self.guess;
        record.time_slot = self.time_slot;
        record.bettor_pubkey = self.bettor;
        let r = BetAccount::pack(record, data);
        proof {
            lemma_auto_spec_u64_to_from_le_bytes();
            assert(record.next_bet_pubkey@ =~= before.subrange(17, 49));
            assert(data@ =~= written_record(*self, before));
        }
        r
    }
}

/// The processor of the program's instructions.
pub struct Processor;

impl Processor {
    /// Decodes `instruction_data` and validates a new bet against `accounts`;
    /// on success, the ledger work that opens it.
    pub fn process(
        program_id: &Address,
        accounts: &[AccountView],
        instruction_data: &[u8],
        time_slot: u64,
    ) -> (r: Result<NewBetPlan, ProcessError>)
        ensures
            match instruction_decode(instruction_data@) {
                Err(e) => r == Err::<NewBetPlan, ProcessError>(ProcessError::Program(e)),
                Ok(GPTInstruction::NewBet { bet_type, bump_seed, guess }) => new_bet_outcome(
                    r,
                    accounts@,
                    bet_type,
                    bump_seed,
                    guess,
                    program_id@,
                    time_slot,
                ),
            },
    {
        match GPTInstruction::unpack(instruction_data) {
            Err(e) => Err(ProcessError::Program(e)),
            Ok(GPTInstruction::NewBet { bet_type, bump_seed, guess }) => Self::process_new_bet(
                accounts,
                bet_type,
                bump_seed,
                guess,
                program_id,
                time_slot,
            ),
        }
    }

    /// Validates the accounts of a new bet in the order `new_bet_check`
    /// gives; on success, the plan that opens the wager.
    pub fn process_new_bet(
        accounts: &[AccountView],
        bet_type: BetType,
        bump_seed: u8,
        guess: u64,
        program_id: &Address,
        time_slot: u64,
    ) -> (r: Result<NewBetPlan, ProcessError>)
        ensures
            new_bet_outcome(r, accounts@, bet_type, bump_seed, guess, program_id@, time_slot),
    {
        if accounts.len() < 1 {
            return Err(ProcessError::NotEnoughAccountKeys);
        }
        let bettor = &accounts[0];
        if !bettor.is_signer {
            return Err(ProcessError::MissingRequiredSignature);
        }
        if accounts.len() < 2 {
            return Err(ProcessError::NotEnoughAccountKeys);
        }
        let authority = &accounts[1];
        if authority.owner != *program_id {
            return Err(ProcessError::Program(GPTError::InvalidPDAAccount));
        }
        let signer = match derive_authority(program_id, bet_type, bump_seed) {
            Some(s) => s,
            None => {
                return Err(ProcessError::Program(GPTError::InvalidPDAAccount));
            },
        };
        if authority.key != signer.address() {
            return Err(ProcessError::Program(GPTError::InvalidPDAAccount));
        }
        if authority.lamports < authority.rent_exempt_minimum {
            return Err(ProcessError::Program(GPTError::NotRentExempt));
        }
        if accounts.len() < 3 {
            return Err(ProcessError::NotEnoughAccountKeys);
        }
        let wager = &accounts[2];
        if wager.lamports < MIN_BET_LAMPORTS {
            return Err(ProcessError::Program(GPTError::BetLamportNotEnough));
        }
        if wager.data_len > 0 {
            return Err(ProcessError::Program(GPTError::BetAccountContainsData));
        }
        if accounts.len() < 4 {
            return Err(ProcessError::NotEnoughAccountKeys);
        }
        Ok(
            NewBetPlan {
                bettor: bettor.key,
                wager: wager.key,
                signer,
                space: BetAccount::LEN as u64,
                bet_type,
                guess,
                time_slot,
            },
        )
    }
}

/// What processing a new bet returns: the first failed check, or a plan that
/// assigns the wager account to the derived authority, allocates one wager
/// record on it and records the bet.
pub open spec fn new_bet_outcome(
    r: Result<NewBetPlan, ProcessError>,
    accounts: Seq<AccountView>,
    bet_type: BetType,
    bump_seed: u8,
    guess: u64,
    program_id: Seq<u8>,
    time_slot: u64,
) -> bool {
    match r {
        Err(e) => new_bet_check(accounts, bet_type, bump_seed, program_id) == Err::<
            (),
            ProcessError,
        >(e),
        Ok(plan) => {
            &&& new_bet_check(accounts, bet_type, bump_seed, program_id) is Ok
            &&& plan.bettor == accounts[0].key
            &&& plan.wager == accounts[2].key
            &&& plan.signer@ == (bet_type_seed(bet_type), bump_seed, accounts[1].key@)
            &&& plan.space == BetAccount::LEN
            &&& plan.bet_type == bet_type
            &&& plan.guess == guess
            &&& plan.time_slot == time_slot
        },
    }
}

/// Whether the accounts pass every check up to and including the authority's rent
/// exemption.
pub open spec fn authority_checks_pass(
    accounts: Seq<AccountView>,
    bet_type: BetType,
    bump_seed: u8,
    program_id: Seq<u8>,
) -> bool {
    &&& accounts.len() >= 2
    &&& accounts[0].is_signer
    &&& accounts[1].owner@ == program_id
    &&& derived_address(program_id, bet_type_seed(bet_type), bump_seed) == Some(accounts[1].key@)
    &&& accounts[1].lamports >= accounts[1].rent_exempt_minimum
}

/// A wager account holding less than the minimum stake makes the new bet fail
/// with `BetLamportNotEnough` once the authority checks pass: the processor
/// returns that error and no plan, so no account is reassigned or allocated.
pub proof fn lemma_stake_below_minimum_rejected(
    r: Result<NewBetPlan, ProcessError>,
    accounts: Seq<AccountView>,
    bet_type: BetType,
    bump_seed: u8,
    guess: u64,
    program_id: Seq<u8>,
    time_slot: u64,
)
    requires
        authority_checks_pass(accounts, bet_type, bump_seed, program_id),
        accounts.len() >= 3,
        accounts[2].lamports < MIN_BET_LAMPORTS,
    ensures
        new_bet_outcome(r, accounts, bet_type, bump_seed, guess, program_id, time_slot) ==> r
            == Err::<NewBetPlan, ProcessError>(
            ProcessError::Program(GPTError::BetLamportNotEnough),
        ),
{
}

/// A wager account that already holds data makes a new bet with enough stake
/// fail with `BetAccountContainsData`: the processor returns that error and no
/// plan, so no reassignment of ownership is ever requested.
pub proof fn lemma_wager_with_data_rejected(
    r: Result<NewBetPlan, ProcessError>,
    accounts: Seq<AccountView>,
    bet_type: BetType,
    bump_seed: u8,
    guess: u64,
    program_id: Seq<u8>,
    time_slot: u64,
)
    requires
        authority_checks_pass(accounts, bet_type, bump_seed, program_id),
        accounts.len() >= 3,
        accounts[2].lamports >= MIN_BET_LAMPORTS,
        accounts[2].data_len > 0,
    ensures
        new_bet_outcome(r, accounts, bet_type, bump_seed, guess, program_id, time_slot) ==> r
            == Err::<NewBetPlan, ProcessError>(
            ProcessError::Program(GPTError::BetAccountContainsData),
        ),
{
}

/// An authority account whose address is not the one derived for the bet
/// type and bump makes a signed new bet fail with `InvalidPDAAccount`, whoever
/// owns it.
pub proof fn lemma_wrong_authority_rejected(
    r: Result<NewBetPlan, ProcessError>,
    accounts: Seq<AccountView>,
    bet_type: BetType,
    bump_seed: u8,
    guess: u64,
    program_id: Seq<u8>,
    time_slot: u64,
)
    requires
        accounts.len() >= 2,
        accounts[0].is_signer,
        derived_address(program_id, bet_type_seed(bet_type), bump_seed) != Some(accounts[1].key@),
    ensures
        new_bet_outcome(r, accounts, bet_type, bump_seed, guess, program_id, time_slot) ==> r
            == Err::<NewBetPlan, ProcessError>(
            ProcessError::Program(GPTError::InvalidPDAAccount),
        ),
{
}

/// A signed bet with a correctly derived, rent-exempt authority and a funded,
/// empty wager account succeeds, and writing its plan over the freshly
/// allocated all-zero record leaves exactly the encoding of the wager record
/// with the bet's type, guess and time slot, a zero link and the bettor's
/// address.
pub proof fn lemma_new_bet_writes_record(
    r: Result<NewBetPlan, ProcessError>,
    accounts: Seq<AccountView>,
    bet_type: BetType,
    bump_seed: u8,
    guess: u64,
    program_id: Seq<u8>,
    time_slot: u64,
    record: BetAccount,
)
    requires
        authority_checks_pass(accounts, bet_type, bump_seed, program_id),
        accounts.len() >= 4,
        accounts[2].lamports >= MIN_BET_LAMPORTS,
        accounts[2].data_len == 0,
    ensures
        new_bet_outcome(r, accounts, bet_type, bump_seed, guess, program_id, time_slot) ==> r is Ok,
        bet_account_check(Seq::new(81, |i: int| 0u8)) is Ok,
        new_bet_outcome(r, accounts, bet_type, bump_seed, guess, program_id, time_slot) && r is Ok
            && record.bet_type == bet_type && record.guess == guess && record.time_slot
            == time_slot && record.next_bet_pubkey@ == Seq::new(32, |i: int| 0u8)
            && record.bettor_pubkey == accounts[0].key ==> written_record(
            r->Ok_0,
            Seq::new(81, |i: int| 0u8),
        ) == record.spec_encode(),
{
    lemma_auto_spec_u64_to_from_le_bytes();
    let zeros = Seq::new(81, |i: int| 0u8);
    assert(zeros.subrange(17, 49) =~= Seq::new(32, |i: int| 0u8));
    if new_bet_outcome(r, accounts, bet_type, bump_seed, guess, program_id, time_slot) && r is Ok
        && record.bet_type == bet_type && record.guess == guess && record.time_slot == time_slot
        && record.next_bet_pubkey@ == Seq::new(32, |i: int| 0u8) && record.bettor_pubkey
        == accounts[0].key {
        assert(written_record(r->Ok_0, zeros) =~= record.spec_encode());
    }
}

} // verus!
