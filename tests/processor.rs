use gpt_bet::authority::derive_authority;
use gpt_bet::error::{GPTError, ProcessError};
use gpt_bet::processor::{AccountView, Processor, MIN_BET_LAMPORTS};
use gpt_bet::state::{Address, BetAccount, BetType};
use solana_program::pubkey::Pubkey;

struct Setup {
    program_id: Address,
    bump: u8,
    accounts: Vec<AccountView>,
}

fn address_of(key: &Pubkey) -> Address {
    Address { bytes: key.to_bytes() }
}

fn view(key: Address, owner: Address, lamports: u64, data_len: usize, is_signer: bool) -> AccountView {
    AccountView { key, owner, lamports, data_len, is_signer, rent_exempt_minimum: 890_880 }
}

/// A signer, a correctly derived rent-exempt authority, a funded empty wager
/// account and the system program.
fn valid_setup() -> Setup {
    let program = Pubkey::new_unique();
    let (pda, bump) = Pubkey::find_program_address(&[b"solusd"], &program);
    let system = Address::zero();
    let program_id = address_of(&program);
    let bettor = address_of(&Pubkey::new_unique());
    let wager = address_of(&Pubkey::new_unique());
    let accounts = vec![
        view(bettor, system, 5_000_000_000, 0, true),
        view(address_of(&pda), program_id, 1_000_000, 38, false),
        view(wager, system, MIN_BET_LAMPORTS, 0, false),
        view(system, system, 1, 14, false),
    ];
    Setup { program_id, bump, accounts }
}

fn instruction(bump: u8, guess: u64) -> Vec<u8> {
    let mut v = vec![0u8, 0, bump];
    v.extend_from_slice(&guess.to_le_bytes());
    v
}

fn process_err(s: &Setup, data: &[u8]) -> ProcessError {
    Processor::process(&s.program_id, &s.accounts, data, 42).err().unwrap()
}

#[test]
fn derive_authority_matches_ledger_derivation() {
    let s = valid_setup();
    let signer = derive_authority(&s.program_id, BetType::SolUsd, s.bump).unwrap();
    assert!(signer.address() == s.accounts[1].key);
    assert!(signer.address() != s.program_id);
    assert_eq!(signer.seed(), b"solusd");
    assert_eq!(signer.bump(), s.bump);
}

#[test]
fn end_to_end_new_bet_writes_record() {
    let s = valid_setup();
    let plan = Processor::process(&s.program_id, &s.accounts, &instruction(s.bump, 12345), 9876).unwrap();
    assert!(plan.bettor == s.accounts[0].key);
    assert!(plan.wager == s.accounts[2].key);
    assert!(plan.signer.address() == s.accounts[1].key);
    assert_eq!(plan.space, 81);
    let mut data = vec![0u8; plan.space as usize];
    assert_eq!(plan.write_record(&mut data), Ok(()));
    let record = BetAccount::unpack_unchecked(&data).unwrap();
    assert_eq!(record.bet_type, BetType::SolUsd);
    assert_eq!(record.guess, 12345);
    assert_eq!(record.time_slot, 9876);
    assert!(record.next_bet_pubkey == Address::zero());
    assert!(record.bettor_pubkey == s.accounts[0].key);
}

#[test]
fn write_record_keeps_link_and_checks_length() {
    let s = valid_setup();
    let plan = Processor::process(&s.program_id, &s.accounts, &instruction(s.bump, 1), 2).unwrap();
    let mut data = vec![0u8; 81];
    for b in data[17..49].iter_mut() {
        *b = 0x77;
    }
    plan.write_record(&mut data).unwrap();
    assert!(data[17..49].iter().all(|b| *b == 0x77));
    let mut short = vec![0u8; 80];
    assert_eq!(plan.write_record(&mut short), Err(ProcessError::InvalidAccountData));
    assert_eq!(short, vec![0u8; 80]);
    let mut bad = vec![0u8; 81];
    bad[0] = 3;
    assert_eq!(plan.write_record(&mut bad), Err(ProcessError::Program(GPTError::InvalidBetType)));
}

#[test]
fn stake_below_minimum_is_rejected() {
    let mut s = valid_setup();
    s.accounts[2].lamports = MIN_BET_LAMPORTS - 1;
    let err = process_err(&s, &instruction(s.bump, 5));
    assert_eq!(err, ProcessError::Program(GPTError::BetLamportNotEnough));
}

#[test]
fn wager_with_data_is_rejected() {
    let mut s = valid_setup();
    s.accounts[2].data_len = 1;
    let err = process_err(&s, &instruction(s.bump, 5));
    assert_eq!(err, ProcessError::Program(GPTError::BetAccountContainsData));
}

#[test]
fn wrong_authority_is_rejected_even_when_program_owned() {
    let mut s = valid_setup();
    s.accounts[1].key = address_of(&Pubkey::new_unique());
    assert_eq!(process_err(&s, &instruction(s.bump, 5)), ProcessError::Program(GPTError::InvalidPDAAccount));
    let s = valid_setup();
    let other_bump = s.bump.wrapping_sub(1);
    assert_eq!(
        process_err(&s, &instruction(other_bump, 5)),
        ProcessError::Program(GPTError::InvalidPDAAccount)
    );
}

#[test]
fn authority_not_owned_by_program_is_rejected() {
    let mut s = valid_setup();
    s.accounts[1].owner = Address::zero();
    assert_eq!(process_err(&s, &instruction(s.bump, 5)), ProcessError::Program(GPTError::InvalidPDAAccount));
}

#[test]
fn authority_below_rent_minimum_is_rejected() {
    let mut s = valid_setup();
    s.accounts[1].lamports = s.accounts[1].rent_exempt_minimum - 1;
    assert_eq!(process_err(&s, &instruction(s.bump, 5)), ProcessError::Program(GPTError::NotRentExempt));
}

#[test]
fn unsigned_bettor_is_rejected() {
    let mut s = valid_setup();
    s.accounts[0].is_signer = false;
    assert_eq!(process_err(&s, &instruction(s.bump, 5)), ProcessError::MissingRequiredSignature);
}

#[test]
fn missing_accounts_are_rejected() {
    let s = valid_setup();
    for n in [0usize, 1, 2, 3] {
        let accounts = &s.accounts[..n];
        assert_eq!(
            Processor::process(&s.program_id, accounts, &instruction(s.bump, 5), 1).err(),
            Some(ProcessError::NotEnoughAccountKeys),
            "{} accounts",
            n
        );
    }
}

#[test]
fn bad_instruction_is_rejected_before_accounts() {
    let s = valid_setup();
    assert_eq!(process_err(&s, &[]), ProcessError::Program(GPTError::InvalidInstruction));
    assert_eq!(process_err(&s, &[0, 1, 2]), ProcessError::Program(GPTError::InvalidBetType));
}
