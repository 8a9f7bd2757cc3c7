use gpt_bet::error::{GPTError, ProcessError};
use gpt_bet::state::{Address, BetAccount, BetType, ProgramAccount};

fn addr(fill: u8) -> Address {
    Address { bytes: [fill; 32] }
}

fn same_program_account(a: &ProgramAccount, b: &ProgramAccount) -> bool {
    a.bet_type == b.bet_type
        && a.is_open == b.is_open
        && a.head_pubkey == b.head_pubkey
        && a.number_of_bettors == b.number_of_bettors
}

fn same_bet_account(a: &BetAccount, b: &BetAccount) -> bool {
    a.bet_type == b.bet_type
        && a.guess == b.guess
        && a.time_slot == b.time_slot
        && a.next_bet_pubkey == b.next_bet_pubkey
        && a.bettor_pubkey == b.bettor_pubkey
}

#[test]
fn program_account_layout() {
    let a = ProgramAccount {
        bet_type: BetType::SolUsd,
        is_open: true,
        head_pubkey: addr(0xab),
        number_of_bettors: 0x0403_0201,
    };
    let mut dst = [0u8; 38];
    assert_eq!(ProgramAccount::pack(a, &mut dst), Ok(()));
    assert_eq!(dst[0], 0);
    assert_eq!(dst[1], 1);
    assert!(dst[2..34].iter().all(|b| *b == 0xab));
    assert_eq!(&dst[34..38], &[1, 2, 3, 4]);
}

#[test]
fn program_account_round_trip() {
    for (is_open, head, count) in [(false, 0u8, 0u32), (true, 0xff, u32::MAX), (true, 7, 12345)] {
        let a = ProgramAccount {
            bet_type: BetType::SolUsd,
            is_open,
            head_pubkey: addr(head),
            number_of_bettors: count,
        };
        let mut dst = [0u8; 38];
        ProgramAccount::pack(a, &mut dst).unwrap();
        let b = ProgramAccount::unpack_unchecked(&dst).unwrap();
        assert!(same_program_account(&a, &b));
        let mut again = [0u8; 38];
        ProgramAccount::pack(b, &mut again).unwrap();
        assert_eq!(dst, again);
    }
}

#[test]
fn program_account_rejects_bad_bytes() {
    let mut bytes = [0u8; 38];
    bytes[1] = 2;
    assert_eq!(
        ProgramAccount::unpack_unchecked(&bytes).err(),
        Some(ProcessError::InvalidAccountData)
    );
    bytes[1] = 1;
    bytes[0] = 1;
    assert_eq!(
        ProgramAccount::unpack_unchecked(&bytes).err(),
        Some(ProcessError::Program(GPTError::InvalidBetType))
    );
    assert_eq!(
        ProgramAccount::unpack_unchecked(&[0u8; 37]).err(),
        Some(ProcessError::InvalidAccountData)
    );
    let a = ProgramAccount {
        bet_type: BetType::SolUsd,
        is_open: false,
        head_pubkey: addr(1),
        number_of_bettors: 1,
    };
    let mut long = [9u8; 39];
    assert_eq!(ProgramAccount::pack(a, &mut long), Err(ProcessError::InvalidAccountData));
    assert_eq!(long, [9u8; 39]);
}

#[test]
fn program_account_slice_forms_use_prefix() {
    let a = ProgramAccount {
        bet_type: BetType::SolUsd,
        is_open: true,
        head_pubkey: addr(3),
        number_of_bettors: 5,
    };
    let mut dst = [0xeeu8; 40];
    a.pack_into_slice(&mut dst);
    assert_eq!(&dst[38..], &[0xee, 0xee]);
    let b = ProgramAccount::unpack_from_slice(&dst).unwrap();
    assert!(same_program_account(&a, &b));
}

#[test]
fn bet_account_layout() {
    let a = BetAccount {
        bet_type: BetType::SolUsd,
        guess: 12345,
        time_slot: 0x0807_0605_0403_0201,
        next_bet_pubkey: addr(0),
        bettor_pubkey: addr(0x5a),
    };
    let mut dst = [0xffu8; 81];
    assert_eq!(BetAccount::pack(a, &mut dst), Ok(()));
    assert_eq!(dst[0], 0);
    assert_eq!(&dst[1..9], &12345u64.to_le_bytes());
    assert_eq!(&dst[9..17], &[1, 2, 3, 4, 5, 6, 7, 8]);
    assert!(dst[17..49].iter().all(|b| *b == 0));
    assert!(dst[49..81].iter().all(|b| *b == 0x5a));
}

#[test]
fn bet_account_round_trip() {
    for (guess, slot, next, bettor) in
        [(0u64, 0u64, 0u8, 0u8), (u64::MAX, u64::MAX, 0xff, 0xff), (12345, 77, 0, 0x11)]
    {
        let a = BetAccount {
            bet_type: BetType::SolUsd,
            guess,
            time_slot: slot,
            next_bet_pubkey: addr(next),
            bettor_pubkey: addr(bettor),
        };
        let mut dst = [0u8; 81];
        BetAccount::pack(a, &mut dst).unwrap();
        let b = BetAccount::unpack_unchecked(&dst).unwrap();
        assert!(same_bet_account(&a, &b));
        let mut again = [0u8; 81];
        BetAccount::pack(b, &mut again).unwrap();
        assert_eq!(dst, again);
    }
}

#[test]
fn bet_account_rejects_bad_bytes() {
    let mut bytes = [0u8; 81];
    bytes[0] = 4;
    assert_eq!(
        BetAccount::unpack_unchecked(&bytes).err(),
        Some(ProcessError::Program(GPTError::InvalidBetType))
    );
    assert_eq!(BetAccount::unpack_unchecked(&[0u8; 80]).err(), Some(ProcessError::InvalidAccountData));
    assert_eq!(BetAccount::unpack_unchecked(&[0u8; 82]).err(), Some(ProcessError::InvalidAccountData));
}

#[test]
fn address_equality_and_zero() {
    assert!(Address::zero() == addr(0));
    assert!(addr(1) != addr(2));
    let mut bytes = [0u8; 32];
    bytes[31] = 1;
    assert!(Address { bytes } != Address::zero());
    let src: Vec<u8> = (0u8..40).collect();
    let a = Address::read_from(&src, 3);
    assert_eq!(a.bytes[0], 3);
    assert_eq!(a.bytes[31], 34);
}
