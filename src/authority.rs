use crate::state::{Address, BetType};
use solana_program::pubkey::Pubkey;
use vstd::prelude::*;

verus! {

/// The address the ledger derives for `program` from the seeds `seed` and
/// `[bump]`, or `None` where it rejects that combination.
pub uninterp spec fn derived_address(program: Seq<u8>, seed: Seq<u8>, bump: u8) -> Option<Seq<u8>>;

/// Relies on solana_program's `Pubkey::create_program_address`: a
/// deterministic function of the seeds and the program id, failing for seeds
/// longer than 32 bytes and for hashes that lie on the curve.
#[verifier::external_body]
fn create_program_address(seed: &[u8], bump: u8, program_id: &Address) -> (r: Option<Address>)
    ensures
        match r {
            Some(a) => derived_address(program_id@, seed@, bump) == Some(a@),
            None => derived_address(program_id@, seed@, bump) is None,
        },
        seed@.len() > 32 ==> r is None,
{
    let bump_seed = [bump];
    let program = Pubkey::new_from_array(program_id.bytes);
    match Pubkey::create_program_address(&[seed, &bump_seed], &program) {
        Ok(key) => Some(Address { bytes: key.to_bytes() }),
        Err(_) => None,
    }
}

/// The seed that a bet type's authority address is derived from.
pub open spec fn bet_type_seed(t: BetType) -> Seq<u8> {
    match t {
        // "solusd"
        BetType::SolUsd => seq![0x73u8, 0x6f, 0x6c, 0x75, 0x73, 0x64],
    }
}

/// No two bet types share a seed.
pub proof fn lemma_seeds_distinct(a: BetType, b: BetType)
    requires
        a != b,
    ensures
        bet_type_seed(a) != bet_type_seed(b),
{
}

impl BetType {
    /// The seed of this bet type's authority address.
    pub fn seed(&self) -> (r: Vec<u8>)
        ensures
            r@ == bet_type_seed(*self),
    {
        match self {
            BetType::SolUsd => {
                let r = vec![0x73u8, 0x6f, 0x6c, 0x75, 0x73, 0x64];
                assert(r@ =~= bet_type_seed(*self));
                r
            },
        }
    }
}

/// The capability to sign for a program-derived authority: its seed, bump and
/// address. Only `derive_authority` makes one, and only for a combination the
/// ledger accepts.
#[derive(Debug)]
pub struct AuthoritySigner {
    seed: Vec<u8>,
    bump: u8,
    address: Address,
}

impl View for AuthoritySigner {
    type V = (Seq<u8>, u8, Seq<u8>);

    /// The seed, the bump and the derived address.
    closed spec fn view(&self) -> (Seq<u8>, u8, Seq<u8>) {
        (self.seed@, self.bump, self.address@)
    }
}

impl AuthoritySigner {
    /// The seed signed with.
    pub fn seed(&self) -> (r: &[u8])
        ensures
            r@ == self@.0,
    {
        self.seed.as_slice()
    }

    /// The bump signed with.
    pub fn bump(&self) -> (r: u8)
        ensures
            r == self@.1,
    {
        self.bump
    }

    /// The derived address signed for.
    pub fn address(&self) -> (r: Address)
        ensures
            r@ == self@.2,
    {
        self.address
    }
}

/// Derives the authority address of `bet_type` under `program_id` for the
/// given bump, with the capability to sign for it; `None` where the ledger
/// rejects the seed and bump.
pub fn derive_authority(program_id: &Address, bet_type: BetType, bump: u8) -> (r: Option<
    AuthoritySigner,
>)
    ensures
        match r {
            Some(s) => s@.0 == bet_type_seed(bet_type) && s@.1 == bump && derived_address(
                program_id@,
                bet_type_seed(bet_type),
                bump,
            ) == Some(s@.2),
            None => derived_address(program_id@, bet_type_seed(bet_type), bump) is None,
        },
{
    let seed = bet_type.seed();
    match create_program_address(seed.as_slice(), bump, program_id) {
        Some(address) => Some(AuthoritySigner { seed, bump, address }),
        None => None,
    }
}

} // verus!
