//! Where the records live: each at an address derived from a seed tag, for users
//! and books also the record's number in decimal, and the program's identity. The
//! derivation itself is the ledger's; this module fixes the seeds.

use vstd::prelude::*;
use solana_program::pubkey::Pubkey;
use solana_program::rent::Rent;
use crate::error::ProcessError;

verus! {

/// The largest account the ledger creates, in bytes.
pub const MAX_SPACE: usize = 10_485_760;

/// Bytes that the ledger counts for an account besides its data.
pub const STORAGE_OVERHEAD: u64 = 128;

/// Balance that keeps one byte free of rent.
pub const LAMPORTS_PER_BYTE: u64 = 6_960;

/// The kind of record an address is derived for.
#[derive(Debug, Clone, Copy, PartialEq, Eq, Structural)]
pub enum SeedTag {
    /// A user's record: `"UA"`, followed by the user's number.
    UserAccount,
    /// The counter of books when alone, a book's record when followed by the
    /// book's number: `"BC"`.
    BookCounter,
    /// The counter of users: `"UC"`.
    UserCounter,
    /// The configuration: `"authority"`.
    Authority,
}

impl SeedTag {
    /// The tag as the bytes of its ASCII text.
    pub open spec fn bytes(self) -> Seq<u8> {
        match self {
            SeedTag::UserAccount => seq![85u8, 65u8],
            SeedTag::BookCounter => seq![66u8, 67u8],
            SeedTag::UserCounter => seq![85u8, 67u8],
            SeedTag::Authority => seq![97u8, 117u8, 116u8, 104u8, 111u8, 114u8, 105u8, 116u8, 121u8],
        }
    }

    /// Writes the tag.
    pub fn to_bytes(self) -> (out: Vec<u8>)
        ensures
            out@ == self.bytes(),
    {
        let out = match self {
            SeedTag::UserAccount => vec![85u8, 65u8],
            SeedTag::BookCounter => vec![66u8, 67u8],
            SeedTag::UserCounter => vec![85u8, 67u8],
            SeedTag::Authority => vec![97u8, 117u8, 116u8, 104u8, 111u8, 114u8, 105u8, 116u8, 121u8],
        };
        assert(out@ =~= self.bytes());
        out
    }
}

/// The decimal digits of `n` in ASCII, most significant first, without leading
/// zeros.
pub open spec fn decimal(n: nat) -> Seq<u8>
    decreases n,
{
    if n < 10 {
        seq![(48 + n) as u8]
    } else {
        decimal(n / 10).push((48 + n % 10) as u8)
    }
}

/// Writes `n` in decimal.
pub fn decimal_digits(n: u64) -> (out: Vec<u8>)
    ensures
        out@ == decimal(n as nat),
{
    let mut low: Vec<u8> = Vec::new();
    let mut rest = n;
    while rest >= 10
        invariant
            decimal(n as nat) == decimal(rest as nat) + low@.reverse(),
        decreases rest,
    {
        let digit = 48u8 + (rest % 10) as u8;
        proof {
            let after = low@.push(digit);
            assert(after.reverse() =~= seq![digit] + low@.reverse());
            assert(decimal(rest as nat) =~= decimal((rest / 10) as nat) + seq![digit]);
            assert(decimal((rest / 10) as nat) + after.reverse() =~= decimal(rest as nat)
                + low@.reverse());
        }
        low.push(digit);
        rest = rest / 10;
    }
    let mut out: Vec<u8> = Vec::new();
    out.push(48u8 + rest as u8);
    let mut left = low.len();
    while left > 0
        invariant
            left <= low.len(),
            out@ == decimal(rest as nat) + low@.reverse().subrange(0, low.len() - left),
            rest < 10,
        decreases left,
    {
        left = left - 1;
        out.push(low[left]);
        assert(out@ =~= decimal(rest as nat) + low@.reverse().subrange(0, low.len() - left));
    }
    assert(low@.reverse().subrange(0, low.len() as int) =~= low@.reverse());
    out
}

/// The seeds of an address: the tag, and behind it the number in decimal where
/// there is one.
pub open spec fn seeds(tag: SeedTag, id: Option<u64>) -> Seq<Seq<u8>> {
    match id {
        Some(n) => seq![tag.bytes(), decimal(n as nat)],
        None => seq![tag.bytes()],
    }
}

/// What a list of seeds holds, seed by seed.
pub open spec fn seed_bytes(list: Seq<Vec<u8>>) -> Seq<Seq<u8>> {
    Seq::new(list.len(), |i: int| list[i]@)
}

/// Builds the seeds of an address.
pub fn seeds_of(tag: SeedTag, id: Option<u64>) -> (out: Vec<Vec<u8>>)
    ensures
        seed_bytes(out@) == seeds(tag, id),
{
    let mut out: Vec<Vec<u8>> = Vec::new();
    out.push(tag.to_bytes());
    match id {
        Some(n) => {
            out.push(decimal_digits(n));
        },
        None => {},
    }
    assert(seed_bytes(out@) =~= seeds(tag, id));
    out
}

/// The address that the ledger derives from `seeds` for `program_id`, with the
/// bump seed that it had to append, or `None` where it finds none. This is what
/// `Pubkey::try_find_program_address` returns.
pub uninterp spec fn program_address(seeds: Seq<Seq<u8>>, program_id: [u8; 32]) -> Option<
    ([u8; 32], u8),
>;

/// The address of the record of kind `tag` with number `id`.
pub open spec fn derived_address(tag: SeedTag, id: Option<u64>, program_id: [u8; 32]) -> Option<
    ([u8; 32], u8),
> {
    program_address(seeds(tag, id), program_id)
}

/// Calls `Pubkey::try_find_program_address`.
///
/// Trusted: the address and bump found depend on the seeds and the program's
/// identity alone. Nothing is claimed about which address it is.
#[verifier::external_body]
fn find_program_address(list: &Vec<Vec<u8>>, program_id: &[u8; 32]) -> (r: Option<([u8; 32], u8)>)
    ensures
        r == program_address(seed_bytes(list@), *program_id),
{
    let parts: Vec<&[u8]> = list.iter().map(|seed| seed.as_slice()).collect();
    match Pubkey::try_find_program_address(&parts, &Pubkey::new_from_array(*program_id)) {
        Some((address, bump)) => Some((address.to_bytes(), bump)),
        None => None,
    }
}

/// The balance that frees an account with `space` bytes of data from rent.
pub open spec fn rent_exempt_minimum(space: nat) -> int {
    (STORAGE_OVERHEAD + space) * LAMPORTS_PER_BYTE
}

/// Calls `Rent::minimum_balance` on `Rent::default()`.
///
/// Trusted: with the default rent of 3480 lamports for a byte and a year and an
/// exemption threshold of two years, the minimum is the data length plus 128
/// bytes of overhead, times 6960. Up to `MAX_SPACE` the product stays far below
/// 2^53, so the multiplication in floating point that the ledger makes is exact.
#[verifier::external_body]
fn minimum_balance(space: usize) -> (r: u64)
    requires
        space <= MAX_SPACE,
    ensures
        r == rent_exempt_minimum(space as nat),
{
    Rent::default().minimum_balance(space)
}

/// The address of the record of kind `tag` with number `id`, and its bump seed.
pub fn derive_address(tag: SeedTag, id: Option<u64>, program_id: &[u8; 32]) -> (r: Option<
    ([u8; 32], u8),
>)
    ensures
        r == derived_address(tag, id, *program_id),
{
    let list = seeds_of(tag, id);
    find_program_address(&list, program_id)
}

/// An account that the host has to create before the records of an operation
/// can be stored.
#[derive(Debug, Clone, Copy, PartialEq, Eq)]
pub struct NewAccount {
    /// Position, in the account list, of the account to create.
    pub slot: usize,
    /// Position of the account that pays for it.
    pub payer: usize,
    pub tag: SeedTag,
    pub id: Option<u64>,
    /// The derived address. The account at `slot` must have it.
    pub address: [u8; 32],
    pub bump: u8,
    /// Bytes of data to allocate.
    pub space: usize,
    /// Balance to fund the account with.
    pub lamports: u64,
}

impl NewAccount {
    /// The request for an account of `space` bytes for the record of kind `tag`
    /// with number `id`, given what the derivation of its address returned.
    pub open spec fn planned(
        slot: usize,
        payer: usize,
        tag: SeedTag,
        id: Option<u64>,
        space: usize,
        derived: Option<([u8; 32], u8)>,
    ) -> Result<NewAccount, ProcessError> {
        match derived {
            Some((address, bump)) => Ok(
                NewAccount {
                    slot,
                    payer,
                    tag,
                    id,
                    address,
                    bump,
                    space,
                    lamports: rent_exempt_minimum(space as nat) as u64,
                },
            ),
            None => Err(ProcessError::InvalidSeeds),
        }
    }

    /// The seeds with which the program signs for the account: those of the
    /// address, then the bump.
    pub open spec fn signing(self) -> Seq<Seq<u8>> {
        seeds(self.tag, self.id).push(seq![self.bump])
    }

    /// Builds the request from the outcome of the derivation. Without an address
    /// the error is `InvalidSeeds`.
    pub fn from_derived(
        slot: usize,
        payer: usize,
        tag: SeedTag,
        id: Option<u64>,
        space: usize,
        derived: Option<([u8; 32], u8)>,
    ) -> (res: Result<NewAccount, ProcessError>)
        requires
            space <= MAX_SPACE,
        ensures
            res == NewAccount::planned(slot, payer, tag, id, space, derived),
    {
        match derived {
            Some((address, bump)) => {
                let lamports = minimum_balance(space);
                Ok(NewAccount { slot, payer, tag, id, address, bump, space, lamports })
            },
            None => Err(ProcessError::InvalidSeeds),
        }
    }

    /// Derives the address and builds the request.
    pub fn derive(
        slot: usize,
        payer: usize,
        tag: SeedTag,
        id: Option<u64>,
        space: usize,
        program_id: &[u8; 32],
    ) -> (res: Result<NewAccount, ProcessError>)
        requires
            space <= MAX_SPACE,
        ensures
            res == NewAccount::planned(
                slot,
                payer,
                tag,
                id,
                space,
                derived_address(tag, id, *program_id),
            ),
    {
        let derived = derive_address(tag, id, program_id);
        NewAccount::from_derived(slot, payer, tag, id, space, derived)
    }

    /// Builds the seeds to sign with.
    pub fn signer_seeds(&self) -> (out: Vec<Vec<u8>>)
        ensures
            seed_bytes(out@) == self.signing(),
    {
        let mut out = seeds_of(self.tag, self.id);
        let ghost before = out@;
        let mut last: Vec<u8> = Vec::new();
        last.push(self.bump);
        assert(last@ =~= seq![self.bump]);
        out.push(last);
        assert(seed_bytes(out@) =~= seed_bytes(before).push(seq![self.bump]));
        out
    }
}

} // verus!
