//! Custody authority derivation.
//!
//! The marketplace escrows listed assets in accounts controlled by a single
//! key-less identity, derived deterministically from a fixed
//! marketplace-scoped namespace seed and the marketplace's program id. No
//! private key for the identity ever exists; the derivation also yields a
//! verification nonce (the "bump") and fails, reported as
//! [`NftMarketplaceError::DerivationFailed`], in the statistically
//! improbable event that no valid nonce exists in the bounded search space.

use vstd::prelude::*;

use crate::errors::NftMarketplaceError;

verus! {

/// The fixed marketplace-scoped namespace seed: the bytes of
/// `"nft_marketplace"`.
pub open spec fn custody_seed_spec() -> Seq<u8> {
    seq![
        110u8, 102u8, 116u8, 95u8, 109u8, 97u8, 114u8, 107u8, 101u8, 116u8, 112u8, 108u8, 97u8,
        99u8, 101u8,
    ]
}

/// The fixed namespace seed as a byte vector.
pub fn custody_seed() -> (r: Vec<u8>)
    ensures
        r@ == custody_seed_spec(),
{
    let mut v: Vec<u8> = Vec::new();
    v.push(110);
    v.push(102);
    v.push(116);
    v.push(95);
    v.push(109);
    v.push(97);
    v.push(114);
    v.push(107);
    v.push(101);
    v.push(116);
    v.push(112);
    v.push(108);
    v.push(97);
    v.push(99);
    v.push(101);
    proof {
        assert(v@ =~= custody_seed_spec());
    }
    v
}

/// The address and bump that the bounded bump-seed search derives from a
/// seed and a program id, or `None` when no bump in the search space gives
/// a valid (off-curve) address. The derivation is a pure function of its
/// two arguments.
pub uninterp spec fn derived_custody_address(seed: Seq<u8>, program_id: Seq<u8>) -> Option<
    (Seq<u8>, u8),
>;

/// Relies on `solana_pubkey::Pubkey::try_find_program_address` (the type
/// that `anchor_lang` re-exports as `Pubkey`): the result depends only on
/// the seed and the program id — a SHA-256-based search over bump seeds,
/// largest first, that returns `None` when no bump yields an off-curve
/// address — and a returned address is exactly 32 bytes.
#[verifier::external_body]
fn find_custody_address(seed: &Vec<u8>, program_id: &Vec<u8>) -> (r: Option<(Vec<u8>, u8)>)
    requires
        program_id@.len() == 32,
    ensures
        (match r {
            Some(pair) => derived_custody_address(seed@, program_id@) == Some((pair.0@, pair.1))
                && pair.0@.len() == 32,
            None => derived_custody_address(seed@, program_id@) is None,
        }),
{
    let mut pid_bytes = [0u8; 32];
    pid_bytes.copy_from_slice(program_id.as_slice());
    let pid = anchor_lang::solana_program::pubkey::Pubkey::from(pid_bytes);
    anchor_lang::solana_program::pubkey::Pubkey::try_find_program_address(
        &[seed.as_slice()],
        &pid,
    ).map(|(addr, bump)| (addr.to_bytes().to_vec(), bump))
}

/// The single, key-less custody authority of the marketplace: the derived
/// address controlling every custody account, and its verification nonce.
///
/// The authority carries no private key and no mutable state of its own;
/// it authorizes asset-release transfers only as part of the marketplace's
/// own transition logic.
pub struct CustodyAuthority {
    /// The derived 32-byte authority address.
    pub address: Vec<u8>,
    /// The verification nonce ("bump") found by the bounded search.
    pub bump: u8,
}

impl CustodyAuthority {
    /// The authority is exactly what the derivation yields for the
    /// marketplace identified by `program_id`.
    pub open spec fn wf(self, program_id: Seq<u8>) -> bool {
        &&& self.address@.len() == 32
        &&& derived_custody_address(custody_seed_spec(), program_id) == Some(
            (self.address@, self.bump),
        )
    }
}

/// Derive the custody authority of the marketplace identified by
/// `program_id` from the fixed namespace seed.
///
/// Succeeds exactly when a valid verification nonce exists in the bounded
/// search space; the failure is reported, never silently defaulted.
pub fn derive_custody_authority(program_id: &Vec<u8>) -> (r: Result<
    CustodyAuthority,
    NftMarketplaceError,
>)
    requires
        program_id@.len() == 32,
    ensures
        (match r {
            Ok(ca) => ca.wf(program_id@),
            Err(e) => e == NftMarketplaceError::DerivationFailed && derived_custody_address(
                custody_seed_spec(),
                program_id@,
            ) is None,
        }),
{
    let seed = custody_seed();
    match find_custody_address(&seed, program_id) {
        Some(pair) => Ok(CustodyAuthority { address: pair.0, bump: pair.1 }),
        None => Err(NftMarketplaceError::DerivationFailed),
    }
}

/// Law: the custody authority is deterministic. Any two authorities
/// correctly derived for the same marketplace are the same identity, with
/// the same verification nonce.
pub proof fn lemma_derivation_deterministic(
    a: CustodyAuthority,
    b: CustodyAuthority,
    program_id: Seq<u8>,
)
    requires
        a.wf(program_id),
        b.wf(program_id),
    ensures
        a.address@ == b.address@,
        a.bump == b.bump,
{
}

/// Byte-for-byte equality of two byte strings.
pub fn bytes_eq(a: &Vec<u8>, b: &Vec<u8>) -> (r: bool)
    ensures
        r == (a@ == b@),
{
    if a.len() != b.len() {
        return false;
    }
    let mut i: usize = 0;
    while i < a.len()
        invariant
            i <= a@.len(),
            a@.len() == b@.len(),
            forall|j: int| 0 <= j < i ==> a@[j] == b@[j],
        decreases a@.len() - i,
    {
        if a[i] != b[i] {
            return false;
        }
        i += 1;
    }
    proof {
        assert(a@ =~= b@);
    }
    true
}

} // verus!
