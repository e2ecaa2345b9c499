//! The error taxonomy of the marketplace.
//!
//! Every error aborts the entire enclosing transition: an operation that
//! returns one of these has changed nothing.

use vstd::prelude::*;

verus! {

/// Why a marketplace transition was rejected.
#[derive(Clone, Copy, Debug, PartialEq, Eq, Structural)]
pub enum NftMarketplaceError {
    /// The asset identifier has already been issued, or a record that may
    /// be written only once already exists.
    AlreadyInitialized,
    /// The issuing (or metadata) authority could not be verified as a
    /// signer of the transition, or does not match the asset's authority.
    AuthorityMismatch,
    /// The caller does not control the account holding the asset unit.
    OwnershipMismatch,
    /// A transfer of the asset unit or of the payment could not be carried
    /// out (for the non-fungible unit: an empty source account).
    TransferFailed,
    /// The buyer's spendable balance is below the listing price.
    InsufficientFunds,
    /// No listing record exists for the asset.
    ListingNotFound,
    /// The account holding the asset in custody is not controlled by the
    /// derived custody authority: data corruption or a forged custody
    /// account, the sale aborts unconditionally.
    CustodyAuthorityMismatch,
    /// No valid verification nonce exists in the bounded search space for
    /// the custody authority derivation.
    DerivationFailed,
}

impl NftMarketplaceError {
    /// A short human-readable description of the failure.
    pub fn describe(&self) -> (r: &'static str)
        ensures
            r@.len() > 0,
    {
        match self {
            NftMarketplaceError::AlreadyInitialized => {
                proof {
                    reveal_strlit("already initialized");
                }
                "already initialized"
            },
            NftMarketplaceError::AuthorityMismatch => {
                proof {
                    reveal_strlit("authority mismatch");
                }
                "authority mismatch"
            },
            NftMarketplaceError::OwnershipMismatch => {
                proof {
                    reveal_strlit("ownership mismatch");
                }
                "ownership mismatch"
            },
            NftMarketplaceError::TransferFailed => {
                proof {
                    reveal_strlit("transfer failed");
                }
                "transfer failed"
            },
            NftMarketplaceError::InsufficientFunds => {
                proof {
                    reveal_strlit("insufficient funds to purchase the NFT");
                }
                "insufficient funds to purchase the NFT"
            },
            NftMarketplaceError::ListingNotFound => {
                proof {
                    reveal_strlit("listing not found");
                }
                "listing not found"
            },
            NftMarketplaceError::CustodyAuthorityMismatch => {
                proof {
                    reveal_strlit("custody authority mismatch");
                }
                "custody authority mismatch"
            },
            NftMarketplaceError::DerivationFailed => {
                proof {
                    reveal_strlit("custody authority derivation failed");
                }
                "custody authority derivation failed"
            },
        }
    }
}

} // verus!
