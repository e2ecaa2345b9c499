//! A non-fungible-asset marketplace: issuance of unique assets, custodial
//! listing for sale, and atomic sale execution.
//!
//! The heart of the crate is the custody/listing/sale state-transition
//! protocol in [`market`]: every operation either completes in full or
//! leaves the state untouched, at most one listing exists per asset, and an
//! asset sits in its custody account exactly while its listing exists.
//! Custody is held by a key-less authority derived deterministically from a
//! marketplace seed in [`custody`]. The [`indexer`] module is the read-side
//! mirror that consumes the events the market emits.

pub mod custody;
pub mod errors;
pub mod indexer;
pub mod market;

pub use errors::NftMarketplaceError;
