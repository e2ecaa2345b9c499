use nft_marketplace::errors::NftMarketplaceError;
use nft_marketplace::market::{CustodyAccount, MarketEvent, MarketState};

fn program_id() -> Vec<u8> {
    let mut v = Vec::new();
    for i in 0..32u8 {
        v.push(i.wrapping_mul(7).wrapping_add(3));
    }
    v
}

fn fresh_market() -> MarketState {
    MarketState::new(program_id()).expect("derivation should succeed")
}

const U1: u64 = 101;
const U2: u64 = 202;
const U3: u64 = 303;
const ASSET_X: u64 = 77;

#[test]
fn new_market_is_empty() {
    let s = fresh_market();
    assert!(!s.asset_exists(ASSET_X));
    assert_eq!(s.balance(U1), 0);
    assert_eq!(s.holding(U1, ASSET_X), 0);
    assert_eq!(s.custody_balance(ASSET_X), 0);
    assert!(s.listing_of(ASSET_X).is_none());
    assert!(s.events.is_empty());
}

#[test]
fn mint_creates_one_unit_for_the_authority() {
    let mut s = fresh_market();
    s.mint(ASSET_X, U1, true).expect("mint should succeed");
    assert!(s.asset_exists(ASSET_X));
    assert_eq!(s.holding(U1, ASSET_X), 1);
    assert_eq!(s.custody_balance(ASSET_X), 0);
    assert_eq!(s.events.len(), 1);
    match &s.events[0] {
        MarketEvent::Minted(ev) => {
            assert_eq!(ev.mint, ASSET_X);
            assert_eq!(ev.owner, U1);
            assert_eq!(ev.marketplace, program_id());
        }
        _ => panic!("expected an issuance event"),
    }
}

#[test]
fn mint_requires_a_signer() {
    let mut s = fresh_market();
    assert_eq!(
        s.mint(ASSET_X, U1, false),
        Err(NftMarketplaceError::AuthorityMismatch)
    );
    assert!(!s.asset_exists(ASSET_X));
    assert!(s.events.is_empty());
}

#[test]
fn reissuing_the_same_identifier_fails_and_changes_nothing() {
    let mut s = fresh_market();
    s.mint(ASSET_X, U1, true).expect("mint should succeed");
    let events_before = s.events.len();
    assert_eq!(
        s.mint(ASSET_X, U2, true),
        Err(NftMarketplaceError::AlreadyInitialized)
    );
    // the second attempt left the state unchanged
    assert_eq!(s.holding(U1, ASSET_X), 1);
    assert_eq!(s.holding(U2, ASSET_X), 0);
    assert_eq!(s.events.len(), events_before);
}

#[test]
fn metadata_attaches_once() {
    let mut s = fresh_market();
    s.mint(ASSET_X, U1, true).expect("mint should succeed");
    s.create_metadata(ASSET_X, U1, "Deed 7".to_string(), "ipfs://deed-7".to_string(), true)
        .expect("metadata should attach");
    assert!(s.metadata_attached(ASSET_X));
    assert_eq!(
        s.create_metadata(ASSET_X, U1, "Again".to_string(), "uri".to_string(), true),
        Err(NftMarketplaceError::AlreadyInitialized)
    );
}

#[test]
fn metadata_needs_the_issuing_authority() {
    let mut s = fresh_market();
    s.mint(ASSET_X, U1, true).expect("mint should succeed");
    assert_eq!(
        s.create_metadata(ASSET_X, U2, "T".to_string(), "u".to_string(), true),
        Err(NftMarketplaceError::AuthorityMismatch)
    );
    assert_eq!(
        s.create_metadata(ASSET_X, U1, "T".to_string(), "u".to_string(), false),
        Err(NftMarketplaceError::AuthorityMismatch)
    );
    // an asset that was never issued has no authority to match
    assert_eq!(
        s.create_metadata(ASSET_X + 1, U1, "T".to_string(), "u".to_string(), true),
        Err(NftMarketplaceError::AuthorityMismatch)
    );
    assert!(!s.metadata_attached(ASSET_X));
}

#[test]
fn listing_moves_the_unit_into_custody() {
    let mut s = fresh_market();
    s.mint(ASSET_X, U1, true).expect("mint should succeed");
    s.list_nft(U1, ASSET_X, 100, true).expect("listing should succeed");
    assert_eq!(s.holding(U1, ASSET_X), 0);
    assert_eq!(s.custody_balance(ASSET_X), 1);
    let l = s.listing_of(ASSET_X).expect("listing should exist");
    assert_eq!(l.owner, U1);
    assert_eq!(l.price, 100);
    match s.events.last().expect("an event was emitted") {
        MarketEvent::Listed(ev) => {
            assert_eq!(ev.nft, ASSET_X);
            assert_eq!(ev.owner, U1);
            assert_eq!(ev.price, 100);
            assert_eq!(ev.marketplace, program_id());
        }
        _ => panic!("expected a listing event"),
    }
}

#[test]
fn listing_requires_a_signer_and_an_account() {
    let mut s = fresh_market();
    s.mint(ASSET_X, U1, true).expect("mint should succeed");
    assert_eq!(
        s.list_nft(U1, ASSET_X, 100, false),
        Err(NftMarketplaceError::OwnershipMismatch)
    );
    // U2 has no account holding the asset
    assert_eq!(
        s.list_nft(U2, ASSET_X, 100, true),
        Err(NftMarketplaceError::OwnershipMismatch)
    );
    assert_eq!(s.custody_balance(ASSET_X), 0);
}

#[test]
fn listing_an_empty_account_is_a_transfer_failure() {
    let mut s = fresh_market();
    s.mint(ASSET_X, U1, true).expect("mint should succeed");
    s.list_nft(U1, ASSET_X, 5, true).expect("listing should succeed");
    s.credit(U2, 10).expect("credit should succeed");
    s.buy_nft(U2, ASSET_X, true).expect("sale should succeed");
    // U1's account for the asset still exists but is empty now
    assert_eq!(
        s.list_nft(U1, ASSET_X, 5, true),
        Err(NftMarketplaceError::TransferFailed)
    );
}

#[test]
fn relisting_updates_the_price_without_a_second_transfer() {
    let mut s = fresh_market();
    s.mint(ASSET_X, U1, true).expect("mint should succeed");
    s.list_nft(U1, ASSET_X, 100, true).expect("listing should succeed");
    assert_eq!(s.custody_balance(ASSET_X), 1);
    s.list_nft(U1, ASSET_X, 50, true).expect("re-listing should succeed");
    // exactly one listing record, carrying the second price
    let l = s.listing_of(ASSET_X).expect("listing should exist");
    assert_eq!(l.owner, U1);
    assert_eq!(l.price, 50);
    // the custody balance stayed at one throughout: no double transfer
    assert_eq!(s.custody_balance(ASSET_X), 1);
    assert_eq!(s.holding(U1, ASSET_X), 0);
}

#[test]
fn relisting_by_someone_else_is_rejected() {
    let mut s = fresh_market();
    s.mint(ASSET_X, U1, true).expect("mint should succeed");
    s.list_nft(U1, ASSET_X, 100, true).expect("listing should succeed");
    assert_eq!(
        s.list_nft(U2, ASSET_X, 1, true),
        Err(NftMarketplaceError::OwnershipMismatch)
    );
    assert_eq!(s.listing_of(ASSET_X).expect("listing remains").price, 100);
}

#[test]
fn buying_without_funds_changes_nothing() {
    let mut s = fresh_market();
    s.mint(ASSET_X, U1, true).expect("mint should succeed");
    s.list_nft(U1, ASSET_X, 100, true).expect("listing should succeed");
    s.credit(U2, 99).expect("credit should succeed");
    let events_before = s.events.len();
    assert_eq!(
        s.buy_nft(U2, ASSET_X, true),
        Err(NftMarketplaceError::InsufficientFunds)
    );
    // owner and buyer balances, listing record and custody account are untouched
    assert_eq!(s.balance(U1), 0);
    assert_eq!(s.balance(U2), 99);
    let l = s.listing_of(ASSET_X).expect("listing remains");
    assert_eq!(l.owner, U1);
    assert_eq!(l.price, 100);
    assert_eq!(s.custody_balance(ASSET_X), 1);
    assert_eq!(s.events.len(), events_before);
}

#[test]
fn buying_an_unlisted_asset_fails_without_any_transfer() {
    let mut s = fresh_market();
    s.mint(ASSET_X, U1, true).expect("mint should succeed");
    s.credit(U2, 1000).expect("credit should succeed");
    let events_before = s.events.len();
    assert_eq!(
        s.buy_nft(U2, ASSET_X, true),
        Err(NftMarketplaceError::ListingNotFound)
    );
    assert_eq!(s.balance(U2), 1000);
    assert_eq!(s.holding(U1, ASSET_X), 1);
    assert_eq!(s.events.len(), events_before);
}

#[test]
fn end_to_end_issue_metadata_list_buy() {
    let mut s = fresh_market();
    s.mint(ASSET_X, U1, true).expect("mint should succeed");
    s.create_metadata(ASSET_X, U1, "Deed 7".to_string(), "ipfs://deed-7".to_string(), true)
        .expect("metadata should attach");
    s.list_nft(U1, ASSET_X, 100, true).expect("listing should succeed");
    s.credit(U2, 150).expect("credit should succeed");
    s.buy_nft(U2, ASSET_X, true).expect("sale should succeed");

    // payment and asset changed hands together
    assert_eq!(s.balance(U1), 100);
    assert_eq!(s.balance(U2), 50);
    assert_eq!(s.holding(U2, ASSET_X), 1);
    assert_eq!(s.holding(U1, ASSET_X), 0);
    assert_eq!(s.custody_balance(ASSET_X), 0);
    assert!(s.listing_of(ASSET_X).is_none());

    // the sale event is observed exactly once
    let mut sold: u32 = 0;
    for e in &s.events {
        if let MarketEvent::Sold(ev) = e {
            sold += 1;
            assert_eq!(ev.mint, ASSET_X);
            assert_eq!(ev.seller, U1);
            assert_eq!(ev.buyer, U2);
            assert_eq!(ev.marketplace, program_id());
        }
    }
    assert_eq!(sold, 1);
}

#[test]
fn serialized_competing_buyers_exactly_one_succeeds() {
    let mut s = fresh_market();
    s.mint(ASSET_X, U1, true).expect("mint should succeed");
    s.list_nft(U1, ASSET_X, 40, true).expect("listing should succeed");
    s.credit(U2, 100).expect("credit should succeed");
    s.credit(U3, 100).expect("credit should succeed");
    s.buy_nft(U2, ASSET_X, true).expect("first sale should succeed");
    assert_eq!(
        s.buy_nft(U3, ASSET_X, true),
        Err(NftMarketplaceError::ListingNotFound)
    );
    // the loser's funds were not deducted
    assert_eq!(s.balance(U3), 100);
    assert_eq!(s.balance(U2), 60);
    assert_eq!(s.holding(U2, ASSET_X), 1);
    assert_eq!(s.holding(U3, ASSET_X), 0);
}

#[test]
fn buying_requires_a_signer() {
    let mut s = fresh_market();
    s.mint(ASSET_X, U1, true).expect("mint should succeed");
    s.list_nft(U1, ASSET_X, 1, true).expect("listing should succeed");
    s.credit(U2, 10).expect("credit should succeed");
    assert_eq!(
        s.buy_nft(U2, ASSET_X, false),
        Err(NftMarketplaceError::AuthorityMismatch)
    );
    assert_eq!(s.balance(U2), 10);
}

#[test]
fn a_zero_price_listing_is_a_transfer_for_free() {
    let mut s = fresh_market();
    s.mint(ASSET_X, U1, true).expect("mint should succeed");
    s.list_nft(U1, ASSET_X, 0, true).expect("listing should succeed");
    s.buy_nft(U2, ASSET_X, true).expect("free transfer should succeed");
    assert_eq!(s.holding(U2, ASSET_X), 1);
    assert_eq!(s.balance(U1), 0);
    assert_eq!(s.balance(U2), 0);
}

#[test]
fn buying_ones_own_listing_returns_the_unit() {
    let mut s = fresh_market();
    s.mint(ASSET_X, U1, true).expect("mint should succeed");
    s.list_nft(U1, ASSET_X, 30, true).expect("listing should succeed");
    s.credit(U1, 30).expect("credit should succeed");
    s.buy_nft(U1, ASSET_X, true).expect("buying back should succeed");
    assert_eq!(s.balance(U1), 30);
    assert_eq!(s.holding(U1, ASSET_X), 1);
    assert!(s.listing_of(ASSET_X).is_none());
}

#[test]
fn overflowing_the_sellers_balance_aborts_the_sale() {
    let mut s = fresh_market();
    s.mint(ASSET_X, U1, true).expect("mint should succeed");
    s.list_nft(U1, ASSET_X, 5, true).expect("listing should succeed");
    s.credit(U1, u64::MAX).expect("credit should succeed");
    s.credit(U2, 10).expect("credit should succeed");
    assert_eq!(
        s.buy_nft(U2, ASSET_X, true),
        Err(NftMarketplaceError::TransferFailed)
    );
    assert_eq!(s.balance(U2), 10);
    assert_eq!(s.custody_balance(ASSET_X), 1);
}

#[test]
fn crediting_past_the_balance_limit_fails() {
    let mut s = fresh_market();
    s.credit(U1, u64::MAX).expect("credit should succeed");
    assert_eq!(s.credit(U1, 1), Err(NftMarketplaceError::TransferFailed));
    assert_eq!(s.balance(U1), u64::MAX);
}

#[test]
fn a_forged_custody_account_aborts_the_sale() {
    let mut s = fresh_market();
    s.mint(ASSET_X, U1, true).expect("mint should succeed");
    s.list_nft(U1, ASSET_X, 10, true).expect("listing should succeed");
    s.credit(U2, 10).expect("credit should succeed");
    // corrupt the custody account: some other authority claims the escrow
    s.custody.insert(
        ASSET_X,
        CustodyAccount {
            amount: 1,
            authority: vec![0u8; 32],
        },
    );
    assert_eq!(
        s.buy_nft(U2, ASSET_X, true),
        Err(NftMarketplaceError::CustodyAuthorityMismatch)
    );
    assert_eq!(s.balance(U2), 10);
    assert!(s.listing_of(ASSET_X).is_some());
}

#[test]
fn error_descriptions_are_not_empty() {
    assert_eq!(
        NftMarketplaceError::InsufficientFunds.describe(),
        "insufficient funds to purchase the NFT"
    );
    assert!(!NftMarketplaceError::DerivationFailed.describe().is_empty());
}
