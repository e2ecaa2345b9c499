//! The custody/listing/sale state-transition protocol.
//!
//! [`MarketState`] models the whole marketplace-visible state: the issued
//! assets, the listing records, the custody accounts escrowing listed
//! assets, every participant's token holdings and currency balance, and
//! the append-only event log consumed by external indexers. Each exposed
//! operation (`mint`, `create_metadata`, `list_nft`, `buy_nft`) is one
//! indivisible transition: it either completes in full or returns an error
//! having changed nothing. The surrounding execution environment serializes
//! transitions; no operation suspends mid-way.
//!
//! Central invariant, kept by every operation: an asset sits in its custody
//! account (holding exactly one unit) exactly while a listing record for it
//! exists, and the single issued unit of each asset is never duplicated.

use std::collections::HashMap;

use vstd::prelude::*;

use crate::custody::{derive_custody_authority, derived_custody_address, custody_seed_spec, bytes_eq, CustodyAuthority};
use crate::errors::NftMarketplaceError;

verus! {

broadcast use vstd::std_specs::hash::group_hash_axioms;

/// One issued asset: its issuing authority and its immutable metadata,
/// attached once after issuance. The asset identifier is the key under
/// which the record is stored; total supply is fixed at one unit.
pub struct AssetRecord {
    /// The issuing authority of the asset.
    pub authority: u64,
    /// Frozen display metadata, `None` until attached.
    pub metadata: Option<AssetMetadata>,
}

/// Display metadata bound to an asset, immutable once attached.
pub struct AssetMetadata {
    /// Human-readable title.
    pub title: String,
    /// Content location.
    pub uri: String,
    /// The creator identity recorded in the metadata.
    pub creator: u64,
    /// Royalty-share placeholder; always the full share.
    pub creator_share: u8,
}

/// An active sale offer: {owner, asset, price}, stored under the asset
/// identifier. It exists exactly while the asset resides in custody.
#[derive(Clone, Copy, Debug, PartialEq, Eq, Structural)]
pub struct ListingRecord {
    /// The seller: the identity that moved the asset into custody.
    pub owner: u64,
    /// The sale price in base currency units; zero is a valid
    /// "transfer for free" price.
    pub price: u64,
}

/// An asset-holding account controlled by the custody authority,
/// associated with exactly one asset (the key it is stored under). Holds
/// zero or one unit; created on first listing and reused afterwards.
pub struct CustodyAccount {
    /// Units of the asset held in escrow: zero or one.
    pub amount: u64,
    /// The 32-byte address of the authority controlling the account.
    pub authority: Vec<u8>,
}

/// Event emitted after a successful issuance.
pub struct MintSucessfulEvent {
    /// The issued asset.
    pub mint: u64,
    /// The issuing authority, owner of the fresh unit.
    pub owner: u64,
    /// The marketplace identity.
    pub marketplace: Vec<u8>,
}

/// Event emitted after metadata is attached to an asset.
pub struct MetadataCreatedEvent {
    /// The asset the metadata was bound to.
    pub mint: u64,
}

/// Event emitted after a successful listing.
pub struct NftListedEvent {
    /// The listed asset.
    pub nft: u64,
    /// The seller.
    pub owner: u64,
    /// The marketplace identity.
    pub marketplace: Vec<u8>,
    /// The listing price.
    pub price: u64,
}

/// Event emitted after a completed sale.
pub struct NFTSoldEvent {
    /// The sold asset.
    pub mint: u64,
    /// The seller, paid the listing price.
    pub seller: u64,
    /// The buyer, new holder of the asset unit.
    pub buyer: u64,
    /// The marketplace identity.
    pub marketplace: Vec<u8>,
}

/// One entry of the append-only event log, the only state-propagation
/// channel to external readers.
pub enum MarketEvent {
    /// An asset was issued.
    Minted(MintSucessfulEvent),
    /// Metadata was attached.
    MetadataCreated(MetadataCreatedEvent),
    /// An asset was listed for sale.
    Listed(NftListedEvent),
    /// A listed asset was sold.
    Sold(NFTSoldEvent),
}

/// The key of a token account: one holder's account for one asset.
pub open spec fn token_key(owner: u64, asset: u64) -> u128 {
    (owner * 0x1_0000_0000_0000_0000 + asset) as u128
}

/// The holder encoded in a token-account key.
pub open spec fn key_owner(k: u128) -> u64 {
    (k / 0x1_0000_0000_0000_0000) as u64
}

/// The asset encoded in a token-account key.
pub open spec fn key_asset(k: u128) -> u64 {
    (k % 0x1_0000_0000_0000_0000) as u64
}

/// A token-account key decodes to the holder and asset it was built from.
pub proof fn lemma_token_key_parts(owner: u64, asset: u64)
    ensures
        key_owner(token_key(owner, asset)) == owner,
        key_asset(token_key(owner, asset)) == asset,
{
    let w: int = 0x1_0000_0000_0000_0000;
    let v: int = owner * w + asset;
    assert(0 <= v < 0x1_0000_0000_0000_0000_0000_0000_0000_0000) by (nonlinear_arith)
        requires
            w == 0x1_0000_0000_0000_0000,
            v == owner * w + asset,
            0 <= owner <= 0xFFFF_FFFF_FFFF_FFFF,
            0 <= asset < w,
    ;
    assert(v / w == owner && v % w == asset) by (nonlinear_arith)
        requires
            w == 0x1_0000_0000_0000_0000,
            v == owner * w + asset,
            0 <= asset < w,
            0 <= owner,
    ;
    assert(token_key(owner, asset) == v);
}

/// Decoding a token-account key and re-encoding the parts gives the key
/// back: every key stands for exactly one holder/asset pair.
pub proof fn lemma_token_key_roundtrip(k: u128)
    ensures
        token_key(key_owner(k), key_asset(k)) == k,
{
    let w: int = 0x1_0000_0000_0000_0000;
    let v: int = k as int;
    assert(v / w * w + v % w == v && 0 <= v % w < w && 0 <= v / w < w) by (nonlinear_arith)
        requires
            w == 0x1_0000_0000_0000_0000,
            v == k as int,
            0 <= v < 0x1_0000_0000_0000_0000_0000_0000_0000_0000,
    ;
}

/// Build a token-account key.
pub fn make_token_key(owner: u64, asset: u64) -> (r: u128)
    ensures
        r == token_key(owner, asset),
{
    (owner as u128) * 0x1_0000_0000_0000_0000u128 + (asset as u128)
}

/// The entire marketplace-visible state.
pub struct MarketState {
    /// The marketplace's own 32-byte program identity.
    pub program_id: Vec<u8>,
    /// The single custody authority derived for this marketplace.
    pub custody_authority: CustodyAuthority,
    /// Issued assets, keyed by asset identifier.
    pub assets: HashMap<u64, AssetRecord>,
    /// Active listings, keyed by asset identifier; at most one per asset.
    pub listings: HashMap<u64, ListingRecord>,
    /// Custody accounts, keyed by asset identifier; at most one per asset.
    pub custody: HashMap<u64, CustodyAccount>,
    /// Token holdings, keyed by [`token_key`]; each holds zero or one unit.
    pub token_accounts: HashMap<u128, u64>,
    /// Spendable base-currency balances.
    pub balances: HashMap<u64, u64>,
    /// The append-only event log.
    pub events: Vec<MarketEvent>,
}

impl MarketState {
    /// The spendable balance of an account; absent accounts hold nothing.
    pub open spec fn balance_of(self, account: u64) -> u64 {
        if self.balances@.contains_key(account) {
            self.balances@[account]
        } else {
            0
        }
    }

    /// Units of `asset` held by `owner`; an absent account holds nothing.
    pub open spec fn holding_of(self, owner: u64, asset: u64) -> u64 {
        if self.token_accounts@.contains_key(token_key(owner, asset)) {
            self.token_accounts@[token_key(owner, asset)]
        } else {
            0
        }
    }

    /// Units of `asset` held in its custody account; an absent custody
    /// account holds nothing.
    pub open spec fn custody_amount(self, asset: u64) -> u64 {
        if self.custody@.contains_key(asset) {
            self.custody@[asset].amount
        } else {
            0
        }
    }

    /// Whether `asset` has been issued.
    pub open spec fn has_asset(self, asset: u64) -> bool {
        self.assets@.contains_key(asset)
    }

    /// Whether a listing record exists for `asset`.
    pub open spec fn has_listing(self, asset: u64) -> bool {
        self.listings@.contains_key(asset)
    }

    /// Well-formedness of the market state, preserved by every operation.
    pub open spec fn inv(self) -> bool {
        // a listed asset is issued
        &&& forall|a: u64| #[trigger]
            self.listings@.contains_key(a) ==> self.assets@.contains_key(a)
        // a custody account belongs to an issued asset and holds 0 or 1
        &&& forall|a: u64| #[trigger]
            self.custody@.contains_key(a) ==> self.assets@.contains_key(a)
                && self.custody@[a].amount <= 1
        // the asset of a listing sits in custody
        &&& forall|a: u64| #[trigger]
            self.listings@.contains_key(a) ==> self.custody_amount(a) == 1
        // an asset in custody is listed
        &&& forall|a: u64| #[trigger]
            self.custody@.contains_key(a) && self.custody@[a].amount == 1
                ==> self.listings@.contains_key(a)
        // a token account belongs to an issued asset and holds 0 or 1
        &&& forall|k: u128| #[trigger]
            self.token_accounts@.contains_key(k) ==> self.assets@.contains_key(key_asset(k))
                && self.token_accounts@[k] <= 1
        // at most one token account holds the unit of an asset
        &&& forall|k1: u128, k2: u128|
            #![trigger self.token_accounts@[k1], self.token_accounts@[k2]]
            self.token_accounts@.contains_key(k1) && self.token_accounts@.contains_key(k2)
                && key_asset(k1) == key_asset(k2) && self.token_accounts@[k1] == 1
                && self.token_accounts@[k2] == 1 ==> k1 == k2
        // while the unit is in custody no token account holds it
        &&& forall|a: u64, k: u128|
            #![trigger self.custody@[a], self.token_accounts@[k]]
            self.custody@.contains_key(a) && self.custody@[a].amount == 1
                && self.token_accounts@.contains_key(k) && key_asset(k) == a
                ==> self.token_accounts@[k] == 0
        // the single unit of an issued asset exists somewhere
        &&& forall|a: u64| #[trigger]
            self.assets@.contains_key(a) ==> self.custody_amount(a) == 1 || exists|k: u128|
                #[trigger] self.token_accounts@.contains_key(k) && key_asset(k) == a
                    && self.token_accounts@[k] == 1
    }

    /// The event is a successful-issuance event with the given content.
    pub open spec fn is_minted_event(
        e: MarketEvent,
        asset: u64,
        owner: u64,
        marketplace: Seq<u8>,
    ) -> bool {
        &&& e matches MarketEvent::Minted(ev)
        &&& ev.mint == asset
        &&& ev.owner == owner
        &&& ev.marketplace@ == marketplace
    }

    /// The exact state transition of a successful issuance: the asset
    /// record appears, its single unit is minted into the issuing
    /// authority's account, everything else is untouched, and the
    /// issuance event is appended.
    pub open spec fn minted_ok(
        pre: MarketState,
        post: MarketState,
        asset: u64,
        authority: u64,
    ) -> bool {
        &&& post.assets@ == pre.assets@.insert(
            asset,
            AssetRecord { authority, metadata: None },
        )
        &&& post.token_accounts@ == pre.token_accounts@.insert(
            token_key(authority, asset),
            1u64,
        )
        &&& post.listings@ == pre.listings@
        &&& post.custody@ == pre.custody@
        &&& post.balances@ == pre.balances@
        &&& post.program_id == pre.program_id
        &&& post.custody_authority == pre.custody_authority
        &&& post.events@.len() == pre.events@.len() + 1
        &&& post.events@.drop_last() == pre.events@
        &&& Self::is_minted_event(post.events@.last(), asset, authority, pre.program_id@)
    }

    /// Create a marketplace with no assets, listings, holdings or
    /// balances, deriving the custody authority for `program_id`.
    ///
    /// Fails with `DerivationFailed` exactly when no valid verification
    /// nonce exists for the marketplace's namespace seed.
    pub fn new(program_id: Vec<u8>) -> (r: Result<MarketState, NftMarketplaceError>)
        requires
            program_id@.len() == 32,
        ensures
            (match r {
                Ok(s) => {
                    &&& s.inv()
                    &&& s.program_id@ == program_id@
                    &&& s.custody_authority.wf(program_id@)
                    &&& s.assets@ == Map::<u64, AssetRecord>::empty()
                    &&& s.listings@ == Map::<u64, ListingRecord>::empty()
                    &&& s.custody@ == Map::<u64, CustodyAccount>::empty()
                    &&& s.token_accounts@ == Map::<u128, u64>::empty()
                    &&& s.balances@ == Map::<u64, u64>::empty()
                    &&& s.events@ == Seq::<MarketEvent>::empty()
                },
                Err(e) => e == NftMarketplaceError::DerivationFailed && derived_custody_address(
                    custody_seed_spec(),
                    program_id@,
                ) is None,
            }),
    {
        let custody_authority = match derive_custody_authority(&program_id) {
            Ok(ca) => ca,
            Err(e) => {
                return Err(e);
            },
        };
        Ok(
            MarketState {
                program_id,
                custody_authority,
                assets: HashMap::new(),
                listings: HashMap::new(),
                custody: HashMap::new(),
                token_accounts: HashMap::new(),
                balances: HashMap::new(),
                events: Vec::new(),
            },
        )
    }

    /// Issue a new asset under `asset`: create its record with supply
    /// fixed at one and mint that single unit into an account owned by
    /// `mint_authority`. `authority_signed` is the execution environment's
    /// verdict on whether the issuing authority signed the transition.
    ///
    /// Fails with `AuthorityMismatch` when the authority did not sign,
    /// and with `AlreadyInitialized` when the asset identifier was issued
    /// before; a failed issuance changes nothing.
    pub fn mint(
        &mut self,
        asset: u64,
        mint_authority: u64,
        authority_signed: bool,
    ) -> (r: Result<(), NftMarketplaceError>)
        requires
            old(self).inv(),
        ensures
            final(self).inv(),
            r is Ok <==> (authority_signed && !old(self).has_asset(asset)),
            (match r {
                Ok(()) => Self::minted_ok(*old(self), *final(self), asset, mint_authority),
                Err(e) => *final(self) == *old(self) && ((e
                    == NftMarketplaceError::AuthorityMismatch && !authority_signed) || (e
                    == NftMarketplaceError::AlreadyInitialized && authority_signed && old(
                    self,
                ).has_asset(asset))),
            }),
    {
        if !authority_signed {
            return Err(NftMarketplaceError::AuthorityMismatch);
        }
        if self.assets.contains_key(&asset) {
            return Err(NftMarketplaceError::AlreadyInitialized);
        }
        let ghost pre = *self;
        let marketplace = self.program_id.clone();
        self.assets.insert(asset, AssetRecord { authority: mint_authority, metadata: None });
        let key = make_token_key(mint_authority, asset);
        self.token_accounts.insert(key, 1);
        self.events.push(
            MarketEvent::Minted(
                MintSucessfulEvent { mint: asset, owner: mint_authority, marketplace },
            ),
        );
        proof {
            lemma_token_key_parts(mint_authority, asset);
            assert(self.events@.drop_last() =~= pre.events@);
            assert forall|a: u64| #[trigger]
                self.assets@.contains_key(a) implies self.custody_amount(a) == 1 || exists|
                k: u128,
            |
                #[trigger] self.token_accounts@.contains_key(k) && key_asset(k) == a
                    && self.token_accounts@[k] == 1 by {
                if a == asset {
                    assert(self.token_accounts@.contains_key(key) && key_asset(key) == a
                        && self.token_accounts@[key] == 1);
                } else {
                    assert(pre.assets@.contains_key(a));
                    if pre.custody_amount(a) != 1 {
                        let w = choose|k: u128|
                            #[trigger] pre.token_accounts@.contains_key(k) && key_asset(k) == a
                                && pre.token_accounts@[k] == 1;
                        assert(self.token_accounts@.contains_key(w) && key_asset(w) == a
                            && self.token_accounts@[w] == 1);
                    }
                }
            }
        }
        Ok(())
    }

    /// The exact state transition of a successful metadata attachment:
    /// the asset's record gains the frozen metadata, everything else is
    /// untouched, and the metadata event is appended.
    pub open spec fn metadata_ok(
        pre: MarketState,
        post: MarketState,
        asset: u64,
        creator: u64,
        title: Seq<char>,
        uri: Seq<char>,
    ) -> bool {
        &&& post.assets@.contains_key(asset)
        &&& post.assets@[asset].authority == pre.assets@[asset].authority
        &&& (post.assets@[asset].metadata matches Some(m) && m.title@ == title && m.uri@ == uri
            && m.creator == creator && m.creator_share == 100)
        &&& post.assets@.dom() == pre.assets@.dom()
        &&& post.assets@.remove(asset) == pre.assets@.remove(asset)
        &&& post.listings@ == pre.listings@
        &&& post.custody@ == pre.custody@
        &&& post.token_accounts@ == pre.token_accounts@
        &&& post.balances@ == pre.balances@
        &&& post.program_id == pre.program_id
        &&& post.custody_authority == pre.custody_authority
        &&& Self::events_appended(pre, post)
        &&& (post.events@.last() matches MarketEvent::MetadataCreated(ev) && ev.mint == asset)
    }

    /// Exactly one event was appended; the log is otherwise untouched.
    pub open spec fn events_appended(pre: MarketState, post: MarketState) -> bool {
        &&& post.events@.len() == pre.events@.len() + 1
        &&& post.events@.drop_last() == pre.events@
    }

    /// Attach frozen display metadata to an issued asset, once, on behalf
    /// of its issuing authority (recorded as the creator with the full
    /// share). `authority_signed` is the execution environment's verdict
    /// on whether `mint_authority` signed the transition.
    ///
    /// Fails with `AuthorityMismatch` when the authority did not sign,
    /// the asset does not exist, or `mint_authority` is not the asset's
    /// issuing authority; fails with `AlreadyInitialized` when metadata
    /// was already attached. A failed attachment changes nothing.
    pub fn create_metadata(
        &mut self,
        asset: u64,
        mint_authority: u64,
        title: String,
        uri: String,
        authority_signed: bool,
    ) -> (r: Result<(), NftMarketplaceError>)
        requires
            old(self).inv(),
        ensures
            final(self).inv(),
            r is Ok <==> (authority_signed && old(self).has_asset(asset) && old(
                self,
            ).assets@[asset].authority == mint_authority && old(
                self,
            ).assets@[asset].metadata is None),
            (match r {
                Ok(()) => Self::metadata_ok(
                    *old(self),
                    *final(self),
                    asset,
                    mint_authority,
                    title@,
                    uri@,
                ),
                Err(e) => *final(self) == *old(self) && ((e
                    == NftMarketplaceError::AuthorityMismatch && (!authority_signed || !old(
                    self,
                ).has_asset(asset) || old(self).assets@[asset].authority != mint_authority)) || (
                e == NftMarketplaceError::AlreadyInitialized && authority_signed && old(
                    self,
                ).has_asset(asset) && old(self).assets@[asset].authority == mint_authority
                    && old(self).assets@[asset].metadata is Some)),
            }),
    {
        if !authority_signed {
            return Err(NftMarketplaceError::AuthorityMismatch);
        }
        let (authority, has_meta) = match self.assets.get(&asset) {
            Some(rec) => (rec.authority, rec.metadata.is_some()),
            None => {
                return Err(NftMarketplaceError::AuthorityMismatch);
            },
        };
        if authority != mint_authority {
            return Err(NftMarketplaceError::AuthorityMismatch);
        }
        if has_meta {
            return Err(NftMarketplaceError::AlreadyInitialized);
        }
        let ghost pre = *self;
        self.assets.insert(
            asset,
            AssetRecord {
                authority,
                metadata: Some(
                    AssetMetadata { title, uri, creator: mint_authority, creator_share: 100 },
                ),
            },
        );
        self.events.push(MarketEvent::MetadataCreated(MetadataCreatedEvent { mint: asset }));
        proof {
            assert(self.events@.drop_last() =~= pre.events@);
            assert(self.assets@.dom() =~= pre.assets@.dom());
            assert(self.assets@.remove(asset) =~= pre.assets@.remove(asset));
            assert forall|k: u128| #[trigger]
                self.token_accounts@.contains_key(k) implies self.assets@.contains_key(
                key_asset(k),
            ) && self.token_accounts@[k] <= 1 by {
                assert(pre.assets@.contains_key(key_asset(k)));
            }
            assert forall|a: u64| #[trigger]
                self.assets@.contains_key(a) implies self.custody_amount(a) == 1 || exists|
                k: u128,
            |
                #[trigger] self.token_accounts@.contains_key(k) && key_asset(k) == a
                    && self.token_accounts@[k] == 1 by {
                assert(pre.assets@.contains_key(a));
                if pre.custody_amount(a) != 1 {
                    let w = choose|k: u128|
                        #[trigger] pre.token_accounts@.contains_key(k) && key_asset(k) == a
                            && pre.token_accounts@[k] == 1;
                    assert(self.token_accounts@.contains_key(w) && key_asset(w) == a
                        && self.token_accounts@[w] == 1);
                }
            }
        }
        Ok(())
    }

    /// The event is a listing event with the given content.
    pub open spec fn is_listed_event(
        e: MarketEvent,
        asset: u64,
        owner: u64,
        price: u64,
        marketplace: Seq<u8>,
    ) -> bool {
        &&& e matches MarketEvent::Listed(ev)
        &&& ev.nft == asset
        &&& ev.owner == owner
        &&& ev.price == price
        &&& ev.marketplace@ == marketplace
    }

    /// The exact state transition of a successful first listing: the
    /// asset's single unit moves from the owner's account into the
    /// custody account controlled by the custody authority, the listing
    /// record is written, everything else is untouched, and the listing
    /// event is appended.
    pub open spec fn listed_ok(
        pre: MarketState,
        post: MarketState,
        owner: u64,
        asset: u64,
        price: u64,
    ) -> bool {
        &&& post.assets@ == pre.assets@
        &&& post.listings@ == pre.listings@.insert(asset, ListingRecord { owner, price })
        &&& post.token_accounts@ == pre.token_accounts@.insert(token_key(owner, asset), 0u64)
        &&& post.custody@.contains_key(asset)
        &&& post.custody@[asset].amount == 1
        &&& post.custody@[asset].authority@ == pre.custody_authority.address@
        &&& post.custody@.remove(asset) == pre.custody@.remove(asset)
        &&& post.balances@ == pre.balances@
        &&& post.program_id == pre.program_id
        &&& post.custody_authority == pre.custody_authority
        &&& Self::events_appended(pre, post)
        &&& Self::is_listed_event(post.events@.last(), asset, owner, price, pre.program_id@)
    }

    /// The exact state transition of a successful re-listing: only the
    /// listing record's price is rewritten — the asset is not moved a
    /// second time — and the listing event is appended.
    pub open spec fn relisted_ok(
        pre: MarketState,
        post: MarketState,
        owner: u64,
        asset: u64,
        price: u64,
    ) -> bool {
        &&& post.assets@ == pre.assets@
        &&& post.listings@ == pre.listings@.insert(asset, ListingRecord { owner, price })
        &&& post.token_accounts@ == pre.token_accounts@
        &&& post.custody@ == pre.custody@
        &&& post.balances@ == pre.balances@
        &&& post.program_id == pre.program_id
        &&& post.custody_authority == pre.custody_authority
        &&& Self::events_appended(pre, post)
        &&& Self::is_listed_event(post.events@.last(), asset, owner, price, pre.program_id@)
    }

    /// List `asset` for sale at `price` on behalf of `owner`: move its
    /// single unit from the owner's account into the custody account
    /// controlled by the custody authority (created on first use, reused
    /// afterwards) and write the listing record. Re-listing an asset
    /// already in custody under the same owner only updates the price;
    /// the asset is not moved again. A zero price is accepted as a
    /// "transfer for free" listing. `owner_signed` is the execution
    /// environment's verdict on whether `owner` signed the transition.
    ///
    /// Fails with `OwnershipMismatch` when the owner did not sign, when
    /// the asset is in custody for a different owner, or when the owner
    /// has no account for the asset; fails with `TransferFailed` when the
    /// owner's account does not hold the unit. A failed listing changes
    /// nothing.
    pub fn list_nft(
        &mut self,
        owner: u64,
        asset: u64,
        price: u64,
        owner_signed: bool,
    ) -> (r: Result<(), NftMarketplaceError>)
        requires
            old(self).inv(),
        ensures
            final(self).inv(),
            r is Ok <==> (owner_signed && ((old(self).has_listing(asset) && old(
                self,
            ).listings@[asset].owner == owner) || (!old(self).has_listing(asset) && old(
                self,
            ).holding_of(owner, asset) == 1))),
            (match r {
                Ok(()) => if old(self).has_listing(asset) {
                    Self::relisted_ok(*old(self), *final(self), owner, asset, price)
                } else {
                    Self::listed_ok(*old(self), *final(self), owner, asset, price)
                },
                Err(e) => *final(self) == *old(self) && ((e
                    == NftMarketplaceError::OwnershipMismatch && (!owner_signed || (old(
                    self,
                ).has_listing(asset) && old(self).listings@[asset].owner != owner) || (!old(
                    self,
                ).has_listing(asset) && !old(self).token_accounts@.contains_key(
                    token_key(owner, asset),
                )))) || (e == NftMarketplaceError::TransferFailed && owner_signed && !old(
                    self,
                ).has_listing(asset) && old(self).token_accounts@.contains_key(
                    token_key(owner, asset),
                ) && old(self).token_accounts@[token_key(owner, asset)] == 0)),
            }),
    {
        if !owner_signed {
            return Err(NftMarketplaceError::OwnershipMismatch);
        }
        let existing: Option<ListingRecord> = match self.listings.get(&asset) {
            Some(l) => Some(*l),
            None => None,
        };
        match existing {
            Some(l) => {
                if l.owner != owner {
                    return Err(NftMarketplaceError::OwnershipMismatch);
                }
                let ghost pre = *self;
                self.listings.insert(asset, ListingRecord { owner, price });
                let marketplace = self.program_id.clone();
                self.events.push(
                    MarketEvent::Listed(NftListedEvent { nft: asset, owner, marketplace, price }),
                );
                proof {
                    assert(self.events@.drop_last() =~= pre.events@);
                    assert forall|a: u64| #[trigger]
                        self.listings@.contains_key(a) implies self.assets@.contains_key(a)
                        && self.custody_amount(a) == 1 by {
                        if a != asset {
                            assert(pre.listings@.contains_key(a));
                        }
                    }
                }
                Ok(())
            },
            None => {
                let key = make_token_key(owner, asset);
                let amount = match self.token_accounts.get(&key) {
                    Some(v) => *v,
                    None => {
                        return Err(NftMarketplaceError::OwnershipMismatch);
                    },
                };
                if amount == 0 {
                    return Err(NftMarketplaceError::TransferFailed);
                }
                let ghost pre = *self;
                proof {
                    lemma_token_key_parts(owner, asset);
                    assert(pre.token_accounts@[key] == 1);
                }
                self.token_accounts.insert(key, 0);
                let authority = self.custody_authority.address.clone();
                self.custody.insert(asset, CustodyAccount { amount: 1, authority });
                self.listings.insert(asset, ListingRecord { owner, price });
                let marketplace = self.program_id.clone();
                self.events.push(
                    MarketEvent::Listed(NftListedEvent { nft: asset, owner, marketplace, price }),
                );
                proof {
                    assert(self.custody@.remove(asset) =~= pre.custody@.remove(asset));
                    Self::lemma_list_fresh_preserves_inv(pre, *self, owner, asset, price);
                    assert(self.events@.drop_last() =~= pre.events@);
                }
                Ok(())
            },
        }
    }

    /// The event is a sale event with the given content.
    pub open spec fn is_sold_event(
        e: MarketEvent,
        asset: u64,
        seller: u64,
        buyer: u64,
        marketplace: Seq<u8>,
    ) -> bool {
        &&& e matches MarketEvent::Sold(ev)
        &&& ev.mint == asset
        &&& ev.seller == seller
        &&& ev.buyer == buyer
        &&& ev.marketplace@ == marketplace
    }

    /// The exact state transition of a completed sale: the listing price
    /// moves from the buyer's balance to the seller's, the asset's single
    /// unit moves from custody into the buyer's account (created if it
    /// did not yet exist), the listing record is destroyed, everything
    /// else is untouched, and the sale event is appended.
    pub open spec fn bought_ok(pre: MarketState, post: MarketState, buyer: u64, asset: u64) -> bool {
        let owner = pre.listings@[asset].owner;
        let price = pre.listings@[asset].price;
        &&& post.assets@ == pre.assets@
        &&& post.listings@ == pre.listings@.remove(asset)
        &&& post.token_accounts@ == pre.token_accounts@.insert(token_key(buyer, asset), 1u64)
        &&& post.custody@.contains_key(asset)
        &&& post.custody@[asset].amount == 0
        &&& post.custody@[asset].authority@ == pre.custody@[asset].authority@
        &&& post.custody@.remove(asset) == pre.custody@.remove(asset)
        &&& forall|a: u64| #[trigger] post.balance_of(a) == pre.balance_of(a) + (
            if a == owner { price as int } else { 0 }
        ) - (if a == buyer { price as int } else { 0 })
        &&& post.program_id == pre.program_id
        &&& post.custody_authority == pre.custody_authority
        &&& Self::events_appended(pre, post)
        &&& Self::is_sold_event(post.events@.last(), asset, owner, buyer, pre.program_id@)
    }

    /// Execute the sale of `asset` to `buyer` at the listed price: verify
    /// funds, pay the seller, release the asset from custody to the
    /// buyer under the custody authority, and destroy the listing.
    /// `buyer_signed` is the execution environment's verdict on whether
    /// `buyer` signed the transition.
    ///
    /// Fails with `AuthorityMismatch` when the buyer did not sign, with
    /// `ListingNotFound` when no listing record exists, with
    /// `InsufficientFunds` when the buyer's balance is below the price
    /// (checked before any transfer), with `CustodyAuthorityMismatch`
    /// when the account holding the asset is not controlled by the
    /// derived custody authority, and with `TransferFailed` when paying
    /// the seller would overflow the seller's balance. A failed sale
    /// changes nothing.
    pub fn buy_nft(
        &mut self,
        buyer: u64,
        asset: u64,
        buyer_signed: bool,
    ) -> (r: Result<(), NftMarketplaceError>)
        requires
            old(self).inv(),
        ensures
            final(self).inv(),
            r is Ok <==> (buyer_signed && old(self).has_listing(asset) && old(self).balance_of(
                buyer,
            ) >= old(self).listings@[asset].price && old(self).custody@[asset].authority@ == old(
                self,
            ).custody_authority.address@ && (buyer == old(self).listings@[asset].owner || old(
                self,
            ).balance_of(old(self).listings@[asset].owner) + old(self).listings@[asset].price
                <= u64::MAX)),
            (match r {
                Ok(()) => Self::bought_ok(*old(self), *final(self), buyer, asset),
                Err(e) => *final(self) == *old(self) && ((e
                    == NftMarketplaceError::AuthorityMismatch && !buyer_signed) || (e
                    == NftMarketplaceError::ListingNotFound && buyer_signed && !old(
                    self,
                ).has_listing(asset)) || (e == NftMarketplaceError::InsufficientFunds
                    && buyer_signed && old(self).has_listing(asset) && old(self).balance_of(buyer)
                    < old(self).listings@[asset].price) || (e
                    == NftMarketplaceError::CustodyAuthorityMismatch && buyer_signed && old(
                    self,
                ).has_listing(asset) && old(self).balance_of(buyer) >= old(
                    self,
                ).listings@[asset].price && old(self).custody@[asset].authority@ != old(
                    self,
                ).custody_authority.address@) || (e == NftMarketplaceError::TransferFailed
                    && buyer_signed && old(self).has_listing(asset) && old(self).balance_of(buyer)
                    >= old(self).listings@[asset].price && old(self).custody@[asset].authority@
                    == old(self).custody_authority.address@ && buyer != old(
                    self,
                ).listings@[asset].owner && old(self).balance_of(old(self).listings@[asset].owner)
                    + old(self).listings@[asset].price > u64::MAX)),
            }),
    {
        if !buyer_signed {
            return Err(NftMarketplaceError::AuthorityMismatch);
        }
        let listing = match self.listings.get(&asset) {
            Some(l) => *l,
            None => {
                return Err(NftMarketplaceError::ListingNotFound);
            },
        };
        let owner = listing.owner;
        let price = listing.price;
        let buyer_balance = match self.balances.get(&buyer) {
            Some(b) => *b,
            None => 0,
        };
        if buyer_balance < price {
            return Err(NftMarketplaceError::InsufficientFunds);
        }
        proof {
            assert(self.custody@.contains_key(asset) && self.custody@[asset].amount == 1);
        }
        let authority_ok = match self.custody.get(&asset) {
            Some(acc) => bytes_eq(&acc.authority, &self.custody_authority.address),
            None => vstd::pervasive::unreached(),
        };
        if !authority_ok {
            return Err(NftMarketplaceError::CustodyAuthorityMismatch);
        }
        let ghost pre = *self;
        if buyer != owner {
            let seller_balance = match self.balances.get(&owner) {
                Some(b) => *b,
                None => 0,
            };
            let new_seller_balance = match seller_balance.checked_add(price) {
                Some(v) => v,
                None => {
                    return Err(NftMarketplaceError::TransferFailed);
                },
            };
            self.balances.insert(buyer, buyer_balance - price);
            self.balances.insert(owner, new_seller_balance);
        }
        let released = self.custody_authority.address.clone();
        self.custody.insert(asset, CustodyAccount { amount: 0, authority: released });
        let key = make_token_key(buyer, asset);
        self.token_accounts.insert(key, 1);
        self.listings.remove(&asset);
        let marketplace = self.program_id.clone();
        self.events.push(
            MarketEvent::Sold(NFTSoldEvent { mint: asset, seller: owner, buyer, marketplace }),
        );
        proof {
            assert(self.custody@.remove(asset) =~= pre.custody@.remove(asset));
            Self::lemma_buy_preserves_inv(pre, *self, buyer, asset);
            assert(self.events@.drop_last() =~= pre.events@);
        }
        Ok(())
    }

    /// A sale transition out of a well-formed state keeps the state
    /// well-formed.
    proof fn lemma_buy_preserves_inv(pre: MarketState, post: MarketState, buyer: u64, asset: u64)
        requires
            pre.inv(),
            pre.listings@.contains_key(asset),
            post.assets@ == pre.assets@,
            post.listings@ == pre.listings@.remove(asset),
            post.token_accounts@ == pre.token_accounts@.insert(token_key(buyer, asset), 1u64),
            post.custody@.contains_key(asset),
            post.custody@[asset].amount == 0,
            post.custody@.remove(asset) == pre.custody@.remove(asset),
        ensures
            post.inv(),
    {
        let key = token_key(buyer, asset);
        lemma_token_key_parts(buyer, asset);
        assert(pre.assets@.contains_key(asset));
        assert(pre.custody@.contains_key(asset) && pre.custody@[asset].amount == 1);
        // other custody entries are unchanged
        assert forall|a: u64| a != asset && #[trigger] post.custody@.contains_key(a) implies
            pre.custody@.contains_key(a) && post.custody@[a] == pre.custody@[a] by {
            assert(post.custody@.remove(asset).contains_key(a));
            assert(pre.custody@.remove(asset).contains_key(a));
            assert(post.custody@.remove(asset)[a] == post.custody@[a]);
            assert(pre.custody@.remove(asset)[a] == pre.custody@[a]);
        }
        assert forall|a: u64| a != asset && #[trigger] pre.custody@.contains_key(a) implies
            post.custody@.contains_key(a) by {
            assert(pre.custody@.remove(asset).contains_key(a));
            assert(post.custody@.remove(asset).contains_key(a));
        }
        // the released unit now sits only in the buyer's account
        assert forall|k1: u128, k2: u128|
            #![trigger post.token_accounts@[k1], post.token_accounts@[k2]]
            post.token_accounts@.contains_key(k1) && post.token_accounts@.contains_key(k2)
                && key_asset(k1) == key_asset(k2) && post.token_accounts@[k1] == 1
                && post.token_accounts@[k2] == 1 implies k1 == k2 by {
            if k1 != key && k2 != key {
                assert(pre.token_accounts@.contains_key(k1)
                    && pre.token_accounts@.contains_key(k2));
            } else if k1 == key && k2 != key {
                assert(pre.token_accounts@.contains_key(k2) && key_asset(k2) == asset);
                assert(pre.token_accounts@[k2] == 0);
            } else if k1 != key && k2 == key {
                assert(pre.token_accounts@.contains_key(k1) && key_asset(k1) == asset);
                assert(pre.token_accounts@[k1] == 0);
            }
        }
        // while a unit is in custody no token account holds it
        assert forall|a: u64, k: u128|
            #![trigger post.custody@[a], post.token_accounts@[k]]
            post.custody@.contains_key(a) && post.custody@[a].amount == 1
                && post.token_accounts@.contains_key(k) && key_asset(k) == a implies
            post.token_accounts@[k] == 0 by {
            if a != asset {
                assert(pre.custody@.contains_key(a) && pre.custody@[a] == post.custody@[a]);
                if k != key {
                    assert(pre.token_accounts@.contains_key(k));
                } else {
                    assert(key_asset(k) == asset);
                }
            }
        }
        // every issued asset still has its unit somewhere
        assert forall|a: u64| #[trigger] post.assets@.contains_key(a) implies
            post.custody_amount(a) == 1 || exists|k: u128|
                #[trigger] post.token_accounts@.contains_key(k) && key_asset(k) == a
                    && post.token_accounts@[k] == 1 by {
            if a == asset {
                assert(post.token_accounts@.contains_key(key) && key_asset(key) == a
                    && post.token_accounts@[key] == 1);
            } else if pre.custody_amount(a) == 1 {
                assert(pre.custody@.contains_key(a) && post.custody@[a] == pre.custody@[a]);
                assert(post.custody_amount(a) == 1);
            } else {
                let w = choose|k: u128|
                    #[trigger] pre.token_accounts@.contains_key(k) && key_asset(k) == a
                        && pre.token_accounts@[k] == 1;
                assert(w != key);
                assert(post.token_accounts@.contains_key(w) && key_asset(w) == a
                    && post.token_accounts@[w] == 1);
            }
        }
    }

    /// A fresh listing transition out of a well-formed state keeps the
    /// state well-formed.
    proof fn lemma_list_fresh_preserves_inv(
        pre: MarketState,
        post: MarketState,
        owner: u64,
        asset: u64,
        price: u64,
    )
        requires
            pre.inv(),
            !pre.has_listing(asset),
            pre.token_accounts@.contains_key(token_key(owner, asset)),
            pre.token_accounts@[token_key(owner, asset)] == 1,
            post.assets@ == pre.assets@,
            post.listings@ == pre.listings@.insert(asset, ListingRecord { owner, price }),
            post.token_accounts@ == pre.token_accounts@.insert(token_key(owner, asset), 0u64),
            post.custody@.contains_key(asset),
            post.custody@[asset].amount == 1,
            post.custody@.remove(asset) == pre.custody@.remove(asset),
        ensures
            post.inv(),
    {
        let key = token_key(owner, asset);
        lemma_token_key_parts(owner, asset);
        assert(pre.assets@.contains_key(asset));
        // other custody entries are unchanged
        assert forall|a: u64| a != asset && #[trigger] post.custody@.contains_key(a) implies
            pre.custody@.contains_key(a) && post.custody@[a] == pre.custody@[a] by {
            assert(post.custody@.remove(asset).contains_key(a));
            assert(pre.custody@.remove(asset).contains_key(a));
            assert(post.custody@.remove(asset)[a] == post.custody@[a]);
            assert(pre.custody@.remove(asset)[a] == pre.custody@[a]);
        }
        assert forall|a: u64| a != asset && #[trigger] pre.custody@.contains_key(a) implies
            post.custody@.contains_key(a) by {
            assert(pre.custody@.remove(asset).contains_key(a));
            assert(post.custody@.remove(asset).contains_key(a));
        }
        // the listed asset's unit now sits in custody and nowhere else
        assert forall|a: u64, k: u128|
            #![trigger post.custody@[a], post.token_accounts@[k]]
            post.custody@.contains_key(a) && post.custody@[a].amount == 1
                && post.token_accounts@.contains_key(k) && key_asset(k) == a implies
            post.token_accounts@[k] == 0 by {
            if a == asset {
                if k != key {
                    assert(pre.token_accounts@.contains_key(k));
                    // two accounts for the same asset cannot both hold a unit
                    assert(pre.token_accounts@[k] <= 1);
                    if pre.token_accounts@[k] == 1 {
                        assert(pre.token_accounts@[key] == 1 && pre.token_accounts@[k] == 1
                            && key_asset(key) == key_asset(k));
                        assert(k == key);
                    }
                }
            } else {
                assert(pre.custody@.contains_key(a) && pre.custody@[a] == post.custody@[a]);
                if k == key {
                    assert(key_asset(k) == asset);
                } else {
                    assert(pre.token_accounts@.contains_key(k));
                }
            }
        }
        // every issued asset still has its unit somewhere
        assert forall|a: u64| #[trigger] post.assets@.contains_key(a) implies
            post.custody_amount(a) == 1 || exists|k: u128|
                #[trigger] post.token_accounts@.contains_key(k) && key_asset(k) == a
                    && post.token_accounts@[k] == 1 by {
            if a == asset {
                assert(post.custody_amount(a) == 1);
            } else if pre.custody_amount(a) == 1 {
                assert(pre.custody@.contains_key(a) && post.custody@[a] == pre.custody@[a]);
                assert(post.custody_amount(a) == 1);
            } else {
                let w = choose|k: u128|
                    #[trigger] pre.token_accounts@.contains_key(k) && key_asset(k) == a
                        && pre.token_accounts@[k] == 1;
                assert(w != key);
                assert(post.token_accounts@.contains_key(w) && key_asset(w) == a
                    && post.token_accounts@[w] == 1);
            }
        }
    }

    /// The spendable balance of `account`.
    pub fn balance(&self, account: u64) -> (r: u64)
        ensures
            r == self.balance_of(account),
    {
        match self.balances.get(&account) {
            Some(b) => *b,
            None => 0,
        }
    }

    /// Units of `asset` held by `owner`.
    pub fn holding(&self, owner: u64, asset: u64) -> (r: u64)
        ensures
            r == self.holding_of(owner, asset),
    {
        let key = make_token_key(owner, asset);
        match self.token_accounts.get(&key) {
            Some(v) => *v,
            None => 0,
        }
    }

    /// Units of `asset` held in its custody account.
    pub fn custody_balance(&self, asset: u64) -> (r: u64)
        ensures
            r == self.custody_amount(asset),
    {
        match self.custody.get(&asset) {
            Some(c) => c.amount,
            None => 0,
        }
    }

    /// The listing record of `asset`, if one exists.
    pub fn listing_of(&self, asset: u64) -> (r: Option<ListingRecord>)
        ensures
            (match r {
                Some(l) => self.has_listing(asset) && l == self.listings@[asset],
                None => !self.has_listing(asset),
            }),
    {
        match self.listings.get(&asset) {
            Some(l) => Some(*l),
            None => None,
        }
    }

    /// Whether `asset` has been issued.
    pub fn asset_exists(&self, asset: u64) -> (r: bool)
        ensures
            r == self.has_asset(asset),
    {
        self.assets.contains_key(&asset)
    }

    /// Whether metadata has been attached to `asset`.
    pub fn metadata_attached(&self, asset: u64) -> (r: bool)
        ensures
            r == (self.has_asset(asset) && self.assets@[asset].metadata is Some),
    {
        match self.assets.get(&asset) {
            Some(rec) => rec.metadata.is_some(),
            None => false,
        }
    }

    /// Credit `amount` of base currency to `account`: the environment's
    /// funding action, outside the marketplace's own transitions (no
    /// event is emitted). Fails with `TransferFailed` when the balance
    /// would overflow; a failed credit changes nothing.
    pub fn credit(&mut self, account: u64, amount: u64) -> (r: Result<(), NftMarketplaceError>)
        requires
            old(self).inv(),
        ensures
            final(self).inv(),
            r is Ok <==> old(self).balance_of(account) + amount <= u64::MAX,
            (match r {
                Ok(()) => {
                    &&& forall|a: u64| #[trigger] final(self).balance_of(a) == old(
                        self,
                    ).balance_of(a) + (if a == account { amount as int } else { 0 })
                    &&& final(self).assets@ == old(self).assets@
                    &&& final(self).listings@ == old(self).listings@
                    &&& final(self).custody@ == old(self).custody@
                    &&& final(self).token_accounts@ == old(self).token_accounts@
                    &&& final(self).program_id == old(self).program_id
                    &&& final(self).custody_authority == old(self).custody_authority
                    &&& final(self).events@ == old(self).events@
                },
                Err(e) => *final(self) == *old(self) && e == NftMarketplaceError::TransferFailed,
            }),
    {
        let current = match self.balances.get(&account) {
            Some(b) => *b,
            None => 0,
        };
        match current.checked_add(amount) {
            Some(v) => {
                self.balances.insert(account, v);
                proof {
                    assert forall|a: u64| #[trigger]
                        self.assets@.contains_key(a) implies self.custody_amount(a) == 1
                        || exists|k: u128|
                        #[trigger] self.token_accounts@.contains_key(k) && key_asset(k) == a
                            && self.token_accounts@[k] == 1 by {
                        if old(self).custody_amount(a) != 1 {
                            let w = choose|k: u128|
                                #[trigger] old(self).token_accounts@.contains_key(k) && key_asset(
                                    k,
                                ) == a && old(self).token_accounts@[k] == 1;
                            assert(self.token_accounts@.contains_key(w) && key_asset(w) == a
                                && self.token_accounts@[w] == 1);
                        }
                    }
                }
                Ok(())
            },
            None => Err(NftMarketplaceError::TransferFailed),
        }
    }
}

/// Law: at any well-formed state, the custody account of an asset holds
/// exactly one unit if and only if a listing record for the asset exists.
pub proof fn lemma_custody_iff_listed(s: MarketState, asset: u64)
    requires
        s.inv(),
    ensures
        s.custody_amount(asset) == 1 <==> s.has_listing(asset),
{
}

/// Law: the single unit of an asset never has two holders — supply can
/// never exceed one.
pub proof fn lemma_unit_holder_unique(s: MarketState, asset: u64, o1: u64, o2: u64)
    requires
        s.inv(),
        s.holding_of(o1, asset) == 1,
        s.holding_of(o2, asset) == 1,
    ensures
        o1 == o2,
{
    lemma_token_key_parts(o1, asset);
    lemma_token_key_parts(o2, asset);
    assert(token_key(o1, asset) == token_key(o2, asset));
}

/// Law: while an asset's unit is held in custody, no participant holds
/// it.
pub proof fn lemma_custody_excludes_holders(s: MarketState, asset: u64, owner: u64)
    requires
        s.inv(),
        s.custody_amount(asset) == 1,
    ensures
        s.holding_of(owner, asset) == 0,
{
    lemma_token_key_parts(owner, asset);
}

/// Law: the single unit of an issued asset always exists, either in
/// custody or in exactly one participant's account — together with
/// [`lemma_unit_holder_unique`] and [`lemma_custody_excludes_holders`],
/// supply is exactly one at any well-formed state.
pub proof fn lemma_unit_exists(s: MarketState, asset: u64)
    requires
        s.inv(),
        s.has_asset(asset),
    ensures
        s.custody_amount(asset) == 1 || exists|o: u64| s.holding_of(o, asset) == 1,
{
    if s.custody_amount(asset) != 1 {
        let k = choose|k: u128|
            #[trigger] s.token_accounts@.contains_key(k) && key_asset(k) == asset
                && s.token_accounts@[k] == 1;
        lemma_token_key_roundtrip(k);
        assert(s.holding_of(key_owner(k), asset) == 1);
    }
}

/// Law: after a successful issuance the asset identifier exists, so a
/// second issuance of the same identifier is rejected as
/// `AlreadyInitialized` and leaves the state unchanged (the rejection
/// itself is the contract of [`MarketState::mint`]).
pub proof fn lemma_issued_asset_exists(
    pre: MarketState,
    post: MarketState,
    asset: u64,
    authority: u64,
)
    requires
        MarketState::minted_ok(pre, post, asset, authority),
    ensures
        post.has_asset(asset),
{
}

/// Law: listing at one price and then re-listing at another before any
/// sale leaves exactly one listing record, carrying the second price,
/// and moves the asset into custody only once — the custody balance
/// stays at one throughout and no token account changes in the second
/// listing.
pub proof fn lemma_relisting_updates_price(
    s0: MarketState,
    s1: MarketState,
    s2: MarketState,
    owner: u64,
    asset: u64,
    first_price: u64,
    second_price: u64,
)
    requires
        MarketState::listed_ok(s0, s1, owner, asset, first_price),
        MarketState::relisted_ok(s1, s2, owner, asset, second_price),
    ensures
        s1.has_listing(asset),
        s1.listings@[asset] == (ListingRecord { owner, price: first_price }),
        s2.has_listing(asset),
        s2.listings@[asset] == (ListingRecord { owner, price: second_price }),
        s1.custody_amount(asset) == 1,
        s2.custody_amount(asset) == 1,
        s2.token_accounts@ == s1.token_accounts@,
{
}

/// Law: a completed sale destroys the listing record and hands the unit
/// to the buyer, so any later purchase attempt for the same listing
/// observes `ListingNotFound` and deducts nothing (the rejection itself
/// is the contract of [`MarketState::buy_nft`]).
pub proof fn lemma_sale_consumes_listing(
    pre: MarketState,
    post: MarketState,
    buyer: u64,
    asset: u64,
)
    requires
        MarketState::bought_ok(pre, post, buyer, asset),
    ensures
        !post.has_listing(asset),
        post.holding_of(buyer, asset) == 1,
{
    lemma_token_key_parts(buyer, asset);
}

} // verus!
