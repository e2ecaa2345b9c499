//! The read-side mirror of asset state.
//!
//! External readers never inspect the market directly: they consume the
//! event log and keep a flat table of records, one per asset, which the
//! query endpoints serve. [`NftTable`] is that mirror. On a listing event
//! the mirrored record is marked listed with the given price; on a sale
//! the record is marked unlisted, its owner becomes the buyer and its
//! price is reset to zero. The mirror's correctness never feeds back into
//! the market: it is a pure projection of the events.

use vstd::prelude::*;

use crate::errors::NftMarketplaceError;
use crate::market::MarketEvent;

verus! {

broadcast use Seq::lemma_filter_push;

/// One mirrored asset record: the row the query endpoints serve. The
/// price is denominated in base currency units.
#[derive(Clone, Copy, Debug, PartialEq, Eq, Structural)]
pub struct Nft {
    /// The asset identifier.
    pub mint_address: u64,
    /// The current owner (the buyer after a sale).
    pub owner_address: u64,
    /// The listing price; zero while unlisted.
    pub price: u64,
    /// Whether the asset is currently listed for sale.
    pub listed: bool,
}

/// Whether some record for `mint` exists in `s`.
pub open spec fn contains_mint(s: Seq<Nft>, mint: u64) -> bool {
    exists|i: int| 0 <= i < s.len() && s[i].mint_address == mint
}

/// The mirror table: a flat sequence of records, at most one per asset.
pub struct NftTable {
    /// The mirrored records.
    pub records: Vec<Nft>,
}

impl NftTable {
    /// At most one record exists per asset identifier.
    pub open spec fn wf(self) -> bool {
        forall|i: int, j: int|
            #![trigger self.records@[i], self.records@[j]]
            0 <= i < self.records@.len() && 0 <= j < self.records@.len()
                && self.records@[i].mint_address == self.records@[j].mint_address ==> i == j
    }

    /// An empty mirror.
    pub fn new() -> (r: NftTable)
        ensures
            r.wf(),
            r.records@ == Seq::<Nft>::empty(),
    {
        NftTable { records: Vec::new() }
    }

    /// The index of the record for `mint`, if one exists.
    fn find_index(&self, mint: u64) -> (r: Option<usize>)
        ensures
            (match r {
                Some(i) => i < self.records@.len() && self.records@[i as int].mint_address
                    == mint,
                None => !contains_mint(self.records@, mint),
            }),
    {
        let mut i: usize = 0;
        while i < self.records.len()
            invariant
                i <= self.records@.len(),
                forall|j: int| 0 <= j < i ==> self.records@[j].mint_address != mint,
            decreases self.records@.len() - i,
        {
            if self.records[i].mint_address == mint {
                return Some(i);
            }
            i += 1;
        }
        None
    }

    /// Insert the mirrored record of a freshly issued asset. Whatever the
    /// request carried, a new record starts unlisted with price zero.
    ///
    /// Fails with `AlreadyInitialized` when a record for the asset
    /// already exists; a failed insert changes nothing.
    pub fn create_nft(&mut self, nft: Nft) -> (r: Result<(), NftMarketplaceError>)
        requires
            old(self).wf(),
        ensures
            final(self).wf(),
            r is Ok <==> !contains_mint(old(self).records@, nft.mint_address),
            (match r {
                Ok(()) => final(self).records@ == old(self).records@.push(
                    Nft {
                        mint_address: nft.mint_address,
                        owner_address: nft.owner_address,
                        price: 0,
                        listed: false,
                    },
                ),
                Err(e) => *final(self) == *old(self) && e
                    == NftMarketplaceError::AlreadyInitialized,
            }),
    {
        match self.find_index(nft.mint_address) {
            Some(_) => Err(NftMarketplaceError::AlreadyInitialized),
            None => {
                self.records.push(
                    Nft {
                        mint_address: nft.mint_address,
                        owner_address: nft.owner_address,
                        price: 0,
                        listed: false,
                    },
                );
                Ok(())
            },
        }
    }

    /// Rewrite the record of an asset after an ownership change: the new
    /// owner is recorded and the record is reset to unlisted with price
    /// zero. A missing record is left alone (the update touches no row).
    pub fn update_nft(&mut self, nft: Nft)
        requires
            old(self).wf(),
        ensures
            final(self).wf(),
            !contains_mint(old(self).records@, nft.mint_address) ==> *final(self) == *old(self),
            contains_mint(old(self).records@, nft.mint_address) ==> exists|i: int|
                0 <= i < old(self).records@.len() && old(self).records@[i].mint_address
                    == nft.mint_address && final(self).records@ == old(self).records@.update(
                    i,
                    Nft {
                        mint_address: nft.mint_address,
                        owner_address: nft.owner_address,
                        price: 0,
                        listed: false,
                    },
                ),
    {
        match self.find_index(nft.mint_address) {
            Some(i) => {
                self.records.set(
                    i,
                    Nft {
                        mint_address: nft.mint_address,
                        owner_address: nft.owner_address,
                        price: 0,
                        listed: false,
                    },
                );
            },
            None => {},
        }
    }

    /// Mark the record of an asset listed, with the given owner and
    /// price. A missing record is left alone (the update touches no row).
    pub fn list_nft(&mut self, nft: Nft)
        requires
            old(self).wf(),
        ensures
            final(self).wf(),
            !contains_mint(old(self).records@, nft.mint_address) ==> *final(self) == *old(self),
            contains_mint(old(self).records@, nft.mint_address) ==> exists|i: int|
                0 <= i < old(self).records@.len() && old(self).records@[i].mint_address
                    == nft.mint_address && final(self).records@ == old(self).records@.update(
                    i,
                    Nft {
                        mint_address: nft.mint_address,
                        owner_address: nft.owner_address,
                        price: nft.price,
                        listed: true,
                    },
                ),
    {
        match self.find_index(nft.mint_address) {
            Some(i) => {
                self.records.set(
                    i,
                    Nft {
                        mint_address: nft.mint_address,
                        owner_address: nft.owner_address,
                        price: nft.price,
                        listed: true,
                    },
                );
            },
            None => {},
        }
    }

    /// The record for `mint`, if one exists.
    pub fn get_nft(&self, mint: u64) -> (r: Option<Nft>)
        ensures
            (match r {
                Some(n) => n.mint_address == mint && exists|i: int|
                    0 <= i < self.records@.len() && self.records@[i] == n,
                None => !contains_mint(self.records@, mint),
            }),
    {
        match self.find_index(mint) {
            Some(i) => Some(self.records[i]),
            None => None,
        }
    }

    /// All mirrored records.
    pub fn get_nfts(&self) -> (r: Vec<Nft>)
        ensures
            r@ == self.records@,
    {
        let mut r: Vec<Nft> = Vec::new();
        let mut i: usize = 0;
        while i < self.records.len()
            invariant
                i <= self.records@.len(),
                r@ == self.records@.take(i as int),
            decreases self.records@.len() - i,
        {
            r.push(self.records[i]);
            proof {
                assert(r@ =~= self.records@.take(i + 1));
            }
            i += 1;
        }
        proof {
            assert(self.records@.take(self.records@.len() as int) =~= self.records@);
        }
        r
    }

    /// The records owned by `owner_address`.
    pub fn get_nfts_for_user(&self, owner_address: u64) -> (r: Vec<Nft>)
        ensures
            r@ == self.records@.filter(|n: Nft| n.owner_address == owner_address),
    {
        let mut r: Vec<Nft> = Vec::new();
        let mut i: usize = 0;
        while i < self.records.len()
            invariant
                i <= self.records@.len(),
                r@ == self.records@.take(i as int).filter(
                    |n: Nft| n.owner_address == owner_address,
                ),
            decreases self.records@.len() - i,
        {
            let n = self.records[i];
            if n.owner_address == owner_address {
                r.push(n);
            }
            proof {
                assert(self.records@.take(i + 1) =~= self.records@.take(i as int).push(
                    self.records@[i as int],
                ));
            }
            i += 1;
        }
        proof {
            assert(self.records@.take(self.records@.len() as int) =~= self.records@);
        }
        r
    }

    /// The records currently listed for sale.
    pub fn get_listed_nfts(&self) -> (r: Vec<Nft>)
        ensures
            r@ == self.records@.filter(|n: Nft| n.listed),
    {
        let mut r: Vec<Nft> = Vec::new();
        let mut i: usize = 0;
        while i < self.records.len()
            invariant
                i <= self.records@.len(),
                r@ == self.records@.take(i as int).filter(|n: Nft| n.listed),
            decreases self.records@.len() - i,
        {
            let n = self.records[i];
            if n.listed {
                r.push(n);
            }
            proof {
                assert(self.records@.take(i + 1) =~= self.records@.take(i as int).push(
                    self.records@[i as int],
                ));
            }
            i += 1;
        }
        proof {
            assert(self.records@.take(self.records@.len() as int) =~= self.records@);
        }
        r
    }

    /// Consume one market event: insert the mirrored record on an
    /// issuance, mark it listed with the event's price on a listing, and
    /// on a sale mark it unlisted with the buyer as owner and price
    /// reset to zero. Metadata events leave the mirror unchanged, as
    /// does an event for an asset the mirror never saw issued.
    pub fn apply_event(&mut self, event: &MarketEvent)
        requires
            old(self).wf(),
        ensures
            final(self).wf(),
            (match *event {
                MarketEvent::Minted(ev) => if contains_mint(old(self).records@, ev.mint) {
                    *final(self) == *old(self)
                } else {
                    final(self).records@ == old(self).records@.push(
                        Nft {
                            mint_address: ev.mint,
                            owner_address: ev.owner,
                            price: 0,
                            listed: false,
                        },
                    )
                },
                MarketEvent::MetadataCreated(_) => *final(self) == *old(self),
                MarketEvent::Listed(ev) => if contains_mint(old(self).records@, ev.nft) {
                    exists|i: int|
                        0 <= i < old(self).records@.len() && old(self).records@[i].mint_address
                            == ev.nft && final(self).records@ == old(self).records@.update(
                            i,
                            Nft {
                                mint_address: ev.nft,
                                owner_address: ev.owner,
                                price: ev.price,
                                listed: true,
                            },
                        )
                } else {
                    *final(self) == *old(self)
                },
                MarketEvent::Sold(ev) => if contains_mint(old(self).records@, ev.mint) {
                    exists|i: int|
                        0 <= i < old(self).records@.len() && old(self).records@[i].mint_address
                            == ev.mint && final(self).records@ == old(self).records@.update(
                            i,
                            Nft {
                                mint_address: ev.mint,
                                owner_address: ev.buyer,
                                price: 0,
                                listed: false,
                            },
                        )
                } else {
                    *final(self) == *old(self)
                },
            }),
    {
        match event {
            MarketEvent::Minted(ev) => {
                let _ = self.create_nft(
                    Nft {
                        mint_address: ev.mint,
                        owner_address: ev.owner,
                        price: 0,
                        listed: false,
                    },
                );
            },
            MarketEvent::MetadataCreated(_) => {},
            MarketEvent::Listed(ev) => {
                self.list_nft(
                    Nft {
                        mint_address: ev.nft,
                        owner_address: ev.owner,
                        price: ev.price,
                        listed: true,
                    },
                );
            },
            MarketEvent::Sold(ev) => {
                self.update_nft(
                    Nft {
                        mint_address: ev.mint,
                        owner_address: ev.buyer,
                        price: 0,
                        listed: false,
                    },
                );
            },
        }
    }
}

} // verus!
