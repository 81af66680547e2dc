//! The deal service: the validated, invariant-preserving facade over the
//! deal store, and the only way to read or mutate it.

use vstd::prelude::*;

use crate::deal::{valid_terms, spec_new_deal, MurabahaDeal};
use crate::store::{deal_at, deal_exists, next_deal_id, DealStore};

verus! {

/// A typed failure of a service operation.
///
/// The underlying store is in-memory state owned by this module and cannot
/// fail on its own; the host environment is assumed to complete each call
/// atomically or abort it entirely, so no persistence failure surfaces here.
#[derive(Clone, Copy, PartialEq, Eq, Structural, Debug)]
pub enum Error {
    /// Creation was asked for a non-positive price or a negative profit.
    InvalidTerms,
    /// The given identifier was never produced by a creation.
    NotFound,
}

/// Every stored record is well-formed: valid terms, and a total debt that is
/// exactly price plus markup.
pub open spec fn all_wf(deals: Seq<MurabahaDeal>) -> bool {
    forall|i: int| 0 <= i < deals.len() ==> (#[trigger] deals[i]).wf()
}

/// The stored record under `id` with its settlement flag raised, everything
/// else unchanged.
pub open spec fn mark_paid_at(deals: Seq<MurabahaDeal>, id: u64) -> Seq<MurabahaDeal> {
    deals.update(
        id - 1,
        (MurabahaDeal { is_paid: true, ..deals[id - 1] }),
    )
}

/// The identifiers of the deals held by `client`, in ascending order.
pub open spec fn client_ids(deals: Seq<MurabahaDeal>, client: u64) -> Seq<u64>
    decreases deals.len(),
{
    if deals.len() == 0 {
        Seq::empty()
    } else if deals.last().client == client {
        client_ids(deals.drop_last(), client).push(deals.len() as u64)
    } else {
        client_ids(deals.drop_last(), client)
    }
}

/// The deal ledger: deal records keyed by store-allocated identifiers,
/// exposed through four validated operations.
pub struct MurabahaContract {
    store: DealStore,
}

impl View for MurabahaContract {
    type V = Seq<MurabahaDeal>;

    closed spec fn view(&self) -> Seq<MurabahaDeal> {
        self.store@
    }
}

impl MurabahaContract {
    /// Every record this ledger holds is well-formed.
    pub open spec fn wf(&self) -> bool {
        all_wf(self@)
    }

    /// An empty ledger with no deals recorded.
    pub fn new() -> (c: MurabahaContract)
        ensures
            c@ == Seq::<MurabahaDeal>::empty(),
            c.wf(),
    {
        MurabahaContract { store: DealStore::new() }
    }

    /// Records a new deal for `client` with the given terms and returns its
    /// fresh identifier, or fails with `InvalidTerms` — and records nothing —
    /// when the price is not positive or the profit is negative.
    pub fn create_deal(&mut self, client: u64, price: i128, profit: i128) -> (r: Result<
        u64,
        Error,
    >)
        requires
            old(self).wf(),
            old(self)@.len() < u64::MAX,
            valid_terms(price, profit) ==> price + profit <= i128::MAX,
        ensures
            final(self).wf(),
            valid_terms(price, profit) ==> {
                &&& r == Ok::<u64, Error>(next_deal_id(old(self)@) as u64)
                &&& final(self)@ == old(self)@.push(spec_new_deal(client, price, profit))
            },
            !valid_terms(price, profit) ==> {
                &&& r == Err::<u64, Error>(Error::InvalidTerms)
                &&& final(self)@ == old(self)@
            },
    {
        if price <= 0 || profit < 0 {
            return Err(Error::InvalidTerms);
        }
        let total = price + profit;
        let deal = MurabahaDeal {
            client,
            asset_price: price,
            profit_margin: profit,
            total_debt: total,
            is_paid: false,
        };
        let id = self.store.next_id();
        self.store.put(id, deal);
        proof {
            assert(self@ == old(self)@.push(deal));
            assert forall|i: int| 0 <= i < self@.len() implies (#[trigger] self@[i]).wf() by {
                if i < old(self)@.len() {
                    assert(self@[i] == old(self)@[i]);
                }
            }
        }
        Ok(id)
    }

    /// Returns the deal recorded under `deal_id`, or fails with `NotFound`
    /// when no creation ever produced that identifier. Pure read.
    pub fn get_deal(&self, deal_id: u64) -> (r: Result<MurabahaDeal, Error>)
        ensures
            deal_exists(self@, deal_id) ==> r == Ok::<MurabahaDeal, Error>(
                deal_at(self@, deal_id),
            ),
            !deal_exists(self@, deal_id) ==> r == Err::<MurabahaDeal, Error>(Error::NotFound),
    {
        match self.store.get(deal_id) {
            Some(deal) => Ok(deal),
            None => Err(Error::NotFound),
        }
    }

    /// Marks the deal recorded under `deal_id` as settled and returns `true`,
    /// or fails with `NotFound` when no creation ever produced that
    /// identifier. Marking an already-settled deal succeeds and changes
    /// nothing; no other field of any record is touched.
    pub fn mark_as_paid(&mut self, deal_id: u64) -> (r: Result<bool, Error>)
        requires
            old(self).wf(),
        ensures
            final(self).wf(),
            deal_exists(old(self)@, deal_id) ==> {
                &&& r == Ok::<bool, Error>(true)
                &&& final(self)@ == mark_paid_at(old(self)@, deal_id)
            },
            !deal_exists(old(self)@, deal_id) ==> {
                &&& r == Err::<bool, Error>(Error::NotFound)
                &&& final(self)@ == old(self)@
            },
    {
        match self.store.get(deal_id) {
            Some(deal) => {
                let updated = MurabahaDeal {
                    client: deal.client,
                    asset_price: deal.asset_price,
                    profit_margin: deal.profit_margin,
                    total_debt: deal.total_debt,
                    is_paid: true,
                };
                self.store.put(deal_id, updated);
                proof {
                    assert(self@ == mark_paid_at(old(self)@, deal_id));
                    assert forall|i: int| 0 <= i < self@.len() implies (
                    #[trigger] self@[i]).wf() by {
                        if i != deal_id - 1 {
                            assert(self@[i] == old(self)@[i]);
                        }
                    }
                }
                Ok(true)
            },
            None => Err(Error::NotFound),
        }
    }

    /// Returns the identifiers of all deals recorded for `client`, in
    /// ascending (creation) order; empty when the client holds none. Pure
    /// read, never a failure.
    pub fn get_client_deals(&self, client: u64) -> (ids: Vec<u64>)
        ensures
            ids@ == client_ids(self@, client),
    {
        let mut ids: Vec<u64> = Vec::new();
        let n = self.store.len();
        let mut i: usize = 0;
        while i < n
            invariant
                n == self@.len(),
                i <= n,
                ids@ == client_ids(self@.take(i as int), client),
            decreases n - i,
        {
            let deal = self.store.at(i);
            proof {
                let s = self@;
                let t = s.take(i + 1int);
                assert(t.drop_last() =~= s.take(i as int));
                assert(t.last() == s[i as int]);
            }
            if deal.client == client {
                ids.push((i as u64) + 1);
            }
            i = i + 1;
        }
        proof {
            assert(self@.take(n as int) =~= self@);
        }
        ids
    }
}

} // verus!
