//! The deal record and its validity conditions.

use vstd::prelude::*;

verus! {

/// Terms accepted at creation time: a strictly positive principal and a
/// non-negative markup.
pub open spec fn valid_terms(price: i128, profit: i128) -> bool {
    price > 0 && profit >= 0
}

/// A deferred-payment financing deal between the financing party and a client.
///
/// `client` is the host-supplied identity value of the counterparty; the
/// ledger compares it for equality and interprets it no further.
#[derive(Clone, Copy, PartialEq, Eq, Structural, Debug)]
pub struct MurabahaDeal {
    pub client: u64,
    pub asset_price: i128,
    pub profit_margin: i128,
    pub total_debt: i128,
    pub is_paid: bool,
}

impl MurabahaDeal {
    /// Well-formedness of a stored record: the terms were valid at creation
    /// and the recorded total debt is exactly price plus markup.
    pub open spec fn wf(self) -> bool {
        &&& valid_terms(self.asset_price, self.profit_margin)
        &&& self.total_debt == self.asset_price + self.profit_margin
    }
}

/// The record that a successful creation stores: the given terms, the derived
/// total, and settlement still pending.
pub open spec fn spec_new_deal(client: u64, price: i128, profit: i128) -> MurabahaDeal {
    MurabahaDeal {
        client,
        asset_price: price,
        profit_margin: profit,
        total_debt: (price + profit) as i128,
        is_paid: false,
    }
}

} // verus!
