//! The ledger's laws: properties that relate the service operations across
//! calls, stated over the same spec functions the operations' contracts use
//! and proved once and for all.

use vstd::prelude::*;

use crate::deal::{spec_new_deal, valid_terms, MurabahaDeal};
use crate::service::{all_wf, client_ids, mark_paid_at};
use crate::store::{deal_at, deal_exists, next_deal_id};

verus! {

/// Creating a deal with valid terms and then looking its identifier up
/// returns a record holding exactly the given client and terms, a total debt
/// of price plus profit, and settlement still pending.
pub proof fn lemma_create_then_get(
    deals: Seq<MurabahaDeal>,
    client: u64,
    price: i128,
    profit: i128,
)
    requires
        valid_terms(price, profit),
        price + profit <= i128::MAX,
        deals.len() < u64::MAX,
    ensures
        ({
            let id = next_deal_id(deals) as u64;
            let after = deals.push(spec_new_deal(client, price, profit));
            &&& deal_exists(after, id)
            &&& deal_at(after, id).client == client
            &&& deal_at(after, id).asset_price == price
            &&& deal_at(after, id).profit_margin == profit
            &&& deal_at(after, id).total_debt == price + profit
            &&& !deal_at(after, id).is_paid
        }),
{
}

/// Identifier freshness and growth: the next identifier is larger than every
/// identifier in use, is not yet in use itself, and creation both keeps every
/// existing identifier in use and strictly increases the next one — so
/// successive creations return strictly increasing, never repeating
/// identifiers.
pub proof fn lemma_identifiers_fresh(deals: Seq<MurabahaDeal>, deal: MurabahaDeal)
    ensures
        forall|id: u64| #[trigger] deal_exists(deals, id) ==> id < next_deal_id(deals),
        deals.len() < u64::MAX ==> !deal_exists(deals, next_deal_id(deals) as u64),
        next_deal_id(deals.push(deal)) == next_deal_id(deals) + 1,
        forall|id: u64| #[trigger] deal_exists(deals, id) ==> deal_exists(deals.push(deal), id),
{
}

/// Marking a deal as settled is idempotent: marking it a second time is
/// accepted and leaves the ledger exactly as after the first marking, with
/// the settlement flag raised after each.
pub proof fn lemma_mark_as_paid_idempotent(deals: Seq<MurabahaDeal>, id: u64)
    requires
        deal_exists(deals, id),
    ensures
        deal_at(mark_paid_at(deals, id), id).is_paid,
        deal_exists(mark_paid_at(deals, id), id),
        mark_paid_at(mark_paid_at(deals, id), id) == mark_paid_at(deals, id),
{
    assert(mark_paid_at(mark_paid_at(deals, id), id) =~= mark_paid_at(deals, id));
}

/// Marking a deal as settled touches nothing else: the set of identifiers in
/// use is unchanged, every other record is unchanged, and the marked record
/// keeps its client, terms and total debt — once raised, the settlement flag
/// never reverts and no other field ever changes.
pub proof fn lemma_mark_as_paid_preserves(deals: Seq<MurabahaDeal>, id: u64)
    requires
        deal_exists(deals, id),
    ensures
        mark_paid_at(deals, id).len() == deals.len(),
        forall|other: u64|
            deal_exists(deals, other) <==> #[trigger] deal_exists(mark_paid_at(deals, id), other),
        forall|other: u64|
            deal_exists(deals, other) && other != id ==> #[trigger] deal_at(
                mark_paid_at(deals, id),
                other,
            ) == deal_at(deals, other),
        deal_at(mark_paid_at(deals, id), id).client == deal_at(deals, id).client,
        deal_at(mark_paid_at(deals, id), id).asset_price == deal_at(deals, id).asset_price,
        deal_at(mark_paid_at(deals, id), id).profit_margin == deal_at(deals, id).profit_margin,
        deal_at(mark_paid_at(deals, id), id).total_debt == deal_at(deals, id).total_debt,
        all_wf(deals) ==> all_wf(mark_paid_at(deals, id)),
{
    if all_wf(deals) {
        assert forall|i: int| 0 <= i < mark_paid_at(deals, id).len() implies (
        #[trigger] mark_paid_at(deals, id)[i]).wf() by {
            assert(deals[i].wf());
        }
    }
}

/// Every identifier the per-client listing returns is in use, belongs to the
/// given client, and is at most the number of deals recorded.
pub proof fn lemma_client_ids_in_range(deals: Seq<MurabahaDeal>, client: u64)
    requires
        deals.len() <= u64::MAX,
    ensures
        forall|k: int|
            0 <= k < client_ids(deals, client).len() ==> {
                let id = #[trigger] client_ids(deals, client)[k];
                &&& deal_exists(deals, id)
                &&& deal_at(deals, id).client == client
            },
    decreases deals.len(),
{
    if deals.len() == 0 {
    } else {
        let pre = deals.drop_last();
        lemma_client_ids_in_range(pre, client);
        assert forall|k: int| 0 <= k < client_ids(deals, client).len() implies {
            let id = #[trigger] client_ids(deals, client)[k];
            &&& deal_exists(deals, id)
            &&& deal_at(deals, id).client == client
        } by {
            let id = client_ids(deals, client)[k];
            if k < client_ids(pre, client).len() {
                assert(client_ids(pre, client)[k] == id);
                assert(deal_exists(pre, id));
                assert(deal_at(deals, id) == deal_at(pre, id));
            } else {
                assert(id == deals.len() as u64);
                assert(deal_at(deals, id) == deals.last());
            }
        }
    }
}

/// The per-client listing is exact: it contains an identifier if and only if
/// that identifier is in use and the record under it belongs to the given
/// client.
pub proof fn lemma_client_ids_complete(deals: Seq<MurabahaDeal>, client: u64)
    requires
        deals.len() <= u64::MAX,
    ensures
        forall|id: u64|
            #[trigger] client_ids(deals, client).contains(id) <==> (deal_exists(deals, id)
                && deal_at(deals, id).client == client),
    decreases deals.len(),
{
    lemma_client_ids_in_range(deals, client);
    if deals.len() == 0 {
        assert forall|id: u64| !(#[trigger] client_ids(deals, client).contains(id)) by {
            assert(client_ids(deals, client).len() == 0);
        }
    } else {
        let pre = deals.drop_last();
        let cs = client_ids(deals, client);
        let pcs = client_ids(pre, client);
        lemma_client_ids_complete(pre, client);
        assert forall|id: u64|
            #[trigger] cs.contains(id) implies (deal_exists(deals, id) && deal_at(deals, id).client
            == client) by {
            let k = choose|k: int| 0 <= k < cs.len() && cs[k] == id;
            assert(cs[k] == id);
        }
        assert forall|id: u64| deal_exists(deals, id) && deal_at(deals, id).client
            == client implies #[trigger] cs.contains(id) by {
            if id <= pre.len() {
                assert(deal_at(pre, id) == deal_at(deals, id));
                assert(pcs.contains(id));
                let k = choose|k: int| 0 <= k < pcs.len() && pcs[k] == id;
                assert(cs[k] == id);
            } else {
                assert(id == deals.len() as u64);
                assert(deal_at(deals, id) == deals.last());
                assert(cs[cs.len() - 1] == id);
            }
        }
    }
}

/// The per-client listing is strictly ascending: identifiers appear in
/// creation order and never twice.
pub proof fn lemma_client_ids_ascending(deals: Seq<MurabahaDeal>, client: u64)
    requires
        deals.len() <= u64::MAX,
    ensures
        forall|j: int, k: int|
            0 <= j < k < client_ids(deals, client).len() ==> #[trigger] client_ids(
                deals,
                client,
            )[j] < #[trigger] client_ids(deals, client)[k],
    decreases deals.len(),
{
    if deals.len() == 0 {
    } else {
        let pre = deals.drop_last();
        let cs = client_ids(deals, client);
        let pcs = client_ids(pre, client);
        lemma_client_ids_ascending(pre, client);
        lemma_client_ids_in_range(pre, client);
        assert forall|j: int, k: int| 0 <= j < k < cs.len() implies #[trigger] cs[j]
            < #[trigger] cs[k] by {
            if k < pcs.len() {
                assert(pcs[j] < pcs[k]);
            } else if deals.last().client == client {
                assert(cs[k] == deals.len() as u64);
                assert(pcs[j] == cs[j]);
                assert(deal_exists(pre, cs[j]));
            }
        }
    }
}

} // verus!
