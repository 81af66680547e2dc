//! The deal store: the mapping from deal identifier to deal record, together
//! with identifier allocation.
//!
//! Identifiers are allocated from a monotonically increasing counter starting
//! at one. Records are never deleted, so the counter always equals the number
//! of stored records; allocating an identifier and writing the record under it
//! therefore update the store in a single atomic step, as the execution model
//! requires. Stored records are viewed as a sequence in identifier order: the
//! record with identifier `id` sits at index `id - 1`.

use vstd::prelude::*;

use crate::deal::MurabahaDeal;

verus! {

/// The identifier the store will hand out next: one more than the number of
/// records stored so far.
pub open spec fn next_deal_id(deals: Seq<MurabahaDeal>) -> int {
    deals.len() + 1int
}

/// Whether a record is stored under identifier `id`.
pub open spec fn deal_exists(deals: Seq<MurabahaDeal>, id: u64) -> bool {
    1 <= id && id < next_deal_id(deals)
}

/// The record stored under identifier `id`.
pub open spec fn deal_at(deals: Seq<MurabahaDeal>, id: u64) -> MurabahaDeal {
    deals[id - 1]
}

/// The durable mapping from deal identifier to deal record. It is the sole
/// owner of deal identity allocation.
pub struct DealStore {
    deals: Vec<MurabahaDeal>,
}

impl View for DealStore {
    type V = Seq<MurabahaDeal>;

    closed spec fn view(&self) -> Seq<MurabahaDeal> {
        self.deals@
    }
}

impl DealStore {
    /// An empty store; the first identifier it will allocate is 1.
    pub fn new() -> (store: DealStore)
        ensures
            store@ == Seq::<MurabahaDeal>::empty(),
    {
        DealStore { deals: Vec::new() }
    }

    /// The number of stored records.
    pub fn len(&self) -> (n: usize)
        ensures
            n == self@.len(),
    {
        self.deals.len()
    }

    /// The identifier under which the next record will be stored: fresh in
    /// this store's whole history, and larger than every identifier in use.
    pub fn next_id(&self) -> (id: u64)
        requires
            self@.len() < u64::MAX,
        ensures
            id == next_deal_id(self@),
    {
        let n = self.deals.len();
        (n as u64) + 1
    }

    /// Inserts or overwrites the record under `id`. The store checks no
    /// uniqueness itself: callers must pass either an identifier already in
    /// use (overwrite) or exactly the next fresh one (insert).
    pub fn put(&mut self, id: u64, deal: MurabahaDeal)
        requires
            1 <= id && id <= next_deal_id(old(self)@),
        ensures
            deal_exists(old(self)@, id) ==> final(self)@ == old(self)@.update(id - 1, deal),
            id == next_deal_id(old(self)@) ==> final(self)@ == old(self)@.push(deal),
    {
        let idx = (id - 1) as usize;
        if idx < self.deals.len() {
            self.deals[idx] = deal;
        } else {
            self.deals.push(deal);
        }
    }

    /// Returns the record stored under `id`, or `None` if `id` is not in use.
    /// Never mutates the store.
    pub fn get(&self, id: u64) -> (r: Option<MurabahaDeal>)
        ensures
            deal_exists(self@, id) ==> r == Some(deal_at(self@, id)),
            !deal_exists(self@, id) ==> r is None,
    {
        if 1 <= id && id <= self.deals.len() as u64 {
            Some(self.deals[(id - 1) as usize])
        } else {
            None
        }
    }

    /// The record at position `i` of the enumeration in identifier order:
    /// the record with identifier `i + 1`.
    pub fn at(&self, i: usize) -> (deal: MurabahaDeal)
        requires
            i < self@.len(),
        ensures
            deal == self@[i as int],
    {
        self.deals[i]
    }
}

} // verus!
