//! Read access to the bid records and bid indexes kept in the ledger.

use vstd::prelude::*;

use crate::ledger::{copy_ids, list_of, IndexKey, Ledger};
use crate::storage::{bids_by_investor_key, bids_by_invoice_key, Indexes};
use crate::types::{Address, Bid, BytesN32};

verus! {

/// Storage operations for bids.
pub struct BidStorage;

impl BidStorage {
    /// The bid stored under `bid_id`.
    pub fn get_bid(ledger: &Ledger, bid_id: &BytesN32) -> (r: Option<Bid>)
        ensures
            match r {
                Some(bid) => ledger@.bids.contains_key(*bid_id) && bid == ledger@.bids[*bid_id],
                None => !ledger@.bids.contains_key(*bid_id),
            },
    {
        ledger.bids.get(bid_id)
    }

    /// The global list of bid IDs.
    pub fn get_all_bids(ledger: &Ledger) -> (r: Vec<BytesN32>)
        ensures
            r@ == ledger@.all_bids,
    {
        copy_ids(&ledger.all_bids)
    }

    /// The bid IDs attached to an invoice.
    pub fn get_bids_for_invoice(ledger: &Ledger, invoice_id: &BytesN32) -> (r: Vec<BytesN32>)
        ensures
            r@ == list_of(ledger@.lists, bids_by_invoice_key(*invoice_id)),
    {
        let (a, b) = Indexes::bids_by_invoice(invoice_id);
        ledger.read_list(&IndexKey::ByBytes(a, b))
    }

    /// Every bid ID placed by an investor.
    pub fn get_bids_by_investor_all(ledger: &Ledger, investor: &Address) -> (r: Vec<BytesN32>)
        ensures
            r@ == list_of(ledger@.lists, bids_by_investor_key(*investor)),
    {
        let (a, b) = Indexes::bids_by_investor(investor);
        ledger.read_list(&IndexKey::ByAddress(a, b))
    }
}

} // verus!
