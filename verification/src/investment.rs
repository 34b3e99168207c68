//! Read access to the investment records and investment indexes kept in the
//! ledger.

use vstd::prelude::*;

use crate::ledger::{copy_ids, list_of, IndexKey, Ledger};
use crate::storage::{investments_by_investor_key, Indexes};
use crate::types::{Address, BytesN32, Investment};

verus! {

/// Storage operations for investments.
pub struct InvestmentStorage;

impl InvestmentStorage {
    /// The investment stored under `investment_id`.
    pub fn get(ledger: &Ledger, investment_id: &BytesN32) -> (r: Option<Investment>)
        ensures
            match r {
                Some(inv) => ledger@.investments.contains_key(*investment_id) && inv@ == ledger@.investments[*investment_id],
                None => !ledger@.investments.contains_key(*investment_id),
            },
    {
        ledger.investments.get(investment_id)
    }

    /// The IDs in the active investment index.
    pub fn get_active_investment_ids(ledger: &Ledger) -> (r: Vec<BytesN32>)
        ensures
            r@ == ledger@.active_investments,
    {
        copy_ids(&ledger.active_investments)
    }

    /// The investment IDs of an investor.
    pub fn get_by_investor(ledger: &Ledger, investor: &Address) -> (r: Vec<BytesN32>)
        ensures
            r@ == list_of(ledger@.lists, investments_by_investor_key(*investor)),
    {
        let (a, b) = Indexes::investments_by_investor(investor);
        ledger.read_list(&IndexKey::ByAddress(a, b))
    }

    /// The investment that the invoice-to-investment mapping names for an
    /// invoice, where the mapping and the named record both exist.
    pub fn get_investment_by_invoice(ledger: &Ledger, invoice_id: &BytesN32) -> (r: Option<Investment>)
        ensures
            match r {
                Some(inv) => {
                    &&& ledger@.investment_of_invoice.contains_key(*invoice_id)
                    &&& ledger@.investments.contains_key(ledger@.investment_of_invoice[*invoice_id])
                    &&& inv@ == ledger@.investments[ledger@.investment_of_invoice[*invoice_id]]
                },
                None => !ledger@.investment_of_invoice.contains_key(*invoice_id)
                    || !ledger@.investments.contains_key(ledger@.investment_of_invoice[*invoice_id]),
            },
    {
        match ledger.investment_of_invoice.get(invoice_id) {
            Some(investment_id) => ledger.investments.get(&investment_id),
            None => None,
        }
    }
}

} // verus!
