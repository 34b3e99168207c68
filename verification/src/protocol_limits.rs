//! Protocol-wide limits and status classes.

use vstd::prelude::*;

use crate::types::InvoiceStatus;

verus! {

/// Maximum length, in characters, of the evidence attached to a dispute.
pub const MAX_DISPUTE_EVIDENCE_LENGTH: u32 = 2000;

/// The statuses in which an invoice counts against its business's limit of
/// open invoices: `Pending`, `Verified` and `Funded`.
pub open spec fn spec_is_active_status(status: InvoiceStatus) -> bool {
    status is Pending || status is Verified || status is Funded
}

/// Whether an invoice in `status` is still open (not yet settled, defaulted,
/// cancelled or refunded).
pub fn is_active_status(status: &InvoiceStatus) -> (r: bool)
    ensures
        r == spec_is_active_status(*status),
{
    match status {
        InvoiceStatus::Pending | InvoiceStatus::Verified | InvoiceStatus::Funded => true,
        _ => false,
    }
}

} // verus!
