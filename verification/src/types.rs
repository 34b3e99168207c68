//! Core data types of the protocol: statuses, categories, and the records
//! that the contract keeps in its ledger storage.
//!
//! Identifiers are 32 opaque bytes, held as two 128-bit halves; addresses are
//! an account or contract kind together with its 32-byte key; text fields are
//! strings.

use vstd::prelude::*;

use crate::table::{TableKey, TableValue};

verus! {

/// 32 opaque bytes (an invoice, bid or investment identifier), held as the
/// big-endian high and low halves.
#[derive(Clone, Copy, Debug, PartialEq, Eq, Structural, Hash)]
pub struct BytesN32 {
    pub hi: u128,
    pub lo: u128,
}

impl View for BytesN32 {
    type V = BytesN32;

    open spec fn view(&self) -> BytesN32 {
        *self
    }
}

impl TableKey for BytesN32 {
    fn same_key(&self, other: &Self) -> (r: bool) {
        *self == *other
    }

    fn copy_key(&self) -> (r: Self) {
        *self
    }
}

/// Whether an address names an account or a contract.
#[derive(Clone, Copy, Debug, PartialEq, Eq, Structural, Hash)]
pub enum AddressKind {
    Account,
    Contract,
}

/// An account or contract address.
#[derive(Clone, Copy, Debug, PartialEq, Eq, Structural, Hash)]
pub struct Address {
    pub kind: AddressKind,
    pub key: BytesN32,
}

/// Invoice status enumeration representing the lifecycle of an invoice.
#[derive(Clone, Copy, Debug, PartialEq, Eq, Structural, Hash)]
pub enum InvoiceStatus {
    Pending,
    Verified,
    Funded,
    Paid,
    Defaulted,
    Cancelled,
    Refunded,
}

impl InvoiceStatus {
    /// `Paid`, `Defaulted`, `Cancelled` and `Refunded` end the lifecycle.
    pub open spec fn spec_is_terminal(&self) -> bool {
        *self is Paid || *self is Defaulted || *self is Cancelled || *self is Refunded
    }

    #[verifier::when_used_as_spec(spec_is_terminal)]
    pub fn is_terminal(&self) -> (r: bool)
        ensures
            r == self.spec_is_terminal(),
    {
        match self {
            InvoiceStatus::Paid | InvoiceStatus::Defaulted | InvoiceStatus::Cancelled
            | InvoiceStatus::Refunded => true,
            _ => false,
        }
    }
}

/// Invoice lock state controlled by admin holds.
#[derive(Clone, Copy, Debug, PartialEq, Eq, Structural, Hash)]
pub enum InvoiceLock {
    /// No hold (named `None` in the protocol's interface).
    Unlocked,
    Frozen,
}

impl InvoiceLock {
    /// Every lock state other than `Unlocked` holds the invoice.
    pub fn is_locked(&self) -> (r: bool)
        ensures
            r == !(*self is Unlocked),
    {
        *self != InvoiceLock::Unlocked
    }
}

/// Bid status enumeration.
#[derive(Clone, Copy, Debug, PartialEq, Eq, Structural, Hash)]
pub enum BidStatus {
    Placed,
    Accepted,
    Withdrawn,
    Expired,
    Cancelled,
}

/// Investment status enumeration tracking the lifecycle of investor positions.
#[derive(Clone, Copy, Debug, PartialEq, Eq, Structural, Hash)]
pub enum InvestmentStatus {
    /// The investment is active, funded, and tracked in the active investment index.
    /// This is the only non-terminal state.
    Active,
    /// Investment funds were withdrawn by the investor (terminal status).
    Withdrawn,
    /// Investment completed successfully and the investor received the payouts (terminal status).
    Completed,
    /// The associated invoice defaulted due to non-payment (terminal status).
    Defaulted,
    /// Investment was refunded due to invoice cancellation (terminal status).
    Refunded,
}

/// Dispute status enumeration.
#[derive(Clone, Copy, Debug, PartialEq, Eq, Structural, Hash)]
pub enum DisputeStatus {
    /// No dispute was opened (named `None` in the protocol's interface).
    NoDispute,
    Disputed,
    UnderReview,
    Resolved,
}

/// Dispute resolution outcome enumeration.
#[derive(Clone, Copy, Debug, PartialEq, Eq, Structural, Hash)]
pub enum DisputeResolution {
    /// Not resolved (named `None` in the protocol's interface).
    NoResolution,
    FavorBusiness,
    FavorInvestor,
    Split,
    Dismissed,
}

impl DisputeResolution {
    /// The numeric code of an outcome: its position in the declaration,
    /// counting from `NoResolution` as 0.
    pub open spec fn spec_code(self) -> u32 {
        match self {
            DisputeResolution::NoResolution => 0,
            DisputeResolution::FavorBusiness => 1,
            DisputeResolution::FavorInvestor => 2,
            DisputeResolution::Split => 3,
            DisputeResolution::Dismissed => 4,
        }
    }

    pub fn code(self) -> (r: u32)
        ensures
            r == self.spec_code(),
    {
        match self {
            DisputeResolution::NoResolution => 0,
            DisputeResolution::FavorBusiness => 1,
            DisputeResolution::FavorInvestor => 2,
            DisputeResolution::Split => 3,
            DisputeResolution::Dismissed => 4,
        }
    }
}

/// Invoice category for classification.
#[derive(Clone, Copy, Debug, PartialEq, Eq, Structural, Hash)]
pub enum InvoiceCategory {
    Services,
    Goods,
    Consulting,
    Logistics,
    Products,
    Manufacturing,
    Technology,
    Healthcare,
    Other,
}

/// Line item record for invoice metadata: description, quantity, unit price, total.
#[derive(Clone, Debug)]
pub struct LineItemRecord(pub String, pub u32, pub i128, pub i128);

impl LineItemRecord {
    /// An exact copy of this line item.
    pub fn duplicate(&self) -> (r: Self)
        ensures
            r == *self,
    {
        LineItemRecord(self.0.clone(), self.1, self.2, self.3)
    }
}

/// Payment record for invoice history.
#[derive(Clone, Debug)]
pub struct PaymentRecord {
    pub amount: i128,
    pub payer: Address,
    pub timestamp: u64,
    pub transaction_id: String,
}

impl PaymentRecord {
    /// An exact copy of this payment record.
    pub fn duplicate(&self) -> (r: Self)
        ensures
            r == *self,
    {
        PaymentRecord {
            amount: self.amount,
            payer: self.payer,
            timestamp: self.timestamp,
            transaction_id: self.transaction_id.clone(),
        }
    }
}

/// Dispute data structure.
#[derive(Clone, Debug)]
pub struct Dispute {
    pub created_by: Address,
    pub created_at: u64,
    pub reason: String,
    pub evidence: String,
    pub resolution: String,
    pub resolved_by: Address,
    pub resolved_at: u64,
    pub resolution_outcome: DisputeResolution,
}

impl Dispute {
    /// An exact copy of this dispute.
    pub fn duplicate(&self) -> (r: Self)
        ensures
            r == *self,
    {
        Dispute {
            created_by: self.created_by,
            created_at: self.created_at,
            reason: self.reason.clone(),
            evidence: self.evidence.clone(),
            resolution: self.resolution.clone(),
            resolved_by: self.resolved_by,
            resolved_at: self.resolved_at,
            resolution_outcome: self.resolution_outcome,
        }
    }
}

/// Invoice rating structure; `score` ranges over 1 to 5.
#[derive(Clone, Debug)]
pub struct InvoiceRating {
    pub rater: Address,
    pub score: u32,
    pub comment: String,
    pub timestamp: u64,
}

impl InvoiceRating {
    /// An exact copy of this rating.
    pub fn duplicate(&self) -> (r: Self)
        ensures
            r == *self,
    {
        InvoiceRating {
            rater: self.rater,
            score: self.score,
            comment: self.comment.clone(),
            timestamp: self.timestamp,
        }
    }
}

/// Freeze reason enumeration representing why a business invoice was frozen.
#[derive(Clone, Copy, Debug, PartialEq, Eq, Structural, Hash)]
pub enum BusinessFreezeReason {
    /// Generic administrative freeze (admin's discretion).
    AdminAction,
    /// Business KYC was rejected or revoked.
    KYCRejected,
    /// Legal or compliance policy violation.
    ComplianceViolation,
    /// Fraud or suspicious activity detected.
    SuspiciousActivity,
    /// Court order or legal hold applied.
    LegalHold,
}

/// Freeze record stored alongside the frozen flag on an invoice.
#[derive(Clone, Copy, Debug, PartialEq, Eq, Structural)]
pub struct FreezeInfo {
    pub reason: BusinessFreezeReason,
    pub frozen_by: Address,
    pub frozen_at: u64,
}

/// An exact copy of an optional string.
pub fn duplicate_opt_string(x: &Option<String>) -> (r: Option<String>)
    ensures
        r == *x,
{
    match x {
        Some(s) => Some(s.clone()),
        None => None,
    }
}

/// The view of an optional string.
pub open spec fn opt_string_view(x: Option<String>) -> Option<Seq<char>> {
    match x {
        Some(s) => Some(s@),
        None => None,
    }
}

/// Whether two optional strings hold the same text.
pub fn same_opt_string(a: &Option<String>, b: &Option<String>) -> (r: bool)
    ensures
        r == (opt_string_view(*a) == opt_string_view(*b)),
{
    match (a, b) {
        (Some(x), Some(y)) => x.eq(y),
        (None, None) => true,
        _ => false,
    }
}

/// The texts of a sequence of strings.
pub open spec fn strings_view(s: Seq<String>) -> Seq<Seq<char>> {
    s.map_values(|x: String| x@)
}

/// Whether two string vectors hold the same texts in the same order.
pub fn same_strings(a: &Vec<String>, b: &Vec<String>) -> (r: bool)
    ensures
        r == (strings_view(a@) == strings_view(b@)),
{
    if a.len() != b.len() {
        proof {
            assert(strings_view(a@).len() != strings_view(b@).len());
        }
        return false;
    }
    let mut i: usize = 0;
    while i < a.len()
        invariant
            a@.len() == b@.len(),
            i <= a@.len(),
            forall|j: int| 0 <= j < i ==> #[trigger] a@[j]@ == b@[j]@,
        decreases a@.len() - i,
    {
        if a[i] != b[i] {
            proof {
                assert(strings_view(a@)[i as int] != strings_view(b@)[i as int]);
            }
            return false;
        }
        i = i + 1;
    }
    assert(strings_view(a@) =~= strings_view(b@));
    true
}

/// An exact copy of each string of a vector.
pub fn duplicate_strings(v: &Vec<String>) -> (r: Vec<String>)
    ensures
        r@ == v@,
{
    let mut r: Vec<String> = Vec::new();
    let mut i: usize = 0;
    while i < v.len()
        invariant
            i <= v@.len(),
            r@ == v@.take(i as int),
        decreases v@.len() - i,
    {
        r.push(v[i].clone());
        i = i + 1;
        assert(r@ =~= v@.take(i as int));
    }
    assert(v@.take(v@.len() as int) =~= v@);
    r
}

/// An exact copy of each line item of a vector.
pub fn duplicate_line_items(v: &Vec<LineItemRecord>) -> (r: Vec<LineItemRecord>)
    ensures
        r@ == v@,
{
    let mut r: Vec<LineItemRecord> = Vec::new();
    let mut i: usize = 0;
    while i < v.len()
        invariant
            i <= v@.len(),
            r@ == v@.take(i as int),
        decreases v@.len() - i,
    {
        r.push(v[i].duplicate());
        i = i + 1;
        assert(r@ =~= v@.take(i as int));
    }
    assert(v@.take(v@.len() as int) =~= v@);
    r
}

/// An exact copy of each rating of a vector.
pub fn duplicate_ratings(v: &Vec<InvoiceRating>) -> (r: Vec<InvoiceRating>)
    ensures
        r@ == v@,
{
    let mut r: Vec<InvoiceRating> = Vec::new();
    let mut i: usize = 0;
    while i < v.len()
        invariant
            i <= v@.len(),
            r@ == v@.take(i as int),
        decreases v@.len() - i,
    {
        r.push(v[i].duplicate());
        i = i + 1;
        assert(r@ =~= v@.take(i as int));
    }
    assert(v@.take(v@.len() as int) =~= v@);
    r
}

/// An exact copy of each payment record of a vector.
pub fn duplicate_payments(v: &Vec<PaymentRecord>) -> (r: Vec<PaymentRecord>)
    ensures
        r@ == v@,
{
    let mut r: Vec<PaymentRecord> = Vec::new();
    let mut i: usize = 0;
    while i < v.len()
        invariant
            i <= v@.len(),
            r@ == v@.take(i as int),
        decreases v@.len() - i,
    {
        r.push(v[i].duplicate());
        i = i + 1;
        assert(r@ =~= v@.take(i as int));
    }
    assert(v@.take(v@.len() as int) =~= v@);
    r
}

/// Core invoice data structure.
#[derive(Clone, Debug)]
pub struct Invoice {
    pub id: BytesN32,
    pub business: Address,
    pub amount: i128,
    pub currency: Address,
    pub due_date: u64,
    pub status: InvoiceStatus,
    pub created_at: u64,
    pub description: String,
    /// Optional customer display name.
    pub metadata_customer_name: Option<String>,
    /// Optional customer address.
    pub metadata_customer_address: Option<String>,
    /// Optional tax identifier.
    pub metadata_tax_id: Option<String>,
    /// Optional free-text notes.
    pub metadata_notes: Option<String>,
    pub metadata_line_items: Vec<LineItemRecord>,
    pub category: InvoiceCategory,
    pub tags: Vec<String>,
    pub funded_amount: i128,
    pub funded_at: Option<u64>,
    pub investor: Option<Address>,
    pub settled_at: Option<u64>,
    pub average_rating: Option<u32>,
    pub total_ratings: u32,
    pub ratings: Vec<InvoiceRating>,
    pub dispute_status: DisputeStatus,
    pub dispute: Dispute,
    pub total_paid: i128,
    pub payment_history: Vec<PaymentRecord>,
}

/// The abstract value of an invoice: its fields, with each vector taken as
/// the sequence of its elements.
pub struct InvoiceView {
    pub id: BytesN32,
    pub business: Address,
    pub amount: i128,
    pub currency: Address,
    pub due_date: u64,
    pub status: InvoiceStatus,
    pub created_at: u64,
    pub description: String,
    pub metadata_customer_name: Option<String>,
    pub metadata_customer_address: Option<String>,
    pub metadata_tax_id: Option<String>,
    pub metadata_notes: Option<String>,
    pub metadata_line_items: Seq<LineItemRecord>,
    pub category: InvoiceCategory,
    pub tags: Seq<String>,
    pub funded_amount: i128,
    pub funded_at: Option<u64>,
    pub investor: Option<Address>,
    pub settled_at: Option<u64>,
    pub average_rating: Option<u32>,
    pub total_ratings: u32,
    pub ratings: Seq<InvoiceRating>,
    pub dispute_status: DisputeStatus,
    pub dispute: Dispute,
    pub total_paid: i128,
    pub payment_history: Seq<PaymentRecord>,
}

impl View for Invoice {
    type V = InvoiceView;

    open spec fn view(&self) -> InvoiceView {
        InvoiceView {
            id: self.id,
            business: self.business,
            amount: self.amount,
            currency: self.currency,
            due_date: self.due_date,
            status: self.status,
            created_at: self.created_at,
            description: self.description,
            metadata_customer_name: self.metadata_customer_name,
            metadata_customer_address: self.metadata_customer_address,
            metadata_tax_id: self.metadata_tax_id,
            metadata_notes: self.metadata_notes,
            metadata_line_items: self.metadata_line_items@,
            category: self.category,
            tags: self.tags@,
            funded_amount: self.funded_amount,
            funded_at: self.funded_at,
            investor: self.investor,
            settled_at: self.settled_at,
            average_rating: self.average_rating,
            total_ratings: self.total_ratings,
            ratings: self.ratings@,
            dispute_status: self.dispute_status,
            dispute: self.dispute,
            total_paid: self.total_paid,
            payment_history: self.payment_history@,
        }
    }
}

impl TableValue for Invoice {
    fn copy_value(&self) -> (r: Self) {
        Invoice {
            id: self.id,
            business: self.business,
            amount: self.amount,
            currency: self.currency,
            due_date: self.due_date,
            status: self.status,
            created_at: self.created_at,
            description: self.description.clone(),
            metadata_customer_name: duplicate_opt_string(&self.metadata_customer_name),
            metadata_customer_address: duplicate_opt_string(&self.metadata_customer_address),
            metadata_tax_id: duplicate_opt_string(&self.metadata_tax_id),
            metadata_notes: duplicate_opt_string(&self.metadata_notes),
            metadata_line_items: duplicate_line_items(&self.metadata_line_items),
            category: self.category,
            tags: duplicate_strings(&self.tags),
            funded_amount: self.funded_amount,
            funded_at: self.funded_at,
            investor: self.investor,
            settled_at: self.settled_at,
            average_rating: self.average_rating,
            total_ratings: self.total_ratings,
            ratings: duplicate_ratings(&self.ratings),
            dispute_status: self.dispute_status,
            dispute: self.dispute.duplicate(),
            total_paid: self.total_paid,
            payment_history: duplicate_payments(&self.payment_history),
        }
    }
}

/// Input for a single invoice within a batch of invoices to store.
#[derive(Clone, Debug)]
pub struct InvoiceInput {
    /// Invoice face value in the smallest currency unit (must be > 0).
    pub amount: i128,
    /// Token contract address for the invoice currency.
    pub currency: Address,
    /// Unix timestamp by which the invoice must be settled.
    pub due_date: u64,
    /// Human-readable invoice description.
    pub description: String,
    /// Invoice category.
    pub category: InvoiceCategory,
    /// Optional searchable tags.
    pub tags: Vec<String>,
}

/// Helper struct for metadata updates.
#[derive(Clone, Debug)]
pub struct InvoiceMetadata {
    /// Customer display name.
    pub customer_name: String,
    /// Customer address.
    pub customer_address: String,
    /// Tax identifier (free-form).
    pub tax_id: String,
    /// Line items.
    pub line_items: Vec<LineItemRecord>,
    /// Free-form notes.
    pub notes: String,
}

/// Bid data structure.
#[derive(Clone, Copy, Debug, PartialEq, Eq, Structural)]
pub struct Bid {
    pub bid_id: BytesN32,
    pub invoice_id: BytesN32,
    pub investor: Address,
    pub bid_amount: i128,
    pub expected_return: i128,
    pub timestamp: u64,
    pub status: BidStatus,
    pub expiration_timestamp: u64,
}

impl View for Bid {
    type V = Bid;

    open spec fn view(&self) -> Bid {
        *self
    }
}

impl TableValue for Bid {
    fn copy_value(&self) -> (r: Self) {
        *self
    }
}

/// Insurance coverage record.
#[derive(Clone, Copy, Debug, PartialEq, Eq, Structural)]
pub struct InsuranceCoverage {
    pub provider: Address,
    pub coverage_percentage: u32,
    pub coverage_amount: i128,
    pub premium_amount: i128,
    pub active: bool,
}

/// Investment data structure.
#[derive(Clone, Debug)]
pub struct Investment {
    pub investment_id: BytesN32,
    pub invoice_id: BytesN32,
    pub investor: Address,
    pub amount: i128,
    pub funded_at: u64,
    pub status: InvestmentStatus,
    pub insurance: Vec<InsuranceCoverage>,
}

/// The abstract value of an investment, its insurance taken as a sequence.
pub struct InvestmentView {
    pub investment_id: BytesN32,
    pub invoice_id: BytesN32,
    pub investor: Address,
    pub amount: i128,
    pub funded_at: u64,
    pub status: InvestmentStatus,
    pub insurance: Seq<InsuranceCoverage>,
}

impl View for Investment {
    type V = InvestmentView;

    open spec fn view(&self) -> InvestmentView {
        InvestmentView {
            investment_id: self.investment_id,
            invoice_id: self.invoice_id,
            investor: self.investor,
            amount: self.amount,
            funded_at: self.funded_at,
            status: self.status,
            insurance: self.insurance@,
        }
    }
}

impl TableValue for Investment {
    fn copy_value(&self) -> (r: Self) {
        let mut insurance: Vec<InsuranceCoverage> = Vec::new();
        let mut i: usize = 0;
        while i < self.insurance.len()
            invariant
                i <= self.insurance@.len(),
                insurance@ == self.insurance@.take(i as int),
            decreases self.insurance@.len() - i,
        {
            insurance.push(self.insurance[i]);
            i = i + 1;
            assert(insurance@ =~= self.insurance@.take(i as int));
        }
        assert(self.insurance@.take(self.insurance@.len() as int) =~= self.insurance@);
        Investment {
            investment_id: self.investment_id,
            invoice_id: self.invoice_id,
            investor: self.investor,
            amount: self.amount,
            funded_at: self.funded_at,
            status: self.status,
            insurance,
        }
    }
}

/// Platform fee configuration.
#[derive(Clone, Copy, Debug, PartialEq, Eq, Structural)]
pub struct PlatformFeeConfig {
    pub fee_bps: u32,
    pub treasury_address: Option<Address>,
    pub updated_at: u64,
    pub updated_by: Address,
}

/// Search relevance rank for invoice search results.
#[derive(Clone, Copy, Debug, PartialEq, Eq, Structural, PartialOrd, Ord, Hash)]
pub enum SearchRank {
    Other,
    PartialMatch,
    ExactId,
}

/// A single search result entry.
#[derive(Clone, Copy, Debug, PartialEq, Eq, Structural)]
pub struct SearchResult {
    pub invoice_id: BytesN32,
    pub rank: SearchRank,
    pub created_at: u64,
}

/// Report returned by the paginated index rebuild.
///
/// The rebuild is paginated and resumable: pass `next_offset` as the
/// `offset` on the next call, with a `limit` of at least 1. Every invoice ID
/// has been handled once a call scans nothing (`scanned == 0`).
#[derive(Clone, Copy, Debug, PartialEq, Eq, Structural)]
pub struct RebuildReport {
    /// Number of invoice IDs examined in this page.
    pub scanned: u32,
    /// Number of records repaired or rewritten by the rebuild.
    pub reindexed: u32,
    /// Offset to pass on the next call.
    pub next_offset: u32,
}

/// Report returned by the paginated prune.
///
/// The prune is paginated: `next_offset` is the end of the page in the ID
/// list as it stood before the call. The pruned IDs leave that list, so the
/// first ID after the page now sits at `next_offset - pruned`; resuming
/// from there, with a `limit` of at least 1, handles every invoice ID once
/// a call scans nothing (`scanned == 0`).
#[derive(Clone, Copy, Debug, PartialEq, Eq, Structural)]
pub struct PruneReport {
    /// Number of invoice IDs examined in this page.
    pub scanned: u32,
    /// Number of invoices actually pruned (deleted).
    pub pruned: u32,
    /// Offset to pass on the next call.
    pub next_offset: u32,
}

} // verus!
