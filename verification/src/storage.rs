//! Storage management for the invoice-factoring protocol: the storage keys,
//! the secondary indexes over invoices, and the operations that keep the
//! invoice records and their indexes in step.
//!
//! ## Invariants maintained
//! - Each invoice exists in exactly one status index, the one of its status.
//! - When the status changes, the invoice leaves the old status index and
//!   joins the new one in the same operation.
//! - No invoice ID in any status index references a non-existent record.

use vstd::prelude::*;

use crate::bid::BidStorage;
use crate::investment::InvestmentStorage;
use crate::ledger::{list_of, IndexKey, IndexKeyView, Ledger, LedgerModel};
use crate::symbol::Symbol;
use crate::table::TableValue;
use crate::protocol_limits::spec_is_active_status;
use crate::types::{opt_string_view, InvoiceMetadata, PlatformFeeConfig, PruneReport, RebuildReport, same_opt_string, same_strings, strings_view, Address,
    BidStatus, BytesN32, InvestmentStatus, Invoice, InvoiceCategory, InvoiceStatus, InvoiceView};

verus! {

/// Time-to-live, in ledgers, to which persistent entries are extended:
/// 30 days at 5 seconds per ledger.
pub const PERSISTENT_TTL_THRESHOLD: u64 = 518_400;

/// The threshold and the target, in ledgers, of a persistent entry's
/// time-to-live extension: `PERSISTENT_TTL_THRESHOLD` as a `u32`, or 0
/// where it does not fit one.
pub fn persistent_ttl_extension() -> (r: u32)
    ensures
        r == (if PERSISTENT_TTL_THRESHOLD <= u32::MAX { PERSISTENT_TTL_THRESHOLD as u32 } else { 0u32 }),
        r == 518_400,
{
    if PERSISTENT_TTL_THRESHOLD <= u32::MAX as u64 {
        PERSISTENT_TTL_THRESHOLD as u32
    } else {
        0
    }
}

/// Keys of the primary records in persistent storage.
#[derive(Clone, Copy, Debug, PartialEq, Eq, Structural)]
pub enum DataKey {
    Invoice(BytesN32),
    Bid(BytesN32),
    Investment(BytesN32),
    FrozenInvoice(BytesN32),
}

/// Counter and configuration keys of the contract.
///
/// Each key is persisted on-chain: renaming a symbol makes the value stored
/// under the old name unreadable.
pub struct StorageKeys;

impl StorageKeys {
    /// Instance-storage key of the platform fee configuration.
    pub fn platform_fees() -> (r: Symbol)
        ensures
            r == Symbol::spec_short("fees"@),
    {
        proof {
            reveal_strlit("fees");
        }
        Symbol::short("fees")
    }

    /// Persistent key of the invoice counter.
    pub fn invoice_count() -> (r: Symbol)
        ensures
            r == Symbol::spec_short("inv_count"@),
    {
        proof {
            reveal_strlit("inv_count");
        }
        Symbol::short("inv_count")
    }

    /// Persistent key of the bid counter.
    pub fn bid_count() -> (r: Symbol)
        ensures
            r == Symbol::spec_short("bid_count"@),
    {
        proof {
            reveal_strlit("bid_count");
        }
        Symbol::short("bid_count")
    }

    /// Persistent key of the investment counter.
    pub fn investment_count() -> (r: Symbol)
        ensures
            r == Symbol::spec_short("inv_cnt"@),
    {
        proof {
            reveal_strlit("inv_cnt");
        }
        Symbol::short("inv_cnt")
    }

    /// Instance-storage key of the pending treasury address during a rotation.
    pub fn pending_treasury() -> (r: Symbol)
        ensures
            r == Symbol::spec_short("pnd_trs"@),
    {
        proof {
            reveal_strlit("pnd_trs");
        }
        Symbol::short("pnd_trs")
    }

    /// Instance-storage key of the pending treasury execution timestamp.
    pub fn pending_treasury_ts() -> (r: Symbol)
        ensures
            r == Symbol::spec_short("pnd_tr_ts"@),
    {
        proof {
            reveal_strlit("pnd_tr_ts");
        }
        Symbol::short("pnd_tr_ts")
    }

    /// Instance-storage key of the view-only context flag.
    pub fn view_only() -> (r: Symbol)
        ensures
            r == Symbol::spec_short("view_onl"@),
    {
        proof {
            reveal_strlit("view_onl");
        }
        Symbol::short("view_onl")
    }
}

/// The symbol name of each invoice status bucket.
pub open spec fn invoice_status_name(status: InvoiceStatus) -> Seq<char> {
    match status {
        InvoiceStatus::Pending => "pending"@,
        InvoiceStatus::Verified => "verified"@,
        InvoiceStatus::Funded => "funded"@,
        InvoiceStatus::Paid => "paid"@,
        InvoiceStatus::Defaulted => "defaulted"@,
        InvoiceStatus::Cancelled => "cancelled"@,
        InvoiceStatus::Refunded => "refunded"@,
    }
}

/// The symbol name of each bid status bucket.
pub open spec fn bid_status_name(status: BidStatus) -> Seq<char> {
    match status {
        BidStatus::Placed => "placed"@,
        BidStatus::Withdrawn => "withdrawn"@,
        BidStatus::Accepted => "accepted"@,
        BidStatus::Expired => "expired"@,
        BidStatus::Cancelled => "cancelled"@,
    }
}

/// The symbol name of each investment status bucket.
pub open spec fn investment_status_name(status: InvestmentStatus) -> Seq<char> {
    match status {
        InvestmentStatus::Active => "active"@,
        InvestmentStatus::Withdrawn => "withdrawn"@,
        InvestmentStatus::Completed => "completed"@,
        InvestmentStatus::Defaulted => "invst_dft"@,
        InvestmentStatus::Refunded => "invst_rfd"@,
    }
}

/// The symbol name of each invoice category bucket.
pub open spec fn category_name(category: InvoiceCategory) -> Seq<char> {
    match category {
        InvoiceCategory::Services => "services"@,
        InvoiceCategory::Goods => "goods"@,
        InvoiceCategory::Consulting => "consult"@,
        InvoiceCategory::Logistics => "logist"@,
        InvoiceCategory::Products => "products"@,
        InvoiceCategory::Manufacturing => "manufac"@,
        InvoiceCategory::Technology => "tech"@,
        InvoiceCategory::Healthcare => "health"@,
        InvoiceCategory::Other => "other"@,
    }
}

/// Key of the invoice list of a business.
pub open spec fn business_key(business: Address) -> IndexKeyView {
    IndexKeyView::ByAddress(Symbol::spec_short("inv_bus"@), business)
}

/// Key of the invoice list of a status.
pub open spec fn status_key(status: InvoiceStatus) -> IndexKeyView {
    IndexKeyView::BySymbol(Symbol::spec_short("inv_st"@), Symbol::spec_short(invoice_status_name(status)))
}

/// Key of the invoice list of a customer name.
pub open spec fn customer_key(name: Seq<char>) -> IndexKeyView {
    IndexKeyView::ByString(Symbol::spec_short("inv_cust"@), name)
}

/// Key of the invoice list of a tax identifier.
pub open spec fn tax_id_key(tax_id: Seq<char>) -> IndexKeyView {
    IndexKeyView::ByString(Symbol::spec_short("inv_taxid"@), tax_id)
}

/// Key of the invoice list of a tag.
pub open spec fn tag_key(tag: Seq<char>) -> IndexKeyView {
    IndexKeyView::ByString(Symbol::spec_short("inv_tag"@), tag)
}

/// Key of the invoice list of a category.
pub open spec fn category_key(category: InvoiceCategory) -> IndexKeyView {
    IndexKeyView::BySymbol(Symbol::spec_short("inv_cat"@), Symbol::spec_short(category_name(category)))
}

/// Key of the bid list of an invoice.
pub open spec fn bids_by_invoice_key(invoice_id: BytesN32) -> IndexKeyView {
    IndexKeyView::ByBytes(Symbol::spec_short("bids_inv"@), invoice_id)
}

/// Key of the bid list of an investor.
pub open spec fn bids_by_investor_key(investor: Address) -> IndexKeyView {
    IndexKeyView::ByAddress(Symbol::spec_short("bids_invr"@), investor)
}

/// Key of the investment list of an investor.
pub open spec fn investments_by_investor_key(investor: Address) -> IndexKeyView {
    IndexKeyView::ByAddress(Symbol::spec_short("inv_invst"@), investor)
}

/// Secondary indexes for efficient querying.
///
/// Every method produces a storage key that is persisted on-chain; renaming
/// a symbol orphans the data stored under the old key.
pub struct Indexes;

impl Indexes {
    /// Persistent key of the invoice list owned by a business.
    pub fn invoices_by_business(business: &Address) -> (r: (Symbol, Address))
        ensures
            r == (Symbol::spec_short("inv_bus"@), *business),
    {
        proof {
            reveal_strlit("inv_bus");
        }
        (Symbol::short("inv_bus"), *business)
    }

    /// Persistent key of the invoice list in a status bucket.
    pub fn invoices_by_status(status: InvoiceStatus) -> (r: (Symbol, Symbol))
        ensures
            r == (Symbol::spec_short("inv_st"@), Symbol::spec_short(invoice_status_name(status))),
    {
        let status_symbol = match status {
            InvoiceStatus::Pending => {
                proof {
                    reveal_strlit("pending");
                }
                Symbol::short("pending")
            },
            InvoiceStatus::Verified => {
                proof {
                    reveal_strlit("verified");
                }
                Symbol::short("verified")
            },
            InvoiceStatus::Funded => {
                proof {
                    reveal_strlit("funded");
                }
                Symbol::short("funded")
            },
            InvoiceStatus::Paid => {
                proof {
                    reveal_strlit("paid");
                }
                Symbol::short("paid")
            },
            InvoiceStatus::Defaulted => {
                proof {
                    reveal_strlit("defaulted");
                }
                Symbol::short("defaulted")
            },
            InvoiceStatus::Cancelled => {
                proof {
                    reveal_strlit("cancelled");
                }
                Symbol::short("cancelled")
            },
            InvoiceStatus::Refunded => {
                proof {
                    reveal_strlit("refunded");
                }
                Symbol::short("refunded")
            },
        };
        proof {
            reveal_strlit("inv_st");
        }
        (Symbol::short("inv_st"), status_symbol)
    }

    /// Persistent key of the bid list attached to an invoice.
    pub fn bids_by_invoice(invoice_id: &BytesN32) -> (r: (Symbol, BytesN32))
        ensures
            r == (Symbol::spec_short("bids_inv"@), *invoice_id),
    {
        proof {
            reveal_strlit("bids_inv");
        }
        (Symbol::short("bids_inv"), *invoice_id)
    }

    /// Persistent key of the bid list owned by an investor.
    pub fn bids_by_investor(investor: &Address) -> (r: (Symbol, Address))
        ensures
            r == (Symbol::spec_short("bids_invr"@), *investor),
    {
        proof {
            reveal_strlit("bids_invr");
        }
        (Symbol::short("bids_invr"), *investor)
    }

    /// Persistent key of the bid list in a status bucket.
    pub fn bids_by_status(status: BidStatus) -> (r: (Symbol, Symbol))
        ensures
            r == (Symbol::spec_short("bids_stat"@), Symbol::spec_short(bid_status_name(status))),
    {
        let status_symbol = match status {
            BidStatus::Placed => {
                proof {
                    reveal_strlit("placed");
                }
                Symbol::short("placed")
            },
            BidStatus::Withdrawn => {
                proof {
                    reveal_strlit("withdrawn");
                }
                Symbol::short("withdrawn")
            },
            BidStatus::Accepted => {
                proof {
                    reveal_strlit("accepted");
                }
                Symbol::short("accepted")
            },
            BidStatus::Expired => {
                proof {
                    reveal_strlit("expired");
                }
                Symbol::short("expired")
            },
            BidStatus::Cancelled => {
                proof {
                    reveal_strlit("cancelled");
                }
                Symbol::short("cancelled")
            },
        };
        proof {
            reveal_strlit("bids_stat");
        }
        (Symbol::short("bids_stat"), status_symbol)
    }

    /// Persistent key of the investment list attached to an invoice.
    pub fn investments_by_invoice(invoice_id: &BytesN32) -> (r: (Symbol, BytesN32))
        ensures
            r == (Symbol::spec_short("invst_inv"@), *invoice_id),
    {
        proof {
            reveal_strlit("invst_inv");
        }
        (Symbol::short("invst_inv"), *invoice_id)
    }

    /// Persistent key of the investment list owned by an investor.
    pub fn investments_by_investor(investor: &Address) -> (r: (Symbol, Address))
        ensures
            r == (Symbol::spec_short("inv_invst"@), *investor),
    {
        proof {
            reveal_strlit("inv_invst");
        }
        (Symbol::short("inv_invst"), *investor)
    }

    /// Persistent key of the investment list in a status bucket. It shares the
    /// `inv_st` prefix with the invoice status buckets; the status symbol is
    /// the discriminator, so no investment bucket is an invoice bucket (the
    /// defaulted and refunded investment buckets are named `invst_dft` and
    /// `invst_rfd` for that reason).
    pub fn investments_by_status(status: InvestmentStatus) -> (r: (Symbol, Symbol))
        ensures
            r == (Symbol::spec_short("inv_st"@), Symbol::spec_short(investment_status_name(status))),
    {
        let status_symbol = match status {
            InvestmentStatus::Active => {
                proof {
                    reveal_strlit("active");
                }
                Symbol::short("active")
            },
            InvestmentStatus::Withdrawn => {
                proof {
                    reveal_strlit("withdrawn");
                }
                Symbol::short("withdrawn")
            },
            InvestmentStatus::Completed => {
                proof {
                    reveal_strlit("completed");
                }
                Symbol::short("completed")
            },
            InvestmentStatus::Defaulted => {
                proof {
                    reveal_strlit("invst_dft");
                }
                Symbol::short("invst_dft")
            },
            InvestmentStatus::Refunded => {
                proof {
                    reveal_strlit("invst_rfd");
                }
                Symbol::short("invst_rfd")
            },
        };
        proof {
            reveal_strlit("inv_st");
        }
        (Symbol::short("inv_st"), status_symbol)
    }

    /// Persistent key of the invoice list indexed by customer name.
    pub fn invoices_by_customer(customer_name: &String) -> (r: (Symbol, String))
        ensures
            r.0 == Symbol::spec_short("inv_cust"@),
            r.1 == *customer_name,
    {
        proof {
            reveal_strlit("inv_cust");
        }
        (Symbol::short("inv_cust"), customer_name.clone())
    }

    /// Persistent key of the invoice list indexed by tax identifier.
    pub fn invoices_by_tax_id(tax_id: &String) -> (r: (Symbol, String))
        ensures
            r.0 == Symbol::spec_short("inv_taxid"@),
            r.1 == *tax_id,
    {
        proof {
            reveal_strlit("inv_taxid");
        }
        (Symbol::short("inv_taxid"), tax_id.clone())
    }

    /// Persistent key of the invoice list indexed by a tag.
    pub fn invoices_by_tag(tag: &String) -> (r: (Symbol, String))
        ensures
            r.0 == Symbol::spec_short("inv_tag"@),
            r.1 == *tag,
    {
        proof {
            reveal_strlit("inv_tag");
        }
        (Symbol::short("inv_tag"), tag.clone())
    }

    /// Persistent key of the invoice list in a category bucket.
    pub fn invoices_by_category(category: InvoiceCategory) -> (r: (Symbol, Symbol))
        ensures
            r == (Symbol::spec_short("inv_cat"@), Symbol::spec_short(category_name(category))),
    {
        let cat_symbol = match category {
            InvoiceCategory::Services => {
                proof {
                    reveal_strlit("services");
                }
                Symbol::short("services")
            },
            InvoiceCategory::Goods => {
                proof {
                    reveal_strlit("goods");
                }
                Symbol::short("goods")
            },
            InvoiceCategory::Consulting => {
                proof {
                    reveal_strlit("consult");
                }
                Symbol::short("consult")
            },
            InvoiceCategory::Logistics => {
                proof {
                    reveal_strlit("logist");
                }
                Symbol::short("logist")
            },
            InvoiceCategory::Products => {
                proof {
                    reveal_strlit("products");
                }
                Symbol::short("products")
            },
            InvoiceCategory::Manufacturing => {
                proof {
                    reveal_strlit("manufac");
                }
                Symbol::short("manufac")
            },
            InvoiceCategory::Technology => {
                proof {
                    reveal_strlit("tech");
                }
                Symbol::short("tech")
            },
            InvoiceCategory::Healthcare => {
                proof {
                    reveal_strlit("health");
                }
                Symbol::short("health")
            },
            InvoiceCategory::Other => {
                proof {
                    reveal_strlit("other");
                }
                Symbol::short("other")
            },
        };
        proof {
            reveal_strlit("inv_cat");
        }
        (Symbol::short("inv_cat"), cat_symbol)
    }
}

/// The predicate "is not `id`".
pub open spec fn other_than(id: BytesN32) -> spec_fn(BytesN32) -> bool {
    |x: BytesN32| x != id
}

/// `lists` with `id` appended to the list under `k`, unless it is there already
/// (in which case nothing is written).
pub open spec fn with_id(lists: Map<IndexKeyView, Seq<BytesN32>>, k: IndexKeyView, id: BytesN32) -> Map<IndexKeyView, Seq<BytesN32>> {
    let l = list_of(lists, k);
    if l.contains(id) {
        lists
    } else {
        lists.insert(k, l.push(id))
    }
}

/// `lists` with the first occurrence of `id` removed from the list under `k`
/// (nothing is written when `id` does not occur).
pub open spec fn without_first(lists: Map<IndexKeyView, Seq<BytesN32>>, k: IndexKeyView, id: BytesN32) -> Map<IndexKeyView, Seq<BytesN32>> {
    let l = list_of(lists, k);
    match l.index_of_first(id) {
        Some(i) => lists.insert(k, l.remove(i)),
        None => lists,
    }
}

/// `lists` with the list under `k` rewritten without any occurrence of `id`.
pub open spec fn without_any(lists: Map<IndexKeyView, Seq<BytesN32>>, k: IndexKeyView, id: BytesN32) -> Map<IndexKeyView, Seq<BytesN32>> {
    lists.insert(k, list_of(lists, k).filter(other_than(id)))
}

/// `with_id` applied to the tag list of each tag, in order.
pub open spec fn with_id_in_tags(lists: Map<IndexKeyView, Seq<BytesN32>>, tags: Seq<String>, id: BytesN32) -> Map<IndexKeyView, Seq<BytesN32>>
    decreases tags.len(),
{
    if tags.len() == 0 {
        lists
    } else {
        with_id(with_id_in_tags(lists, tags.drop_last(), id), tag_key(tags.last()@), id)
    }
}

/// `without_any` applied to the tag list of each tag, in order.
pub open spec fn without_id_in_tags(lists: Map<IndexKeyView, Seq<BytesN32>>, tags: Seq<String>, id: BytesN32) -> Map<IndexKeyView, Seq<BytesN32>>
    decreases tags.len(),
{
    if tags.len() == 0 {
        lists
    } else {
        without_any(without_id_in_tags(lists, tags.drop_last(), id), tag_key(tags.last()@), id)
    }
}

/// The index writes made when an invoice is stored.
pub open spec fn store_lists(lists: Map<IndexKeyView, Seq<BytesN32>>, inv: InvoiceView) -> Map<IndexKeyView, Seq<BytesN32>> {
    let id = inv.id;
    let l1 = with_id(lists, business_key(inv.business), id);
    let l2 = with_id(l1, status_key(inv.status), id);
    let l3 = match inv.metadata_customer_name {
        Some(n) => with_id(l2, customer_key(n@), id),
        None => l2,
    };
    let l4 = match inv.metadata_tax_id {
        Some(t) => with_id(l3, tax_id_key(t@), id),
        None => l3,
    };
    let l5 = with_id(l4, category_key(inv.category), id);
    with_id_in_tags(l5, inv.tags, id)
}

/// The ledger after storing `inv`: the record is written under its ID and
/// the ID joins its business, status, customer, tax, category and tag lists.
pub open spec fn stored(m: LedgerModel, inv: InvoiceView) -> LedgerModel {
    LedgerModel { invoices: m.invoices.insert(inv.id, inv), lists: store_lists(m.lists, inv), ..m }
}

/// The index writes made when the record `old` is replaced by `new`.
pub open spec fn update_lists(lists: Map<IndexKeyView, Seq<BytesN32>>, old: InvoiceView, new: InvoiceView) -> Map<IndexKeyView, Seq<BytesN32>> {
    let id = new.id;
    let l1 = if old.status != new.status {
        with_id(without_first(lists, status_key(old.status), id), status_key(new.status), id)
    } else {
        lists
    };
    let l2 = if opt_string_view(old.metadata_customer_name) != opt_string_view(new.metadata_customer_name) {
        let a = match old.metadata_customer_name {
            Some(n) => without_any(l1, customer_key(n@), id),
            None => l1,
        };
        match new.metadata_customer_name {
            Some(n) => with_id(a, customer_key(n@), id),
            None => a,
        }
    } else {
        l1
    };
    let l3 = if opt_string_view(old.metadata_tax_id) != opt_string_view(new.metadata_tax_id) {
        let a = match old.metadata_tax_id {
            Some(t) => without_any(l2, tax_id_key(t@), id),
            None => l2,
        };
        match new.metadata_tax_id {
            Some(t) => with_id(a, tax_id_key(t@), id),
            None => a,
        }
    } else {
        l2
    };
    let l4 = if old.category != new.category {
        with_id(without_any(l3, category_key(old.category), id), category_key(new.category), id)
    } else {
        l3
    };
    if strings_view(old.tags) != strings_view(new.tags) {
        with_id_in_tags(without_id_in_tags(l4, old.tags, id), new.tags, id)
    } else {
        l4
    }
}

/// The ledger after updating to `inv`: where a record with its ID exists the
/// indexes follow every changed field, and where none exists the ID is
/// indexed as a store would; the record is then written.
pub open spec fn updated(m: LedgerModel, inv: InvoiceView) -> LedgerModel {
    let lists = if m.invoices.contains_key(inv.id) {
        update_lists(m.lists, m.invoices[inv.id], inv)
    } else {
        store_lists(m.lists, inv)
    };
    LedgerModel { invoices: m.invoices.insert(inv.id, inv), lists, ..m }
}

/// The index writes made when the record `old` stored under `id` is deleted.
pub open spec fn delete_lists(lists: Map<IndexKeyView, Seq<BytesN32>>, old: InvoiceView, id: BytesN32) -> Map<IndexKeyView, Seq<BytesN32>> {
    let l1 = without_first(lists, status_key(old.status), id);
    let l2 = without_first(l1, business_key(old.business), id);
    let l3 = match old.metadata_customer_name {
        Some(n) => without_any(l2, customer_key(n@), id),
        None => l2,
    };
    let l4 = match old.metadata_tax_id {
        Some(t) => without_any(l3, tax_id_key(t@), id),
        None => l3,
    };
    let l5 = without_any(l4, category_key(old.category), id);
    without_id_in_tags(l5, old.tags, id)
}

/// The ledger after deleting `id`: where a record exists its ID leaves every
/// index the record names; the record itself is removed.
pub open spec fn deleted(m: LedgerModel, id: BytesN32) -> LedgerModel {
    let lists = if m.invoices.contains_key(id) {
        delete_lists(m.lists, m.invoices[id], id)
    } else {
        m.lists
    };
    LedgerModel { invoices: m.invoices.remove(id), lists, ..m }
}

/// The view-only flag of the ledger; absent means `false`.
pub open spec fn view_only_flag(m: LedgerModel) -> bool {
    m.view_only == Some(true)
}

/// Whether `id` occurs in `v`.
pub fn contains_id(v: &Vec<BytesN32>, id: &BytesN32) -> (r: bool)
    ensures
        r == v@.contains(*id),
{
    let mut i: usize = 0;
    while i < v.len()
        invariant
            i <= v@.len(),
            forall|j: int| 0 <= j < i ==> v@[j] != *id,
        decreases v@.len() - i,
    {
        if v[i] == *id {
            return true;
        }
        i = i + 1;
    }
    false
}

/// The position of the first occurrence of `id` in `v`.
fn first_position(v: &Vec<BytesN32>, id: &BytesN32) -> (r: Option<usize>)
    ensures
        match r {
            Some(i) => i < v@.len() && v@[i as int] == *id && v@.index_of_first(*id) == Some(i as int),
            None => v@.index_of_first(*id) is None,
        },
{
    let mut i: usize = 0;
    while i < v.len()
        invariant
            i <= v@.len(),
            forall|j: int| 0 <= j < i ==> v@[j] != *id,
        decreases v@.len() - i,
    {
        if v[i] == *id {
            proof {
                v@.index_of_first_ensures(*id);
            }
            return Some(i);
        }
        i = i + 1;
    }
    proof {
        v@.index_of_first_ensures(*id);
    }
    None
}

/// The elements of `v` other than `id`, in order.
fn without_id(v: &Vec<BytesN32>, id: &BytesN32) -> (r: Vec<BytesN32>)
    ensures
        r@ == v@.filter(other_than(*id)),
{
    let mut r: Vec<BytesN32> = Vec::new();
    let mut i: usize = 0;
    while i < v.len()
        invariant
            i <= v@.len(),
            r@ == v@.take(i as int).filter(other_than(*id)),
        decreases v@.len() - i,
    {
        proof {
            assert(v@.take(i as int + 1) =~= v@.take(i as int).push(v@[i as int]));
            v@.take(i as int).lemma_filter_push(v@[i as int], other_than(*id));
        }
        if v[i] != *id {
            r.push(v[i]);
        }
        i = i + 1;
    }
    assert(v@.take(v@.len() as int) =~= v@);
    r
}

/// Appends `id` to the list under `key` unless it is there already.
fn append_id(ledger: &mut Ledger, key: IndexKey, id: &BytesN32)
    ensures
        final(ledger)@ == (LedgerModel { lists: with_id(old(ledger)@.lists, key@, *id), ..old(ledger)@ }),
{
    let mut ids = ledger.read_list(&key);
    if !contains_id(&ids, id) {
        ids.push(*id);
        ledger.write_list(key, ids);
    }
}

/// Removes the first occurrence of `id` from the list under `key`, writing
/// the list back only when `id` occurs.
fn remove_first_id(ledger: &mut Ledger, key: IndexKey, id: &BytesN32)
    ensures
        final(ledger)@ == (LedgerModel { lists: without_first(old(ledger)@.lists, key@, *id), ..old(ledger)@ }),
{
    let mut ids = ledger.read_list(&key);
    match first_position(&ids, id) {
        Some(pos) => {
            ids.remove(pos);
            ledger.write_list(key, ids);
        },
        None => {},
    }
}

/// Rewrites the list under `key` without any occurrence of `id`.
fn remove_all_ids(ledger: &mut Ledger, key: IndexKey, id: &BytesN32)
    ensures
        final(ledger)@ == (LedgerModel { lists: without_any(old(ledger)@.lists, key@, *id), ..old(ledger)@ }),
{
    let ids = ledger.read_list(&key);
    let filtered = without_id(&ids, id);
    ledger.write_list(key, filtered);
}

/// The value of the counter under `key`; absent means `0`.
pub open spec fn counter_value(m: LedgerModel, key: Symbol) -> u64 {
    if m.counters.contains_key(key) {
        m.counters[key]
    } else {
        0
    }
}

/// `n + 1`, or `n` where that would pass `u64::MAX`.
pub open spec fn saturating_succ(n: u64) -> u64 {
    if n == u64::MAX {
        n
    } else {
        (n + 1) as u64
    }
}


/// The ledger with the frozen flag of `id` set (`frozen`) or removed.
pub open spec fn with_frozen(m: LedgerModel, id: BytesN32, frozen: bool) -> LedgerModel {
    LedgerModel {
        frozen: if frozen {
            m.frozen.insert(id, true)
        } else {
            m.frozen.remove(id)
        },
        ..m
    }
}

/// The frozen flag of `id`; absent means `false`.
pub open spec fn frozen_flag(m: LedgerModel, id: BytesN32) -> bool {
    m.frozen.contains_key(id) && m.frozen[id]
}

/// The ledger after the invoice counter advances by one (saturating).
pub open spec fn counted(m: LedgerModel) -> LedgerModel {
    LedgerModel {
        counters: m.counters.insert(
            Symbol::spec_short("inv_count"@),
            saturating_succ(counter_value(m, Symbol::spec_short("inv_count"@))),
        ),
        ..m
    }
}

/// The nine invoice categories, in the order in which they are listed.
pub open spec fn all_categories() -> Seq<InvoiceCategory> {
    seq![
        InvoiceCategory::Goods,
        InvoiceCategory::Logistics,
        InvoiceCategory::Services,
        InvoiceCategory::Products,
        InvoiceCategory::Consulting,
        InvoiceCategory::Manufacturing,
        InvoiceCategory::Technology,
        InvoiceCategory::Healthcare,
        InvoiceCategory::Other,
    ]
}

/// Storage operations for invoices.
pub struct InvoiceStorage;

impl InvoiceStorage {
    fn business_index(business: &Address) -> (r: IndexKey)
        ensures
            r@ == business_key(*business),
    {
        let (a, b) = Indexes::invoices_by_business(business);
        IndexKey::ByAddress(a, b)
    }

    fn status_index(status: InvoiceStatus) -> (r: IndexKey)
        ensures
            r@ == status_key(status),
    {
        let (a, b) = Indexes::invoices_by_status(status);
        IndexKey::BySymbol(a, b)
    }

    fn customer_index(customer_name: &String) -> (r: IndexKey)
        ensures
            r@ == customer_key(customer_name@),
    {
        let (a, b) = Indexes::invoices_by_customer(customer_name);
        IndexKey::ByString(a, b)
    }

    fn tax_id_index(tax_id: &String) -> (r: IndexKey)
        ensures
            r@ == tax_id_key(tax_id@),
    {
        let (a, b) = Indexes::invoices_by_tax_id(tax_id);
        IndexKey::ByString(a, b)
    }

    fn tag_index(tag: &String) -> (r: IndexKey)
        ensures
            r@ == tag_key(tag@),
    {
        let (a, b) = Indexes::invoices_by_tag(tag);
        IndexKey::ByString(a, b)
    }

    fn category_index(category: InvoiceCategory) -> (r: IndexKey)
        ensures
            r@ == category_key(category),
    {
        let (a, b) = Indexes::invoices_by_category(category);
        IndexKey::BySymbol(a, b)
    }

    /// Stores an invoice and updates all of its secondary indexes.
    pub fn store(ledger: &mut Ledger, invoice: &Invoice)
        requires
            !view_only_flag(old(ledger)@),
        ensures
            final(ledger)@ == stored(old(ledger)@, invoice@),
    {
        ledger.invoices.insert(invoice.id, invoice.copy_value());
        Self::add_all_indexes(ledger, invoice);
    }

    /// Lists the invoice's ID under its business, status, customer name, tax
    /// identifier, category and tags.
    fn add_all_indexes(ledger: &mut Ledger, invoice: &Invoice)
        ensures
            final(ledger)@ == (LedgerModel { lists: store_lists(old(ledger)@.lists, invoice@), ..old(ledger)@ }),
    {
        Self::add_to_business_index(ledger, &invoice.business, &invoice.id);
        Self::add_to_status_index(ledger, invoice.status, &invoice.id);
        match &invoice.metadata_customer_name {
            Some(name) => Self::add_to_customer_index(ledger, name, &invoice.id),
            None => {},
        }
        match &invoice.metadata_tax_id {
            Some(tax_id) => Self::add_to_tax_id_index(ledger, tax_id, &invoice.id),
            None => {},
        }
        Self::add_category_index(ledger, &invoice.category, &invoice.id);
        Self::add_tag_indexes(ledger, &invoice.tags, &invoice.id);
    }

    /// Same as [`InvoiceStorage::store`].
    pub fn store_invoice(ledger: &mut Ledger, invoice: &Invoice)
        requires
            !view_only_flag(old(ledger)@),
        ensures
            final(ledger)@ == stored(old(ledger)@, invoice@),
    {
        Self::store(ledger, invoice)
    }

    /// Sets or clears the frozen flag of an invoice.
    pub fn set_frozen(ledger: &mut Ledger, invoice_id: &BytesN32, frozen: bool)
        ensures
            final(ledger)@ == with_frozen(old(ledger)@, *invoice_id, frozen),
    {
        if frozen {
            ledger.frozen.insert(*invoice_id, true);
        } else {
            ledger.frozen.remove(invoice_id);
        }
    }

    /// The frozen flag of an invoice; `false` where none is stored.
    pub fn is_frozen(ledger: &Ledger, invoice_id: &BytesN32) -> (r: bool)
        ensures
            r == frozen_flag(ledger@, *invoice_id),
    {
        match ledger.frozen.get(invoice_id) {
            Some(frozen) => frozen,
            None => false,
        }
    }

    /// The invoice IDs of a business.
    pub fn get_by_business(ledger: &Ledger, business: &Address) -> (r: Vec<BytesN32>)
        ensures
            r@ == list_of(ledger@.lists, business_key(*business)),
    {
        ledger.read_list(&Self::business_index(business))
    }

    /// Same as [`InvoiceStorage::get_by_business`].
    pub fn get_business_invoices(ledger: &Ledger, business: &Address) -> (r: Vec<BytesN32>)
        ensures
            r@ == list_of(ledger@.lists, business_key(*business)),
    {
        Self::get_by_business(ledger, business)
    }

    /// All invoice categories.
    pub fn get_all_categories() -> (r: Vec<InvoiceCategory>)
        ensures
            r@ == all_categories(),
    {
        let mut categories: Vec<InvoiceCategory> = Vec::new();
        categories.push(InvoiceCategory::Goods);
        categories.push(InvoiceCategory::Logistics);
        categories.push(InvoiceCategory::Services);
        categories.push(InvoiceCategory::Products);
        categories.push(InvoiceCategory::Consulting);
        categories.push(InvoiceCategory::Manufacturing);
        categories.push(InvoiceCategory::Technology);
        categories.push(InvoiceCategory::Healthcare);
        categories.push(InvoiceCategory::Other);
        assert(categories@ =~= all_categories());
        categories
    }

    /// The invoice IDs in a status bucket.
    pub fn get_by_status(ledger: &Ledger, status: InvoiceStatus) -> (r: Vec<BytesN32>)
        ensures
            r@ == list_of(ledger@.lists, status_key(status)),
    {
        ledger.read_list(&Self::status_index(status))
    }

    /// Same as [`InvoiceStorage::get_by_status`].
    pub fn get_invoices_by_status(ledger: &Ledger, status: InvoiceStatus) -> (r: Vec<BytesN32>)
        ensures
            r@ == list_of(ledger@.lists, status_key(status)),
    {
        Self::get_by_status(ledger, status)
    }

    /// The invoice stored under `invoice_id`.
    pub fn get(ledger: &Ledger, invoice_id: &BytesN32) -> (r: Option<Invoice>)
        ensures
            match r {
                Some(inv) => ledger@.invoices.contains_key(*invoice_id) && inv@ == ledger@.invoices[*invoice_id],
                None => !ledger@.invoices.contains_key(*invoice_id),
            },
    {
        ledger.invoices.get(invoice_id)
    }

    /// Same as [`InvoiceStorage::get`].
    pub fn get_invoice(ledger: &Ledger, invoice_id: &BytesN32) -> (r: Option<Invoice>)
        ensures
            match r {
                Some(inv) => ledger@.invoices.contains_key(*invoice_id) && inv@ == ledger@.invoices[*invoice_id],
                None => !ledger@.invoices.contains_key(*invoice_id),
            },
    {
        Self::get(ledger, invoice_id)
    }

    /// Overwrites an invoice record. Where a record with the same ID exists,
    /// each index whose field changed drops the ID under the old value and
    /// gains it under the new one. Where none exists, the invoice is indexed
    /// as [`InvoiceStorage::store`] indexes it, so that it sits in the status
    /// index of its status.
    pub fn update(ledger: &mut Ledger, invoice: &Invoice)
        requires
            !view_only_flag(old(ledger)@),
        ensures
            final(ledger)@ == updated(old(ledger)@, invoice@),
            old(ledger)@.invoices.contains_key(invoice.id) ==> forall|s: Seq<char>|
                #[trigger] list_of(final(ledger)@.lists, customer_key(s)).contains(invoice.id) == if opt_string_view(
                    old(ledger)@.invoices[invoice.id].metadata_customer_name) != opt_string_view(invoice@.metadata_customer_name) {
                    (invoice@.metadata_customer_name is Some && invoice@.metadata_customer_name->0@ == s)
                        || (!(old(ledger)@.invoices[invoice.id].metadata_customer_name is Some
                            && old(ledger)@.invoices[invoice.id].metadata_customer_name->0@ == s)
                            && list_of(old(ledger)@.lists, customer_key(s)).contains(invoice.id))
                } else {
                    list_of(old(ledger)@.lists, customer_key(s)).contains(invoice.id)
                },
    {
        let ghost m0 = ledger@;
        let id = invoice.id;
        match ledger.invoices.get(&id) {
            Some(old) => {
                let ghost l0 = ledger@.lists;
                if old.status != invoice.status {
                    Self::remove_from_status_index(ledger, old.status, &id);
                    Self::add_to_status_index(ledger, invoice.status, &id);
                }
                if !same_opt_string(&old.metadata_customer_name, &invoice.metadata_customer_name) {
                    match &old.metadata_customer_name {
                        Some(name) => Self::remove_from_customer_index(ledger, name, &id),
                        None => {},
                    }
                    match &invoice.metadata_customer_name {
                        Some(name) => Self::add_to_customer_index(ledger, name, &id),
                        None => {},
                    }
                }
                if !same_opt_string(&old.metadata_tax_id, &invoice.metadata_tax_id) {
                    match &old.metadata_tax_id {
                        Some(tax_id) => Self::remove_from_tax_id_index(ledger, tax_id, &id),
                        None => {},
                    }
                    match &invoice.metadata_tax_id {
                        Some(tax_id) => Self::add_to_tax_id_index(ledger, tax_id, &id),
                        None => {},
                    }
                }
                if old.category != invoice.category {
                    Self::remove_category_index(ledger, &old.category, &id);
                    Self::add_category_index(ledger, &invoice.category, &id);
                }
                if !same_strings(&old.tags, &invoice.tags) {
                    Self::remove_tag_indexes(ledger, &old.tags, &id);
                    Self::add_tag_indexes(ledger, &invoice.tags, &id);
                }
                assert(ledger@.lists == update_lists(l0, old@, invoice@));
            },
            None => {
                Self::add_all_indexes(ledger, invoice);
            },
        }
        ledger.invoices.insert(id, invoice.copy_value());
        proof {
            if m0.invoices.contains_key(id) {
                assert forall|s: Seq<char>| #[trigger] list_of(ledger@.lists, customer_key(s)).contains(id) == if opt_string_view(
                    m0.invoices[id].metadata_customer_name) != opt_string_view(invoice@.metadata_customer_name) {
                    (invoice@.metadata_customer_name is Some && invoice@.metadata_customer_name->0@ == s)
                        || (!(m0.invoices[id].metadata_customer_name is Some && m0.invoices[id].metadata_customer_name->0@ == s)
                            && list_of(m0.lists, customer_key(s)).contains(id))
                } else {
                    list_of(m0.lists, customer_key(s)).contains(id)
                } by {
                    crate::laws::law_update_moves_metadata_entries(m0, invoice@, s, invoice@.category);
                }
            }
        }
    }

    /// Same as [`InvoiceStorage::update`].
    pub fn update_invoice(ledger: &mut Ledger, invoice: &Invoice)
        requires
            !view_only_flag(old(ledger)@),
        ensures
            final(ledger)@ == updated(old(ledger)@, invoice@),
    {
        Self::update(ledger, invoice)
    }

    /// Advances the invoice counter by one (saturating) and returns its new value.
    pub fn next_count(ledger: &mut Ledger) -> (r: u64)
        ensures
            r == saturating_succ(counter_value(old(ledger)@, Symbol::spec_short("inv_count"@))),
            final(ledger)@ == counted(old(ledger)@),
    {
        let key = StorageKeys::invoice_count();
        let current: u64 = match ledger.counters.get(&key) {
            Some(c) => c,
            None => 0,
        };
        let next = current.saturating_add(1);
        ledger.counters.insert(key, next);
        next
    }

    /// The current value of the invoice counter.
    pub fn get_total_count(ledger: &Ledger) -> (r: u64)
        ensures
            r == counter_value(ledger@, Symbol::spec_short("inv_count"@)),
    {
        match ledger.counters.get(&StorageKeys::invoice_count()) {
            Some(c) => c,
            None => 0,
        }
    }

    /// Deletes an invoice record, first removing its ID from every index the
    /// record names.
    pub fn delete_invoice(ledger: &mut Ledger, invoice_id: &BytesN32)
        requires
            !view_only_flag(old(ledger)@),
        ensures
            final(ledger)@ == deleted(old(ledger)@, *invoice_id),
    {
        match ledger.invoices.get(invoice_id) {
            Some(invoice) => {
                let ghost l0 = ledger@.lists;
                Self::remove_from_status_index(ledger, invoice.status, invoice_id);
                Self::remove_from_business_index(ledger, &invoice.business, invoice_id);
                match &invoice.metadata_customer_name {
                    Some(name) => Self::remove_from_customer_index(ledger, name, invoice_id),
                    None => {},
                }
                match &invoice.metadata_tax_id {
                    Some(tax_id) => Self::remove_from_tax_id_index(ledger, tax_id, invoice_id),
                    None => {},
                }
                Self::remove_category_index(ledger, &invoice.category, invoice_id);
                Self::remove_tag_indexes(ledger, &invoice.tags, invoice_id);
                assert(ledger@.lists == delete_lists(l0, invoice@, *invoice_id));
            },
            None => {},
        }
        ledger.invoices.remove(invoice_id);
    }

    fn add_to_business_index(ledger: &mut Ledger, business: &Address, invoice_id: &BytesN32)
        ensures
            final(ledger)@ == (LedgerModel {
                lists: with_id(old(ledger)@.lists, business_key(*business), *invoice_id),
                ..old(ledger)@
            }),
    {
        append_id(ledger, Self::business_index(business), invoice_id)
    }

    fn remove_from_business_index(ledger: &mut Ledger, business: &Address, invoice_id: &BytesN32)
        ensures
            final(ledger)@ == (LedgerModel {
                lists: without_first(old(ledger)@.lists, business_key(*business), *invoice_id),
                ..old(ledger)@
            }),
    {
        remove_first_id(ledger, Self::business_index(business), invoice_id)
    }

    fn add_to_status_index(ledger: &mut Ledger, status: InvoiceStatus, invoice_id: &BytesN32)
        ensures
            final(ledger)@ == (LedgerModel {
                lists: with_id(old(ledger)@.lists, status_key(status), *invoice_id),
                ..old(ledger)@
            }),
    {
        append_id(ledger, Self::status_index(status), invoice_id)
    }

    fn remove_from_status_index(ledger: &mut Ledger, status: InvoiceStatus, invoice_id: &BytesN32)
        ensures
            final(ledger)@ == (LedgerModel {
                lists: without_first(old(ledger)@.lists, status_key(status), *invoice_id),
                ..old(ledger)@
            }),
    {
        remove_first_id(ledger, Self::status_index(status), invoice_id)
    }

    /// Adds an invoice ID to a status bucket unless it is there already.
    pub fn add_to_status_invoices(ledger: &mut Ledger, status: InvoiceStatus, invoice_id: &BytesN32)
        ensures
            final(ledger)@ == (LedgerModel {
                lists: with_id(old(ledger)@.lists, status_key(status), *invoice_id),
                ..old(ledger)@
            }),
    {
        Self::add_to_status_index(ledger, status, invoice_id)
    }

    /// Removes the first occurrence of an invoice ID from a status bucket.
    pub fn remove_from_status_invoices(ledger: &mut Ledger, status: InvoiceStatus, invoice_id: &BytesN32)
        ensures
            final(ledger)@ == (LedgerModel {
                lists: without_first(old(ledger)@.lists, status_key(status), *invoice_id),
                ..old(ledger)@
            }),
    {
        Self::remove_from_status_index(ledger, status, invoice_id)
    }

    /// Adds an invoice ID to the list of a customer name unless it is there already.
    pub fn add_to_customer_index(ledger: &mut Ledger, customer_name: &String, invoice_id: &BytesN32)
        ensures
            final(ledger)@ == (LedgerModel {
                lists: with_id(old(ledger)@.lists, customer_key(customer_name@), *invoice_id),
                ..old(ledger)@
            }),
    {
        append_id(ledger, Self::customer_index(customer_name), invoice_id)
    }

    /// Rewrites the list of a customer name without the invoice ID.
    pub fn remove_from_customer_index(ledger: &mut Ledger, customer_name: &String, invoice_id: &BytesN32)
        ensures
            final(ledger)@ == (LedgerModel {
                lists: without_any(old(ledger)@.lists, customer_key(customer_name@), *invoice_id),
                ..old(ledger)@
            }),
    {
        remove_all_ids(ledger, Self::customer_index(customer_name), invoice_id)
    }

    /// Adds an invoice ID to the list of a tax identifier unless it is there already.
    pub fn add_to_tax_id_index(ledger: &mut Ledger, tax_id: &String, invoice_id: &BytesN32)
        ensures
            final(ledger)@ == (LedgerModel {
                lists: with_id(old(ledger)@.lists, tax_id_key(tax_id@), *invoice_id),
                ..old(ledger)@
            }),
    {
        append_id(ledger, Self::tax_id_index(tax_id), invoice_id)
    }

    /// Rewrites the list of a tax identifier without the invoice ID.
    pub fn remove_from_tax_id_index(ledger: &mut Ledger, tax_id: &String, invoice_id: &BytesN32)
        ensures
            final(ledger)@ == (LedgerModel {
                lists: without_any(old(ledger)@.lists, tax_id_key(tax_id@), *invoice_id),
                ..old(ledger)@
            }),
    {
        remove_all_ids(ledger, Self::tax_id_index(tax_id), invoice_id)
    }

    /// Adds an invoice ID to the list of a tag unless it is there already.
    pub fn add_tag_index(ledger: &mut Ledger, tag: &String, invoice_id: &BytesN32)
        ensures
            final(ledger)@ == (LedgerModel {
                lists: with_id(old(ledger)@.lists, tag_key(tag@), *invoice_id),
                ..old(ledger)@
            }),
    {
        append_id(ledger, Self::tag_index(tag), invoice_id)
    }

    /// Rewrites the list of a tag without the invoice ID.
    pub fn remove_tag_index(ledger: &mut Ledger, tag: &String, invoice_id: &BytesN32)
        ensures
            final(ledger)@ == (LedgerModel {
                lists: without_any(old(ledger)@.lists, tag_key(tag@), *invoice_id),
                ..old(ledger)@
            }),
    {
        remove_all_ids(ledger, Self::tag_index(tag), invoice_id)
    }

    /// Adds an invoice ID to the list of a category unless it is there already.
    pub fn add_category_index(ledger: &mut Ledger, category: &InvoiceCategory, invoice_id: &BytesN32)
        ensures
            final(ledger)@ == (LedgerModel {
                lists: with_id(old(ledger)@.lists, category_key(*category), *invoice_id),
                ..old(ledger)@
            }),
    {
        append_id(ledger, Self::category_index(*category), invoice_id)
    }

    /// Rewrites the list of a category without the invoice ID.
    pub fn remove_category_index(ledger: &mut Ledger, category: &InvoiceCategory, invoice_id: &BytesN32)
        ensures
            final(ledger)@ == (LedgerModel {
                lists: without_any(old(ledger)@.lists, category_key(*category), *invoice_id),
                ..old(ledger)@
            }),
    {
        remove_all_ids(ledger, Self::category_index(*category), invoice_id)
    }

    fn add_tag_indexes(ledger: &mut Ledger, tags: &Vec<String>, invoice_id: &BytesN32)
        ensures
            final(ledger)@ == (LedgerModel {
                lists: with_id_in_tags(old(ledger)@.lists, tags@, *invoice_id),
                ..old(ledger)@
            }),
    {
        let mut i: usize = 0;
        while i < tags.len()
            invariant
                i <= tags@.len(),
                ledger@ == (LedgerModel {
                    lists: with_id_in_tags(old(ledger)@.lists, tags@.take(i as int), *invoice_id),
                    ..old(ledger)@
                }),
            decreases tags@.len() - i,
        {
            Self::add_tag_index(ledger, &tags[i], invoice_id);
            proof {
                assert(tags@.take(i as int + 1).drop_last() =~= tags@.take(i as int));
            }
            i = i + 1;
        }
        assert(tags@.take(tags@.len() as int) =~= tags@);
    }

    fn remove_tag_indexes(ledger: &mut Ledger, tags: &Vec<String>, invoice_id: &BytesN32)
        ensures
            final(ledger)@ == (LedgerModel {
                lists: without_id_in_tags(old(ledger)@.lists, tags@, *invoice_id),
                ..old(ledger)@
            }),
    {
        let mut i: usize = 0;
        while i < tags.len()
            invariant
                i <= tags@.len(),
                ledger@ == (LedgerModel {
                    lists: without_id_in_tags(old(ledger)@.lists, tags@.take(i as int), *invoice_id),
                    ..old(ledger)@
                }),
            decreases tags@.len() - i,
        {
            Self::remove_tag_index(ledger, &tags[i], invoice_id);
            proof {
                assert(tags@.take(i as int + 1).drop_last() =~= tags@.take(i as int));
            }
            i = i + 1;
        }
        assert(tags@.take(tags@.len() as int) =~= tags@);
    }
}

/// The seven invoice statuses, in the order their buckets are scanned.
pub open spec fn all_statuses() -> Seq<InvoiceStatus> {
    seq![
        InvoiceStatus::Pending,
        InvoiceStatus::Verified,
        InvoiceStatus::Funded,
        InvoiceStatus::Paid,
        InvoiceStatus::Defaulted,
        InvoiceStatus::Cancelled,
        InvoiceStatus::Refunded,
    ]
}

/// `acc` followed by each element of `ids` that is not already present, in order.
pub open spec fn append_new(acc: Seq<BytesN32>, ids: Seq<BytesN32>) -> Seq<BytesN32>
    decreases ids.len(),
{
    if ids.len() == 0 {
        acc
    } else {
        let a = append_new(acc, ids.drop_last());
        if a.contains(ids.last()) {
            a
        } else {
            a.push(ids.last())
        }
    }
}

/// The IDs of the buckets of `statuses`, in bucket order, each ID once.
pub open spec fn ids_of_statuses(lists: Map<IndexKeyView, Seq<BytesN32>>, statuses: Seq<InvoiceStatus>) -> Seq<BytesN32>
    decreases statuses.len(),
{
    if statuses.len() == 0 {
        Seq::empty()
    } else {
        append_new(ids_of_statuses(lists, statuses.drop_last()), list_of(lists, status_key(statuses.last())))
    }
}

/// Every invoice ID of every status bucket, in bucket order, each ID once.
pub open spec fn all_invoice_ids(m: LedgerModel) -> Seq<BytesN32> {
    ids_of_statuses(m.lists, all_statuses())
}

/// The predicate "has a record whose average rating exceeds `threshold`".
pub open spec fn rated_above(m: LedgerModel, threshold: u32) -> spec_fn(BytesN32) -> bool {
    |id: BytesN32| m.invoices.contains_key(id) && match m.invoices[id].average_rating {
        Some(rating) => rating > threshold,
        None => false,
    }
}

/// The predicate "has a record in `category`".
pub open spec fn in_category(m: LedgerModel, category: InvoiceCategory) -> spec_fn(BytesN32) -> bool {
    |id: BytesN32| m.invoices.contains_key(id) && m.invoices[id].category == category
}

/// The predicate "has a record whose status is open".
pub open spec fn is_active_record(m: LedgerModel) -> spec_fn(BytesN32) -> bool {
    |id: BytesN32| m.invoices.contains_key(id) && spec_is_active_status(m.invoices[id].status)
}

/// The predicate "occurs in the list of every tag after the first".
pub open spec fn in_later_tag_lists(m: LedgerModel, tags: Seq<String>) -> spec_fn(BytesN32) -> bool {
    |id: BytesN32| forall|i: int| 1 <= i < tags.len() ==> #[trigger] list_of(m.lists, tag_key(tags[i]@)).contains(id)
}

/// The invoices carrying every one of `tags`: the IDs of the first tag's
/// list that occur in the list of each other tag; none for no tags.
pub open spec fn ids_with_all_tags(m: LedgerModel, tags: Seq<String>) -> Seq<BytesN32> {
    if tags.len() == 0 {
        Seq::empty()
    } else {
        list_of(m.lists, tag_key(tags[0]@)).filter(in_later_tag_lists(m, tags))
    }
}

/// `n`, or `u32::MAX` where `n` exceeds it.
pub open spec fn saturate_u32(n: int) -> u32 {
    if n > u32::MAX {
        u32::MAX
    } else {
        n as u32
    }
}

/// The IDs of `v` that satisfy `pred` where `present` tells which do.
fn keep_matching(v: &Vec<BytesN32>, keep: &Vec<bool>, pred: Ghost<spec_fn(BytesN32) -> bool>) -> (r: Vec<BytesN32>)
    requires
        keep@.len() == v@.len(),
        forall|i: int| 0 <= i < v@.len() ==> keep@[i] == (pred@)(#[trigger] v@[i]),
    ensures
        r@ == v@.filter(pred@),
{
    let mut r: Vec<BytesN32> = Vec::new();
    let mut i: usize = 0;
    while i < v.len()
        invariant
            i <= v@.len(),
            keep@.len() == v@.len(),
            forall|j: int| 0 <= j < v@.len() ==> keep@[j] == (pred@)(#[trigger] v@[j]),
            r@ == v@.take(i as int).filter(pred@),
        decreases v@.len() - i,
    {
        proof {
            assert(v@.take(i as int + 1) =~= v@.take(i as int).push(v@[i as int]));
            v@.take(i as int).lemma_filter_push(v@[i as int], pred@);
        }
        if keep[i] {
            r.push(v[i]);
        }
        i = i + 1;
    }
    assert(v@.take(v@.len() as int) =~= v@);
    r
}

impl InvoiceStorage {
    /// Every invoice ID found in the status buckets, scanned in the order
    /// Pending, Verified, Funded, Paid, Defaulted, Cancelled, Refunded, each ID once.
    pub fn get_all_invoice_ids(ledger: &Ledger) -> (r: Vec<BytesN32>)
        ensures
            r@ == all_invoice_ids(ledger@),
    {
        let mut all: Vec<BytesN32> = Vec::new();
        let mut statuses: Vec<InvoiceStatus> = Vec::new();
        statuses.push(InvoiceStatus::Pending);
        statuses.push(InvoiceStatus::Verified);
        statuses.push(InvoiceStatus::Funded);
        statuses.push(InvoiceStatus::Paid);
        statuses.push(InvoiceStatus::Defaulted);
        statuses.push(InvoiceStatus::Cancelled);
        statuses.push(InvoiceStatus::Refunded);
        assert(statuses@ =~= all_statuses());
        let mut s: usize = 0;
        while s < statuses.len()
            invariant
                statuses@ == all_statuses(),
                s <= statuses@.len(),
                all@ == ids_of_statuses(ledger@.lists, statuses@.take(s as int)),
            decreases statuses@.len() - s,
        {
            let ids = Self::get_by_status(ledger, statuses[s]);
            let ghost acc = all@;
            let mut j: usize = 0;
            while j < ids.len()
                invariant
                    j <= ids@.len(),
                    all@ == append_new(acc, ids@.take(j as int)),
                decreases ids@.len() - j,
            {
                proof {
                    assert(ids@.take(j as int + 1).drop_last() =~= ids@.take(j as int));
                }
                if !contains_id(&all, &ids[j]) {
                    all.push(ids[j]);
                }
                j = j + 1;
            }
            proof {
                assert(ids@.take(ids@.len() as int) =~= ids@);
                assert(statuses@.take(s as int + 1).drop_last() =~= statuses@.take(s as int));
            }
            s = s + 1;
        }
        assert(statuses@.take(statuses@.len() as int) =~= statuses@);
        all
    }

    /// The IDs of invoices whose average rating exceeds `threshold`, in the
    /// order of [`InvoiceStorage::get_all_invoice_ids`].
    pub fn get_invoices_with_rating_above(ledger: &Ledger, threshold: u32) -> (r: Vec<BytesN32>)
        ensures
            r@ == all_invoice_ids(ledger@).filter(rated_above(ledger@, threshold)),
            forall|x: BytesN32| #[trigger] r@.contains(x) <==> {
                &&& all_invoice_ids(ledger@).contains(x)
                &&& ledger@.invoices.contains_key(x)
                &&& ledger@.invoices[x].average_rating is Some
                &&& ledger@.invoices[x].average_rating->0 > threshold
            },
    {
        let all = Self::get_all_invoice_ids(ledger);
        let mut keep: Vec<bool> = Vec::new();
        let mut i: usize = 0;
        while i < all.len()
            invariant
                i <= all@.len(),
                keep@.len() == i,
                forall|j: int| 0 <= j < i ==> keep@[j] == (rated_above(ledger@, threshold))(#[trigger] all@[j]),
            decreases all@.len() - i,
        {
            let matches = match ledger.invoices.get_ref(&all[i]) {
                Some(invoice) => match invoice.average_rating {
                    Some(rating) => rating > threshold,
                    None => false,
                },
                None => false,
            };
            keep.push(matches);
            i = i + 1;
        }
        let r = keep_matching(&all, &keep, Ghost(rated_above(ledger@, threshold)));
        proof {
            assert forall|x: BytesN32| #[trigger] r@.contains(x) <==> {
                &&& all_invoice_ids(ledger@).contains(x)
                &&& ledger@.invoices.contains_key(x)
                &&& ledger@.invoices[x].average_rating is Some
                &&& ledger@.invoices[x].average_rating->0 > threshold
            } by {
                crate::laws::law_rating_query_selects_rated_above(ledger@, threshold, x);
            }
        }
        r
    }

    /// The IDs of a status bucket whose records are in `category`.
    pub fn get_invoices_by_category_and_status(ledger: &Ledger, category: InvoiceCategory, status: InvoiceStatus) -> (r: Vec<BytesN32>)
        ensures
            r@ == list_of(ledger@.lists, status_key(status)).filter(in_category(ledger@, category)),
    {
        let ids = Self::get_by_status(ledger, status);
        Self::select_category(ledger, &ids, category)
    }

    fn select_category(ledger: &Ledger, ids: &Vec<BytesN32>, category: InvoiceCategory) -> (r: Vec<BytesN32>)
        ensures
            r@ == ids@.filter(in_category(ledger@, category)),
    {
        let mut keep: Vec<bool> = Vec::new();
        let mut i: usize = 0;
        while i < ids.len()
            invariant
                i <= ids@.len(),
                keep@.len() == i,
                forall|j: int| 0 <= j < i ==> keep@[j] == (in_category(ledger@, category))(#[trigger] ids@[j]),
            decreases ids@.len() - i,
        {
            let matches = match ledger.invoices.get_ref(&ids[i]) {
                Some(invoice) => invoice.category == category,
                None => false,
            };
            keep.push(matches);
            i = i + 1;
        }
        keep_matching(ids, &keep, Ghost(in_category(ledger@, category)))
    }

    /// The invoice IDs of a customer name.
    pub fn get_invoices_by_customer(ledger: &Ledger, customer_name: &String) -> (r: Vec<BytesN32>)
        ensures
            r@ == list_of(ledger@.lists, customer_key(customer_name@)),
    {
        ledger.read_list(&Self::customer_index(customer_name))
    }

    /// Same as [`InvoiceStorage::get_invoices_by_customer`].
    pub fn get_by_customer(ledger: &Ledger, customer_name: &String) -> (r: Vec<BytesN32>)
        ensures
            r@ == list_of(ledger@.lists, customer_key(customer_name@)),
    {
        Self::get_invoices_by_customer(ledger, customer_name)
    }

    /// The invoice IDs of a tax identifier.
    pub fn get_invoices_by_tax_id(ledger: &Ledger, tax_id: &String) -> (r: Vec<BytesN32>)
        ensures
            r@ == list_of(ledger@.lists, tax_id_key(tax_id@)),
    {
        ledger.read_list(&Self::tax_id_index(tax_id))
    }

    /// Same as [`InvoiceStorage::get_invoices_by_tax_id`].
    pub fn get_by_tax_id(ledger: &Ledger, tax_id: &String) -> (r: Vec<BytesN32>)
        ensures
            r@ == list_of(ledger@.lists, tax_id_key(tax_id@)),
    {
        Self::get_invoices_by_tax_id(ledger, tax_id)
    }

    /// The IDs of all invoices whose records are in `category`, found by
    /// scanning every record named by the status buckets.
    pub fn get_invoices_by_category(ledger: &Ledger, category: &InvoiceCategory) -> (r: Vec<BytesN32>)
        ensures
            r@ == all_invoice_ids(ledger@).filter(in_category(ledger@, *category)),
    {
        let all = Self::get_all_invoice_ids(ledger);
        Self::select_category(ledger, &all, *category)
    }

    /// Same as [`InvoiceStorage::get_invoices_by_tag`].
    pub fn get_by_tag(ledger: &Ledger, tag: &String) -> (r: Vec<BytesN32>)
        ensures
            r@ == list_of(ledger@.lists, tag_key(tag@)),
    {
        Self::get_invoices_by_tag(ledger, tag)
    }

    /// Same as [`InvoiceStorage::get_invoices_by_category`].
    pub fn get_by_category(ledger: &Ledger, category: InvoiceCategory) -> (r: Vec<BytesN32>)
        ensures
            r@ == all_invoice_ids(ledger@).filter(in_category(ledger@, category)),
    {
        Self::get_invoices_by_category(ledger, &category)
    }

    /// The number of invoices in `category`, counted by scanning the records.
    pub fn get_invoice_count_by_category(ledger: &Ledger, category: &InvoiceCategory) -> (r: u32)
        requires
            all_invoice_ids(ledger@).filter(in_category(ledger@, *category)).len() <= u32::MAX,
        ensures
            r == all_invoice_ids(ledger@).filter(in_category(ledger@, *category)).len(),
    {
        Self::get_invoices_by_category(ledger, category).len() as u32
    }

    /// The invoice IDs of a category, read directly from the category index.
    pub fn get_invoices_by_category_from_index(ledger: &Ledger, category: &InvoiceCategory) -> (r: Vec<BytesN32>)
        ensures
            r@ == list_of(ledger@.lists, category_key(*category)),
    {
        ledger.read_list(&Self::category_index(*category))
    }

    /// The number of invoices in the index of a category.
    pub fn get_invoice_count_by_category_from_index(ledger: &Ledger, category: &InvoiceCategory) -> (r: u32)
        requires
            list_of(ledger@.lists, category_key(*category)).len() <= u32::MAX,
        ensures
            r == list_of(ledger@.lists, category_key(*category)).len(),
    {
        Self::get_invoices_by_category_from_index(ledger, category).len() as u32
    }

    /// The number of a business's invoices whose records are open (pending,
    /// verified or funded), saturating at `u32::MAX`.
    pub fn count_active_business_invoices(ledger: &Ledger, business: &Address) -> (r: u32)
        ensures
            r == saturate_u32(list_of(ledger@.lists, business_key(*business)).filter(is_active_record(ledger@)).len() as int),
    {
        let ids = Self::get_by_business(ledger, business);
        let ghost pred = is_active_record(ledger@);
        let mut count: u32 = 0;
        let mut i: usize = 0;
        while i < ids.len()
            invariant
                i <= ids@.len(),
                count == saturate_u32(ids@.take(i as int).filter(pred).len() as int),
                pred == is_active_record(ledger@),
            decreases ids@.len() - i,
        {
            proof {
                assert(ids@.take(i as int + 1) =~= ids@.take(i as int).push(ids@[i as int]));
                ids@.take(i as int).lemma_filter_push(ids@[i as int], pred);
            }
            match ledger.invoices.get_ref(&ids[i]) {
                Some(invoice) => {
                    if crate::protocol_limits::is_active_status(&invoice.status) {
                        count = count.saturating_add(1);
                    }
                },
                None => {},
            }
            i = i + 1;
        }
        assert(ids@.take(ids@.len() as int) =~= ids@);
        count
    }

    /// The invoice IDs of a tag.
    pub fn get_invoices_by_tag(ledger: &Ledger, tag: &String) -> (r: Vec<BytesN32>)
        ensures
            r@ == list_of(ledger@.lists, tag_key(tag@)),
    {
        ledger.read_list(&Self::tag_index(tag))
    }

    /// The invoices carrying every one of `tags`, in the order of the first
    /// tag's list; empty when `tags` is empty.
    pub fn get_invoices_by_tags(ledger: &Ledger, tags: &Vec<String>) -> (r: Vec<BytesN32>)
        ensures
            r@ == ids_with_all_tags(ledger@, tags@),
    {
        if tags.len() == 0 {
            return Vec::new();
        }
        let first_ids = Self::get_invoices_by_tag(ledger, &tags[0]);
        let ghost pred = in_later_tag_lists(ledger@, tags@);
        let mut keep: Vec<bool> = Vec::new();
        let mut k: usize = 0;
        while k < first_ids.len()
            invariant
                k <= first_ids@.len(),
                keep@.len() == k,
                tags@.len() > 0,
                pred == in_later_tag_lists(ledger@, tags@),
                forall|j: int| 0 <= j < k ==> keep@[j] == pred(#[trigger] first_ids@[j]),
            decreases first_ids@.len() - k,
        {
            let id = first_ids[k];
            let mut all_match = true;
            let mut i: usize = 1;
            while i < tags.len()
                invariant
                    1 <= i <= tags@.len(),
                    all_match ==> forall|t: int| 1 <= t < i ==> #[trigger] list_of(ledger@.lists, tag_key(tags@[t]@)).contains(id),
                    !all_match ==> !pred(id),
                    pred == in_later_tag_lists(ledger@, tags@),
                ensures
                    all_match == pred(id),
                decreases tags@.len() - i,
            {
                let tag_ids = Self::get_invoices_by_tag(ledger, &tags[i]);
                if !contains_id(&tag_ids, &id) {
                    all_match = false;
                    break;
                }
                i = i + 1;
            }
            keep.push(all_match);
            k = k + 1;
        }
        keep_matching(&first_ids, &keep, Ghost(pred))
    }

    /// The number of invoices in the list of a tag.
    pub fn get_invoice_count_by_tag(ledger: &Ledger, tag: &String) -> (r: u32)
        requires
            list_of(ledger@.lists, tag_key(tag@)).len() <= u32::MAX,
        ensures
            r == list_of(ledger@.lists, tag_key(tag@)).len(),
    {
        Self::get_invoices_by_tag(ledger, tag).len() as u32
    }

    /// Adds an invoice's ID to the lists of its customer name and tax
    /// identifier, where it has them.
    pub fn add_metadata_indexes(ledger: &mut Ledger, invoice: &Invoice)
        ensures
            final(ledger)@ == (LedgerModel {
                lists: {
                    let l1 = match invoice.metadata_customer_name {
                        Some(n) => with_id(old(ledger)@.lists, customer_key(n@), invoice.id),
                        None => old(ledger)@.lists,
                    };
                    match invoice.metadata_tax_id {
                        Some(t) => with_id(l1, tax_id_key(t@), invoice.id),
                        None => l1,
                    }
                },
                ..old(ledger)@
            }),
    {
        match &invoice.metadata_customer_name {
            Some(name) => Self::add_to_customer_index(ledger, name, &invoice.id),
            None => {},
        }
        match &invoice.metadata_tax_id {
            Some(tax_id) => Self::add_to_tax_id_index(ledger, tax_id, &invoice.id),
            None => {},
        }
    }

    /// Rewrites the lists of a metadata's customer name and tax identifier
    /// without the invoice ID.
    pub fn remove_metadata_indexes(ledger: &mut Ledger, metadata: &InvoiceMetadata, invoice_id: &BytesN32)
        ensures
            final(ledger)@ == (LedgerModel {
                lists: without_any(
                    without_any(old(ledger)@.lists, customer_key(metadata.customer_name@), *invoice_id),
                    tax_id_key(metadata.tax_id@),
                    *invoice_id,
                ),
                ..old(ledger)@
            }),
    {
        Self::remove_from_customer_index(ledger, &metadata.customer_name, invoice_id);
        Self::remove_from_tax_id_index(ledger, &metadata.tax_id, invoice_id);
    }
}

/// Storage operations for platform configuration.
pub struct ConfigStorage;

impl ConfigStorage {
    /// Stores the platform fee configuration.
    pub fn set_platform_fees(ledger: &mut Ledger, config: &PlatformFeeConfig)
        ensures
            final(ledger)@ == (LedgerModel { platform_fees: Some(*config), ..old(ledger)@ }),
    {
        ledger.platform_fees = Some(*config);
    }

    /// The stored platform fee configuration.
    pub fn get_platform_fees(ledger: &Ledger) -> (r: Option<PlatformFeeConfig>)
        ensures
            r == ledger@.platform_fees,
    {
        ledger.platform_fees
    }
}

/// Maintenance of storage-wide state.
pub struct StorageManager;

impl StorageManager {
    /// Removes the invoice, bid and investment counters.
    pub fn clear_all_mappings(ledger: &mut Ledger)
        ensures
            final(ledger)@ == (LedgerModel {
                counters: old(ledger)@.counters.remove(Symbol::spec_short("inv_count"@)).remove(
                    Symbol::spec_short("bid_count"@),
                ).remove(Symbol::spec_short("inv_cnt"@)),
                ..old(ledger)@
            }),
    {
        ledger.counters.remove(&StorageKeys::invoice_count());
        ledger.counters.remove(&StorageKeys::bid_count());
        ledger.counters.remove(&StorageKeys::investment_count());
    }

    /// Whether the current context is marked view-only.
    pub fn is_view_only(ledger: &Ledger) -> (r: bool)
        ensures
            r == view_only_flag(ledger@),
    {
        match ledger.view_only {
            Some(flag) => flag,
            None => false,
        }
    }

    /// Marks the current context as view-only or normal.
    pub fn set_view_only(ledger: &mut Ledger, enabled: bool)
        ensures
            final(ledger)@ == (LedgerModel { view_only: Some(enabled), ..old(ledger)@ }),
    {
        ledger.view_only = Some(enabled);
    }

    /// Runs `f` in a view-only context: sets the view-only flag, runs `f`
    /// on the ledger, then restores the flag's previous state.
    pub fn with_view_only<F, R>(ledger: &mut Ledger, f: F) -> (r: R)
        where
            F: FnOnce(&Ledger) -> R,
        requires
            forall|l: Ledger| #[trigger] l@ == (LedgerModel { view_only: Some(true), ..old(ledger)@ }) ==> f.requires((&l,)),
        ensures
            final(ledger)@ == (LedgerModel { view_only: Some(view_only_flag(old(ledger)@)), ..old(ledger)@ }),
            exists|l: Ledger| #[trigger] l@ == (LedgerModel { view_only: Some(true), ..old(ledger)@ }) && f.ensures((&l,), r),
    {
        let previous = Self::is_view_only(ledger);
        Self::set_view_only(ledger, true);
        let result = f(&*ledger);
        Self::set_view_only(ledger, previous);
        result
    }
}

/// Whether a treasury rotation is pending.
pub fn has_pending_treasury(ledger: &Ledger) -> (r: bool)
    ensures
        r == ledger@.pending_treasury is Some,
{
    ledger.pending_treasury.is_some()
}

/// Removes the pending treasury address and its timestamp.
pub fn remove_pending_treasury(ledger: &mut Ledger)
    ensures
        final(ledger)@ == (LedgerModel { pending_treasury: None, pending_treasury_ts: None, ..old(ledger)@ }),
{
    ledger.pending_treasury = None;
    ledger.pending_treasury_ts = None;
}

/// The pending treasury address and its execution timestamp, if a rotation
/// is pending.
pub fn get_pending_treasury(ledger: &Ledger) -> (r: Option<(Address, u64)>)
    requires
        ledger@.pending_treasury is Some ==> ledger@.pending_treasury_ts is Some,
    ensures
        r == match ledger@.pending_treasury {
            Some(address) => Some((address, ledger@.pending_treasury_ts.unwrap())),
            None => None,
        },
{
    if !has_pending_treasury(ledger) {
        return None;
    }
    match (ledger.pending_treasury, ledger.pending_treasury_ts) {
        (Some(address), Some(timestamp)) => Some((address, timestamp)),
        _ => None,
    }
}

/// A status-bucket entry is sound when a record exists under the ID and is
/// in that status.
pub open spec fn sound_in_bucket(m: LedgerModel, status: InvoiceStatus, id: BytesN32) -> bool {
    m.invoices.contains_key(id) && m.invoices[id].status == status
}

/// Every entry of the buckets of `statuses` is sound.
pub open spec fn buckets_sound(m: LedgerModel, statuses: Seq<InvoiceStatus>) -> bool {
    forall|t: int, id: BytesN32|
        0 <= t < statuses.len() && #[trigger] list_of(m.lists, status_key(statuses[t])).contains(id)
            ==> sound_in_bucket(m, statuses[t], id)
}

/// Every entry of every status bucket names an existing record in that status.
pub open spec fn status_index_sound(m: LedgerModel) -> bool {
    forall|s: InvoiceStatus, id: BytesN32| #[trigger] list_of(m.lists, status_key(s)).contains(id) ==> sound_in_bucket(m, s, id)
}

/// The record under `id` is reachable through each index that it names: its
/// business, customer name, tax identifier, tag and category lists all hold
/// the ID.
pub open spec fn record_indexed(m: LedgerModel, id: BytesN32) -> bool {
    let inv = m.invoices[id];
    &&& list_of(m.lists, business_key(inv.business)).contains(id)
    &&& (inv.metadata_customer_name matches Some(n) ==> list_of(m.lists, customer_key(n@)).contains(id))
    &&& (inv.metadata_tax_id matches Some(t) ==> list_of(m.lists, tax_id_key(t@)).contains(id))
    &&& (forall|i: int| 0 <= i < inv.tags.len() ==> #[trigger] list_of(m.lists, tag_key(inv.tags[i]@)).contains(id))
    &&& list_of(m.lists, category_key(inv.category)).contains(id)
}

/// Every record found through the status buckets is reachable through
/// each index it names.
pub open spec fn records_indexed(m: LedgerModel, ids: Seq<BytesN32>) -> bool {
    forall|k: int| 0 <= k < ids.len() && m.invoices.contains_key(#[trigger] ids[k]) ==> record_indexed(m, ids[k])
}

/// The invoice indexes agree with the invoice records.
pub open spec fn invoice_indexes_consistent(m: LedgerModel) -> bool {
    &&& status_index_sound(m)
    &&& records_indexed(m, all_invoice_ids(m))
}

proof fn lemma_buckets_sound_all(m: LedgerModel)
    ensures
        buckets_sound(m, all_statuses()) <==> status_index_sound(m),
{
    let st = all_statuses();
    if buckets_sound(m, st) {
        assert forall|s: InvoiceStatus, id: BytesN32| #[trigger] list_of(m.lists, status_key(s)).contains(id)
            implies sound_in_bucket(m, s, id) by {
            let t: int = match s {
                InvoiceStatus::Pending => 0,
                InvoiceStatus::Verified => 1,
                InvoiceStatus::Funded => 2,
                InvoiceStatus::Paid => 3,
                InvoiceStatus::Defaulted => 4,
                InvoiceStatus::Cancelled => 5,
                InvoiceStatus::Refunded => 6,
            };
            assert(st[t] == s);
        }
    }
}


/// The bid under `bid_id` exists and is listed under its investor and its invoice.
pub open spec fn bid_indexed(m: LedgerModel, bid_id: BytesN32) -> bool {
    &&& m.bids.contains_key(bid_id)
    &&& list_of(m.lists, bids_by_investor_key(m.bids[bid_id].investor)).contains(bid_id)
    &&& list_of(m.lists, bids_by_invoice_key(m.bids[bid_id].invoice_id)).contains(bid_id)
}

/// The bid indexes agree with the global bid list.
pub open spec fn bid_indexes_consistent(m: LedgerModel) -> bool {
    forall|k: int| 0 <= k < m.all_bids.len() ==> bid_indexed(m, #[trigger] m.all_bids[k])
}

/// An active-index entry names an existing investment that is active.
pub open spec fn active_entry_sound(m: LedgerModel, id: BytesN32) -> bool {
    m.investments.contains_key(id) && m.investments[id].status == InvestmentStatus::Active
}

/// The investment under `id` is listed under its investor, and the mapping
/// of its invoice names an existing investment whose ID is `id`.
pub open spec fn investment_indexed(m: LedgerModel, id: BytesN32) -> bool {
    let inv = m.investments[id];
    &&& list_of(m.lists, investments_by_investor_key(inv.investor)).contains(id)
    &&& m.investment_of_invoice.contains_key(inv.invoice_id)
    &&& m.investments.contains_key(m.investment_of_invoice[inv.invoice_id])
    &&& m.investments[m.investment_of_invoice[inv.invoice_id]].investment_id == id
}

/// The investment indexes agree with the active investment index.
pub open spec fn investment_indexes_consistent(m: LedgerModel) -> bool {
    &&& forall|k: int| 0 <= k < m.active_investments.len() ==> active_entry_sound(m, #[trigger] m.active_investments[k])
    &&& forall|k: int| 0 <= k < m.active_investments.len() && m.investments.contains_key(#[trigger] m.active_investments[k])
        ==> investment_indexed(m, m.active_investments[k])
}

/// The text of each error string, in order.
pub open spec fn texts(errors: Seq<String>) -> Seq<Seq<char>> {
    errors.map_values(|e: String| e@)
}

/// No message where `present` holds, else the one `message`.
pub open spec fn missing_message(present: bool, message: Seq<char>) -> Seq<Seq<char>> {
    if present {
        Seq::empty()
    } else {
        seq![message]
    }
}

/// What the invoice audit reports of the entry `id` of the bucket of `status`.
pub open spec fn bucket_entry_messages(m: LedgerModel, status: InvoiceStatus, id: BytesN32) -> Seq<Seq<char>> {
    if !m.invoices.contains_key(id) {
        seq!["Orphan invoice ID found in status index"@]
    } else if m.invoices[id].status != status {
        seq!["Invoice status mismatch: record vs index"@]
    } else {
        Seq::empty()
    }
}

/// What the invoice audit reports of the entries `ids` of the bucket of `status`, in order.
pub open spec fn bucket_messages(m: LedgerModel, status: InvoiceStatus, ids: Seq<BytesN32>) -> Seq<Seq<char>>
    decreases ids.len(),
{
    if ids.len() == 0 {
        Seq::empty()
    } else {
        bucket_messages(m, status, ids.drop_last()) + bucket_entry_messages(m, status, ids.last())
    }
}

/// What the invoice audit reports of the buckets of `statuses`, bucket by bucket.
pub open spec fn status_messages(m: LedgerModel, statuses: Seq<InvoiceStatus>) -> Seq<Seq<char>>
    decreases statuses.len(),
{
    if statuses.len() == 0 {
        Seq::empty()
    } else {
        status_messages(m, statuses.drop_last())
            + bucket_messages(m, statuses.last(), list_of(m.lists, status_key(statuses.last())))
    }
}

/// One message for each of `tags` whose list does not hold `id`, in order.
pub open spec fn tag_messages(m: LedgerModel, id: BytesN32, tags: Seq<String>) -> Seq<Seq<char>>
    decreases tags.len(),
{
    if tags.len() == 0 {
        Seq::empty()
    } else {
        tag_messages(m, id, tags.drop_last())
            + missing_message(list_of(m.lists, tag_key(tags.last()@)).contains(id), "Invoice missing from tag index"@)
    }
}

/// What the invoice audit reports of the business, customer name and tax
/// identifier indexes of the record `inv` under `id`, in that order.
pub open spec fn link_messages(m: LedgerModel, id: BytesN32, inv: InvoiceView) -> Seq<Seq<char>> {
    missing_message(list_of(m.lists, business_key(inv.business)).contains(id), "Invoice missing from business index"@)
        + match inv.metadata_customer_name {
            Some(n) => missing_message(list_of(m.lists, customer_key(n@)).contains(id),
                "Invoice missing from customer metadata index"@),
            None => Seq::empty(),
        }
        + match inv.metadata_tax_id {
            Some(t) => missing_message(list_of(m.lists, tax_id_key(t@)).contains(id),
                "Invoice missing from tax ID metadata index"@),
            None => Seq::empty(),
        }
}

/// What the invoice audit reports of the record under `id`: a message for
/// each index that it names and that does not reach it, in the order
/// business, customer name, tax identifier, tags, category.
pub open spec fn record_messages(m: LedgerModel, id: BytesN32) -> Seq<Seq<char>> {
    if !m.invoices.contains_key(id) {
        Seq::empty()
    } else {
        let inv = m.invoices[id];
        link_messages(m, id, inv) + tag_messages(m, id, inv.tags)
            + missing_message(list_of(m.lists, category_key(inv.category)).contains(id),
                "Invoice missing from category index"@)
    }
}

/// `record_messages` of each of `ids`, in order.
pub open spec fn records_messages(m: LedgerModel, ids: Seq<BytesN32>) -> Seq<Seq<char>>
    decreases ids.len(),
{
    if ids.len() == 0 {
        Seq::empty()
    } else {
        records_messages(m, ids.drop_last()) + record_messages(m, ids.last())
    }
}

/// Everything the invoice audit reports, in order: the status buckets in
/// the order `Pending`, `Verified`, `Funded`, `Paid`, `Defaulted`,
/// `Cancelled`, `Refunded`, then each record found through them.
pub open spec fn invoice_audit_messages(m: LedgerModel) -> Seq<Seq<char>> {
    status_messages(m, all_statuses()) + records_messages(m, all_invoice_ids(m))
}

/// What the bid audit reports of the entry `bid_id` of the global bid list.
pub open spec fn bid_messages(m: LedgerModel, bid_id: BytesN32) -> Seq<Seq<char>> {
    if !m.bids.contains_key(bid_id) {
        seq!["Orphan ID in global bid list"@]
    } else {
        let bid = m.bids[bid_id];
        missing_message(list_of(m.lists, bids_by_investor_key(bid.investor)).contains(bid_id),
            "Bid missing from investor index"@)
            + missing_message(list_of(m.lists, bids_by_invoice_key(bid.invoice_id)).contains(bid_id),
                "Bid missing from invoice index"@)
    }
}

/// `bid_messages` of each of `ids`, in order.
pub open spec fn bids_messages(m: LedgerModel, ids: Seq<BytesN32>) -> Seq<Seq<char>>
    decreases ids.len(),
{
    if ids.len() == 0 {
        Seq::empty()
    } else {
        bids_messages(m, ids.drop_last()) + bid_messages(m, ids.last())
    }
}

/// Everything the bid audit reports, in the order of the global bid list.
pub open spec fn bid_audit_messages(m: LedgerModel) -> Seq<Seq<char>> {
    bids_messages(m, m.all_bids)
}

/// What the investment audit reports of the entry `id` of the active index.
pub open spec fn active_entry_messages(m: LedgerModel, id: BytesN32) -> Seq<Seq<char>> {
    if !m.investments.contains_key(id) {
        seq!["Orphan ID in active investment index"@]
    } else if m.investments[id].status != InvestmentStatus::Active {
        seq!["Terminal investment found in active index"@]
    } else {
        Seq::empty()
    }
}

/// `active_entry_messages` of each of `ids`, in order.
pub open spec fn active_messages(m: LedgerModel, ids: Seq<BytesN32>) -> Seq<Seq<char>>
    decreases ids.len(),
{
    if ids.len() == 0 {
        Seq::empty()
    } else {
        active_messages(m, ids.drop_last()) + active_entry_messages(m, ids.last())
    }
}

/// What the investment audit reports of the investment under `id`: whether
/// its investor's list misses it, then whether its invoice's mapping is
/// missing or names another investment.
pub open spec fn investment_messages(m: LedgerModel, id: BytesN32) -> Seq<Seq<char>> {
    if !m.investments.contains_key(id) {
        Seq::empty()
    } else {
        let inv = m.investments[id];
        missing_message(list_of(m.lists, investments_by_investor_key(inv.investor)).contains(id),
            "Investment missing from investor index"@)
            + if m.investment_of_invoice.contains_key(inv.invoice_id)
                && m.investments.contains_key(m.investment_of_invoice[inv.invoice_id]) {
                missing_message(m.investments[m.investment_of_invoice[inv.invoice_id]].investment_id == id,
                    "Invoice to investment mapping mismatch"@)
            } else {
                seq!["Investment missing from invoice mapping"@]
            }
    }
}

/// `investment_messages` of each of `ids`, in order.
pub open spec fn investments_messages(m: LedgerModel, ids: Seq<BytesN32>) -> Seq<Seq<char>>
    decreases ids.len(),
{
    if ids.len() == 0 {
        Seq::empty()
    } else {
        investments_messages(m, ids.drop_last()) + investment_messages(m, ids.last())
    }
}

/// Everything the investment audit reports, in order: the entries of the
/// active index, then each distinct investment ID of it in order of first
/// appearance.
pub open spec fn investment_audit_messages(m: LedgerModel) -> Seq<Seq<char>> {
    active_messages(m, m.active_investments)
        + investments_messages(m, append_new(Seq::empty(), m.active_investments))
}

/// Everything the full audit reports: the invoice audit's problems, then
/// the bid audit's, then the investment audit's.
pub open spec fn audit_messages(m: LedgerModel) -> Seq<Seq<char>> {
    invoice_audit_messages(m) + bid_audit_messages(m) + investment_audit_messages(m)
}

proof fn lemma_texts_push(e: Seq<String>, x: String)
    ensures
        texts(e.push(x)) == texts(e).push(x@),
{
    assert(texts(e.push(x)) =~= texts(e).push(x@));
}

proof fn lemma_texts_concat(a: Seq<String>, b: Seq<String>)
    ensures
        texts(a + b) == texts(a) + texts(b),
{
    assert(texts(a + b) =~= texts(a) + texts(b));
}

/// Storage-wide integrity audits of the secondary indexes.
pub struct StorageIntegrityAudit;

impl StorageIntegrityAudit {
    fn check_links(ledger: &Ledger, id: &BytesN32, invoice: &Invoice, errors: &mut Vec<String>)
        ensures
            final(errors)@.len() >= old(errors)@.len(),
            (final(errors)@.len() == old(errors)@.len()) <==> {
                &&& list_of(ledger@.lists, business_key(invoice@.business)).contains(*id)
                &&& (invoice@.metadata_customer_name matches Some(n) ==> list_of(ledger@.lists, customer_key(n@)).contains(*id))
                &&& (invoice@.metadata_tax_id matches Some(t) ==> list_of(ledger@.lists, tax_id_key(t@)).contains(*id))
            },
            texts(final(errors)@) == texts(old(errors)@) + link_messages(ledger@, *id, invoice@),
    {
        let ghost e0 = errors@;
        let ghost m = ledger@;
        let business_ids = InvoiceStorage::get_by_business(ledger, &invoice.business);
        let b_ok = contains_id(&business_ids, id);
        if !b_ok {
            let msg = "Invoice missing from business index".to_owned();
            proof { lemma_texts_push(errors@, msg); }
            errors.push(msg);
        }
        let ghost mb = missing_message(b_ok, "Invoice missing from business index"@);
        assert(texts(errors@) =~= texts(e0) + mb);
        let ghost e1 = errors@;
        match &invoice.metadata_customer_name {
            Some(name) => {
                let customer_ids = InvoiceStorage::get_by_customer(ledger, name);
                if !contains_id(&customer_ids, id) {
                    let msg = "Invoice missing from customer metadata index".to_owned();
                    proof { lemma_texts_push(errors@, msg); }
                    errors.push(msg);
                }
            },
            None => {},
        }
        let ghost mc = match invoice@.metadata_customer_name {
            Some(n) => missing_message(list_of(m.lists, customer_key(n@)).contains(*id),
                "Invoice missing from customer metadata index"@),
            None => Seq::empty(),
        };
        assert(texts(errors@) =~= texts(e1) + mc);
        let ghost e2 = errors@;
        match &invoice.metadata_tax_id {
            Some(tax_id) => {
                let tax_ids = InvoiceStorage::get_by_tax_id(ledger, tax_id);
                if !contains_id(&tax_ids, id) {
                    let msg = "Invoice missing from tax ID metadata index".to_owned();
                    proof { lemma_texts_push(errors@, msg); }
                    errors.push(msg);
                }
            },
            None => {},
        }
        let ghost mt = match invoice@.metadata_tax_id {
            Some(t) => missing_message(list_of(m.lists, tax_id_key(t@)).contains(*id),
                "Invoice missing from tax ID metadata index"@),
            None => Seq::empty(),
        };
        assert(texts(errors@) =~= texts(e2) + mt);
        assert(texts(errors@) =~= texts(e0) + link_messages(m, *id, invoice@));
    }

    fn check_tags(ledger: &Ledger, id: &BytesN32, tags: &Vec<String>, errors: &mut Vec<String>)
        ensures
            final(errors)@.len() >= old(errors)@.len(),
            (final(errors)@.len() == old(errors)@.len()) <==>
                forall|j: int| 0 <= j < tags@.len() ==> #[trigger] list_of(ledger@.lists, tag_key(tags@[j]@)).contains(*id),
            texts(final(errors)@) == texts(old(errors)@) + tag_messages(ledger@, *id, tags@),
    {
        let ghost e0 = errors@;
        let mut i: usize = 0;
        assert(tags@.take(0) =~= Seq::<String>::empty());
        assert(texts(errors@) =~= texts(e0) + tag_messages(ledger@, *id, tags@.take(0)));
        while i < tags.len()
            invariant
                i <= tags@.len(),
                errors@.len() >= e0.len(),
                (errors@.len() == e0.len()) <==>
                    forall|j: int| 0 <= j < i ==> #[trigger] list_of(ledger@.lists, tag_key(tags@[j]@)).contains(*id),
                texts(errors@) == texts(e0) + tag_messages(ledger@, *id, tags@.take(i as int)),
            decreases tags@.len() - i,
        {
            let ghost e1 = errors@;
            let tag_ids = InvoiceStorage::get_by_tag(ledger, &tags[i]);
            let present = contains_id(&tag_ids, id);
            if !present {
                let msg = "Invoice missing from tag index".to_owned();
                proof { lemma_texts_push(errors@, msg); }
                errors.push(msg);
            }
            proof {
                let pre = tags@.take(i as int);
                let post = tags@.take(i as int + 1);
                assert(post.drop_last() =~= pre);
                assert(post.last() == tags@[i as int]);
                assert(texts(errors@) =~= texts(e1) + missing_message(present, "Invoice missing from tag index"@));
                assert(texts(errors@) =~= texts(e0) + tag_messages(ledger@, *id, post));
            }
            i = i + 1;
        }
        assert(tags@.take(tags@.len() as int) =~= tags@);
    }

    fn check_record(ledger: &Ledger, id: &BytesN32, invoice: &Invoice, errors: &mut Vec<String>)
        requires
            ledger@.invoices.contains_key(*id),
            invoice@ == ledger@.invoices[*id],
        ensures
            final(errors)@.len() >= old(errors)@.len(),
            (final(errors)@.len() == old(errors)@.len()) <==> record_indexed(ledger@, *id),
            texts(final(errors)@) == texts(old(errors)@) + record_messages(ledger@, *id),
    {
        let ghost e0 = errors@;
        Self::check_links(ledger, id, invoice, errors);
        let ghost e1 = errors@;
        Self::check_tags(ledger, id, &invoice.tags, errors);
        let ghost e2 = errors@;
        let category_ids = InvoiceStorage::get_invoices_by_category_from_index(ledger, &invoice.category);
        let k_ok = contains_id(&category_ids, id);
        if !k_ok {
            let msg = "Invoice missing from category index".to_owned();
            proof { lemma_texts_push(errors@, msg); }
            errors.push(msg);
        }
        assert(texts(errors@) =~= texts(e2) + missing_message(k_ok, "Invoice missing from category index"@));
        assert(texts(errors@) =~= texts(e0) + record_messages(ledger@, *id));
    }

    /// Audits the invoice indexes: every status-bucket entry must name an
    /// existing record in that status, and every record found through the
    /// buckets must be reachable through each index it names. Returns the
    /// list of problems found, if any.
    pub fn audit_invoice_integrity(ledger: &Ledger) -> (r: Result<(), Vec<String>>)
        ensures
            r is Ok <==> invoice_indexes_consistent(ledger@),
            r is Ok <==> invoice_audit_messages(ledger@).len() == 0,
            r matches Err(errors) ==> texts(errors@) == invoice_audit_messages(ledger@),
    {
        let mut errors: Vec<String> = Vec::new();
        let mut discovered: Vec<BytesN32> = Vec::new();
        let mut statuses: Vec<InvoiceStatus> = Vec::new();
        statuses.push(InvoiceStatus::Pending);
        statuses.push(InvoiceStatus::Verified);
        statuses.push(InvoiceStatus::Funded);
        statuses.push(InvoiceStatus::Paid);
        statuses.push(InvoiceStatus::Defaulted);
        statuses.push(InvoiceStatus::Cancelled);
        statuses.push(InvoiceStatus::Refunded);
        assert(statuses@ =~= all_statuses());
        assert(texts(errors@) =~= Seq::<Seq<char>>::empty());
        assert(statuses@.take(0) =~= Seq::<InvoiceStatus>::empty());
        let mut s: usize = 0;
        while s < statuses.len()
            invariant
                statuses@ == all_statuses(),
                s <= statuses@.len(),
                discovered@ == ids_of_statuses(ledger@.lists, statuses@.take(s as int)),
                (errors@.len() == 0) <==> buckets_sound(ledger@, statuses@.take(s as int)),
                texts(errors@) == status_messages(ledger@, statuses@.take(s as int)),
            decreases statuses@.len() - s,
        {
            let status = statuses[s];
            let ids = InvoiceStorage::get_by_status(ledger, status);
            let ghost acc = discovered@;
            let ghost e0 = errors@;
            let mut j: usize = 0;
            while j < ids.len()
                invariant
                    j <= ids@.len(),
                    discovered@ == append_new(acc, ids@.take(j as int)),
                    ids@ == list_of(ledger@.lists, status_key(status)),
                    errors@.len() >= e0.len(),
                    (errors@.len() == 0) <==> (e0.len() == 0
                        && forall|k: int| 0 <= k < j ==> sound_in_bucket(ledger@, status, #[trigger] ids@[k])),
                    texts(errors@) == texts(e0) + bucket_messages(ledger@, status, ids@.take(j as int)),
                decreases ids@.len() - j,
            {
                proof {
                    assert(ids@.take(j as int + 1).drop_last() =~= ids@.take(j as int));
                }
                let id = ids[j];
                let ghost e1 = errors@;
                if !contains_id(&discovered, &id) {
                    discovered.push(id);
                }
                match ledger.invoices.get_ref(&id) {
                    None => {
                        let msg = "Orphan invoice ID found in status index".to_owned();
                        proof { lemma_texts_push(errors@, msg); }
                        errors.push(msg);
                    },
                    Some(invoice) => {
                        if invoice.status != status {
                            let msg = "Invoice status mismatch: record vs index".to_owned();
                            proof { lemma_texts_push(errors@, msg); }
                            errors.push(msg);
                        }
                    },
                }
                proof {
                    assert(ids@.take(j as int + 1).last() == id);
                    assert(texts(errors@) =~= texts(e1) + bucket_entry_messages(ledger@, status, id));
                    assert(texts(errors@) =~= texts(e0) + bucket_messages(ledger@, status, ids@.take(j as int + 1)));
                }
                j = j + 1;
            }
            proof {
                assert(ids@.take(ids@.len() as int) =~= ids@);
                let pre = statuses@.take(s as int);
                let post = statuses@.take(s as int + 1);
                assert(post.drop_last() =~= pre);
                assert(post[s as int] == status);
                assert(post.last() == status);
                assert(texts(errors@) =~= status_messages(ledger@, post));
                if errors@.len() == 0 {
                    assert forall|t: int, id: BytesN32|
                        0 <= t < post.len() && #[trigger] list_of(ledger@.lists, status_key(post[t])).contains(id)
                            implies sound_in_bucket(ledger@, post[t], id) by {
                        if t < s {
                            assert(post[t] == pre[t]);
                        } else {
                            let k = choose|k: int| 0 <= k < ids@.len() && ids@[k] == id;
                            assert(sound_in_bucket(ledger@, status, ids@[k]));
                        }
                    }
                }
                if buckets_sound(ledger@, post) {
                    assert forall|t: int, id: BytesN32|
                        0 <= t < pre.len() && #[trigger] list_of(ledger@.lists, status_key(pre[t])).contains(id)
                            implies sound_in_bucket(ledger@, pre[t], id) by {
                        assert(post[t] == pre[t]);
                    }
                    assert forall|k: int| 0 <= k < ids@.len() implies sound_in_bucket(ledger@, status, #[trigger] ids@[k]) by {
                        assert(list_of(ledger@.lists, status_key(post[s as int])).contains(ids@[k]));
                    }
                }
            }
            s = s + 1;
        }
        proof {
            assert(statuses@.take(statuses@.len() as int) =~= statuses@);
            lemma_buckets_sound_all(ledger@);
        }
        let ghost phase1 = errors@.len() == 0;
        let ghost first = texts(errors@);
        assert(discovered@.take(0) =~= Seq::<BytesN32>::empty());
        assert(first =~= first + records_messages(ledger@, discovered@.take(0)));
        let mut i: usize = 0;
        while i < discovered.len()
            invariant
                discovered@ == all_invoice_ids(ledger@),
                i <= discovered@.len(),
                phase1 <==> status_index_sound(ledger@),
                (errors@.len() == 0) <==> (phase1 && records_indexed(ledger@, discovered@.take(i as int))),
                first == status_messages(ledger@, all_statuses()),
                texts(errors@) == first + records_messages(ledger@, discovered@.take(i as int)),
            decreases discovered@.len() - i,
        {
            let id = discovered[i];
            let ghost e0 = errors@;
            match ledger.invoices.get_ref(&id) {
                Some(invoice) => {
                    Self::check_record(ledger, &id, invoice, &mut errors);
                },
                None => {},
            }
            proof {
                let pre = discovered@.take(i as int);
                let post = discovered@.take(i as int + 1);
                assert(post.drop_last() =~= pre);
                assert(post[i as int] == id);
                assert(post.last() == id);
                assert(texts(errors@) =~= texts(e0) + record_messages(ledger@, id));
                assert(texts(errors@) =~= first + records_messages(ledger@, post));
                if errors@.len() == 0 {
                    assert forall|k: int| 0 <= k < post.len() && ledger@.invoices.contains_key(#[trigger] post[k])
                        implies record_indexed(ledger@, post[k]) by {
                        if k < i {
                            assert(post[k] == pre[k]);
                        }
                    }
                }
                if phase1 && records_indexed(ledger@, post) {
                    assert forall|k: int| 0 <= k < pre.len() && ledger@.invoices.contains_key(#[trigger] pre[k])
                        implies record_indexed(ledger@, pre[k]) by {
                        assert(post[k] == pre[k]);
                    }
                    if ledger@.invoices.contains_key(id) {
                        assert(record_indexed(ledger@, post[i as int]));
                    }
                }
            }
            i = i + 1;
        }
        assert(discovered@.take(discovered@.len() as int) =~= discovered@);
        if errors.len() == 0 {
            Ok(())
        } else {
            Err(errors)
        }
    }
}

impl StorageIntegrityAudit {
    /// Audits the bid indexes: every ID of the global bid list must name an
    /// existing bid that is listed under its investor and under its invoice.
    pub fn audit_bid_integrity(ledger: &Ledger) -> (r: Result<(), Vec<String>>)
        ensures
            r is Ok <==> bid_indexes_consistent(ledger@),
            r is Ok <==> bid_audit_messages(ledger@).len() == 0,
            r matches Err(errors) ==> texts(errors@) == bid_audit_messages(ledger@),
            r is Ok <==> forall|k: int| 0 <= k < ledger@.all_bids.len() ==> {
                let b = #[trigger] ledger@.all_bids[k];
                &&& ledger@.bids.contains_key(b)
                &&& list_of(ledger@.lists, bids_by_investor_key(ledger@.bids[b].investor)).contains(b)
                &&& list_of(ledger@.lists, bids_by_invoice_key(ledger@.bids[b].invoice_id)).contains(b)
            },
    {
        proof {
            crate::laws::law_bid_audit_requires_both_indexes(ledger@);
        }
        let mut errors: Vec<String> = Vec::new();
        let all_bid_ids = BidStorage::get_all_bids(ledger);
        let mut i: usize = 0;
        assert(texts(errors@) =~= Seq::<Seq<char>>::empty());
        while i < all_bid_ids.len()
            invariant
                all_bid_ids@ == ledger@.all_bids,
                i <= all_bid_ids@.len(),
                (errors@.len() == 0) <==> forall|k: int| 0 <= k < i ==> bid_indexed(ledger@, #[trigger] all_bid_ids@[k]),
                texts(errors@) == bids_messages(ledger@, all_bid_ids@.take(i as int)),
            decreases all_bid_ids@.len() - i,
        {
            let bid_id = all_bid_ids[i];
            let ghost e0 = errors@;
            match BidStorage::get_bid(ledger, &bid_id) {
                None => {
                    let msg = "Orphan ID in global bid list".to_owned();
                    proof {
                        lemma_texts_push(errors@, msg);
                        reveal_strlit("Orphan ID in global bid list");
                    }
                    errors.push(msg);
                },
                Some(bid) => {
                    let investor_ids = BidStorage::get_bids_by_investor_all(ledger, &bid.investor);
                    if !contains_id(&investor_ids, &bid_id) {
                        let msg = "Bid missing from investor index".to_owned();
                        proof { lemma_texts_push(errors@, msg); }
                        errors.push(msg);
                    }
                    let ghost e1 = errors@;
                    let invoice_ids = BidStorage::get_bids_for_invoice(ledger, &bid.invoice_id);
                    if !contains_id(&invoice_ids, &bid_id) {
                        let msg = "Bid missing from invoice index".to_owned();
                        proof { lemma_texts_push(errors@, msg); }
                        errors.push(msg);
                    }
                    proof {
                        assert(texts(e1) =~= texts(e0) + missing_message(
                            list_of(ledger@.lists, bids_by_investor_key(bid.investor)).contains(bid_id),
                            "Bid missing from investor index"@));
                        assert(texts(errors@) =~= texts(e1) + missing_message(
                            list_of(ledger@.lists, bids_by_invoice_key(bid.invoice_id)).contains(bid_id),
                            "Bid missing from invoice index"@));
                    }
                },
            }
            proof {
                let pre = all_bid_ids@.take(i as int);
                let post = all_bid_ids@.take(i as int + 1);
                assert(post.drop_last() =~= pre);
                assert(post.last() == bid_id);
                assert(texts(errors@) =~= texts(e0) + bid_messages(ledger@, bid_id));
            }
            i = i + 1;
        }
        assert(all_bid_ids@.take(all_bid_ids@.len() as int) =~= all_bid_ids@);
        if errors.len() == 0 {
            Ok(())
        } else {
            Err(errors)
        }
    }

    /// Audits the investment indexes: every entry of the active index must
    /// name an existing, active investment; every such investment must be
    /// listed under its investor, and its invoice's mapping must name it.
    pub fn audit_investment_integrity(ledger: &Ledger) -> (r: Result<(), Vec<String>>)
        ensures
            r is Ok <==> investment_indexes_consistent(ledger@),
            r is Ok <==> investment_audit_messages(ledger@).len() == 0,
            r matches Err(errors) ==> texts(errors@) == investment_audit_messages(ledger@),
            r is Ok ==> forall|k: int| 0 <= k < ledger@.active_investments.len() ==>
                ledger@.investments.contains_key(#[trigger] ledger@.active_investments[k])
                    && ledger@.investments[ledger@.active_investments[k]].status == InvestmentStatus::Active,
            (exists|k: int| 0 <= k < ledger@.active_investments.len()
                && ledger@.investments.contains_key(#[trigger] ledger@.active_investments[k])
                && ledger@.investments[ledger@.active_investments[k]].status != InvestmentStatus::Active)
                ==> (r matches Err(errors) && texts(errors@).contains("Terminal investment found in active index"@)),
    {
        proof {
            crate::laws::law_investment_audit_requires_active_entries(ledger@);
        }
        let ghost active = ledger@.active_investments;
        let mut errors: Vec<String> = Vec::new();
        assert(texts(errors@) =~= Seq::<Seq<char>>::empty());
        let mut all_discovered: Vec<BytesN32> = Vec::new();
        let active_ids = InvestmentStorage::get_active_investment_ids(ledger);
        let mut i: usize = 0;
        while i < active_ids.len()
            invariant
                active_ids@ == active,
                active == ledger@.active_investments,
                i <= active_ids@.len(),
                all_discovered@ == append_new(Seq::empty(), active_ids@.take(i as int)),
                (errors@.len() == 0) <==> forall|k: int| 0 <= k < i ==> active_entry_sound(ledger@, #[trigger] active_ids@[k]),
                texts(errors@) == active_messages(ledger@, active_ids@.take(i as int)),
            decreases active_ids@.len() - i,
        {
            proof {
                assert(active_ids@.take(i as int + 1).drop_last() =~= active_ids@.take(i as int));
            }
            let id = active_ids[i];
            let ghost e0 = errors@;
            if !contains_id(&all_discovered, &id) {
                all_discovered.push(id);
            }
            match InvestmentStorage::get(ledger, &id) {
                None => {
                    let msg = "Orphan ID in active investment index".to_owned();
                    proof { lemma_texts_push(errors@, msg); }
                    errors.push(msg);
                },
                Some(inv) => {
                    if inv.status != InvestmentStatus::Active {
                        let msg = "Terminal investment found in active index".to_owned();
                        proof { lemma_texts_push(errors@, msg); }
                        errors.push(msg);
                    }
                },
            }
            proof {
                assert(active_ids@.take(i as int + 1).last() == id);
                assert(texts(errors@) =~= texts(e0) + active_entry_messages(ledger@, id));
            }
            i = i + 1;
        }
        proof {
            assert(active_ids@.take(active_ids@.len() as int) =~= active_ids@);
            lemma_append_new_contains(Seq::empty(), active);
        }
        let ghost phase1 = errors@.len() == 0;
        let ghost first = texts(errors@);
        let mut j: usize = 0;
        while j < all_discovered.len()
            invariant
                all_discovered@ == append_new(Seq::empty(), active),
                active == ledger@.active_investments,
                forall|x: BytesN32| #[trigger] all_discovered@.contains(x) <==> active.contains(x),
                j <= all_discovered@.len(),
                (errors@.len() == 0) <==> (phase1 && forall|k: int| 0 <= k < j && ledger@.investments.contains_key(#[trigger] all_discovered@[k])
                    ==> investment_indexed(ledger@, all_discovered@[k])),
                first == active_messages(ledger@, active),
                texts(errors@) == first + investments_messages(ledger@, all_discovered@.take(j as int)),
            decreases all_discovered@.len() - j,
        {
            let id = all_discovered[j];
            let ghost e0 = errors@;
            match InvestmentStorage::get(ledger, &id) {
                Some(inv) => {
                    let investor_ids = InvestmentStorage::get_by_investor(ledger, &inv.investor);
                    if !contains_id(&investor_ids, &id) {
                        let msg = "Investment missing from investor index".to_owned();
                        proof { lemma_texts_push(errors@, msg); }
                        errors.push(msg);
                    }
                    let ghost e1 = errors@;
                    match InvestmentStorage::get_investment_by_invoice(ledger, &inv.invoice_id) {
                        Some(mapped) => {
                            if mapped.investment_id != id {
                                let msg = "Invoice to investment mapping mismatch".to_owned();
                                proof { lemma_texts_push(errors@, msg); }
                                errors.push(msg);
                            }
                        },
                        None => {
                            let msg = "Investment missing from invoice mapping".to_owned();
                            proof { lemma_texts_push(errors@, msg); }
                            errors.push(msg);
                        },
                    }
                    proof {
                        assert(texts(e1) =~= texts(e0) + missing_message(
                            list_of(ledger@.lists, investments_by_investor_key(inv@.investor)).contains(id),
                            "Investment missing from investor index"@));
                    }
                },
                None => {},
            }
            proof {
                let pre = all_discovered@.take(j as int);
                let post = all_discovered@.take(j as int + 1);
                assert(post.drop_last() =~= pre);
                assert(post.last() == id);
                assert(texts(errors@) =~= texts(e0) + investment_messages(ledger@, id));
            }
            j = j + 1;
        }
        assert(all_discovered@.take(all_discovered@.len() as int) =~= all_discovered@);
        proof {
            let d = all_discovered@;
            if errors@.len() == 0 {
                assert forall|k: int| 0 <= k < active.len() && ledger@.investments.contains_key(#[trigger] active[k])
                    implies investment_indexed(ledger@, active[k]) by {
                    assert(active.contains(active[k]));
                    assert(d.contains(active[k]));
                    let k2 = choose|k2: int| 0 <= k2 < d.len() && d[k2] == active[k];
                    assert(ledger@.investments.contains_key(d[k2]));
                }
            }
            if investment_indexes_consistent(ledger@) {
                assert forall|k: int| 0 <= k < d.len() && ledger@.investments.contains_key(#[trigger] d[k])
                    implies investment_indexed(ledger@, d[k]) by {
                    assert(d.contains(d[k]));
                    assert(active.contains(d[k]));
                    let k2 = choose|k2: int| 0 <= k2 < active.len() && active[k2] == d[k];
                    assert(ledger@.investments.contains_key(active[k2]));
                }
            }
        }
        if errors.len() == 0 {
            Ok(())
        } else {
            Err(errors)
        }
    }

    /// Runs the invoice, bid and investment audits and gathers their problems.
    pub fn audit_all(ledger: &Ledger) -> (r: Result<(), Vec<String>>)
        ensures
            r is Ok <==> (invoice_indexes_consistent(ledger@) && bid_indexes_consistent(ledger@)
                && investment_indexes_consistent(ledger@)),
            r is Ok <==> audit_messages(ledger@).len() == 0,
            r matches Err(errors) ==> texts(errors@) == audit_messages(ledger@),
    {
        let mut all_errors: Vec<String> = Vec::new();
        assert(texts(all_errors@) =~= Seq::<Seq<char>>::empty());
        match Self::audit_invoice_integrity(ledger) {
            Err(e) => Self::append_errors(&mut all_errors, &e),
            Ok(()) => {},
        }
        assert(texts(all_errors@) =~= invoice_audit_messages(ledger@));
        match Self::audit_bid_integrity(ledger) {
            Err(e) => Self::append_errors(&mut all_errors, &e),
            Ok(()) => {},
        }
        assert(texts(all_errors@) =~= invoice_audit_messages(ledger@) + bid_audit_messages(ledger@));
        match Self::audit_investment_integrity(ledger) {
            Err(e) => Self::append_errors(&mut all_errors, &e),
            Ok(()) => {},
        }
        assert(texts(all_errors@) =~= audit_messages(ledger@));
        if all_errors.len() == 0 {
            Ok(())
        } else {
            Err(all_errors)
        }
    }

    fn append_errors(all: &mut Vec<String>, more: &Vec<String>)
        ensures
            final(all)@ == old(all)@ + more@,
            texts(final(all)@) == texts(old(all)@) + texts(more@),
    {
        let mut i: usize = 0;
        while i < more.len()
            invariant
                i <= more@.len(),
                all@ == old(all)@ + more@.take(i as int),
            decreases more@.len() - i,
        {
            all.push(more[i].clone());
            i = i + 1;
            assert(all@ =~= old(all)@ + more@.take(i as int));
        }
        assert(more@.take(more@.len() as int) =~= more@);
        proof {
            lemma_texts_concat(old(all)@, more@);
        }
    }
}

/// `append_new` keeps what `acc` holds, adds exactly the new elements of
/// `ids`, and never repeats an element that `acc` does not repeat.
pub proof fn lemma_append_new_contains(acc: Seq<BytesN32>, ids: Seq<BytesN32>)
    ensures
        forall|x: BytesN32| #[trigger] append_new(acc, ids).contains(x) <==> (acc.contains(x) || ids.contains(x)),
        acc.no_duplicates() ==> append_new(acc, ids).no_duplicates(),
        append_new(acc, ids).len() >= acc.len(),
        append_new(acc, ids).subrange(0, acc.len() as int) == acc,
    decreases ids.len(),
{
    if ids.len() > 0 {
        let t = ids.drop_last();
        lemma_append_new_contains(acc, t);
        let a = append_new(acc, t);
        let l = ids.last();
        let r = append_new(acc, ids);
        assert(ids =~= t.push(l));
        assert forall|x: BytesN32| #[trigger] r.contains(x) <==> (acc.contains(x) || ids.contains(x)) by {
            if t.contains(x) {
                let k = choose|k: int| 0 <= k < t.len() && t[k] == x;
                assert(ids[k] == x);
            }
            if ids.contains(x) && x != l {
                let k = choose|k: int| 0 <= k < ids.len() && ids[k] == x;
                assert(k != ids.len() - 1);
                assert(t[k] == x);
            }
            if x == l {
                assert(ids[ids.len() - 1] == x);
            }
            if a.contains(l) {
                assert(r == a);
            } else {
                assert(r == a.push(l));
                assert(r[a.len() as int] == l);
                if a.contains(x) {
                    let k = choose|k: int| 0 <= k < a.len() && a[k] == x;
                    assert(r[k] == x);
                }
                if r.contains(x) && x != l {
                    let k = choose|k: int| 0 <= k < r.len() && r[k] == x;
                    assert(k < a.len());
                    assert(a[k] == x);
                }
            }
        }
        if !a.contains(ids.last()) {
            assert(a.push(ids.last()).subrange(0, acc.len() as int) =~= a.subrange(0, acc.len() as int));
        }
    }
}

/// `deleted` applied to each of `ids`, in order.
pub open spec fn deleted_all(m: LedgerModel, ids: Seq<BytesN32>) -> LedgerModel
    decreases ids.len(),
{
    if ids.len() == 0 {
        m
    } else {
        deleted(deleted_all(m, ids.drop_last()), ids.last())
    }
}

/// The ledger after clearing: every invoice found through the status
/// buckets is deleted, then the three counters are removed.
pub open spec fn cleared(m: LedgerModel) -> LedgerModel {
    let d = deleted_all(m, all_invoice_ids(m));
    LedgerModel {
        counters: d.counters.remove(Symbol::spec_short("inv_count"@)).remove(Symbol::spec_short("bid_count"@)).remove(
            Symbol::spec_short("inv_cnt"@),
        ),
        ..d
    }
}

/// The index writes made when the metadata, tag and category indexes of a
/// record are recomputed: its ID joins the lists of its customer name, tax
/// identifier, tags and category.
pub open spec fn reindex_lists(lists: Map<IndexKeyView, Seq<BytesN32>>, inv: InvoiceView) -> Map<IndexKeyView, Seq<BytesN32>> {
    let id = inv.id;
    let l1 = match inv.metadata_customer_name {
        Some(n) => with_id(lists, customer_key(n@), id),
        None => lists,
    };
    let l2 = match inv.metadata_tax_id {
        Some(t) => with_id(l1, tax_id_key(t@), id),
        None => l1,
    };
    let l3 = with_id_in_tags(l2, inv.tags, id);
    with_id(l3, category_key(inv.category), id)
}

/// `reindex_lists` applied to the record of each of `ids` that has one, in order.
pub open spec fn reindexed_lists(lists: Map<IndexKeyView, Seq<BytesN32>>, invoices: Map<BytesN32, InvoiceView>, ids: Seq<BytesN32>) -> Map<IndexKeyView, Seq<BytesN32>>
    decreases ids.len(),
{
    if ids.len() == 0 {
        lists
    } else {
        let l = reindexed_lists(lists, invoices, ids.drop_last());
        if invoices.contains_key(ids.last()) {
            reindex_lists(l, invoices[ids.last()])
        } else {
            l
        }
    }
}

/// The first position of a page over `total` IDs: `offset`, but no further than the end.
pub open spec fn page_start(offset: u32, total: int) -> int {
    if offset < total {
        offset as int
    } else {
        total
    }
}

/// One past the last position of a page: at most `min(limit, 100)`
/// positions after its start, and no further than the end.
pub open spec fn page_end(offset: u32, limit: u32, total: int) -> int {
    let capped = if limit > 100 { 100 } else { limit as int };
    let end = page_start(offset, total) + capped;
    if end < total {
        end
    } else {
        total
    }
}

/// The IDs of the page at `offset` of length `limit` over all invoice IDs.
pub open spec fn page_ids(m: LedgerModel, offset: u32, limit: u32) -> Seq<BytesN32> {
    let all = all_invoice_ids(m);
    all.subrange(page_start(offset, all.len() as int), page_end(offset, limit, all.len() as int))
}

/// The predicate "has a record".
pub open spec fn has_record(m: LedgerModel) -> spec_fn(BytesN32) -> bool {
    |id: BytesN32| m.invoices.contains_key(id)
}

/// The ledger after one page of index rebuilding.
pub open spec fn rebuilt(m: LedgerModel, offset: u32, limit: u32) -> LedgerModel {
    LedgerModel { lists: reindexed_lists(m.lists, m.invoices, page_ids(m, offset, limit)), ..m }
}

/// `a + b`, or `u64::MAX` where that would pass it.
pub open spec fn saturating_sum(a: u64, b: u64) -> u64 {
    if a + b > u64::MAX {
        u64::MAX
    } else {
        (a + b) as u64
    }
}

/// A record may be pruned at time `now` when it is terminal and its
/// terminal timestamp (see `terminal_timestamp`) plus
/// `older_than_secs` (saturating) lies before `now`.
pub open spec fn prune_eligible(inv: InvoiceView, older_than_secs: u64, now: u64) -> bool {
    inv.status.spec_is_terminal() && saturating_sum(terminal_timestamp(inv), older_than_secs) < now
}

/// When a record reached its terminal status: the settlement time of a
/// `Paid` invoice (its creation time where none is recorded), and the
/// creation time of any other.
pub open spec fn terminal_timestamp(inv: InvoiceView) -> u64 {
    match (inv.status, inv.settled_at) {
        (InvoiceStatus::Paid, Some(t)) => t,
        _ => inv.created_at,
    }
}

/// Each of `ids` in turn is deleted where its current record may be pruned.
pub open spec fn pruned_ids(m: LedgerModel, ids: Seq<BytesN32>, older_than_secs: u64, now: u64) -> LedgerModel
    decreases ids.len(),
{
    if ids.len() == 0 {
        m
    } else {
        let p = pruned_ids(m, ids.drop_last(), older_than_secs, now);
        let id = ids.last();
        if p.invoices.contains_key(id) && prune_eligible(p.invoices[id], older_than_secs, now) {
            deleted(p, id)
        } else {
            p
        }
    }
}

/// How many of `ids` `pruned_ids` deletes.
pub open spec fn prune_count(m: LedgerModel, ids: Seq<BytesN32>, older_than_secs: u64, now: u64) -> nat
    decreases ids.len(),
{
    if ids.len() == 0 {
        0
    } else {
        let p = pruned_ids(m, ids.drop_last(), older_than_secs, now);
        let id = ids.last();
        let c = prune_count(m, ids.drop_last(), older_than_secs, now);
        if p.invoices.contains_key(id) && prune_eligible(p.invoices[id], older_than_secs, now) {
            c + 1
        } else {
            c
        }
    }
}

/// The ledger after one page of pruning at the ledger's current time.
pub open spec fn pruned(m: LedgerModel, older_than_secs: u64, offset: u32, limit: u32) -> LedgerModel {
    pruned_ids(m, page_ids(m, offset, limit), older_than_secs, m.timestamp)
}

impl InvoiceStorage {
    /// Deletes every invoice found through the status buckets, then removes
    /// the invoice, bid and investment counters.
    pub fn clear_all(ledger: &mut Ledger)
        requires
            !view_only_flag(old(ledger)@) || all_invoice_ids(old(ledger)@).len() == 0,
        ensures
            final(ledger)@ == cleared(old(ledger)@),
    {
        let ids = Self::get_all_invoice_ids(ledger);
        let ghost m0 = ledger@;
        let mut i: usize = 0;
        while i < ids.len()
            invariant
                i <= ids@.len(),
                ids@ == all_invoice_ids(m0),
                ledger@ == deleted_all(m0, ids@.take(i as int)),
                ledger@.view_only == m0.view_only,
                !view_only_flag(m0) || ids@.len() == 0,
            decreases ids@.len() - i,
        {
            Self::delete_invoice(ledger, &ids[i]);
            proof {
                assert(ids@.take(i as int + 1).drop_last() =~= ids@.take(i as int));
            }
            i = i + 1;
        }
        assert(ids@.take(ids@.len() as int) =~= ids@);
        StorageManager::clear_all_mappings(ledger);
    }

    fn reindex_record(ledger: &mut Ledger, invoice: &Invoice)
        ensures
            final(ledger)@ == (LedgerModel { lists: reindex_lists(old(ledger)@.lists, invoice@), ..old(ledger)@ }),
    {
        match &invoice.metadata_customer_name {
            Some(name) => Self::add_to_customer_index(ledger, name, &invoice.id),
            None => {},
        }
        match &invoice.metadata_tax_id {
            Some(tax_id) => Self::add_to_tax_id_index(ledger, tax_id, &invoice.id),
            None => {},
        }
        Self::add_tag_indexes(ledger, &invoice.tags, &invoice.id);
        Self::add_category_index(ledger, &invoice.category, &invoice.id);
    }

    /// Recomputes the customer, tax identifier, tag and category indexes for
    /// one page of invoices from their records.
    ///
    /// The page is taken from [`InvoiceStorage::get_all_invoice_ids`]: it
    /// starts at `offset` (clamped to the number of IDs) and spans at most
    /// `min(limit, 100)` IDs. Every index write appends only what is missing,
    /// so running the same page twice leaves the indexes as running it once.
    /// Pass `next_offset` of the report as `offset` on the next call, with a
    /// `limit` of at least 1; every ID has been handled once a call scans
    /// nothing.
    pub fn rebuild_indexes_page(ledger: &mut Ledger, offset: u32, limit: u32) -> (r: RebuildReport)
        requires
            all_invoice_ids(old(ledger)@).len() <= u32::MAX,
        ensures
            final(ledger)@ == rebuilt(old(ledger)@, offset, limit),
            r.scanned == page_end(offset, limit, all_invoice_ids(old(ledger)@).len() as int)
                - page_start(offset, all_invoice_ids(old(ledger)@).len() as int),
            r.reindexed == page_ids(old(ledger)@, offset, limit).filter(has_record(old(ledger)@)).len(),
            r.next_offset == page_end(offset, limit, all_invoice_ids(old(ledger)@).len() as int),
    {
        let capped: u32 = if limit > 100 { 100 } else { limit };
        let all_ids = Self::get_all_invoice_ids(ledger);
        let total = all_ids.len() as u32;
        let start = if offset < total { offset } else { total };
        let sum = start.saturating_add(capped);
        let end = if sum < total { sum } else { total };
        let ghost m0 = ledger@;
        let ghost page = all_ids@.subrange(start as int, end as int);
        let ghost pred = has_record(m0);
        let mut reindexed: u32 = 0;
        let mut i = start;
        while i < end
            invariant
                start <= i <= end <= total,
                total == all_ids@.len(),
                end - start <= 100,
                all_ids@ == all_invoice_ids(m0),
                page == all_ids@.subrange(start as int, end as int),
                pred == has_record(m0),
                ledger@ == (LedgerModel { lists: reindexed_lists(m0.lists, m0.invoices, page.take(i - start)), ..m0 }),
                reindexed == page.take(i - start).filter(pred).len(),
            decreases end - i,
        {
            let id = all_ids[i as usize];
            proof {
                assert(page.take(i - start + 1).drop_last() =~= page.take(i - start));
                assert(page.take(i - start + 1).last() == id);
                assert(page.take(i - start + 1) =~= page.take(i - start).push(id));
                page.take(i - start).lemma_filter_push(id, pred);
                page.take(i - start).lemma_filter_len(pred);
            }
            match ledger.invoices.get(&id) {
                Some(invoice) => {
                    Self::reindex_record(ledger, &invoice);
                    reindexed = reindexed.saturating_add(1);
                },
                None => {},
            }
            i = i.saturating_add(1);
        }
        assert(page.take(end - start) =~= page);
        RebuildReport { scanned: end.saturating_sub(start), reindexed, next_offset: end }
    }

    /// Deletes, within one page of invoices, those in a terminal status
    /// (`Paid`, `Defaulted`, `Cancelled`, `Refunded`) whose terminal
    /// timestamp plus `older_than_secs` lies before the ledger's current
    /// time. The terminal timestamp of a `Paid` invoice is its `settled_at`;
    /// other terminal statuses use `created_at`. Invoices in `Pending`,
    /// `Verified` or `Funded` status are never pruned. Each pruned invoice
    /// leaves every index and the record is removed.
    ///
    /// The page is chosen as in [`InvoiceStorage::rebuild_indexes_page`].
    /// `next_offset` is the end of the page in the ID list as it stood
    /// before the call. Pruned invoices leave that list, so in the list as
    /// it now stands the first ID after the page sits at
    /// `next_offset - pruned`: a caller that resumes from `next_offset`
    /// skips `pruned` IDs, and one that resumes from `next_offset - pruned`
    /// misses none. A view-only ledger is refused only where something
    /// would be deleted.
    pub fn prune_terminal_invoices_page(ledger: &mut Ledger, older_than_secs: u64, offset: u32, limit: u32) -> (r: PruneReport)
        requires
            !view_only_flag(old(ledger)@)
                || prune_count(old(ledger)@, page_ids(old(ledger)@, offset, limit), older_than_secs, old(ledger)@.timestamp) == 0,
            all_invoice_ids(old(ledger)@).len() <= u32::MAX,
        ensures
            final(ledger)@ == pruned(old(ledger)@, older_than_secs, offset, limit),
            r.scanned == page_end(offset, limit, all_invoice_ids(old(ledger)@).len() as int)
                - page_start(offset, all_invoice_ids(old(ledger)@).len() as int),
            r.pruned == prune_count(old(ledger)@, page_ids(old(ledger)@, offset, limit), older_than_secs, old(ledger)@.timestamp),
            r.next_offset == page_end(offset, limit, all_invoice_ids(old(ledger)@).len() as int),
            forall|x: BytesN32| #[trigger] old(ledger)@.invoices.contains_key(x) ==> (!final(ledger)@.invoices.contains_key(x) <==> {
                let inv = old(ledger)@.invoices[x];
                let ts: u64 = match (inv.status, inv.settled_at) {
                    (InvoiceStatus::Paid, Some(t)) => t,
                    _ => inv.created_at,
                };
                &&& page_ids(old(ledger)@, offset, limit).contains(x)
                &&& (inv.status == InvoiceStatus::Paid || inv.status == InvoiceStatus::Defaulted
                    || inv.status == InvoiceStatus::Cancelled || inv.status == InvoiceStatus::Refunded)
                &&& ts + older_than_secs < old(ledger)@.timestamp
            }),
    {
        let capped: u32 = if limit > 100 { 100 } else { limit };
        let now = ledger.timestamp;
        let all_ids = Self::get_all_invoice_ids(ledger);
        let total = all_ids.len() as u32;
        let start = if offset < total { offset } else { total };
        let sum = start.saturating_add(capped);
        let end = if sum < total { sum } else { total };
        let ghost m0 = ledger@;
        let ghost page = all_ids@.subrange(start as int, end as int);
        proof {
            assert(page == page_ids(m0, offset, limit));
            lemma_prune_count_prefix(m0, page, older_than_secs, now);
        }
        let mut pruned: u32 = 0;
        let mut i = start;
        while i < end
            invariant
                start <= i <= end <= total,
                total == all_ids@.len(),
                end - start <= 100,
                all_ids@ == all_invoice_ids(m0),
                page == all_ids@.subrange(start as int, end as int),
                now == m0.timestamp,
                ledger@ == pruned_ids(m0, page.take(i - start), older_than_secs, now),
                pruned == prune_count(m0, page.take(i - start), older_than_secs, now),
                prune_count(m0, page.take(i - start), older_than_secs, now) <= i - start,
                ledger@.view_only == m0.view_only,
                !view_only_flag(m0) || prune_count(m0, page, older_than_secs, now) == 0,
                forall|k: int| 0 <= k <= page.len() ==>
                    prune_count(m0, #[trigger] page.take(k), older_than_secs, now) <= prune_count(m0, page, older_than_secs, now),
            decreases end - i,
        {
            let id = all_ids[i as usize];
            proof {
                assert(page.take(i - start + 1).drop_last() =~= page.take(i - start));
                assert(page.take(i - start + 1).last() == id);
                assert(prune_count(m0, page.take(i - start + 1), older_than_secs, now) <= prune_count(m0, page, older_than_secs, now));
            }
            match ledger.invoices.get(&id) {
                Some(invoice) => {
                    if invoice.status.is_terminal() {
                        let terminal_ts = match (invoice.status, invoice.settled_at) {
                            (InvoiceStatus::Paid, Some(t)) => t,
                            _ => invoice.created_at,
                        };
                        if terminal_ts.saturating_add(older_than_secs) < now {
                            Self::delete_invoice(ledger, &id);
                            pruned = pruned.saturating_add(1);
                        }
                    }
                },
                None => {},
            }
            i = i.saturating_add(1);
        }
        assert(page.take(end - start) =~= page);
        proof {
            assert forall|x: BytesN32| #[trigger] m0.invoices.contains_key(x) implies (!ledger@.invoices.contains_key(x) <==> {
                let inv = m0.invoices[x];
                let ts: u64 = match (inv.status, inv.settled_at) {
                    (InvoiceStatus::Paid, Some(t)) => t,
                    _ => inv.created_at,
                };
                &&& page_ids(m0, offset, limit).contains(x)
                &&& (inv.status == InvoiceStatus::Paid || inv.status == InvoiceStatus::Defaulted
                    || inv.status == InvoiceStatus::Cancelled || inv.status == InvoiceStatus::Refunded)
                &&& ts + older_than_secs < m0.timestamp
            }) by {
                crate::laws::law_prune_deletes_exactly_the_old_terminal_records(m0, older_than_secs, offset, limit, x);
            }
        }
        PruneReport { scanned: end.saturating_sub(start), pruned, next_offset: end }
    }
}

/// Pruning a prefix of `ids` never deletes more than pruning all of them.
proof fn lemma_prune_count_prefix(m: LedgerModel, ids: Seq<BytesN32>, older_than_secs: u64, now: u64)
    ensures
        forall|k: int| 0 <= k <= ids.len() ==>
            prune_count(m, #[trigger] ids.take(k), older_than_secs, now) <= prune_count(m, ids, older_than_secs, now),
    decreases ids.len(),
{
    if ids.len() > 0 {
        let t = ids.drop_last();
        lemma_prune_count_prefix(m, t, older_than_secs, now);
        assert forall|k: int| 0 <= k <= ids.len() implies
            prune_count(m, #[trigger] ids.take(k), older_than_secs, now) <= prune_count(m, ids, older_than_secs, now) by {
            if k == ids.len() {
                assert(ids.take(k) =~= ids);
            } else {
                assert(ids.take(k) =~= t.take(k));
            }
        }
    } else {
        assert forall|k: int| 0 <= k <= ids.len() implies
            prune_count(m, #[trigger] ids.take(k), older_than_secs, now) <= prune_count(m, ids, older_than_secs, now) by {
            assert(ids.take(k) =~= ids);
        }
    }
}

} // verus!
