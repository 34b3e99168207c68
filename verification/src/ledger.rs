//! The contract's ledger storage: the persistent entries (records, index
//! lists and counters) and the instance entries (configuration and flags)
//! that the storage operations read and write, together with the ledger's
//! current timestamp.

use vstd::prelude::*;

use crate::symbol::Symbol;
use crate::table::{Table, TableKey, TableValue};
use crate::types::{Address, Bid, BytesN32, Investment, InvestmentView, Invoice, InvoiceView,
    PlatformFeeConfig};

verus! {

/// The key of a persistent list of identifiers: a symbol naming the index
/// together with the value the list is indexed by.
#[derive(Debug)]
pub enum IndexKey {
    BySymbol(Symbol, Symbol),
    ByAddress(Symbol, Address),
    ByBytes(Symbol, BytesN32),
    ByString(Symbol, String),
}

/// The abstract value of an index key, strings taken by their text.
pub enum IndexKeyView {
    BySymbol(Symbol, Symbol),
    ByAddress(Symbol, Address),
    ByBytes(Symbol, BytesN32),
    ByString(Symbol, Seq<char>),
}

impl View for IndexKey {
    type V = IndexKeyView;

    open spec fn view(&self) -> IndexKeyView {
        match self {
            IndexKey::BySymbol(a, b) => IndexKeyView::BySymbol(*a, *b),
            IndexKey::ByAddress(a, b) => IndexKeyView::ByAddress(*a, *b),
            IndexKey::ByBytes(a, b) => IndexKeyView::ByBytes(*a, *b),
            IndexKey::ByString(a, b) => IndexKeyView::ByString(*a, b@),
        }
    }
}

impl TableKey for IndexKey {
    fn same_key(&self, other: &Self) -> (r: bool) {
        match (self, other) {
            (IndexKey::BySymbol(a, b), IndexKey::BySymbol(c, d)) => *a == *c && *b == *d,
            (IndexKey::ByAddress(a, b), IndexKey::ByAddress(c, d)) => *a == *c && *b == *d,
            (IndexKey::ByBytes(a, b), IndexKey::ByBytes(c, d)) => *a == *c && *b == *d,
            (IndexKey::ByString(a, b), IndexKey::ByString(c, d)) => *a == *c && b.eq(d),
            _ => false,
        }
    }

    fn copy_key(&self) -> (r: Self) {
        match self {
            IndexKey::BySymbol(a, b) => IndexKey::BySymbol(*a, *b),
            IndexKey::ByAddress(a, b) => IndexKey::ByAddress(*a, *b),
            IndexKey::ByBytes(a, b) => IndexKey::ByBytes(*a, *b),
            IndexKey::ByString(a, b) => IndexKey::ByString(*a, b.clone()),
        }
    }
}

impl View for Symbol {
    type V = Symbol;

    open spec fn view(&self) -> Symbol {
        *self
    }
}

impl TableKey for Symbol {
    fn same_key(&self, other: &Self) -> (r: bool) {
        *self == *other
    }

    fn copy_key(&self) -> (r: Self) {
        *self
    }
}

impl TableValue for BytesN32 {
    fn copy_value(&self) -> (r: Self) {
        *self
    }
}

impl TableValue for bool {
    fn copy_value(&self) -> (r: Self) {
        *self
    }
}

impl TableValue for u64 {
    fn copy_value(&self) -> (r: Self) {
        *self
    }
}

/// An exact copy of a list of identifiers.
pub fn copy_ids(v: &Vec<BytesN32>) -> (r: Vec<BytesN32>)
    ensures
        r@ == v@,
{
    let mut r: Vec<BytesN32> = Vec::new();
    let mut i: usize = 0;
    while i < v.len()
        invariant
            i <= v@.len(),
            r@ == v@.take(i as int),
        decreases v@.len() - i,
    {
        r.push(v[i]);
        i = i + 1;
        assert(r@ =~= v@.take(i as int));
    }
    assert(v@.take(v@.len() as int) =~= v@);
    r
}

impl TableValue for Vec<BytesN32> {
    fn copy_value(&self) -> (r: Self) {
        copy_ids(self)
    }
}

/// The ledger storage of the contract.
///
/// Persistent storage holds the invoice, bid and investment records keyed by
/// their identifiers, the frozen-invoice flags, the identifier lists of the
/// secondary indexes, the symbol-keyed counters, the global bid list, the
/// active investment list and the invoice-to-investment mapping. Instance
/// storage holds the platform fee configuration, the view-only flag and the
/// pending treasury rotation.
pub struct Ledger {
    pub invoices: Table<BytesN32, Invoice>,
    pub bids: Table<BytesN32, Bid>,
    pub investments: Table<BytesN32, Investment>,
    pub frozen: Table<BytesN32, bool>,
    pub id_lists: Table<IndexKey, Vec<BytesN32>>,
    pub counters: Table<Symbol, u64>,
    pub all_bids: Vec<BytesN32>,
    pub active_investments: Vec<BytesN32>,
    pub investment_of_invoice: Table<BytesN32, BytesN32>,
    pub platform_fees: Option<PlatformFeeConfig>,
    pub view_only: Option<bool>,
    pub pending_treasury: Option<Address>,
    pub pending_treasury_ts: Option<u64>,
    /// The ledger's current timestamp, in seconds.
    pub timestamp: u64,
}

/// The abstract value of the ledger storage.
pub struct LedgerModel {
    pub invoices: Map<BytesN32, InvoiceView>,
    pub bids: Map<BytesN32, Bid>,
    pub investments: Map<BytesN32, InvestmentView>,
    pub frozen: Map<BytesN32, bool>,
    pub lists: Map<IndexKeyView, Seq<BytesN32>>,
    pub counters: Map<Symbol, u64>,
    pub all_bids: Seq<BytesN32>,
    pub active_investments: Seq<BytesN32>,
    pub investment_of_invoice: Map<BytesN32, BytesN32>,
    pub platform_fees: Option<PlatformFeeConfig>,
    pub view_only: Option<bool>,
    pub pending_treasury: Option<Address>,
    pub pending_treasury_ts: Option<u64>,
    pub timestamp: u64,
}

impl View for Ledger {
    type V = LedgerModel;

    open spec fn view(&self) -> LedgerModel {
        LedgerModel {
            invoices: self.invoices@,
            bids: self.bids@,
            investments: self.investments@,
            frozen: self.frozen@,
            lists: self.id_lists@,
            counters: self.counters@,
            all_bids: self.all_bids@,
            active_investments: self.active_investments@,
            investment_of_invoice: self.investment_of_invoice@,
            platform_fees: self.platform_fees,
            view_only: self.view_only,
            pending_treasury: self.pending_treasury,
            pending_treasury_ts: self.pending_treasury_ts,
            timestamp: self.timestamp,
        }
    }
}

/// The list stored under `k`, or the empty list where none is stored.
pub open spec fn list_of(lists: Map<IndexKeyView, Seq<BytesN32>>, k: IndexKeyView) -> Seq<BytesN32> {
    if lists.contains_key(k) {
        lists[k]
    } else {
        Seq::empty()
    }
}

impl Ledger {
    /// An empty ledger at time `timestamp`.
    pub fn new(timestamp: u64) -> (r: Ledger)
        ensures
            r@.invoices == Map::<BytesN32, InvoiceView>::empty(),
            r@.bids == Map::<BytesN32, Bid>::empty(),
            r@.investments == Map::<BytesN32, InvestmentView>::empty(),
            r@.frozen == Map::<BytesN32, bool>::empty(),
            r@.lists == Map::<IndexKeyView, Seq<BytesN32>>::empty(),
            r@.counters == Map::<Symbol, u64>::empty(),
            r@.all_bids == Seq::<BytesN32>::empty(),
            r@.active_investments == Seq::<BytesN32>::empty(),
            r@.investment_of_invoice == Map::<BytesN32, BytesN32>::empty(),
            r@.platform_fees is None,
            r@.view_only is None,
            r@.pending_treasury is None,
            r@.pending_treasury_ts is None,
            r@.timestamp == timestamp,
    {
        Ledger {
            invoices: Table::new(),
            bids: Table::new(),
            investments: Table::new(),
            frozen: Table::new(),
            id_lists: Table::new(),
            counters: Table::new(),
            all_bids: Vec::new(),
            active_investments: Vec::new(),
            investment_of_invoice: Table::new(),
            platform_fees: None,
            view_only: None,
            pending_treasury: None,
            pending_treasury_ts: None,
            timestamp,
        }
    }

    /// A copy of the identifier list stored under `k`; empty where none is stored.
    pub fn read_list(&self, k: &IndexKey) -> (r: Vec<BytesN32>)
        ensures
            r@ == list_of(self@.lists, k@),
    {
        match self.id_lists.get(k) {
            Some(v) => v,
            None => Vec::new(),
        }
    }

    /// Stores `ids` under `k`.
    pub fn write_list(&mut self, k: IndexKey, ids: Vec<BytesN32>)
        ensures
            final(self)@ == (LedgerModel { lists: old(self)@.lists.insert(k@, ids@), ..old(self)@ }),
    {
        self.id_lists.insert(k, ids);
    }
}

} // verus!
