use quicklendx::ledger::{IndexKey, Ledger};
use quicklendx::storage::{Indexes, InvoiceStorage, StorageIntegrityAudit};
use quicklendx::types::{
    Address, AddressKind, Bid, BidStatus, BytesN32, Dispute, DisputeResolution, DisputeStatus,
    Investment, InvestmentStatus, Invoice, InvoiceCategory, InvoiceStatus, PruneReport,
    RebuildReport,
};

fn id(n: u128) -> BytesN32 {
    BytesN32 { hi: 7, lo: n }
}

fn addr(n: u128) -> Address {
    Address { kind: AddressKind::Account, key: id(n) }
}

fn invoice(n: u128, status: InvoiceStatus, created_at: u64, settled_at: Option<u64>) -> Invoice {
    Invoice {
        id: id(n),
        business: addr(10),
        amount: 5000,
        currency: addr(900),
        due_date: 90_000,
        status,
        created_at,
        description: format!("invoice {n}"),
        metadata_customer_name: Some("Globex".to_string()),
        metadata_customer_address: None,
        metadata_tax_id: Some("TAX-9".to_string()),
        metadata_notes: None,
        metadata_line_items: Vec::new(),
        category: InvoiceCategory::Services,
        tags: vec!["net30".to_string()],
        funded_amount: 0,
        funded_at: None,
        investor: None,
        settled_at,
        average_rating: None,
        total_ratings: 0,
        ratings: Vec::new(),
        dispute_status: DisputeStatus::NoDispute,
        dispute: Dispute {
            created_by: addr(0),
            created_at: 0,
            reason: String::new(),
            evidence: String::new(),
            resolution: String::new(),
            resolved_by: addr(0),
            resolved_at: 0,
            resolution_outcome: DisputeResolution::NoResolution,
        },
        total_paid: 0,
        payment_history: Vec::new(),
    }
}

fn customer_key(name: &str) -> IndexKey {
    let (a, b) = Indexes::invoices_by_customer(&name.to_string());
    IndexKey::ByString(a, b)
}

fn status_key(status: InvoiceStatus) -> IndexKey {
    let (a, b) = Indexes::invoices_by_status(status);
    IndexKey::BySymbol(a, b)
}

fn tag_key(tag: &str) -> IndexKey {
    let (a, b) = Indexes::invoices_by_tag(&tag.to_string());
    IndexKey::ByString(a, b)
}

fn strings(v: &[&str]) -> Vec<String> {
    v.iter().map(|s| s.to_string()).collect()
}

#[test]
fn audit_of_a_consistent_ledger_is_ok() {
    let mut ledger = Ledger::new(1_000);
    InvoiceStorage::store(&mut ledger, &invoice(1, InvoiceStatus::Pending, 100, None));
    InvoiceStorage::store(&mut ledger, &invoice(2, InvoiceStatus::Paid, 100, Some(200)));
    assert_eq!(StorageIntegrityAudit::audit_invoice_integrity(&ledger), Ok(()));
    assert_eq!(StorageIntegrityAudit::audit_bid_integrity(&ledger), Ok(()));
    assert_eq!(StorageIntegrityAudit::audit_investment_integrity(&ledger), Ok(()));
    assert_eq!(StorageIntegrityAudit::audit_all(&ledger), Ok(()));
}

#[test]
fn audit_reports_an_orphan_status_entry() {
    let mut ledger = Ledger::new(1_000);
    ledger.write_list(status_key(InvoiceStatus::Verified), vec![id(44)]);
    assert_eq!(
        StorageIntegrityAudit::audit_invoice_integrity(&ledger),
        Err(strings(&["Orphan invoice ID found in status index"]))
    );
}

#[test]
fn audit_reports_a_status_mismatch_and_each_missing_index() {
    let mut ledger = Ledger::new(1_000);
    InvoiceStorage::store(&mut ledger, &invoice(1, InvoiceStatus::Pending, 100, None));
    // The same ID also sits in the Funded bucket, and the customer and tag
    // lists lose it.
    ledger.write_list(status_key(InvoiceStatus::Funded), vec![id(1)]);
    ledger.write_list(customer_key("Globex"), Vec::new());
    ledger.write_list(tag_key("net30"), Vec::new());
    assert_eq!(
        StorageIntegrityAudit::audit_invoice_integrity(&ledger),
        Err(strings(&[
            "Invoice status mismatch: record vs index",
            "Invoice missing from customer metadata index",
            "Invoice missing from tag index",
        ]))
    );
}

fn bid(n: u128, invoice_n: u128, investor_n: u128) -> Bid {
    Bid {
        bid_id: id(n),
        invoice_id: id(invoice_n),
        investor: addr(investor_n),
        bid_amount: 900,
        expected_return: 950,
        timestamp: 10,
        status: BidStatus::Placed,
        expiration_timestamp: 20,
    }
}

#[test]
fn bid_audit_reports_orphans_and_missing_index_entries() {
    let mut ledger = Ledger::new(1_000);
    let b = bid(300, 1, 20);
    ledger.bids.insert(id(300), b);
    ledger.all_bids = vec![id(300), id(301)];
    let (a, x) = Indexes::bids_by_investor(&addr(20));
    ledger.write_list(IndexKey::ByAddress(a, x), vec![id(300)]);
    assert_eq!(
        StorageIntegrityAudit::audit_bid_integrity(&ledger),
        Err(strings(&["Bid missing from invoice index", "Orphan ID in global bid list"]))
    );
    let (a, x) = Indexes::bids_by_invoice(&id(1));
    ledger.write_list(IndexKey::ByBytes(a, x), vec![id(300)]);
    ledger.all_bids = vec![id(300)];
    assert_eq!(StorageIntegrityAudit::audit_bid_integrity(&ledger), Ok(()));
}

fn investment(n: u128, invoice_n: u128, investor_n: u128, status: InvestmentStatus) -> Investment {
    Investment {
        investment_id: id(n),
        invoice_id: id(invoice_n),
        investor: addr(investor_n),
        amount: 900,
        funded_at: 50,
        status,
        insurance: Vec::new(),
    }
}

#[test]
fn investment_audit_reports_each_problem_in_order() {
    let mut ledger = Ledger::new(1_000);
    ledger.investments.insert(id(500), investment(500, 1, 30, InvestmentStatus::Completed));
    ledger.investments.insert(id(501), investment(501, 2, 30, InvestmentStatus::Active));
    ledger.investment_of_invoice.insert(id(2), id(500));
    // Entry 502 has no record; 500 is listed twice but checked once.
    ledger.active_investments = vec![id(500), id(502), id(501), id(500)];
    let (a, x) = Indexes::investments_by_investor(&addr(30));
    ledger.write_list(IndexKey::ByAddress(a, x), vec![id(501)]);
    assert_eq!(
        StorageIntegrityAudit::audit_investment_integrity(&ledger),
        Err(strings(&[
            "Terminal investment found in active index",
            "Orphan ID in active investment index",
            "Terminal investment found in active index",
            "Investment missing from investor index",
            "Investment missing from invoice mapping",
            "Invoice to investment mapping mismatch",
        ]))
    );
}

#[test]
fn investment_audit_accepts_a_consistent_active_investment() {
    let mut ledger = Ledger::new(1_000);
    ledger.investments.insert(id(600), investment(600, 3, 31, InvestmentStatus::Active));
    ledger.investment_of_invoice.insert(id(3), id(600));
    ledger.active_investments = vec![id(600)];
    let (a, x) = Indexes::investments_by_investor(&addr(31));
    ledger.write_list(IndexKey::ByAddress(a, x), vec![id(600)]);
    assert_eq!(StorageIntegrityAudit::audit_investment_integrity(&ledger), Ok(()));
}

#[test]
fn full_audit_gathers_invoice_then_bid_then_investment_problems() {
    let mut ledger = Ledger::new(1_000);
    ledger.write_list(status_key(InvoiceStatus::Paid), vec![id(9)]);
    ledger.all_bids = vec![id(8)];
    ledger.active_investments = vec![id(7)];
    assert_eq!(
        StorageIntegrityAudit::audit_all(&ledger),
        Err(strings(&[
            "Orphan invoice ID found in status index",
            "Orphan ID in global bid list",
            "Orphan ID in active investment index",
        ]))
    );
}

#[test]
fn rebuild_restores_lost_metadata_entries() {
    let mut ledger = Ledger::new(1_000);
    InvoiceStorage::store(&mut ledger, &invoice(1, InvoiceStatus::Pending, 100, None));
    ledger.write_list(customer_key("Globex"), Vec::new());
    assert!(StorageIntegrityAudit::audit_invoice_integrity(&ledger).is_err());

    let report = InvoiceStorage::rebuild_indexes_page(&mut ledger, 0, 10);
    assert_eq!(report, RebuildReport { scanned: 1, reindexed: 1, next_offset: 1 });
    assert_eq!(InvoiceStorage::get_by_customer(&ledger, &"Globex".to_string()), vec![id(1)]);
    assert_eq!(StorageIntegrityAudit::audit_invoice_integrity(&ledger), Ok(()));
}

#[test]
fn rebuild_twice_leaves_the_indexes_as_once() {
    let mut ledger = Ledger::new(1_000);
    InvoiceStorage::store(&mut ledger, &invoice(1, InvoiceStatus::Pending, 100, None));
    InvoiceStorage::store(&mut ledger, &invoice(2, InvoiceStatus::Verified, 100, None));
    InvoiceStorage::rebuild_indexes_page(&mut ledger, 0, 100);
    let once = InvoiceStorage::get_by_tag(&ledger, &"net30".to_string());
    InvoiceStorage::rebuild_indexes_page(&mut ledger, 0, 100);
    let twice = InvoiceStorage::get_by_tag(&ledger, &"net30".to_string());
    assert_eq!(once, vec![id(1), id(2)]);
    assert_eq!(once, twice);
}

#[test]
fn rebuild_pages_are_clamped_to_the_ids_and_the_page_cap() {
    let mut ledger = Ledger::new(1_000);
    for n in 1..=3 {
        InvoiceStorage::store(&mut ledger, &invoice(n, InvoiceStatus::Pending, 100, None));
    }
    assert_eq!(
        InvoiceStorage::rebuild_indexes_page(&mut ledger, 1, 1),
        RebuildReport { scanned: 1, reindexed: 1, next_offset: 2 }
    );
    assert_eq!(
        InvoiceStorage::rebuild_indexes_page(&mut ledger, 2, 1000),
        RebuildReport { scanned: 1, reindexed: 1, next_offset: 3 }
    );
    assert_eq!(
        InvoiceStorage::rebuild_indexes_page(&mut ledger, 9, 5),
        RebuildReport { scanned: 0, reindexed: 0, next_offset: 3 }
    );
    assert_eq!(
        InvoiceStorage::rebuild_indexes_page(&mut ledger, 0, 0),
        RebuildReport { scanned: 0, reindexed: 0, next_offset: 0 }
    );
}

#[test]
fn rebuild_counts_only_ids_with_a_record() {
    let mut ledger = Ledger::new(1_000);
    InvoiceStorage::store(&mut ledger, &invoice(1, InvoiceStatus::Pending, 100, None));
    ledger.write_list(status_key(InvoiceStatus::Pending), vec![id(1), id(2)]);
    assert_eq!(
        InvoiceStorage::rebuild_indexes_page(&mut ledger, 0, 10),
        RebuildReport { scanned: 2, reindexed: 1, next_offset: 2 }
    );
}

#[test]
fn prune_deletes_only_old_terminal_invoices() {
    let mut ledger = Ledger::new(10_000);
    InvoiceStorage::store(&mut ledger, &invoice(1, InvoiceStatus::Paid, 100, Some(200)));
    InvoiceStorage::store(&mut ledger, &invoice(2, InvoiceStatus::Cancelled, 9_500, None));
    InvoiceStorage::store(&mut ledger, &invoice(3, InvoiceStatus::Pending, 100, None));
    InvoiceStorage::store(&mut ledger, &invoice(4, InvoiceStatus::Funded, 100, None));
    InvoiceStorage::store(&mut ledger, &invoice(5, InvoiceStatus::Defaulted, 100, None));

    let report = InvoiceStorage::prune_terminal_invoices_page(&mut ledger, 1_000, 0, 100);
    assert_eq!(report, PruneReport { scanned: 5, pruned: 2, next_offset: 5 });
    assert!(InvoiceStorage::get(&ledger, &id(1)).is_none());
    assert!(InvoiceStorage::get(&ledger, &id(5)).is_none());
    assert!(InvoiceStorage::get(&ledger, &id(2)).is_some());
    assert!(InvoiceStorage::get(&ledger, &id(3)).is_some());
    assert!(InvoiceStorage::get(&ledger, &id(4)).is_some());
    assert_eq!(InvoiceStorage::get_by_status(&ledger, InvoiceStatus::Paid), Vec::<BytesN32>::new());
    assert_eq!(InvoiceStorage::get_by_customer(&ledger, &"Globex".to_string()), vec![id(2), id(3), id(4)]);
    assert_eq!(StorageIntegrityAudit::audit_invoice_integrity(&ledger), Ok(()));
}

#[test]
fn prune_with_a_huge_age_keeps_everything() {
    let mut ledger = Ledger::new(u64::MAX);
    InvoiceStorage::store(&mut ledger, &invoice(1, InvoiceStatus::Refunded, 100, None));
    let report = InvoiceStorage::prune_terminal_invoices_page(&mut ledger, u64::MAX, 0, 10);
    assert_eq!(report, PruneReport { scanned: 1, pruned: 0, next_offset: 1 });
    assert!(InvoiceStorage::get(&ledger, &id(1)).is_some());
}

#[test]
fn prune_timestamp_boundary_is_strict() {
    let mut ledger = Ledger::new(1_100);
    InvoiceStorage::store(&mut ledger, &invoice(1, InvoiceStatus::Paid, 0, Some(100)));
    // 100 + 1000 is not before 1100.
    let report = InvoiceStorage::prune_terminal_invoices_page(&mut ledger, 1_000, 0, 10);
    assert_eq!(report.pruned, 0);
    ledger.timestamp = 1_101;
    let report = InvoiceStorage::prune_terminal_invoices_page(&mut ledger, 1_000, 0, 10);
    assert_eq!(report.pruned, 1);
}

#[test]
fn prune_pages_resume_from_next_offset() {
    let mut ledger = Ledger::new(50_000);
    for n in 1..=4 {
        InvoiceStorage::store(&mut ledger, &invoice(n, InvoiceStatus::Pending, 100, None));
    }
    let first = InvoiceStorage::prune_terminal_invoices_page(&mut ledger, 10, 0, 3);
    assert_eq!(first, PruneReport { scanned: 3, pruned: 0, next_offset: 3 });
    let second = InvoiceStorage::prune_terminal_invoices_page(&mut ledger, 10, first.next_offset, 3);
    assert_eq!(second, PruneReport { scanned: 1, pruned: 0, next_offset: 4 });
    let third = InvoiceStorage::prune_terminal_invoices_page(&mut ledger, 10, second.next_offset, 3);
    assert_eq!(third.next_offset, second.next_offset);
}

fn bucket_total(ledger: &Ledger) -> usize {
    [
        InvoiceStatus::Pending,
        InvoiceStatus::Verified,
        InvoiceStatus::Funded,
        InvoiceStatus::Paid,
        InvoiceStatus::Defaulted,
        InvoiceStatus::Cancelled,
        InvoiceStatus::Refunded,
    ]
    .iter()
    .map(|s| InvoiceStorage::get_by_status(ledger, *s).len())
    .sum()
}

#[test]
fn creating_invoices_keeps_the_counter_equal_to_the_bucket_entries() {
    let mut ledger = Ledger::new(1_000);
    for (n, status) in [(1, InvoiceStatus::Pending), (2, InvoiceStatus::Funded), (3, InvoiceStatus::Paid)] {
        InvoiceStorage::store(&mut ledger, &invoice(n, status, 100, None));
        InvoiceStorage::next_count(&mut ledger);
        assert_eq!(InvoiceStorage::get_total_count(&ledger) as usize, bucket_total(&ledger));
    }
    assert_eq!(InvoiceStorage::get_total_count(&ledger), 3);
}

#[test]
fn updating_a_status_keeps_the_bucket_entries() {
    let mut ledger = Ledger::new(1_000);
    InvoiceStorage::store(&mut ledger, &invoice(1, InvoiceStatus::Pending, 100, None));
    InvoiceStorage::store(&mut ledger, &invoice(2, InvoiceStatus::Pending, 100, None));
    InvoiceStorage::update(&mut ledger, &invoice(1, InvoiceStatus::Defaulted, 100, None));
    assert_eq!(bucket_total(&ledger), 2);
    assert_eq!(InvoiceStorage::get_by_status(&ledger, InvoiceStatus::Pending), vec![id(2)]);
    assert_eq!(InvoiceStorage::get_by_status(&ledger, InvoiceStatus::Defaulted), vec![id(1)]);
}

#[test]
fn deleting_from_a_clean_ledger_keeps_the_audit_clean() {
    let mut ledger = Ledger::new(1_000);
    InvoiceStorage::store(&mut ledger, &invoice(1, InvoiceStatus::Pending, 100, None));
    InvoiceStorage::store(&mut ledger, &invoice(2, InvoiceStatus::Verified, 100, None));
    InvoiceStorage::delete_invoice(&mut ledger, &id(1));
    assert_eq!(StorageIntegrityAudit::audit_invoice_integrity(&ledger), Ok(()));
    assert_eq!(InvoiceStorage::get_all_invoice_ids(&ledger), vec![id(2)]);
}

#[test]
fn deleting_an_id_listed_twice_leaves_an_orphan() {
    let mut ledger = Ledger::new(1_000);
    InvoiceStorage::store(&mut ledger, &invoice(1, InvoiceStatus::Pending, 100, None));
    ledger.write_list(status_key(InvoiceStatus::Pending), vec![id(1), id(1)]);
    InvoiceStorage::delete_invoice(&mut ledger, &id(1));
    assert_eq!(
        StorageIntegrityAudit::audit_invoice_integrity(&ledger),
        Err(strings(&["Orphan invoice ID found in status index"]))
    );
}

#[test]
fn rebuild_repairs_all_but_the_business_index() {
    let mut ledger = Ledger::new(1_000);
    InvoiceStorage::store(&mut ledger, &invoice(1, InvoiceStatus::Pending, 100, None));
    let (a, x) = Indexes::invoices_by_business(&addr(10));
    ledger.write_list(IndexKey::ByAddress(a, x), Vec::new());
    ledger.write_list(customer_key("Globex"), Vec::new());
    ledger.write_list(tag_key("net30"), Vec::new());
    assert_eq!(
        StorageIntegrityAudit::audit_invoice_integrity(&ledger),
        Err(strings(&[
            "Invoice missing from business index",
            "Invoice missing from customer metadata index",
            "Invoice missing from tag index",
        ]))
    );
    InvoiceStorage::rebuild_indexes_page(&mut ledger, 0, 100);
    assert_eq!(
        StorageIntegrityAudit::audit_invoice_integrity(&ledger),
        Err(strings(&["Invoice missing from business index"]))
    );
}

fn category_key(category: InvoiceCategory) -> IndexKey {
    let (a, b) = Indexes::invoices_by_category(category);
    IndexKey::BySymbol(a, b)
}

#[test]
fn audit_reports_a_missing_category_index_entry() {
    let mut ledger = Ledger::new(1_000);
    InvoiceStorage::store(&mut ledger, &invoice(1, InvoiceStatus::Pending, 100, None));
    ledger.write_list(category_key(InvoiceCategory::Services), Vec::new());
    assert_eq!(
        StorageIntegrityAudit::audit_invoice_integrity(&ledger),
        Err(strings(&["Invoice missing from category index"]))
    );
    InvoiceStorage::rebuild_indexes_page(&mut ledger, 0, 10);
    assert_eq!(StorageIntegrityAudit::audit_invoice_integrity(&ledger), Ok(()));
}

#[test]
fn prune_uses_settled_at_only_for_paid_invoices() {
    let mut ledger = Ledger::new(10_000);
    // Settled long ago but created recently: only a Paid invoice counts
    // from its settlement.
    InvoiceStorage::store(&mut ledger, &invoice(1, InvoiceStatus::Defaulted, 9_500, Some(100)));
    InvoiceStorage::store(&mut ledger, &invoice(2, InvoiceStatus::Paid, 9_500, Some(100)));
    let report = InvoiceStorage::prune_terminal_invoices_page(&mut ledger, 1_000, 0, 10);
    assert_eq!(report.pruned, 1);
    assert!(InvoiceStorage::get(&ledger, &id(1)).is_some());
    assert!(InvoiceStorage::get(&ledger, &id(2)).is_none());
}

#[test]
fn resumed_prune_removes_every_eligible_invoice() {
    let mut ledger = Ledger::new(10_000);
    for n in 1..=4 {
        InvoiceStorage::store(&mut ledger, &invoice(n, InvoiceStatus::Cancelled, 100, None));
    }
    InvoiceStorage::store(&mut ledger, &invoice(5, InvoiceStatus::Pending, 100, None));
    let mut offset = 0;
    let mut total_pruned = 0;
    loop {
        let r = InvoiceStorage::prune_terminal_invoices_page(&mut ledger, 10, offset, 2);
        if r.scanned == 0 {
            break;
        }
        total_pruned += r.pruned;
        offset = r.next_offset - r.pruned;
    }
    assert_eq!(total_pruned, 4);
    assert_eq!(InvoiceStorage::get_all_invoice_ids(&ledger), vec![id(5)]);
}

#[test]
fn prune_next_offset_is_the_page_end_before_the_deletions() {
    let mut ledger = Ledger::new(10_000);
    for n in 1..=4 {
        InvoiceStorage::store(&mut ledger, &invoice(n, InvoiceStatus::Cancelled, 100, None));
    }
    InvoiceStorage::store(&mut ledger, &invoice(5, InvoiceStatus::Pending, 100, None));
    // IDs are listed Pending first: [5, 1, 2, 3, 4].
    let first = InvoiceStorage::prune_terminal_invoices_page(&mut ledger, 10, 0, 2);
    assert_eq!(first, PruneReport { scanned: 2, pruned: 1, next_offset: 2 });
    // The list is now [5, 2, 3, 4]: resuming at next_offset skips ID 2.
    let second = InvoiceStorage::prune_terminal_invoices_page(&mut ledger, 10, first.next_offset, 2);
    assert_eq!(second, PruneReport { scanned: 2, pruned: 2, next_offset: 4 });
    assert_eq!(InvoiceStorage::get_all_invoice_ids(&ledger), vec![id(5), id(2)]);
}

#[test]
fn resumed_rebuild_reaches_every_invoice() {
    let mut ledger = Ledger::new(1_000);
    for n in 1..=150 {
        InvoiceStorage::store(&mut ledger, &invoice(n, InvoiceStatus::Pending, 100, None));
    }
    ledger.write_list(customer_key("Globex"), Vec::new());
    let mut offset = 0;
    let mut scanned = 0;
    loop {
        let r = InvoiceStorage::rebuild_indexes_page(&mut ledger, offset, 100);
        if r.scanned == 0 {
            break;
        }
        scanned += r.scanned;
        offset = r.next_offset;
    }
    assert_eq!(scanned, 150);
    assert_eq!(InvoiceStorage::get_by_customer(&ledger, &"Globex".to_string()).len(), 150);
    assert_eq!(StorageIntegrityAudit::audit_invoice_integrity(&ledger), Ok(()));
}

#[test]
fn view_only_ledger_allows_prune_and_clear_that_delete_nothing() {
    let mut ledger = Ledger::new(10_000);
    InvoiceStorage::store(&mut ledger, &invoice(1, InvoiceStatus::Pending, 100, None));
    ledger.view_only = Some(true);
    let r = InvoiceStorage::prune_terminal_invoices_page(&mut ledger, 10, 0, 10);
    assert_eq!(r, PruneReport { scanned: 1, pruned: 0, next_offset: 1 });
    let mut empty = Ledger::new(0);
    empty.view_only = Some(true);
    InvoiceStorage::clear_all(&mut empty);
    assert!(InvoiceStorage::get_all_invoice_ids(&empty).is_empty());
}

fn all_lists_snapshot(ledger: &Ledger) -> Vec<Vec<BytesN32>> {
    vec![
        InvoiceStorage::get_by_status(ledger, InvoiceStatus::Pending),
        InvoiceStorage::get_by_status(ledger, InvoiceStatus::Paid),
        InvoiceStorage::get_by_business(ledger, &addr(10)),
        InvoiceStorage::get_by_customer(ledger, &"Globex".to_string()),
        InvoiceStorage::get_by_tax_id(ledger, &"TAX-9".to_string()),
        InvoiceStorage::get_by_tag(ledger, &"net30".to_string()),
        InvoiceStorage::get_invoices_by_category_from_index(ledger, &InvoiceCategory::Services),
    ]
}

#[test]
fn storing_twice_equals_storing_once() {
    let mut once = Ledger::new(1_000);
    InvoiceStorage::store(&mut once, &invoice(1, InvoiceStatus::Pending, 100, None));
    let mut twice = Ledger::new(1_000);
    InvoiceStorage::store(&mut twice, &invoice(1, InvoiceStatus::Pending, 100, None));
    InvoiceStorage::store(&mut twice, &invoice(1, InvoiceStatus::Pending, 100, None));
    assert_eq!(all_lists_snapshot(&once), all_lists_snapshot(&twice));
}

#[test]
fn store_then_delete_restores_every_list() {
    let mut ledger = Ledger::new(1_000);
    InvoiceStorage::store(&mut ledger, &invoice(1, InvoiceStatus::Paid, 100, None));
    let before = all_lists_snapshot(&ledger);
    InvoiceStorage::store(&mut ledger, &invoice(2, InvoiceStatus::Pending, 100, None));
    InvoiceStorage::delete_invoice(&mut ledger, &id(2));
    assert_eq!(all_lists_snapshot(&ledger), before);
    assert!(InvoiceStorage::get(&ledger, &id(2)).is_none());
}

#[test]
fn updating_metadata_keeps_the_audit_clean() {
    let mut ledger = Ledger::new(1_000);
    InvoiceStorage::store(&mut ledger, &invoice(1, InvoiceStatus::Pending, 100, None));
    let mut changed = invoice(1, InvoiceStatus::Verified, 100, None);
    changed.metadata_customer_name = Some("Initech".to_string());
    changed.metadata_tax_id = None;
    changed.category = InvoiceCategory::Technology;
    changed.tags = vec!["q4".to_string(), "net30".to_string()];
    InvoiceStorage::update(&mut ledger, &changed);
    assert_eq!(StorageIntegrityAudit::audit_invoice_integrity(&ledger), Ok(()));
    assert_eq!(InvoiceStorage::get_by_customer(&ledger, &"Globex".to_string()), Vec::<BytesN32>::new());
    assert_eq!(InvoiceStorage::get_by_customer(&ledger, &"Initech".to_string()), vec![id(1)]);
    assert_eq!(
        InvoiceStorage::get_invoices_by_category_from_index(&ledger, &InvoiceCategory::Services),
        Vec::<BytesN32>::new()
    );
    assert_eq!(
        InvoiceStorage::get_invoices_by_category_from_index(&ledger, &InvoiceCategory::Technology),
        InvoiceStorage::get_invoices_by_category(&ledger, &InvoiceCategory::Technology)
    );
}

#[test]
fn tag_query_ignores_the_order_of_the_tags() {
    let mut ledger = Ledger::new(1_000);
    let mut a = invoice(1, InvoiceStatus::Pending, 100, None);
    a.tags = vec!["x".to_string(), "y".to_string()];
    let mut b = invoice(2, InvoiceStatus::Pending, 100, None);
    b.tags = vec!["y".to_string(), "x".to_string()];
    let mut c = invoice(3, InvoiceStatus::Pending, 100, None);
    c.tags = vec!["y".to_string()];
    for inv in [&a, &b, &c] {
        InvoiceStorage::store(&mut ledger, inv);
    }
    let mut xy = InvoiceStorage::get_invoices_by_tags(&ledger, &vec!["x".to_string(), "y".to_string()]);
    let mut yx = InvoiceStorage::get_invoices_by_tags(&ledger, &vec!["y".to_string(), "x".to_string()]);
    xy.sort_by_key(|i| i.lo);
    yx.sort_by_key(|i| i.lo);
    assert_eq!(xy, vec![id(1), id(2)]);
    assert_eq!(xy, yx);
    assert!(InvoiceStorage::get_invoices_by_tags(&ledger, &Vec::new()).is_empty());
}
