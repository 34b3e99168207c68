use quicklendx::ledger::{IndexKey, Ledger};
use quicklendx::storage::{
    get_pending_treasury, has_pending_treasury, remove_pending_treasury, ConfigStorage, Indexes,
    InvoiceStorage, StorageKeys, StorageManager,
};
use quicklendx::symbol::Symbol;
use quicklendx::types::{
    Address, AddressKind, BytesN32, Dispute, DisputeResolution, DisputeStatus, Invoice,
    InvoiceCategory, InvoiceMetadata, InvoiceStatus, PlatformFeeConfig,
};

fn id(n: u128) -> BytesN32 {
    BytesN32 { hi: 0, lo: n }
}

fn addr(n: u128) -> Address {
    Address { kind: AddressKind::Account, key: id(n) }
}

fn invoice(
    n: u128,
    business: u128,
    status: InvoiceStatus,
    category: InvoiceCategory,
    tags: &[&str],
    customer: Option<&str>,
    tax: Option<&str>,
) -> Invoice {
    Invoice {
        id: id(n),
        business: addr(business),
        amount: 1000,
        currency: addr(900),
        due_date: 5000,
        status,
        created_at: 100,
        description: format!("invoice {n}"),
        metadata_customer_name: customer.map(|s| s.to_string()),
        metadata_customer_address: None,
        metadata_tax_id: tax.map(|s| s.to_string()),
        metadata_notes: None,
        metadata_line_items: Vec::new(),
        category,
        tags: tags.iter().map(|s| s.to_string()).collect(),
        funded_amount: 0,
        funded_at: None,
        investor: None,
        settled_at: None,
        average_rating: None,
        total_ratings: 0,
        ratings: Vec::new(),
        dispute_status: DisputeStatus::NoDispute,
        dispute: Dispute {
            created_by: addr(0),
            created_at: 0,
            reason: String::new(),
            evidence: String::new(),
            resolution: String::new(),
            resolved_by: addr(0),
            resolved_at: 0,
            resolution_outcome: DisputeResolution::NoResolution,
        },
        total_paid: 0,
        payment_history: Vec::new(),
    }
}

fn s(x: &str) -> String {
    x.to_string()
}

#[test]
fn store_then_get_returns_the_invoice_and_fills_every_index() {
    let mut ledger = Ledger::new(1000);
    let inv = invoice(1, 10, InvoiceStatus::Pending, InvoiceCategory::Goods, &["urgent", "q1"], Some("Acme"), Some("TX-1"));
    InvoiceStorage::store(&mut ledger, &inv);

    let got = InvoiceStorage::get(&ledger, &id(1)).expect("stored invoice");
    assert_eq!(got.id, id(1));
    assert_eq!(got.business, addr(10));
    assert_eq!(got.tags, vec![s("urgent"), s("q1")]);
    assert_eq!(got.metadata_customer_name, Some(s("Acme")));
    assert!(InvoiceStorage::get_invoice(&ledger, &id(2)).is_none());

    assert_eq!(InvoiceStorage::get_by_business(&ledger, &addr(10)), vec![id(1)]);
    assert_eq!(InvoiceStorage::get_business_invoices(&ledger, &addr(10)), vec![id(1)]);
    assert_eq!(InvoiceStorage::get_by_status(&ledger, InvoiceStatus::Pending), vec![id(1)]);
    assert!(InvoiceStorage::get_invoices_by_status(&ledger, InvoiceStatus::Verified).is_empty());
    assert_eq!(InvoiceStorage::get_invoices_by_customer(&ledger, &s("Acme")), vec![id(1)]);
    assert_eq!(InvoiceStorage::get_by_customer(&ledger, &s("Acme")), vec![id(1)]);
    assert_eq!(InvoiceStorage::get_invoices_by_tax_id(&ledger, &s("TX-1")), vec![id(1)]);
    assert_eq!(InvoiceStorage::get_by_tax_id(&ledger, &s("TX-1")), vec![id(1)]);
    assert_eq!(InvoiceStorage::get_invoices_by_tag(&ledger, &s("urgent")), vec![id(1)]);
    assert_eq!(InvoiceStorage::get_by_tag(&ledger, &s("q1")), vec![id(1)]);
    assert_eq!(
        InvoiceStorage::get_invoices_by_category_from_index(&ledger, &InvoiceCategory::Goods),
        vec![id(1)]
    );
    assert_eq!(InvoiceStorage::get_invoice_count_by_category_from_index(&ledger, &InvoiceCategory::Goods), 1);
    assert_eq!(InvoiceStorage::get_invoice_count_by_tag(&ledger, &s("urgent")), 1);
}

#[test]
fn storing_the_same_invoice_twice_lists_it_once() {
    let mut ledger = Ledger::new(0);
    let inv = invoice(1, 10, InvoiceStatus::Pending, InvoiceCategory::Goods, &["a", "a"], Some("Acme"), None);
    InvoiceStorage::store_invoice(&mut ledger, &inv);
    InvoiceStorage::store_invoice(&mut ledger, &inv);
    assert_eq!(InvoiceStorage::get_by_status(&ledger, InvoiceStatus::Pending), vec![id(1)]);
    assert_eq!(InvoiceStorage::get_by_business(&ledger, &addr(10)), vec![id(1)]);
    assert_eq!(InvoiceStorage::get_invoices_by_tag(&ledger, &s("a")), vec![id(1)]);
}

#[test]
fn update_moves_the_invoice_between_status_buckets() {
    let mut ledger = Ledger::new(0);
    let mut inv = invoice(1, 10, InvoiceStatus::Pending, InvoiceCategory::Goods, &[], None, None);
    InvoiceStorage::store(&mut ledger, &inv);
    inv.status = InvoiceStatus::Verified;
    InvoiceStorage::update(&mut ledger, &inv);
    assert!(InvoiceStorage::get_by_status(&ledger, InvoiceStatus::Pending).is_empty());
    assert_eq!(InvoiceStorage::get_by_status(&ledger, InvoiceStatus::Verified), vec![id(1)]);
    assert_eq!(InvoiceStorage::get(&ledger, &id(1)).unwrap().status, InvoiceStatus::Verified);
}

#[test]
fn update_follows_changed_metadata_category_and_tags() {
    let mut ledger = Ledger::new(0);
    let inv = invoice(1, 10, InvoiceStatus::Pending, InvoiceCategory::Goods, &["a", "b"], Some("Acme"), Some("T1"));
    InvoiceStorage::store(&mut ledger, &inv);
    let changed = invoice(1, 10, InvoiceStatus::Pending, InvoiceCategory::Services, &["b", "c"], Some("Beta"), None);
    InvoiceStorage::update_invoice(&mut ledger, &changed);
    assert!(InvoiceStorage::get_invoices_by_customer(&ledger, &s("Acme")).is_empty());
    assert_eq!(InvoiceStorage::get_invoices_by_customer(&ledger, &s("Beta")), vec![id(1)]);
    assert!(InvoiceStorage::get_invoices_by_tax_id(&ledger, &s("T1")).is_empty());
    assert!(InvoiceStorage::get_invoices_by_category_from_index(&ledger, &InvoiceCategory::Goods).is_empty());
    assert_eq!(
        InvoiceStorage::get_invoices_by_category_from_index(&ledger, &InvoiceCategory::Services),
        vec![id(1)]
    );
    assert!(InvoiceStorage::get_invoices_by_tag(&ledger, &s("a")).is_empty());
    assert_eq!(InvoiceStorage::get_invoices_by_tag(&ledger, &s("b")), vec![id(1)]);
    assert_eq!(InvoiceStorage::get_invoices_by_tag(&ledger, &s("c")), vec![id(1)]);
}

#[test]
fn update_of_a_missing_invoice_writes_and_indexes_the_record() {
    let mut ledger = Ledger::new(0);
    let inv = invoice(7, 10, InvoiceStatus::Funded, InvoiceCategory::Goods, &["x"], Some("Acme"), None);
    InvoiceStorage::update(&mut ledger, &inv);
    assert!(InvoiceStorage::get(&ledger, &id(7)).is_some());
    assert_eq!(InvoiceStorage::get_by_status(&ledger, InvoiceStatus::Funded), vec![id(7)]);
    assert_eq!(InvoiceStorage::get_invoices_by_tag(&ledger, &s("x")), vec![id(7)]);
    assert_eq!(InvoiceStorage::get_by_customer(&ledger, &s("Acme")), vec![id(7)]);
    assert_eq!(InvoiceStorage::get_all_invoice_ids(&ledger), vec![id(7)]);
}

#[test]
fn delete_removes_the_record_and_every_index_entry() {
    let mut ledger = Ledger::new(0);
    let a = invoice(1, 10, InvoiceStatus::Paid, InvoiceCategory::Goods, &["t"], Some("Acme"), Some("T1"));
    let b = invoice(2, 10, InvoiceStatus::Paid, InvoiceCategory::Goods, &["t"], Some("Acme"), Some("T1"));
    InvoiceStorage::store(&mut ledger, &a);
    InvoiceStorage::store(&mut ledger, &b);
    InvoiceStorage::delete_invoice(&mut ledger, &id(1));
    assert!(InvoiceStorage::get(&ledger, &id(1)).is_none());
    assert_eq!(InvoiceStorage::get_by_status(&ledger, InvoiceStatus::Paid), vec![id(2)]);
    assert_eq!(InvoiceStorage::get_by_business(&ledger, &addr(10)), vec![id(2)]);
    assert_eq!(InvoiceStorage::get_invoices_by_customer(&ledger, &s("Acme")), vec![id(2)]);
    assert_eq!(InvoiceStorage::get_invoices_by_tax_id(&ledger, &s("T1")), vec![id(2)]);
    assert_eq!(InvoiceStorage::get_invoices_by_tag(&ledger, &s("t")), vec![id(2)]);
    assert_eq!(
        InvoiceStorage::get_invoices_by_category_from_index(&ledger, &InvoiceCategory::Goods),
        vec![id(2)]
    );
    // Deleting an ID with no record changes nothing.
    InvoiceStorage::delete_invoice(&mut ledger, &id(99));
    assert_eq!(InvoiceStorage::get_by_status(&ledger, InvoiceStatus::Paid), vec![id(2)]);
}

#[test]
fn all_invoice_ids_follow_bucket_order_without_repeats() {
    let mut ledger = Ledger::new(0);
    InvoiceStorage::store(&mut ledger, &invoice(3, 10, InvoiceStatus::Paid, InvoiceCategory::Goods, &[], None, None));
    InvoiceStorage::store(&mut ledger, &invoice(1, 10, InvoiceStatus::Pending, InvoiceCategory::Goods, &[], None, None));
    InvoiceStorage::store(&mut ledger, &invoice(2, 10, InvoiceStatus::Verified, InvoiceCategory::Goods, &[], None, None));
    // A stray entry of id 1 in another bucket is reported once.
    InvoiceStorage::add_to_status_invoices(&mut ledger, InvoiceStatus::Refunded, &id(1));
    assert_eq!(InvoiceStorage::get_all_invoice_ids(&ledger), vec![id(1), id(2), id(3)]);
    InvoiceStorage::remove_from_status_invoices(&mut ledger, InvoiceStatus::Refunded, &id(1));
    assert!(InvoiceStorage::get_by_status(&ledger, InvoiceStatus::Refunded).is_empty());
}

#[test]
fn rating_category_and_status_queries_filter_records() {
    let mut ledger = Ledger::new(0);
    let mut a = invoice(1, 10, InvoiceStatus::Funded, InvoiceCategory::Goods, &[], None, None);
    a.average_rating = Some(4);
    let mut b = invoice(2, 10, InvoiceStatus::Funded, InvoiceCategory::Services, &[], None, None);
    b.average_rating = Some(2);
    let c = invoice(3, 10, InvoiceStatus::Pending, InvoiceCategory::Goods, &[], None, None);
    InvoiceStorage::store(&mut ledger, &a);
    InvoiceStorage::store(&mut ledger, &b);
    InvoiceStorage::store(&mut ledger, &c);
    assert_eq!(InvoiceStorage::get_invoices_with_rating_above(&ledger, 3), vec![id(1)]);
    assert_eq!(InvoiceStorage::get_invoices_with_rating_above(&ledger, 1), vec![id(1), id(2)]);
    assert!(InvoiceStorage::get_invoices_with_rating_above(&ledger, 4).is_empty());
    assert_eq!(
        InvoiceStorage::get_invoices_by_category_and_status(&ledger, InvoiceCategory::Goods, InvoiceStatus::Funded),
        vec![id(1)]
    );
    assert_eq!(InvoiceStorage::get_invoices_by_category(&ledger, &InvoiceCategory::Goods), vec![id(3), id(1)]);
    assert_eq!(InvoiceStorage::get_by_category(&ledger, InvoiceCategory::Services), vec![id(2)]);
    assert_eq!(InvoiceStorage::get_invoice_count_by_category(&ledger, &InvoiceCategory::Goods), 2);
    assert_eq!(InvoiceStorage::get_invoice_count_by_category(&ledger, &InvoiceCategory::Other), 0);
}

#[test]
fn active_business_invoices_count_open_statuses_only() {
    let mut ledger = Ledger::new(0);
    InvoiceStorage::store(&mut ledger, &invoice(1, 10, InvoiceStatus::Pending, InvoiceCategory::Goods, &[], None, None));
    InvoiceStorage::store(&mut ledger, &invoice(2, 10, InvoiceStatus::Verified, InvoiceCategory::Goods, &[], None, None));
    InvoiceStorage::store(&mut ledger, &invoice(3, 10, InvoiceStatus::Funded, InvoiceCategory::Goods, &[], None, None));
    InvoiceStorage::store(&mut ledger, &invoice(4, 10, InvoiceStatus::Paid, InvoiceCategory::Goods, &[], None, None));
    InvoiceStorage::store(&mut ledger, &invoice(5, 11, InvoiceStatus::Pending, InvoiceCategory::Goods, &[], None, None));
    assert_eq!(InvoiceStorage::count_active_business_invoices(&ledger, &addr(10)), 3);
    assert_eq!(InvoiceStorage::count_active_business_invoices(&ledger, &addr(11)), 1);
    assert_eq!(InvoiceStorage::count_active_business_invoices(&ledger, &addr(12)), 0);
}

#[test]
fn invoices_by_tags_require_every_tag() {
    let mut ledger = Ledger::new(0);
    InvoiceStorage::store(&mut ledger, &invoice(1, 10, InvoiceStatus::Pending, InvoiceCategory::Goods, &["a", "b"], None, None));
    InvoiceStorage::store(&mut ledger, &invoice(2, 10, InvoiceStatus::Pending, InvoiceCategory::Goods, &["a"], None, None));
    InvoiceStorage::store(&mut ledger, &invoice(3, 10, InvoiceStatus::Pending, InvoiceCategory::Goods, &["b", "a", "c"], None, None));
    assert_eq!(InvoiceStorage::get_invoices_by_tags(&ledger, &vec![s("a"), s("b")]), vec![id(1), id(3)]);
    assert_eq!(InvoiceStorage::get_invoices_by_tags(&ledger, &vec![s("a")]), vec![id(1), id(2), id(3)]);
    assert_eq!(InvoiceStorage::get_invoices_by_tags(&ledger, &vec![s("c"), s("b"), s("a")]), vec![id(3)]);
    assert!(InvoiceStorage::get_invoices_by_tags(&ledger, &vec![s("a"), s("zzz")]).is_empty());
    assert!(InvoiceStorage::get_invoices_by_tags(&ledger, &Vec::new()).is_empty());
}

#[test]
fn metadata_indexes_are_added_and_removed_together() {
    let mut ledger = Ledger::new(0);
    let inv = invoice(1, 10, InvoiceStatus::Pending, InvoiceCategory::Goods, &[], Some("Acme"), Some("T1"));
    InvoiceStorage::add_metadata_indexes(&mut ledger, &inv);
    assert_eq!(InvoiceStorage::get_by_customer(&ledger, &s("Acme")), vec![id(1)]);
    assert_eq!(InvoiceStorage::get_by_tax_id(&ledger, &s("T1")), vec![id(1)]);
    let metadata = InvoiceMetadata {
        customer_name: s("Acme"),
        customer_address: s("1 Road"),
        tax_id: s("T1"),
        line_items: Vec::new(),
        notes: s(""),
    };
    InvoiceStorage::remove_metadata_indexes(&mut ledger, &metadata, &id(1));
    assert!(InvoiceStorage::get_by_customer(&ledger, &s("Acme")).is_empty());
    assert!(InvoiceStorage::get_by_tax_id(&ledger, &s("T1")).is_empty());
}

#[test]
fn explicit_index_helpers_add_once_and_remove_every_occurrence() {
    let mut ledger = Ledger::new(0);
    InvoiceStorage::add_to_customer_index(&mut ledger, &s("Acme"), &id(1));
    InvoiceStorage::add_to_customer_index(&mut ledger, &s("Acme"), &id(1));
    InvoiceStorage::add_to_tax_id_index(&mut ledger, &s("T"), &id(2));
    InvoiceStorage::add_tag_index(&mut ledger, &s("g"), &id(3));
    InvoiceStorage::add_category_index(&mut ledger, &InvoiceCategory::Other, &id(4));
    assert_eq!(InvoiceStorage::get_by_customer(&ledger, &s("Acme")), vec![id(1)]);
    // A list written directly with a repeated entry loses every copy.
    ledger.write_list(IndexKey::ByString(Symbol::short("inv_tag"), s("g")), vec![id(3), id(5), id(3)]);
    InvoiceStorage::remove_tag_index(&mut ledger, &s("g"), &id(3));
    assert_eq!(InvoiceStorage::get_by_tag(&ledger, &s("g")), vec![id(5)]);
    InvoiceStorage::remove_from_tax_id_index(&mut ledger, &s("T"), &id(2));
    InvoiceStorage::remove_category_index(&mut ledger, &InvoiceCategory::Other, &id(4));
    InvoiceStorage::remove_from_customer_index(&mut ledger, &s("Acme"), &id(1));
    assert!(InvoiceStorage::get_by_tax_id(&ledger, &s("T")).is_empty());
    assert!(InvoiceStorage::get_invoices_by_category_from_index(&ledger, &InvoiceCategory::Other).is_empty());
    assert!(InvoiceStorage::get_by_customer(&ledger, &s("Acme")).is_empty());
}

#[test]
fn status_bucket_removal_drops_only_the_first_occurrence() {
    let mut ledger = Ledger::new(0);
    let (a, b) = Indexes::invoices_by_status(InvoiceStatus::Pending);
    ledger.write_list(IndexKey::BySymbol(a, b), vec![id(1), id(2), id(1)]);
    InvoiceStorage::remove_from_status_invoices(&mut ledger, InvoiceStatus::Pending, &id(1));
    assert_eq!(InvoiceStorage::get_by_status(&ledger, InvoiceStatus::Pending), vec![id(2), id(1)]);
}

#[test]
fn invoice_counter_advances_and_saturates() {
    let mut ledger = Ledger::new(0);
    assert_eq!(InvoiceStorage::get_total_count(&ledger), 0);
    assert_eq!(InvoiceStorage::next_count(&mut ledger), 1);
    assert_eq!(InvoiceStorage::next_count(&mut ledger), 2);
    assert_eq!(InvoiceStorage::get_total_count(&ledger), 2);
    ledger.counters.insert(StorageKeys::invoice_count(), u64::MAX);
    assert_eq!(InvoiceStorage::next_count(&mut ledger), u64::MAX);
    assert_eq!(InvoiceStorage::get_total_count(&ledger), u64::MAX);
}

#[test]
fn clear_all_deletes_indexed_invoices_and_counters() {
    let mut ledger = Ledger::new(0);
    InvoiceStorage::store(&mut ledger, &invoice(1, 10, InvoiceStatus::Pending, InvoiceCategory::Goods, &["t"], Some("Acme"), None));
    InvoiceStorage::store(&mut ledger, &invoice(2, 11, InvoiceStatus::Paid, InvoiceCategory::Goods, &[], None, None));
    InvoiceStorage::next_count(&mut ledger);
    ledger.counters.insert(StorageKeys::bid_count(), 5);
    ledger.counters.insert(StorageKeys::investment_count(), 6);
    // A record that no bucket names survives the clear.
    ledger.invoices.insert(id(3), invoice(3, 12, InvoiceStatus::Pending, InvoiceCategory::Goods, &[], None, None));
    InvoiceStorage::clear_all(&mut ledger);
    assert!(InvoiceStorage::get(&ledger, &id(1)).is_none());
    assert!(InvoiceStorage::get(&ledger, &id(2)).is_none());
    assert!(InvoiceStorage::get(&ledger, &id(3)).is_some());
    assert!(InvoiceStorage::get_all_invoice_ids(&ledger).is_empty());
    assert!(InvoiceStorage::get_invoices_by_tag(&ledger, &s("t")).is_empty());
    assert_eq!(InvoiceStorage::get_total_count(&ledger), 0);
    assert!(!ledger.counters.contains_key(&StorageKeys::bid_count()));
    assert!(!ledger.counters.contains_key(&StorageKeys::investment_count()));
}

#[test]
fn frozen_flag_reads_back_what_was_set() {
    let mut ledger = Ledger::new(0);
    assert!(!InvoiceStorage::is_frozen(&ledger, &id(1)));
    InvoiceStorage::set_frozen(&mut ledger, &id(1), true);
    assert!(InvoiceStorage::is_frozen(&ledger, &id(1)));
    assert!(!InvoiceStorage::is_frozen(&ledger, &id(2)));
    InvoiceStorage::set_frozen(&mut ledger, &id(1), false);
    assert!(!InvoiceStorage::is_frozen(&ledger, &id(1)));
}

#[test]
fn view_only_context_is_set_during_the_closure_and_restored() {
    let mut ledger = Ledger::new(0);
    assert!(!StorageManager::is_view_only(&ledger));
    let seen = StorageManager::with_view_only(&mut ledger, |l: &Ledger| StorageManager::is_view_only(l));
    assert!(seen);
    assert!(!StorageManager::is_view_only(&ledger));
    StorageManager::set_view_only(&mut ledger, true);
    let seen = StorageManager::with_view_only(&mut ledger, |l: &Ledger| StorageManager::is_view_only(l));
    assert!(seen);
    assert!(StorageManager::is_view_only(&ledger));
}

#[test]
fn pending_treasury_is_read_and_removed() {
    let mut ledger = Ledger::new(0);
    assert!(!has_pending_treasury(&ledger));
    assert_eq!(get_pending_treasury(&ledger), None);
    ledger.pending_treasury = Some(addr(77));
    ledger.pending_treasury_ts = Some(12345);
    assert!(has_pending_treasury(&ledger));
    assert_eq!(get_pending_treasury(&ledger), Some((addr(77), 12345)));
    remove_pending_treasury(&mut ledger);
    assert!(!has_pending_treasury(&ledger));
    assert_eq!(get_pending_treasury(&ledger), None);
}

#[test]
fn platform_fees_round_trip() {
    let mut ledger = Ledger::new(0);
    assert_eq!(ConfigStorage::get_platform_fees(&ledger), None);
    let config = PlatformFeeConfig { fee_bps: 250, treasury_address: Some(addr(5)), updated_at: 9, updated_by: addr(6) };
    ConfigStorage::set_platform_fees(&mut ledger, &config);
    assert_eq!(ConfigStorage::get_platform_fees(&ledger), Some(config));
}

#[test]
fn all_categories_are_listed_in_their_fixed_order() {
    assert_eq!(
        InvoiceStorage::get_all_categories(),
        vec![
            InvoiceCategory::Goods,
            InvoiceCategory::Logistics,
            InvoiceCategory::Services,
            InvoiceCategory::Products,
            InvoiceCategory::Consulting,
            InvoiceCategory::Manufacturing,
            InvoiceCategory::Technology,
            InvoiceCategory::Healthcare,
            InvoiceCategory::Other,
        ]
    );
}
