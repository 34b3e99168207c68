//! Properties of the storage operations that span several calls: the
//! agreement between the invoice records and their status buckets, what a
//! read returns after a write, the idempotence and resumability of index
//! rebuilding, what pruning may remove, which operations keep the integrity
//! audit clean, and the agreement between the invoice counter and the
//! status buckets.

use vstd::prelude::*;

use crate::ledger::{list_of, IndexKeyView, LedgerModel};
use crate::storage::{page_ids, prune_count, prune_eligible, pruned, pruned_ids, category_key, delete_lists, deleted, invoice_status_name,
    status_index_sound, status_key, store_lists, stored, tag_key, update_lists, updated, with_id,
    with_id_in_tags, without_any, without_first, without_id_in_tags};
use crate::symbol::{is_short_name, lemma_distinct_short_names, name_codes, Symbol};
use crate::types::{BytesN32, InvestmentStatus, InvoiceCategory, InvoiceStatus, InvoiceView};

verus! {

/// The invoice records and the status buckets agree: every bucket entry
/// names an existing record in that status, every record is in the bucket
/// of its status, and no bucket lists an ID twice. Together these say that
/// each invoice lives in exactly one status bucket.
pub open spec fn status_coherent(m: LedgerModel) -> bool {
    &&& status_index_sound(m)
    &&& forall|id: BytesN32| #[trigger] m.invoices.contains_key(id) ==> list_of(m.lists, status_key(m.invoices[id].status)).contains(id)
    &&& forall|s: InvoiceStatus| #[trigger] list_of(m.lists, status_key(s)).no_duplicates()
}

/// `k` is not the key of any status bucket.
pub open spec fn not_status_key(k: IndexKeyView) -> bool {
    forall|s: InvoiceStatus| #[trigger] status_key(s) != k
}

/// Two index maps hold the same status buckets.
pub open spec fn same_status_lists(a: Map<IndexKeyView, Seq<BytesN32>>, b: Map<IndexKeyView, Seq<BytesN32>>) -> bool {
    forall|s: InvoiceStatus| #[trigger] list_of(a, status_key(s)) == list_of(b, status_key(s))
}

proof fn lemma_status_names_short(s: InvoiceStatus)
    ensures
        is_short_name(invoice_status_name(s)),
{
    reveal_strlit("pending");
    reveal_strlit("verified");
    reveal_strlit("funded");
    reveal_strlit("paid");
    reveal_strlit("defaulted");
    reveal_strlit("cancelled");
    reveal_strlit("refunded");
}

/// Distinct statuses have distinct buckets.
pub proof fn lemma_status_key_injective(s1: InvoiceStatus, s2: InvoiceStatus)
    ensures
        status_key(s1) == status_key(s2) ==> s1 == s2,
{
    if s1 != s2 {
        reveal_strlit("pending");
        reveal_strlit("verified");
        reveal_strlit("funded");
        reveal_strlit("paid");
        reveal_strlit("defaulted");
        reveal_strlit("cancelled");
        reveal_strlit("refunded");
        lemma_status_names_short(s1);
        lemma_status_names_short(s2);
        let a = invoice_status_name(s1);
        let b = invoice_status_name(s2);
        assert(name_codes(a) != name_codes(b)) by {
            if a.len() == b.len() {
                assert(name_codes(a)[0] != name_codes(b)[0]);
            } else {
                assert(name_codes(a).len() != name_codes(b).len());
            }
        }
        lemma_distinct_short_names(a, b);
    }
}

proof fn lemma_investment_status_names_short(t: InvestmentStatus)
    ensures
        is_short_name(crate::storage::investment_status_name(t)),
{
    reveal_strlit("active");
    reveal_strlit("withdrawn");
    reveal_strlit("completed");
    reveal_strlit("invst_dft");
    reveal_strlit("invst_rfd");
}

/// No investment status bucket shares its key with an invoice status
/// bucket: the status symbols of the two tell them apart.
pub proof fn law_investment_and_invoice_status_keys_differ(t: InvestmentStatus, s: InvoiceStatus)
    ensures
        Symbol::spec_short(crate::storage::investment_status_name(t)) != Symbol::spec_short(invoice_status_name(s)),
{
    reveal_strlit("pending");
    reveal_strlit("verified");
    reveal_strlit("funded");
    reveal_strlit("paid");
    reveal_strlit("defaulted");
    reveal_strlit("cancelled");
    reveal_strlit("refunded");
    reveal_strlit("active");
    reveal_strlit("withdrawn");
    reveal_strlit("completed");
    reveal_strlit("invst_dft");
    reveal_strlit("invst_rfd");
    lemma_status_names_short(s);
    lemma_investment_status_names_short(t);
    let a = crate::storage::investment_status_name(t);
    let b = invoice_status_name(s);
    assert(name_codes(a) != name_codes(b)) by {
        assert(name_codes(a)[0] != name_codes(b)[0] || name_codes(a)[1] != name_codes(b)[1]);
    }
    lemma_distinct_short_names(a, b);
}

proof fn lemma_category_names_short(c: InvoiceCategory)
    ensures
        is_short_name(crate::storage::category_name(c)),
{
    reveal_strlit("services");
    reveal_strlit("goods");
    reveal_strlit("consult");
    reveal_strlit("logist");
    reveal_strlit("products");
    reveal_strlit("manufac");
    reveal_strlit("tech");
    reveal_strlit("health");
    reveal_strlit("other");
}

/// Distinct categories have distinct buckets.
pub proof fn law_category_key_injective(c1: InvoiceCategory, c2: InvoiceCategory)
    ensures
        category_key(c1) == category_key(c2) ==> c1 == c2,
{
    if c1 != c2 {
        reveal_strlit("services");
        reveal_strlit("goods");
        reveal_strlit("consult");
        reveal_strlit("logist");
        reveal_strlit("products");
        reveal_strlit("manufac");
        reveal_strlit("tech");
        reveal_strlit("health");
        reveal_strlit("other");
        lemma_category_names_short(c1);
        lemma_category_names_short(c2);
        let a = crate::storage::category_name(c1);
        let b = crate::storage::category_name(c2);
        assert(name_codes(a) != name_codes(b)) by {
            assert(name_codes(a)[0] != name_codes(b)[0]);
        }
        lemma_distinct_short_names(a, b);
    }
}

/// The tag query returns an ID exactly when at least one tag is asked for
/// and the list of every asked tag holds the ID; so which IDs it returns
/// does not depend on the order of the tags.
pub proof fn law_tag_query_needs_every_tag(m: LedgerModel, tags: Seq<String>, x: BytesN32)
    ensures
        crate::storage::ids_with_all_tags(m, tags).contains(x) <==> (tags.len() > 0
            && forall|i: int| 0 <= i < tags.len() ==> #[trigger] list_of(m.lists, tag_key(tags[i]@)).contains(x)),
{
    if tags.len() > 0 {
        let l = list_of(m.lists, tag_key(tags[0]@));
        let p = crate::storage::in_later_tag_lists(m, tags);
        let f = l.filter(p);
        if f.contains(x) {
            let i = choose|i: int| 0 <= i < f.len() && f[i] == x;
            l.lemma_filter_pred(p, i);
            l.lemma_filter_contains_rev(p, x);
            assert forall|k: int| 0 <= k < tags.len() implies #[trigger] list_of(m.lists, tag_key(tags[k]@)).contains(x) by {
                if k > 0 {
                    assert(p(x));
                }
            }
        }
        if forall|i: int| 0 <= i < tags.len() ==> #[trigger] list_of(m.lists, tag_key(tags[i]@)).contains(x) {
            assert(list_of(m.lists, tag_key(tags[0]@)).contains(x));
            let j = choose|j: int| 0 <= j < l.len() && l[j] == x;
            assert(p(x));
            l.lemma_filter_contains(p, j);
        }
    }
}

/// With a `limit` of at least 1, a page scans nothing exactly when its
/// offset has reached the number of IDs: a call that scans nothing marks
/// the end of a paginated rebuild or prune.
pub proof fn law_page_scans_nothing_only_at_end(offset: u32, limit: u32, total: nat)
    requires
        limit >= 1,
    ensures
        (crate::storage::page_end(offset, limit, total as int) - crate::storage::page_start(offset, total as int) == 0)
            <==> offset >= total,
{
}

/// No category bucket is a status bucket.
pub proof fn lemma_category_key_not_status(c: InvoiceCategory)
    ensures
        not_status_key(category_key(c)),
{
    reveal_strlit("inv_st");
    reveal_strlit("inv_cat");
    let a = "inv_st"@;
    let b = "inv_cat"@;
    assert(name_codes(a).len() != name_codes(b).len());
    lemma_distinct_short_names(a, b);
}

proof fn lemma_tags_keep_status_lists(l: Map<IndexKeyView, Seq<BytesN32>>, tags: Seq<String>, id: BytesN32)
    ensures
        same_status_lists(with_id_in_tags(l, tags, id), l),
        same_status_lists(without_id_in_tags(l, tags, id), l),
    decreases tags.len(),
{
    if tags.len() > 0 {
        lemma_tags_keep_status_lists(l, tags.drop_last(), id);
        let k = tag_key(tags.last()@);
        let a = with_id_in_tags(l, tags.drop_last(), id);
        let b = without_id_in_tags(l, tags.drop_last(), id);
        assert forall|s: InvoiceStatus| #[trigger] list_of(with_id_in_tags(l, tags, id), status_key(s)) == list_of(l, status_key(s)) by {
            assert(status_key(s) != k);
            assert(list_of(with_id(a, k, id), status_key(s)) == list_of(a, status_key(s)));
        }
        assert forall|s: InvoiceStatus| #[trigger] list_of(without_id_in_tags(l, tags, id), status_key(s)) == list_of(l, status_key(s)) by {
            assert(status_key(s) != k);
            assert(list_of(without_any(b, k, id), status_key(s)) == list_of(b, status_key(s)));
        }
    }
}

proof fn lemma_with_id_facts(l: Map<IndexKeyView, Seq<BytesN32>>, k: IndexKeyView, id: BytesN32)
    ensures
        list_of(with_id(l, k, id), k).contains(id),
        forall|x: BytesN32| #[trigger] list_of(with_id(l, k, id), k).contains(x) <==> (x == id || list_of(l, k).contains(x)),
        list_of(l, k).no_duplicates() ==> list_of(with_id(l, k, id), k).no_duplicates(),
        forall|k2: IndexKeyView| k2 != k ==> #[trigger] list_of(with_id(l, k, id), k2) == list_of(l, k2),
{
    let old_l = list_of(l, k);
    if !old_l.contains(id) {
        let new_l = old_l.push(id);
        assert(new_l[old_l.len() as int] == id);
        assert forall|x: BytesN32| #[trigger] new_l.contains(x) <==> (x == id || old_l.contains(x)) by {
            if old_l.contains(x) {
                let i = choose|i: int| 0 <= i < old_l.len() && old_l[i] == x;
                assert(new_l[i] == x);
            }
            if new_l.contains(x) && x != id {
                let i = choose|i: int| 0 <= i < new_l.len() && new_l[i] == x;
                assert(i < old_l.len());
                assert(old_l[i] == x);
            }
        }
    }
}

proof fn lemma_store_status_lists(m: LedgerModel, inv: InvoiceView)
    ensures
        same_status_lists(store_lists(m.lists, inv), with_id(m.lists, status_key(inv.status), inv.id)),
{
    let id = inv.id;
    let l0 = m.lists;
    let l1 = with_id(l0, crate::storage::business_key(inv.business), id);
    let l2 = with_id(l1, status_key(inv.status), id);
    let l3 = match inv.metadata_customer_name {
        Some(n) => with_id(l2, crate::storage::customer_key(n@), id),
        None => l2,
    };
    let l4 = match inv.metadata_tax_id {
        Some(t) => with_id(l3, crate::storage::tax_id_key(t@), id),
        None => l3,
    };
    let l5 = with_id(l4, category_key(inv.category), id);
    lemma_tags_keep_status_lists(l5, inv.tags, id);
    lemma_category_key_not_status(inv.category);
    lemma_with_id_facts(l0, crate::storage::business_key(inv.business), id);
    lemma_with_id_facts(l1, status_key(inv.status), id);
    lemma_with_id_facts(l0, status_key(inv.status), id);
    lemma_with_id_facts(l4, category_key(inv.category), id);
    match inv.metadata_customer_name {
        Some(n) => lemma_with_id_facts(l2, crate::storage::customer_key(n@), id),
        None => {},
    }
    match inv.metadata_tax_id {
        Some(t) => lemma_with_id_facts(l3, crate::storage::tax_id_key(t@), id),
        None => {},
    }
    assert forall|s: InvoiceStatus| #[trigger] list_of(store_lists(m.lists, inv), status_key(s))
        == list_of(with_id(m.lists, status_key(inv.status), inv.id), status_key(s)) by {
        assert(status_key(s) != crate::storage::business_key(inv.business));
        assert(status_key(s) != category_key(inv.category));
        assert(list_of(l5, status_key(s)) == list_of(l4, status_key(s)));
        assert(list_of(l4, status_key(s)) == list_of(l3, status_key(s)));
        assert(list_of(l3, status_key(s)) == list_of(l2, status_key(s)));
        assert(list_of(l1, status_key(s)) == list_of(l0, status_key(s)));
        if s != inv.status {
            lemma_status_key_injective(s, inv.status);
        }
    }
}

/// Storing an invoice under a fresh ID keeps the records and the status
/// buckets in agreement.
pub proof fn law_store_keeps_status_coherence(m: LedgerModel, inv: InvoiceView)
    requires
        status_coherent(m),
        !m.invoices.contains_key(inv.id),
    ensures
        status_coherent(stored(m, inv)),
{
    let id = inv.id;
    let n = stored(m, inv);
    let w = with_id(m.lists, status_key(inv.status), id);
    lemma_store_status_lists(m, inv);
    lemma_with_id_facts(m.lists, status_key(inv.status), id);
    assert forall|s: InvoiceStatus, x: BytesN32| #[trigger] list_of(n.lists, status_key(s)).contains(x)
        implies crate::storage::sound_in_bucket(n, s, x) by {
        assert(list_of(n.lists, status_key(s)) == list_of(w, status_key(s)));
        lemma_status_key_injective(s, inv.status);
        if s != inv.status || x != id {
            assert(list_of(m.lists, status_key(s)).contains(x));
            assert(x != id);
        }
    }
    assert forall|x: BytesN32| #[trigger] n.invoices.contains_key(x)
        implies list_of(n.lists, status_key(n.invoices[x].status)).contains(x) by {
        let s = n.invoices[x].status;
        assert(list_of(n.lists, status_key(s)) == list_of(w, status_key(s)));
        lemma_status_key_injective(s, inv.status);
        if x != id {
            assert(list_of(m.lists, status_key(s)).contains(x));
        }
    }
    assert forall|s: InvoiceStatus| #[trigger] list_of(n.lists, status_key(s)).no_duplicates() by {
        assert(list_of(n.lists, status_key(s)) == list_of(w, status_key(s)));
        lemma_status_key_injective(s, inv.status);
        assert(list_of(m.lists, status_key(s)).no_duplicates());
    }
}

proof fn lemma_without_first_facts(l: Map<IndexKeyView, Seq<BytesN32>>, k: IndexKeyView, id: BytesN32)
    ensures
        list_of(l, k).no_duplicates() ==> !list_of(without_first(l, k, id), k).contains(id),
        forall|x: BytesN32| x != id ==> (#[trigger] list_of(without_first(l, k, id), k).contains(x) <==> list_of(l, k).contains(x)),
        list_of(l, k).no_duplicates() ==> list_of(without_first(l, k, id), k).no_duplicates(),
        forall|k2: IndexKeyView| k2 != k ==> #[trigger] list_of(without_first(l, k, id), k2) == list_of(l, k2),
{
    let old_l = list_of(l, k);
    old_l.index_of_first_ensures(id);
    match old_l.index_of_first(id) {
        Some(i) => {
            let new_l = old_l.remove(i);
            assert(list_of(without_first(l, k, id), k) == new_l);
            assert forall|x: BytesN32| x != id implies (#[trigger] new_l.contains(x) <==> old_l.contains(x)) by {
                if old_l.contains(x) {
                    let j = choose|j: int| 0 <= j < old_l.len() && old_l[j] == x;
                    assert(j != i);
                    if j < i {
                        assert(new_l[j] == x);
                    } else {
                        assert(new_l[j - 1] == x);
                    }
                }
                if new_l.contains(x) {
                    let j = choose|j: int| 0 <= j < new_l.len() && new_l[j] == x;
                    if j < i {
                        assert(old_l[j] == x);
                    } else {
                        assert(old_l[j + 1] == x);
                    }
                }
            }
            if old_l.no_duplicates() {
                if new_l.contains(id) {
                    let j = choose|j: int| 0 <= j < new_l.len() && new_l[j] == id;
                    if j < i {
                        assert(old_l[j] == id);
                    } else {
                        assert(old_l[j + 1] == id);
                    }
                }
                assert forall|a: int, b: int| 0 <= a < new_l.len() && 0 <= b < new_l.len() && a != b
                    implies new_l[a] != new_l[b] by {
                    let a2 = if a < i { a } else { a + 1 };
                    let b2 = if b < i { b } else { b + 1 };
                    assert(new_l[a] == old_l[a2] && new_l[b] == old_l[b2]);
                }
            }
        },
        None => {},
    }
}

proof fn lemma_delete_status_lists(l: Map<IndexKeyView, Seq<BytesN32>>, old: InvoiceView, id: BytesN32)
    ensures
        same_status_lists(delete_lists(l, old, id), without_first(l, status_key(old.status), id)),
{
    let l1 = without_first(l, status_key(old.status), id);
    let l2 = without_first(l1, crate::storage::business_key(old.business), id);
    let l3 = match old.metadata_customer_name {
        Some(n) => without_any(l2, crate::storage::customer_key(n@), id),
        None => l2,
    };
    let l4 = match old.metadata_tax_id {
        Some(t) => without_any(l3, crate::storage::tax_id_key(t@), id),
        None => l3,
    };
    let l5 = without_any(l4, category_key(old.category), id);
    lemma_tags_keep_status_lists(l5, old.tags, id);
    lemma_category_key_not_status(old.category);
    lemma_without_first_facts(l1, crate::storage::business_key(old.business), id);
    assert forall|s: InvoiceStatus| #[trigger] list_of(delete_lists(l, old, id), status_key(s)) == list_of(l1, status_key(s)) by {
        assert(status_key(s) != crate::storage::business_key(old.business));
        assert(status_key(s) != category_key(old.category));
        assert(list_of(l5, status_key(s)) == list_of(l4, status_key(s)));
        assert(list_of(l4, status_key(s)) == list_of(l3, status_key(s)));
        assert(list_of(l3, status_key(s)) == list_of(l2, status_key(s)));
        assert(list_of(l2, status_key(s)) == list_of(l1, status_key(s)));
    }
}

/// Deleting an invoice keeps the records and the status buckets in agreement.
pub proof fn law_delete_keeps_status_coherence(m: LedgerModel, id: BytesN32)
    requires
        status_coherent(m),
    ensures
        status_coherent(deleted(m, id)),
{
    let n = deleted(m, id);
    if m.invoices.contains_key(id) {
        let old = m.invoices[id];
        let w = without_first(m.lists, status_key(old.status), id);
        lemma_delete_status_lists(m.lists, old, id);
        lemma_without_first_facts(m.lists, status_key(old.status), id);
        assert forall|s: InvoiceStatus, x: BytesN32| #[trigger] list_of(n.lists, status_key(s)).contains(x)
            implies crate::storage::sound_in_bucket(n, s, x) by {
            assert(list_of(n.lists, status_key(s)) == list_of(w, status_key(s)));
            lemma_status_key_injective(s, old.status);
            assert(list_of(m.lists, status_key(s)).contains(x));
            if x == id {
                assert(s == old.status);
            }
        }
        assert forall|x: BytesN32| #[trigger] n.invoices.contains_key(x)
            implies list_of(n.lists, status_key(n.invoices[x].status)).contains(x) by {
            let s = n.invoices[x].status;
            assert(list_of(n.lists, status_key(s)) == list_of(w, status_key(s)));
            lemma_status_key_injective(s, old.status);
            assert(list_of(m.lists, status_key(s)).contains(x));
        }
        assert forall|s: InvoiceStatus| #[trigger] list_of(n.lists, status_key(s)).no_duplicates() by {
            assert(list_of(n.lists, status_key(s)) == list_of(w, status_key(s)));
            lemma_status_key_injective(s, old.status);
            assert(list_of(m.lists, status_key(s)).no_duplicates());
        }
    } else {
        assert forall|s: InvoiceStatus, x: BytesN32| #[trigger] list_of(n.lists, status_key(s)).contains(x)
            implies crate::storage::sound_in_bucket(n, s, x) by {
            assert(list_of(m.lists, status_key(s)).contains(x));
        }
        assert forall|x: BytesN32| #[trigger] n.invoices.contains_key(x)
            implies list_of(n.lists, status_key(n.invoices[x].status)).contains(x) by {
            assert(m.invoices.contains_key(x));
        }
    }
}

proof fn lemma_update_status_lists(l: Map<IndexKeyView, Seq<BytesN32>>, old: InvoiceView, new: InvoiceView)
    ensures
        same_status_lists(update_lists(l, old, new), if old.status != new.status {
            with_id(without_first(l, status_key(old.status), new.id), status_key(new.status), new.id)
        } else {
            l
        }),
{
    let id = new.id;
    let l1 = if old.status != new.status {
        with_id(without_first(l, status_key(old.status), id), status_key(new.status), id)
    } else {
        l
    };
    let l2 = if crate::types::opt_string_view(old.metadata_customer_name) != crate::types::opt_string_view(new.metadata_customer_name) {
        let a = match old.metadata_customer_name {
            Some(n) => without_any(l1, crate::storage::customer_key(n@), id),
            None => l1,
        };
        match new.metadata_customer_name {
            Some(n) => with_id(a, crate::storage::customer_key(n@), id),
            None => a,
        }
    } else {
        l1
    };
    let l3 = if crate::types::opt_string_view(old.metadata_tax_id) != crate::types::opt_string_view(new.metadata_tax_id) {
        let a = match old.metadata_tax_id {
            Some(t) => without_any(l2, crate::storage::tax_id_key(t@), id),
            None => l2,
        };
        match new.metadata_tax_id {
            Some(t) => with_id(a, crate::storage::tax_id_key(t@), id),
            None => a,
        }
    } else {
        l2
    };
    let l4 = if old.category != new.category {
        with_id(without_any(l3, category_key(old.category), id), category_key(new.category), id)
    } else {
        l3
    };
    let t0 = without_id_in_tags(l4, old.tags, id);
    lemma_tags_keep_status_lists(l4, old.tags, id);
    lemma_tags_keep_status_lists(t0, new.tags, id);
    lemma_category_key_not_status(old.category);
    lemma_category_key_not_status(new.category);
    assert forall|s: InvoiceStatus| #[trigger] list_of(update_lists(l, old, new), status_key(s)) == list_of(l1, status_key(s)) by {
        assert(status_key(s) != category_key(old.category));
        assert(status_key(s) != category_key(new.category));
        assert(list_of(l4, status_key(s)) == list_of(l3, status_key(s)));
        assert(list_of(l3, status_key(s)) == list_of(l2, status_key(s)));
        assert(list_of(l2, status_key(s)) == list_of(l1, status_key(s)));
    }
}

/// Updating an invoice keeps the records and the status buckets in
/// agreement: on a status change the invoice moves from the old bucket to
/// the new one, and an invoice with no record yet is indexed as a store
/// would index it.
pub proof fn law_update_keeps_status_coherence(m: LedgerModel, inv: InvoiceView)
    requires
        status_coherent(m),
    ensures
        status_coherent(updated(m, inv)),
{
    if m.invoices.contains_key(inv.id) {
        lemma_update_existing_keeps_status_coherence(m, inv);
    } else {
        assert(updated(m, inv) == stored(m, inv));
        law_store_keeps_status_coherence(m, inv);
    }
}

proof fn lemma_update_existing_keeps_status_coherence(m: LedgerModel, inv: InvoiceView)
    requires
        status_coherent(m),
        m.invoices.contains_key(inv.id),
    ensures
        status_coherent(updated(m, inv)),
{
    let id = inv.id;
    let old = m.invoices[id];
    let n = updated(m, inv);
    lemma_update_status_lists(m.lists, old, inv);
    if old.status != inv.status {
        let r = without_first(m.lists, status_key(old.status), id);
        let w = with_id(r, status_key(inv.status), id);
        lemma_without_first_facts(m.lists, status_key(old.status), id);
        lemma_with_id_facts(r, status_key(inv.status), id);
        lemma_status_key_injective(old.status, inv.status);
        assert forall|s: InvoiceStatus, x: BytesN32| #[trigger] list_of(n.lists, status_key(s)).contains(x)
            implies crate::storage::sound_in_bucket(n, s, x) by {
            assert(list_of(n.lists, status_key(s)) == list_of(w, status_key(s)));
            lemma_status_key_injective(s, old.status);
            lemma_status_key_injective(s, inv.status);
            if x != id {
                assert(list_of(m.lists, status_key(s)).contains(x));
            } else if s != inv.status {
                assert(list_of(m.lists, status_key(s)).contains(x));
            }
        }
        assert forall|x: BytesN32| #[trigger] n.invoices.contains_key(x)
            implies list_of(n.lists, status_key(n.invoices[x].status)).contains(x) by {
            let s = n.invoices[x].status;
            assert(list_of(n.lists, status_key(s)) == list_of(w, status_key(s)));
            lemma_status_key_injective(s, old.status);
            lemma_status_key_injective(s, inv.status);
            if x != id {
                assert(list_of(m.lists, status_key(s)).contains(x));
            }
        }
        assert forall|s: InvoiceStatus| #[trigger] list_of(n.lists, status_key(s)).no_duplicates() by {
            assert(list_of(n.lists, status_key(s)) == list_of(w, status_key(s)));
            lemma_status_key_injective(s, old.status);
            lemma_status_key_injective(s, inv.status);
            assert(list_of(m.lists, status_key(s)).no_duplicates());
        }
    } else {
        assert forall|s: InvoiceStatus, x: BytesN32| #[trigger] list_of(n.lists, status_key(s)).contains(x)
            implies crate::storage::sound_in_bucket(n, s, x) by {
            assert(list_of(m.lists, status_key(s)).contains(x));
        }
        assert forall|x: BytesN32| #[trigger] n.invoices.contains_key(x)
            implies list_of(n.lists, status_key(n.invoices[x].status)).contains(x) by {
            assert(m.invoices.contains_key(x));
        }
        assert forall|s: InvoiceStatus| #[trigger] list_of(n.lists, status_key(s)).no_duplicates() by {
            assert(list_of(m.lists, status_key(s)).no_duplicates());
        }
    }
}

proof fn lemma_pruned_ids(m: LedgerModel, ids: Seq<BytesN32>, older_than_secs: u64, now: u64)
    ensures
        forall|x: BytesN32| #[trigger] pruned_ids(m, ids, older_than_secs, now).invoices.contains_key(x)
            ==> m.invoices.contains_key(x) && pruned_ids(m, ids, older_than_secs, now).invoices[x] == m.invoices[x],
        forall|x: BytesN32| m.invoices.contains_key(x) && !(#[trigger] pruned_ids(m, ids, older_than_secs, now).invoices.contains_key(x))
            ==> ids.contains(x) && prune_eligible(m.invoices[x], older_than_secs, now),
        status_coherent(m) ==> status_coherent(pruned_ids(m, ids, older_than_secs, now)),
    decreases ids.len(),
{
    if ids.len() > 0 {
        let t = ids.drop_last();
        let p = pruned_ids(m, t, older_than_secs, now);
        let id = ids.last();
        lemma_pruned_ids(m, t, older_than_secs, now);
        let r = pruned_ids(m, ids, older_than_secs, now);
        assert forall|x: BytesN32| m.invoices.contains_key(x) && !(#[trigger] r.invoices.contains_key(x))
            implies ids.contains(x) && prune_eligible(m.invoices[x], older_than_secs, now) by {
            if p.invoices.contains_key(x) {
                assert(x == id);
                assert(ids[ids.len() - 1] == x);
            } else {
                let k = choose|k: int| 0 <= k < t.len() && t[k] == x;
                assert(ids[k] == x);
            }
        }
        if status_coherent(m) && p.invoices.contains_key(id) && prune_eligible(p.invoices[id], older_than_secs, now) {
            law_delete_keeps_status_coherence(p, id);
        }
    }
}

/// Pruning never removes an invoice whose status is open (pending,
/// verified or funded), and leaves every invoice it keeps unchanged.
pub proof fn law_prune_keeps_open_invoices(m: LedgerModel, older_than_secs: u64, offset: u32, limit: u32, id: BytesN32)
    requires
        m.invoices.contains_key(id),
        !m.invoices[id].status.spec_is_terminal(),
    ensures
        pruned(m, older_than_secs, offset, limit).invoices.contains_key(id),
        pruned(m, older_than_secs, offset, limit).invoices[id] == m.invoices[id],
{
    lemma_pruned_ids(m, page_ids(m, offset, limit), older_than_secs, m.timestamp);
    if !pruned(m, older_than_secs, offset, limit).invoices.contains_key(id) {
        assert(prune_eligible(m.invoices[id], older_than_secs, m.timestamp));
    }
}

/// Every invoice that pruning removes lies on the page, is in a terminal
/// status, and its terminal timestamp plus `older_than_secs` lies before
/// the ledger's time.
pub proof fn law_prune_removes_only_eligible(m: LedgerModel, older_than_secs: u64, offset: u32, limit: u32, id: BytesN32)
    requires
        m.invoices.contains_key(id),
        !pruned(m, older_than_secs, offset, limit).invoices.contains_key(id),
    ensures
        page_ids(m, offset, limit).contains(id),
        prune_eligible(m.invoices[id], older_than_secs, m.timestamp),
{
    lemma_pruned_ids(m, page_ids(m, offset, limit), older_than_secs, m.timestamp);
}

/// Pruning keeps the records and the status buckets in agreement.
pub proof fn law_prune_keeps_status_coherence(m: LedgerModel, older_than_secs: u64, offset: u32, limit: u32)
    requires
        status_coherent(m),
    ensures
        status_coherent(pruned(m, older_than_secs, offset, limit)),
{
    lemma_pruned_ids(m, page_ids(m, offset, limit), older_than_secs, m.timestamp);
}

/// Every list of `a` is contained, element by element, in the same list of `b`.
pub open spec fn grows(a: Map<IndexKeyView, Seq<BytesN32>>, b: Map<IndexKeyView, Seq<BytesN32>>) -> bool {
    forall|k: IndexKeyView, x: BytesN32| #![trigger list_of(a, k).contains(x)] list_of(a, k).contains(x) ==> list_of(b, k).contains(x)
}

/// The lists of `tags` all hold `id`.
pub open spec fn tags_cover(l: Map<IndexKeyView, Seq<BytesN32>>, tags: Seq<String>, id: BytesN32) -> bool {
    forall|i: int| 0 <= i < tags.len() ==> #[trigger] list_of(l, tag_key(tags[i]@)).contains(id)
}

/// The customer, tax identifier, tag and category lists of `inv` all hold its ID.
pub open spec fn reindex_covered(l: Map<IndexKeyView, Seq<BytesN32>>, inv: InvoiceView) -> bool {
    &&& (inv.metadata_customer_name matches Some(n) ==> list_of(l, crate::storage::customer_key(n@)).contains(inv.id))
    &&& (inv.metadata_tax_id matches Some(t) ==> list_of(l, crate::storage::tax_id_key(t@)).contains(inv.id))
    &&& tags_cover(l, inv.tags, inv.id)
    &&& list_of(l, category_key(inv.category)).contains(inv.id)
}

/// Every record of `ids` that exists is covered in `l`.
pub open spec fn page_covered(l: Map<IndexKeyView, Seq<BytesN32>>, invoices: Map<BytesN32, InvoiceView>, ids: Seq<BytesN32>) -> bool {
    forall|j: int| 0 <= j < ids.len() && invoices.contains_key(#[trigger] ids[j]) ==> reindex_covered(l, invoices[ids[j]])
}

proof fn lemma_with_id_grows(l: Map<IndexKeyView, Seq<BytesN32>>, k: IndexKeyView, id: BytesN32)
    ensures
        grows(l, with_id(l, k, id)),
        list_of(with_id(l, k, id), k).contains(id),
        list_of(l, k).contains(id) ==> with_id(l, k, id) == l,
{
    lemma_with_id_facts(l, k, id);
    assert forall|k2: IndexKeyView, x: BytesN32| #[trigger] list_of(l, k2).contains(x)
        implies #[trigger] list_of(with_id(l, k, id), k2).contains(x) by {
        if k2 != k {
        }
    }
}

proof fn lemma_grows_trans(a: Map<IndexKeyView, Seq<BytesN32>>, b: Map<IndexKeyView, Seq<BytesN32>>, c: Map<IndexKeyView, Seq<BytesN32>>)
    requires
        grows(a, b),
        grows(b, c),
    ensures
        grows(a, c),
{
}

proof fn lemma_tags_grow(l: Map<IndexKeyView, Seq<BytesN32>>, tags: Seq<String>, id: BytesN32)
    ensures
        grows(l, with_id_in_tags(l, tags, id)),
        tags_cover(with_id_in_tags(l, tags, id), tags, id),
        tags_cover(l, tags, id) ==> with_id_in_tags(l, tags, id) == l,
    decreases tags.len(),
{
    if tags.len() > 0 {
        let t = tags.drop_last();
        let k = tag_key(tags.last()@);
        let a = with_id_in_tags(l, t, id);
        lemma_tags_grow(l, t, id);
        lemma_with_id_grows(a, k, id);
        lemma_grows_trans(l, a, with_id(a, k, id));
        let r = with_id_in_tags(l, tags, id);
        assert forall|i: int| 0 <= i < tags.len() implies #[trigger] list_of(r, tag_key(tags[i]@)).contains(id) by {
            if i < tags.len() - 1 {
                assert(tags[i] == t[i]);
                assert(list_of(a, tag_key(t[i]@)).contains(id));
            }
        }
        if tags_cover(l, tags, id) {
            assert(tags_cover(l, t, id)) by {
                assert forall|i: int| 0 <= i < t.len() implies #[trigger] list_of(l, tag_key(t[i]@)).contains(id) by {
                    assert(t[i] == tags[i]);
                }
            }
            assert(list_of(l, tag_key(tags[tags.len() - 1]@)).contains(id));
        }
    }
}

proof fn lemma_reindex_grows(l: Map<IndexKeyView, Seq<BytesN32>>, inv: InvoiceView)
    ensures
        grows(l, crate::storage::reindex_lists(l, inv)),
        reindex_covered(crate::storage::reindex_lists(l, inv), inv),
        reindex_covered(l, inv) ==> crate::storage::reindex_lists(l, inv) == l,
{
    let id = inv.id;
    let l1 = match inv.metadata_customer_name {
        Some(n) => with_id(l, crate::storage::customer_key(n@), id),
        None => l,
    };
    let l2 = match inv.metadata_tax_id {
        Some(t) => with_id(l1, crate::storage::tax_id_key(t@), id),
        None => l1,
    };
    let l3 = with_id_in_tags(l2, inv.tags, id);
    let l4 = with_id(l3, category_key(inv.category), id);
    match inv.metadata_customer_name {
        Some(n) => lemma_with_id_grows(l, crate::storage::customer_key(n@), id),
        None => {},
    }
    match inv.metadata_tax_id {
        Some(t) => lemma_with_id_grows(l1, crate::storage::tax_id_key(t@), id),
        None => {},
    }
    lemma_tags_grow(l2, inv.tags, id);
    lemma_with_id_grows(l3, category_key(inv.category), id);
    lemma_grows_trans(l, l1, l2);
    lemma_grows_trans(l, l2, l3);
    lemma_grows_trans(l, l3, l4);
    lemma_grows_trans(l1, l2, l3);
    lemma_grows_trans(l1, l3, l4);
    lemma_grows_trans(l2, l3, l4);
    assert(tags_cover(l4, inv.tags, id)) by {
        assert forall|i: int| 0 <= i < inv.tags.len() implies #[trigger] list_of(l4, tag_key(inv.tags[i]@)).contains(id) by {
            assert(list_of(l3, tag_key(inv.tags[i]@)).contains(id));
        }
    }
    match inv.metadata_customer_name {
        Some(n) => {
            assert(list_of(l1, crate::storage::customer_key(n@)).contains(id));
        },
        None => {},
    }
    match inv.metadata_tax_id {
        Some(t) => {
            assert(list_of(l2, crate::storage::tax_id_key(t@)).contains(id));
        },
        None => {},
    }
    if reindex_covered(l, inv) {
        assert(l1 == l);
        assert(l2 == l);
        assert(l3 == l);
    }
}

proof fn lemma_covered_grows(a: Map<IndexKeyView, Seq<BytesN32>>, b: Map<IndexKeyView, Seq<BytesN32>>, inv: InvoiceView)
    requires
        grows(a, b),
        reindex_covered(a, inv),
    ensures
        reindex_covered(b, inv),
{
    assert forall|i: int| 0 <= i < inv.tags.len() implies #[trigger] list_of(b, tag_key(inv.tags[i]@)).contains(inv.id) by {
        assert(list_of(a, tag_key(inv.tags[i]@)).contains(inv.id));
    }
    match inv.metadata_customer_name {
        Some(n) => {
            assert(list_of(a, crate::storage::customer_key(n@)).contains(inv.id));
        },
        None => {},
    }
    match inv.metadata_tax_id {
        Some(t) => {
            assert(list_of(a, crate::storage::tax_id_key(t@)).contains(inv.id));
        },
        None => {},
    }
}

proof fn lemma_reindexed_covers(l: Map<IndexKeyView, Seq<BytesN32>>, invoices: Map<BytesN32, InvoiceView>, ids: Seq<BytesN32>)
    ensures
        grows(l, crate::storage::reindexed_lists(l, invoices, ids)),
        page_covered(crate::storage::reindexed_lists(l, invoices, ids), invoices, ids),
        page_covered(l, invoices, ids) ==> crate::storage::reindexed_lists(l, invoices, ids) == l,
    decreases ids.len(),
{
    if ids.len() > 0 {
        let t = ids.drop_last();
        let a = crate::storage::reindexed_lists(l, invoices, t);
        let r = crate::storage::reindexed_lists(l, invoices, ids);
        lemma_reindexed_covers(l, invoices, t);
        let last = ids.last();
        if invoices.contains_key(last) {
            lemma_reindex_grows(a, invoices[last]);
            lemma_grows_trans(l, a, r);
        }
        assert forall|j: int| 0 <= j < ids.len() && invoices.contains_key(#[trigger] ids[j])
            implies reindex_covered(r, invoices[ids[j]]) by {
            if j < ids.len() - 1 {
                assert(ids[j] == t[j]);
                assert(reindex_covered(a, invoices[t[j]]));
                if invoices.contains_key(last) {
                    lemma_covered_grows(a, r, invoices[t[j]]);
                }
            }
        }
        if page_covered(l, invoices, ids) {
            assert(page_covered(l, invoices, t)) by {
                assert forall|j: int| 0 <= j < t.len() && invoices.contains_key(#[trigger] t[j])
                    implies reindex_covered(l, invoices[t[j]]) by {
                    assert(t[j] == ids[j]);
                }
            }
            if invoices.contains_key(last) {
                assert(ids[ids.len() - 1] == last);
                assert(reindex_covered(l, invoices[last]));
            }
        }
    }
}

proof fn lemma_reindexed_keeps_status_lists(l: Map<IndexKeyView, Seq<BytesN32>>, invoices: Map<BytesN32, InvoiceView>, ids: Seq<BytesN32>)
    ensures
        same_status_lists(crate::storage::reindexed_lists(l, invoices, ids), l),
    decreases ids.len(),
{
    if ids.len() > 0 {
        let a = crate::storage::reindexed_lists(l, invoices, ids.drop_last());
        lemma_reindexed_keeps_status_lists(l, invoices, ids.drop_last());
        if invoices.contains_key(ids.last()) {
            let inv = invoices[ids.last()];
            let id = inv.id;
            let l1 = match inv.metadata_customer_name {
                Some(n) => with_id(a, crate::storage::customer_key(n@), id),
                None => a,
            };
            let l2 = match inv.metadata_tax_id {
                Some(t) => with_id(l1, crate::storage::tax_id_key(t@), id),
                None => l1,
            };
            let l3 = with_id_in_tags(l2, inv.tags, id);
            lemma_tags_keep_status_lists(l2, inv.tags, id);
            lemma_category_key_not_status(inv.category);
            assert forall|s: InvoiceStatus| #[trigger] list_of(crate::storage::reindex_lists(a, inv), status_key(s))
                == list_of(a, status_key(s)) by {
                assert(status_key(s) != category_key(inv.category));
                assert(crate::storage::reindex_lists(a, inv) == with_id(l3, category_key(inv.category), id));
                assert(list_of(with_id(l3, category_key(inv.category), id), status_key(s)) == list_of(l3, status_key(s)));
                assert(list_of(l3, status_key(s)) == list_of(l2, status_key(s)));
                assert(list_of(l2, status_key(s)) == list_of(l1, status_key(s)));
                assert(list_of(l1, status_key(s)) == list_of(a, status_key(s)));
            }
        }
    }
}

proof fn lemma_ids_of_statuses_same(a: Map<IndexKeyView, Seq<BytesN32>>, b: Map<IndexKeyView, Seq<BytesN32>>, st: Seq<InvoiceStatus>)
    requires
        same_status_lists(a, b),
    ensures
        crate::storage::ids_of_statuses(a, st) == crate::storage::ids_of_statuses(b, st),
    decreases st.len(),
{
    if st.len() > 0 {
        lemma_ids_of_statuses_same(a, b, st.drop_last());
        assert(list_of(a, status_key(st.last())) == list_of(b, status_key(st.last())));
    }
}

/// Rebuilding the indexes of a page twice leaves the ledger as rebuilding
/// it once.
pub proof fn law_rebuild_is_idempotent(m: LedgerModel, offset: u32, limit: u32)
    ensures
        crate::storage::rebuilt(crate::storage::rebuilt(m, offset, limit), offset, limit)
            == crate::storage::rebuilt(m, offset, limit),
{
    let m1 = crate::storage::rebuilt(m, offset, limit);
    let page = page_ids(m, offset, limit);
    lemma_reindexed_keeps_status_lists(m.lists, m.invoices, page);
    lemma_ids_of_statuses_same(m1.lists, m.lists, crate::storage::all_statuses());
    assert(page_ids(m1, offset, limit) == page);
    lemma_reindexed_covers(m.lists, m.invoices, page);
    lemma_reindexed_covers(m1.lists, m.invoices, page);
}

/// Rebuilding the indexes of a page changes no record and no status bucket,
/// so it keeps the records and the status buckets in agreement.
pub proof fn law_rebuild_keeps_status_coherence(m: LedgerModel, offset: u32, limit: u32)
    requires
        status_coherent(m),
    ensures
        crate::storage::rebuilt(m, offset, limit).invoices == m.invoices,
        same_status_lists(crate::storage::rebuilt(m, offset, limit).lists, m.lists),
        status_coherent(crate::storage::rebuilt(m, offset, limit)),
{
    let n = crate::storage::rebuilt(m, offset, limit);
    lemma_reindexed_keeps_status_lists(m.lists, m.invoices, page_ids(m, offset, limit));
    assert forall|s: InvoiceStatus, x: BytesN32| #[trigger] list_of(n.lists, status_key(s)).contains(x)
        implies crate::storage::sound_in_bucket(n, s, x) by {
        assert(list_of(n.lists, status_key(s)) == list_of(m.lists, status_key(s)));
    }
    assert forall|x: BytesN32| #[trigger] n.invoices.contains_key(x)
        implies list_of(n.lists, status_key(n.invoices[x].status)).contains(x) by {
        assert(list_of(n.lists, status_key(n.invoices[x].status)) == list_of(m.lists, status_key(m.invoices[x].status)));
    }
    assert forall|s: InvoiceStatus| #[trigger] list_of(n.lists, status_key(s)).no_duplicates() by {
        assert(list_of(n.lists, status_key(s)) == list_of(m.lists, status_key(s)));
    }
}

proof fn lemma_covered_tags_report_nothing(m: LedgerModel, id: BytesN32, tags: Seq<String>)
    requires
        tags_cover(m.lists, tags, id),
    ensures
        crate::storage::tag_messages(m, id, tags) == Seq::<Seq<char>>::empty(),
    decreases tags.len(),
{
    if tags.len() > 0 {
        let t = tags.drop_last();
        assert(tags_cover(m.lists, t, id)) by {
            assert forall|i: int| 0 <= i < t.len() implies #[trigger] list_of(m.lists, tag_key(t[i]@)).contains(id) by {
                assert(t[i] == tags[i]);
            }
        }
        lemma_covered_tags_report_nothing(m, id, t);
        assert(list_of(m.lists, tag_key(tags[tags.len() - 1]@)).contains(id));
        assert(crate::storage::tag_messages(m, id, tags) =~= Seq::<Seq<char>>::empty());
    }
}

/// After a page is rebuilt, the invoice audit reports nothing about the
/// customer name, tax identifier, tag and category indexes of a record on
/// that page that is stored under its own ID: at most that the business
/// index, which rebuilding does not touch, misses it.
pub proof fn law_rebuild_repairs_page_reports(m: LedgerModel, offset: u32, limit: u32, x: BytesN32)
    requires
        page_ids(m, offset, limit).contains(x),
        m.invoices.contains_key(x),
        m.invoices[x].id == x,
    ensures
        crate::storage::record_messages(crate::storage::rebuilt(m, offset, limit), x)
            == crate::storage::missing_message(
                list_of(crate::storage::rebuilt(m, offset, limit).lists, crate::storage::business_key(m.invoices[x].business)).contains(x),
                "Invoice missing from business index"@),
{
    let n = crate::storage::rebuilt(m, offset, limit);
    let page = page_ids(m, offset, limit);
    let inv = m.invoices[x];
    lemma_reindexed_covers(m.lists, m.invoices, page);
    lemma_reindexed_keeps_status_lists(m.lists, m.invoices, page);
    lemma_ids_of_statuses_same(n.lists, m.lists, crate::storage::all_statuses());
    let j = choose|j: int| 0 <= j < page.len() && page[j] == x;
    assert(reindex_covered(n.lists, m.invoices[page[j]]));
    lemma_covered_tags_report_nothing(n, x, inv.tags);
    let all = crate::storage::all_invoice_ids(m);
    assert(crate::storage::all_invoice_ids(n) == all);
    assert(list_of(n.lists, category_key(inv.category)).contains(x));
    let business = crate::storage::missing_message(
        list_of(n.lists, crate::storage::business_key(inv.business)).contains(x),
        "Invoice missing from business index"@);
    match inv.metadata_customer_name {
        Some(c) => {
            assert(list_of(n.lists, crate::storage::customer_key(c@)).contains(x));
        },
        None => {},
    }
    match inv.metadata_tax_id {
        Some(t) => {
            assert(list_of(n.lists, crate::storage::tax_id_key(t@)).contains(x));
        },
        None => {},
    }
    assert(crate::storage::link_messages(n, x, inv) =~= business);
    assert(crate::storage::record_messages(n, x) =~= business);
}

/// Rebuilding a page of a ledger whose invoice indexes pass the audit
/// leaves indexes that still pass it.
pub proof fn law_rebuild_keeps_invoice_audit_clean(m: LedgerModel, offset: u32, limit: u32)
    requires
        crate::storage::invoice_indexes_consistent(m),
    ensures
        crate::storage::invoice_indexes_consistent(crate::storage::rebuilt(m, offset, limit)),
{
    let n = crate::storage::rebuilt(m, offset, limit);
    let page = page_ids(m, offset, limit);
    lemma_reindexed_keeps_status_lists(m.lists, m.invoices, page);
    lemma_reindexed_covers(m.lists, m.invoices, page);
    lemma_ids_of_statuses_same(n.lists, m.lists, crate::storage::all_statuses());
    let all = crate::storage::all_invoice_ids(m);
    assert(crate::storage::all_invoice_ids(n) == all);
    assert forall|s: InvoiceStatus, x: BytesN32| #[trigger] list_of(n.lists, status_key(s)).contains(x)
        implies crate::storage::sound_in_bucket(n, s, x) by {
        assert(list_of(n.lists, status_key(s)) == list_of(m.lists, status_key(s)));
    }
    assert forall|k: int| 0 <= k < all.len() && n.invoices.contains_key(#[trigger] all[k])
        implies crate::storage::record_indexed(n, all[k]) by {
        let x = all[k];
        let r = n.invoices[x];
        assert(crate::storage::record_indexed(m, x));
        assert(list_of(m.lists, category_key(r.category)).contains(x));
        assert(list_of(m.lists, crate::storage::business_key(r.business)).contains(x));
        assert forall|i: int| 0 <= i < r.tags.len() implies #[trigger] list_of(n.lists, tag_key(r.tags[i]@)).contains(x) by {
            assert(list_of(m.lists, tag_key(r.tags[i]@)).contains(x));
        }
        match r.metadata_customer_name {
            Some(c) => {
                assert(list_of(m.lists, crate::storage::customer_key(c@)).contains(x));
            },
            None => {},
        }
        match r.metadata_tax_id {
            Some(t) => {
                assert(list_of(m.lists, crate::storage::tax_id_key(t@)).contains(x));
            },
            None => {},
        }
    }
}

/// Rebuilding resumes without gaps or overlaps: the rebuild keeps the list
/// of all invoice IDs, and the page that starts at the returned
/// `next_offset` starts where the rebuilt page ended.
pub proof fn law_rebuild_pages_chain(m: LedgerModel, offset: u32, limit: u32, next_limit: u32)
    requires
        crate::storage::all_invoice_ids(m).len() <= u32::MAX,
    ensures
        ({
            let n = crate::storage::rebuilt(m, offset, limit);
            let total = crate::storage::all_invoice_ids(m).len() as int;
            let next = crate::storage::page_end(offset, limit, total);
            &&& crate::storage::all_invoice_ids(n) == crate::storage::all_invoice_ids(m)
            &&& crate::storage::page_start(next as u32, total) == next
            &&& page_ids(m, offset, limit) + page_ids(n, next as u32, next_limit)
                == crate::storage::all_invoice_ids(m).subrange(
                    crate::storage::page_start(offset, total),
                    crate::storage::page_end(next as u32, next_limit, total))
        }),
{
    let n = crate::storage::rebuilt(m, offset, limit);
    let all = crate::storage::all_invoice_ids(m);
    let total = all.len() as int;
    let start = crate::storage::page_start(offset, total);
    let next = crate::storage::page_end(offset, limit, total);
    lemma_reindexed_keeps_status_lists(m.lists, m.invoices, page_ids(m, offset, limit));
    lemma_ids_of_statuses_same(n.lists, m.lists, crate::storage::all_statuses());
    assert(crate::storage::page_start(next as u32, total) == next);
    let end2 = crate::storage::page_end(next as u32, next_limit, total);
    assert(all.subrange(start, next) + all.subrange(next, end2) =~= all.subrange(start, end2));
}

/// After a page is rebuilt, every record on the page is listed under its
/// customer name, tax identifier, tags and category.
pub proof fn law_rebuild_covers_page(m: LedgerModel, offset: u32, limit: u32)
    ensures
        page_covered(crate::storage::rebuilt(m, offset, limit).lists, m.invoices, page_ids(m, offset, limit)),
{
    lemma_reindexed_covers(m.lists, m.invoices, page_ids(m, offset, limit));
}

proof fn lemma_ids_of_statuses_contains(l: Map<IndexKeyView, Seq<BytesN32>>, st: Seq<InvoiceStatus>, x: BytesN32)
    ensures
        crate::storage::ids_of_statuses(l, st).contains(x)
            <==> exists|t: int| 0 <= t < st.len() && #[trigger] list_of(l, status_key(st[t])).contains(x),
    decreases st.len(),
{
    if st.len() > 0 {
        let pre = st.drop_last();
        lemma_ids_of_statuses_contains(l, pre, x);
        crate::storage::lemma_append_new_contains(crate::storage::ids_of_statuses(l, pre), list_of(l, status_key(st.last())));
        if exists|t: int| 0 <= t < st.len() && #[trigger] list_of(l, status_key(st[t])).contains(x) {
            let t = choose|t: int| 0 <= t < st.len() && #[trigger] list_of(l, status_key(st[t])).contains(x);
            if t < st.len() - 1 {
                assert(pre[t] == st[t]);
            }
        }
        if crate::storage::ids_of_statuses(l, pre).contains(x) {
            let t = choose|t: int| 0 <= t < pre.len() && #[trigger] list_of(l, status_key(pre[t])).contains(x);
            assert(st[t] == pre[t]);
        }
        if list_of(l, status_key(st.last())).contains(x) {
            assert(list_of(l, status_key(st[st.len() - 1])).contains(x));
        }
    }
}

/// An ID is among all invoice IDs exactly when some status bucket lists it.
pub proof fn lemma_all_invoice_ids_contains(m: LedgerModel, x: BytesN32)
    ensures
        crate::storage::all_invoice_ids(m).contains(x)
            <==> exists|s: InvoiceStatus| #[trigger] list_of(m.lists, status_key(s)).contains(x),
{
    let st = crate::storage::all_statuses();
    lemma_ids_of_statuses_contains(m.lists, st, x);
    if exists|s: InvoiceStatus| #[trigger] list_of(m.lists, status_key(s)).contains(x) {
        let s = choose|s: InvoiceStatus| #[trigger] list_of(m.lists, status_key(s)).contains(x);
        let t: int = match s {
            InvoiceStatus::Pending => 0,
            InvoiceStatus::Verified => 1,
            InvoiceStatus::Funded => 2,
            InvoiceStatus::Paid => 3,
            InvoiceStatus::Defaulted => 4,
            InvoiceStatus::Cancelled => 5,
            InvoiceStatus::Refunded => 6,
        };
        assert(st[t] == s);
    }
}

proof fn lemma_store_grows(l: Map<IndexKeyView, Seq<BytesN32>>, inv: InvoiceView)
    ensures
        grows(l, store_lists(l, inv)),
        list_of(store_lists(l, inv), crate::storage::business_key(inv.business)).contains(inv.id),
        list_of(store_lists(l, inv), status_key(inv.status)).contains(inv.id),
        reindex_covered(store_lists(l, inv), inv),
{
    let id = inv.id;
    let l1 = with_id(l, crate::storage::business_key(inv.business), id);
    let l2 = with_id(l1, status_key(inv.status), id);
    let l3 = match inv.metadata_customer_name {
        Some(n) => with_id(l2, crate::storage::customer_key(n@), id),
        None => l2,
    };
    let l4 = match inv.metadata_tax_id {
        Some(t) => with_id(l3, crate::storage::tax_id_key(t@), id),
        None => l3,
    };
    let l5 = with_id(l4, category_key(inv.category), id);
    let l6 = with_id_in_tags(l5, inv.tags, id);
    lemma_with_id_grows(l, crate::storage::business_key(inv.business), id);
    lemma_with_id_grows(l1, status_key(inv.status), id);
    match inv.metadata_customer_name {
        Some(n) => lemma_with_id_grows(l2, crate::storage::customer_key(n@), id),
        None => {},
    }
    match inv.metadata_tax_id {
        Some(t) => lemma_with_id_grows(l3, crate::storage::tax_id_key(t@), id),
        None => {},
    }
    lemma_with_id_grows(l4, category_key(inv.category), id);
    lemma_tags_grow(l5, inv.tags, id);
    lemma_grows_trans(l, l1, l2);
    lemma_grows_trans(l, l2, l3);
    lemma_grows_trans(l, l3, l4);
    lemma_grows_trans(l, l4, l5);
    lemma_grows_trans(l, l5, l6);
    lemma_grows_trans(l1, l2, l3);
    lemma_grows_trans(l1, l3, l4);
    lemma_grows_trans(l1, l4, l5);
    lemma_grows_trans(l1, l5, l6);
    lemma_grows_trans(l2, l3, l4);
    lemma_grows_trans(l2, l4, l5);
    lemma_grows_trans(l2, l5, l6);
    lemma_grows_trans(l3, l4, l5);
    lemma_grows_trans(l3, l5, l6);
    lemma_grows_trans(l4, l5, l6);
    assert(list_of(l1, crate::storage::business_key(inv.business)).contains(id));
    assert(list_of(l2, status_key(inv.status)).contains(id));
    assert(list_of(l5, category_key(inv.category)).contains(id));
    match inv.metadata_customer_name {
        Some(n) => {
            assert(list_of(l3, crate::storage::customer_key(n@)).contains(id));
        },
        None => {},
    }
    match inv.metadata_tax_id {
        Some(t) => {
            assert(list_of(l4, crate::storage::tax_id_key(t@)).contains(id));
        },
        None => {},
    }
}

/// Storing an invoice under a fresh ID into a ledger whose invoice indexes
/// pass the audit leaves indexes that still pass it.
pub proof fn law_store_keeps_invoice_audit_clean(m: LedgerModel, inv: InvoiceView)
    requires
        crate::storage::invoice_indexes_consistent(m),
        !m.invoices.contains_key(inv.id),
    ensures
        crate::storage::invoice_indexes_consistent(stored(m, inv)),
{
    let id = inv.id;
    let n = stored(m, inv);
    let w = with_id(m.lists, status_key(inv.status), id);
    lemma_store_status_lists(m, inv);
    lemma_with_id_facts(m.lists, status_key(inv.status), id);
    lemma_store_grows(m.lists, inv);
    assert forall|s: InvoiceStatus, x: BytesN32| #[trigger] list_of(n.lists, status_key(s)).contains(x)
        implies crate::storage::sound_in_bucket(n, s, x) by {
        assert(list_of(n.lists, status_key(s)) == list_of(w, status_key(s)));
        lemma_status_key_injective(s, inv.status);
        if s != inv.status || x != id {
            assert(list_of(m.lists, status_key(s)).contains(x));
            assert(x != id);
        }
    }
    let all_n = crate::storage::all_invoice_ids(n);
    assert forall|k: int| 0 <= k < all_n.len() && n.invoices.contains_key(#[trigger] all_n[k])
        implies crate::storage::record_indexed(n, all_n[k]) by {
        let x = all_n[k];
        let r = n.invoices[x];
        assert(all_n.contains(x));
        lemma_all_invoice_ids_contains(n, x);
        if x != id {
            let s = choose|s: InvoiceStatus| #[trigger] list_of(n.lists, status_key(s)).contains(x);
            assert(list_of(n.lists, status_key(s)) == list_of(w, status_key(s)));
            lemma_status_key_injective(s, inv.status);
            assert(list_of(m.lists, status_key(s)).contains(x));
            lemma_all_invoice_ids_contains(m, x);
            let all_m = crate::storage::all_invoice_ids(m);
            let j = choose|j: int| 0 <= j < all_m.len() && all_m[j] == x;
            assert(m.invoices.contains_key(all_m[j]));
            assert(crate::storage::record_indexed(m, x));
            assert(r == m.invoices[x]);
            assert(list_of(m.lists, crate::storage::business_key(r.business)).contains(x));
            assert forall|i: int| 0 <= i < r.tags.len() implies #[trigger] list_of(n.lists, tag_key(r.tags[i]@)).contains(x) by {
                assert(list_of(m.lists, tag_key(r.tags[i]@)).contains(x));
            }
            match r.metadata_customer_name {
                Some(c) => {
                    assert(list_of(m.lists, crate::storage::customer_key(c@)).contains(x));
                },
                None => {},
            }
            match r.metadata_tax_id {
                Some(t) => {
                    assert(list_of(m.lists, crate::storage::tax_id_key(t@)).contains(x));
                },
                None => {},
            }
        } else {
            assert(r == inv);
        }
    }
}

/// Every ID other than `id` that a list of `a` holds, the same list of `b` holds.
pub open spec fn keeps_others(a: Map<IndexKeyView, Seq<BytesN32>>, b: Map<IndexKeyView, Seq<BytesN32>>, id: BytesN32) -> bool {
    forall|k: IndexKeyView, x: BytesN32| #![trigger list_of(a, k).contains(x)]
        x != id && list_of(a, k).contains(x) ==> list_of(b, k).contains(x)
}

proof fn lemma_keeps_others_trans(a: Map<IndexKeyView, Seq<BytesN32>>, b: Map<IndexKeyView, Seq<BytesN32>>,
    c: Map<IndexKeyView, Seq<BytesN32>>, id: BytesN32)
    requires
        keeps_others(a, b, id),
        keeps_others(b, c, id),
    ensures
        keeps_others(a, c, id),
{
    assert forall|k: IndexKeyView, x: BytesN32| x != id && #[trigger] list_of(a, k).contains(x)
        implies list_of(c, k).contains(x) by {
        assert(list_of(b, k).contains(x));
    }
}

proof fn lemma_without_first_keeps(l: Map<IndexKeyView, Seq<BytesN32>>, k: IndexKeyView, id: BytesN32)
    ensures
        keeps_others(l, without_first(l, k, id), id),
{
    lemma_without_first_facts(l, k, id);
    assert forall|k2: IndexKeyView, x: BytesN32| x != id && #[trigger] list_of(l, k2).contains(x)
        implies list_of(without_first(l, k, id), k2).contains(x) by {
        if k2 == k {
            assert(list_of(without_first(l, k, id), k).contains(x) <==> list_of(l, k).contains(x));
        }
    }
}

proof fn lemma_without_any_keeps(l: Map<IndexKeyView, Seq<BytesN32>>, k: IndexKeyView, id: BytesN32)
    ensures
        keeps_others(l, without_any(l, k, id), id),
{
    assert forall|k2: IndexKeyView, x: BytesN32| x != id && #[trigger] list_of(l, k2).contains(x)
        implies list_of(without_any(l, k, id), k2).contains(x) by {
        if k2 == k {
            let s = list_of(l, k);
            let i = choose|i: int| 0 <= i < s.len() && s[i] == x;
            s.lemma_filter_contains(crate::storage::other_than(id), i);
        }
    }
}

proof fn lemma_without_tags_keeps(l: Map<IndexKeyView, Seq<BytesN32>>, tags: Seq<String>, id: BytesN32)
    ensures
        keeps_others(l, without_id_in_tags(l, tags, id), id),
    decreases tags.len(),
{
    if tags.len() == 0 {
        assert forall|k: IndexKeyView, x: BytesN32| x != id && #[trigger] list_of(l, k).contains(x)
            implies list_of(without_id_in_tags(l, tags, id), k).contains(x) by {}
    } else {
        let a = without_id_in_tags(l, tags.drop_last(), id);
        lemma_without_tags_keeps(l, tags.drop_last(), id);
        lemma_without_any_keeps(a, tag_key(tags.last()@), id);
        lemma_keeps_others_trans(l, a, without_id_in_tags(l, tags, id), id);
    }
}

proof fn lemma_delete_keeps_others(l: Map<IndexKeyView, Seq<BytesN32>>, old: InvoiceView, id: BytesN32)
    ensures
        keeps_others(l, delete_lists(l, old, id), id),
{
    let l1 = without_first(l, status_key(old.status), id);
    let l2 = without_first(l1, crate::storage::business_key(old.business), id);
    let l3 = match old.metadata_customer_name {
        Some(n) => without_any(l2, crate::storage::customer_key(n@), id),
        None => l2,
    };
    let l4 = match old.metadata_tax_id {
        Some(t) => without_any(l3, crate::storage::tax_id_key(t@), id),
        None => l3,
    };
    let l5 = without_any(l4, category_key(old.category), id);
    lemma_without_first_keeps(l, status_key(old.status), id);
    lemma_without_first_keeps(l1, crate::storage::business_key(old.business), id);
    lemma_keeps_others_trans(l, l1, l2, id);
    match old.metadata_customer_name {
        Some(n) => lemma_without_any_keeps(l2, crate::storage::customer_key(n@), id),
        None => {
            assert forall|k: IndexKeyView, x: BytesN32| x != id && #[trigger] list_of(l2, k).contains(x)
                implies list_of(l3, k).contains(x) by {}
        },
    }
    lemma_keeps_others_trans(l, l2, l3, id);
    match old.metadata_tax_id {
        Some(t) => lemma_without_any_keeps(l3, crate::storage::tax_id_key(t@), id),
        None => {
            assert forall|k: IndexKeyView, x: BytesN32| x != id && #[trigger] list_of(l3, k).contains(x)
                implies list_of(l4, k).contains(x) by {}
        },
    }
    lemma_keeps_others_trans(l, l3, l4, id);
    lemma_without_any_keeps(l4, category_key(old.category), id);
    lemma_keeps_others_trans(l, l4, l5, id);
    lemma_without_tags_keeps(l5, old.tags, id);
    lemma_keeps_others_trans(l, l5, delete_lists(l, old, id), id);
}

/// Deleting an invoice from a ledger whose invoice indexes pass the audit
/// leaves indexes that still pass it, where the invoice is listed at most
/// once in the bucket of its status.
pub proof fn law_delete_keeps_invoice_audit_clean(m: LedgerModel, id: BytesN32)
    requires
        crate::storage::invoice_indexes_consistent(m),
        m.invoices.contains_key(id) ==> list_of(m.lists, status_key(m.invoices[id].status)).no_duplicates(),
    ensures
        crate::storage::invoice_indexes_consistent(deleted(m, id)),
{
    let n = deleted(m, id);
    if !m.invoices.contains_key(id) {
        assert(n.invoices =~= m.invoices);
        assert(n == m);
    } else {
        let old = m.invoices[id];
        let w = without_first(m.lists, status_key(old.status), id);
        lemma_delete_status_lists(m.lists, old, id);
        lemma_without_first_facts(m.lists, status_key(old.status), id);
        lemma_delete_keeps_others(m.lists, old, id);
        // Each status bucket of `n` holds what the same bucket of `m` holds, less `id`.
        assert forall|s: InvoiceStatus, x: BytesN32| #[trigger] list_of(n.lists, status_key(s)).contains(x)
            implies x != id && list_of(m.lists, status_key(s)).contains(x) by {
            assert(list_of(n.lists, status_key(s)) == list_of(w, status_key(s)));
            lemma_status_key_injective(s, old.status);
            if s != old.status {
                assert(list_of(w, status_key(s)) == list_of(m.lists, status_key(s)));
                assert(crate::storage::sound_in_bucket(m, s, x));
            }
        }
        assert forall|s: InvoiceStatus, x: BytesN32| #[trigger] list_of(n.lists, status_key(s)).contains(x)
            implies crate::storage::sound_in_bucket(n, s, x) by {
            assert(x != id && list_of(m.lists, status_key(s)).contains(x));
            assert(crate::storage::sound_in_bucket(m, s, x));
        }
        let all_n = crate::storage::all_invoice_ids(n);
        let all_m = crate::storage::all_invoice_ids(m);
        assert forall|k: int| 0 <= k < all_n.len() && n.invoices.contains_key(#[trigger] all_n[k])
            implies crate::storage::record_indexed(n, all_n[k]) by {
            let x = all_n[k];
            let r = n.invoices[x];
            assert(x != id);
            assert(r == m.invoices[x]);
            assert(all_n.contains(x));
            lemma_all_invoice_ids_contains(n, x);
            let s = choose|s: InvoiceStatus| #[trigger] list_of(n.lists, status_key(s)).contains(x);
            assert(list_of(m.lists, status_key(s)).contains(x));
            lemma_all_invoice_ids_contains(m, x);
            let j = choose|j: int| 0 <= j < all_m.len() && all_m[j] == x;
            assert(m.invoices.contains_key(all_m[j]));
            assert(crate::storage::record_indexed(m, x));
            assert(list_of(m.lists, category_key(r.category)).contains(x));
            assert(list_of(m.lists, crate::storage::business_key(r.business)).contains(x));
            assert forall|i: int| 0 <= i < r.tags.len() implies #[trigger] list_of(n.lists, tag_key(r.tags[i]@)).contains(x) by {
                assert(list_of(m.lists, tag_key(r.tags[i]@)).contains(x));
            }
            match r.metadata_customer_name {
                Some(c) => {
                    assert(list_of(m.lists, crate::storage::customer_key(c@)).contains(x));
                },
                None => {},
            }
            match r.metadata_tax_id {
                Some(t) => {
                    assert(list_of(m.lists, crate::storage::tax_id_key(t@)).contains(x));
                },
                None => {},
            }
        }
    }
}

/// The number of entries of all seven status buckets together.
pub open spec fn bucket_total(m: LedgerModel) -> nat {
    list_of(m.lists, status_key(InvoiceStatus::Pending)).len()
        + list_of(m.lists, status_key(InvoiceStatus::Verified)).len()
        + list_of(m.lists, status_key(InvoiceStatus::Funded)).len()
        + list_of(m.lists, status_key(InvoiceStatus::Paid)).len()
        + list_of(m.lists, status_key(InvoiceStatus::Defaulted)).len()
        + list_of(m.lists, status_key(InvoiceStatus::Cancelled)).len()
        + list_of(m.lists, status_key(InvoiceStatus::Refunded)).len()
}

/// The value of the invoice counter.
pub open spec fn invoice_counter(m: LedgerModel) -> u64 {
    crate::storage::counter_value(m, Symbol::spec_short("inv_count"@))
}

proof fn lemma_store_bucket_length(m: LedgerModel, inv: InvoiceView, s: InvoiceStatus)
    requires
        status_coherent(m),
        !m.invoices.contains_key(inv.id),
    ensures
        list_of(stored(m, inv).lists, status_key(s)).len()
            == list_of(m.lists, status_key(s)).len() + (if s == inv.status { 1int } else { 0int }),
{
    lemma_store_status_lists(m, inv);
    lemma_with_id_facts(m.lists, status_key(inv.status), inv.id);
    lemma_status_key_injective(s, inv.status);
    assert(list_of(stored(m, inv).lists, status_key(s))
        == list_of(with_id(m.lists, status_key(inv.status), inv.id), status_key(s)));
    if list_of(m.lists, status_key(inv.status)).contains(inv.id) {
        assert(crate::storage::sound_in_bucket(m, inv.status, inv.id));
    }
}

/// Creating an invoice, by storing it under a fresh ID and then advancing
/// the invoice counter, keeps the counter equal to the number of entries
/// of all status buckets together.
pub proof fn law_create_keeps_count_agreement(m: LedgerModel, inv: InvoiceView)
    requires
        status_coherent(m),
        !m.invoices.contains_key(inv.id),
        invoice_counter(m) == bucket_total(m),
        invoice_counter(m) < u64::MAX,
    ensures
        invoice_counter(crate::storage::counted(stored(m, inv)))
            == bucket_total(crate::storage::counted(stored(m, inv))),
{
    lemma_store_bucket_length(m, inv, InvoiceStatus::Pending);
    lemma_store_bucket_length(m, inv, InvoiceStatus::Verified);
    lemma_store_bucket_length(m, inv, InvoiceStatus::Funded);
    lemma_store_bucket_length(m, inv, InvoiceStatus::Paid);
    lemma_store_bucket_length(m, inv, InvoiceStatus::Defaulted);
    lemma_store_bucket_length(m, inv, InvoiceStatus::Cancelled);
    lemma_store_bucket_length(m, inv, InvoiceStatus::Refunded);
    assert(bucket_total(stored(m, inv)) == bucket_total(m) + 1);
}

proof fn lemma_update_bucket_length(m: LedgerModel, inv: InvoiceView, s: InvoiceStatus)
    requires
        status_coherent(m),
        m.invoices.contains_key(inv.id),
    ensures
        ({
            let old = m.invoices[inv.id];
            list_of(updated(m, inv).lists, status_key(s)).len()
                == list_of(m.lists, status_key(s)).len()
                    - (if s == old.status && s != inv.status { 1int } else { 0int })
                    + (if s == inv.status && s != old.status { 1int } else { 0int })
        }),
{
    let id = inv.id;
    let old = m.invoices[id];
    lemma_update_status_lists(m.lists, old, inv);
    if old.status != inv.status {
        let l = list_of(m.lists, status_key(old.status));
        let r = without_first(m.lists, status_key(old.status), id);
        lemma_without_first_facts(m.lists, status_key(old.status), id);
        lemma_with_id_facts(r, status_key(inv.status), id);
        lemma_status_key_injective(s, old.status);
        lemma_status_key_injective(s, inv.status);
        lemma_status_key_injective(old.status, inv.status);
        assert(l.contains(id));
        l.index_of_first_ensures(id);
        assert(list_of(r, status_key(old.status)).len() == l.len() - 1);
        if list_of(m.lists, status_key(inv.status)).contains(id) {
            assert(crate::storage::sound_in_bucket(m, inv.status, id));
        }
        assert(list_of(r, status_key(inv.status)) == list_of(m.lists, status_key(inv.status)));
        assert(!list_of(r, status_key(inv.status)).contains(id));
    }
}

/// Updating an existing invoice keeps the number of entries of all status
/// buckets together: on a status change one bucket loses the invoice and
/// another gains it.
pub proof fn law_update_keeps_bucket_total(m: LedgerModel, inv: InvoiceView)
    requires
        status_coherent(m),
        m.invoices.contains_key(inv.id),
    ensures
        bucket_total(updated(m, inv)) == bucket_total(m),
{
    lemma_update_bucket_length(m, inv, InvoiceStatus::Pending);
    lemma_update_bucket_length(m, inv, InvoiceStatus::Verified);
    lemma_update_bucket_length(m, inv, InvoiceStatus::Funded);
    lemma_update_bucket_length(m, inv, InvoiceStatus::Paid);
    lemma_update_bucket_length(m, inv, InvoiceStatus::Defaulted);
    lemma_update_bucket_length(m, inv, InvoiceStatus::Cancelled);
    lemma_update_bucket_length(m, inv, InvoiceStatus::Refunded);
}

/// No status bucket lists an ID twice.
pub open spec fn buckets_without_repeats(m: LedgerModel) -> bool {
    forall|s: InvoiceStatus| #[trigger] list_of(m.lists, status_key(s)).no_duplicates()
}

proof fn lemma_delete_keeps_buckets_without_repeats(m: LedgerModel, id: BytesN32)
    requires
        buckets_without_repeats(m),
    ensures
        buckets_without_repeats(deleted(m, id)),
{
    if m.invoices.contains_key(id) {
        let old = m.invoices[id];
        let w = without_first(m.lists, status_key(old.status), id);
        lemma_delete_status_lists(m.lists, old, id);
        lemma_without_first_facts(m.lists, status_key(old.status), id);
        assert forall|s: InvoiceStatus| #[trigger] list_of(deleted(m, id).lists, status_key(s)).no_duplicates() by {
            assert(list_of(deleted(m, id).lists, status_key(s)) == list_of(w, status_key(s)));
            lemma_status_key_injective(s, old.status);
        }
    }
}

proof fn lemma_pruned_ids_keep_audit_clean(m: LedgerModel, ids: Seq<BytesN32>, older_than_secs: u64, now: u64)
    requires
        crate::storage::invoice_indexes_consistent(m),
        buckets_without_repeats(m),
    ensures
        crate::storage::invoice_indexes_consistent(pruned_ids(m, ids, older_than_secs, now)),
        buckets_without_repeats(pruned_ids(m, ids, older_than_secs, now)),
    decreases ids.len(),
{
    if ids.len() > 0 {
        lemma_pruned_ids_keep_audit_clean(m, ids.drop_last(), older_than_secs, now);
        let p = pruned_ids(m, ids.drop_last(), older_than_secs, now);
        let id = ids.last();
        if p.invoices.contains_key(id) && prune_eligible(p.invoices[id], older_than_secs, now) {
            law_delete_keeps_invoice_audit_clean(p, id);
            lemma_delete_keeps_buckets_without_repeats(p, id);
        }
    }
}

/// Pruning a page of a ledger whose invoice indexes pass the audit, and
/// whose status buckets list no ID twice, leaves indexes that pass it.
pub proof fn law_prune_keeps_invoice_audit_clean(m: LedgerModel, older_than_secs: u64, offset: u32, limit: u32)
    requires
        crate::storage::invoice_indexes_consistent(m),
        buckets_without_repeats(m),
    ensures
        crate::storage::invoice_indexes_consistent(pruned(m, older_than_secs, offset, limit)),
{
    lemma_pruned_ids_keep_audit_clean(m, page_ids(m, offset, limit), older_than_secs, m.timestamp);
}

proof fn lemma_filter_keeps_all(s: Seq<BytesN32>, p: spec_fn(BytesN32) -> bool)
    requires
        forall|i: int| 0 <= i < s.len() ==> p(#[trigger] s[i]),
    ensures
        s.filter(p) == s,
    decreases s.len(),
{
    if s.len() == 0 {
        s.lemma_filter_len(p);
        assert(s.filter(p) =~= s);
    } else {
        let t = s.drop_last();
        assert(forall|i: int| 0 <= i < t.len() ==> p(#[trigger] t[i]) == p(s[i]));
        lemma_filter_keeps_all(t, p);
        assert(s =~= t.push(s.last()));
        t.lemma_filter_push(s.last(), p);
    }
}

proof fn lemma_filter_same_on_elements(s: Seq<BytesN32>, a: spec_fn(BytesN32) -> bool, b: spec_fn(BytesN32) -> bool)
    requires
        forall|i: int| 0 <= i < s.len() ==> a(#[trigger] s[i]) == b(s[i]),
    ensures
        s.filter(a) == s.filter(b),
    decreases s.len(),
{
    if s.len() == 0 {
        s.lemma_filter_len(a);
        s.lemma_filter_len(b);
        assert(s.filter(a) =~= s.filter(b));
    } else {
        let t = s.drop_last();
        assert(forall|i: int| 0 <= i < t.len() ==> #[trigger] t[i] == s[i]);
        lemma_filter_same_on_elements(t, a, b);
        assert(s =~= t.push(s.last()));
        t.lemma_filter_push(s.last(), a);
        t.lemma_filter_push(s.last(), b);
    }
}

proof fn lemma_filter_twice(s: Seq<BytesN32>, a: spec_fn(BytesN32) -> bool, b: spec_fn(BytesN32) -> bool,
    c: spec_fn(BytesN32) -> bool)
    requires
        forall|x: BytesN32| #[trigger] c(x) == (a(x) && b(x)),
    ensures
        s.filter(a).filter(b) == s.filter(c),
    decreases s.len(),
{
    if s.len() == 0 {
        s.lemma_filter_len(a);
        s.filter(a).lemma_filter_len(b);
        s.lemma_filter_len(c);
        assert(s.filter(a).filter(b) =~= s.filter(c));
    } else {
        let t = s.drop_last();
        let l = s.last();
        lemma_filter_twice(t, a, b, c);
        assert(s =~= t.push(l));
        t.lemma_filter_push(l, a);
        t.lemma_filter_push(l, c);
        if a(l) {
            t.filter(a).lemma_filter_push(l, b);
        }
    }
}

proof fn lemma_remove_first_is_filter(s: Seq<BytesN32>, id: BytesN32)
    requires
        s.no_duplicates(),
    ensures
        (match s.index_of_first(id) {
            Some(i) => s.remove(i),
            None => s,
        }) == s.filter(crate::storage::other_than(id)),
{
    let p = crate::storage::other_than(id);
    s.index_of_first_ensures(id);
    match s.index_of_first(id) {
        Some(i) => {
            let a = s.subrange(0, i);
            let c = s.subrange(i + 1, s.len() as int);
            assert(s =~= a + seq![id] + c);
            assert(s.remove(i) =~= a + c);
            lemma_filter_keeps_all(a, p);
            lemma_filter_keeps_all(c, p);
            Seq::filter_distributes_over_add(a + seq![id], c, p);
            Seq::filter_distributes_over_add(a, seq![id], p);
            Seq::<BytesN32>::empty().lemma_filter_push(id, p);
            Seq::<BytesN32>::empty().lemma_filter_len(p);
            assert(Seq::<BytesN32>::empty().push(id) =~= seq![id]);
            assert(seq![id].filter(p) =~= Seq::<BytesN32>::empty());
            assert(a + Seq::<BytesN32>::empty() =~= a);
        },
        None => {
            lemma_filter_keeps_all(s, p);
        },
    }
}

proof fn lemma_append_new_filter(acc: Seq<BytesN32>, ids: Seq<BytesN32>, p: spec_fn(BytesN32) -> bool)
    ensures
        crate::storage::append_new(acc.filter(p), ids.filter(p)) == crate::storage::append_new(acc, ids).filter(p),
    decreases ids.len(),
{
    if ids.len() == 0 {
        ids.lemma_filter_len(p);
        assert(ids.filter(p) =~= Seq::<BytesN32>::empty());
    } else {
        let t = ids.drop_last();
        let l = ids.last();
        lemma_append_new_filter(acc, t, p);
        assert(ids =~= t.push(l));
        t.lemma_filter_push(l, p);
        let a = crate::storage::append_new(acc, t);
        a.lemma_filter_push(l, p);
        if p(l) {
            assert(ids.filter(p).drop_last() =~= t.filter(p));
            assert(ids.filter(p).last() == l);
            if a.contains(l) {
                let k = choose|k: int| 0 <= k < a.len() && a[k] == l;
                a.lemma_filter_contains(p, k);
            }
            if a.filter(p).contains(l) {
                a.lemma_filter_contains_rev(p, l);
            }
        }
    }
}

proof fn lemma_ids_of_statuses_filter(l: Map<IndexKeyView, Seq<BytesN32>>, l2: Map<IndexKeyView, Seq<BytesN32>>,
    st: Seq<InvoiceStatus>, p: spec_fn(BytesN32) -> bool)
    requires
        forall|s: InvoiceStatus| #[trigger] list_of(l2, status_key(s)) == list_of(l, status_key(s)).filter(p),
    ensures
        crate::storage::ids_of_statuses(l2, st) == crate::storage::ids_of_statuses(l, st).filter(p),
    decreases st.len(),
{
    if st.len() == 0 {
        Seq::<BytesN32>::empty().lemma_filter_len(p);
        assert(Seq::<BytesN32>::empty().filter(p) =~= Seq::<BytesN32>::empty());
    } else {
        lemma_ids_of_statuses_filter(l, l2, st.drop_last(), p);
        assert(list_of(l2, status_key(st.last())) == list_of(l, status_key(st.last())).filter(p));
        lemma_append_new_filter(crate::storage::ids_of_statuses(l, st.drop_last()),
            list_of(l, status_key(st.last())), p);
    }
}

proof fn lemma_ids_of_statuses_no_duplicates(l: Map<IndexKeyView, Seq<BytesN32>>, st: Seq<InvoiceStatus>)
    ensures
        crate::storage::ids_of_statuses(l, st).no_duplicates(),
    decreases st.len(),
{
    if st.len() > 0 {
        lemma_ids_of_statuses_no_duplicates(l, st.drop_last());
        crate::storage::lemma_append_new_contains(crate::storage::ids_of_statuses(l, st.drop_last()),
            list_of(l, status_key(st.last())));
    }
}

proof fn lemma_delete_buckets_filter(m: LedgerModel, id: BytesN32)
    requires
        status_coherent(m),
        m.invoices.contains_key(id),
    ensures
        forall|s: InvoiceStatus| #[trigger] list_of(deleted(m, id).lists, status_key(s))
            == list_of(m.lists, status_key(s)).filter(crate::storage::other_than(id)),
{
    let old = m.invoices[id];
    let w = without_first(m.lists, status_key(old.status), id);
    lemma_delete_status_lists(m.lists, old, id);
    assert forall|s: InvoiceStatus| #[trigger] list_of(deleted(m, id).lists, status_key(s))
        == list_of(m.lists, status_key(s)).filter(crate::storage::other_than(id)) by {
        let b = list_of(m.lists, status_key(s));
        assert(list_of(deleted(m, id).lists, status_key(s)) == list_of(w, status_key(s)));
        lemma_status_key_injective(s, old.status);
        if s == old.status {
            lemma_remove_first_is_filter(b, id);
        } else {
            assert(list_of(w, status_key(s)) == b);
            assert forall|i: int| 0 <= i < b.len() implies (crate::storage::other_than(id))(#[trigger] b[i]) by {
                assert(b.contains(b[i]));
                assert(crate::storage::sound_in_bucket(m, s, b[i]));
            }
            lemma_filter_keeps_all(b, crate::storage::other_than(id));
        }
    }
}

/// An ID survives pruning `ids` from `m` unless it is one of `ids` and its
/// record may be pruned.
pub open spec fn survives_prune(m: LedgerModel, ids: Seq<BytesN32>, older_than_secs: u64, now: u64) -> spec_fn(BytesN32) -> bool {
    |y: BytesN32| !(ids.contains(y) && m.invoices.contains_key(y) && prune_eligible(m.invoices[y], older_than_secs, now))
}

proof fn lemma_pruned_ids_list(m: LedgerModel, ids: Seq<BytesN32>, older_than_secs: u64, now: u64)
    requires
        status_coherent(m),
        ids.no_duplicates(),
    ensures
        forall|s: InvoiceStatus| #[trigger] list_of(pruned_ids(m, ids, older_than_secs, now).lists, status_key(s))
            == list_of(m.lists, status_key(s)).filter(survives_prune(m, ids, older_than_secs, now)),
        prune_count(m, ids, older_than_secs, now) + ids.filter(survives_prune(m, ids, older_than_secs, now)).len()
            == ids.len(),
    decreases ids.len(),
{
    let k = survives_prune(m, ids, older_than_secs, now);
    if ids.len() == 0 {
        ids.lemma_filter_len(k);
        assert forall|s: InvoiceStatus| #[trigger] list_of(pruned_ids(m, ids, older_than_secs, now).lists, status_key(s))
            == list_of(m.lists, status_key(s)).filter(k) by {
            let b = list_of(m.lists, status_key(s));
            lemma_filter_keeps_all(b, k);
        }
    } else {
        let t = ids.drop_last();
        let last = ids.last();
        let kt = survives_prune(m, t, older_than_secs, now);
        assert(t.no_duplicates());
        lemma_pruned_ids_list(m, t, older_than_secs, now);
        lemma_pruned_ids(m, t, older_than_secs, now);
        let p = pruned_ids(m, t, older_than_secs, now);
        assert(ids =~= t.push(last));
        assert(!t.contains(last));
        let del = p.invoices.contains_key(last) && prune_eligible(p.invoices[last], older_than_secs, now);
        if p.invoices.contains_key(last) {
            assert(p.invoices[last] == m.invoices[last]);
        } else if m.invoices.contains_key(last) {
            assert(t.contains(last));
        }
        assert(del == !k(last));
        // On the elements of `t`, surviving `ids` is surviving `t`.
        assert forall|i: int| 0 <= i < t.len() implies k(#[trigger] t[i]) == kt(t[i]) by {
            assert(t[i] != last);
            if t.contains(t[i]) {
            }
            assert(ids.contains(t[i]) == t.contains(t[i])) by {
                if ids.contains(t[i]) {
                    let j = choose|j: int| 0 <= j < ids.len() && ids[j] == t[i];
                    assert(j < t.len());
                    assert(t[j] == t[i]);
                }
            }
        }
        lemma_filter_same_on_elements(t, k, kt);
        t.lemma_filter_push(last, k);
        if del {
            lemma_delete_buckets_filter(p, last);
            assert forall|x: BytesN32| #[trigger] k(x) == (kt(x) && (crate::storage::other_than(last))(x)) by {
                assert(ids.contains(x) == (t.contains(x) || x == last)) by {
                    if ids.contains(x) {
                        let j = choose|j: int| 0 <= j < ids.len() && ids[j] == x;
                        if j < t.len() {
                            assert(t[j] == x);
                        }
                    }
                    if t.contains(x) {
                        let j = choose|j: int| 0 <= j < t.len() && t[j] == x;
                        assert(ids[j] == x);
                    }
                    if x == last {
                        assert(ids[ids.len() - 1] == x);
                    }
                }
            }
            assert forall|s: InvoiceStatus| #[trigger] list_of(pruned_ids(m, ids, older_than_secs, now).lists, status_key(s))
                == list_of(m.lists, status_key(s)).filter(k) by {
                let b = list_of(m.lists, status_key(s));
                assert(list_of(p.lists, status_key(s)) == b.filter(kt));
                lemma_filter_twice(b, kt, crate::storage::other_than(last), k);
            }
        } else {
            assert forall|x: BytesN32| #[trigger] k(x) == kt(x) by {
                assert(ids.contains(x) == (t.contains(x) || x == last)) by {
                    if ids.contains(x) {
                        let j = choose|j: int| 0 <= j < ids.len() && ids[j] == x;
                        if j < t.len() {
                            assert(t[j] == x);
                        }
                    }
                    if t.contains(x) {
                        let j = choose|j: int| 0 <= j < t.len() && t[j] == x;
                        assert(ids[j] == x);
                    }
                    if x == last {
                        assert(ids[ids.len() - 1] == x);
                    }
                }
            }
            assert forall|s: InvoiceStatus| #[trigger] list_of(pruned_ids(m, ids, older_than_secs, now).lists, status_key(s))
                == list_of(m.lists, status_key(s)).filter(k) by {
                let b = list_of(m.lists, status_key(s));
                lemma_filter_same_on_elements(b, k, kt);
            }
        }
    }
}

/// Pruning can be resumed page by page: where the records and the status
/// buckets agree, a pruned page leaves the list of all invoice IDs as it
/// was before the page, then the page's surviving IDs in order, then the
/// rest as it was; the first ID after the page then sits at the page's end
/// (the returned `next_offset`) less the number pruned.
pub proof fn law_prune_pages_chain(m: LedgerModel, older_than_secs: u64, offset: u32, limit: u32)
    requires
        status_coherent(m),
    ensures
        ({
            let all = crate::storage::all_invoice_ids(m);
            let total = all.len() as int;
            let start = crate::storage::page_start(offset, total);
            let end = crate::storage::page_end(offset, limit, total);
            let page = page_ids(m, offset, limit);
            let kept = page.filter(survives_prune(m, page, older_than_secs, m.timestamp));
            &&& crate::storage::all_invoice_ids(pruned(m, older_than_secs, offset, limit))
                == all.subrange(0, start) + kept + all.subrange(end, total)
            &&& end - prune_count(m, page, older_than_secs, m.timestamp) == start + kept.len()
        }),
{
    let all = crate::storage::all_invoice_ids(m);
    let total = all.len() as int;
    let start = crate::storage::page_start(offset, total);
    let end = crate::storage::page_end(offset, limit, total);
    let page = page_ids(m, offset, limit);
    let now = m.timestamp;
    let k = survives_prune(m, page, older_than_secs, now);
    lemma_ids_of_statuses_no_duplicates(m.lists, crate::storage::all_statuses());
    let a = all.subrange(0, start);
    let c = all.subrange(end, total);
    assert(all =~= a + page + c);
    assert(page.no_duplicates()) by {
        assert forall|i: int, j: int| 0 <= i < page.len() && 0 <= j < page.len() && i != j implies page[i] != page[j] by {
            assert(page[i] == all[start + i] && page[j] == all[start + j]);
        }
    }
    lemma_pruned_ids_list(m, page, older_than_secs, now);
    let n = pruned(m, older_than_secs, offset, limit);
    lemma_ids_of_statuses_filter(m.lists, n.lists, crate::storage::all_statuses(), k);
    Seq::filter_distributes_over_add(a + page, c, k);
    Seq::filter_distributes_over_add(a, page, k);
    assert forall|i: int| 0 <= i < a.len() implies k(#[trigger] a[i]) by {
        assert(a[i] == all[i]);
        if page.contains(a[i]) {
            let j = choose|j: int| 0 <= j < page.len() && page[j] == a[i];
            assert(page[j] == all[start + j]);
        }
    }
    assert forall|i: int| 0 <= i < c.len() implies k(#[trigger] c[i]) by {
        assert(c[i] == all[end + i]);
        if page.contains(c[i]) {
            let j = choose|j: int| 0 <= j < page.len() && page[j] == c[i];
            assert(page[j] == all[start + j]);
        }
    }
    lemma_filter_keeps_all(a, k);
    lemma_filter_keeps_all(c, k);
}

/// Storing the same invoice twice leaves the ledger as storing it once.
pub proof fn law_store_is_idempotent(m: LedgerModel, inv: InvoiceView)
    ensures
        stored(stored(m, inv), inv) == stored(m, inv),
{
    let l = store_lists(m.lists, inv);
    let id = inv.id;
    lemma_store_grows(m.lists, inv);
    lemma_with_id_grows(l, crate::storage::business_key(inv.business), id);
    lemma_with_id_grows(l, status_key(inv.status), id);
    match inv.metadata_customer_name {
        Some(n) => lemma_with_id_grows(l, crate::storage::customer_key(n@), id),
        None => {},
    }
    match inv.metadata_tax_id {
        Some(t) => lemma_with_id_grows(l, crate::storage::tax_id_key(t@), id),
        None => {},
    }
    lemma_with_id_grows(l, category_key(inv.category), id);
    lemma_tags_grow(l, inv.tags, id);
    assert(store_lists(l, inv) == l);
    assert(stored(m, inv).invoices.insert(id, inv) =~= stored(m, inv).invoices);
}

/// Every ID other than `id` is held by a list of `a` exactly when the same
/// list of `b` holds it.
pub open spec fn same_others(a: Map<IndexKeyView, Seq<BytesN32>>, b: Map<IndexKeyView, Seq<BytesN32>>, id: BytesN32) -> bool {
    forall|k: IndexKeyView, x: BytesN32| #![trigger list_of(b, k).contains(x)]
        x != id ==> (list_of(a, k).contains(x) == list_of(b, k).contains(x))
}

proof fn lemma_same_others_trans(a: Map<IndexKeyView, Seq<BytesN32>>, b: Map<IndexKeyView, Seq<BytesN32>>,
    c: Map<IndexKeyView, Seq<BytesN32>>, id: BytesN32)
    requires
        same_others(a, b, id),
        same_others(b, c, id),
    ensures
        same_others(a, c, id),
{
    assert forall|k: IndexKeyView, x: BytesN32| x != id implies
        (list_of(a, k).contains(x) == #[trigger] list_of(c, k).contains(x)) by {
        assert(list_of(a, k).contains(x) == list_of(b, k).contains(x));
    }
}

proof fn lemma_same_others_refl(a: Map<IndexKeyView, Seq<BytesN32>>, id: BytesN32)
    ensures
        same_others(a, a, id),
{
}

proof fn lemma_with_id_same_others(l: Map<IndexKeyView, Seq<BytesN32>>, k: IndexKeyView, id: BytesN32)
    ensures
        same_others(l, with_id(l, k, id), id),
{
    lemma_with_id_facts(l, k, id);
    assert forall|k2: IndexKeyView, x: BytesN32| x != id implies
        (list_of(l, k2).contains(x) == #[trigger] list_of(with_id(l, k, id), k2).contains(x)) by {
        if k2 == k {
            assert(list_of(with_id(l, k, id), k).contains(x) <==> (x == id || list_of(l, k).contains(x)));
        }
    }
}

proof fn lemma_without_first_same_others(l: Map<IndexKeyView, Seq<BytesN32>>, k: IndexKeyView, id: BytesN32)
    ensures
        same_others(l, without_first(l, k, id), id),
{
    lemma_without_first_facts(l, k, id);
    assert forall|k2: IndexKeyView, x: BytesN32| x != id implies
        (list_of(l, k2).contains(x) == #[trigger] list_of(without_first(l, k, id), k2).contains(x)) by {
        if k2 == k {
            assert(list_of(without_first(l, k, id), k).contains(x) <==> list_of(l, k).contains(x));
        }
    }
}

proof fn lemma_without_any_same_others(l: Map<IndexKeyView, Seq<BytesN32>>, k: IndexKeyView, id: BytesN32)
    ensures
        same_others(l, without_any(l, k, id), id),
        !list_of(without_any(l, k, id), k).contains(id),
{
    let s = list_of(l, k);
    let p = crate::storage::other_than(id);
    assert forall|k2: IndexKeyView, x: BytesN32| x != id implies
        (list_of(l, k2).contains(x) == #[trigger] list_of(without_any(l, k, id), k2).contains(x)) by {
        if k2 == k {
            if s.contains(x) {
                let i = choose|i: int| 0 <= i < s.len() && s[i] == x;
                s.lemma_filter_contains(p, i);
            }
            if s.filter(p).contains(x) {
                s.lemma_filter_contains_rev(p, x);
            }
        }
    }
    if s.filter(p).contains(id) {
        let i = choose|i: int| 0 <= i < s.filter(p).len() && s.filter(p)[i] == id;
        s.lemma_filter_pred(p, i);
    }
}

proof fn lemma_tags_same_others(l: Map<IndexKeyView, Seq<BytesN32>>, tags: Seq<String>, id: BytesN32)
    ensures
        same_others(l, with_id_in_tags(l, tags, id), id),
        same_others(l, without_id_in_tags(l, tags, id), id),
    decreases tags.len(),
{
    if tags.len() == 0 {
        lemma_same_others_refl(l, id);
    } else {
        let t = tags.drop_last();
        let k = tag_key(tags.last()@);
        lemma_tags_same_others(l, t, id);
        lemma_with_id_same_others(with_id_in_tags(l, t, id), k, id);
        lemma_same_others_trans(l, with_id_in_tags(l, t, id), with_id_in_tags(l, tags, id), id);
        lemma_without_any_same_others(without_id_in_tags(l, t, id), k, id);
        lemma_same_others_trans(l, without_id_in_tags(l, t, id), without_id_in_tags(l, tags, id), id);
    }
}

proof fn lemma_tags_touch_only_tag_keys(l: Map<IndexKeyView, Seq<BytesN32>>, tags: Seq<String>, id: BytesN32, k: IndexKeyView)
    requires
        forall|t: Seq<char>| #[trigger] tag_key(t) != k,
    ensures
        list_of(with_id_in_tags(l, tags, id), k) == list_of(l, k),
        list_of(without_id_in_tags(l, tags, id), k) == list_of(l, k),
    decreases tags.len(),
{
    if tags.len() > 0 {
        let t = tags.drop_last();
        lemma_tags_touch_only_tag_keys(l, t, id, k);
        assert(tag_key(tags.last()@) != k);
        lemma_with_id_facts(with_id_in_tags(l, t, id), tag_key(tags.last()@), id);
    }
}

proof fn lemma_string_key_prefixes_differ()
    ensures
        Symbol::spec_short("inv_cust"@) != Symbol::spec_short("inv_taxid"@),
        Symbol::spec_short("inv_cust"@) != Symbol::spec_short("inv_tag"@),
        Symbol::spec_short("inv_taxid"@) != Symbol::spec_short("inv_tag"@),
{
    reveal_strlit("inv_cust");
    reveal_strlit("inv_taxid");
    reveal_strlit("inv_tag");
    assert(name_codes("inv_cust"@).len() != name_codes("inv_taxid"@).len());
    assert(name_codes("inv_cust"@).len() != name_codes("inv_tag"@).len());
    assert(name_codes("inv_taxid"@).len() != name_codes("inv_tag"@).len());
    lemma_distinct_short_names("inv_cust"@, "inv_taxid"@);
    lemma_distinct_short_names("inv_cust"@, "inv_tag"@);
    lemma_distinct_short_names("inv_taxid"@, "inv_tag"@);
}

/// Updating an existing invoice changes, in every list, only whether its
/// own ID is held: every other ID is held by exactly the lists that held it.
pub proof fn law_update_leaves_other_ids(m: LedgerModel, inv: InvoiceView)
    requires
        m.invoices.contains_key(inv.id),
    ensures
        same_others(m.lists, updated(m, inv).lists, inv.id),
{
    let id = inv.id;
    let old = m.invoices[id];
    let n = updated(m, inv);
    let l0 = m.lists;
    let l1 = if old.status != inv.status {
        with_id(without_first(l0, status_key(old.status), id), status_key(inv.status), id)
    } else {
        l0
    };
    let cust_changed = crate::types::opt_string_view(old.metadata_customer_name)
        != crate::types::opt_string_view(inv.metadata_customer_name);
    let a2 = match old.metadata_customer_name {
        Some(c) => without_any(l1, crate::storage::customer_key(c@), id),
        None => l1,
    };
    let b2 = match inv.metadata_customer_name {
        Some(c) => with_id(a2, crate::storage::customer_key(c@), id),
        None => a2,
    };
    let l2 = if cust_changed { b2 } else { l1 };
    let tax_changed = crate::types::opt_string_view(old.metadata_tax_id) != crate::types::opt_string_view(inv.metadata_tax_id);
    let a3 = match old.metadata_tax_id {
        Some(t) => without_any(l2, crate::storage::tax_id_key(t@), id),
        None => l2,
    };
    let b3 = match inv.metadata_tax_id {
        Some(t) => with_id(a3, crate::storage::tax_id_key(t@), id),
        None => a3,
    };
    let l3 = if tax_changed { b3 } else { l2 };
    let a4 = without_any(l3, category_key(old.category), id);
    let l4 = if old.category != inv.category {
        with_id(a4, category_key(inv.category), id)
    } else {
        l3
    };
    let tags_changed = crate::types::strings_view(old.tags) != crate::types::strings_view(inv.tags);
    let a5 = without_id_in_tags(l4, old.tags, id);
    let l5 = if tags_changed { with_id_in_tags(a5, inv.tags, id) } else { l4 };
    assert(updated(m, inv).lists == l5);
    // No list of an ID other than `id` changes.
    lemma_without_first_same_others(l0, status_key(old.status), id);
    lemma_with_id_same_others(without_first(l0, status_key(old.status), id), status_key(inv.status), id);
    lemma_same_others_trans(l0, without_first(l0, status_key(old.status), id), l1, id);
    lemma_same_others_refl(l0, id);
    match old.metadata_customer_name {
        Some(c) => lemma_without_any_same_others(l1, crate::storage::customer_key(c@), id),
        None => lemma_same_others_refl(l1, id),
    }
    match inv.metadata_customer_name {
        Some(c) => lemma_with_id_same_others(a2, crate::storage::customer_key(c@), id),
        None => lemma_same_others_refl(a2, id),
    }
    lemma_same_others_trans(l1, a2, b2, id);
    lemma_same_others_refl(l1, id);
    lemma_same_others_trans(l0, l1, l2, id);
    match old.metadata_tax_id {
        Some(t) => lemma_without_any_same_others(l2, crate::storage::tax_id_key(t@), id),
        None => lemma_same_others_refl(l2, id),
    }
    match inv.metadata_tax_id {
        Some(t) => lemma_with_id_same_others(a3, crate::storage::tax_id_key(t@), id),
        None => lemma_same_others_refl(a3, id),
    }
    lemma_same_others_trans(l2, a3, b3, id);
    lemma_same_others_refl(l2, id);
    lemma_same_others_trans(l0, l2, l3, id);
    lemma_without_any_same_others(l3, category_key(old.category), id);
    lemma_with_id_same_others(a4, category_key(inv.category), id);
    lemma_same_others_trans(l3, a4, with_id(a4, category_key(inv.category), id), id);
    lemma_same_others_refl(l3, id);
    lemma_same_others_trans(l0, l3, l4, id);
    lemma_tags_same_others(l4, old.tags, id);
    lemma_tags_same_others(a5, inv.tags, id);
    lemma_same_others_trans(l4, a5, with_id_in_tags(a5, inv.tags, id), id);
    lemma_same_others_refl(l4, id);
    lemma_same_others_trans(l0, l4, l5, id);

}

#[verifier::rlimit(40)]
proof fn lemma_update_indexes_record(m: LedgerModel, inv: InvoiceView)
    requires
        crate::storage::invoice_indexes_consistent(m),
        status_coherent(m),
        m.invoices.contains_key(inv.id),
        m.invoices[inv.id].business == inv.business,
    ensures
        crate::storage::record_indexed(updated(m, inv), inv.id),
{
    let id = inv.id;
    let old = m.invoices[id];
    let n = updated(m, inv);
    let l0 = m.lists;
    let l1 = if old.status != inv.status {
        with_id(without_first(l0, status_key(old.status), id), status_key(inv.status), id)
    } else {
        l0
    };
    let cust_changed = crate::types::opt_string_view(old.metadata_customer_name)
        != crate::types::opt_string_view(inv.metadata_customer_name);
    let a2 = match old.metadata_customer_name {
        Some(c) => without_any(l1, crate::storage::customer_key(c@), id),
        None => l1,
    };
    let b2 = match inv.metadata_customer_name {
        Some(c) => with_id(a2, crate::storage::customer_key(c@), id),
        None => a2,
    };
    let l2 = if cust_changed { b2 } else { l1 };
    let tax_changed = crate::types::opt_string_view(old.metadata_tax_id) != crate::types::opt_string_view(inv.metadata_tax_id);
    let a3 = match old.metadata_tax_id {
        Some(t) => without_any(l2, crate::storage::tax_id_key(t@), id),
        None => l2,
    };
    let b3 = match inv.metadata_tax_id {
        Some(t) => with_id(a3, crate::storage::tax_id_key(t@), id),
        None => a3,
    };
    let l3 = if tax_changed { b3 } else { l2 };
    let a4 = without_any(l3, category_key(old.category), id);
    let l4 = if old.category != inv.category {
        with_id(a4, category_key(inv.category), id)
    } else {
        l3
    };
    let tags_changed = crate::types::strings_view(old.tags) != crate::types::strings_view(inv.tags);
    let a5 = without_id_in_tags(l4, old.tags, id);
    let l5 = if tags_changed { with_id_in_tags(a5, inv.tags, id) } else { l4 };
    let n = updated(m, inv);
    assert(n.lists == l5);
    lemma_string_key_prefixes_differ();
    lemma_category_key_not_status(old.category);
    lemma_category_key_not_status(inv.category);
    // The updated record was indexed before.
    let all_m = crate::storage::all_invoice_ids(m);
    lemma_all_invoice_ids_contains(m, id);
    assert(list_of(m.lists, status_key(old.status)).contains(id));
    let j = choose|j: int| 0 <= j < all_m.len() && all_m[j] == id;
    assert(m.invoices.contains_key(all_m[j]));
    assert(crate::storage::record_indexed(m, id));

    // The updated record is reachable through each index it names.
    let bk = crate::storage::business_key(inv.business);
    lemma_tags_touch_only_tag_keys(l4, old.tags, id, bk);
    lemma_tags_touch_only_tag_keys(a5, inv.tags, id, bk);
    assert(list_of(l5, bk) == list_of(l0, bk));
    match inv.metadata_customer_name {
        Some(c) => {
            let ck = crate::storage::customer_key(c@);
            lemma_tags_touch_only_tag_keys(l4, old.tags, id, ck);
            lemma_tags_touch_only_tag_keys(a5, inv.tags, id, ck);
            if cust_changed {
                lemma_with_id_facts(a2, ck, id);
            } else {
                assert(old.metadata_customer_name is Some);
                assert(old.metadata_customer_name->0@ == c@);
                assert(list_of(l0, ck).contains(id));
            }
            assert(list_of(l2, ck).contains(id));
            assert(list_of(l5, ck).contains(id));
        },
        None => {},
    }
    match inv.metadata_tax_id {
        Some(t) => {
            let tk = crate::storage::tax_id_key(t@);
            lemma_tags_touch_only_tag_keys(l4, old.tags, id, tk);
            lemma_tags_touch_only_tag_keys(a5, inv.tags, id, tk);
            if tax_changed {
                lemma_with_id_facts(a3, tk, id);
            } else {
                assert(old.metadata_tax_id is Some);
                assert(old.metadata_tax_id->0@ == t@);
                assert(list_of(l0, tk).contains(id));
            }
            assert(list_of(l3, tk).contains(id));
            assert(list_of(l5, tk).contains(id));
        },
        None => {},
    }
    let ck2 = category_key(inv.category);
    lemma_tags_touch_only_tag_keys(l4, old.tags, id, ck2);
    lemma_tags_touch_only_tag_keys(a5, inv.tags, id, ck2);
    if old.category != inv.category {
        lemma_with_id_facts(a4, ck2, id);
    } else {
        assert(list_of(l0, ck2).contains(id));
    }
    assert(list_of(l4, ck2).contains(id));
    assert(list_of(l5, ck2).contains(id));
    if tags_changed {
        lemma_tags_grow(a5, inv.tags, id);
    } else {
        assert forall|i: int| 0 <= i < inv.tags.len() implies #[trigger] list_of(l5, tag_key(inv.tags[i]@)).contains(id) by {
            assert(crate::types::strings_view(old.tags).len() == old.tags.len());
            assert(crate::types::strings_view(inv.tags).len() == inv.tags.len());
            assert(crate::types::strings_view(old.tags)[i] == crate::types::strings_view(inv.tags)[i]);
            assert(old.tags[i]@ == inv.tags[i]@);
            assert(list_of(l0, tag_key(old.tags[i]@)).contains(id));
        }
    }
    assert(crate::storage::record_indexed(n, id));

}

/// Updating an existing invoice, without changing its business, in a
/// ledger whose invoice indexes pass the audit and whose records and status
/// buckets agree, leaves indexes that still pass the audit.
pub proof fn law_update_keeps_invoice_audit_clean(m: LedgerModel, inv: InvoiceView)
    requires
        crate::storage::invoice_indexes_consistent(m),
        status_coherent(m),
        m.invoices.contains_key(inv.id),
        m.invoices[inv.id].business == inv.business,
    ensures
        crate::storage::invoice_indexes_consistent(updated(m, inv)),
{
    let id = inv.id;
    let n = updated(m, inv);
    let l0 = m.lists;
    let l5 = n.lists;
    let all_m = crate::storage::all_invoice_ids(m);
    law_update_keeps_status_coherence(m, inv);
    law_update_leaves_other_ids(m, inv);
    lemma_update_indexes_record(m, inv);
    // Every other record found through the buckets stays reachable.
    let all_n = crate::storage::all_invoice_ids(n);
    assert forall|k: int| 0 <= k < all_n.len() && n.invoices.contains_key(#[trigger] all_n[k])
        implies crate::storage::record_indexed(n, all_n[k]) by {
        let x = all_n[k];
        if x != id {
            let r = n.invoices[x];
            assert(r == m.invoices[x]);
            assert(all_n.contains(x));
            lemma_all_invoice_ids_contains(n, x);
            let s = choose|s: InvoiceStatus| #[trigger] list_of(n.lists, status_key(s)).contains(x);
            assert(list_of(l0, status_key(s)).contains(x) == list_of(l5, status_key(s)).contains(x));
            lemma_all_invoice_ids_contains(m, x);
            let j2 = choose|j2: int| 0 <= j2 < all_m.len() && all_m[j2] == x;
            assert(m.invoices.contains_key(all_m[j2]));
            assert(crate::storage::record_indexed(m, x));
            assert(list_of(l0, crate::storage::business_key(r.business)).contains(x));
            assert(list_of(l5, crate::storage::business_key(r.business)).contains(x));
            assert(list_of(l0, category_key(r.category)).contains(x));
            assert(list_of(l5, category_key(r.category)).contains(x));
            assert forall|i: int| 0 <= i < r.tags.len() implies #[trigger] list_of(l5, tag_key(r.tags[i]@)).contains(x) by {
                assert(list_of(l0, tag_key(r.tags[i]@)).contains(x));
            }
            match r.metadata_customer_name {
                Some(c) => {
                    assert(list_of(l0, crate::storage::customer_key(c@)).contains(x));
                    assert(list_of(l5, crate::storage::customer_key(c@)).contains(x));
                },
                None => {},
            }
            match r.metadata_tax_id {
                Some(t) => {
                    assert(list_of(l0, crate::storage::tax_id_key(t@)).contains(x));
                    assert(list_of(l5, crate::storage::tax_id_key(t@)).contains(x));
                },
                None => {},
            }
        }
    }
}

/// `inv` names the index key `k`: its business, status, customer name, tax
/// identifier, category or one of its tags has `k` as its key.
pub open spec fn names_key(inv: InvoiceView, k: IndexKeyView) -> bool {
    ||| k == crate::storage::business_key(inv.business)
    ||| k == status_key(inv.status)
    ||| (inv.metadata_customer_name matches Some(c) && k == crate::storage::customer_key(c@))
    ||| (inv.metadata_tax_id matches Some(t) && k == crate::storage::tax_id_key(t@))
    ||| k == category_key(inv.category)
    ||| exists|i: int| 0 <= i < inv.tags.len() && k == #[trigger] tag_key(inv.tags[i]@)
}

/// No list of `l` holds `id`.
pub open spec fn fresh_in(l: Map<IndexKeyView, Seq<BytesN32>>, id: BytesN32) -> bool {
    forall|k: IndexKeyView| !(#[trigger] list_of(l, k)).contains(id)
}

/// Each list of `x` is the same list of `l`, or, under a key that `inv`
/// names, that list with `id` appended.
pub open spec fn near(x: Map<IndexKeyView, Seq<BytesN32>>, l: Map<IndexKeyView, Seq<BytesN32>>, inv: InvoiceView, id: BytesN32) -> bool {
    forall|k: IndexKeyView| #[trigger] list_of(x, k) == list_of(l, k)
        || (names_key(inv, k) && list_of(x, k) == list_of(l, k).push(id))
}

proof fn lemma_with_id_near(x: Map<IndexKeyView, Seq<BytesN32>>, l: Map<IndexKeyView, Seq<BytesN32>>, inv: InvoiceView,
    id: BytesN32, k0: IndexKeyView)
    requires
        near(x, l, inv, id),
        fresh_in(l, id),
        names_key(inv, k0),
    ensures
        near(with_id(x, k0, id), l, inv, id),
{
    let y = with_id(x, k0, id);
    assert forall|k: IndexKeyView| #[trigger] list_of(y, k) == list_of(l, k)
        || (names_key(inv, k) && list_of(y, k) == list_of(l, k).push(id)) by {
        assert(list_of(x, k) == list_of(l, k) || (names_key(inv, k) && list_of(x, k) == list_of(l, k).push(id)));
        if k == k0 && !list_of(x, k0).contains(id) {
            if list_of(x, k) == list_of(l, k).push(id) {
                assert(list_of(x, k)[list_of(l, k).len() as int] == id);
            }
        }
    }
}

proof fn lemma_with_tags_near(x: Map<IndexKeyView, Seq<BytesN32>>, l: Map<IndexKeyView, Seq<BytesN32>>, inv: InvoiceView,
    id: BytesN32, tags: Seq<String>)
    requires
        near(x, l, inv, id),
        fresh_in(l, id),
        tags.len() <= inv.tags.len(),
        forall|i: int| 0 <= i < tags.len() ==> tags[i] == inv.tags[i],
    ensures
        near(with_id_in_tags(x, tags, id), l, inv, id),
    decreases tags.len(),
{
    if tags.len() > 0 {
        let t = tags.drop_last();
        lemma_with_tags_near(x, l, inv, id, t);
        let i = tags.len() - 1;
        assert(tag_key(inv.tags[i]@) == tag_key(tags.last()@));
        assert(names_key(inv, tag_key(tags.last()@)));
        lemma_with_id_near(with_id_in_tags(x, t, id), l, inv, id, tag_key(tags.last()@));
    }
}

proof fn lemma_without_first_near(x: Map<IndexKeyView, Seq<BytesN32>>, l: Map<IndexKeyView, Seq<BytesN32>>, inv: InvoiceView,
    id: BytesN32, k0: IndexKeyView)
    requires
        near(x, l, inv, id),
        fresh_in(l, id),
    ensures
        near(without_first(x, k0, id), l, inv, id),
        list_of(without_first(x, k0, id), k0) == list_of(l, k0),
        forall|k: IndexKeyView| list_of(x, k) == list_of(l, k) ==> #[trigger] list_of(without_first(x, k0, id), k) == list_of(l, k),
{
    let s = list_of(x, k0);
    let b = list_of(l, k0);
    assert(list_of(x, k0) == b || list_of(x, k0) == b.push(id));
    assert(!b.contains(id));
    s.index_of_first_ensures(id);
    if s == b.push(id) {
        assert(s[b.len() as int] == id);
        let i = s.index_of_first(id)->0;
        assert(i == b.len()) by {
            if i < b.len() {
                assert(b[i] == id);
            }
        }
        assert(s.remove(i) =~= b);
    } else {
        assert(s.index_of_first(id) is None);
    }
    let y = without_first(x, k0, id);
    assert forall|k: IndexKeyView| #[trigger] list_of(y, k) == list_of(l, k)
        || (names_key(inv, k) && list_of(y, k) == list_of(l, k).push(id)) by {
        assert(list_of(x, k) == list_of(l, k) || (names_key(inv, k) && list_of(x, k) == list_of(l, k).push(id)));
    }
}

proof fn lemma_without_any_near(x: Map<IndexKeyView, Seq<BytesN32>>, l: Map<IndexKeyView, Seq<BytesN32>>, inv: InvoiceView,
    id: BytesN32, k0: IndexKeyView)
    requires
        near(x, l, inv, id),
        fresh_in(l, id),
    ensures
        near(without_any(x, k0, id), l, inv, id),
        list_of(without_any(x, k0, id), k0) == list_of(l, k0),
        forall|k: IndexKeyView| list_of(x, k) == list_of(l, k) ==> #[trigger] list_of(without_any(x, k0, id), k) == list_of(l, k),
{
    let s = list_of(x, k0);
    let b = list_of(l, k0);
    let p = crate::storage::other_than(id);
    assert(list_of(x, k0) == b || list_of(x, k0) == b.push(id));
    assert(!b.contains(id));
    assert forall|i: int| 0 <= i < b.len() implies p(#[trigger] b[i]) by {
        assert(b.contains(b[i]));
    }
    lemma_filter_keeps_all(b, p);
    b.lemma_filter_push(id, p);
    let y = without_any(x, k0, id);
    assert(list_of(y, k0) == b);
    assert forall|k: IndexKeyView| #[trigger] list_of(y, k) == list_of(l, k)
        || (names_key(inv, k) && list_of(y, k) == list_of(l, k).push(id)) by {
        assert(list_of(x, k) == list_of(l, k) || (names_key(inv, k) && list_of(x, k) == list_of(l, k).push(id)));
    }
}

proof fn lemma_without_tags_near(x: Map<IndexKeyView, Seq<BytesN32>>, l: Map<IndexKeyView, Seq<BytesN32>>, inv: InvoiceView,
    id: BytesN32, tags: Seq<String>)
    requires
        near(x, l, inv, id),
        fresh_in(l, id),
    ensures
        near(without_id_in_tags(x, tags, id), l, inv, id),
        forall|i: int| 0 <= i < tags.len() ==> #[trigger] list_of(without_id_in_tags(x, tags, id), tag_key(tags[i]@))
            == list_of(l, tag_key(tags[i]@)),
        forall|k: IndexKeyView| list_of(x, k) == list_of(l, k) ==> #[trigger] list_of(without_id_in_tags(x, tags, id), k) == list_of(l, k),
    decreases tags.len(),
{
    if tags.len() > 0 {
        let t = tags.drop_last();
        let y = without_id_in_tags(x, t, id);
        lemma_without_tags_near(x, l, inv, id, t);
        lemma_without_any_near(y, l, inv, id, tag_key(tags.last()@));
        assert forall|i: int| 0 <= i < tags.len() implies #[trigger] list_of(without_id_in_tags(x, tags, id), tag_key(tags[i]@))
            == list_of(l, tag_key(tags[i]@)) by {
            if i < t.len() {
                assert(t[i] == tags[i]);
                assert(list_of(y, tag_key(t[i]@)) == list_of(l, tag_key(t[i]@)));
            }
        }
    }
}

/// Storing an invoice under an ID that no list holds, then deleting it,
/// gives back every list and every record as they were.
pub proof fn law_store_then_delete_restores(m: LedgerModel, inv: InvoiceView)
    requires
        !m.invoices.contains_key(inv.id),
        fresh_in(m.lists, inv.id),
    ensures
        forall|k: IndexKeyView| #[trigger] list_of(deleted(stored(m, inv), inv.id).lists, k) == list_of(m.lists, k),
        deleted(stored(m, inv), inv.id).invoices == m.invoices,
{
    let id = inv.id;
    let l = m.lists;
    // Storing appends `id` to each list that `inv` names.
    let s1 = with_id(l, crate::storage::business_key(inv.business), id);
    let s2 = with_id(s1, status_key(inv.status), id);
    let s3 = match inv.metadata_customer_name {
        Some(c) => with_id(s2, crate::storage::customer_key(c@), id),
        None => s2,
    };
    let s4 = match inv.metadata_tax_id {
        Some(t) => with_id(s3, crate::storage::tax_id_key(t@), id),
        None => s3,
    };
    let s5 = with_id(s4, category_key(inv.category), id);
    let s6 = with_id_in_tags(s5, inv.tags, id);
    assert(near(l, l, inv, id));
    lemma_with_id_near(l, l, inv, id, crate::storage::business_key(inv.business));
    lemma_with_id_near(s1, l, inv, id, status_key(inv.status));
    match inv.metadata_customer_name {
        Some(c) => lemma_with_id_near(s2, l, inv, id, crate::storage::customer_key(c@)),
        None => {},
    }
    match inv.metadata_tax_id {
        Some(t) => lemma_with_id_near(s3, l, inv, id, crate::storage::tax_id_key(t@)),
        None => {},
    }
    lemma_with_id_near(s4, l, inv, id, category_key(inv.category));
    lemma_with_tags_near(s5, l, inv, id, inv.tags);
    assert(store_lists(l, inv) == s6);
    // Deleting removes it from each of them again.
    let st = stored(m, inv);
    assert(st.invoices.contains_key(id) && st.invoices[id] == inv);
    let d1 = without_first(s6, status_key(inv.status), id);
    let d2 = without_first(d1, crate::storage::business_key(inv.business), id);
    let d3 = match inv.metadata_customer_name {
        Some(c) => without_any(d2, crate::storage::customer_key(c@), id),
        None => d2,
    };
    let d4 = match inv.metadata_tax_id {
        Some(t) => without_any(d3, crate::storage::tax_id_key(t@), id),
        None => d3,
    };
    let d5 = without_any(d4, category_key(inv.category), id);
    let d6 = without_id_in_tags(d5, inv.tags, id);
    assert(deleted(st, id).lists == d6);
    lemma_without_first_near(s6, l, inv, id, status_key(inv.status));
    lemma_without_first_near(d1, l, inv, id, crate::storage::business_key(inv.business));
    match inv.metadata_customer_name {
        Some(c) => lemma_without_any_near(d2, l, inv, id, crate::storage::customer_key(c@)),
        None => {},
    }
    match inv.metadata_tax_id {
        Some(t) => lemma_without_any_near(d3, l, inv, id, crate::storage::tax_id_key(t@)),
        None => {},
    }
    lemma_without_any_near(d4, l, inv, id, category_key(inv.category));
    lemma_without_tags_near(d5, l, inv, id, inv.tags);
    assert forall|k: IndexKeyView| #[trigger] list_of(d6, k) == list_of(l, k) by {
        assert(list_of(d6, k) == list_of(l, k) || (names_key(inv, k) && list_of(d6, k) == list_of(l, k).push(id)));
        if names_key(inv, k) {
            if k == status_key(inv.status) {
                assert(list_of(d1, k) == list_of(l, k));
            } else if k == crate::storage::business_key(inv.business) {
                assert(list_of(d2, k) == list_of(l, k));
            } else if inv.metadata_customer_name is Some && k == crate::storage::customer_key(inv.metadata_customer_name->0@) {
                assert(list_of(d3, k) == list_of(l, k));
            } else if inv.metadata_tax_id is Some && k == crate::storage::tax_id_key(inv.metadata_tax_id->0@) {
                assert(list_of(d4, k) == list_of(l, k));
            } else if k == category_key(inv.category) {
                assert(list_of(d5, k) == list_of(l, k));
            } else {
                let i = choose|i: int| 0 <= i < inv.tags.len() && k == #[trigger] tag_key(inv.tags[i]@);
                assert(list_of(d6, tag_key(inv.tags[i]@)) == list_of(l, tag_key(inv.tags[i]@)));
            }
        }
    }
    assert(deleted(st, id).invoices =~= m.invoices);
}

/// The category index lists exactly the records of each category.
pub open spec fn category_index_matches_records(m: LedgerModel) -> bool {
    forall|c: InvoiceCategory, x: BytesN32| #[trigger] list_of(m.lists, category_key(c)).contains(x)
        <==> (m.invoices.contains_key(x) && m.invoices[x].category == c)
}

/// Where the records and the status buckets agree and the category index
/// lists exactly the records of each category, reading a category from its
/// index and scanning the records for it find the same invoices.
pub proof fn law_category_index_agrees_with_scan(m: LedgerModel, c: InvoiceCategory, x: BytesN32)
    requires
        status_coherent(m),
        category_index_matches_records(m),
    ensures
        list_of(m.lists, category_key(c)).contains(x)
            <==> crate::storage::all_invoice_ids(m).filter(crate::storage::in_category(m, c)).contains(x),
{
    let all = crate::storage::all_invoice_ids(m);
    let p = crate::storage::in_category(m, c);
    lemma_all_invoice_ids_contains(m, x);
    if list_of(m.lists, category_key(c)).contains(x) {
        assert(list_of(m.lists, status_key(m.invoices[x].status)).contains(x));
        let j = choose|j: int| 0 <= j < all.len() && all[j] == x;
        all.lemma_filter_contains(p, j);
    }
    if all.filter(p).contains(x) {
        let i = choose|i: int| 0 <= i < all.filter(p).len() && all.filter(p)[i] == x;
        all.lemma_filter_pred(p, i);
    }
}

/// An empty ledger satisfies both agreements.
pub proof fn law_empty_ledger_agrees(m: LedgerModel)
    requires
        m.invoices == Map::<BytesN32, InvoiceView>::empty(),
        m.lists == Map::<IndexKeyView, Seq<BytesN32>>::empty(),
    ensures
        status_coherent(m),
        category_index_matches_records(m),
{
}

/// `k` is not the key of any category bucket.
pub open spec fn not_category_key(k: IndexKeyView) -> bool {
    forall|c: InvoiceCategory| #[trigger] category_key(c) != k
}

proof fn lemma_status_key_not_category(s: InvoiceStatus)
    ensures
        not_category_key(status_key(s)),
{
    assert forall|c: InvoiceCategory| #[trigger] category_key(c) != status_key(s) by {
        lemma_category_key_not_status(c);
    }
}

proof fn lemma_tags_keep_category_lists(l: Map<IndexKeyView, Seq<BytesN32>>, tags: Seq<String>, id: BytesN32, c: InvoiceCategory)
    ensures
        list_of(with_id_in_tags(l, tags, id), category_key(c)) == list_of(l, category_key(c)),
        list_of(without_id_in_tags(l, tags, id), category_key(c)) == list_of(l, category_key(c)),
{
    lemma_tags_touch_only_tag_keys(l, tags, id, category_key(c));
}

/// Storing an invoice under a fresh ID keeps the category index listing
/// exactly the records of each category.
pub proof fn law_store_keeps_category_index(m: LedgerModel, inv: InvoiceView)
    requires
        category_index_matches_records(m),
        !m.invoices.contains_key(inv.id),
    ensures
        category_index_matches_records(stored(m, inv)),
{
    let id = inv.id;
    let l = m.lists;
    let s1 = with_id(l, crate::storage::business_key(inv.business), id);
    let s2 = with_id(s1, status_key(inv.status), id);
    let s3 = match inv.metadata_customer_name {
        Some(n) => with_id(s2, crate::storage::customer_key(n@), id),
        None => s2,
    };
    let s4 = match inv.metadata_tax_id {
        Some(t) => with_id(s3, crate::storage::tax_id_key(t@), id),
        None => s3,
    };
    let s5 = with_id(s4, category_key(inv.category), id);
    let n = stored(m, inv);
    assert(n.lists == with_id_in_tags(s5, inv.tags, id));
    lemma_status_key_not_category(inv.status);
    lemma_with_id_facts(s4, category_key(inv.category), id);
    assert forall|c: InvoiceCategory, x: BytesN32| #[trigger] list_of(n.lists, category_key(c)).contains(x)
        <==> (n.invoices.contains_key(x) && n.invoices[x].category == c) by {
        lemma_tags_keep_category_lists(s5, inv.tags, id, c);
        law_category_key_injective(c, inv.category);
        assert(list_of(s4, category_key(c)) == list_of(l, category_key(c)));
        if c != inv.category {
            assert(list_of(s5, category_key(c)) == list_of(s4, category_key(c)));
        }
    }
}

/// Updating an existing invoice keeps the category index listing exactly
/// the records of each category: on a category change the invoice moves
/// from the old category's list to the new one's.
pub proof fn law_update_keeps_category_index(m: LedgerModel, inv: InvoiceView)
    requires
        category_index_matches_records(m),
        m.invoices.contains_key(inv.id),
    ensures
        category_index_matches_records(updated(m, inv)),
{
    let id = inv.id;
    let old = m.invoices[id];
    let n = updated(m, inv);
    let l0 = m.lists;
    let l1 = if old.status != inv.status {
        with_id(without_first(l0, status_key(old.status), id), status_key(inv.status), id)
    } else {
        l0
    };
    let a2 = match old.metadata_customer_name {
        Some(c) => without_any(l1, crate::storage::customer_key(c@), id),
        None => l1,
    };
    let b2 = match inv.metadata_customer_name {
        Some(c) => with_id(a2, crate::storage::customer_key(c@), id),
        None => a2,
    };
    let l2 = if crate::types::opt_string_view(old.metadata_customer_name)
        != crate::types::opt_string_view(inv.metadata_customer_name) { b2 } else { l1 };
    let a3 = match old.metadata_tax_id {
        Some(t) => without_any(l2, crate::storage::tax_id_key(t@), id),
        None => l2,
    };
    let b3 = match inv.metadata_tax_id {
        Some(t) => with_id(a3, crate::storage::tax_id_key(t@), id),
        None => a3,
    };
    let l3 = if crate::types::opt_string_view(old.metadata_tax_id)
        != crate::types::opt_string_view(inv.metadata_tax_id) { b3 } else { l2 };
    let a4 = without_any(l3, category_key(old.category), id);
    let l4 = if old.category != inv.category {
        with_id(a4, category_key(inv.category), id)
    } else {
        l3
    };
    let a5 = without_id_in_tags(l4, old.tags, id);
    let l5 = if crate::types::strings_view(old.tags) != crate::types::strings_view(inv.tags) {
        with_id_in_tags(a5, inv.tags, id)
    } else {
        l4
    };
    assert(n.lists == l5);
    lemma_status_key_not_category(old.status);
    lemma_status_key_not_category(inv.status);
    lemma_without_any_same_others(l3, category_key(old.category), id);
    lemma_with_id_facts(a4, category_key(inv.category), id);
    assert forall|c: InvoiceCategory, x: BytesN32| #[trigger] list_of(n.lists, category_key(c)).contains(x)
        <==> (n.invoices.contains_key(x) && n.invoices[x].category == c) by {
        let k = category_key(c);
        lemma_tags_keep_category_lists(l4, old.tags, id, c);
        lemma_tags_keep_category_lists(a5, inv.tags, id, c);
        law_category_key_injective(c, inv.category);
        law_category_key_injective(c, old.category);
        law_category_key_injective(old.category, inv.category);
        assert(list_of(l3, k) == list_of(l0, k));
        if old.category != inv.category {
            if x != id {
                assert(list_of(a4, k).contains(x) == list_of(l3, k).contains(x));
            }
        }
    }
}

/// Deleting an invoice keeps the category index listing exactly the
/// records of each category.
pub proof fn law_delete_keeps_category_index(m: LedgerModel, id: BytesN32)
    requires
        category_index_matches_records(m),
    ensures
        category_index_matches_records(deleted(m, id)),
{
    let n = deleted(m, id);
    if !m.invoices.contains_key(id) {
        assert(n.invoices =~= m.invoices);
    } else {
        let old = m.invoices[id];
        let l = m.lists;
        let d1 = without_first(l, status_key(old.status), id);
        let d2 = without_first(d1, crate::storage::business_key(old.business), id);
        let d3 = match old.metadata_customer_name {
            Some(c) => without_any(d2, crate::storage::customer_key(c@), id),
            None => d2,
        };
        let d4 = match old.metadata_tax_id {
            Some(t) => without_any(d3, crate::storage::tax_id_key(t@), id),
            None => d3,
        };
        let d5 = without_any(d4, category_key(old.category), id);
        assert(n.lists == without_id_in_tags(d5, old.tags, id));
        lemma_status_key_not_category(old.status);
        lemma_without_any_same_others(d4, category_key(old.category), id);
        assert forall|c: InvoiceCategory, x: BytesN32| #[trigger] list_of(n.lists, category_key(c)).contains(x)
            <==> (n.invoices.contains_key(x) && n.invoices[x].category == c) by {
            let k = category_key(c);
            lemma_tags_keep_category_lists(d5, old.tags, id, c);
            law_category_key_injective(c, old.category);
            assert(list_of(d4, k) == list_of(l, k));
            if x != id {
                assert(list_of(d5, k).contains(x) == list_of(d4, k).contains(x));
            }
        }
    }
}

/// Each list of `x` is the same list of `l`, or, under a key that `inv`
/// names and whose list in `l` lacks `id`, that list with `id` appended.
pub open spec fn gained(x: Map<IndexKeyView, Seq<BytesN32>>, l: Map<IndexKeyView, Seq<BytesN32>>, inv: InvoiceView, id: BytesN32) -> bool {
    forall|k: IndexKeyView| #[trigger] list_of(x, k) == list_of(l, k)
        || (names_key(inv, k) && !list_of(l, k).contains(id) && list_of(x, k) == list_of(l, k).push(id))
}

proof fn lemma_with_id_gained(x: Map<IndexKeyView, Seq<BytesN32>>, l: Map<IndexKeyView, Seq<BytesN32>>, inv: InvoiceView,
    id: BytesN32, k0: IndexKeyView)
    requires
        gained(x, l, inv, id),
        names_key(inv, k0),
    ensures
        gained(with_id(x, k0, id), l, inv, id),
{
    let y = with_id(x, k0, id);
    assert forall|k: IndexKeyView| #[trigger] list_of(y, k) == list_of(l, k)
        || (names_key(inv, k) && !list_of(l, k).contains(id) && list_of(y, k) == list_of(l, k).push(id)) by {
        assert(list_of(x, k) == list_of(l, k)
            || (names_key(inv, k) && !list_of(l, k).contains(id) && list_of(x, k) == list_of(l, k).push(id)));
        if k == k0 && !list_of(x, k0).contains(id) {
            if list_of(x, k) == list_of(l, k).push(id) {
                assert(list_of(x, k)[list_of(l, k).len() as int] == id);
            }
        }
    }
}

proof fn lemma_with_tags_gained(x: Map<IndexKeyView, Seq<BytesN32>>, l: Map<IndexKeyView, Seq<BytesN32>>, inv: InvoiceView,
    id: BytesN32, tags: Seq<String>)
    requires
        gained(x, l, inv, id),
        tags.len() <= inv.tags.len(),
        forall|i: int| 0 <= i < tags.len() ==> tags[i] == inv.tags[i],
    ensures
        gained(with_id_in_tags(x, tags, id), l, inv, id),
    decreases tags.len(),
{
    if tags.len() > 0 {
        let t = tags.drop_last();
        lemma_with_tags_gained(x, l, inv, id, t);
        let i = tags.len() - 1;
        assert(tag_key(inv.tags[i]@) == tag_key(tags.last()@));
        assert(names_key(inv, tag_key(tags.last()@)));
        lemma_with_id_gained(with_id_in_tags(x, t, id), l, inv, id, tag_key(tags.last()@));
    }
}

/// Storing an invoice appends its ID to the end of each list that it
/// names and that lacks the ID, and changes no other list.
pub proof fn law_store_lists_direct(l: Map<IndexKeyView, Seq<BytesN32>>, inv: InvoiceView, k: IndexKeyView)
    ensures
        list_of(store_lists(l, inv), k) == if names_key(inv, k) && !list_of(l, k).contains(inv.id) {
            list_of(l, k).push(inv.id)
        } else {
            list_of(l, k)
        },
{
    let id = inv.id;
    let s1 = with_id(l, crate::storage::business_key(inv.business), id);
    let s2 = with_id(s1, status_key(inv.status), id);
    let s3 = match inv.metadata_customer_name {
        Some(c) => with_id(s2, crate::storage::customer_key(c@), id),
        None => s2,
    };
    let s4 = match inv.metadata_tax_id {
        Some(t) => with_id(s3, crate::storage::tax_id_key(t@), id),
        None => s3,
    };
    let s5 = with_id(s4, category_key(inv.category), id);
    let s6 = with_id_in_tags(s5, inv.tags, id);
    assert(gained(l, l, inv, id));
    lemma_with_id_gained(l, l, inv, id, crate::storage::business_key(inv.business));
    lemma_with_id_gained(s1, l, inv, id, status_key(inv.status));
    match inv.metadata_customer_name {
        Some(c) => lemma_with_id_gained(s2, l, inv, id, crate::storage::customer_key(c@)),
        None => {},
    }
    match inv.metadata_tax_id {
        Some(t) => lemma_with_id_gained(s3, l, inv, id, crate::storage::tax_id_key(t@)),
        None => {},
    }
    lemma_with_id_gained(s4, l, inv, id, category_key(inv.category));
    lemma_with_tags_gained(s5, l, inv, id, inv.tags);
    assert(store_lists(l, inv) == s6);
    lemma_store_grows(l, inv);
    assert(list_of(s6, k) == list_of(l, k)
        || (names_key(inv, k) && !list_of(l, k).contains(id) && list_of(s6, k) == list_of(l, k).push(id)));
    if names_key(inv, k) && !list_of(l, k).contains(id) {
        if k == crate::storage::business_key(inv.business) {
        } else if k == status_key(inv.status) {
        } else if inv.metadata_customer_name is Some && k == crate::storage::customer_key(inv.metadata_customer_name->0@) {
        } else if inv.metadata_tax_id is Some && k == crate::storage::tax_id_key(inv.metadata_tax_id->0@) {
        } else if k == category_key(inv.category) {
        } else {
            let i = choose|i: int| 0 <= i < inv.tags.len() && k == #[trigger] tag_key(inv.tags[i]@);
            assert(list_of(s6, tag_key(inv.tags[i]@)).contains(id));
        }
        assert(list_of(s6, k).contains(id));
    }
}

/// `s` without the first occurrence of `id`, if any.
pub open spec fn first_removed(s: Seq<BytesN32>, id: BytesN32) -> Seq<BytesN32> {
    match s.index_of_first(id) {
        Some(i) => s.remove(i),
        None => s,
    }
}

/// What deleting the record `old` stored under `id` leaves under `k`: the
/// status and business lists lose the first occurrence of `id`, the other
/// lists that `old` names lose every occurrence, and every other list is
/// unchanged; the remaining entries keep their order.
pub open spec fn delete_target(l: Map<IndexKeyView, Seq<BytesN32>>, old: InvoiceView, id: BytesN32, k: IndexKeyView) -> Seq<BytesN32> {
    if k == status_key(old.status) || k == crate::storage::business_key(old.business) {
        first_removed(list_of(l, k), id)
    } else if names_key(old, k) {
        list_of(l, k).filter(crate::storage::other_than(id))
    } else {
        list_of(l, k)
    }
}

/// Each list of `x` is the same list of `l` or already what the deletion leaves.
pub open spec fn partly_deleted(x: Map<IndexKeyView, Seq<BytesN32>>, l: Map<IndexKeyView, Seq<BytesN32>>, old: InvoiceView, id: BytesN32) -> bool {
    forall|k: IndexKeyView| #[trigger] list_of(x, k) == list_of(l, k) || list_of(x, k) == delete_target(l, old, id, k)
}

proof fn lemma_without_first_partly(x: Map<IndexKeyView, Seq<BytesN32>>, l: Map<IndexKeyView, Seq<BytesN32>>, old: InvoiceView,
    id: BytesN32, k0: IndexKeyView)
    requires
        partly_deleted(x, l, old, id),
        k0 == status_key(old.status) || k0 == crate::storage::business_key(old.business),
        list_of(x, k0) == list_of(l, k0),
    ensures
        partly_deleted(without_first(x, k0, id), l, old, id),
        list_of(without_first(x, k0, id), k0) == delete_target(l, old, id, k0),
        forall|k: IndexKeyView| list_of(x, k) == delete_target(l, old, id, k) && k != k0
            ==> #[trigger] list_of(without_first(x, k0, id), k) == delete_target(l, old, id, k),
{
    let y = without_first(x, k0, id);
    assert forall|k: IndexKeyView| #[trigger] list_of(y, k) == list_of(l, k) || list_of(y, k) == delete_target(l, old, id, k) by {
        assert(list_of(x, k) == list_of(l, k) || list_of(x, k) == delete_target(l, old, id, k));
    }
}

proof fn lemma_without_any_partly(x: Map<IndexKeyView, Seq<BytesN32>>, l: Map<IndexKeyView, Seq<BytesN32>>, old: InvoiceView,
    id: BytesN32, k0: IndexKeyView)
    requires
        partly_deleted(x, l, old, id),
        names_key(old, k0),
        k0 != status_key(old.status),
        k0 != crate::storage::business_key(old.business),
    ensures
        partly_deleted(without_any(x, k0, id), l, old, id),
        list_of(without_any(x, k0, id), k0) == delete_target(l, old, id, k0),
        forall|k: IndexKeyView| list_of(x, k) == delete_target(l, old, id, k)
            ==> #[trigger] list_of(without_any(x, k0, id), k) == delete_target(l, old, id, k),
{
    let p = crate::storage::other_than(id);
    let b = list_of(l, k0);
    lemma_filter_twice(b, p, p, p);
    let y = without_any(x, k0, id);
    assert(list_of(x, k0) == b || list_of(x, k0) == b.filter(p));
    assert forall|k: IndexKeyView| #[trigger] list_of(y, k) == list_of(l, k) || list_of(y, k) == delete_target(l, old, id, k) by {
        assert(list_of(x, k) == list_of(l, k) || list_of(x, k) == delete_target(l, old, id, k));
    }
}

proof fn lemma_without_tags_partly(x: Map<IndexKeyView, Seq<BytesN32>>, l: Map<IndexKeyView, Seq<BytesN32>>, old: InvoiceView,
    id: BytesN32, tags: Seq<String>)
    requires
        partly_deleted(x, l, old, id),
        tags.len() <= old.tags.len(),
        forall|i: int| 0 <= i < tags.len() ==> tags[i] == old.tags[i],
    ensures
        partly_deleted(without_id_in_tags(x, tags, id), l, old, id),
        forall|i: int| 0 <= i < tags.len() ==> #[trigger] list_of(without_id_in_tags(x, tags, id), tag_key(tags[i]@))
            == delete_target(l, old, id, tag_key(tags[i]@)),
        forall|k: IndexKeyView| list_of(x, k) == delete_target(l, old, id, k)
            ==> #[trigger] list_of(without_id_in_tags(x, tags, id), k) == delete_target(l, old, id, k),
    decreases tags.len(),
{
    if tags.len() > 0 {
        let t = tags.drop_last();
        let y = without_id_in_tags(x, t, id);
        let k0 = tag_key(tags.last()@);
        lemma_without_tags_partly(x, l, old, id, t);
        let i0 = tags.len() - 1;
        assert(k0 == tag_key(old.tags[i0]@));
        assert(names_key(old, k0));
        lemma_without_any_partly(y, l, old, id, k0);
        assert forall|i: int| 0 <= i < tags.len() implies #[trigger] list_of(without_id_in_tags(x, tags, id), tag_key(tags[i]@))
            == delete_target(l, old, id, tag_key(tags[i]@)) by {
            if i < t.len() {
                assert(t[i] == tags[i]);
                assert(list_of(y, tag_key(t[i]@)) == delete_target(l, old, id, tag_key(t[i]@)));
            }
        }
    }
}

/// Deleting the record `old` stored under `id` removes the first occurrence
/// of `id` from its status and business lists and every occurrence from the
/// other lists it names, keeping the order of the remaining entries, and
/// changes no other list.
pub proof fn law_delete_lists_direct(l: Map<IndexKeyView, Seq<BytesN32>>, old: InvoiceView, id: BytesN32, k: IndexKeyView)
    ensures
        list_of(delete_lists(l, old, id), k) == delete_target(l, old, id, k),
{
    let sk = status_key(old.status);
    let bk = crate::storage::business_key(old.business);
    let d1 = without_first(l, sk, id);
    let d2 = without_first(d1, bk, id);
    let d3 = match old.metadata_customer_name {
        Some(c) => without_any(d2, crate::storage::customer_key(c@), id),
        None => d2,
    };
    let d4 = match old.metadata_tax_id {
        Some(t) => without_any(d3, crate::storage::tax_id_key(t@), id),
        None => d3,
    };
    let d5 = without_any(d4, category_key(old.category), id);
    let d6 = without_id_in_tags(d5, old.tags, id);
    assert(delete_lists(l, old, id) == d6);
    lemma_category_key_not_status(old.category);
    assert(partly_deleted(l, l, old, id));
    lemma_without_first_partly(l, l, old, id, sk);
    assert(list_of(d1, bk) == list_of(l, bk));
    lemma_without_first_partly(d1, l, old, id, bk);
    match old.metadata_customer_name {
        Some(c) => lemma_without_any_partly(d2, l, old, id, crate::storage::customer_key(c@)),
        None => {},
    }
    match old.metadata_tax_id {
        Some(t) => lemma_without_any_partly(d3, l, old, id, crate::storage::tax_id_key(t@)),
        None => {},
    }
    lemma_without_any_partly(d4, l, old, id, category_key(old.category));
    lemma_without_tags_partly(d5, l, old, id, old.tags);
    assert(list_of(d6, k) == list_of(l, k) || list_of(d6, k) == delete_target(l, old, id, k));
    if k == sk {
        assert(list_of(d1, k) == delete_target(l, old, id, k));
    } else if k == bk {
        assert(list_of(d2, k) == delete_target(l, old, id, k));
    } else if names_key(old, k) {
        if old.metadata_customer_name is Some && k == crate::storage::customer_key(old.metadata_customer_name->0@) {
            assert(list_of(d3, k) == delete_target(l, old, id, k));
        } else if old.metadata_tax_id is Some && k == crate::storage::tax_id_key(old.metadata_tax_id->0@) {
            assert(list_of(d4, k) == delete_target(l, old, id, k));
        } else if k == category_key(old.category) {
            assert(list_of(d5, k) == delete_target(l, old, id, k));
        } else {
            let i = choose|i: int| 0 <= i < old.tags.len() && k == #[trigger] tag_key(old.tags[i]@);
            assert(list_of(d6, tag_key(old.tags[i]@)) == delete_target(l, old, id, tag_key(old.tags[i]@)));
        }
    }
}

/// `inv` names `k` as one of the keys that rebuilding recomputes: its
/// customer name, tax identifier, category or one of its tags.
pub open spec fn reindexed_key(inv: InvoiceView, k: IndexKeyView) -> bool {
    ||| (inv.metadata_customer_name matches Some(c) && k == crate::storage::customer_key(c@))
    ||| (inv.metadata_tax_id matches Some(t) && k == crate::storage::tax_id_key(t@))
    ||| k == category_key(inv.category)
    ||| exists|i: int| 0 <= i < inv.tags.len() && k == #[trigger] tag_key(inv.tags[i]@)
}

/// Each list of `x` is the same list of `l`, or, under a key that
/// rebuilding recomputes for `inv` and whose list in `l` lacks `id`, that
/// list with `id` appended.
pub open spec fn regained(x: Map<IndexKeyView, Seq<BytesN32>>, l: Map<IndexKeyView, Seq<BytesN32>>, inv: InvoiceView, id: BytesN32) -> bool {
    forall|k: IndexKeyView| #[trigger] list_of(x, k) == list_of(l, k)
        || (reindexed_key(inv, k) && !list_of(l, k).contains(id) && list_of(x, k) == list_of(l, k).push(id))
}

proof fn lemma_with_id_regained(x: Map<IndexKeyView, Seq<BytesN32>>, l: Map<IndexKeyView, Seq<BytesN32>>, inv: InvoiceView,
    id: BytesN32, k0: IndexKeyView)
    requires
        regained(x, l, inv, id),
        reindexed_key(inv, k0),
    ensures
        regained(with_id(x, k0, id), l, inv, id),
{
    let y = with_id(x, k0, id);
    assert forall|k: IndexKeyView| #[trigger] list_of(y, k) == list_of(l, k)
        || (reindexed_key(inv, k) && !list_of(l, k).contains(id) && list_of(y, k) == list_of(l, k).push(id)) by {
        assert(list_of(x, k) == list_of(l, k)
            || (reindexed_key(inv, k) && !list_of(l, k).contains(id) && list_of(x, k) == list_of(l, k).push(id)));
        if k == k0 && !list_of(x, k0).contains(id) {
            if list_of(x, k) == list_of(l, k).push(id) {
                assert(list_of(x, k)[list_of(l, k).len() as int] == id);
            }
        }
    }
}

proof fn lemma_with_tags_regained(x: Map<IndexKeyView, Seq<BytesN32>>, l: Map<IndexKeyView, Seq<BytesN32>>, inv: InvoiceView,
    id: BytesN32, tags: Seq<String>)
    requires
        regained(x, l, inv, id),
        tags.len() <= inv.tags.len(),
        forall|i: int| 0 <= i < tags.len() ==> tags[i] == inv.tags[i],
    ensures
        regained(with_id_in_tags(x, tags, id), l, inv, id),
    decreases tags.len(),
{
    if tags.len() > 0 {
        let t = tags.drop_last();
        lemma_with_tags_regained(x, l, inv, id, t);
        let i = tags.len() - 1;
        assert(tag_key(inv.tags[i]@) == tag_key(tags.last()@));
        assert(reindexed_key(inv, tag_key(tags.last()@)));
        lemma_with_id_regained(with_id_in_tags(x, t, id), l, inv, id, tag_key(tags.last()@));
    }
}

/// Rebuilding the indexes of a record appends its ID to the end of each
/// customer name, tax identifier, category and tag list that it names and
/// that lacks the ID, and changes no other list.
pub proof fn law_reindex_lists_direct(l: Map<IndexKeyView, Seq<BytesN32>>, inv: InvoiceView, k: IndexKeyView)
    ensures
        list_of(crate::storage::reindex_lists(l, inv), k) == if reindexed_key(inv, k) && !list_of(l, k).contains(inv.id) {
            list_of(l, k).push(inv.id)
        } else {
            list_of(l, k)
        },
{
    let id = inv.id;
    let s1 = match inv.metadata_customer_name {
        Some(c) => with_id(l, crate::storage::customer_key(c@), id),
        None => l,
    };
    let s2 = match inv.metadata_tax_id {
        Some(t) => with_id(s1, crate::storage::tax_id_key(t@), id),
        None => s1,
    };
    let s3 = with_id_in_tags(s2, inv.tags, id);
    let s4 = with_id(s3, category_key(inv.category), id);
    assert(regained(l, l, inv, id));
    match inv.metadata_customer_name {
        Some(c) => lemma_with_id_regained(l, l, inv, id, crate::storage::customer_key(c@)),
        None => {},
    }
    match inv.metadata_tax_id {
        Some(t) => lemma_with_id_regained(s1, l, inv, id, crate::storage::tax_id_key(t@)),
        None => {},
    }
    lemma_with_tags_regained(s2, l, inv, id, inv.tags);
    lemma_with_id_regained(s3, l, inv, id, category_key(inv.category));
    assert(crate::storage::reindex_lists(l, inv) == s4);
    lemma_reindex_grows(l, inv);
    assert(list_of(s4, k) == list_of(l, k)
        || (reindexed_key(inv, k) && !list_of(l, k).contains(id) && list_of(s4, k) == list_of(l, k).push(id)));
    if reindexed_key(inv, k) && !list_of(l, k).contains(id) {
        if inv.metadata_customer_name is Some && k == crate::storage::customer_key(inv.metadata_customer_name->0@) {
        } else if inv.metadata_tax_id is Some && k == crate::storage::tax_id_key(inv.metadata_tax_id->0@) {
        } else if k == category_key(inv.category) {
        } else {
            let i = choose|i: int| 0 <= i < inv.tags.len() && k == #[trigger] tag_key(inv.tags[i]@);
            assert(list_of(s4, tag_key(inv.tags[i]@)).contains(id));
        }
        assert(list_of(s4, k).contains(id));
    }
}

/// A ledger reachable from the empty one by the storage operations: its
/// records and status buckets agree, its invoice indexes pass the audit, and
/// its category index lists exactly the records of each category.
pub open spec fn ledger_sound(m: LedgerModel) -> bool {
    &&& status_coherent(m)
    &&& crate::storage::invoice_indexes_consistent(m)
    &&& category_index_matches_records(m)
}

/// The empty ledger is sound.
pub proof fn law_empty_ledger_sound(m: LedgerModel)
    requires
        m.invoices == Map::<BytesN32, InvoiceView>::empty(),
        m.lists == Map::<IndexKeyView, Seq<BytesN32>>::empty(),
    ensures
        ledger_sound(m),
{
    law_empty_ledger_agrees(m);
}

/// Storing an invoice under a fresh ID keeps a ledger sound.
pub proof fn law_store_keeps_ledger_sound(m: LedgerModel, inv: InvoiceView)
    requires
        ledger_sound(m),
        !m.invoices.contains_key(inv.id),
    ensures
        ledger_sound(stored(m, inv)),
{
    law_store_keeps_status_coherence(m, inv);
    law_store_keeps_invoice_audit_clean(m, inv);
    law_store_keeps_category_index(m, inv);
}

/// Updating an existing invoice without changing its business keeps a
/// ledger sound.
pub proof fn law_update_keeps_ledger_sound(m: LedgerModel, inv: InvoiceView)
    requires
        ledger_sound(m),
        m.invoices.contains_key(inv.id),
        m.invoices[inv.id].business == inv.business,
    ensures
        ledger_sound(updated(m, inv)),
{
    law_update_keeps_status_coherence(m, inv);
    law_update_keeps_invoice_audit_clean(m, inv);
    law_update_keeps_category_index(m, inv);
}

/// Deleting an invoice keeps a ledger sound.
pub proof fn law_delete_keeps_ledger_sound(m: LedgerModel, id: BytesN32)
    requires
        ledger_sound(m),
    ensures
        ledger_sound(deleted(m, id)),
{
    law_delete_keeps_status_coherence(m, id);
    law_delete_keeps_invoice_audit_clean(m, id);
    law_delete_keeps_category_index(m, id);
}

/// On a sound ledger the invoice audit reports nothing, and reading a
/// category from its index and scanning the records for it find the same
/// invoices.
pub proof fn law_sound_ledger_audits_clean(m: LedgerModel, c: InvoiceCategory, x: BytesN32)
    requires
        ledger_sound(m),
    ensures
        crate::storage::invoice_indexes_consistent(m),
        list_of(m.lists, category_key(c)).contains(x)
            <==> crate::storage::all_invoice_ids(m).filter(crate::storage::in_category(m, c)).contains(x),
{
    law_category_index_agrees_with_scan(m, c, x);
}

/// The tag query returns the same IDs for any two lists of the same tags,
/// in whatever order, and each of them is held by every asked tag's list.
pub proof fn law_tag_query_order_free(m: LedgerModel, tags: Seq<String>, tags2: Seq<String>, x: BytesN32)
    requires
        tags.len() > 0,
        forall|i: int| 0 <= i < tags.len() ==> exists|j: int| 0 <= j < tags2.len() && #[trigger] tags[i]@ == #[trigger] tags2[j]@,
        forall|j: int| 0 <= j < tags2.len() ==> exists|i: int| 0 <= i < tags.len() && #[trigger] tags[i]@ == #[trigger] tags2[j]@,
    ensures
        crate::storage::ids_with_all_tags(m, tags).contains(x) == crate::storage::ids_with_all_tags(m, tags2).contains(x),
        crate::storage::ids_with_all_tags(m, tags).contains(x)
            ==> forall|i: int| 0 <= i < tags.len() ==> #[trigger] list_of(m.lists, tag_key(tags[i]@)).contains(x),
{
    law_tag_query_needs_every_tag(m, tags, x);
    law_tag_query_needs_every_tag(m, tags2, x);
    assert(tags2.len() > 0) by {
        let j = choose|j: int| 0 <= j < tags2.len() && tags[0]@ == tags2[j]@;
    }
    if forall|i: int| 0 <= i < tags.len() ==> #[trigger] list_of(m.lists, tag_key(tags[i]@)).contains(x) {
        assert forall|j: int| 0 <= j < tags2.len() implies #[trigger] list_of(m.lists, tag_key(tags2[j]@)).contains(x) by {
            let i = choose|i: int| 0 <= i < tags.len() && tags[i]@ == tags2[j]@;
            assert(list_of(m.lists, tag_key(tags[i]@)).contains(x));
        }
    }
    if forall|j: int| 0 <= j < tags2.len() ==> #[trigger] list_of(m.lists, tag_key(tags2[j]@)).contains(x) {
        assert forall|i: int| 0 <= i < tags.len() implies #[trigger] list_of(m.lists, tag_key(tags[i]@)).contains(x) by {
            let j = choose|j: int| 0 <= j < tags2.len() && tags[i]@ == tags2[j]@;
            assert(list_of(m.lists, tag_key(tags2[j]@)).contains(x));
        }
    }
}

/// The rating query returns exactly the IDs found through the status
/// buckets whose record carries an average rating above the threshold,
/// whatever the record's status.
pub proof fn law_rating_query_selects_rated_above(m: LedgerModel, threshold: u32, x: BytesN32)
    ensures
        crate::storage::all_invoice_ids(m).filter(crate::storage::rated_above(m, threshold)).contains(x) <==> {
            &&& crate::storage::all_invoice_ids(m).contains(x)
            &&& m.invoices.contains_key(x)
            &&& m.invoices[x].average_rating is Some
            &&& m.invoices[x].average_rating->0 > threshold
        },
{
    let all = crate::storage::all_invoice_ids(m);
    let p = crate::storage::rated_above(m, threshold);
    if all.filter(p).contains(x) {
        let i = choose|i: int| 0 <= i < all.filter(p).len() && all.filter(p)[i] == x;
        all.lemma_filter_pred(p, i);
        all.lemma_filter_contains_rev(p, x);
    }
    if all.contains(x) && m.invoices.contains_key(x) && m.invoices[x].average_rating is Some
        && m.invoices[x].average_rating->0 > threshold {
        let j = choose|j: int| 0 <= j < all.len() && all[j] == x;
        all.lemma_filter_contains(p, j);
    }
}

/// The bid `b` exists and is listed under its investor and under its invoice.
spec fn bid_listed(m: LedgerModel, b: BytesN32) -> bool {
    &&& m.bids.contains_key(b)
    &&& list_of(m.lists, crate::storage::bids_by_investor_key(m.bids[b].investor)).contains(b)
    &&& list_of(m.lists, crate::storage::bids_by_invoice_key(m.bids[b].invoice_id)).contains(b)
}

proof fn lemma_bids_messages_empty(m: LedgerModel, ids: Seq<BytesN32>)
    ensures
        crate::storage::bids_messages(m, ids).len() == 0 <==> forall|k: int| 0 <= k < ids.len() ==> bid_listed(m, #[trigger] ids[k]),
    decreases ids.len(),
{
    if ids.len() > 0 {
        let t = ids.drop_last();
        lemma_bids_messages_empty(m, t);
        if forall|k: int| 0 <= k < ids.len() ==> bid_listed(m, #[trigger] ids[k]) {
            assert forall|k: int| 0 <= k < t.len() implies bid_listed(m, #[trigger] t[k]) by {
                assert(t[k] == ids[k]);
            }
            assert(bid_listed(m, ids[ids.len() - 1]));
        }
        if crate::storage::bids_messages(m, ids).len() == 0 {
            assert forall|k: int| 0 <= k < ids.len() implies bid_listed(m, #[trigger] ids[k]) by {
                if k < t.len() {
                    assert(t[k] == ids[k]);
                }
            }
        }
    }
}

/// The bid audit reports nothing exactly when every bid of the global bid
/// list exists and is listed under its investor's and its invoice's bid
/// index; a bid missing from either index is reported.
pub proof fn law_bid_audit_requires_both_indexes(m: LedgerModel)
    ensures
        crate::storage::bid_audit_messages(m).len() == 0 <==> forall|k: int| 0 <= k < m.all_bids.len() ==> {
            let b = #[trigger] m.all_bids[k];
            &&& m.bids.contains_key(b)
            &&& list_of(m.lists, crate::storage::bids_by_investor_key(m.bids[b].investor)).contains(b)
            &&& list_of(m.lists, crate::storage::bids_by_invoice_key(m.bids[b].invoice_id)).contains(b)
        },
        crate::storage::bid_indexes_consistent(m) <==> forall|k: int| 0 <= k < m.all_bids.len() ==> {
            let b = #[trigger] m.all_bids[k];
            &&& m.bids.contains_key(b)
            &&& list_of(m.lists, crate::storage::bids_by_investor_key(m.bids[b].investor)).contains(b)
            &&& list_of(m.lists, crate::storage::bids_by_invoice_key(m.bids[b].invoice_id)).contains(b)
        },
{
    lemma_bids_messages_empty(m, m.all_bids);
}

proof fn lemma_active_messages_facts(m: LedgerModel, ids: Seq<BytesN32>)
    ensures
        crate::storage::active_messages(m, ids).len() == 0 ==> forall|k: int| 0 <= k < ids.len() ==>
            m.investments.contains_key(#[trigger] ids[k]) && m.investments[ids[k]].status == InvestmentStatus::Active,
        forall|k: int| 0 <= k < ids.len() && m.investments.contains_key(#[trigger] ids[k])
            && m.investments[ids[k]].status != InvestmentStatus::Active
            ==> crate::storage::active_messages(m, ids).contains("Terminal investment found in active index"@),
    decreases ids.len(),
{
    if ids.len() > 0 {
        let t = ids.drop_last();
        let a = crate::storage::active_messages(m, t);
        let e = crate::storage::active_entry_messages(m, ids.last());
        let msg = "Terminal investment found in active index"@;
        lemma_active_messages_facts(m, t);
        assert(crate::storage::active_messages(m, ids) == a + e);
        if (a + e).len() == 0 {
            assert forall|k: int| 0 <= k < ids.len() implies
                m.investments.contains_key(#[trigger] ids[k]) && m.investments[ids[k]].status == InvestmentStatus::Active by {
                if k < t.len() {
                    assert(t[k] == ids[k]);
                }
            }
        }
        assert forall|k: int| 0 <= k < ids.len() && m.investments.contains_key(#[trigger] ids[k])
            && m.investments[ids[k]].status != InvestmentStatus::Active implies (a + e).contains(msg) by {
            if k < t.len() {
                assert(t[k] == ids[k]);
                let i = choose|i: int| 0 <= i < a.len() && a[i] == msg;
                assert((a + e)[i] == msg);
            } else {
                assert(e == seq![msg]);
                assert((a + e)[a.len() as int] == msg);
            }
        }
    }
}

/// The investment audit reports nothing only if every entry of the active
/// investment index names an existing investment whose status is `Active`;
/// an entry naming an investment in any other status is reported as a
/// terminal investment.
pub proof fn law_investment_audit_requires_active_entries(m: LedgerModel)
    ensures
        crate::storage::investment_audit_messages(m).len() == 0 ==> forall|k: int| 0 <= k < m.active_investments.len() ==>
            m.investments.contains_key(#[trigger] m.active_investments[k])
                && m.investments[m.active_investments[k]].status == InvestmentStatus::Active,
        crate::storage::investment_indexes_consistent(m) ==> forall|k: int| 0 <= k < m.active_investments.len() ==>
            m.investments.contains_key(#[trigger] m.active_investments[k])
                && m.investments[m.active_investments[k]].status == InvestmentStatus::Active,
        forall|k: int| 0 <= k < m.active_investments.len() && m.investments.contains_key(#[trigger] m.active_investments[k])
            && m.investments[m.active_investments[k]].status != InvestmentStatus::Active
            ==> crate::storage::investment_audit_messages(m).contains("Terminal investment found in active index"@),
{
    let act = m.active_investments;
    let a = crate::storage::active_messages(m, act);
    let rest = crate::storage::investments_messages(m, crate::storage::append_new(Seq::empty(), act));
    lemma_active_messages_facts(m, act);
    assert(crate::storage::investment_audit_messages(m) == a + rest);
    assert forall|k: int| 0 <= k < act.len() && m.investments.contains_key(#[trigger] act[k])
        && m.investments[act[k]].status != InvestmentStatus::Active
        implies (a + rest).contains("Terminal investment found in active index"@) by {
        let i = choose|i: int| 0 <= i < a.len() && a[i] == "Terminal investment found in active index"@;
        assert((a + rest)[i] == a[i]);
    }
    if crate::storage::investment_indexes_consistent(m) {
        assert forall|k: int| 0 <= k < act.len() implies
            m.investments.contains_key(#[trigger] act[k]) && m.investments[act[k]].status == InvestmentStatus::Active by {
            assert(crate::storage::active_entry_sound(m, act[k]));
        }
    }
}

proof fn lemma_pruned_ids_removes_eligible(m: LedgerModel, ids: Seq<BytesN32>, older_than_secs: u64, now: u64)
    ensures
        forall|x: BytesN32| ids.contains(x) && m.invoices.contains_key(x) && prune_eligible(m.invoices[x], older_than_secs, now)
            ==> !(#[trigger] pruned_ids(m, ids, older_than_secs, now).invoices.contains_key(x)),
    decreases ids.len(),
{
    if ids.len() > 0 {
        let t = ids.drop_last();
        let last = ids.last();
        lemma_pruned_ids_removes_eligible(m, t, older_than_secs, now);
        lemma_pruned_ids(m, t, older_than_secs, now);
        let p = pruned_ids(m, t, older_than_secs, now);
        assert forall|x: BytesN32| ids.contains(x) && m.invoices.contains_key(x) && prune_eligible(m.invoices[x], older_than_secs, now)
            implies !(#[trigger] pruned_ids(m, ids, older_than_secs, now).invoices.contains_key(x)) by {
            let j = choose|j: int| 0 <= j < ids.len() && ids[j] == x;
            if j < t.len() {
                assert(t[j] == x);
                assert(!p.invoices.contains_key(x));
            } else {
                assert(x == last);
                if p.invoices.contains_key(x) {
                    assert(p.invoices[x] == m.invoices[x]);
                }
            }
        }
    }
}

/// Pruning a page deletes a record exactly when the record's ID lies on the
/// page, its status is terminal (`Paid`, `Defaulted`, `Cancelled` or
/// `Refunded`, none exempt), and its terminal timestamp (the settlement
/// time of a settled `Paid` invoice, else the creation time) plus
/// `older_than_secs` lies before the ledger's time; every record it keeps
/// is unchanged.
pub proof fn law_prune_deletes_exactly_the_old_terminal_records(m: LedgerModel, older_than_secs: u64, offset: u32, limit: u32, x: BytesN32)
    requires
        m.invoices.contains_key(x),
    ensures
        !pruned(m, older_than_secs, offset, limit).invoices.contains_key(x) <==> {
            let inv = m.invoices[x];
            let ts: u64 = match (inv.status, inv.settled_at) {
                (InvoiceStatus::Paid, Some(t)) => t,
                _ => inv.created_at,
            };
            &&& page_ids(m, offset, limit).contains(x)
            &&& (inv.status == InvoiceStatus::Paid || inv.status == InvoiceStatus::Defaulted
                || inv.status == InvoiceStatus::Cancelled || inv.status == InvoiceStatus::Refunded)
            &&& ts + older_than_secs < m.timestamp
        },
        pruned(m, older_than_secs, offset, limit).invoices.contains_key(x)
            ==> pruned(m, older_than_secs, offset, limit).invoices[x] == m.invoices[x],
{
    let page = page_ids(m, offset, limit);
    lemma_pruned_ids(m, page, older_than_secs, m.timestamp);
    lemma_pruned_ids_removes_eligible(m, page, older_than_secs, m.timestamp);
}

/// After updating an existing invoice, the list of a customer name, tax
/// identifier or category holds the invoice's ID exactly as follows. Where
/// the field is unchanged, the list holds it as before. Where the field
/// changes, the list of the new value holds it, the list of the old value
/// no longer holds it (so clearing a customer name or tax identifier takes
/// the ID off the old value's list), and every other list holds it as before.
pub proof fn law_update_moves_metadata_entries(m: LedgerModel, inv: InvoiceView, s: Seq<char>, c: InvoiceCategory)
    requires
        m.invoices.contains_key(inv.id),
    ensures
        ({
            let old = m.invoices[inv.id];
            let id = inv.id;
            let n = updated(m, inv);
            let ck = crate::storage::customer_key(s);
            let tk = crate::storage::tax_id_key(s);
            let gk = category_key(c);
            &&& list_of(n.lists, ck).contains(id) == if crate::types::opt_string_view(old.metadata_customer_name)
                != crate::types::opt_string_view(inv.metadata_customer_name) {
                (inv.metadata_customer_name is Some && inv.metadata_customer_name->0@ == s)
                    || (!(old.metadata_customer_name is Some && old.metadata_customer_name->0@ == s)
                        && list_of(m.lists, ck).contains(id))
            } else {
                list_of(m.lists, ck).contains(id)
            }
            &&& list_of(n.lists, tk).contains(id) == if crate::types::opt_string_view(old.metadata_tax_id)
                != crate::types::opt_string_view(inv.metadata_tax_id) {
                (inv.metadata_tax_id is Some && inv.metadata_tax_id->0@ == s)
                    || (!(old.metadata_tax_id is Some && old.metadata_tax_id->0@ == s)
                        && list_of(m.lists, tk).contains(id))
            } else {
                list_of(m.lists, tk).contains(id)
            }
            &&& list_of(n.lists, gk).contains(id) == if old.category != inv.category {
                c == inv.category || (c != old.category && list_of(m.lists, gk).contains(id))
            } else {
                list_of(m.lists, gk).contains(id)
            }
        }),
{
    let old = m.invoices[inv.id];
    let id = inv.id;
    let n = updated(m, inv);
    let ck = crate::storage::customer_key(s);
    let tk = crate::storage::tax_id_key(s);
    let gk = category_key(c);
    let st0 = m.lists;
    let st1 = if old.status != inv.status {
        with_id(without_first(st0, status_key(old.status), id), status_key(inv.status), id)
    } else {
        st0
    };
    let cust_moves = crate::types::opt_string_view(old.metadata_customer_name)
        != crate::types::opt_string_view(inv.metadata_customer_name);
    let cust_cleared = match old.metadata_customer_name {
        Some(o) => without_any(st1, crate::storage::customer_key(o@), id),
        None => st1,
    };
    let cust_set = match inv.metadata_customer_name {
        Some(w) => with_id(cust_cleared, crate::storage::customer_key(w@), id),
        None => cust_cleared,
    };
    let st2 = if cust_moves { cust_set } else { st1 };
    let tax_moves = crate::types::opt_string_view(old.metadata_tax_id) != crate::types::opt_string_view(inv.metadata_tax_id);
    let tax_cleared = match old.metadata_tax_id {
        Some(o) => without_any(st2, crate::storage::tax_id_key(o@), id),
        None => st2,
    };
    let tax_set = match inv.metadata_tax_id {
        Some(w) => with_id(tax_cleared, crate::storage::tax_id_key(w@), id),
        None => tax_cleared,
    };
    let st3 = if tax_moves { tax_set } else { st2 };
    let cat_cleared = without_any(st3, category_key(old.category), id);
    let st4 = if old.category != inv.category {
        with_id(cat_cleared, category_key(inv.category), id)
    } else {
        st3
    };
    let tags_cleared = without_id_in_tags(st4, old.tags, id);
    let st5 = if crate::types::strings_view(old.tags) != crate::types::strings_view(inv.tags) {
        with_id_in_tags(tags_cleared, inv.tags, id)
    } else {
        st4
    };
    assert(n.lists == st5);
    lemma_string_key_prefixes_differ();
    lemma_category_key_not_status(c);
    law_category_key_injective(c, old.category);
    law_category_key_injective(c, inv.category);
    // The tag stage touches none of the three keys.
    lemma_tags_touch_only_tag_keys(st4, old.tags, id, ck);
    lemma_tags_touch_only_tag_keys(tags_cleared, inv.tags, id, ck);
    lemma_tags_touch_only_tag_keys(st4, old.tags, id, tk);
    lemma_tags_touch_only_tag_keys(tags_cleared, inv.tags, id, tk);
    lemma_tags_touch_only_tag_keys(st4, old.tags, id, gk);
    lemma_tags_touch_only_tag_keys(tags_cleared, inv.tags, id, gk);
    assert(list_of(st5, ck) == list_of(st4, ck));
    assert(list_of(st5, tk) == list_of(st4, tk));
    assert(list_of(st5, gk) == list_of(st4, gk));
    // The status stage touches none of them.
    assert(list_of(st1, ck) == list_of(st0, ck));
    assert(list_of(st1, tk) == list_of(st0, tk));
    assert(list_of(st1, gk) == list_of(st0, gk));
    // Customer names.
    match old.metadata_customer_name {
        Some(o) => lemma_without_any_same_others(st1, crate::storage::customer_key(o@), id),
        None => {},
    }
    match inv.metadata_customer_name {
        Some(w) => lemma_with_id_facts(cust_cleared, crate::storage::customer_key(w@), id),
        None => {},
    }
    assert(list_of(st2, tk) == list_of(st1, tk));
    assert(list_of(st2, gk) == list_of(st1, gk));
    assert(list_of(st4, ck) == list_of(st2, ck));
    // Tax identifiers.
    match old.metadata_tax_id {
        Some(o) => lemma_without_any_same_others(st2, crate::storage::tax_id_key(o@), id),
        None => {},
    }
    match inv.metadata_tax_id {
        Some(w) => lemma_with_id_facts(tax_cleared, crate::storage::tax_id_key(w@), id),
        None => {},
    }
    assert(list_of(st3, gk) == list_of(st2, gk));
    assert(list_of(st4, tk) == list_of(st3, tk));
    // Categories.
    lemma_without_any_same_others(st3, category_key(old.category), id);
    lemma_with_id_facts(cat_cleared, category_key(inv.category), id);
}

proof fn lemma_without_id_in_tags_at(l: Map<IndexKeyView, Seq<BytesN32>>, tags: Seq<String>, id: BytesN32, g: Seq<char>)
    ensures
        list_of(without_id_in_tags(l, tags, id), tag_key(g)).contains(id)
            == (!(exists|i: int| 0 <= i < tags.len() && #[trigger] tags[i]@ == g) && list_of(l, tag_key(g)).contains(id)),
    decreases tags.len(),
{
    if tags.len() > 0 {
        let t = tags.drop_last();
        let b = without_id_in_tags(l, t, id);
        let k = tag_key(tags.last()@);
        lemma_without_id_in_tags_at(l, t, id, g);
        lemma_without_any_same_others(b, k, id);
        if exists|i: int| 0 <= i < t.len() && #[trigger] t[i]@ == g {
            let i = choose|i: int| 0 <= i < t.len() && #[trigger] t[i]@ == g;
            assert(tags[i]@ == g);
        }
        if tags.last()@ == g {
            assert(tags[tags.len() - 1]@ == g);
        } else {
            assert(k != tag_key(g));
            assert(list_of(without_any(b, k, id), tag_key(g)) == list_of(b, tag_key(g)));
            if exists|i: int| 0 <= i < tags.len() && #[trigger] tags[i]@ == g {
                let i = choose|i: int| 0 <= i < tags.len() && #[trigger] tags[i]@ == g;
                assert(i < t.len());
                assert(t[i]@ == g);
            }
        }
    }
}

proof fn lemma_with_id_in_tags_at(l: Map<IndexKeyView, Seq<BytesN32>>, tags: Seq<String>, id: BytesN32, g: Seq<char>)
    ensures
        list_of(with_id_in_tags(l, tags, id), tag_key(g)).contains(id)
            == ((exists|i: int| 0 <= i < tags.len() && #[trigger] tags[i]@ == g) || list_of(l, tag_key(g)).contains(id)),
    decreases tags.len(),
{
    if tags.len() > 0 {
        let t = tags.drop_last();
        let b = with_id_in_tags(l, t, id);
        let k = tag_key(tags.last()@);
        lemma_with_id_in_tags_at(l, t, id, g);
        lemma_with_id_facts(b, k, id);
        if exists|i: int| 0 <= i < t.len() && #[trigger] t[i]@ == g {
            let i = choose|i: int| 0 <= i < t.len() && #[trigger] t[i]@ == g;
            assert(tags[i]@ == g);
        }
        if tags.last()@ == g {
            assert(tags[tags.len() - 1]@ == g);
        } else {
            assert(k != tag_key(g));
            if exists|i: int| 0 <= i < tags.len() && #[trigger] tags[i]@ == g {
                let i = choose|i: int| 0 <= i < tags.len() && #[trigger] tags[i]@ == g;
                assert(i < t.len());
                assert(t[i]@ == g);
            }
        }
    }
}

/// After updating an existing invoice, the list of a tag holds the
/// invoice's ID exactly as follows. Where the tags are unchanged, the list
/// holds it as before. Where they change, the list of every new tag holds
/// it, the list of an old tag that is not among the new ones no longer
/// holds it, and the list of any other tag holds it as before.
pub proof fn law_update_moves_tag_entries(m: LedgerModel, inv: InvoiceView, g: Seq<char>)
    requires
        m.invoices.contains_key(inv.id),
    ensures
        ({
            let old = m.invoices[inv.id];
            let id = inv.id;
            list_of(updated(m, inv).lists, tag_key(g)).contains(id) == if crate::types::strings_view(old.tags)
                != crate::types::strings_view(inv.tags) {
                (exists|i: int| 0 <= i < inv.tags.len() && #[trigger] inv.tags[i]@ == g)
                    || (!(exists|i: int| 0 <= i < old.tags.len() && #[trigger] old.tags[i]@ == g)
                        && list_of(m.lists, tag_key(g)).contains(id))
            } else {
                list_of(m.lists, tag_key(g)).contains(id)
            }
        }),
{
    let old = m.invoices[inv.id];
    let id = inv.id;
    let n = updated(m, inv);
    let gk = tag_key(g);
    let st0 = m.lists;
    let st1 = if old.status != inv.status {
        with_id(without_first(st0, status_key(old.status), id), status_key(inv.status), id)
    } else {
        st0
    };
    let cust_moves = crate::types::opt_string_view(old.metadata_customer_name)
        != crate::types::opt_string_view(inv.metadata_customer_name);
    let cust_cleared = match old.metadata_customer_name {
        Some(o) => without_any(st1, crate::storage::customer_key(o@), id),
        None => st1,
    };
    let cust_set = match inv.metadata_customer_name {
        Some(w) => with_id(cust_cleared, crate::storage::customer_key(w@), id),
        None => cust_cleared,
    };
    let st2 = if cust_moves { cust_set } else { st1 };
    let tax_moves = crate::types::opt_string_view(old.metadata_tax_id) != crate::types::opt_string_view(inv.metadata_tax_id);
    let tax_cleared = match old.metadata_tax_id {
        Some(o) => without_any(st2, crate::storage::tax_id_key(o@), id),
        None => st2,
    };
    let tax_set = match inv.metadata_tax_id {
        Some(w) => with_id(tax_cleared, crate::storage::tax_id_key(w@), id),
        None => tax_cleared,
    };
    let st3 = if tax_moves { tax_set } else { st2 };
    let cat_cleared = without_any(st3, category_key(old.category), id);
    let st4 = if old.category != inv.category {
        with_id(cat_cleared, category_key(inv.category), id)
    } else {
        st3
    };
    let tags_cleared = without_id_in_tags(st4, old.tags, id);
    let st5 = if crate::types::strings_view(old.tags) != crate::types::strings_view(inv.tags) {
        with_id_in_tags(tags_cleared, inv.tags, id)
    } else {
        st4
    };
    assert(n.lists == st5);
    lemma_string_key_prefixes_differ();
    // The status stage leaves the tag list alone.
    assert(list_of(st1, gk) == list_of(st0, gk));
    // So do the customer, tax identifier and category stages.
    match old.metadata_customer_name {
        Some(o) => assert(crate::storage::customer_key(o@) != gk),
        None => {},
    }
    match inv.metadata_customer_name {
        Some(w) => lemma_with_id_facts(cust_cleared, crate::storage::customer_key(w@), id),
        None => {},
    }
    assert(list_of(st2, gk) == list_of(st1, gk));
    match old.metadata_tax_id {
        Some(o) => assert(crate::storage::tax_id_key(o@) != gk),
        None => {},
    }
    match inv.metadata_tax_id {
        Some(w) => lemma_with_id_facts(tax_cleared, crate::storage::tax_id_key(w@), id),
        None => {},
    }
    assert(list_of(st3, gk) == list_of(st2, gk));
    lemma_with_id_facts(cat_cleared, category_key(inv.category), id);
    assert(list_of(st4, gk) == list_of(st3, gk));
    // The tag stage.
    lemma_without_id_in_tags_at(st4, old.tags, id, g);
    lemma_with_id_in_tags_at(tags_cleared, inv.tags, id, g);
}

/// A stored invoice is read back as stored, and no other record changes.
pub proof fn law_get_after_store(m: LedgerModel, inv: InvoiceView, other: BytesN32)
    requires
        other != inv.id,
    ensures
        stored(m, inv).invoices.contains_key(inv.id),
        stored(m, inv).invoices[inv.id] == inv,
        stored(m, inv).invoices.contains_key(other) == m.invoices.contains_key(other),
        m.invoices.contains_key(other) ==> stored(m, inv).invoices[other] == m.invoices[other],
{
}

/// An updated invoice is read back as written.
pub proof fn law_get_after_update(m: LedgerModel, inv: InvoiceView)
    ensures
        updated(m, inv).invoices.contains_key(inv.id),
        updated(m, inv).invoices[inv.id] == inv,
{
}

/// A deleted invoice can no longer be read, and no other record changes.
pub proof fn law_get_after_delete(m: LedgerModel, id: BytesN32, other: BytesN32)
    requires
        other != id,
    ensures
        !deleted(m, id).invoices.contains_key(id),
        deleted(m, id).invoices.contains_key(other) == m.invoices.contains_key(other),
        m.invoices.contains_key(other) ==> deleted(m, id).invoices[other] == m.invoices[other],
{
}

/// After the frozen flag of an invoice is set to `frozen`, reading it gives
/// `frozen`; the flags of other invoices are unchanged.
pub proof fn law_frozen_flag_after_set(m: LedgerModel, id: BytesN32, frozen: bool, other: BytesN32)
    requires
        other != id,
    ensures
        crate::storage::frozen_flag(crate::storage::with_frozen(m, id, frozen), id) == frozen,
        crate::storage::frozen_flag(crate::storage::with_frozen(m, id, frozen), other) == crate::storage::frozen_flag(m, other),
{
}

/// After the invoice counter advances, the total count reads the value
/// that the advance returned: one more than before, saturating.
pub proof fn law_total_count_after_next(m: LedgerModel)
    ensures
        crate::storage::counter_value(crate::storage::counted(m), Symbol::spec_short("inv_count"@))
            == crate::storage::saturating_succ(crate::storage::counter_value(m, Symbol::spec_short("inv_count"@))),
{
}

proof fn lemma_deleted_all_records(m: LedgerModel, ids: Seq<BytesN32>)
    ensures
        forall|x: BytesN32| #[trigger] crate::storage::deleted_all(m, ids).invoices.contains_key(x)
            <==> (m.invoices.contains_key(x) && !ids.contains(x)),
        status_coherent(m) ==> status_coherent(crate::storage::deleted_all(m, ids)),
    decreases ids.len(),
{
    if ids.len() > 0 {
        let t = ids.drop_last();
        lemma_deleted_all_records(m, t);
        let p = crate::storage::deleted_all(m, t);
        assert forall|x: BytesN32| #[trigger] crate::storage::deleted_all(m, ids).invoices.contains_key(x)
            <==> (m.invoices.contains_key(x) && !ids.contains(x)) by {
            if t.contains(x) {
                let k = choose|k: int| 0 <= k < t.len() && t[k] == x;
                assert(ids[k] == x);
            }
            if ids.contains(x) && x != ids.last() {
                let k = choose|k: int| 0 <= k < ids.len() && ids[k] == x;
                assert(k != ids.len() - 1);
                assert(t[k] == x);
            }
            if x == ids.last() {
                assert(ids[ids.len() - 1] == x);
            }
        }
        if status_coherent(m) {
            law_delete_keeps_status_coherence(p, ids.last());
        }
    }
}

/// Clearing a ledger whose records and status buckets agree removes every
/// invoice record and leaves every status bucket empty.
pub proof fn law_clear_all_removes_every_invoice(m: LedgerModel, id: BytesN32, s: InvoiceStatus)
    requires
        status_coherent(m),
    ensures
        !crate::storage::cleared(m).invoices.contains_key(id),
        list_of(crate::storage::cleared(m).lists, status_key(s)).len() == 0,
{
    let ids = crate::storage::all_invoice_ids(m);
    lemma_deleted_all_records(m, ids);
    let d = crate::storage::deleted_all(m, ids);
    if m.invoices.contains_key(id) {
        assert(list_of(m.lists, status_key(m.invoices[id].status)).contains(id));
        lemma_all_invoice_ids_contains(m, id);
    }
    let l = list_of(d.lists, status_key(s));
    if l.len() > 0 {
        assert(l.contains(l[0]));
        let x = l[0];
        assert(crate::storage::sound_in_bucket(d, s, x));
        assert(m.invoices.contains_key(x));
        assert(list_of(m.lists, status_key(m.invoices[x].status)).contains(x));
        lemma_all_invoice_ids_contains(m, x);
    }
}

} // verus!
