//! Crate-level laws of the invoice transaction manager, proved over the
//! operations' effect predicates. Together with each operation's own
//! contract they pin down what a read observes after a write.

use vstd::prelude::*;

use crate::date::{Date, date_in_range, date_le, date_lt};
use crate::recurring::mark_fired_effect;
use crate::schedule::lemma_advance_valid;
use crate::seq_util::{lemma_filter_all, lemma_filter_app, lemma_filter_none, lemma_filter_sound};
use crate::store::{
    Store, create_invoice_effect, delete_invoice_effect, desc_listing, enrich_get, enrich_list,
    has_invoice, has_owned_invoice, invoice_ids_distinct, items_of, update_invoice_effect,
};
use crate::types::{Client, Invoice, InvoiceDraft, InvoiceWithItems};

verus! {

/// An invoice created with a batch of items is stored with exactly that
/// batch, in submission order, every row bound to the new invoice's
/// identifier — so an immediate read of the new identifier yields them.
pub proof fn lemma_create_then_get(
    pre: Store,
    post: Store,
    caller: i32,
    draft: InvoiceDraft,
    today: Date,
    w: InvoiceWithItems,
)
    requires
        pre.wf(),
        create_invoice_effect(pre, post, caller, draft, today, w),
    ensures
        has_owned_invoice(post.invoices@, caller, w.invoice.id),
        items_of(post.items@, w.invoice.id) == w.items@,
        w.items@.len() == draft.items@.len(),
        forall|j: int|
            0 <= j < w.items@.len() ==> (#[trigger] w.items@[j]).invoice_id == w.invoice.id,
{
    let id = w.invoice.id;
    assert(id == pre.next_id);
    assert(post.invoices@[pre.invoices@.len() as int] == w.invoice);
    assert(has_owned_invoice(post.invoices@, caller, id));
    assert forall|j: int| 0 <= j < w.items@.len() implies (#[trigger] w.items@[j]).invoice_id
        == id by {
        assert(w.items@[j] == crate::types::item_from_draft(
            draft.items@[j],
            pre.next_id + 1 + j,
            pre.next_id as int,
        ));
    }
    assert forall|i: int| 0 <= i < pre.items@.len() implies (#[trigger] pre.items@[i]).invoice_id
        != id by {
        assert(has_invoice(pre.invoices@, pre.items@[i].invoice_id));
        let t = choose|t: int|
            0 <= t < pre.invoices@.len() && (#[trigger] pre.invoices@[t]).id
                == pre.items@[i].invoice_id;
        assert(pre.invoices@[t].id < pre.next_id);
    }
    let pick = |it: crate::types::InvoiceItem| it.invoice_id == id;
    lemma_filter_app(pre.items@, w.items@, pick);
    lemma_filter_none(pre.items@, pick);
    lemma_filter_all(w.items@, pick);
    assert(items_of(post.items@, id) =~= w.items@);
}

/// Replacing an invoice's items leaves exactly the submitted set: the
/// prior rows are gone, and every surviving row with the invoice's
/// identifier is one of the new rows, which carry fresh identifiers.
pub proof fn lemma_update_replaces_items(
    pre: Store,
    post: Store,
    caller: i32,
    id: i32,
    draft: InvoiceDraft,
    w: InvoiceWithItems,
)
    requires
        pre.wf(),
        update_invoice_effect(pre, post, caller, id, draft, w),
    ensures
        items_of(post.items@, id) == w.items@,
        forall|j: int| 0 <= j < w.items@.len() ==> (#[trigger] w.items@[j]).id >= pre.next_id,
{
    assert forall|j: int| 0 <= j < w.items@.len() implies ((#[trigger] w.items@[j]).invoice_id
        == id && w.items@[j].id >= pre.next_id) by {
        assert(w.items@[j] == crate::types::item_from_draft(
            draft.items@[j],
            pre.next_id + j,
            id as int,
        ));
    }
    let keep = |it: crate::types::InvoiceItem| it.invoice_id != id;
    let pick = |it: crate::types::InvoiceItem| it.invoice_id == id;
    let kept = pre.items@.filter(keep);
    lemma_filter_sound(pre.items@, keep);
    lemma_filter_app(kept, w.items@, pick);
    lemma_filter_none(kept, pick);
    lemma_filter_all(w.items@, pick);
    assert(items_of(post.items@, id) =~= w.items@);
}

/// After a deletion, the identifier names nothing for any caller: reads,
/// updates and deletions against it fail as not found, whoever asks.
pub proof fn lemma_deleted_is_gone(pre: Store, post: Store, id: i32, other: i32)
    requires
        pre.wf(),
        delete_invoice_effect(pre, post, id),
    ensures
        !has_invoice(post.invoices@, id),
        !has_owned_invoice(post.invoices@, other, id),
        items_of(post.items@, id) == Seq::<crate::types::InvoiceItem>::empty(),
{
    let keepv = |v: crate::types::Invoice| v.id != id;
    let keepi = |it: crate::types::InvoiceItem| it.invoice_id != id;
    let pick = |it: crate::types::InvoiceItem| it.invoice_id == id;
    lemma_filter_sound(pre.invoices@, keepv);
    assert(!has_invoice(post.invoices@, id));
    assert(!has_owned_invoice(post.invoices@, other, id));
    lemma_filter_sound(pre.items@, keepi);
    lemma_filter_none(post.items@, pick);
    assert(items_of(post.items@, id) =~= Seq::<crate::types::InvoiceItem>::empty());
}

/// Ownership is information-hiding: an identifier owned by one caller
/// does not exist for any other caller, so a read, update or deletion by
/// the other fails exactly as if the row were absent.
pub proof fn lemma_cross_caller_hidden(
    s: Seq<crate::types::Invoice>,
    owner: i32,
    other: i32,
    id: i32,
)
    requires
        invoice_ids_distinct(s),
        has_owned_invoice(s, owner, id),
        owner != other,
    ensures
        !has_owned_invoice(s, other, id),
{
    let i = choose|i: int|
        0 <= i < s.len() && (#[trigger] s[i]).id == id && s[i].user_id == owner;
    assert forall|j: int|
        0 <= j < s.len() implies !((#[trigger] s[j]).id == id && s[j].user_id == other) by {
        if s[j].id == id && s[j].user_id == other {
            assert(j != i);
            assert(s[i].id != s[j].id);
        }
    }
}

/// When invoice rows stand in chronological order — creation dates never
/// decreasing along storage order, as they are when every write passes the
/// current date — the invoice listing (reverse storage order) is ordered by
/// descending creation date, and every listed invoice from index `i` on
/// was created no earlier than row `i`.
pub proof fn lemma_listing_created_descending(
    s: Seq<Invoice>,
    clients: Seq<Client>,
    caller: i32,
    i: int,
)
    requires
        forall|a: int, b: int| #![trigger s[a].created, s[b].created]
            0 <= a < b < s.len() ==> date_le(s[a].created@, s[b].created@),
        0 <= i <= s.len(),
    ensures
        forall|t: int, u: int|
            #![trigger desc_listing(s, clients, caller, i)[t], desc_listing(s, clients, caller, i)[u]]
            0 <= t < u < desc_listing(s, clients, caller, i).len() ==> date_le(
                desc_listing(s, clients, caller, i)[u].created@,
                desc_listing(s, clients, caller, i)[t].created@,
            ),
        forall|t: int|
            0 <= t < desc_listing(s, clients, caller, i).len() && i < s.len() ==> date_le(
                s[i].created@,
                (#[trigger] desc_listing(s, clients, caller, i)[t]).created@,
            ),
    decreases s.len() - i,
{
    if i < s.len() {
        lemma_listing_created_descending(s, clients, caller, i + 1);
        let rest = desc_listing(s, clients, caller, i + 1);
        let all = desc_listing(s, clients, caller, i);
        assert(enrich_list(s[i], clients).created == s[i].created);
        if rest.len() > 0 {
            // a non-empty tail listing means some row follows index i
            assert(i + 1 < s.len());
            assert(date_le(s[i].created@, s[i + 1].created@));
        }
        if s[i].user_id == caller {
            assert(all =~= rest + seq![enrich_list(s[i], clients)]);
            assert forall|t: int, u: int| #![trigger all[t], all[u]]
                0 <= t < u < all.len() implies date_le(all[u].created@, all[t].created@) by {
                if u < rest.len() {
                    assert(all[t] == rest[t] && all[u] == rest[u]);
                } else {
                    assert(all[u] == enrich_list(s[i], clients));
                    assert(all[t] == rest[t]);
                    assert(date_le(s[i + 1].created@, rest[t].created@));
                }
            }
        } else {
            assert(all =~= rest);
        }
        assert forall|t: int| 0 <= t < all.len() implies date_le(
            s[i].created@,
            (#[trigger] all[t]).created@,
        ) by {
            if t < rest.len() {
                assert(all[t] == rest[t]);
                assert(date_le(s[i + 1].created@, rest[t].created@));
                assert(date_le(s[i].created@, s[i + 1].created@));
            } else {
                assert(all[t] == enrich_list(s[i], clients));
            }
        }
    }
}

/// Each firing moves a stored template's next-run date strictly past the
/// date it fired on: recomputed schedules never stall and never move back.
pub proof fn lemma_fired_template_advances(
    pre: Store,
    post: Store,
    caller: i32,
    id: i32,
    fired_on: Date,
)
    requires
        pre.wf(),
        mark_fired_effect(pre, post, caller, id, fired_on),
        date_in_range(fired_on@),
    ensures
        exists|i: int|
            0 <= i < post.recurring@.len() && (#[trigger] post.recurring@[i]).id == id && (
            post.recurring@[i].next_run matches Some(n) && date_lt(fired_on@, n@)),
{
    let i = choose|i: int|
        0 <= i < pre.recurring@.len() && (#[trigger] pre.recurring@[i]).id == id
            && pre.recurring@[i].user_id == caller && {
            let row = pre.recurring@[i];
            let new_row = post.recurring@[i];
            &&& post.recurring@ == pre.recurring@.update(i, new_row)
            &&& new_row == crate::types::RecurringInvoice {
                next_run: new_row.next_run,
                last_run: Some(fired_on),
                ..row
            }
            &&& new_row.next_run matches Some(n) && n@ == crate::schedule::next_run_val(
                crate::schedule::interval_of_string(row.interval@),
                row.interval_count as nat,
                row.start_date@,
                Some(fired_on@),
            )
        };
    let row = pre.recurring@[i];
    assert(crate::store::recurring_row_ok(row));
    lemma_advance_valid(
        crate::schedule::interval_of_string(row.interval@),
        row.interval_count as nat,
        fired_on@,
    );
    assert(post.recurring@[i].id == id);
}

/// Round trip: the row a creation stores — and hence what an immediate
/// read returns, whose enrichment only fills the joined client fields —
/// agrees with the draft on every submitted field; only identifier, owner
/// and creation date are server-assigned.
pub proof fn lemma_create_round_trip(
    pre: Store,
    post: Store,
    caller: i32,
    draft: InvoiceDraft,
    today: Date,
    w: InvoiceWithItems,
)
    requires
        pre.wf(),
        create_invoice_effect(pre, post, caller, draft, today, w),
    ensures
        ({
            let e = enrich_get(post.invoices@.last(), post.clients@);
            &&& e.id == w.invoice.id
            &&& e.user_id == caller
            &&& e.client_id == draft.client_id
            &&& e.invoice_number == draft.invoice_number
            &&& e.status == draft.status
            &&& e.total == draft.total
            &&& e.due_date == draft.due_date
            &&& e.notes == draft.notes
            &&& e.created == today
        }),
        forall|j: int|
            0 <= j < w.items@.len() ==> ({
                let it = #[trigger] w.items@[j];
                &&& it.description == draft.items@[j].description
                &&& it.quantity == draft.items@[j].quantity
                &&& it.price == draft.items@[j].price
                &&& it.amount == draft.items@[j].amount
            }),
{
    assert(post.invoices@.last() == w.invoice);
    assert forall|j: int| 0 <= j < w.items@.len() implies ({
        let it = #[trigger] w.items@[j];
        &&& it.description == draft.items@[j].description
        &&& it.quantity == draft.items@[j].quantity
        &&& it.price == draft.items@[j].price
        &&& it.amount == draft.items@[j].amount
    }) by {
        assert(w.items@[j] == crate::types::item_from_draft(
            draft.items@[j],
            pre.next_id + 1 + j,
            pre.next_id as int,
        ));
    }
}

} // verus!
