//! The billing store and its invoice transaction manager.
//!
//! The store models the relational tables as in-memory rows. Every read and
//! write is scoped to one caller identity: a row that exists but belongs to
//! someone else is reported as `NotFound`, never as a permission failure.
//! Row identifiers come from one shared counter, so they are unique across
//! the store; exhausting the identifier space is reported as `Internal`,
//! standing for a store-side write failure.
//!
//! Invoice writes are atomic: either the parent row and every line item are
//! written, or the store is left exactly as it was.

use vstd::pervasive::VecAdditionalExecFns;
use vstd::prelude::*;

use crate::ServiceError;
use crate::date::{Date, date_in_range, date_le};
use crate::schedule::{interval_of_string, next_run_val, valid_interval_string};
use crate::seq_util::{
    lemma_filter_all, lemma_filter_app, lemma_filter_distinct_keys, lemma_filter_none,
    lemma_filter_push, lemma_filter_sound,
};
use crate::types::{
    Client, CompanySettings, Estimate, Invoice, InvoiceDraft, InvoiceItem, InvoiceWithItems,
    ItemDraft, Product, RecurringInvoice, User, invoice_from_draft, item_from_draft,
};

verus! {

/// The in-memory model of the billing tables. `next_id` is the shared row
/// identifier counter: every stored identifier is below it.
pub struct Store {
    pub invoices: Vec<Invoice>,
    pub items: Vec<InvoiceItem>,
    pub estimates: Vec<Estimate>,
    pub recurring: Vec<RecurringInvoice>,
    pub clients: Vec<Client>,
    pub products: Vec<Product>,
    pub companies: Vec<CompanySettings>,
    pub users: Vec<User>,
    pub next_id: i32,
}

pub open spec fn invoice_ids_ok(s: Seq<Invoice>, bound: int) -> bool {
    forall|i: int| 0 <= i < s.len() ==> 1 <= (#[trigger] s[i]).id < bound
}

pub open spec fn invoice_ids_distinct(s: Seq<Invoice>) -> bool {
    forall|i: int, j: int| #![trigger s[i].id, s[j].id] 0 <= i < j < s.len() ==> s[i].id != s[j].id
}

pub open spec fn item_ids_ok(s: Seq<InvoiceItem>, bound: int) -> bool {
    forall|i: int| 0 <= i < s.len() ==> 1 <= (#[trigger] s[i]).id < bound
}

pub open spec fn item_ids_distinct(s: Seq<InvoiceItem>) -> bool {
    forall|i: int, j: int| #![trigger s[i].id, s[j].id] 0 <= i < j < s.len() ==> s[i].id != s[j].id
}

pub open spec fn estimate_ids_ok(s: Seq<Estimate>, bound: int) -> bool {
    forall|i: int| 0 <= i < s.len() ==> 1 <= (#[trigger] s[i]).id < bound
}

pub open spec fn estimate_ids_distinct(s: Seq<Estimate>) -> bool {
    forall|i: int, j: int| #![trigger s[i].id, s[j].id] 0 <= i < j < s.len() ==> s[i].id != s[j].id
}

pub open spec fn recurring_ids_ok(s: Seq<RecurringInvoice>, bound: int) -> bool {
    forall|i: int| 0 <= i < s.len() ==> 1 <= (#[trigger] s[i]).id < bound
}

pub open spec fn recurring_ids_distinct(s: Seq<RecurringInvoice>) -> bool {
    forall|i: int, j: int| #![trigger s[i].id, s[j].id] 0 <= i < j < s.len() ==> s[i].id != s[j].id
}

pub open spec fn client_ids_ok(s: Seq<Client>, bound: int) -> bool {
    forall|i: int| 0 <= i < s.len() ==> 1 <= (#[trigger] s[i]).id < bound
}

pub open spec fn client_ids_distinct(s: Seq<Client>) -> bool {
    forall|i: int, j: int| #![trigger s[i].id, s[j].id] 0 <= i < j < s.len() ==> s[i].id != s[j].id
}

pub open spec fn product_ids_ok(s: Seq<Product>, bound: int) -> bool {
    forall|i: int| 0 <= i < s.len() ==> 1 <= (#[trigger] s[i]).id < bound
}

pub open spec fn product_ids_distinct(s: Seq<Product>) -> bool {
    forall|i: int, j: int| #![trigger s[i].id, s[j].id] 0 <= i < j < s.len() ==> s[i].id != s[j].id
}

pub open spec fn company_ids_ok(s: Seq<CompanySettings>, bound: int) -> bool {
    forall|i: int| 0 <= i < s.len() ==> 1 <= (#[trigger] s[i]).id < bound
}

/// At most one settings row per caller.
pub open spec fn company_users_distinct(s: Seq<CompanySettings>) -> bool {
    forall|i: int, j: int| #![trigger s[i].user_id, s[j].user_id]
        0 <= i < j < s.len() ==> s[i].user_id != s[j].user_id
}

pub open spec fn user_ids_ok(s: Seq<User>, bound: int) -> bool {
    forall|i: int| 0 <= i < s.len() ==> 1 <= (#[trigger] s[i]).id < bound
}

pub open spec fn user_ids_distinct(s: Seq<User>) -> bool {
    forall|i: int, j: int| #![trigger s[i].id, s[j].id] 0 <= i < j < s.len() ==> s[i].id != s[j].id
}

/// Account emails are unique: registration rejects duplicates.
pub open spec fn user_emails_distinct(s: Seq<User>) -> bool {
    forall|i: int, j: int| #![trigger s[i].email, s[j].email]
        0 <= i < j < s.len() ==> s[i].email@ != s[j].email@
}

/// Some invoice row carries this identifier.
pub open spec fn has_invoice(s: Seq<Invoice>, id: i32) -> bool {
    exists|i: int| 0 <= i < s.len() && (#[trigger] s[i]).id == id
}

/// No line item outlives its parent invoice.
pub open spec fn items_parented(items: Seq<InvoiceItem>, invs: Seq<Invoice>) -> bool {
    forall|k: int| 0 <= k < items.len() ==> has_invoice(invs, (#[trigger] items[k]).invoice_id)
}

/// A stored recurring template: its schedule fields are valid, and its
/// next-run date is exactly what the schedule engine derives from them —
/// in particular it never falls before the start date.
pub open spec fn recurring_row_ok(r: RecurringInvoice) -> bool {
    &&& valid_interval_string(r.interval@)
    &&& r.interval_count >= 1
    &&& date_in_range(r.start_date@)
    &&& match r.last_run {
        Some(l) => date_in_range(l@) && date_le(r.start_date@, l@),
        None => true,
    }
    &&& match r.next_run {
        Some(n) => date_in_range(n@) && n@ == next_run_val(
            interval_of_string(r.interval@),
            r.interval_count as nat,
            r.start_date@,
            match r.last_run {
                Some(l) => Some(l@),
                None => None,
            },
        ) && date_le(r.start_date@, n@),
        None => false,
    }
}

pub open spec fn recurring_rows_ok(s: Seq<RecurringInvoice>) -> bool {
    forall|i: int| 0 <= i < s.len() ==> recurring_row_ok(#[trigger] s[i])
}

impl Store {
    /// The store invariant: identifiers are positive, below the shared
    /// counter and unique per table; line items have parents; settings rows
    /// and account emails are unique; recurring templates carry a derived
    /// next-run date.
    pub open spec fn wf(self) -> bool {
        &&& 1 <= self.next_id
        &&& invoice_ids_ok(self.invoices@, self.next_id as int)
        &&& invoice_ids_distinct(self.invoices@)
        &&& item_ids_ok(self.items@, self.next_id as int)
        &&& item_ids_distinct(self.items@)
        &&& items_parented(self.items@, self.invoices@)
        &&& estimate_ids_ok(self.estimates@, self.next_id as int)
        &&& estimate_ids_distinct(self.estimates@)
        &&& recurring_ids_ok(self.recurring@, self.next_id as int)
        &&& recurring_ids_distinct(self.recurring@)
        &&& recurring_rows_ok(self.recurring@)
        &&& client_ids_ok(self.clients@, self.next_id as int)
        &&& client_ids_distinct(self.clients@)
        &&& product_ids_ok(self.products@, self.next_id as int)
        &&& product_ids_distinct(self.products@)
        &&& company_ids_ok(self.companies@, self.next_id as int)
        &&& company_users_distinct(self.companies@)
        &&& user_ids_ok(self.users@, self.next_id as int)
        &&& user_ids_distinct(self.users@)
        &&& user_emails_distinct(self.users@)
    }

    /// An empty store.
    pub fn new() -> (s: Store)
        ensures
            s.wf(),
            s.invoices@ =~= Seq::<Invoice>::empty(),
            s.items@ =~= Seq::<InvoiceItem>::empty(),
            s.estimates@ =~= Seq::<Estimate>::empty(),
            s.recurring@ =~= Seq::<RecurringInvoice>::empty(),
            s.clients@ =~= Seq::<Client>::empty(),
            s.products@ =~= Seq::<Product>::empty(),
            s.companies@ =~= Seq::<CompanySettings>::empty(),
            s.users@ =~= Seq::<User>::empty(),
            s.next_id == 1,
    {
        Store {
            invoices: Vec::new(),
            items: Vec::new(),
            estimates: Vec::new(),
            recurring: Vec::new(),
            clients: Vec::new(),
            products: Vec::new(),
            companies: Vec::new(),
            users: Vec::new(),
            next_id: 1,
        }
    }
}

/// The caller owns an invoice row with this identifier.
pub open spec fn has_owned_invoice(s: Seq<Invoice>, caller: i32, id: i32) -> bool {
    exists|i: int|
        0 <= i < s.len() && (#[trigger] s[i]).id == id && s[i].user_id == caller
}

/// The first client row carrying identifier `c`, searching from index `k`.
pub open spec fn client_from(s: Seq<Client>, c: i32, k: int) -> Option<Client>
    decreases s.len() - k,
{
    if k < 0 || k >= s.len() {
        None
    } else if s[k].id == c {
        Some(s[k])
    } else {
        client_from(s, c, k + 1)
    }
}

/// The client row an optional foreign reference resolves to, as the
/// left join against the client table resolves it.
pub open spec fn found_client(s: Seq<Client>, cid: Option<i32>) -> Option<Client> {
    match cid {
        None => None,
        Some(c) => client_from(s, c, 0),
    }
}

/// An invoice as a single read returns it: the client's display name and
/// email filled in from the joined client row.
pub open spec fn enrich_get(inv: Invoice, clients: Seq<Client>) -> Invoice {
    match found_client(clients, inv.client_id) {
        None => Invoice { client_name: None, client_email: None, ..inv },
        Some(c) => Invoice { client_name: Some(c.name), client_email: c.email, ..inv },
    }
}

/// An invoice as the list endpoint returns it: only the display name is
/// joined in.
pub open spec fn enrich_list(inv: Invoice, clients: Seq<Client>) -> Invoice {
    match found_client(clients, inv.client_id) {
        None => Invoice { client_name: None, ..inv },
        Some(c) => Invoice { client_name: Some(c.name), ..inv },
    }
}

/// The line items of one invoice, in storage order.
pub open spec fn items_of(items: Seq<InvoiceItem>, id: i32) -> Seq<InvoiceItem> {
    items.filter(|it: InvoiceItem| it.invoice_id == id)
}

/// The items that survive deleting one invoice.
pub open spec fn items_not_of(items: Seq<InvoiceItem>, id: i32) -> Seq<InvoiceItem> {
    items.filter(|it: InvoiceItem| it.invoice_id != id)
}

/// What a successful invoice creation does: one invoice row with the next
/// free identifier and the caller as owner, one item row per submitted item
/// in submission order, nothing else touched — and the returned value is
/// exactly what was stored.
pub open spec fn create_invoice_effect(
    pre: Store,
    post: Store,
    caller: i32,
    draft: InvoiceDraft,
    today: Date,
    w: InvoiceWithItems,
) -> bool {
    &&& w.invoice == invoice_from_draft(draft, pre.next_id as int, caller, today)
    &&& w.items@.len() == draft.items@.len()
    &&& forall|j: int|
        0 <= j < draft.items@.len() ==> w.items@[j] == item_from_draft(
            #[trigger] draft.items@[j],
            pre.next_id + 1 + j,
            pre.next_id as int,
        )
    &&& post.invoices@ == pre.invoices@.push(w.invoice)
    &&& post.items@ == pre.items@ + w.items@
    &&& post.next_id as int == pre.next_id + 1 + draft.items@.len()
    &&& post.estimates == pre.estimates
    &&& post.recurring == pre.recurring
    &&& post.clients == pre.clients
    &&& post.products == pre.products
    &&& post.companies == pre.companies
    &&& post.users == pre.users
}

impl Store {
    /// The position of the caller's invoice with this identifier, if the
    /// caller has one.
    fn find_invoice(&self, caller: i32, id: i32) -> (r: Option<usize>)
        ensures
            match r {
                Some(i) => 0 <= i < self.invoices@.len() && self.invoices@[i as int].id == id
                    && self.invoices@[i as int].user_id == caller,
                None => !has_owned_invoice(self.invoices@, caller, id),
            },
    {
        let n = self.invoices.len();
        let mut k: usize = 0;
        while k < n
            invariant
                k <= n,
                n == self.invoices@.len(),
                forall|i: int|
                    0 <= i < k ==> !((#[trigger] self.invoices@[i]).id == id
                        && self.invoices@[i].user_id == caller),
            decreases n - k,
        {
            if self.invoices[k].id == id && self.invoices[k].user_id == caller {
                return Some(k);
            }
            k = k + 1;
        }
        None
    }

    /// The position of the client row with identifier `c`, matching the
    /// first-match search the join performs.
    pub(crate) fn find_client_pos(&self, c: i32) -> (r: Option<usize>)
        ensures
            match r {
                Some(k) => 0 <= k < self.clients@.len() && client_from(self.clients@, c, 0)
                    == Some(self.clients@[k as int]),
                None => client_from(self.clients@, c, 0) is None,
            },
    {
        let n = self.clients.len();
        let mut k: usize = 0;
        while k < n
            invariant
                k <= n,
                n == self.clients@.len(),
                client_from(self.clients@, c, 0) == client_from(self.clients@, c, k as int),
            decreases n - k,
        {
            if self.clients[k].id == c {
                return Some(k);
            }
            k = k + 1;
        }
        None
    }

    /// Fills the joined client fields of a single-invoice read.
    fn enrich_invoice_get(&self, inv: &Invoice) -> (r: Invoice)
        ensures
            r == enrich_get(*inv, self.clients@),
    {
        let mut out = inv.clone();
        match inv.client_id {
            None => {
                out.client_name = None;
                out.client_email = None;
            },
            Some(c) => {
                match self.find_client_pos(c) {
                    None => {
                        out.client_name = None;
                        out.client_email = None;
                    },
                    Some(k) => {
                        out.client_name = Some(self.clients[k].name.clone());
                        out.client_email = crate::types::clone_opt_string(&self.clients[k].email);
                    },
                }
            },
        }
        out
    }

    /// Fills the joined client name of a listed invoice.
    fn enrich_invoice_list(&self, inv: &Invoice) -> (r: Invoice)
        ensures
            r == enrich_list(*inv, self.clients@),
    {
        let mut out = inv.clone();
        match inv.client_id {
            None => {
                out.client_name = None;
            },
            Some(c) => {
                match self.find_client_pos(c) {
                    None => {
                        out.client_name = None;
                    },
                    Some(k) => {
                        out.client_name = Some(self.clients[k].name.clone());
                    },
                }
            },
        }
        out
    }

    /// The stored line items of one invoice, in storage order.
    fn collect_items(&self, id: i32) -> (r: Vec<InvoiceItem>)
        ensures
            r@ == items_of(self.items@, id),
    {
        let mut out: Vec<InvoiceItem> = Vec::new();
        let n = self.items.len();
        let mut k: usize = 0;
        while k < n
            invariant
                k <= n,
                n == self.items@.len(),
                out@ == self.items@.subrange(0, k as int).filter(
                    |it: InvoiceItem| it.invoice_id == id,
                ),
            decreases n - k,
        {
            proof {
                assert(self.items@.subrange(0, k + 1 as int) =~= self.items@.subrange(
                    0,
                    k as int,
                ).push(self.items@[k as int]));
                lemma_filter_push(
                    self.items@.subrange(0, k as int),
                    self.items@[k as int],
                    |it: InvoiceItem| it.invoice_id == id,
                );
            }
            if self.items[k].invoice_id == id {
                out.push(self.items[k].clone());
            }
            k = k + 1;
        }
        proof {
            assert(self.items@.subrange(0, n as int) =~= self.items@);
        }
        out
    }

    /// Creates an invoice and its line items as one atomic unit: on success
    /// every row is stored, on failure nothing is. Fails only when the store
    /// cannot assign identifiers to all rows.
    pub fn create_invoice(&mut self, caller: i32, draft: InvoiceDraft, today: Date) -> (r: Result<
        InvoiceWithItems,
        ServiceError,
    >)
        requires
            old(self).wf(),
        ensures
            final(self).wf(),
            r is Ok <==> old(self).next_id + 1 + draft.items@.len() <= i32::MAX as int,
            r matches Ok(w) ==> create_invoice_effect(
                *old(self),
                *final(self),
                caller,
                draft,
                today,
                w,
            ),
            r is Err ==> *final(self) == *old(self) && r == Err::<InvoiceWithItems, ServiceError>(
                ServiceError::Internal,
            ),
    {
        let n = draft.items.len();
        if n >= i32::MAX as usize || (n as i32) > i32::MAX - self.next_id - 1 {
            return Err(ServiceError::Internal);
        }
        let inv_id = self.next_id;
        let InvoiceDraft { client_id, invoice_number, status, total, due_date, notes, items } =
            draft;
        let inv = Invoice {
            id: inv_id,
            user_id: caller,
            client_id,
            client_name: None,
            client_email: None,
            invoice_number,
            status,
            total,
            due_date,
            notes,
            created: today,
        };
        let ret_inv = inv.clone();
        self.invoices.push(inv);
        let mut out_items: Vec<InvoiceItem> = Vec::new();
        let mut j: usize = 0;
        while j < n
            invariant
                j <= n,
                n == items@.len(),
                n < i32::MAX as usize,
                inv_id == old(self).next_id,
                1 <= inv_id,
                inv_id + 1 + n <= i32::MAX,
                out_items@.len() == j,
                forall|t: int|
                    0 <= t < j ==> out_items@[t] == item_from_draft(
                        #[trigger] items@[t],
                        inv_id + 1 + t,
                        inv_id as int,
                    ),
                self.invoices@ == old(self).invoices@.push(ret_inv),
                self.items@ == old(self).items@ + out_items@,
                self.estimates == old(self).estimates,
                self.recurring == old(self).recurring,
                self.clients == old(self).clients,
                self.products == old(self).products,
                self.companies == old(self).companies,
                self.users == old(self).users,
                self.next_id == old(self).next_id,
                old(self).wf(),
                ret_inv.id == inv_id,
            decreases n - j,
        {
            let d = &items[j];
            let it = InvoiceItem {
                id: inv_id + 1 + j as i32,
                invoice_id: inv_id,
                description: d.description.clone(),
                quantity: d.quantity,
                price: d.price,
                amount: d.amount,
            };
            self.items.push(it.clone());
            out_items.push(it);
            j = j + 1;
        }
        self.next_id = inv_id + 1 + n as i32;
        proof {
            let pre = *old(self);
            let post = *self;
            assert(post.items@ == pre.items@ + out_items@);
            assert forall|i: int| 0 <= i < post.invoices@.len() implies 1 <= (
            #[trigger] post.invoices@[i]).id < post.next_id as int by {
                if i < pre.invoices@.len() {
                    assert(post.invoices@[i] == pre.invoices@[i]);
                }
            }
            assert forall|i: int, j2: int| #![trigger post.invoices@[i].id, post.invoices@[j2].id]
                0 <= i < j2 < post.invoices@.len() implies post.invoices@[i].id
                != post.invoices@[j2].id by {
                if j2 < pre.invoices@.len() {
                    assert(pre.invoices@[i].id != pre.invoices@[j2].id);
                } else {
                    assert(post.invoices@[i] == pre.invoices@[i]);
                    assert(post.invoices@[j2].id == inv_id);
                }
            }
            assert forall|i: int| 0 <= i < post.items@.len() implies 1 <= (
            #[trigger] post.items@[i]).id < post.next_id as int by {
                if i < pre.items@.len() {
                    assert(post.items@[i] == pre.items@[i]);
                } else {
                    let t = i - pre.items@.len();
                    assert(out_items@[t] == item_from_draft(items@[t], inv_id + 1 + t,
                        inv_id as int));
                    assert(post.items@[i] == out_items@[t]);
                }
            }
            assert forall|i: int, j2: int| #![trigger post.items@[i].id, post.items@[j2].id]
                0 <= i < j2 < post.items@.len() implies post.items@[i].id != post.items@[j2].id by {
                let m = pre.items@.len() as int;
                if j2 < m {
                    assert(pre.items@[i].id != pre.items@[j2].id);
                } else if i < m {
                    let t = j2 - m;
                    assert(out_items@[t] == item_from_draft(items@[t], inv_id + 1 + t,
                        inv_id as int));
                    assert(post.items@[i] == pre.items@[i]);
                    assert(post.items@[j2] == out_items@[t]);
                } else {
                    let t = i - m;
                    let u = j2 - m;
                    assert(out_items@[t] == item_from_draft(items@[t], inv_id + 1 + t,
                        inv_id as int));
                    assert(out_items@[u] == item_from_draft(items@[u], inv_id + 1 + u,
                        inv_id as int));
                    assert(post.items@[i] == out_items@[t]);
                    assert(post.items@[j2] == out_items@[u]);
                }
            }
            assert forall|k: int| 0 <= k < post.items@.len() implies has_invoice(
                post.invoices@,
                (#[trigger] post.items@[k]).invoice_id,
            ) by {
                let m = pre.items@.len() as int;
                if k < m {
                    assert(post.items@[k] == pre.items@[k]);
                    assert(has_invoice(pre.invoices@, pre.items@[k].invoice_id));
                    let wi = choose|wi: int|
                        0 <= wi < pre.invoices@.len() && (#[trigger] pre.invoices@[wi]).id
                            == pre.items@[k].invoice_id;
                    assert(post.invoices@[wi].id == pre.items@[k].invoice_id);
                } else {
                    let t = k - m;
                    assert(out_items@[t] == item_from_draft(items@[t], inv_id + 1 + t,
                        inv_id as int));
                    assert(post.items@[k] == out_items@[t]);
                    assert(post.items@[k].invoice_id == inv_id);
                    assert(post.invoices@[pre.invoices@.len() as int].id == inv_id);
                }
            }
        }
        Ok(InvoiceWithItems { invoice: ret_inv, items: out_items })
    }

    /// Reads one owned invoice with its line items; the caller's scope makes
    /// anyone else's invoice indistinguishable from a missing one.
    pub fn get_invoice(&self, caller: i32, id: i32) -> (r: Result<InvoiceWithItems, ServiceError>)
        ensures
            r is Ok <==> has_owned_invoice(self.invoices@, caller, id),
            r is Err ==> r == Err::<InvoiceWithItems, ServiceError>(ServiceError::NotFound),
            r matches Ok(w) ==> exists|i: int|
                0 <= i < self.invoices@.len() && (#[trigger] self.invoices@[i]).id == id
                    && self.invoices@[i].user_id == caller && w.invoice == enrich_get(
                    self.invoices@[i],
                    self.clients@,
                ) && w.items@ == items_of(self.items@, id),
    {
        match self.find_invoice(caller, id) {
            None => Err(ServiceError::NotFound),
            Some(k) => {
                let invoice = self.enrich_invoice_get(&self.invoices[k]);
                let items = self.collect_items(id);
                Ok(InvoiceWithItems { invoice, items })
            },
        }
    }

    /// The stored line items of every invoice but one, in storage order.
    fn collect_items_not_of(&self, id: i32) -> (r: Vec<InvoiceItem>)
        ensures
            r@ == items_not_of(self.items@, id),
    {
        let mut out: Vec<InvoiceItem> = Vec::new();
        let n = self.items.len();
        let mut k: usize = 0;
        while k < n
            invariant
                k <= n,
                n == self.items@.len(),
                out@ == self.items@.subrange(0, k as int).filter(
                    |it: InvoiceItem| it.invoice_id != id,
                ),
            decreases n - k,
        {
            proof {
                assert(self.items@.subrange(0, k + 1 as int) =~= self.items@.subrange(
                    0,
                    k as int,
                ).push(self.items@[k as int]));
                lemma_filter_push(
                    self.items@.subrange(0, k as int),
                    self.items@[k as int],
                    |it: InvoiceItem| it.invoice_id != id,
                );
            }
            if self.items[k].invoice_id != id {
                out.push(self.items[k].clone());
            }
            k = k + 1;
        }
        proof {
            assert(self.items@.subrange(0, n as int) =~= self.items@);
        }
        out
    }

    /// Every invoice row except the one with this identifier.
    fn collect_invoices_not(&self, id: i32) -> (r: Vec<Invoice>)
        ensures
            r@ == self.invoices@.filter(|v: Invoice| v.id != id),
    {
        let mut out: Vec<Invoice> = Vec::new();
        let n = self.invoices.len();
        let mut k: usize = 0;
        while k < n
            invariant
                k <= n,
                n == self.invoices@.len(),
                out@ == self.invoices@.subrange(0, k as int).filter(|v: Invoice| v.id != id),
            decreases n - k,
        {
            proof {
                assert(self.invoices@.subrange(0, k + 1 as int) =~= self.invoices@.subrange(
                    0,
                    k as int,
                ).push(self.invoices@[k as int]));
                lemma_filter_push(
                    self.invoices@.subrange(0, k as int),
                    self.invoices@[k as int],
                    |v: Invoice| v.id != id,
                );
            }
            if self.invoices[k].id != id {
                out.push(self.invoices[k].clone());
            }
            k = k + 1;
        }
        proof {
            assert(self.invoices@.subrange(0, n as int) =~= self.invoices@);
        }
        out
    }

    /// Lists the caller's invoices in reverse storage order, each with the
    /// joined client name. When rows are stored in chronological order —
    /// creation dates never decreasing along storage order, as they are
    /// when every write passes the current date — this is descending
    /// creation date; `crate::laws::lemma_listing_created_descending`
    /// proves that reading.
    pub fn list_invoices(&self, caller: i32) -> (r: Vec<Invoice>)
        ensures
            r@ == desc_listing(self.invoices@, self.clients@, caller, 0),
    {
        let mut out: Vec<Invoice> = Vec::new();
        let mut i = self.invoices.len();
        while i > 0
            invariant
                i <= self.invoices@.len(),
                out@ == desc_listing(self.invoices@, self.clients@, caller, i as int),
            decreases i,
        {
            i = i - 1;
            if self.invoices[i].user_id == caller {
                let enr = self.enrich_invoice_list(&self.invoices[i]);
                out.push(enr);
                proof {
                    assert(out@ =~= desc_listing(self.invoices@, self.clients@, caller, i + 1)
                        + seq![enrich_list(self.invoices@[i as int], self.clients@)]);
                }
            } else {
                proof {
                    assert(out@ =~= desc_listing(self.invoices@, self.clients@, caller, i + 1)
                        + Seq::<Invoice>::empty());
                }
            }
        }
        out
    }

    /// Replaces an owned invoice and its whole item set as one atomic unit:
    /// the parent row is rewritten in place (identifier, owner and creation
    /// date are kept), every prior line item is dropped and the submitted
    /// set is stored in its place. Anyone else's invoice is `NotFound`.
    pub fn update_invoice(&mut self, caller: i32, id: i32, draft: InvoiceDraft) -> (r: Result<
        InvoiceWithItems,
        ServiceError,
    >)
        requires
            old(self).wf(),
        ensures
            final(self).wf(),
            r == Err::<InvoiceWithItems, ServiceError>(ServiceError::NotFound) <==> !has_owned_invoice(
                old(self).invoices@,
                caller,
                id,
            ),
            r is Ok <==> has_owned_invoice(old(self).invoices@, caller, id) && old(self).next_id
                + draft.items@.len() <= i32::MAX as int,
            r matches Ok(w) ==> update_invoice_effect(
                *old(self),
                *final(self),
                caller,
                id,
                draft,
                w,
            ),
            r is Err ==> *final(self) == *old(self) && (r == Err::<InvoiceWithItems, ServiceError>(
                ServiceError::NotFound,
            ) || r == Err::<InvoiceWithItems, ServiceError>(ServiceError::Internal)),
    {
        let k = match self.find_invoice(caller, id) {
            None => {
                return Err(ServiceError::NotFound);
            },
            Some(k) => k,
        };
        let n = draft.items.len();
        if n >= i32::MAX as usize || (n as i32) > i32::MAX - self.next_id {
            return Err(ServiceError::Internal);
        }
        let InvoiceDraft { client_id, invoice_number, status, total, due_date, notes, items } =
            draft;
        let new_row = Invoice {
            id: self.invoices[k].id,
            user_id: self.invoices[k].user_id,
            client_id,
            client_name: None,
            client_email: None,
            invoice_number,
            status,
            total,
            due_date,
            notes,
            created: self.invoices[k].created,
        };
        let ret_inv = new_row.clone();
        self.invoices.set(k, new_row);
        let kept = self.collect_items_not_of(id);
        self.items = kept;
        let base = self.next_id;
        let mut out_items: Vec<InvoiceItem> = Vec::new();
        let mut j: usize = 0;
        while j < n
            invariant
                j <= n,
                n == items@.len(),
                n < i32::MAX as usize,
                base == old(self).next_id,
                1 <= base,
                base + n <= i32::MAX,
                out_items@.len() == j,
                forall|t: int|
                    0 <= t < j ==> out_items@[t] == item_from_draft(
                        #[trigger] items@[t],
                        base + t,
                        id as int,
                    ),
                self.invoices@ == old(self).invoices@.update(k as int, ret_inv),
                k < old(self).invoices@.len(),
                ret_inv.id == id,
                self.items@ == items_not_of(old(self).items@, id) + out_items@,
                self.estimates == old(self).estimates,
                self.recurring == old(self).recurring,
                self.clients == old(self).clients,
                self.products == old(self).products,
                self.companies == old(self).companies,
                self.users == old(self).users,
                self.next_id == old(self).next_id,
                old(self).wf(),
            decreases n - j,
        {
            let d = &items[j];
            let it = InvoiceItem {
                id: base + j as i32,
                invoice_id: id,
                description: d.description.clone(),
                quantity: d.quantity,
                price: d.price,
                amount: d.amount,
            };
            self.items.push(it.clone());
            out_items.push(it);
            j = j + 1;
        }
        self.next_id = base + n as i32;
        proof {
            let pre = *old(self);
            let post = *self;
            let kept_s = items_not_of(pre.items@, id);
            lemma_filter_distinct_keys(
                pre.items@,
                |it: InvoiceItem| it.invoice_id != id,
                |it: InvoiceItem| it.id as int,
                1,
                pre.next_id as int,
            );
            lemma_filter_sound(pre.items@, |it: InvoiceItem| it.invoice_id != id);
            assert forall|i: int| 0 <= i < post.invoices@.len() implies 1 <= (
            #[trigger] post.invoices@[i]).id < post.next_id as int by {
                if i != k {
                    assert(post.invoices@[i] == pre.invoices@[i]);
                } else {
                    assert(pre.invoices@[k as int].id == id);
                }
            }
            assert forall|i: int, j2: int| #![trigger post.invoices@[i].id, post.invoices@[j2].id]
                0 <= i < j2 < post.invoices@.len() implies post.invoices@[i].id
                != post.invoices@[j2].id by {
                assert(post.invoices@[i].id == pre.invoices@[i].id);
                assert(post.invoices@[j2].id == pre.invoices@[j2].id);
                assert(pre.invoices@[i].id != pre.invoices@[j2].id);
            }
            let m = kept_s.len() as int;
            assert forall|i: int| 0 <= i < post.items@.len() implies 1 <= (
            #[trigger] post.items@[i]).id < post.next_id as int by {
                if i < m {
                    assert(post.items@[i] == kept_s[i]);
                } else {
                    let t = i - m;
                    assert(out_items@[t] == item_from_draft(items@[t], base + t, id as int));
                    assert(post.items@[i] == out_items@[t]);
                }
            }
            assert forall|i: int, j2: int| #![trigger post.items@[i].id, post.items@[j2].id]
                0 <= i < j2 < post.items@.len() implies post.items@[i].id != post.items@[j2].id by {
                if j2 < m {
                    assert(post.items@[i] == kept_s[i]);
                    assert(post.items@[j2] == kept_s[j2]);
                } else if i < m {
                    let t = j2 - m;
                    assert(out_items@[t] == item_from_draft(items@[t], base + t, id as int));
                    assert(post.items@[i] == kept_s[i]);
                    assert(post.items@[j2] == out_items@[t]);
                } else {
                    let t = i - m;
                    let u = j2 - m;
                    assert(out_items@[t] == item_from_draft(items@[t], base + t, id as int));
                    assert(out_items@[u] == item_from_draft(items@[u], base + u, id as int));
                    assert(post.items@[i] == out_items@[t]);
                    assert(post.items@[j2] == out_items@[u]);
                }
            }
            assert forall|t: int| 0 <= t < post.items@.len() implies has_invoice(
                post.invoices@,
                (#[trigger] post.items@[t]).invoice_id,
            ) by {
                if t < m {
                    assert(post.items@[t] == kept_s[t]);
                    assert(pre.items@.contains(kept_s[t]));
                    let u = choose|u: int|
                        0 <= u < pre.items@.len() && pre.items@[u] == kept_s[t];
                    assert(has_invoice(pre.invoices@, pre.items@[u].invoice_id));
                    let wi = choose|wi: int|
                        0 <= wi < pre.invoices@.len() && (#[trigger] pre.invoices@[wi]).id
                            == pre.items@[u].invoice_id;
                    assert(post.invoices@[wi].id == pre.invoices@[wi].id);
                } else {
                    let u = t - m;
                    assert(out_items@[u] == item_from_draft(items@[u], base + u, id as int));
                    assert(post.items@[t] == out_items@[u]);
                    assert(post.invoices@[k as int].id == id);
                }
            }
        }
        Ok(InvoiceWithItems { invoice: ret_inv, items: out_items })
    }

    /// Deletes an owned invoice and every one of its line items; the
    /// identifier then names nothing for any caller. Anyone else's invoice
    /// is `NotFound`, and so is a missing one.
    pub fn delete_invoice(&mut self, caller: i32, id: i32) -> (r: Result<(), ServiceError>)
        requires
            old(self).wf(),
        ensures
            final(self).wf(),
            r is Ok <==> has_owned_invoice(old(self).invoices@, caller, id),
            r is Err ==> *final(self) == *old(self) && r == Err::<(), ServiceError>(
                ServiceError::NotFound,
            ),
            r is Ok ==> delete_invoice_effect(*old(self), *final(self), id),
            r is Ok ==> !has_invoice(final(self).invoices@, id),
            r is Ok ==> items_of(final(self).items@, id) == Seq::<InvoiceItem>::empty(),
    {
        match self.find_invoice(caller, id) {
            None => {
                return Err(ServiceError::NotFound);
            },
            Some(_) => {},
        }
        let kept_inv = self.collect_invoices_not(id);
        let kept_items = self.collect_items_not_of(id);
        self.invoices = kept_inv;
        self.items = kept_items;
        proof {
            let pre = *old(self);
            let post = *self;
            lemma_filter_distinct_keys(
                pre.invoices@,
                |v: Invoice| v.id != id,
                |v: Invoice| v.id as int,
                1,
                pre.next_id as int,
            );
            lemma_filter_distinct_keys(
                pre.items@,
                |it: InvoiceItem| it.invoice_id != id,
                |it: InvoiceItem| it.id as int,
                1,
                pre.next_id as int,
            );
            lemma_filter_sound(pre.invoices@, |v: Invoice| v.id != id);
            lemma_filter_sound(pre.items@, |it: InvoiceItem| it.invoice_id != id);
            broadcast use vstd::seq_lib::group_filter_ensures;

            assert forall|t: int| 0 <= t < post.items@.len() implies has_invoice(
                post.invoices@,
                (#[trigger] post.items@[t]).invoice_id,
            ) by {
                assert(pre.items@.contains(post.items@[t]));
                let u = choose|u: int| 0 <= u < pre.items@.len() && pre.items@[u] == post.items@[t];
                assert(has_invoice(pre.invoices@, pre.items@[u].invoice_id));
                let wi = choose|wi: int|
                    0 <= wi < pre.invoices@.len() && (#[trigger] pre.invoices@[wi]).id
                        == pre.items@[u].invoice_id;
                assert(pre.invoices@[wi].id != id);
                assert(pre.invoices@.filter(|v: Invoice| v.id != id).contains(pre.invoices@[wi]));
                let wj = choose|wj: int|
                    0 <= wj < post.invoices@.len() && post.invoices@[wj] == pre.invoices@[wi];
                assert(post.invoices@[wj].id == pre.items@[u].invoice_id);
            }
            assert(!has_invoice(post.invoices@, id));
            lemma_filter_none(post.items@, |it: InvoiceItem| it.invoice_id == id);
        }
        Ok(())
    }

    /// Marks an owned invoice as sent: a draft invoice moves to status
    /// `sent`, any other status is left untouched. Anyone else's invoice is
    /// `NotFound`.
    pub fn mark_invoice_sent(&mut self, caller: i32, id: i32) -> (r: Result<(), ServiceError>)
        requires
            old(self).wf(),
        ensures
            final(self).wf(),
            r is Ok <==> has_owned_invoice(old(self).invoices@, caller, id),
            r is Err ==> *final(self) == *old(self) && r == Err::<(), ServiceError>(
                ServiceError::NotFound,
            ),
            r is Ok ==> mark_sent_effect(*old(self), *final(self), caller, id),
    {
        let k = match self.find_invoice(caller, id) {
            None => {
                return Err(ServiceError::NotFound);
            },
            Some(k) => k,
        };
        let mut row = self.invoices[k].clone();
        if crate::text::str_eq(row.status.as_str(), "draft") {
            row.status = "sent".to_owned();
        }
        self.invoices.set(k, row);
        proof {
            let pre = *old(self);
            let post = *self;
            assert forall|i: int| 0 <= i < post.invoices@.len() implies 1 <= (
            #[trigger] post.invoices@[i]).id < post.next_id as int by {
                assert(post.invoices@[i].id == pre.invoices@[i].id);
            }
            assert forall|i: int, j2: int| #![trigger post.invoices@[i].id, post.invoices@[j2].id]
                0 <= i < j2 < post.invoices@.len() implies post.invoices@[i].id
                != post.invoices@[j2].id by {
                assert(post.invoices@[i].id == pre.invoices@[i].id);
                assert(post.invoices@[j2].id == pre.invoices@[j2].id);
            }
            assert forall|t: int| 0 <= t < post.items@.len() implies has_invoice(
                post.invoices@,
                (#[trigger] post.items@[t]).invoice_id,
            ) by {
                assert(has_invoice(pre.invoices@, pre.items@[t].invoice_id));
                let wi = choose|wi: int|
                    0 <= wi < pre.invoices@.len() && (#[trigger] pre.invoices@[wi]).id
                        == pre.items@[t].invoice_id;
                assert(post.invoices@[wi].id == pre.invoices@[wi].id);
            }
        }
        Ok(())
    }
}

/// The invoice row an update writes: submitted fields replace the stored
/// ones, while identifier, owner and creation date are kept.
pub open spec fn invoice_updated(d: InvoiceDraft, row: Invoice) -> Invoice {
    Invoice {
        id: row.id,
        user_id: row.user_id,
        client_id: d.client_id,
        client_name: None,
        client_email: None,
        invoice_number: d.invoice_number,
        status: d.status,
        total: d.total,
        due_date: d.due_date,
        notes: d.notes,
        created: row.created,
    }
}

/// What a successful invoice update does: the parent row is replaced in
/// place, the prior item set is gone, the submitted set is stored with
/// fresh identifiers in submission order, nothing else is touched — and
/// the returned value is exactly what was stored.
pub open spec fn update_invoice_effect(
    pre: Store,
    post: Store,
    caller: i32,
    id: i32,
    draft: InvoiceDraft,
    w: InvoiceWithItems,
) -> bool {
    &&& exists|i: int|
        0 <= i < pre.invoices@.len() && (#[trigger] pre.invoices@[i]).id == id
            && pre.invoices@[i].user_id == caller && w.invoice == invoice_updated(
            draft,
            pre.invoices@[i],
        ) && post.invoices@ == pre.invoices@.update(i, w.invoice)
    &&& w.items@.len() == draft.items@.len()
    &&& forall|j: int|
        0 <= j < draft.items@.len() ==> w.items@[j] == item_from_draft(
            #[trigger] draft.items@[j],
            pre.next_id + j,
            id as int,
        )
    &&& post.items@ == items_not_of(pre.items@, id) + w.items@
    &&& post.next_id as int == pre.next_id + draft.items@.len()
    &&& post.estimates == pre.estimates
    &&& post.recurring == pre.recurring
    &&& post.clients == pre.clients
    &&& post.products == pre.products
    &&& post.companies == pre.companies
    &&& post.users == pre.users
}

/// What a successful invoice deletion does: the invoice row and every line
/// item bound to it are gone, everything else is untouched.
pub open spec fn delete_invoice_effect(pre: Store, post: Store, id: i32) -> bool {
    &&& post.invoices@ == pre.invoices@.filter(|v: Invoice| v.id != id)
    &&& post.items@ == items_not_of(pre.items@, id)
    &&& post.next_id == pre.next_id
    &&& post.estimates == pre.estimates
    &&& post.recurring == pre.recurring
    &&& post.clients == pre.clients
    &&& post.products == pre.products
    &&& post.companies == pre.companies
    &&& post.users == pre.users
}

/// What marking an invoice sent does: exactly one owned row is rewritten,
/// moving status `draft` to `sent` and leaving any other status (and every
/// other field) as it was.
pub open spec fn mark_sent_effect(pre: Store, post: Store, caller: i32, id: i32) -> bool {
    &&& exists|i: int|
        0 <= i < pre.invoices@.len() && (#[trigger] pre.invoices@[i]).id == id
            && pre.invoices@[i].user_id == caller && post.invoices@ == pre.invoices@.update(
            i,
            post.invoices@[i],
        ) && {
            let row = pre.invoices@[i];
            let new_row = post.invoices@[i];
            &&& new_row.id == row.id
            &&& new_row.user_id == row.user_id
            &&& new_row.client_id == row.client_id
            &&& new_row.client_name == row.client_name
            &&& new_row.client_email == row.client_email
            &&& new_row.invoice_number == row.invoice_number
            &&& new_row.total == row.total
            &&& new_row.due_date == row.due_date
            &&& new_row.notes == row.notes
            &&& new_row.created == row.created
            &&& new_row.status@ == if row.status@ == "draft"@ {
                "sent"@
            } else {
                row.status@
            }
        }
    &&& post.items == pre.items
    &&& post.next_id == pre.next_id
    &&& post.estimates == pre.estimates
    &&& post.recurring == pre.recurring
    &&& post.clients == pre.clients
    &&& post.products == pre.products
    &&& post.companies == pre.companies
    &&& post.users == pre.users
}

/// The caller's invoices in reverse storage order (newest first), from
/// index `i` on, each with the joined client name.
pub open spec fn desc_listing(s: Seq<Invoice>, clients: Seq<Client>, caller: i32, i: int) -> Seq<
    Invoice,
>
    decreases s.len() - i,
{
    if i < 0 || i >= s.len() {
        Seq::empty()
    } else {
        desc_listing(s, clients, caller, i + 1) + if s[i].user_id == caller {
            seq![enrich_list(s[i], clients)]
        } else {
            Seq::empty()
        }
    }
}

} // verus!
