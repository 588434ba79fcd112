//! Client and product master data and per-caller company settings: the
//! caller-scoped single-table CRUD the billing engine consults for joins,
//! dashboard counts and exports.

use vstd::pervasive::VecAdditionalExecFns;
use vstd::prelude::*;

use crate::ServiceError;
use crate::seq_util::{lemma_filter_distinct_keys, lemma_filter_push};
use crate::store::Store;
use crate::types::{
    Client, ClientDraft, CompanyDraft, CompanySettings, Product, ProductDraft, client_from_draft,
    company_from_draft, product_from_draft,
};

verus! {

/// Everything but the client table and the identifier counter is as it was.
pub open spec fn client_frame(pre: Store, post: Store) -> bool {
    &&& post.invoices == pre.invoices
    &&& post.items == pre.items
    &&& post.estimates == pre.estimates
    &&& post.recurring == pre.recurring
    &&& post.products == pre.products
    &&& post.companies == pre.companies
    &&& post.users == pre.users
}

/// Everything but the product table and the identifier counter is as it
/// was.
pub open spec fn product_frame(pre: Store, post: Store) -> bool {
    &&& post.invoices == pre.invoices
    &&& post.items == pre.items
    &&& post.estimates == pre.estimates
    &&& post.recurring == pre.recurring
    &&& post.clients == pre.clients
    &&& post.companies == pre.companies
    &&& post.users == pre.users
}

/// Everything but the settings table and the identifier counter is as it
/// was.
pub open spec fn company_frame(pre: Store, post: Store) -> bool {
    &&& post.invoices == pre.invoices
    &&& post.items == pre.items
    &&& post.estimates == pre.estimates
    &&& post.recurring == pre.recurring
    &&& post.clients == pre.clients
    &&& post.products == pre.products
    &&& post.users == pre.users
}

/// The caller owns a client row with this identifier.
pub open spec fn has_owned_client(s: Seq<Client>, caller: i32, id: i32) -> bool {
    exists|i: int| 0 <= i < s.len() && (#[trigger] s[i]).id == id && s[i].user_id == caller
}

/// The caller owns a product row with this identifier.
pub open spec fn has_owned_product(s: Seq<Product>, caller: i32, id: i32) -> bool {
    exists|i: int| 0 <= i < s.len() && (#[trigger] s[i]).id == id && s[i].user_id == caller
}

/// The caller has a settings row.
pub open spec fn has_company(s: Seq<CompanySettings>, caller: i32) -> bool {
    exists|i: int| 0 <= i < s.len() && (#[trigger] s[i]).user_id == caller
}

/// The caller's clients in storage order, from index `i` on.
pub open spec fn client_listing(s: Seq<Client>, caller: i32, i: int) -> Seq<Client>
    decreases s.len() - i,
{
    if i < 0 || i >= s.len() {
        Seq::empty()
    } else {
        (if s[i].user_id == caller {
            seq![s[i]]
        } else {
            Seq::empty()
        }) + client_listing(s, caller, i + 1)
    }
}

/// The caller's products in storage order, from index `i` on.
pub open spec fn product_listing(s: Seq<Product>, caller: i32, i: int) -> Seq<Product>
    decreases s.len() - i,
{
    if i < 0 || i >= s.len() {
        Seq::empty()
    } else {
        (if s[i].user_id == caller {
            seq![s[i]]
        } else {
            Seq::empty()
        }) + product_listing(s, caller, i + 1)
    }
}

/// The client row an update writes: submitted fields replace the stored
/// ones, identifier and owner are kept.
pub open spec fn client_updated(d: ClientDraft, row: Client) -> Client {
    Client {
        id: row.id,
        user_id: row.user_id,
        name: d.name,
        email: d.email,
        phone: d.phone,
        address: d.address,
        tax_id: d.tax_id,
        payment_terms: d.payment_terms,
        notes: d.notes,
        status: d.status,
    }
}

/// The product row an update writes.
pub open spec fn product_updated(d: ProductDraft, row: Product) -> Product {
    Product {
        id: row.id,
        user_id: row.user_id,
        name: d.name,
        description: d.description,
        price: d.price,
    }
}

impl Store {
    /// The position of the caller's client row with this identifier.
    fn find_owned_client(&self, caller: i32, id: i32) -> (r: Option<usize>)
        ensures
            match r {
                Some(i) => 0 <= i < self.clients@.len() && self.clients@[i as int].id == id
                    && self.clients@[i as int].user_id == caller,
                None => !has_owned_client(self.clients@, caller, id),
            },
    {
        let n = self.clients.len();
        let mut k: usize = 0;
        while k < n
            invariant
                k <= n,
                n == self.clients@.len(),
                forall|i: int|
                    0 <= i < k ==> !((#[trigger] self.clients@[i]).id == id
                        && self.clients@[i].user_id == caller),
            decreases n - k,
        {
            if self.clients[k].id == id && self.clients[k].user_id == caller {
                return Some(k);
            }
            k = k + 1;
        }
        None
    }

    /// The position of the caller's product row with this identifier.
    fn find_owned_product(&self, caller: i32, id: i32) -> (r: Option<usize>)
        ensures
            match r {
                Some(i) => 0 <= i < self.products@.len() && self.products@[i as int].id == id
                    && self.products@[i as int].user_id == caller,
                None => !has_owned_product(self.products@, caller, id),
            },
    {
        let n = self.products.len();
        let mut k: usize = 0;
        while k < n
            invariant
                k <= n,
                n == self.products@.len(),
                forall|i: int|
                    0 <= i < k ==> !((#[trigger] self.products@[i]).id == id
                        && self.products@[i].user_id == caller),
            decreases n - k,
        {
            if self.products[k].id == id && self.products[k].user_id == caller {
                return Some(k);
            }
            k = k + 1;
        }
        None
    }

    /// The position of the caller's settings row.
    fn find_company(&self, caller: i32) -> (r: Option<usize>)
        ensures
            match r {
                Some(i) => 0 <= i < self.companies@.len() && self.companies@[i as int].user_id
                    == caller,
                None => !has_company(self.companies@, caller),
            },
    {
        let n = self.companies.len();
        let mut k: usize = 0;
        while k < n
            invariant
                k <= n,
                n == self.companies@.len(),
                forall|i: int| 0 <= i < k ==> (#[trigger] self.companies@[i]).user_id != caller,
            decreases n - k,
        {
            if self.companies[k].user_id == caller {
                return Some(k);
            }
            k = k + 1;
        }
        None
    }

    /// Creates a client row owned by the caller; fails only when the store
    /// cannot assign an identifier.
    pub fn create_client(&mut self, caller: i32, draft: ClientDraft) -> (r: Result<
        Client,
        ServiceError,
    >)
        requires
            old(self).wf(),
        ensures
            final(self).wf(),
            r is Ok <==> old(self).next_id < i32::MAX,
            r matches Ok(c) ==> c == client_from_draft(draft, old(self).next_id as int, caller)
                && final(self).clients@ == old(self).clients@.push(c) && final(self).next_id == old(
                self,
            ).next_id + 1 && client_frame(*old(self), *final(self)),
            r is Err ==> *final(self) == *old(self) && r == Err::<Client, ServiceError>(
                ServiceError::Internal,
            ),
    {
        if self.next_id >= i32::MAX {
            return Err(ServiceError::Internal);
        }
        let id = self.next_id;
        let ClientDraft { name, email, phone, address, tax_id, payment_terms, notes, status } =
            draft;
        let row = Client {
            id,
            user_id: caller,
            name,
            email,
            phone,
            address,
            tax_id,
            payment_terms,
            notes,
            status,
        };
        let ret = row.clone();
        self.clients.push(row);
        self.next_id = id + 1;
        proof {
            let pre = *old(self);
            let post = *self;
            assert forall|i: int| 0 <= i < post.clients@.len() implies 1 <= (
            #[trigger] post.clients@[i]).id < post.next_id as int by {
                if i < pre.clients@.len() {
                    assert(post.clients@[i] == pre.clients@[i]);
                }
            }
            assert forall|i: int, j: int| #![trigger post.clients@[i].id, post.clients@[j].id]
                0 <= i < j < post.clients@.len() implies post.clients@[i].id
                != post.clients@[j].id by {
                if j < pre.clients@.len() {
                    assert(pre.clients@[i].id != pre.clients@[j].id);
                } else {
                    assert(post.clients@[i] == pre.clients@[i]);
                }
            }
        }
        Ok(ret)
    }

    /// Reads one owned client row; anyone else's is `NotFound`.
    pub fn get_client(&self, caller: i32, id: i32) -> (r: Result<Client, ServiceError>)
        ensures
            r is Ok <==> has_owned_client(self.clients@, caller, id),
            r is Err ==> r == Err::<Client, ServiceError>(ServiceError::NotFound),
            r matches Ok(c) ==> exists|i: int|
                0 <= i < self.clients@.len() && (#[trigger] self.clients@[i]).id == id
                    && self.clients@[i].user_id == caller && c == self.clients@[i],
    {
        match self.find_owned_client(caller, id) {
            None => Err(ServiceError::NotFound),
            Some(k) => Ok(self.clients[k].clone()),
        }
    }

    /// Lists the caller's clients in storage order.
    pub fn list_clients(&self, caller: i32) -> (r: Vec<Client>)
        ensures
            r@ == client_listing(self.clients@, caller, 0),
    {
        let mut out: Vec<Client> = Vec::new();
        let n = self.clients.len();
        let mut k: usize = 0;
        while k < n
            invariant
                k <= n,
                n == self.clients@.len(),
                out@ + client_listing(self.clients@, caller, k as int) == client_listing(
                    self.clients@,
                    caller,
                    0,
                ),
            decreases n - k,
        {
            if self.clients[k].user_id == caller {
                out.push(self.clients[k].clone());
            }
            k = k + 1;
            proof {
                assert(out@ + client_listing(self.clients@, caller, k as int) =~= client_listing(
                    self.clients@,
                    caller,
                    0,
                ));
            }
        }
        proof {
            assert(out@ =~= client_listing(self.clients@, caller, 0));
        }
        out
    }

    /// Replaces an owned client row in place, keeping identifier and owner.
    pub fn update_client(&mut self, caller: i32, id: i32, draft: ClientDraft) -> (r: Result<
        Client,
        ServiceError,
    >)
        requires
            old(self).wf(),
        ensures
            final(self).wf(),
            r is Ok <==> has_owned_client(old(self).clients@, caller, id),
            r is Err ==> *final(self) == *old(self) && r == Err::<Client, ServiceError>(
                ServiceError::NotFound,
            ),
            r matches Ok(c) ==> exists|i: int|
                0 <= i < old(self).clients@.len() && (#[trigger] old(self).clients@[i]).id == id
                    && old(self).clients@[i].user_id == caller && c == client_updated(
                    draft,
                    old(self).clients@[i],
                ) && final(self).clients@ == old(self).clients@.update(i, c) && final(self).next_id
                    == old(self).next_id && client_frame(*old(self), *final(self)),
    {
        let k = match self.find_owned_client(caller, id) {
            None => {
                return Err(ServiceError::NotFound);
            },
            Some(k) => k,
        };
        let ClientDraft { name, email, phone, address, tax_id, payment_terms, notes, status } =
            draft;
        let row = Client {
            id: self.clients[k].id,
            user_id: self.clients[k].user_id,
            name,
            email,
            phone,
            address,
            tax_id,
            payment_terms,
            notes,
            status,
        };
        let ret = row.clone();
        self.clients.set(k, row);
        proof {
            let pre = *old(self);
            let post = *self;
            assert forall|i: int| 0 <= i < post.clients@.len() implies 1 <= (
            #[trigger] post.clients@[i]).id < post.next_id as int by {
                assert(post.clients@[i].id == pre.clients@[i].id);
            }
            assert forall|i: int, j: int| #![trigger post.clients@[i].id, post.clients@[j].id]
                0 <= i < j < post.clients@.len() implies post.clients@[i].id
                != post.clients@[j].id by {
                assert(post.clients@[i].id == pre.clients@[i].id);
                assert(post.clients@[j].id == pre.clients@[j].id);
            }
        }
        Ok(ret)
    }

    /// Deletes an owned client row; anyone else's, or a missing one, is
    /// `NotFound`.
    pub fn delete_client(&mut self, caller: i32, id: i32) -> (r: Result<(), ServiceError>)
        requires
            old(self).wf(),
        ensures
            final(self).wf(),
            r is Ok <==> has_owned_client(old(self).clients@, caller, id),
            r is Err ==> *final(self) == *old(self) && r == Err::<(), ServiceError>(
                ServiceError::NotFound,
            ),
            r is Ok ==> final(self).clients@ == old(self).clients@.filter(|c: Client| c.id != id)
                && client_frame(*old(self), *final(self)) && final(self).next_id == old(
                self,
            ).next_id,
    {
        match self.find_owned_client(caller, id) {
            None => {
                return Err(ServiceError::NotFound);
            },
            Some(_) => {},
        }
        let mut out: Vec<Client> = Vec::new();
        let n = self.clients.len();
        let mut k: usize = 0;
        while k < n
            invariant
                k <= n,
                n == self.clients@.len(),
                out@ == self.clients@.subrange(0, k as int).filter(|c: Client| c.id != id),
            decreases n - k,
        {
            proof {
                assert(self.clients@.subrange(0, k + 1 as int) =~= self.clients@.subrange(
                    0,
                    k as int,
                ).push(self.clients@[k as int]));
                lemma_filter_push(
                    self.clients@.subrange(0, k as int),
                    self.clients@[k as int],
                    |c: Client| c.id != id,
                );
            }
            if self.clients[k].id != id {
                out.push(self.clients[k].clone());
            }
            k = k + 1;
        }
        proof {
            assert(self.clients@.subrange(0, n as int) =~= self.clients@);
        }
        self.clients = out;
        proof {
            lemma_filter_distinct_keys(
                old(self).clients@,
                |c: Client| c.id != id,
                |c: Client| c.id as int,
                1,
                old(self).next_id as int,
            );
        }
        Ok(())
    }

    /// Creates a product row owned by the caller; fails only when the store
    /// cannot assign an identifier.
    pub fn create_product(&mut self, caller: i32, draft: ProductDraft) -> (r: Result<
        Product,
        ServiceError,
    >)
        requires
            old(self).wf(),
        ensures
            final(self).wf(),
            r is Ok <==> old(self).next_id < i32::MAX,
            r matches Ok(p) ==> p == product_from_draft(draft, old(self).next_id as int, caller)
                && final(self).products@ == old(self).products@.push(p) && final(self).next_id
                == old(self).next_id + 1 && product_frame(*old(self), *final(self)),
            r is Err ==> *final(self) == *old(self) && r == Err::<Product, ServiceError>(
                ServiceError::Internal,
            ),
    {
        if self.next_id >= i32::MAX {
            return Err(ServiceError::Internal);
        }
        let id = self.next_id;
        let ProductDraft { name, description, price } = draft;
        let row = Product { id, user_id: caller, name, description, price };
        let ret = row.clone();
        self.products.push(row);
        self.next_id = id + 1;
        proof {
            let pre = *old(self);
            let post = *self;
            assert forall|i: int| 0 <= i < post.products@.len() implies 1 <= (
            #[trigger] post.products@[i]).id < post.next_id as int by {
                if i < pre.products@.len() {
                    assert(post.products@[i] == pre.products@[i]);
                }
            }
            assert forall|i: int, j: int| #![trigger post.products@[i].id, post.products@[j].id]
                0 <= i < j < post.products@.len() implies post.products@[i].id
                != post.products@[j].id by {
                if j < pre.products@.len() {
                    assert(pre.products@[i].id != pre.products@[j].id);
                } else {
                    assert(post.products@[i] == pre.products@[i]);
                }
            }
        }
        Ok(ret)
    }

    /// Reads one owned product row; anyone else's is `NotFound`.
    pub fn get_product(&self, caller: i32, id: i32) -> (r: Result<Product, ServiceError>)
        ensures
            r is Ok <==> has_owned_product(self.products@, caller, id),
            r is Err ==> r == Err::<Product, ServiceError>(ServiceError::NotFound),
            r matches Ok(p) ==> exists|i: int|
                0 <= i < self.products@.len() && (#[trigger] self.products@[i]).id == id
                    && self.products@[i].user_id == caller && p == self.products@[i],
    {
        match self.find_owned_product(caller, id) {
            None => Err(ServiceError::NotFound),
            Some(k) => Ok(self.products[k].clone()),
        }
    }

    /// Lists the caller's products in storage order.
    pub fn list_products(&self, caller: i32) -> (r: Vec<Product>)
        ensures
            r@ == product_listing(self.products@, caller, 0),
    {
        let mut out: Vec<Product> = Vec::new();
        let n = self.products.len();
        let mut k: usize = 0;
        while k < n
            invariant
                k <= n,
                n == self.products@.len(),
                out@ + product_listing(self.products@, caller, k as int) == product_listing(
                    self.products@,
                    caller,
                    0,
                ),
            decreases n - k,
        {
            if self.products[k].user_id == caller {
                out.push(self.products[k].clone());
            }
            k = k + 1;
            proof {
                assert(out@ + product_listing(self.products@, caller, k as int) =~= product_listing(
                    self.products@,
                    caller,
                    0,
                ));
            }
        }
        proof {
            assert(out@ =~= product_listing(self.products@, caller, 0));
        }
        out
    }

    /// Replaces an owned product row in place, keeping identifier and
    /// owner.
    pub fn update_product(&mut self, caller: i32, id: i32, draft: ProductDraft) -> (r: Result<
        Product,
        ServiceError,
    >)
        requires
            old(self).wf(),
        ensures
            final(self).wf(),
            r is Ok <==> has_owned_product(old(self).products@, caller, id),
            r is Err ==> *final(self) == *old(self) && r == Err::<Product, ServiceError>(
                ServiceError::NotFound,
            ),
            r matches Ok(p) ==> exists|i: int|
                0 <= i < old(self).products@.len() && (#[trigger] old(self).products@[i]).id == id
                    && old(self).products@[i].user_id == caller && p == product_updated(
                    draft,
                    old(self).products@[i],
                ) && final(self).products@ == old(self).products@.update(i, p)
                    && final(self).next_id == old(self).next_id
                    && product_frame(*old(self), *final(self)),
    {
        let k = match self.find_owned_product(caller, id) {
            None => {
                return Err(ServiceError::NotFound);
            },
            Some(k) => k,
        };
        let ProductDraft { name, description, price } = draft;
        let row = Product {
            id: self.products[k].id,
            user_id: self.products[k].user_id,
            name,
            description,
            price,
        };
        let ret = row.clone();
        self.products.set(k, row);
        proof {
            let pre = *old(self);
            let post = *self;
            assert forall|i: int| 0 <= i < post.products@.len() implies 1 <= (
            #[trigger] post.products@[i]).id < post.next_id as int by {
                assert(post.products@[i].id == pre.products@[i].id);
            }
            assert forall|i: int, j: int| #![trigger post.products@[i].id, post.products@[j].id]
                0 <= i < j < post.products@.len() implies post.products@[i].id
                != post.products@[j].id by {
                assert(post.products@[i].id == pre.products@[i].id);
                assert(post.products@[j].id == pre.products@[j].id);
            }
        }
        Ok(ret)
    }

    /// Deletes an owned product row; anyone else's, or a missing one, is
    /// `NotFound`.
    pub fn delete_product(&mut self, caller: i32, id: i32) -> (r: Result<(), ServiceError>)
        requires
            old(self).wf(),
        ensures
            final(self).wf(),
            r is Ok <==> has_owned_product(old(self).products@, caller, id),
            r is Err ==> *final(self) == *old(self) && r == Err::<(), ServiceError>(
                ServiceError::NotFound,
            ),
            r is Ok ==> final(self).products@ == old(self).products@.filter(
                |p: Product| p.id != id,
            ) && product_frame(*old(self), *final(self)) && final(self).next_id == old(
                self,
            ).next_id,
    {
        match self.find_owned_product(caller, id) {
            None => {
                return Err(ServiceError::NotFound);
            },
            Some(_) => {},
        }
        let mut out: Vec<Product> = Vec::new();
        let n = self.products.len();
        let mut k: usize = 0;
        while k < n
            invariant
                k <= n,
                n == self.products@.len(),
                out@ == self.products@.subrange(0, k as int).filter(|p: Product| p.id != id),
            decreases n - k,
        {
            proof {
                assert(self.products@.subrange(0, k + 1 as int) =~= self.products@.subrange(
                    0,
                    k as int,
                ).push(self.products@[k as int]));
                lemma_filter_push(
                    self.products@.subrange(0, k as int),
                    self.products@[k as int],
                    |p: Product| p.id != id,
                );
            }
            if self.products[k].id != id {
                out.push(self.products[k].clone());
            }
            k = k + 1;
        }
        proof {
            assert(self.products@.subrange(0, n as int) =~= self.products@);
        }
        self.products = out;
        proof {
            lemma_filter_distinct_keys(
                old(self).products@,
                |p: Product| p.id != id,
                |p: Product| p.id as int,
                1,
                old(self).next_id as int,
            );
        }
        Ok(())
    }

    /// Reads the caller's company settings, creating a default row (named
    /// `My Company`, everything else unset) on first access. Fails only
    /// when a default row is needed and the store cannot assign an
    /// identifier.
    pub fn get_company(&mut self, caller: i32) -> (r: Result<CompanySettings, ServiceError>)
        requires
            old(self).wf(),
        ensures
            final(self).wf(),
            has_company(old(self).companies@, caller) ==> r is Ok && *final(self) == *old(self)
                && (r matches Ok(c) ==> exists|i: int|
                0 <= i < old(self).companies@.len() && (#[trigger] old(self).companies@[i]).user_id
                    == caller && c == old(self).companies@[i]),
            !has_company(old(self).companies@, caller) ==> {
                &&& (r is Ok <==> old(self).next_id < i32::MAX)
                &&& (r matches Ok(c) ==> c.user_id == caller && c.id == old(self).next_id
                    && c.company_name@ == "My Company"@ && c.company_email is None
                    && c.default_tax_rate is None && final(self).companies@ == old(
                    self,
                ).companies@.push(c) && final(self).next_id == old(self).next_id + 1
                    && company_frame(*old(self), *final(self)))
                &&& (r is Err ==> *final(self) == *old(self) && r == Err::<
                    CompanySettings,
                    ServiceError,
                >(ServiceError::Internal))
            },
    {
        match self.find_company(caller) {
            Some(k) => Ok(self.companies[k].clone()),
            None => {
                if self.next_id >= i32::MAX {
                    return Err(ServiceError::Internal);
                }
                let id = self.next_id;
                let row = CompanySettings {
                    id,
                    user_id: caller,
                    company_name: "My Company".to_owned(),
                    company_email: None,
                    company_phone: None,
                    company_address: None,
                    company_website: None,
                    tax_id: None,
                    logo_url: None,
                    invoice_prefix: None,
                    invoice_starting_number: None,
                    estimate_prefix: None,
                    estimate_starting_number: None,
                    default_payment_terms: None,
                    default_tax_rate: None,
                    default_currency: None,
                    default_notes: None,
                    default_terms: None,
                };
                let ret = row.clone();
                self.companies.push(row);
                self.next_id = id + 1;
                proof {
                    let pre = *old(self);
                    let post = *self;
                    assert forall|i: int| 0 <= i < post.companies@.len() implies 1 <= (
                    #[trigger] post.companies@[i]).id < post.next_id as int by {
                        if i < pre.companies@.len() {
                            assert(post.companies@[i] == pre.companies@[i]);
                        }
                    }
                    assert forall|i: int, j: int|
                        #![trigger post.companies@[i].user_id, post.companies@[j].user_id]
                        0 <= i < j < post.companies@.len() implies post.companies@[i].user_id
                        != post.companies@[j].user_id by {
                        if j < pre.companies@.len() {
                            assert(pre.companies@[i].user_id != pre.companies@[j].user_id);
                        } else {
                            assert(post.companies@[i] == pre.companies@[i]);
                        }
                    }
                }
                Ok(ret)
            },
        }
    }

    /// Writes the caller's company settings: replaces the existing row
    /// (keeping its identifier) or creates one. Fails only when a new row
    /// is needed and the store cannot assign an identifier.
    pub fn update_company(&mut self, caller: i32, draft: CompanyDraft) -> (r: Result<
        CompanySettings,
        ServiceError,
    >)
        requires
            old(self).wf(),
        ensures
            final(self).wf(),
            has_company(old(self).companies@, caller) ==> r is Ok && (r matches Ok(c) ==> exists|
                i: int,
            |
                0 <= i < old(self).companies@.len() && (#[trigger] old(self).companies@[i]).user_id
                    == caller && c == company_from_draft(
                    draft,
                    old(self).companies@[i].id as int,
                    caller,
                ) && final(self).companies@ == old(self).companies@.update(i, c)
                    && final(self).next_id == old(self).next_id
                    && company_frame(*old(self), *final(self))),
            !has_company(old(self).companies@, caller) ==> {
                &&& (r is Ok <==> old(self).next_id < i32::MAX)
                &&& (r matches Ok(c) ==> c == company_from_draft(
                    draft,
                    old(self).next_id as int,
                    caller,
                ) && final(self).companies@ == old(self).companies@.push(c) && final(self).next_id
                    == old(self).next_id + 1 && company_frame(*old(self), *final(self)))
                &&& (r is Err ==> *final(self) == *old(self) && r == Err::<
                    CompanySettings,
                    ServiceError,
                >(ServiceError::Internal))
            },
    {
        let k = self.find_company(caller);
        let id = match k {
            Some(k) => self.companies[k].id,
            None => {
                if self.next_id >= i32::MAX {
                    return Err(ServiceError::Internal);
                }
                self.next_id
            },
        };
        let CompanyDraft {
            company_name,
            company_email,
            company_phone,
            company_address,
            company_website,
            tax_id,
            logo_url,
            invoice_prefix,
            invoice_starting_number,
            estimate_prefix,
            estimate_starting_number,
            default_payment_terms,
            default_tax_rate,
            default_currency,
            default_notes,
            default_terms,
        } = draft;
        let row = CompanySettings {
            id,
            user_id: caller,
            company_name,
            company_email,
            company_phone,
            company_address,
            company_website,
            tax_id,
            logo_url,
            invoice_prefix,
            invoice_starting_number,
            estimate_prefix,
            estimate_starting_number,
            default_payment_terms,
            default_tax_rate,
            default_currency,
            default_notes,
            default_terms,
        };
        let ret = row.clone();
        match k {
            Some(k) => {
                self.companies.set(k, row);
                proof {
                    let pre = *old(self);
                    let post = *self;
                    assert forall|i: int| 0 <= i < post.companies@.len() implies 1 <= (
                    #[trigger] post.companies@[i]).id < post.next_id as int by {
                        assert(post.companies@[i].id == pre.companies@[i].id);
                    }
                    assert forall|i: int, j: int|
                        #![trigger post.companies@[i].user_id, post.companies@[j].user_id]
                        0 <= i < j < post.companies@.len() implies post.companies@[i].user_id
                        != post.companies@[j].user_id by {
                        assert(post.companies@[i].user_id == pre.companies@[i].user_id);
                        assert(post.companies@[j].user_id == pre.companies@[j].user_id);
                    }
                }
            },
            None => {
                self.companies.push(row);
                self.next_id = id + 1;
                proof {
                    let pre = *old(self);
                    let post = *self;
                    assert forall|i: int| 0 <= i < post.companies@.len() implies 1 <= (
                    #[trigger] post.companies@[i]).id < post.next_id as int by {
                        if i < pre.companies@.len() {
                            assert(post.companies@[i] == pre.companies@[i]);
                        }
                    }
                    assert forall|i: int, j: int|
                        #![trigger post.companies@[i].user_id, post.companies@[j].user_id]
                        0 <= i < j < post.companies@.len() implies post.companies@[i].user_id
                        != post.companies@[j].user_id by {
                        if j < pre.companies@.len() {
                            assert(pre.companies@[i].user_id != pre.companies@[j].user_id);
                        } else {
                            assert(post.companies@[i] == pre.companies@[i]);
                        }
                    }
                }
            },
        }
        Ok(ret)
    }
}

} // verus!
