//! Estimate rows: caller-scoped CRUD with the same ownership policy as
//! invoices, but no line-item breakdown.

use vstd::pervasive::VecAdditionalExecFns;
use vstd::prelude::*;

use crate::ServiceError;
use crate::date::Date;
use crate::seq_util::{lemma_filter_distinct_keys, lemma_filter_push};
use crate::store::Store;
use crate::types::{Client, Estimate, EstimateDraft, estimate_from_draft};

verus! {

/// The caller owns an estimate row with this identifier.
pub open spec fn has_owned_estimate(s: Seq<Estimate>, caller: i32, id: i32) -> bool {
    exists|i: int| 0 <= i < s.len() && (#[trigger] s[i]).id == id && s[i].user_id == caller
}

/// An estimate as reads return it: the client display name joined in.
pub open spec fn enrich_estimate(e: Estimate, clients: Seq<Client>) -> Estimate {
    match crate::store::found_client(clients, e.client_id) {
        None => Estimate { client_name: None, ..e },
        Some(c) => Estimate { client_name: Some(c.name), ..e },
    }
}

/// The caller's estimates in storage order, from index `i` on, each with
/// the joined client name.
pub open spec fn estimate_listing(s: Seq<Estimate>, clients: Seq<Client>, caller: i32, i: int) -> Seq<
    Estimate,
>
    decreases s.len() - i,
{
    if i < 0 || i >= s.len() {
        Seq::empty()
    } else {
        (if s[i].user_id == caller {
            seq![enrich_estimate(s[i], clients)]
        } else {
            Seq::empty()
        }) + estimate_listing(s, clients, caller, i + 1)
    }
}

/// The estimate row an update writes: submitted fields replace the stored
/// ones, while identifier, owner and creation date are kept.
pub open spec fn estimate_updated(d: EstimateDraft, row: Estimate) -> Estimate {
    Estimate {
        id: row.id,
        user_id: row.user_id,
        client_id: d.client_id,
        client_name: None,
        estimate_number: d.estimate_number,
        status: d.status,
        total: d.total,
        issue_date: d.issue_date,
        expiry_date: d.expiry_date,
        created: row.created,
    }
}

/// What a successful estimate update does.
pub open spec fn update_estimate_effect(
    pre: Store,
    post: Store,
    caller: i32,
    id: i32,
    draft: EstimateDraft,
    ret: Estimate,
) -> bool {
    &&& exists|i: int|
        0 <= i < pre.estimates@.len() && (#[trigger] pre.estimates@[i]).id == id
            && pre.estimates@[i].user_id == caller && ret == estimate_updated(
            draft,
            pre.estimates@[i],
        ) && post.estimates@ == pre.estimates@.update(i, ret)
    &&& post.invoices == pre.invoices
    &&& post.items == pre.items
    &&& post.recurring == pre.recurring
    &&& post.clients == pre.clients
    &&& post.products == pre.products
    &&& post.companies == pre.companies
    &&& post.users == pre.users
    &&& post.next_id == pre.next_id
}

impl Store {
    /// The position of the caller's estimate with this identifier.
    fn find_estimate(&self, caller: i32, id: i32) -> (r: Option<usize>)
        ensures
            match r {
                Some(i) => 0 <= i < self.estimates@.len() && self.estimates@[i as int].id == id
                    && self.estimates@[i as int].user_id == caller,
                None => !has_owned_estimate(self.estimates@, caller, id),
            },
    {
        let n = self.estimates.len();
        let mut k: usize = 0;
        while k < n
            invariant
                k <= n,
                n == self.estimates@.len(),
                forall|i: int|
                    0 <= i < k ==> !((#[trigger] self.estimates@[i]).id == id
                        && self.estimates@[i].user_id == caller),
            decreases n - k,
        {
            if self.estimates[k].id == id && self.estimates[k].user_id == caller {
                return Some(k);
            }
            k = k + 1;
        }
        None
    }

    /// Fills the joined client name of an estimate read.
    fn enrich_estimate_row(&self, e: &Estimate) -> (r: Estimate)
        ensures
            r == enrich_estimate(*e, self.clients@),
    {
        let mut out = e.clone();
        match e.client_id {
            None => {
                out.client_name = None;
            },
            Some(c) => {
                match self.find_client_pos(c) {
                    None => {
                        out.client_name = None;
                    },
                    Some(k) => {
                        out.client_name = Some(self.clients[k].name.clone());
                    },
                }
            },
        }
        out
    }

    /// Creates an estimate owned by the caller; fails only when the store
    /// cannot assign an identifier.
    pub fn create_estimate(&mut self, caller: i32, draft: EstimateDraft, today: Date) -> (r: Result<
        Estimate,
        ServiceError,
    >)
        requires
            old(self).wf(),
        ensures
            final(self).wf(),
            r is Ok <==> old(self).next_id < i32::MAX,
            r matches Ok(e) ==> e == estimate_from_draft(draft, old(self).next_id as int, caller, today)
                && final(self).estimates@ == old(self).estimates@.push(e)
                && final(self).next_id == old(self).next_id + 1
                && final(self).invoices == old(self).invoices
                && final(self).items == old(self).items
                && final(self).recurring == old(self).recurring
                && final(self).clients == old(self).clients
                && final(self).products == old(self).products
                && final(self).companies == old(self).companies
                && final(self).users == old(self).users,
            r is Err ==> *final(self) == *old(self) && r == Err::<Estimate, ServiceError>(
                ServiceError::Internal,
            ),
    {
        if self.next_id >= i32::MAX {
            return Err(ServiceError::Internal);
        }
        let id = self.next_id;
        let EstimateDraft { client_id, estimate_number, status, total, issue_date, expiry_date } =
            draft;
        let row = Estimate {
            id,
            user_id: caller,
            client_id,
            client_name: None,
            estimate_number,
            status,
            total,
            issue_date,
            expiry_date,
            created: today,
        };
        let ret = row.clone();
        self.estimates.push(row);
        self.next_id = id + 1;
        proof {
            let pre = *old(self);
            let post = *self;
            assert forall|i: int| 0 <= i < post.estimates@.len() implies 1 <= (
            #[trigger] post.estimates@[i]).id < post.next_id as int by {
                if i < pre.estimates@.len() {
                    assert(post.estimates@[i] == pre.estimates@[i]);
                }
            }
            assert forall|i: int, j: int| #![trigger post.estimates@[i].id, post.estimates@[j].id]
                0 <= i < j < post.estimates@.len() implies post.estimates@[i].id
                != post.estimates@[j].id by {
                if j < pre.estimates@.len() {
                    assert(pre.estimates@[i].id != pre.estimates@[j].id);
                } else {
                    assert(post.estimates@[i] == pre.estimates@[i]);
                }
            }
        }
        Ok(ret)
    }

    /// Reads one owned estimate; anyone else's is `NotFound`.
    pub fn get_estimate(&self, caller: i32, id: i32) -> (r: Result<Estimate, ServiceError>)
        ensures
            r is Ok <==> has_owned_estimate(self.estimates@, caller, id),
            r is Err ==> r == Err::<Estimate, ServiceError>(ServiceError::NotFound),
            r matches Ok(e) ==> exists|i: int|
                0 <= i < self.estimates@.len() && (#[trigger] self.estimates@[i]).id == id
                    && self.estimates@[i].user_id == caller && e == enrich_estimate(
                    self.estimates@[i],
                    self.clients@,
                ),
    {
        match self.find_estimate(caller, id) {
            None => Err(ServiceError::NotFound),
            Some(k) => Ok(self.enrich_estimate_row(&self.estimates[k])),
        }
    }

    /// Lists the caller's estimates in storage order.
    pub fn list_estimates(&self, caller: i32) -> (r: Vec<Estimate>)
        ensures
            r@ == estimate_listing(self.estimates@, self.clients@, caller, 0),
    {
        let mut out: Vec<Estimate> = Vec::new();
        let n = self.estimates.len();
        let mut k: usize = 0;
        while k < n
            invariant
                k <= n,
                n == self.estimates@.len(),
                out@ + estimate_listing(self.estimates@, self.clients@, caller, k as int)
                    == estimate_listing(self.estimates@, self.clients@, caller, 0),
            decreases n - k,
        {
            if self.estimates[k].user_id == caller {
                let e = self.enrich_estimate_row(&self.estimates[k]);
                out.push(e);
            }
            k = k + 1;
            proof {
                assert(out@ + estimate_listing(self.estimates@, self.clients@, caller, k as int)
                    =~= estimate_listing(self.estimates@, self.clients@, caller, 0));
            }
        }
        proof {
            assert(out@ =~= estimate_listing(self.estimates@, self.clients@, caller, 0));
        }
        out
    }

    /// Replaces an owned estimate in place, keeping identifier, owner and
    /// creation date. Anyone else's estimate is `NotFound`.
    pub fn update_estimate(&mut self, caller: i32, id: i32, draft: EstimateDraft) -> (r: Result<
        Estimate,
        ServiceError,
    >)
        requires
            old(self).wf(),
        ensures
            final(self).wf(),
            r is Ok <==> has_owned_estimate(old(self).estimates@, caller, id),
            r is Err ==> *final(self) == *old(self) && r == Err::<Estimate, ServiceError>(
                ServiceError::NotFound,
            ),
            r matches Ok(e) ==> update_estimate_effect(
                *old(self),
                *final(self),
                caller,
                id,
                draft,
                e,
            ),
    {
        let k = match self.find_estimate(caller, id) {
            None => {
                return Err(ServiceError::NotFound);
            },
            Some(k) => k,
        };
        let EstimateDraft { client_id, estimate_number, status, total, issue_date, expiry_date } =
            draft;
        let row = Estimate {
            id: self.estimates[k].id,
            user_id: self.estimates[k].user_id,
            client_id,
            client_name: None,
            estimate_number,
            status,
            total,
            issue_date,
            expiry_date,
            created: self.estimates[k].created,
        };
        let ret = row.clone();
        self.estimates.set(k, row);
        proof {
            let pre = *old(self);
            let post = *self;
            assert forall|i: int| 0 <= i < post.estimates@.len() implies 1 <= (
            #[trigger] post.estimates@[i]).id < post.next_id as int by {
                assert(post.estimates@[i].id == pre.estimates@[i].id);
            }
            assert forall|i: int, j: int| #![trigger post.estimates@[i].id, post.estimates@[j].id]
                0 <= i < j < post.estimates@.len() implies post.estimates@[i].id
                != post.estimates@[j].id by {
                assert(post.estimates@[i].id == pre.estimates@[i].id);
                assert(post.estimates@[j].id == pre.estimates@[j].id);
            }
        }
        Ok(ret)
    }

    /// Deletes an owned estimate; anyone else's, or a missing one, is
    /// `NotFound`.
    pub fn delete_estimate(&mut self, caller: i32, id: i32) -> (r: Result<(), ServiceError>)
        requires
            old(self).wf(),
        ensures
            final(self).wf(),
            r is Ok <==> has_owned_estimate(old(self).estimates@, caller, id),
            r is Err ==> *final(self) == *old(self) && r == Err::<(), ServiceError>(
                ServiceError::NotFound,
            ),
            r is Ok ==> final(self).estimates@ == old(self).estimates@.filter(
                |e: Estimate| e.id != id,
            ) && final(self).invoices == old(self).invoices && final(self).items == old(self).items
                && final(self).recurring == old(self).recurring && final(self).clients == old(
                self,
            ).clients && final(self).products == old(self).products && final(self).companies == old(
                self,
            ).companies && final(self).users == old(self).users && final(self).next_id == old(
                self,
            ).next_id,
    {
        match self.find_estimate(caller, id) {
            None => {
                return Err(ServiceError::NotFound);
            },
            Some(_) => {},
        }
        let mut out: Vec<Estimate> = Vec::new();
        let n = self.estimates.len();
        let mut k: usize = 0;
        while k < n
            invariant
                k <= n,
                n == self.estimates@.len(),
                out@ == self.estimates@.subrange(0, k as int).filter(|e: Estimate| e.id != id),
            decreases n - k,
        {
            proof {
                assert(self.estimates@.subrange(0, k + 1 as int) =~= self.estimates@.subrange(
                    0,
                    k as int,
                ).push(self.estimates@[k as int]));
                lemma_filter_push(
                    self.estimates@.subrange(0, k as int),
                    self.estimates@[k as int],
                    |e: Estimate| e.id != id,
                );
            }
            if self.estimates[k].id != id {
                out.push(self.estimates[k].clone());
            }
            k = k + 1;
        }
        proof {
            assert(self.estimates@.subrange(0, n as int) =~= self.estimates@);
        }
        self.estimates = out;
        proof {
            let pre = *old(self);
            lemma_filter_distinct_keys(
                pre.estimates@,
                |e: Estimate| e.id != id,
                |e: Estimate| e.id as int,
                1,
                pre.next_id as int,
            );
        }
        Ok(())
    }
}

} // verus!
