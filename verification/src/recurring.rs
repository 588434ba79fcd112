//! Recurring-invoice templates: caller-scoped CRUD plus the firing
//! bookkeeping. The store enforces the schedule invariant: a stored
//! template's next-run date is always the one the schedule engine derives
//! from its interval, count, start date and last firing, and it never falls
//! before the start date.

use vstd::pervasive::VecAdditionalExecFns;
use vstd::prelude::*;

use crate::ServiceError;
use crate::date::{Date, date_in_range, date_le};
use crate::schedule::{
    compute_next_run, interval_advance_val, interval_of_string, lemma_next_run_not_before_start,
    next_run_val, parse_interval, valid_interval_string,
};
use crate::seq_util::{lemma_filter_distinct_keys, lemma_filter_push};
use crate::store::Store;
use crate::types::{Client, RecurringDraft, RecurringInvoice};

verus! {

/// Everything but the recurring table and the identifier counter is as it
/// was.
pub open spec fn recurring_frame(pre: Store, post: Store) -> bool {
    &&& post.invoices == pre.invoices
    &&& post.items == pre.items
    &&& post.estimates == pre.estimates
    &&& post.clients == pre.clients
    &&& post.products == pre.products
    &&& post.companies == pre.companies
    &&& post.users == pre.users
}

/// The caller owns a recurring template with this identifier.
pub open spec fn has_owned_recurring(s: Seq<RecurringInvoice>, caller: i32, id: i32) -> bool {
    exists|i: int| 0 <= i < s.len() && (#[trigger] s[i]).id == id && s[i].user_id == caller
}

/// A template as reads return it: the client display name joined in.
pub open spec fn enrich_recurring(r: RecurringInvoice, clients: Seq<Client>) -> RecurringInvoice {
    match crate::store::found_client(clients, r.client_id) {
        None => RecurringInvoice { client_name: None, ..r },
        Some(c) => RecurringInvoice { client_name: Some(c.name), ..r },
    }
}

/// The caller's templates in storage order, from index `i` on.
pub open spec fn recurring_listing(
    s: Seq<RecurringInvoice>,
    clients: Seq<Client>,
    caller: i32,
    i: int,
) -> Seq<RecurringInvoice>
    decreases s.len() - i,
{
    if i < 0 || i >= s.len() {
        Seq::empty()
    } else {
        (if s[i].user_id == caller {
            seq![enrich_recurring(s[i], clients)]
        } else {
            Seq::empty()
        }) + recurring_listing(s, clients, caller, i + 1)
    }
}

/// A draft whose schedule fields the store accepts: a known interval unit,
/// a positive count and a storable start date.
pub open spec fn recurring_draft_ok(d: RecurringDraft) -> bool {
    &&& valid_interval_string(d.interval@)
    &&& d.interval_count >= 1
    &&& date_in_range(d.start_date@)
}

/// The template a draft creates: it has never fired, so its next-run date
/// is its start date.
pub open spec fn recurring_from_draft(d: RecurringDraft, id: int, caller: i32, today: Date) -> RecurringInvoice {
    RecurringInvoice {
        id: id as i32,
        user_id: caller,
        client_id: d.client_id,
        client_name: None,
        interval: d.interval,
        interval_count: d.interval_count,
        start_date: d.start_date,
        next_run: Some(d.start_date),
        last_run: None,
        status: d.status,
        total: d.total,
        created: today,
    }
}

/// The template an update writes: identifier, owner, creation date and the
/// firing history are kept; the schedule fields are replaced and the
/// next-run date is re-derived from them.
pub open spec fn recurring_updated(d: RecurringDraft, row: RecurringInvoice, next: Date) -> RecurringInvoice {
    RecurringInvoice {
        id: row.id,
        user_id: row.user_id,
        client_id: d.client_id,
        client_name: None,
        interval: d.interval,
        interval_count: d.interval_count,
        start_date: d.start_date,
        next_run: Some(next),
        last_run: row.last_run,
        status: d.status,
        total: d.total,
        created: row.created,
    }
}

/// What a successful template update does.
pub open spec fn update_recurring_effect(
    pre: Store,
    post: Store,
    caller: i32,
    id: i32,
    draft: RecurringDraft,
    ret: RecurringInvoice,
) -> bool {
    &&& exists|i: int|
        0 <= i < pre.recurring@.len() && (#[trigger] pre.recurring@[i]).id == id
            && pre.recurring@[i].user_id == caller && ret == recurring_updated(
            draft,
            pre.recurring@[i],
            match ret.next_run {
                Some(n) => n,
                None => draft.start_date,
            },
        ) && post.recurring@ == pre.recurring@.update(i, ret)
    &&& ret.next_run matches Some(n) && n@ == next_run_val(
        interval_of_string(draft.interval@),
        draft.interval_count as nat,
        draft.start_date@,
        match ret.last_run {
            Some(l) => Some(l@),
            None => None,
        },
    )
    &&& post.invoices == pre.invoices
    &&& post.items == pre.items
    &&& post.estimates == pre.estimates
    &&& post.clients == pre.clients
    &&& post.products == pre.products
    &&& post.companies == pre.companies
    &&& post.users == pre.users
    &&& post.next_id == pre.next_id
}

/// What marking a template fired does: its last-run date becomes the firing
/// date and its next-run date is re-derived; nothing else changes.
pub open spec fn mark_fired_effect(
    pre: Store,
    post: Store,
    caller: i32,
    id: i32,
    fired_on: Date,
) -> bool {
    &&& exists|i: int|
        0 <= i < pre.recurring@.len() && (#[trigger] pre.recurring@[i]).id == id
            && pre.recurring@[i].user_id == caller && {
            let row = pre.recurring@[i];
            let new_row = post.recurring@[i];
            &&& post.recurring@ == pre.recurring@.update(i, new_row)
            &&& new_row == RecurringInvoice {
                next_run: new_row.next_run,
                last_run: Some(fired_on),
                ..row
            }
            &&& new_row.next_run matches Some(n) && n@ == next_run_val(
                interval_of_string(row.interval@),
                row.interval_count as nat,
                row.start_date@,
                Some(fired_on@),
            )
        }
    &&& post.invoices == pre.invoices
    &&& post.items == pre.items
    &&& post.estimates == pre.estimates
    &&& post.clients == pre.clients
    &&& post.products == pre.products
    &&& post.companies == pre.companies
    &&& post.users == pre.users
    &&& post.next_id == pre.next_id
}

/// The conditions under which a firing on `fired_on` is accepted for a
/// stored template: a storable date, no earlier than the template's start
/// date, and no earlier than its recorded last firing.
pub open spec fn firing_acceptable(row: RecurringInvoice, fired_on: Date) -> bool {
    &&& date_in_range(fired_on@)
    &&& date_le(row.start_date@, fired_on@)
    &&& match row.last_run {
        Some(l) => date_le(l@, fired_on@),
        None => true,
    }
}

/// The schedule re-derived from this firing stays in the storable range of
/// years.
pub open spec fn firing_in_year_range(row: RecurringInvoice, fired_on: Date) -> bool {
    interval_advance_val(
        interval_of_string(row.interval@),
        row.interval_count as nat,
        fired_on@,
    ).y <= crate::date::MAX_YEAR as int
}

impl Store {
    /// The position of the caller's template with this identifier.
    fn find_recurring(&self, caller: i32, id: i32) -> (r: Option<usize>)
        ensures
            match r {
                Some(i) => 0 <= i < self.recurring@.len() && self.recurring@[i as int].id == id
                    && self.recurring@[i as int].user_id == caller,
                None => !has_owned_recurring(self.recurring@, caller, id),
            },
    {
        let n = self.recurring.len();
        let mut k: usize = 0;
        while k < n
            invariant
                k <= n,
                n == self.recurring@.len(),
                forall|i: int|
                    0 <= i < k ==> !((#[trigger] self.recurring@[i]).id == id
                        && self.recurring@[i].user_id == caller),
            decreases n - k,
        {
            if self.recurring[k].id == id && self.recurring[k].user_id == caller {
                return Some(k);
            }
            k = k + 1;
        }
        None
    }

    /// Fills the joined client name of a template read.
    fn enrich_recurring_row(&self, row: &RecurringInvoice) -> (r: RecurringInvoice)
        ensures
            r == enrich_recurring(*row, self.clients@),
    {
        let mut out = row.clone();
        match row.client_id {
            None => {
                out.client_name = None;
            },
            Some(c) => {
                match self.find_client_pos(c) {
                    None => {
                        out.client_name = None;
                    },
                    Some(k) => {
                        out.client_name = Some(self.clients[k].name.clone());
                    },
                }
            },
        }
        out
    }

    /// Creates a recurring template owned by the caller. A draft with an
    /// unknown interval unit, a non-positive count or an unstorable start
    /// date is rejected as invalid input, so bad schedules never reach the
    /// store; the new template's next-run date is its start date.
    pub fn create_recurring(&mut self, caller: i32, draft: RecurringDraft, today: Date) -> (r:
        Result<RecurringInvoice, ServiceError>)
        requires
            old(self).wf(),
        ensures
            final(self).wf(),
            r == Err::<RecurringInvoice, ServiceError>(ServiceError::InvalidInput)
                <==> !recurring_draft_ok(draft),
            r is Ok <==> recurring_draft_ok(draft) && old(self).next_id < i32::MAX,
            r matches Ok(ret) ==> ret == recurring_from_draft(
                draft,
                old(self).next_id as int,
                caller,
                today,
            ) && final(self).recurring@ == old(self).recurring@.push(ret) && final(self).next_id
                == old(self).next_id + 1 && recurring_frame(*old(self), *final(self)),
            r is Err ==> *final(self) == *old(self) && (r == Err::<RecurringInvoice, ServiceError>(
                ServiceError::InvalidInput,
            ) || r == Err::<RecurringInvoice, ServiceError>(ServiceError::Internal)),
    {
        let unit_ok = match parse_interval(draft.interval.as_str()) {
            Ok(_) => true,
            Err(_) => false,
        };
        if !unit_ok || draft.interval_count < 1 || !draft.start_date.in_range() {
            return Err(ServiceError::InvalidInput);
        }
        if self.next_id >= i32::MAX {
            return Err(ServiceError::Internal);
        }
        let id = self.next_id;
        let RecurringDraft { client_id, interval, interval_count, start_date, status, total } =
            draft;
        let row = RecurringInvoice {
            id,
            user_id: caller,
            client_id,
            client_name: None,
            interval,
            interval_count,
            start_date,
            next_run: Some(start_date),
            last_run: None,
            status,
            total,
            created: today,
        };
        let ret = row.clone();
        self.recurring.push(row);
        self.next_id = id + 1;
        proof {
            let pre = *old(self);
            let post = *self;
            assert forall|i: int| 0 <= i < post.recurring@.len() implies 1 <= (
            #[trigger] post.recurring@[i]).id < post.next_id as int by {
                if i < pre.recurring@.len() {
                    assert(post.recurring@[i] == pre.recurring@[i]);
                }
            }
            assert forall|i: int, j: int| #![trigger post.recurring@[i].id, post.recurring@[j].id]
                0 <= i < j < post.recurring@.len() implies post.recurring@[i].id
                != post.recurring@[j].id by {
                if j < pre.recurring@.len() {
                    assert(pre.recurring@[i].id != pre.recurring@[j].id);
                } else {
                    assert(post.recurring@[i] == pre.recurring@[i]);
                }
            }
            assert forall|i: int| 0 <= i < post.recurring@.len() implies crate::store::recurring_row_ok(
                #[trigger] post.recurring@[i],
            ) by {
                if i < pre.recurring@.len() {
                    assert(post.recurring@[i] == pre.recurring@[i]);
                }
            }
        }
        Ok(ret)
    }

    /// Reads one owned template; anyone else's is `NotFound`.
    pub fn get_recurring(&self, caller: i32, id: i32) -> (r: Result<RecurringInvoice, ServiceError>)
        ensures
            r is Ok <==> has_owned_recurring(self.recurring@, caller, id),
            r is Err ==> r == Err::<RecurringInvoice, ServiceError>(ServiceError::NotFound),
            r matches Ok(ret) ==> exists|i: int|
                0 <= i < self.recurring@.len() && (#[trigger] self.recurring@[i]).id == id
                    && self.recurring@[i].user_id == caller && ret == enrich_recurring(
                    self.recurring@[i],
                    self.clients@,
                ),
    {
        match self.find_recurring(caller, id) {
            None => Err(ServiceError::NotFound),
            Some(k) => Ok(self.enrich_recurring_row(&self.recurring[k])),
        }
    }

    /// Lists the caller's templates in storage order.
    pub fn list_recurring(&self, caller: i32) -> (r: Vec<RecurringInvoice>)
        ensures
            r@ == recurring_listing(self.recurring@, self.clients@, caller, 0),
    {
        let mut out: Vec<RecurringInvoice> = Vec::new();
        let n = self.recurring.len();
        let mut k: usize = 0;
        while k < n
            invariant
                k <= n,
                n == self.recurring@.len(),
                out@ + recurring_listing(self.recurring@, self.clients@, caller, k as int)
                    == recurring_listing(self.recurring@, self.clients@, caller, 0),
            decreases n - k,
        {
            if self.recurring[k].user_id == caller {
                let e = self.enrich_recurring_row(&self.recurring[k]);
                out.push(e);
            }
            k = k + 1;
            proof {
                assert(out@ + recurring_listing(self.recurring@, self.clients@, caller, k as int)
                    =~= recurring_listing(self.recurring@, self.clients@, caller, 0));
            }
        }
        proof {
            assert(out@ =~= recurring_listing(self.recurring@, self.clients@, caller, 0));
        }
        out
    }

    /// Replaces an owned template's schedule and billing fields, keeping its
    /// identifier, owner, creation date and firing history, and re-derives
    /// its next-run date. A draft with bad schedule fields, or one whose new
    /// start date lies after the recorded last firing, is invalid input; a
    /// schedule pushed past the storable range of years is a store failure.
    pub fn update_recurring(&mut self, caller: i32, id: i32, draft: RecurringDraft) -> (r: Result<
        RecurringInvoice,
        ServiceError,
    >)
        requires
            old(self).wf(),
        ensures
            final(self).wf(),
            r == Err::<RecurringInvoice, ServiceError>(ServiceError::NotFound) <==> !has_owned_recurring(
                old(self).recurring@,
                caller,
                id,
            ),
            r matches Ok(ret) ==> update_recurring_effect(
                *old(self),
                *final(self),
                caller,
                id,
                draft,
                ret,
            ),
            r is Err ==> *final(self) == *old(self),
            r is Ok <==> exists|i: int|
                0 <= i < old(self).recurring@.len() && (#[trigger] old(self).recurring@[i]).id
                    == id && old(self).recurring@[i].user_id == caller && recurring_draft_ok(draft)
                    && (match old(self).recurring@[i].last_run {
                    Some(l) => date_le(draft.start_date@, l@),
                    None => true,
                }) && next_run_val(
                    interval_of_string(draft.interval@),
                    draft.interval_count as nat,
                    draft.start_date@,
                    match old(self).recurring@[i].last_run {
                        Some(l) => Some(l@),
                        None => None,
                    },
                ).y <= crate::date::MAX_YEAR as int,
    {
        let k = match self.find_recurring(caller, id) {
            None => {
                return Err(ServiceError::NotFound);
            },
            Some(k) => k,
        };
        let unit = match parse_interval(draft.interval.as_str()) {
            Ok(u) => u,
            Err(_) => {
                return Err(ServiceError::InvalidInput);
            },
        };
        if draft.interval_count < 1 || !draft.start_date.in_range() {
            return Err(ServiceError::InvalidInput);
        }
        let last_run = self.recurring[k].last_run;
        match &last_run {
            Some(l) => {
                if !draft.start_date.on_or_before(l) {
                    return Err(ServiceError::InvalidInput);
                }
            },
            None => {},
        }
        let next = match compute_next_run(unit, draft.interval_count as u32, draft.start_date,
            last_run) {
            Ok(n) => n,
            Err(_) => {
                return Err(ServiceError::Internal);
            },
        };
        let RecurringDraft { client_id, interval, interval_count, start_date, status, total } =
            draft;
        let row = RecurringInvoice {
            id: self.recurring[k].id,
            user_id: self.recurring[k].user_id,
            client_id,
            client_name: None,
            interval,
            interval_count,
            start_date,
            next_run: Some(next),
            last_run,
            status,
            total,
            created: self.recurring[k].created,
        };
        let ret = row.clone();
        self.recurring.set(k, row);
        proof {
            let pre = *old(self);
            let post = *self;
            lemma_next_run_not_before_start(
                interval_of_string(draft.interval@),
                draft.interval_count as nat,
                draft.start_date@,
                match last_run {
                    Some(l) => Some(l@),
                    None => None,
                },
            );
            assert forall|i: int| 0 <= i < post.recurring@.len() implies 1 <= (
            #[trigger] post.recurring@[i]).id < post.next_id as int by {
                assert(post.recurring@[i].id == pre.recurring@[i].id);
            }
            assert forall|i: int, j: int| #![trigger post.recurring@[i].id, post.recurring@[j].id]
                0 <= i < j < post.recurring@.len() implies post.recurring@[i].id
                != post.recurring@[j].id by {
                assert(post.recurring@[i].id == pre.recurring@[i].id);
                assert(post.recurring@[j].id == pre.recurring@[j].id);
            }
            assert forall|i: int| 0 <= i < post.recurring@.len() implies crate::store::recurring_row_ok(
                #[trigger] post.recurring@[i],
            ) by {
                if i != k {
                    assert(post.recurring@[i] == pre.recurring@[i]);
                }
            }
        }
        Ok(ret)
    }

    /// Records that an owned template fired on a given date: the firing date
    /// becomes the last run, and the next run is re-derived by the schedule
    /// rule, moving strictly later. A firing date that is unstorable,
    /// earlier than the template's start date or earlier than the recorded
    /// last firing is invalid input, so the schedule never moves backwards;
    /// a re-derived schedule past the storable range of years is a store
    /// failure. On every other input the firing is recorded.
    pub fn mark_recurring_fired(&mut self, caller: i32, id: i32, fired_on: Date) -> (r: Result<
        RecurringInvoice,
        ServiceError,
    >)
        requires
            old(self).wf(),
        ensures
            final(self).wf(),
            r == Err::<RecurringInvoice, ServiceError>(ServiceError::NotFound) <==> !has_owned_recurring(
                old(self).recurring@,
                caller,
                id,
            ),
            r == Err::<RecurringInvoice, ServiceError>(ServiceError::InvalidInput) <==> exists|
                i: int,
            |
                0 <= i < old(self).recurring@.len() && (#[trigger] old(self).recurring@[i]).id
                    == id && old(self).recurring@[i].user_id == caller && !firing_acceptable(
                    old(self).recurring@[i],
                    fired_on,
                ),
            r is Ok <==> exists|i: int|
                0 <= i < old(self).recurring@.len() && (#[trigger] old(self).recurring@[i]).id
                    == id && old(self).recurring@[i].user_id == caller && firing_acceptable(
                    old(self).recurring@[i],
                    fired_on,
                ) && firing_in_year_range(old(self).recurring@[i], fired_on),
            r matches Ok(ret) ==> mark_fired_effect(*old(self), *final(self), caller, id, fired_on)
                && exists|i: int|
                    0 <= i < final(self).recurring@.len() && ret == (#[trigger] final(self).recurring@[i])
                        && final(self).recurring@[i].id == id,
            r is Err ==> *final(self) == *old(self) && (r == Err::<RecurringInvoice, ServiceError>(
                ServiceError::NotFound,
            ) || r == Err::<RecurringInvoice, ServiceError>(ServiceError::InvalidInput) || r
                == Err::<RecurringInvoice, ServiceError>(ServiceError::Internal)),
    {
        let k = match self.find_recurring(caller, id) {
            None => {
                return Err(ServiceError::NotFound);
            },
            Some(k) => k,
        };
        let last_ok = match &self.recurring[k].last_run {
            Some(l) => l.on_or_before(&fired_on),
            None => true,
        };
        if !fired_on.in_range() || !self.recurring[k].start_date.on_or_before(&fired_on)
            || !last_ok {
            return Err(ServiceError::InvalidInput);
        }
        let unit = match parse_interval(self.recurring[k].interval.as_str()) {
            Ok(u) => u,
            Err(_) => {
                // unreachable: the store invariant keeps every stored
                // interval string in the parseable vocabulary
                proof {
                    assert(crate::store::recurring_row_ok(self.recurring@[k as int]));
                    assert(false);
                }
                return Err(ServiceError::Internal);
            },
        };
        let count = self.recurring[k].interval_count;
        let next = match crate::schedule::advance(unit, count as u32, fired_on) {
            Ok(n) => n,
            Err(_) => {
                return Err(ServiceError::Internal);
            },
        };
        let mut row = self.recurring[k].clone();
        row.last_run = Some(fired_on);
        row.next_run = Some(next);
        let ret = row.clone();
        self.recurring.set(k, row);
        proof {
            let pre = *old(self);
            let post = *self;
            lemma_next_run_not_before_start(
                unit,
                count as nat,
                pre.recurring@[k as int].start_date@,
                Some(fired_on@),
            );
            assert forall|i: int| 0 <= i < post.recurring@.len() implies 1 <= (
            #[trigger] post.recurring@[i]).id < post.next_id as int by {
                assert(post.recurring@[i].id == pre.recurring@[i].id);
            }
            assert forall|i: int, j: int| #![trigger post.recurring@[i].id, post.recurring@[j].id]
                0 <= i < j < post.recurring@.len() implies post.recurring@[i].id
                != post.recurring@[j].id by {
                assert(post.recurring@[i].id == pre.recurring@[i].id);
                assert(post.recurring@[j].id == pre.recurring@[j].id);
            }
            assert forall|i: int| 0 <= i < post.recurring@.len() implies crate::store::recurring_row_ok(
                #[trigger] post.recurring@[i],
            ) by {
                if i != k {
                    assert(post.recurring@[i] == pre.recurring@[i]);
                }
            }
        }
        Ok(ret)
    }

    /// Deletes an owned template; anyone else's, or a missing one, is
    /// `NotFound`.
    pub fn delete_recurring(&mut self, caller: i32, id: i32) -> (r: Result<(), ServiceError>)
        requires
            old(self).wf(),
        ensures
            final(self).wf(),
            r is Ok <==> has_owned_recurring(old(self).recurring@, caller, id),
            r is Err ==> *final(self) == *old(self) && r == Err::<(), ServiceError>(
                ServiceError::NotFound,
            ),
            r is Ok ==> final(self).recurring@ == old(self).recurring@.filter(
                |e: RecurringInvoice| e.id != id,
            ) && recurring_frame(*old(self), *final(self)) && final(self).next_id == old(
                self,
            ).next_id,
    {
        match self.find_recurring(caller, id) {
            None => {
                return Err(ServiceError::NotFound);
            },
            Some(_) => {},
        }
        let mut out: Vec<RecurringInvoice> = Vec::new();
        let n = self.recurring.len();
        let mut k: usize = 0;
        while k < n
            invariant
                k <= n,
                n == self.recurring@.len(),
                out@ == self.recurring@.subrange(0, k as int).filter(
                    |e: RecurringInvoice| e.id != id,
                ),
            decreases n - k,
        {
            proof {
                assert(self.recurring@.subrange(0, k + 1 as int) =~= self.recurring@.subrange(
                    0,
                    k as int,
                ).push(self.recurring@[k as int]));
                lemma_filter_push(
                    self.recurring@.subrange(0, k as int),
                    self.recurring@[k as int],
                    |e: RecurringInvoice| e.id != id,
                );
            }
            if self.recurring[k].id != id {
                out.push(self.recurring[k].clone());
            }
            k = k + 1;
        }
        proof {
            assert(self.recurring@.subrange(0, n as int) =~= self.recurring@);
        }
        self.recurring = out;
        proof {
            let pre = *old(self);
            lemma_filter_distinct_keys(
                pre.recurring@,
                |e: RecurringInvoice| e.id != id,
                |e: RecurringInvoice| e.id as int,
                1,
                pre.next_id as int,
            );
            broadcast use vstd::seq_lib::group_filter_ensures;

            let post = *self;
            assert forall|i: int| 0 <= i < post.recurring@.len() implies crate::store::recurring_row_ok(
                #[trigger] post.recurring@[i],
            ) by {
                assert(pre.recurring@.contains(post.recurring@[i]));
                let u = choose|u: int|
                    0 <= u < pre.recurring@.len() && pre.recurring@[u] == post.recurring@[i];
                assert(crate::store::recurring_row_ok(pre.recurring@[u]));
            }
        }
        Ok(())
    }
}

} // verus!
