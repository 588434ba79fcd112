//! The reporting aggregator: read-only, caller-scoped projections of the
//! invoice rows — per-status counts and totals, the overdue aggregate,
//! client counts, and the revenue-by-calendar-month series. Aggregates are
//! exact integer sums; the aggregate amount type is wide enough that no sum
//! of stored rows can overflow it.

use vstd::pervasive::VecAdditionalExecFns;
use vstd::prelude::*;

use crate::store::Store;
use crate::text::str_eq;
use crate::types::{Client, Invoice};

verus! {

/// Per-status aggregate row: how many of the caller's invoices carry this
/// status, and the sum of their totals.
#[derive(Debug)]
pub struct InvoiceStat {
    pub status: String,
    pub count: u64,
    pub total_amount: i128,
}

/// Revenue bucket for one calendar month of invoice creation: the sum of
/// all totals, and the part carried by invoices marked paid.
#[derive(Clone, Copy, Debug, PartialEq, Eq, Structural)]
pub struct RevenueStat {
    pub year: i32,
    pub month: u8,
    pub revenue: i128,
    pub collected: i128,
}

/// Client counts for the dashboard; the store keeps no activity flag, so
/// every client counts as active.
#[derive(Clone, Copy, Debug, PartialEq, Eq, Structural)]
pub struct ClientStats {
    pub total_clients: u64,
    pub active_clients: u64,
}

/// The overdue aggregate: count and summed total of invoices whose status
/// is exactly `overdue`.
#[derive(Clone, Copy, Debug, PartialEq, Eq, Structural)]
pub struct OverdueStats {
    pub overdue_count: u64,
    pub overdue_amount: i128,
}

/// Everything the dashboard shows in one read.
#[derive(Debug)]
pub struct DashboardStats {
    pub invoice_stats: Vec<InvoiceStat>,
    pub revenue_stats: Vec<RevenueStat>,
    pub client_stats: ClientStats,
    pub overdue_stats: OverdueStats,
}

impl Clone for InvoiceStat {
    fn clone(&self) -> (r: Self)
        ensures
            r == *self,
    {
        InvoiceStat {
            status: self.status.clone(),
            count: self.count,
            total_amount: self.total_amount,
        }
    }
}

/// How many of the caller's invoices carry this status.
pub open spec fn count_status(s: Seq<Invoice>, caller: i32, st: Seq<char>) -> int
    decreases s.len(),
{
    if s.len() == 0 {
        0
    } else {
        count_status(s.drop_last(), caller, st) + (if s.last().user_id == caller
            && s.last().status@ == st {
            1int
        } else {
            0int
        })
    }
}

/// The summed totals of the caller's invoices with this status.
pub open spec fn sum_status(s: Seq<Invoice>, caller: i32, st: Seq<char>) -> int
    decreases s.len(),
{
    if s.len() == 0 {
        0
    } else {
        sum_status(s.drop_last(), caller, st) + (if s.last().user_id == caller
            && s.last().status@ == st {
            s.last().total as int
        } else {
            0int
        })
    }
}

/// Whether an invoice was created in the given calendar month.
pub open spec fn in_month(v: Invoice, y: int, m: int) -> bool {
    v.created.year as int == y && v.created.month as int == m
}

/// How many of the caller's invoices were created in this month.
pub open spec fn count_month(s: Seq<Invoice>, caller: i32, y: int, m: int) -> int
    decreases s.len(),
{
    if s.len() == 0 {
        0
    } else {
        count_month(s.drop_last(), caller, y, m) + (if s.last().user_id == caller && in_month(
            s.last(),
            y,
            m,
        ) {
            1int
        } else {
            0int
        })
    }
}

/// The revenue of one calendar month: the summed totals of the caller's
/// invoices created in it.
pub open spec fn sum_month(s: Seq<Invoice>, caller: i32, y: int, m: int) -> int
    decreases s.len(),
{
    if s.len() == 0 {
        0
    } else {
        sum_month(s.drop_last(), caller, y, m) + (if s.last().user_id == caller && in_month(
            s.last(),
            y,
            m,
        ) {
            s.last().total as int
        } else {
            0int
        })
    }
}

/// The collected part of one month's revenue: the summed totals of the
/// caller's invoices created in it whose status is exactly `paid`.
pub open spec fn sum_month_paid(s: Seq<Invoice>, caller: i32, y: int, m: int) -> int
    decreases s.len(),
{
    if s.len() == 0 {
        0
    } else {
        sum_month_paid(s.drop_last(), caller, y, m) + (if s.last().user_id == caller && in_month(
            s.last(),
            y,
            m,
        ) && s.last().status@ == "paid"@ {
            s.last().total as int
        } else {
            0int
        })
    }
}

/// How many client rows the caller owns.
pub open spec fn count_clients(s: Seq<Client>, caller: i32) -> int
    decreases s.len(),
{
    if s.len() == 0 {
        0
    } else {
        count_clients(s.drop_last(), caller) + (if s.last().user_id == caller {
            1int
        } else {
            0int
        })
    }
}

/// A count over a sequence never exceeds its length.
proof fn lemma_count_status_le_len(s: Seq<Invoice>, caller: i32, st: Seq<char>)
    ensures
        0 <= count_status(s, caller, st) <= s.len(),
    decreases s.len(),
{
    if s.len() > 0 {
        lemma_count_status_le_len(s.drop_last(), caller, st);
    }
}

/// A sum over a sequence is bounded by its length times the extreme stored
/// amounts, so it fits comfortably in the wide aggregate type.
proof fn lemma_sum_status_bound(s: Seq<Invoice>, caller: i32, st: Seq<char>)
    ensures
        -(s.len() as int) * 0x8000_0000_0000_0000 <= sum_status(s, caller, st) <= (
        s.len() as int) * 0x7fff_ffff_ffff_ffff,
    decreases s.len(),
{
    if s.len() > 0 {
        lemma_sum_status_bound(s.drop_last(), caller, st);
    }
}

proof fn lemma_count_month_le_len(s: Seq<Invoice>, caller: i32, y: int, m: int)
    ensures
        0 <= count_month(s, caller, y, m) <= s.len(),
    decreases s.len(),
{
    if s.len() > 0 {
        lemma_count_month_le_len(s.drop_last(), caller, y, m);
    }
}

proof fn lemma_sum_month_bound(s: Seq<Invoice>, caller: i32, y: int, m: int)
    ensures
        -(s.len() as int) * 0x8000_0000_0000_0000 <= sum_month(s, caller, y, m) <= (
        s.len() as int) * 0x7fff_ffff_ffff_ffff,
        -(s.len() as int) * 0x8000_0000_0000_0000 <= sum_month_paid(s, caller, y, m) <= (
        s.len() as int) * 0x7fff_ffff_ffff_ffff,
    decreases s.len(),
{
    if s.len() > 0 {
        lemma_sum_month_bound(s.drop_last(), caller, y, m);
    }
}

proof fn lemma_count_clients_le_len(s: Seq<Client>, caller: i32)
    ensures
        0 <= count_clients(s, caller) <= s.len(),
    decreases s.len(),
{
    if s.len() > 0 {
        lemma_count_clients_le_len(s.drop_last(), caller);
    }
}

/// A status no owned invoice of `s` carries contributes nothing.
proof fn lemma_status_sums_zero(s: Seq<Invoice>, caller: i32, st: Seq<char>)
    requires
        forall|i: int|
            0 <= i < s.len() ==> !((#[trigger] s[i]).user_id == caller && s[i].status@ == st),
    ensures
        count_status(s, caller, st) == 0,
        sum_status(s, caller, st) == 0,
    decreases s.len(),
{
    if s.len() > 0 {
        assert(s[s.len() - 1] == s.last());
        lemma_status_sums_zero(s.drop_last(), caller, st);
    }
}

/// A month no owned invoice of `s` falls in contributes nothing.
proof fn lemma_month_sums_zero(s: Seq<Invoice>, caller: i32, y: int, m: int)
    requires
        forall|i: int|
            0 <= i < s.len() ==> !((#[trigger] s[i]).user_id == caller && in_month(s[i], y, m)),
    ensures
        count_month(s, caller, y, m) == 0,
        sum_month(s, caller, y, m) == 0,
        sum_month_paid(s, caller, y, m) == 0,
    decreases s.len(),
{
    if s.len() > 0 {
        assert(s[s.len() - 1] == s.last());
        lemma_month_sums_zero(s.drop_last(), caller, y, m);
    }
}

/// A correct per-status aggregation of the caller's invoices: each row's
/// figures are exact, no status appears twice, no row is empty, and every
/// owned invoice's status has a row.
pub open spec fn status_stats_ok(s: Seq<Invoice>, caller: i32, rows: Seq<InvoiceStat>) -> bool {
    &&& forall|t: int|
        0 <= t < rows.len() ==> (#[trigger] rows[t]).count as int == count_status(
            s,
            caller,
            rows[t].status@,
        ) && rows[t].total_amount as int == sum_status(s, caller, rows[t].status@) && rows[t].count
            > 0
    &&& forall|t: int, u: int| #![trigger rows[t].status, rows[u].status]
        0 <= t < u < rows.len() ==> rows[t].status@ != rows[u].status@
    &&& forall|i: int|
        0 <= i < s.len() && (#[trigger] s[i]).user_id == caller ==> exists|t: int|
            0 <= t < rows.len() && (#[trigger] rows[t]).status@ == s[i].status@
}

/// Strictly-later-first order on calendar months.
pub open spec fn month_later(ay: int, am: int, by: int, bm: int) -> bool {
    ay > by || (ay == by && am > bm)
}

/// A correct revenue series for the caller: each bucket's figures are
/// exact and non-empty, and buckets are strictly ordered most recent
/// first.
pub open spec fn revenue_rows_ok(s: Seq<Invoice>, caller: i32, rows: Seq<RevenueStat>) -> bool {
    &&& forall|t: int|
        0 <= t < rows.len() ==> (#[trigger] rows[t]).revenue as int == sum_month(
            s,
            caller,
            rows[t].year as int,
            rows[t].month as int,
        ) && rows[t].collected as int == sum_month_paid(
            s,
            caller,
            rows[t].year as int,
            rows[t].month as int,
        ) && count_month(s, caller, rows[t].year as int, rows[t].month as int) > 0
    &&& forall|t: int, u: int| #![trigger rows[t], rows[u]]
        0 <= t < u < rows.len() ==> month_later(
            rows[t].year as int,
            rows[t].month as int,
            rows[u].year as int,
            rows[u].month as int,
        )
}

/// Every month in which the caller created an invoice has a bucket.
pub open spec fn revenue_rows_complete(s: Seq<Invoice>, caller: i32, rows: Seq<RevenueStat>) -> bool {
    forall|i: int|
        0 <= i < s.len() && (#[trigger] s[i]).user_id == caller ==> exists|t: int|
            0 <= t < rows.len() && in_month(
                s[i],
                (#[trigger] rows[t]).year as int,
                rows[t].month as int,
            )
}

/// The position of the row carrying this status.
fn find_status(rows: &Vec<InvoiceStat>, st: &str) -> (r: Option<usize>)
    ensures
        match r {
            Some(p) => 0 <= p < rows@.len() && rows@[p as int].status@ == st@,
            None => forall|t: int| 0 <= t < rows@.len() ==> (#[trigger] rows@[t]).status@ != st@,
        },
{
    let n = rows.len();
    let mut k: usize = 0;
    while k < n
        invariant
            k <= n,
            n == rows@.len(),
            forall|t: int| 0 <= t < k ==> (#[trigger] rows@[t]).status@ != st@,
        decreases n - k,
    {
        if str_eq(rows[k].status.as_str(), st) {
            return Some(k);
        }
        k = k + 1;
    }
    None
}

/// The position of the bucket for this month.
fn find_month_row(rows: &Vec<RevenueStat>, y: i32, m: u8) -> (r: Option<usize>)
    ensures
        match r {
            Some(p) => 0 <= p < rows@.len() && rows@[p as int].year == y && rows@[p as int].month
                == m,
            None => forall|t: int|
                0 <= t < rows@.len() ==> !((#[trigger] rows@[t]).year == y && rows@[t].month == m),
        },
{
    let n = rows.len();
    let mut k: usize = 0;
    while k < n
        invariant
            k <= n,
            n == rows@.len(),
            forall|t: int| 0 <= t < k ==> !((#[trigger] rows@[t]).year == y && rows@[t].month == m),
        decreases n - k,
    {
        if rows[k].year == y && rows[k].month == m {
            return Some(k);
        }
        k = k + 1;
    }
    None
}

impl Store {
    /// Groups the caller's invoices by status, with exact counts and sums.
    pub fn invoice_status_stats(&self, caller: i32) -> (r: Vec<InvoiceStat>)
        ensures
            status_stats_ok(self.invoices@, caller, r@),
    {
        let n = self.invoices.len();
        let mut rows: Vec<InvoiceStat> = Vec::new();
        let mut k: usize = 0;
        while k < n
            invariant
                k <= n,
                n == self.invoices@.len(),
                status_stats_ok(self.invoices@.subrange(0, k as int), caller, rows@),
            decreases n - k,
        {
            let ghost pre = self.invoices@.subrange(0, k as int);
            let ghost post = self.invoices@.subrange(0, k + 1 as int);
            proof {
                assert(post.drop_last() =~= pre);
                assert(post.last() == self.invoices@[k as int]);
            }
            let ghost stk = self.invoices@[k as int].status@;
            if self.invoices[k].user_id == caller {
                match find_status(&rows, self.invoices[k].status.as_str()) {
                    Some(p) => {
                        let ghost rows0 = rows@;
                        proof {
                            lemma_count_status_le_len(pre, caller, rows@[p as int].status@);
                            lemma_sum_status_bound(pre, caller, rows@[p as int].status@);
                        }
                        let row = InvoiceStat {
                            status: rows[p].status.clone(),
                            count: rows[p].count + 1,
                            total_amount: rows[p].total_amount + self.invoices[k].total as i128,
                        };
                        rows.set(p, row);
                        proof {
                            assert forall|t: int| 0 <= t < rows@.len() implies (
                            #[trigger] rows@[t]).count as int == count_status(
                                post,
                                caller,
                                rows@[t].status@,
                            ) && rows@[t].total_amount as int == sum_status(
                                post,
                                caller,
                                rows@[t].status@,
                            ) && rows@[t].count > 0 by {
                                if t == p {
                                    assert(rows@[t].status@ == stk);
                                } else {
                                    assert(rows@[t] == rows0[t]);
                                    assert(rows0[t].status@ != rows0[p as int].status@);
                                }
                            }
                            assert forall|i: int|
                                0 <= i < post.len() && (#[trigger] post[i]).user_id == caller
                                    implies exists|t: int|
                                    0 <= t < rows@.len() && (#[trigger] rows@[t]).status@
                                        == post[i].status@ by {
                                if i < k {
                                    let t = choose|t: int|
                                        0 <= t < rows0.len() && (#[trigger] rows0[t]).status@
                                            == pre[i].status@;
                                    assert(rows@[t].status@ == rows0[t].status@);
                                } else {
                                    assert(rows@[p as int].status@ == stk);
                                }
                            }
                        }
                    },
                    None => {
                        proof {
                            assert forall|i: int| 0 <= i < pre.len() implies !((
                            #[trigger] pre[i]).user_id == caller && pre[i].status@ == stk) by {
                                if pre[i].user_id == caller && pre[i].status@ == stk {
                                    assert(exists|t: int|
                                        0 <= t < rows@.len() && (#[trigger] rows@[t]).status@
                                            == pre[i].status@);
                                }
                            }
                            lemma_status_sums_zero(pre, caller, stk);
                        }
                        let ghost rows0 = rows@;
                        rows.push(
                            InvoiceStat {
                                status: self.invoices[k].status.clone(),
                                count: 1,
                                total_amount: self.invoices[k].total as i128,
                            },
                        );
                        proof {
                            assert(rows@ == rows0.push(rows@[rows0.len() as int]));
                            assert(rows@[rows0.len() as int].status@ == stk);
                            assert forall|t: int| 0 <= t < rows@.len() implies (
                            #[trigger] rows@[t]).count as int == count_status(
                                post,
                                caller,
                                rows@[t].status@,
                            ) && rows@[t].total_amount as int == sum_status(
                                post,
                                caller,
                                rows@[t].status@,
                            ) && rows@[t].count > 0 by {
                                if t < rows0.len() {
                                    assert(rows@[t] == rows0[t]);
                                    assert(rows0[t].status@ != stk);
                                }
                            }
                            assert forall|i: int|
                                0 <= i < post.len() && (#[trigger] post[i]).user_id == caller
                                    implies exists|t: int|
                                    0 <= t < rows@.len() && (#[trigger] rows@[t]).status@
                                        == post[i].status@ by {
                                if i < k {
                                    let t = choose|t: int|
                                        0 <= t < rows0.len() && (#[trigger] rows0[t]).status@
                                            == pre[i].status@;
                                    assert(rows@[t].status@ == rows0[t].status@);
                                } else {
                                    assert(rows@[rows0.len() as int].status@ == stk);
                                }
                            }
                        }
                    },
                }
            } else {
                proof {
                    assert forall|t: int| 0 <= t < rows@.len() implies (
                    #[trigger] rows@[t]).count as int == count_status(post, caller, rows@[t].status@)
                        && rows@[t].total_amount as int == sum_status(
                        post,
                        caller,
                        rows@[t].status@,
                    ) && rows@[t].count > 0 by {}
                }
            }
            k = k + 1;
        }
        proof {
            assert(self.invoices@.subrange(0, n as int) =~= self.invoices@);
        }
        rows
    }

    /// The caller's overdue aggregate: count and summed total of invoices
    /// with status exactly `overdue`.
    pub fn overdue_stats(&self, caller: i32) -> (r: OverdueStats)
        ensures
            r.overdue_count as int == count_status(self.invoices@, caller, "overdue"@),
            r.overdue_amount as int == sum_status(self.invoices@, caller, "overdue"@),
    {
        let n = self.invoices.len();
        let mut count: u64 = 0;
        let mut amount: i128 = 0;
        let mut k: usize = 0;
        while k < n
            invariant
                k <= n,
                n == self.invoices@.len(),
                count as int == count_status(self.invoices@.subrange(0, k as int), caller, "overdue"@),
                amount as int == sum_status(self.invoices@.subrange(0, k as int), caller, "overdue"@),
            decreases n - k,
        {
            let ghost pre = self.invoices@.subrange(0, k as int);
            proof {
                assert(self.invoices@.subrange(0, k + 1 as int).drop_last() =~= pre);
                lemma_count_status_le_len(pre, caller, "overdue"@);
                lemma_sum_status_bound(pre, caller, "overdue"@);
            }
            if self.invoices[k].user_id == caller && str_eq(
                self.invoices[k].status.as_str(),
                "overdue",
            ) {
                count = count + 1;
                amount = amount + self.invoices[k].total as i128;
            }
            k = k + 1;
        }
        proof {
            assert(self.invoices@.subrange(0, n as int) =~= self.invoices@);
        }
        OverdueStats { overdue_count: count, overdue_amount: amount }
    }

    /// How many client rows the caller owns; the activity count equals it.
    pub fn client_stats(&self, caller: i32) -> (r: ClientStats)
        ensures
            r.total_clients as int == count_clients(self.clients@, caller),
            r.active_clients == r.total_clients,
    {
        let n = self.clients.len();
        let mut count: u64 = 0;
        let mut k: usize = 0;
        while k < n
            invariant
                k <= n,
                n == self.clients@.len(),
                count as int == count_clients(self.clients@.subrange(0, k as int), caller),
            decreases n - k,
        {
            proof {
                assert(self.clients@.subrange(0, k + 1 as int).drop_last() =~= self.clients@.subrange(
                    0,
                    k as int,
                ));
                lemma_count_clients_le_len(self.clients@.subrange(0, k as int), caller);
            }
            if self.clients[k].user_id == caller {
                count = count + 1;
            }
            k = k + 1;
        }
        proof {
            assert(self.clients@.subrange(0, n as int) =~= self.clients@);
        }
        ClientStats { total_clients: count, active_clients: count }
    }

    /// The caller's revenue series: one bucket per calendar month of
    /// invoice creation, most recent month first, with exact revenue and
    /// collected figures.
    pub fn get_revenue_stats(&self, caller: i32) -> (r: Vec<RevenueStat>)
        ensures
            revenue_rows_ok(self.invoices@, caller, r@),
            revenue_rows_complete(self.invoices@, caller, r@),
    {
        let n = self.invoices.len();
        let mut rows: Vec<RevenueStat> = Vec::new();
        let mut k: usize = 0;
        while k < n
            invariant
                k <= n,
                n == self.invoices@.len(),
                revenue_rows_ok(self.invoices@.subrange(0, k as int), caller, rows@),
                revenue_rows_complete(self.invoices@.subrange(0, k as int), caller, rows@),
            decreases n - k,
        {
            let ghost pre = self.invoices@.subrange(0, k as int);
            let ghost post = self.invoices@.subrange(0, k + 1 as int);
            proof {
                assert(post.drop_last() =~= pre);
                assert(post.last() == self.invoices@[k as int]);
            }
            if self.invoices[k].user_id == caller {
                let y = self.invoices[k].created.year;
                let m = self.invoices[k].created.month;
                let paid = str_eq(self.invoices[k].status.as_str(), "paid");
                let total = self.invoices[k].total;
                match find_month_row(&rows, y, m) {
                    Some(p) => {
                        let ghost rows0 = rows@;
                        proof {
                            lemma_count_month_le_len(pre, caller, y as int, m as int);
                            lemma_sum_month_bound(pre, caller, y as int, m as int);
                        }
                        let row = RevenueStat {
                            year: y,
                            month: m,
                            revenue: rows[p].revenue + total as i128,
                            collected: if paid {
                                rows[p].collected + total as i128
                            } else {
                                rows[p].collected
                            },
                        };
                        rows.set(p, row);
                        proof {
                            assert forall|t: int| 0 <= t < rows@.len() implies (
                            #[trigger] rows@[t]).revenue as int == sum_month(
                                post,
                                caller,
                                rows@[t].year as int,
                                rows@[t].month as int,
                            ) && rows@[t].collected as int == sum_month_paid(
                                post,
                                caller,
                                rows@[t].year as int,
                                rows@[t].month as int,
                            ) && count_month(post, caller, rows@[t].year as int, rows@[t].month as int)
                                > 0 by {
                                if t != p {
                                    assert(rows@[t] == rows0[t]);
                                    assert(!(rows0[t].year == y && rows0[t].month == m));
                                }
                            }
                            assert forall|t: int, u: int| #![trigger rows@[t], rows@[u]]
                                0 <= t < u < rows@.len() implies month_later(
                                rows@[t].year as int,
                                rows@[t].month as int,
                                rows@[u].year as int,
                                rows@[u].month as int,
                            ) by {
                                assert(rows@[t].year == rows0[t].year && rows@[t].month
                                    == rows0[t].month);
                                assert(rows@[u].year == rows0[u].year && rows@[u].month
                                    == rows0[u].month);
                            }
                            assert forall|i: int|
                                0 <= i < post.len() && (#[trigger] post[i]).user_id == caller
                                    implies exists|t: int|
                                    0 <= t < rows@.len() && in_month(
                                        post[i],
                                        (#[trigger] rows@[t]).year as int,
                                        rows@[t].month as int,
                                    ) by {
                                if i < k {
                                    let t = choose|t: int|
                                        0 <= t < rows0.len() && in_month(
                                            pre[i],
                                            (#[trigger] rows0[t]).year as int,
                                            rows0[t].month as int,
                                        );
                                    assert(rows@[t].year == rows0[t].year && rows@[t].month
                                        == rows0[t].month);
                                    assert(in_month(post[i], rows@[t].year as int, rows@[t].month as int));
                                } else {
                                    assert(in_month(post[i], rows@[p as int].year as int, rows@[p as int].month as int));
                                }
                            }
                        }
                    },
                    None => {
                        proof {
                            assert forall|i: int| 0 <= i < pre.len() implies !((
                            #[trigger] pre[i]).user_id == caller && in_month(
                                pre[i],
                                y as int,
                                m as int,
                            )) by {
                                if pre[i].user_id == caller && in_month(pre[i], y as int, m as int) {
                                    let t = choose|t: int|
                                        0 <= t < rows@.len() && in_month(
                                            pre[i],
                                            (#[trigger] rows@[t]).year as int,
                                            rows@[t].month as int,
                                        );
                                    assert(rows@[t].year == y && rows@[t].month == m);
                                }
                            }
                            lemma_month_sums_zero(pre, caller, y as int, m as int);
                        }
                        // insertion point: first bucket strictly older than (y, m)
                        let mut q: usize = 0;
                        let rl = rows.len();
                        while q < rl
                            invariant
                                q <= rl,
                                rl == rows@.len(),
                                forall|t: int|
                                    0 <= t < q ==> month_later(
                                        (#[trigger] rows@[t]).year as int,
                                        rows@[t].month as int,
                                        y as int,
                                        m as int,
                                    ),
                                forall|t: int|
                                    0 <= t < rows@.len() ==> !((#[trigger] rows@[t]).year == y
                                        && rows@[t].month == m),
                            ensures
                                q <= rl,
                                forall|t: int|
                                    0 <= t < q ==> month_later(
                                        (#[trigger] rows@[t]).year as int,
                                        rows@[t].month as int,
                                        y as int,
                                        m as int,
                                    ),
                                q < rl ==> month_later(
                                    y as int,
                                    m as int,
                                    rows@[q as int].year as int,
                                    rows@[q as int].month as int,
                                ),
                            decreases rl - q,
                        {
                            let c = &rows[q];
                            if c.year < y || (c.year == y && c.month < m) {
                                break ;
                            }
                            proof {
                                assert(month_later(
                                    rows@[q as int].year as int,
                                    rows@[q as int].month as int,
                                    y as int,
                                    m as int,
                                ));
                            }
                            q = q + 1;
                        }
                        let ghost rows0 = rows@;
                        rows.insert(
                            q,
                            RevenueStat {
                                year: y,
                                month: m,
                                revenue: total as i128,
                                collected: if paid {
                                    total as i128
                                } else {
                                    0
                                },
                            },
                        );
                        proof {
                            let qi = q as int;
                            assert(rows@ =~= rows0.insert(qi, rows@[qi]));
                            assert forall|t: int| 0 <= t < rows@.len() implies (
                            #[trigger] rows@[t]).revenue as int == sum_month(
                                post,
                                caller,
                                rows@[t].year as int,
                                rows@[t].month as int,
                            ) && rows@[t].collected as int == sum_month_paid(
                                post,
                                caller,
                                rows@[t].year as int,
                                rows@[t].month as int,
                            ) && count_month(post, caller, rows@[t].year as int, rows@[t].month as int)
                                > 0 by {
                                if t < qi {
                                    assert(rows@[t] == rows0[t]);
                                    assert(!(rows0[t].year == y && rows0[t].month == m));
                                } else if t > qi {
                                    assert(rows@[t] == rows0[t - 1]);
                                    assert(!(rows0[t - 1].year == y && rows0[t - 1].month == m));
                                }
                            }
                            assert forall|t: int, u: int| #![trigger rows@[t], rows@[u]]
                                0 <= t < u < rows@.len() implies month_later(
                                rows@[t].year as int,
                                rows@[t].month as int,
                                rows@[u].year as int,
                                rows@[u].month as int,
                            ) by {
                                if t < qi && u < qi {
                                    assert(rows@[t] == rows0[t] && rows@[u] == rows0[u]);
                                } else if t < qi && u == qi {
                                    assert(rows@[t] == rows0[t]);
                                } else if t < qi && u > qi {
                                    assert(rows@[t] == rows0[t] && rows@[u] == rows0[u - 1]);
                                } else if t == qi && u > qi {
                                    assert(rows@[u] == rows0[u - 1]);
                                    assert(u - 1 < rows0.len() && u - 1 >= qi);
                                    assert(month_later(
                                        y as int,
                                        m as int,
                                        rows0[qi].year as int,
                                        rows0[qi].month as int,
                                    ));
                                    if u - 1 > qi {
                                        assert(month_later(
                                            rows0[qi].year as int,
                                            rows0[qi].month as int,
                                            rows0[u - 1].year as int,
                                            rows0[u - 1].month as int,
                                        ));
                                    }
                                } else {
                                    assert(rows@[t] == rows0[t - 1] && rows@[u] == rows0[u - 1]);
                                }
                            }
                            assert forall|i: int|
                                0 <= i < post.len() && (#[trigger] post[i]).user_id == caller
                                    implies exists|t: int|
                                    0 <= t < rows@.len() && in_month(
                                        post[i],
                                        (#[trigger] rows@[t]).year as int,
                                        rows@[t].month as int,
                                    ) by {
                                if i < k {
                                    let t = choose|t: int|
                                        0 <= t < rows0.len() && in_month(
                                            pre[i],
                                            (#[trigger] rows0[t]).year as int,
                                            rows0[t].month as int,
                                        );
                                    if t < qi {
                                        assert(rows@[t] == rows0[t]);
                                        assert(in_month(post[i], rows@[t].year as int, rows@[t].month as int));
                                    } else {
                                        assert(rows@[t + 1] == rows0[t]);
                                        assert(in_month(post[i], rows@[t + 1].year as int, rows@[
                                            t + 1].month as int));
                                    }
                                } else {
                                    assert(in_month(post[i], rows@[qi].year as int, rows@[qi].month as int));
                                }
                            }
                        }
                    },
                }
            } else {
                proof {
                    assert forall|t: int| 0 <= t < rows@.len() implies (
                    #[trigger] rows@[t]).revenue as int == sum_month(
                        post,
                        caller,
                        rows@[t].year as int,
                        rows@[t].month as int,
                    ) && rows@[t].collected as int == sum_month_paid(
                        post,
                        caller,
                        rows@[t].year as int,
                        rows@[t].month as int,
                    ) && count_month(post, caller, rows@[t].year as int, rows@[t].month as int) > 0 by {}
                }
            }
            k = k + 1;
        }
        proof {
            assert(self.invoices@.subrange(0, n as int) =~= self.invoices@);
        }
        rows
    }

    /// The whole dashboard in one read: per-status figures, the overdue
    /// aggregate, client counts, and the revenue series limited to the six
    /// most recent months — every month beyond the sixth bucket is strictly
    /// older than the months shown.
    pub fn get_dashboard_stats(&self, caller: i32) -> (r: DashboardStats)
        ensures
            status_stats_ok(self.invoices@, caller, r.invoice_stats@),
            r.overdue_stats.overdue_count as int == count_status(self.invoices@, caller, "overdue"@),
            r.overdue_stats.overdue_amount as int == sum_status(self.invoices@, caller, "overdue"@),
            r.client_stats.total_clients as int == count_clients(self.clients@, caller),
            r.client_stats.active_clients == r.client_stats.total_clients,
            revenue_rows_ok(self.invoices@, caller, r.revenue_stats@),
            r.revenue_stats@.len() <= 6,
            forall|i: int|
                0 <= i < self.invoices@.len() && (#[trigger] self.invoices@[i]).user_id == caller
                    ==> (exists|t: int|
                    0 <= t < r.revenue_stats@.len() && in_month(
                        self.invoices@[i],
                        (#[trigger] r.revenue_stats@[t]).year as int,
                        r.revenue_stats@[t].month as int,
                    )) || (r.revenue_stats@.len() == 6 && month_later(
                    r.revenue_stats@[5].year as int,
                    r.revenue_stats@[5].month as int,
                    self.invoices@[i].created.year as int,
                    self.invoices@[i].created.month as int,
                )),
    {
        let invoice_stats = self.invoice_status_stats(caller);
        let overdue_stats = self.overdue_stats(caller);
        let client_stats = self.client_stats(caller);
        let full = self.get_revenue_stats(caller);
        let mut revenue_stats: Vec<RevenueStat> = Vec::new();
        let take = if full.len() < 6 {
            full.len()
        } else {
            6
        };
        let mut k: usize = 0;
        while k < take
            invariant
                k <= take,
                take <= full@.len(),
                take <= 6,
                revenue_stats@ == full@.subrange(0, k as int),
            decreases take - k,
        {
            revenue_stats.push(full[k]);
            proof {
                assert(revenue_stats@ =~= full@.subrange(0, k + 1 as int));
            }
            k = k + 1;
        }
        proof {
            let rv = revenue_stats@;
            let fv = full@;
            assert(rv =~= fv.subrange(0, take as int));
            assert forall|i: int|
                0 <= i < self.invoices@.len() && (#[trigger] self.invoices@[i]).user_id == caller
                    implies (exists|t: int|
                    0 <= t < rv.len() && in_month(
                        self.invoices@[i],
                        (#[trigger] rv[t]).year as int,
                        rv[t].month as int,
                    )) || (rv.len() == 6 && month_later(
                    rv[5].year as int,
                    rv[5].month as int,
                    self.invoices@[i].created.year as int,
                    self.invoices@[i].created.month as int,
                )) by {
                let t = choose|t: int|
                    0 <= t < fv.len() && in_month(
                        self.invoices@[i],
                        (#[trigger] fv[t]).year as int,
                        fv[t].month as int,
                    );
                if t < take {
                    assert(rv[t] == fv[t]);
                    assert(in_month(self.invoices@[i], rv[t].year as int, rv[t].month as int));
                } else {
                    assert(month_later(
                        fv[5].year as int,
                        fv[5].month as int,
                        fv[t].year as int,
                        fv[t].month as int,
                    ));
                    assert(rv[5] == fv[5]);
                }
            }
        }
        DashboardStats { invoice_stats, revenue_stats, client_stats, overdue_stats }
    }
}

} // verus!
