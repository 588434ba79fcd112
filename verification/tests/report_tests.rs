use billing_core::date::Date;
use billing_core::store::Store;
use billing_core::types::{ClientDraft, InvoiceDraft};

fn d(y: i32, m: u8, day: u8) -> Date {
    Date::new(y, m, day).unwrap()
}

fn draft(number: &str, status: &str, total: i64) -> InvoiceDraft {
    InvoiceDraft {
        client_id: None,
        invoice_number: number.to_owned(),
        status: status.to_owned(),
        total,
        due_date: None,
        notes: None,
        items: vec![],
    }
}

#[test]
fn revenue_bucket_sums_and_collected() {
    let mut store = Store::new();
    let caller = 1;
    store.create_invoice(caller, draft("A", "paid", 100), d(2024, 6, 3)).unwrap();
    store.create_invoice(caller, draft("B", "sent", 50), d(2024, 6, 21)).unwrap();
    let series = store.get_revenue_stats(caller);
    assert_eq!(series.len(), 1);
    assert_eq!(series[0].year, 2024);
    assert_eq!(series[0].month, 6);
    assert_eq!(series[0].revenue, 150);
    assert_eq!(series[0].collected, 100);
}

#[test]
fn revenue_series_is_most_recent_first() {
    let mut store = Store::new();
    let caller = 1;
    store.create_invoice(caller, draft("A", "sent", 10), d(2023, 12, 1)).unwrap();
    store.create_invoice(caller, draft("B", "sent", 20), d(2024, 2, 1)).unwrap();
    store.create_invoice(caller, draft("C", "sent", 30), d(2024, 1, 1)).unwrap();
    let series = store.get_revenue_stats(caller);
    assert_eq!(series.len(), 3);
    assert_eq!((series[0].year, series[0].month, series[0].revenue), (2024, 2, 20));
    assert_eq!((series[1].year, series[1].month, series[1].revenue), (2024, 1, 30));
    assert_eq!((series[2].year, series[2].month, series[2].revenue), (2023, 12, 10));
}

#[test]
fn overdue_aggregate_counts_only_overdue() {
    let mut store = Store::new();
    let caller = 1;
    store.create_invoice(caller, draft("A", "overdue", 75), d(2024, 6, 3)).unwrap();
    store.create_invoice(caller, draft("B", "paid", 500), d(2024, 6, 4)).unwrap();
    store.create_invoice(2, draft("X", "overdue", 999), d(2024, 6, 5)).unwrap();
    let o = store.overdue_stats(caller);
    assert_eq!(o.overdue_count, 1);
    assert_eq!(o.overdue_amount, 75);
}

#[test]
fn status_groups_count_and_sum() {
    let mut store = Store::new();
    let caller = 1;
    store.create_invoice(caller, draft("A", "paid", 100), d(2024, 6, 1)).unwrap();
    store.create_invoice(caller, draft("B", "paid", 250), d(2024, 6, 2)).unwrap();
    store.create_invoice(caller, draft("C", "draft", 40), d(2024, 6, 3)).unwrap();
    let stats = store.invoice_status_stats(caller);
    assert_eq!(stats.len(), 2);
    let paid = stats.iter().find(|s| s.status == "paid").unwrap();
    assert_eq!(paid.count, 2);
    assert_eq!(paid.total_amount, 350);
    let drafts = stats.iter().find(|s| s.status == "draft").unwrap();
    assert_eq!(drafts.count, 1);
    assert_eq!(drafts.total_amount, 40);
}

#[test]
fn dashboard_limits_series_to_six_months() {
    let mut store = Store::new();
    let caller = 1;
    for m in 1..=8u8 {
        store.create_invoice(caller, draft("A", "sent", m as i64), d(2024, m, 1)).unwrap();
    }
    let dash = store.get_dashboard_stats(caller);
    assert_eq!(dash.revenue_stats.len(), 6);
    assert_eq!(dash.revenue_stats[0].month, 8);
    assert_eq!(dash.revenue_stats[5].month, 3);
    let full = store.get_revenue_stats(caller);
    assert_eq!(full.len(), 8);
}

#[test]
fn dashboard_counts_clients() {
    let mut store = Store::new();
    let caller = 1;
    for name in ["a", "b", "c"] {
        store.create_client(caller, ClientDraft {
            name: name.to_owned(),
            email: None,
            phone: None,
            address: None,
            tax_id: None,
            payment_terms: None,
            notes: None,
            status: None,
        }).unwrap();
    }
    store.create_client(2, ClientDraft {
        name: "other".to_owned(),
        email: None,
        phone: None,
        address: None,
        tax_id: None,
        payment_terms: None,
        notes: None,
        status: None,
    }).unwrap();
    let dash = store.get_dashboard_stats(caller);
    assert_eq!(dash.client_stats.total_clients, 3);
    assert_eq!(dash.client_stats.active_clients, 3);
    assert_eq!(dash.overdue_stats.overdue_count, 0);
    assert_eq!(dash.overdue_stats.overdue_amount, 0);
}
