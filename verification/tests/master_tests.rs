use billing_core::ServiceError;
use billing_core::date::Date;
use billing_core::store::Store;
use billing_core::types::{ClientDraft, CompanyDraft, EstimateDraft, ProductDraft, RecurringDraft};

fn d(y: i32, m: u8, day: u8) -> Date {
    Date::new(y, m, day).unwrap()
}

fn client(name: &str) -> ClientDraft {
    ClientDraft {
        name: name.to_owned(),
        email: None,
        phone: None,
        address: None,
        tax_id: None,
        payment_terms: None,
        notes: None,
        status: None,
    }
}

fn estimate(number: &str, total: i64) -> EstimateDraft {
    EstimateDraft {
        client_id: None,
        estimate_number: number.to_owned(),
        status: "draft".to_owned(),
        total,
        issue_date: Some(Date::new(2024, 5, 1).unwrap()),
        expiry_date: Some(Date::new(2024, 6, 1).unwrap()),
    }
}

fn recurring(interval: &str, count: i32, start: Date) -> RecurringDraft {
    RecurringDraft {
        client_id: None,
        interval: interval.to_owned(),
        interval_count: count,
        start_date: start,
        status: "active".to_owned(),
        total: 5000,
    }
}

fn company(name: &str) -> CompanyDraft {
    CompanyDraft {
        company_name: name.to_owned(),
        company_email: None,
        company_phone: None,
        company_address: None,
        company_website: None,
        tax_id: None,
        logo_url: None,
        invoice_prefix: None,
        invoice_starting_number: None,
        estimate_prefix: None,
        estimate_starting_number: None,
        default_payment_terms: None,
        default_tax_rate: None,
        default_currency: None,
        default_notes: None,
        default_terms: None,
    }
}

#[test]
fn estimate_crud_round_trip() {
    let mut store = Store::new();
    let caller = 1;
    let e = store.create_estimate(caller, estimate("EST-1", 9900), d(2024, 5, 1)).unwrap();
    let got = store.get_estimate(caller, e.id).unwrap();
    assert_eq!(got.estimate_number, "EST-1");
    assert_eq!(got.total, 9900);
    assert_eq!(got.issue_date, Some(d(2024, 5, 1)));
    let upd = store.update_estimate(caller, e.id, estimate("EST-1b", 12000)).unwrap();
    assert_eq!(upd.estimate_number, "EST-1b");
    assert_eq!(store.get_estimate(caller, e.id).unwrap().total, 12000);
    assert_eq!(store.list_estimates(caller).len(), 1);
    assert_eq!(store.delete_estimate(caller, e.id), Ok(()));
    assert_eq!(store.get_estimate(caller, e.id).map(|_| ()), Err(ServiceError::NotFound));
}

#[test]
fn estimate_scoped_to_caller() {
    let mut store = Store::new();
    let e = store.create_estimate(1, estimate("EST-1", 100), d(2024, 5, 1)).unwrap();
    assert_eq!(store.get_estimate(2, e.id).map(|_| ()), Err(ServiceError::NotFound));
    assert_eq!(
        store.update_estimate(2, e.id, estimate("X", 1)).map(|_| ()),
        Err(ServiceError::NotFound)
    );
    assert_eq!(store.delete_estimate(2, e.id), Err(ServiceError::NotFound));
}

#[test]
fn recurring_create_derives_next_run() {
    let mut store = Store::new();
    let caller = 1;
    let r = store.create_recurring(caller, recurring("month", 1, d(2024, 1, 1)), d(2023, 12, 15))
        .unwrap();
    assert_eq!(r.next_run, Some(d(2024, 1, 1)));
    assert_eq!(r.last_run, None);
    let got = store.get_recurring(caller, r.id).unwrap();
    assert_eq!(got.interval, "month");
    assert_eq!(got.interval_count, 1);
}

#[test]
fn recurring_rejects_bad_drafts() {
    let mut store = Store::new();
    let caller = 1;
    assert_eq!(
        store.create_recurring(caller, recurring("fortnight", 1, d(2024, 1, 1)), d(2024, 1, 1))
            .map(|_| ()),
        Err(ServiceError::InvalidInput)
    );
    assert_eq!(
        store.create_recurring(caller, recurring("month", 0, d(2024, 1, 1)), d(2024, 1, 1))
            .map(|_| ()),
        Err(ServiceError::InvalidInput)
    );
}

#[test]
fn recurring_fire_advances_schedule() {
    let mut store = Store::new();
    let caller = 1;
    let r = store.create_recurring(caller, recurring("month", 1, d(2024, 1, 1)), d(2023, 12, 15))
        .unwrap();
    let fired = store.mark_recurring_fired(caller, r.id, d(2024, 1, 1)).unwrap();
    assert_eq!(fired.last_run, Some(d(2024, 1, 1)));
    assert_eq!(fired.next_run, Some(d(2024, 2, 1)));
    let fired2 = store.mark_recurring_fired(caller, r.id, d(2024, 2, 1)).unwrap();
    assert_eq!(fired2.next_run, Some(d(2024, 3, 1)));
}

#[test]
fn recurring_fire_rejects_backward_dates() {
    let mut store = Store::new();
    let caller = 1;
    let r = store.create_recurring(caller, recurring("month", 1, d(2024, 1, 1)), d(2023, 12, 15))
        .unwrap();
    // before the start date
    assert_eq!(
        store.mark_recurring_fired(caller, r.id, d(2023, 12, 31)).map(|_| ()),
        Err(ServiceError::InvalidInput)
    );
    store.mark_recurring_fired(caller, r.id, d(2024, 2, 1)).unwrap();
    // before the recorded last firing: the schedule never moves backwards
    assert_eq!(
        store.mark_recurring_fired(caller, r.id, d(2024, 1, 15)).map(|_| ()),
        Err(ServiceError::InvalidInput)
    );
    // someone else's template stays hidden
    assert_eq!(
        store.mark_recurring_fired(2, r.id, d(2024, 3, 1)).map(|_| ()),
        Err(ServiceError::NotFound)
    );
    // the rejected firings left the schedule as it was
    let got = store.get_recurring(caller, r.id).unwrap();
    assert_eq!(got.last_run, Some(d(2024, 2, 1)));
    assert_eq!(got.next_run, Some(d(2024, 3, 1)));
}

#[test]
fn recurring_fire_past_year_range_is_internal() {
    let mut store = Store::new();
    let caller = 1;
    let r = store.create_recurring(caller, recurring("year", 1, d(9999, 6, 1)), d(9999, 1, 1))
        .unwrap();
    assert_eq!(
        store.mark_recurring_fired(caller, r.id, d(9999, 6, 1)).map(|_| ()),
        Err(ServiceError::Internal)
    );
}

#[test]
fn recurring_update_recomputes_next_run() {
    let mut store = Store::new();
    let caller = 1;
    let r = store.create_recurring(caller, recurring("month", 1, d(2024, 1, 1)), d(2023, 12, 15))
        .unwrap();
    store.mark_recurring_fired(caller, r.id, d(2024, 1, 1)).unwrap();
    let upd = store.update_recurring(caller, r.id, recurring("week", 2, d(2024, 1, 1))).unwrap();
    assert_eq!(upd.last_run, Some(d(2024, 1, 1)));
    assert_eq!(upd.next_run, Some(d(2024, 1, 15)));
    assert_eq!(store.delete_recurring(caller, r.id), Ok(()));
    assert_eq!(store.get_recurring(caller, r.id).map(|_| ()), Err(ServiceError::NotFound));
}

#[test]
fn client_crud_round_trip() {
    let mut store = Store::new();
    let caller = 1;
    let c = store.create_client(caller, ClientDraft {
        email: Some("a@example.com".to_owned()),
        phone: Some("555".to_owned()),
        ..client("Acme")
    }).unwrap();
    let got = store.get_client(caller, c.id).unwrap();
    assert_eq!(got.name, "Acme");
    assert_eq!(got.email, Some("a@example.com".to_owned()));
    let upd = store.update_client(caller, c.id, client("Acme 2")).unwrap();
    assert_eq!(upd.name, "Acme 2");
    assert_eq!(upd.email, None);
    assert_eq!(store.list_clients(caller).len(), 1);
    assert_eq!(store.get_client(2, c.id).map(|_| ()), Err(ServiceError::NotFound));
    assert_eq!(store.delete_client(2, c.id), Err(ServiceError::NotFound));
    assert_eq!(store.delete_client(caller, c.id), Ok(()));
    assert_eq!(store.get_client(caller, c.id).map(|_| ()), Err(ServiceError::NotFound));
}

#[test]
fn product_crud_round_trip() {
    let mut store = Store::new();
    let caller = 1;
    let p = store.create_product(caller, ProductDraft {
        name: "widget".to_owned(),
        description: Some("a widget".to_owned()),
        price: 1999,
    }).unwrap();
    let got = store.get_product(caller, p.id).unwrap();
    assert_eq!(got.name, "widget");
    assert_eq!(got.price, 1999);
    let upd = store.update_product(caller, p.id, ProductDraft {
        name: "widget v2".to_owned(),
        description: None,
        price: 2999,
    }).unwrap();
    assert_eq!(upd.price, 2999);
    assert_eq!(store.list_products(caller).len(), 1);
    assert_eq!(store.get_product(2, p.id).map(|_| ()), Err(ServiceError::NotFound));
    assert_eq!(store.delete_product(caller, p.id), Ok(()));
    assert_eq!(store.list_products(caller).len(), 0);
}

#[test]
fn company_settings_default_then_upsert() {
    let mut store = Store::new();
    let caller = 1;
    let first = store.get_company(caller).unwrap();
    assert_eq!(first.company_name, "My Company");
    let again = store.get_company(caller).unwrap();
    assert_eq!(again.id, first.id);
    let upd = store.update_company(caller, company("Real Name Ltd")).unwrap();
    assert_eq!(upd.id, first.id);
    assert_eq!(upd.company_name, "Real Name Ltd");
    let read = store.get_company(caller).unwrap();
    assert_eq!(read.company_name, "Real Name Ltd");
    // a different caller gets a row of their own
    let other = store.update_company(2, company("Other Co")).unwrap();
    assert!(other.id != first.id);
}
