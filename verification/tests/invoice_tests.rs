use billing_core::ServiceError;
use billing_core::date::Date;
use billing_core::store::Store;
use billing_core::types::{InvoiceDraft, ItemDraft};

fn d(y: i32, m: u8, day: u8) -> Date {
    Date::new(y, m, day).unwrap()
}

fn item(desc: &str, qty: i64, price: i64, amount: i64) -> ItemDraft {
    ItemDraft { description: desc.to_owned(), quantity: qty, price, amount }
}

fn draft(number: &str, status: &str, total: i64, items: Vec<ItemDraft>) -> InvoiceDraft {
    InvoiceDraft {
        client_id: None,
        invoice_number: number.to_owned(),
        status: status.to_owned(),
        total,
        due_date: None,
        notes: None,
        items,
    }
}

#[test]
fn create_then_get_returns_all_items_in_order() {
    let mut store = Store::new();
    let caller = 1;
    let items = vec![
        item("design", 200, 5000, 10000),
        item("build", 100, 20000, 20000),
        item("deploy", 50, 4000, 2000),
    ];
    let created = store.create_invoice(caller, draft("INV-1", "draft", 32000, items), d(2024, 3, 5))
        .unwrap();
    let got = store.get_invoice(caller, created.invoice.id).unwrap();
    assert_eq!(got.items.len(), 3);
    assert_eq!(got.items[0].description, "design");
    assert_eq!(got.items[1].description, "build");
    assert_eq!(got.items[2].description, "deploy");
    for it in &got.items {
        assert_eq!(it.invoice_id, created.invoice.id);
    }
}

#[test]
fn update_then_get_returns_only_new_items() {
    let mut store = Store::new();
    let caller = 1;
    let created = store.create_invoice(
        caller,
        draft("INV-1", "draft", 10000, vec![item("old a", 100, 5000, 5000), item(
            "old b",
            100,
            5000,
            5000,
        )]),
        d(2024, 3, 5),
    ).unwrap();
    let id = created.invoice.id;
    let updated = store.update_invoice(caller, id, draft("INV-1r", "sent", 7000, vec![item(
        "new only",
        100,
        7000,
        7000,
    )])).unwrap();
    assert_eq!(updated.items.len(), 1);
    let got = store.get_invoice(caller, id).unwrap();
    assert_eq!(got.items.len(), 1);
    assert_eq!(got.items[0].description, "new only");
    assert_eq!(got.invoice.invoice_number, "INV-1r");
    assert_eq!(got.invoice.status, "sent");
    assert_eq!(got.invoice.total, 7000);
    // identifier and creation date survive the replacement
    assert_eq!(got.invoice.id, id);
    assert_eq!(got.invoice.created, d(2024, 3, 5));
}

#[test]
fn delete_removes_invoice_and_items() {
    let mut store = Store::new();
    let caller = 1;
    let created = store.create_invoice(
        caller,
        draft("INV-1", "draft", 10000, vec![
            item("a", 100, 4000, 4000),
            item("b", 100, 3000, 3000),
            item("c", 100, 3000, 3000),
        ]),
        d(2024, 3, 5),
    ).unwrap();
    let id = created.invoice.id;
    assert_eq!(store.delete_invoice(caller, id), Ok(()));
    assert_eq!(store.get_invoice(caller, id).map(|_| ()), Err(ServiceError::NotFound));
    // a second deletion finds nothing either
    assert_eq!(store.delete_invoice(caller, id), Err(ServiceError::NotFound));
}

#[test]
fn cross_caller_access_is_not_found() {
    let mut store = Store::new();
    let owner = 1;
    let other = 2;
    let created = store.create_invoice(owner, draft("INV-1", "draft", 5000, vec![item(
        "a",
        100,
        5000,
        5000,
    )]), d(2024, 3, 5)).unwrap();
    let id = created.invoice.id;
    assert_eq!(store.get_invoice(other, id).map(|_| ()), Err(ServiceError::NotFound));
    assert_eq!(
        store.update_invoice(other, id, draft("X", "paid", 1, vec![])).map(|_| ()),
        Err(ServiceError::NotFound)
    );
    assert_eq!(store.delete_invoice(other, id), Err(ServiceError::NotFound));
    // the owner still sees the untouched invoice
    let got = store.get_invoice(owner, id).unwrap();
    assert_eq!(got.invoice.invoice_number, "INV-1");
}

#[test]
fn create_round_trip_preserves_fields() {
    let mut store = Store::new();
    let caller = 7;
    let full = InvoiceDraft {
        client_id: Some(99),
        invoice_number: "INV-42".to_owned(),
        status: "sent".to_owned(),
        total: 123456,
        due_date: Some(d(2024, 12, 31)),
        notes: Some("net 30".to_owned()),
        items: vec![item("thing", 250, 1000, 2500)],
    };
    let created = store.create_invoice(caller, full, d(2024, 11, 30)).unwrap();
    let got = store.get_invoice(caller, created.invoice.id).unwrap();
    assert_eq!(got.invoice.client_id, Some(99));
    assert_eq!(got.invoice.invoice_number, "INV-42");
    assert_eq!(got.invoice.status, "sent");
    assert_eq!(got.invoice.total, 123456);
    assert_eq!(got.invoice.due_date, Some(d(2024, 12, 31)));
    assert_eq!(got.invoice.notes, Some("net 30".to_owned()));
    assert_eq!(got.items[0].description, "thing");
    assert_eq!(got.items[0].quantity, 250);
    assert_eq!(got.items[0].price, 1000);
    assert_eq!(got.items[0].amount, 2500);
}

#[test]
fn list_returns_callers_invoices_newest_first() {
    let mut store = Store::new();
    let a = store.create_invoice(1, draft("A", "draft", 1, vec![]), d(2024, 1, 1)).unwrap();
    let _ = store.create_invoice(2, draft("X", "draft", 9, vec![]), d(2024, 1, 2)).unwrap();
    let b = store.create_invoice(1, draft("B", "draft", 2, vec![]), d(2024, 1, 3)).unwrap();
    let list = store.list_invoices(1);
    assert_eq!(list.len(), 2);
    assert_eq!(list[0].id, b.invoice.id);
    assert_eq!(list[1].id, a.invoice.id);
}

#[test]
fn get_joins_client_name() {
    let mut store = Store::new();
    let caller = 1;
    let client = store.create_client(caller, billing_core::types::ClientDraft {
        name: "Acme Corp".to_owned(),
        email: Some("acme@example.com".to_owned()),
        phone: None,
        address: None,
        tax_id: None,
        payment_terms: None,
        notes: None,
        status: None,
    }).unwrap();
    let mut dr = draft("INV-1", "draft", 0, vec![]);
    dr.client_id = Some(client.id);
    let created = store.create_invoice(caller, dr, d(2024, 5, 1)).unwrap();
    let got = store.get_invoice(caller, created.invoice.id).unwrap();
    assert_eq!(got.invoice.client_name, Some("Acme Corp".to_owned()));
    assert_eq!(got.invoice.client_email, Some("acme@example.com".to_owned()));
}

#[test]
fn mark_sent_moves_draft_to_sent_only() {
    let mut store = Store::new();
    let caller = 1;
    let a = store.create_invoice(caller, draft("A", "draft", 1, vec![]), d(2024, 1, 1)).unwrap();
    let b = store.create_invoice(caller, draft("B", "paid", 2, vec![]), d(2024, 1, 2)).unwrap();
    assert_eq!(store.mark_invoice_sent(caller, a.invoice.id), Ok(()));
    assert_eq!(store.mark_invoice_sent(caller, b.invoice.id), Ok(()));
    assert_eq!(store.get_invoice(caller, a.invoice.id).unwrap().invoice.status, "sent");
    assert_eq!(store.get_invoice(caller, b.invoice.id).unwrap().invoice.status, "paid");
    assert_eq!(store.mark_invoice_sent(2, a.invoice.id), Err(ServiceError::NotFound));
}
