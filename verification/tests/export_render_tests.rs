use billing_core::ServiceError;
use billing_core::date::Date;
use billing_core::export::{ExportKind, export_filename, parse_export_kind};
use billing_core::render::{pdf_filename, render_invoice_text};
use billing_core::store::Store;
use billing_core::text::fixed2_string;
use billing_core::types::{ClientDraft, InvoiceDraft, ItemDraft, ProductDraft};

fn d(y: i32, m: u8, day: u8) -> Date {
    Date::new(y, m, day).unwrap()
}

#[test]
fn fixed_point_formatting() {
    assert_eq!(fixed2_string(150), "1.50");
    assert_eq!(fixed2_string(0), "0.00");
    assert_eq!(fixed2_string(-5), "-0.05");
    assert_eq!(fixed2_string(123456), "1234.56");
    assert_eq!(fixed2_string(-100), "-1.00");
    assert_eq!(fixed2_string(7), "0.07");
}

#[test]
fn parse_export_kind_vocabulary() {
    assert_eq!(parse_export_kind("invoices"), Ok(ExportKind::Invoices));
    assert_eq!(parse_export_kind("clients"), Ok(ExportKind::Clients));
    assert_eq!(parse_export_kind("products"), Ok(ExportKind::Products));
    assert_eq!(parse_export_kind("payroll"), Err(ServiceError::InvalidInput));
    assert_eq!(parse_export_kind(""), Err(ServiceError::InvalidInput));
}

#[test]
fn invoice_export_exact_text() {
    let mut store = Store::new();
    let caller = 1;
    store.create_invoice(caller, InvoiceDraft {
        client_id: None,
        invoice_number: "INV-1".to_owned(),
        status: "paid".to_owned(),
        total: 12550,
        due_date: None,
        notes: None,
        items: vec![],
    }, d(2024, 1, 1)).unwrap();
    store.create_invoice(2, InvoiceDraft {
        client_id: None,
        invoice_number: "OTHER".to_owned(),
        status: "paid".to_owned(),
        total: 1,
        due_date: None,
        notes: None,
        items: vec![],
    }, d(2024, 1, 1)).unwrap();
    let csv = store.export_reports(caller, ExportKind::Invoices);
    assert_eq!(csv, "Invoice Number,Status,Total\nINV-1,paid,125.50\n");
}

#[test]
fn client_export_quotes_separators() {
    let mut store = Store::new();
    let caller = 1;
    store.create_client(caller, ClientDraft {
        name: "Acme, Inc.".to_owned(),
        email: Some("a@example.com".to_owned()),
        phone: None,
        address: None,
        tax_id: None,
        payment_terms: None,
        notes: None,
        status: None,
    }).unwrap();
    let csv = store.export_reports(caller, ExportKind::Clients);
    assert_eq!(csv, "Name,Email,Phone\n\"Acme, Inc.\",a@example.com,\n");
}

#[test]
fn export_doubles_embedded_quotes() {
    let mut store = Store::new();
    let caller = 1;
    store.create_product(caller, ProductDraft {
        name: "the \"big\" one".to_owned(),
        description: None,
        price: 999,
    }).unwrap();
    let csv = store.export_reports(caller, ExportKind::Products);
    assert_eq!(csv, "Name,Price\n\"the \"\"big\"\" one\",9.99\n");
}

#[test]
fn export_filenames() {
    assert_eq!(export_filename(ExportKind::Invoices), "invoices_export.csv");
    assert_eq!(export_filename(ExportKind::Clients), "clients_export.csv");
    assert_eq!(export_filename(ExportKind::Products), "products_export.csv");
}

#[test]
fn invoice_document_exact_text() {
    let mut store = Store::new();
    let caller = 1;
    let created = store.create_invoice(caller, InvoiceDraft {
        client_id: None,
        invoice_number: "INV-9".to_owned(),
        status: "sent".to_owned(),
        total: 30000,
        due_date: None,
        notes: None,
        items: vec![ItemDraft {
            description: "consulting".to_owned(),
            quantity: 200,
            price: 15000,
            amount: 30000,
        }],
    }, d(2024, 7, 1)).unwrap();
    let got = store.get_invoice(caller, created.invoice.id).unwrap();
    let text = render_invoice_text(&got.invoice, &got.items, &d(2024, 7, 2));
    assert_eq!(
        text,
        "INVOICE #INV-9\nClient: \nDate: 2024-07-02\n\nconsulting - 2.00 x $150.00 = $300.00\n\nTOTAL: $300.00\n"
    );
}

#[test]
fn pdf_filename_embeds_number() {
    assert_eq!(pdf_filename("INV-9"), "invoice_INV-9.pdf");
}
