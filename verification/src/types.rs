//! The rows the billing store holds and the drafts callers submit.
//!
//! Monetary amounts (`total`, `price`, `amount`) are plain integers in the
//! smallest currency unit; quantities are integers in hundredths of a unit.
//! Derived fields are stored as supplied: the store does not recompute
//! `amount` from `quantity * price`, nor `total` from the item amounts —
//! consistency of those fields is the caller's responsibility, as it is for
//! the backing relational store.

use vstd::prelude::*;

use crate::date::Date;

verus! {

/// An invoice row. `client_name` is not stored: reads fill it from the
/// client row the invoice references, writes leave it empty.
#[derive(Debug)]
pub struct Invoice {
    pub id: i32,
    pub user_id: i32,
    pub client_id: Option<i32>,
    pub client_name: Option<String>,
    pub client_email: Option<String>,
    pub invoice_number: String,
    pub status: String,
    pub total: i64,
    pub due_date: Option<Date>,
    pub notes: Option<String>,
    pub created: Date,
}

/// A line item row; lives and dies with its parent invoice.
#[derive(Debug)]
pub struct InvoiceItem {
    pub id: i32,
    pub invoice_id: i32,
    pub description: String,
    pub quantity: i64,
    pub price: i64,
    pub amount: i64,
}

/// An estimate row; no line-item breakdown is persisted.
#[derive(Debug)]
pub struct Estimate {
    pub id: i32,
    pub user_id: i32,
    pub client_id: Option<i32>,
    pub client_name: Option<String>,
    pub estimate_number: String,
    pub status: String,
    pub total: i64,
    pub issue_date: Option<Date>,
    pub expiry_date: Option<Date>,
    pub created: Date,
}

/// A recurring-invoice template. `next_run` is always the value the schedule
/// engine derives from the other schedule fields; `last_run` is the date the
/// template last fired, if ever.
#[derive(Debug)]
pub struct RecurringInvoice {
    pub id: i32,
    pub user_id: i32,
    pub client_id: Option<i32>,
    pub client_name: Option<String>,
    pub interval: String,
    pub interval_count: i32,
    pub start_date: Date,
    pub next_run: Option<Date>,
    pub last_run: Option<Date>,
    pub status: String,
    pub total: i64,
    pub created: Date,
}

/// A client master-data row.
#[derive(Debug)]
pub struct Client {
    pub id: i32,
    pub user_id: i32,
    pub name: String,
    pub email: Option<String>,
    pub phone: Option<String>,
    pub address: Option<String>,
    pub tax_id: Option<String>,
    pub payment_terms: Option<i32>,
    pub notes: Option<String>,
    pub status: Option<String>,
}

/// A product master-data row; `price` is in the smallest currency unit.
#[derive(Debug)]
pub struct Product {
    pub id: i32,
    pub user_id: i32,
    pub name: String,
    pub description: Option<String>,
    pub price: i64,
}

/// Per-caller company settings; one row per caller. `default_tax_rate` is in
/// hundredths of a percent.
#[derive(Debug)]
pub struct CompanySettings {
    pub id: i32,
    pub user_id: i32,
    pub company_name: String,
    pub company_email: Option<String>,
    pub company_phone: Option<String>,
    pub company_address: Option<String>,
    pub company_website: Option<String>,
    pub tax_id: Option<String>,
    pub logo_url: Option<String>,
    pub invoice_prefix: Option<String>,
    pub invoice_starting_number: Option<i32>,
    pub estimate_prefix: Option<String>,
    pub estimate_starting_number: Option<i32>,
    pub default_payment_terms: Option<i32>,
    pub default_tax_rate: Option<i64>,
    pub default_currency: Option<String>,
    pub default_notes: Option<String>,
    pub default_terms: Option<String>,
}

/// A registered account.
#[derive(Debug)]
pub struct User {
    pub id: i32,
    pub email: String,
    pub password_hash: String,
}

/// What a caller submits to create or replace an invoice.
#[derive(Debug)]
pub struct InvoiceDraft {
    pub client_id: Option<i32>,
    pub invoice_number: String,
    pub status: String,
    pub total: i64,
    pub due_date: Option<Date>,
    pub notes: Option<String>,
    pub items: Vec<ItemDraft>,
}

/// One submitted line item.
#[derive(Debug)]
pub struct ItemDraft {
    pub description: String,
    pub quantity: i64,
    pub price: i64,
    pub amount: i64,
}

/// What a caller submits to create or replace an estimate.
#[derive(Debug)]
pub struct EstimateDraft {
    pub client_id: Option<i32>,
    pub estimate_number: String,
    pub status: String,
    pub total: i64,
    pub issue_date: Option<Date>,
    pub expiry_date: Option<Date>,
}

/// What a caller submits to create or replace a recurring template. The
/// next-run date is never taken from the caller: the store derives it.
#[derive(Debug)]
pub struct RecurringDraft {
    pub client_id: Option<i32>,
    pub interval: String,
    pub interval_count: i32,
    pub start_date: Date,
    pub status: String,
    pub total: i64,
}

/// What a caller submits to create or replace a client row.
#[derive(Debug)]
pub struct ClientDraft {
    pub name: String,
    pub email: Option<String>,
    pub phone: Option<String>,
    pub address: Option<String>,
    pub tax_id: Option<String>,
    pub payment_terms: Option<i32>,
    pub notes: Option<String>,
    pub status: Option<String>,
}

/// What a caller submits to create or replace a product row.
#[derive(Debug)]
pub struct ProductDraft {
    pub name: String,
    pub description: Option<String>,
    pub price: i64,
}

/// What a caller submits to replace the company settings.
#[derive(Debug)]
pub struct CompanyDraft {
    pub company_name: String,
    pub company_email: Option<String>,
    pub company_phone: Option<String>,
    pub company_address: Option<String>,
    pub company_website: Option<String>,
    pub tax_id: Option<String>,
    pub logo_url: Option<String>,
    pub invoice_prefix: Option<String>,
    pub invoice_starting_number: Option<i32>,
    pub estimate_prefix: Option<String>,
    pub estimate_starting_number: Option<i32>,
    pub default_payment_terms: Option<i32>,
    pub default_tax_rate: Option<i64>,
    pub default_currency: Option<String>,
    pub default_notes: Option<String>,
    pub default_terms: Option<String>,
}

/// An invoice together with its line items, as create/get/update return it.
#[derive(Debug)]
pub struct InvoiceWithItems {
    pub invoice: Invoice,
    pub items: Vec<InvoiceItem>,
}

/// Clones an optional string; the result equals the input.
pub fn clone_opt_string(o: &Option<String>) -> (r: Option<String>)
    ensures
        r == *o,
{
    match o {
        None => None,
        Some(s) => Some(s.clone()),
    }
}

impl Clone for Invoice {
    fn clone(&self) -> (r: Self)
        ensures
            r == *self,
    {
        Invoice {
            id: self.id,
            user_id: self.user_id,
            client_id: self.client_id,
            client_name: clone_opt_string(&self.client_name),
            client_email: clone_opt_string(&self.client_email),
            invoice_number: self.invoice_number.clone(),
            status: self.status.clone(),
            total: self.total,
            due_date: self.due_date,
            notes: clone_opt_string(&self.notes),
            created: self.created,
        }
    }
}

impl Clone for InvoiceItem {
    fn clone(&self) -> (r: Self)
        ensures
            r == *self,
    {
        InvoiceItem {
            id: self.id,
            invoice_id: self.invoice_id,
            description: self.description.clone(),
            quantity: self.quantity,
            price: self.price,
            amount: self.amount,
        }
    }
}

impl Clone for Estimate {
    fn clone(&self) -> (r: Self)
        ensures
            r == *self,
    {
        Estimate {
            id: self.id,
            user_id: self.user_id,
            client_id: self.client_id,
            client_name: clone_opt_string(&self.client_name),
            estimate_number: self.estimate_number.clone(),
            status: self.status.clone(),
            total: self.total,
            issue_date: self.issue_date,
            expiry_date: self.expiry_date,
            created: self.created,
        }
    }
}

impl Clone for RecurringInvoice {
    fn clone(&self) -> (r: Self)
        ensures
            r == *self,
    {
        RecurringInvoice {
            id: self.id,
            user_id: self.user_id,
            client_id: self.client_id,
            client_name: clone_opt_string(&self.client_name),
            interval: self.interval.clone(),
            interval_count: self.interval_count,
            start_date: self.start_date,
            next_run: self.next_run,
            last_run: self.last_run,
            status: self.status.clone(),
            total: self.total,
            created: self.created,
        }
    }
}

impl Clone for Client {
    fn clone(&self) -> (r: Self)
        ensures
            r == *self,
    {
        Client {
            id: self.id,
            user_id: self.user_id,
            name: self.name.clone(),
            email: clone_opt_string(&self.email),
            phone: clone_opt_string(&self.phone),
            address: clone_opt_string(&self.address),
            tax_id: clone_opt_string(&self.tax_id),
            payment_terms: self.payment_terms,
            notes: clone_opt_string(&self.notes),
            status: clone_opt_string(&self.status),
        }
    }
}

impl Clone for Product {
    fn clone(&self) -> (r: Self)
        ensures
            r == *self,
    {
        Product {
            id: self.id,
            user_id: self.user_id,
            name: self.name.clone(),
            description: clone_opt_string(&self.description),
            price: self.price,
        }
    }
}

impl Clone for CompanySettings {
    fn clone(&self) -> (r: Self)
        ensures
            r == *self,
    {
        CompanySettings {
            id: self.id,
            user_id: self.user_id,
            company_name: self.company_name.clone(),
            company_email: clone_opt_string(&self.company_email),
            company_phone: clone_opt_string(&self.company_phone),
            company_address: clone_opt_string(&self.company_address),
            company_website: clone_opt_string(&self.company_website),
            tax_id: clone_opt_string(&self.tax_id),
            logo_url: clone_opt_string(&self.logo_url),
            invoice_prefix: clone_opt_string(&self.invoice_prefix),
            invoice_starting_number: self.invoice_starting_number,
            estimate_prefix: clone_opt_string(&self.estimate_prefix),
            estimate_starting_number: self.estimate_starting_number,
            default_payment_terms: self.default_payment_terms,
            default_tax_rate: self.default_tax_rate,
            default_currency: clone_opt_string(&self.default_currency),
            default_notes: clone_opt_string(&self.default_notes),
            default_terms: clone_opt_string(&self.default_terms),
        }
    }
}

impl Clone for User {
    fn clone(&self) -> (r: Self)
        ensures
            r == *self,
    {
        User {
            id: self.id,
            email: self.email.clone(),
            password_hash: self.password_hash.clone(),
        }
    }
}

/// The invoice row a draft creates: server-assigned id and creation date,
/// caller identity from the credential, every other field as submitted.
pub open spec fn invoice_from_draft(d: InvoiceDraft, id: int, caller: i32, today: Date) -> Invoice {
    Invoice {
        id: id as i32,
        user_id: caller,
        client_id: d.client_id,
        client_name: None,
        client_email: None,
        invoice_number: d.invoice_number,
        status: d.status,
        total: d.total,
        due_date: d.due_date,
        notes: d.notes,
        created: today,
    }
}

/// The item row a draft creates, bound to its parent invoice.
pub open spec fn item_from_draft(d: ItemDraft, id: int, invoice_id: int) -> InvoiceItem {
    InvoiceItem {
        id: id as i32,
        invoice_id: invoice_id as i32,
        description: d.description,
        quantity: d.quantity,
        price: d.price,
        amount: d.amount,
    }
}

/// The estimate row a draft creates.
pub open spec fn estimate_from_draft(d: EstimateDraft, id: int, caller: i32, today: Date) -> Estimate {
    Estimate {
        id: id as i32,
        user_id: caller,
        client_id: d.client_id,
        client_name: None,
        estimate_number: d.estimate_number,
        status: d.status,
        total: d.total,
        issue_date: d.issue_date,
        expiry_date: d.expiry_date,
        created: today,
    }
}

/// The client row a draft creates.
pub open spec fn client_from_draft(d: ClientDraft, id: int, caller: i32) -> Client {
    Client {
        id: id as i32,
        user_id: caller,
        name: d.name,
        email: d.email,
        phone: d.phone,
        address: d.address,
        tax_id: d.tax_id,
        payment_terms: d.payment_terms,
        notes: d.notes,
        status: d.status,
    }
}

/// The product row a draft creates.
pub open spec fn product_from_draft(d: ProductDraft, id: int, caller: i32) -> Product {
    Product { id: id as i32, user_id: caller, name: d.name, description: d.description, price: d.price }
}

/// The settings row a draft creates or replaces; `id` is kept on replace.
pub open spec fn company_from_draft(d: CompanyDraft, id: int, caller: i32) -> CompanySettings {
    CompanySettings {
        id: id as i32,
        user_id: caller,
        company_name: d.company_name,
        company_email: d.company_email,
        company_phone: d.company_phone,
        company_address: d.company_address,
        company_website: d.company_website,
        tax_id: d.tax_id,
        logo_url: d.logo_url,
        invoice_prefix: d.invoice_prefix,
        invoice_starting_number: d.invoice_starting_number,
        estimate_prefix: d.estimate_prefix,
        estimate_starting_number: d.estimate_starting_number,
        default_payment_terms: d.default_payment_terms,
        default_tax_rate: d.default_tax_rate,
        default_currency: d.default_currency,
        default_notes: d.default_notes,
        default_terms: d.default_terms,
    }
}

} // verus!
