//! Tabular exports: a fixed column set per export kind, one header row and
//! one row per owned record. Free-form text fields are quoted whenever they
//! hold a separator, a quote or a line break, with embedded quotes doubled,
//! so no field can corrupt the row structure.

use vstd::prelude::*;
use vstd::string::StrSliceExecFns;

use crate::ServiceError;
use crate::store::Store;
use crate::text::{fixed2_str, fixed2_string, str_eq};
use crate::types::{Client, Invoice, Product};

verus! {

/// The closed set of export kinds; unknown tags are rejected rather than
/// falling through to a default.
#[derive(Clone, Copy, Debug, PartialEq, Eq, Structural)]
pub enum ExportKind {
    Invoices,
    Clients,
    Products,
}

/// Recognizes exactly the export vocabulary.
pub fn parse_export_kind(s: &str) -> (r: Result<ExportKind, ServiceError>)
    ensures
        r == Ok::<ExportKind, ServiceError>(ExportKind::Invoices) <==> s@ == "invoices"@,
        r == Ok::<ExportKind, ServiceError>(ExportKind::Clients) <==> s@ == "clients"@,
        r == Ok::<ExportKind, ServiceError>(ExportKind::Products) <==> s@ == "products"@,
        r is Err <==> !(s@ == "invoices"@ || s@ == "clients"@ || s@ == "products"@),
        r is Err ==> r == Err::<ExportKind, ServiceError>(ServiceError::InvalidInput),
{
    proof {
        reveal_strlit("invoices");
        reveal_strlit("clients");
        reveal_strlit("products");
        assert("invoices"@.len() == 8 && "clients"@.len() == 7 && "products"@.len() == 8);
        assert("invoices"@[0] == 'i' && "products"@[0] == 'p');
    }
    if str_eq(s, "invoices") {
        Ok(ExportKind::Invoices)
    } else if str_eq(s, "clients") {
        Ok(ExportKind::Clients)
    } else if str_eq(s, "products") {
        Ok(ExportKind::Products)
    } else {
        Err(ServiceError::InvalidInput)
    }
}

/// Whether a field must be quoted: it holds a separator, a quote or a
/// line break.
pub open spec fn needs_quoting(f: Seq<char>) -> bool {
    exists|i: int|
        0 <= i < f.len() && ((#[trigger] f[i]) == ',' || f[i] == '"' || f[i] == '\n' || f[i]
            == '\r')
}

/// The field's characters with every quote doubled.
pub open spec fn doubled_quotes(f: Seq<char>) -> Seq<char>
    decreases f.len(),
{
    if f.len() == 0 {
        Seq::empty()
    } else {
        doubled_quotes(f.drop_last()) + (if f.last() == '"' {
            seq!['"', '"']
        } else {
            seq![f.last()]
        })
    }
}

/// A field as it stands in the output: as is when harmless, and otherwise
/// wrapped in quotes with embedded quotes doubled.
pub open spec fn csv_field(f: Seq<char>) -> Seq<char> {
    if needs_quoting(f) {
        seq!['"'] + doubled_quotes(f) + seq!['"']
    } else {
        f
    }
}

/// The field an optional free-form value exports as: absent is empty.
pub open spec fn opt_view(o: Option<String>) -> Seq<char> {
    match o {
        None => Seq::empty(),
        Some(s) => s@,
    }
}

/// Whether the field must be quoted.
fn field_needs_quoting(f: &str) -> (r: bool)
    ensures
        r == needs_quoting(f@),
{
    let n = f.unicode_len();
    let mut k: usize = 0;
    while k < n
        invariant
            k <= n,
            n == f@.len(),
            forall|i: int|
                0 <= i < k ==> !((#[trigger] f@[i]) == ',' || f@[i] == '"' || f@[i] == '\n'
                    || f@[i] == '\r'),
        decreases n - k,
    {
        let c = f.get_char(k);
        if c == ',' || c == '"' || c == '\n' || c == '\r' {
            return true;
        }
        k = k + 1;
    }
    false
}

/// Escapes one field for the output.
fn escape_field(f: &str) -> (r: String)
    ensures
        r@ == csv_field(f@),
{
    if !field_needs_quoting(f) {
        return f.to_owned();
    }
    proof {
        reveal_strlit("\"");
        reveal_strlit("\"\"");
    }
    let n = f.unicode_len();
    let mut out = "\"".to_owned();
    let mut k: usize = 0;
    while k < n
        invariant
            k <= n,
            n == f@.len(),
            out@ == seq!['"'] + doubled_quotes(f@.subrange(0, k as int)),
        decreases n - k,
    {
        proof {
            reveal_strlit("\"");
            reveal_strlit("\"\"");
            assert(f@.subrange(0, k + 1 as int).drop_last() =~= f@.subrange(0, k as int));
            assert(f@.subrange(0, k + 1 as int).last() == f@[k as int]);
        }
        let c = f.get_char(k);
        if c == '"' {
            out.append("\"\"");
        } else {
            let piece = f.substring_char(k, k + 1);
            proof {
                assert(piece@ =~= seq![f@[k as int]]);
            }
            out.append(piece);
        }
        k = k + 1;
        proof {
            assert(out@ =~= seq!['"'] + doubled_quotes(f@.subrange(0, k as int)));
        }
    }
    out.append("\"");
    proof {
        assert(f@.subrange(0, n as int) =~= f@);
        assert(out@ =~= csv_field(f@));
    }
    out
}

/// One exported invoice row: number, status, total.
pub open spec fn invoice_row(v: Invoice) -> Seq<char> {
    csv_field(v.invoice_number@) + seq![','] + csv_field(v.status@) + seq![','] + fixed2_str(
        v.total as int,
    ) + seq!['\n']
}

/// The caller's invoice rows from index `i` on, in storage order.
pub open spec fn invoice_rows(s: Seq<Invoice>, caller: i32, i: int) -> Seq<char>
    decreases s.len() - i,
{
    if i < 0 || i >= s.len() {
        Seq::empty()
    } else {
        (if s[i].user_id == caller {
            invoice_row(s[i])
        } else {
            Seq::empty()
        }) + invoice_rows(s, caller, i + 1)
    }
}

/// One exported client row: name, email, phone.
pub open spec fn client_row(c: Client) -> Seq<char> {
    csv_field(c.name@) + seq![','] + csv_field(opt_view(c.email)) + seq![','] + csv_field(
        opt_view(c.phone),
    ) + seq!['\n']
}

/// The caller's client rows from index `i` on, in storage order.
pub open spec fn client_rows(s: Seq<Client>, caller: i32, i: int) -> Seq<char>
    decreases s.len() - i,
{
    if i < 0 || i >= s.len() {
        Seq::empty()
    } else {
        (if s[i].user_id == caller {
            client_row(s[i])
        } else {
            Seq::empty()
        }) + client_rows(s, caller, i + 1)
    }
}

/// One exported product row: name, price.
pub open spec fn product_row(p: Product) -> Seq<char> {
    csv_field(p.name@) + seq![','] + fixed2_str(p.price as int) + seq!['\n']
}

/// The caller's product rows from index `i` on, in storage order.
pub open spec fn product_rows(s: Seq<Product>, caller: i32, i: int) -> Seq<char>
    decreases s.len() - i,
{
    if i < 0 || i >= s.len() {
        Seq::empty()
    } else {
        (if s[i].user_id == caller {
            product_row(s[i])
        } else {
            Seq::empty()
        }) + product_rows(s, caller, i + 1)
    }
}

/// The whole export for one kind: its fixed header row, then one row per
/// owned record in storage order.
pub open spec fn export_text(store: Store, caller: i32, kind: ExportKind) -> Seq<char> {
    match kind {
        ExportKind::Invoices => "Invoice Number,Status,Total\n"@ + invoice_rows(
            store.invoices@,
            caller,
            0,
        ),
        ExportKind::Clients => "Name,Email,Phone\n"@ + client_rows(store.clients@, caller, 0),
        ExportKind::Products => "Name,Price\n"@ + product_rows(store.products@, caller, 0),
    }
}

/// The attachment filename of one export kind.
pub fn export_filename(kind: ExportKind) -> (r: String)
    ensures
        kind == ExportKind::Invoices ==> r@ == "invoices_export.csv"@,
        kind == ExportKind::Clients ==> r@ == "clients_export.csv"@,
        kind == ExportKind::Products ==> r@ == "products_export.csv"@,
{
    match kind {
        ExportKind::Invoices => "invoices_export.csv".to_owned(),
        ExportKind::Clients => "clients_export.csv".to_owned(),
        ExportKind::Products => "products_export.csv".to_owned(),
    }
}

/// The optional string an export field reads from.
fn opt_field(o: &Option<String>) -> (r: &str)
    ensures
        r@ == opt_view(*o),
{
    match o {
        None => {
            proof {
                reveal_strlit("");
                assert(""@ =~= Seq::<char>::empty());
            }
            ""
        },
        Some(s) => {
            let r: &str = s.as_str();
            r
        },
    }
}

impl Store {
    /// The caller's invoice export: header plus one row per invoice.
    pub fn export_invoices_csv(&self, caller: i32) -> (r: String)
        ensures
            r@ == export_text(*self, caller, ExportKind::Invoices),
    {
        let mut out = "Invoice Number,Status,Total\n".to_owned();
        let n = self.invoices.len();
        let mut k: usize = 0;
        while k < n
            invariant
                k <= n,
                n == self.invoices@.len(),
                out@ + invoice_rows(self.invoices@, caller, k as int)
                    == "Invoice Number,Status,Total\n"@ + invoice_rows(self.invoices@, caller, 0),
            decreases n - k,
        {
            let ghost out0 = out@;
            if self.invoices[k].user_id == caller {
                let f = escape_field(self.invoices[k].invoice_number.as_str());
                out.append(f.as_str());
                out.append(",");
                let st = escape_field(self.invoices[k].status.as_str());
                out.append(st.as_str());
                out.append(",");
                let t = fixed2_string(self.invoices[k].total);
                out.append(t.as_str());
                out.append("\n");
                proof {
                    reveal_strlit(",");
                    reveal_strlit("\n");
                    assert(out@ =~= out0 + invoice_row(self.invoices@[k as int]));
                }
            }
            proof {
                assert(out@ + invoice_rows(self.invoices@, caller, k + 1 as int)
                    =~= "Invoice Number,Status,Total\n"@ + invoice_rows(
                    self.invoices@,
                    caller,
                    0,
                ));
            }
            k = k + 1;
        }
        proof {
            assert(out@ =~= "Invoice Number,Status,Total\n"@ + invoice_rows(
                self.invoices@,
                caller,
                0,
            ));
        }
        out
    }

    /// The caller's client export: header plus one row per client.
    pub fn export_clients_csv(&self, caller: i32) -> (r: String)
        ensures
            r@ == export_text(*self, caller, ExportKind::Clients),
    {
        let mut out = "Name,Email,Phone\n".to_owned();
        let n = self.clients.len();
        let mut k: usize = 0;
        while k < n
            invariant
                k <= n,
                n == self.clients@.len(),
                out@ + client_rows(self.clients@, caller, k as int) == "Name,Email,Phone\n"@
                    + client_rows(self.clients@, caller, 0),
            decreases n - k,
        {
            let ghost out0 = out@;
            if self.clients[k].user_id == caller {
                let f = escape_field(self.clients[k].name.as_str());
                out.append(f.as_str());
                out.append(",");
                let e = escape_field(opt_field(&self.clients[k].email));
                out.append(e.as_str());
                out.append(",");
                let p = escape_field(opt_field(&self.clients[k].phone));
                out.append(p.as_str());
                out.append("\n");
                proof {
                    reveal_strlit(",");
                    reveal_strlit("\n");
                    assert(out@ =~= out0 + client_row(self.clients@[k as int]));
                }
            }
            proof {
                assert(out@ + client_rows(self.clients@, caller, k + 1 as int)
                    =~= "Name,Email,Phone\n"@ + client_rows(self.clients@, caller, 0));
            }
            k = k + 1;
        }
        proof {
            assert(out@ =~= "Name,Email,Phone\n"@ + client_rows(self.clients@, caller, 0));
        }
        out
    }

    /// The caller's product export: header plus one row per product.
    pub fn export_products_csv(&self, caller: i32) -> (r: String)
        ensures
            r@ == export_text(*self, caller, ExportKind::Products),
    {
        let mut out = "Name,Price\n".to_owned();
        let n = self.products.len();
        let mut k: usize = 0;
        while k < n
            invariant
                k <= n,
                n == self.products@.len(),
                out@ + product_rows(self.products@, caller, k as int) == "Name,Price\n"@
                    + product_rows(self.products@, caller, 0),
            decreases n - k,
        {
            let ghost out0 = out@;
            if self.products[k].user_id == caller {
                let f = escape_field(self.products[k].name.as_str());
                out.append(f.as_str());
                out.append(",");
                let t = fixed2_string(self.products[k].price);
                out.append(t.as_str());
                out.append("\n");
                proof {
                    reveal_strlit(",");
                    reveal_strlit("\n");
                    assert(out@ =~= out0 + product_row(self.products@[k as int]));
                }
            }
            proof {
                assert(out@ + product_rows(self.products@, caller, k + 1 as int)
                    =~= "Name,Price\n"@ + product_rows(self.products@, caller, 0));
            }
            k = k + 1;
        }
        proof {
            assert(out@ =~= "Name,Price\n"@ + product_rows(self.products@, caller, 0));
        }
        out
    }

    /// The export for one kind: its fixed header and one row per owned
    /// record.
    pub fn export_reports(&self, caller: i32, kind: ExportKind) -> (r: String)
        ensures
            r@ == export_text(*self, caller, kind),
    {
        match kind {
            ExportKind::Invoices => self.export_invoices_csv(caller),
            ExportKind::Clients => self.export_clients_csv(caller),
            ExportKind::Products => self.export_products_csv(caller),
        }
    }
}

} // verus!
