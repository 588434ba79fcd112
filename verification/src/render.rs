//! The plain-text invoice document: the fallback rendering used whenever
//! rich rendering resources are unavailable, carrying the same content
//! fields — header with invoice number, client name, generation date, one
//! line per item, and a total line. The byte-identical text is specified,
//! so the rich renderer's feed and the fallback stream agree on content.

use vstd::prelude::*;

use crate::date::Date;
use crate::export::opt_view;
use crate::text::{date_str, date_string, fixed2_str, fixed2_string};
use crate::types::{Invoice, InvoiceItem};

verus! {

/// One rendered item line: description, quantity, unit price and line
/// amount.
pub open spec fn item_line(it: InvoiceItem) -> Seq<char> {
    it.description@ + " - "@ + fixed2_str(it.quantity as int) + " x $"@ + fixed2_str(
        it.price as int,
    ) + " = $"@ + fixed2_str(it.amount as int) + "\n"@
}

/// The item lines from index `i` on, in the order the items stand.
pub open spec fn item_lines(items: Seq<InvoiceItem>, i: int) -> Seq<char>
    decreases items.len() - i,
{
    if i < 0 || i >= items.len() {
        Seq::empty()
    } else {
        item_line(items[i]) + item_lines(items, i + 1)
    }
}

/// The whole document: header, client, date, a blank line, the items, a
/// blank line, and the total.
pub open spec fn invoice_text(inv: Invoice, items: Seq<InvoiceItem>, today: Date) -> Seq<char> {
    "INVOICE #"@ + inv.invoice_number@ + "\n"@ + "Client: "@ + opt_view(inv.client_name) + "\n"@
        + "Date: "@ + date_str(today.year as int, today.month as int, today.day as int) + "\n"@
        + "\n"@ + item_lines(items, 0) + "\n"@ + "TOTAL: $"@ + fixed2_str(inv.total as int)
        + "\n"@
}

/// The attachment filename of one invoice's document.
pub fn pdf_filename(number: &str) -> (r: String)
    ensures
        r@ == "invoice_"@ + number@ + ".pdf"@,
{
    let mut s = "invoice_".to_owned();
    s.append(number);
    s.append(".pdf");
    proof {
        assert(s@ =~= "invoice_"@ + number@ + ".pdf"@);
    }
    s
}

/// Renders the plain-text document for one invoice and its items.
pub fn render_invoice_text(inv: &Invoice, items: &Vec<InvoiceItem>, today: &Date) -> (r: String)
    requires
        today.year >= 0,
    ensures
        r@ == invoice_text(*inv, items@, *today),
{
    let mut s = "INVOICE #".to_owned();
    s.append(inv.invoice_number.as_str());
    s.append("\n");
    s.append("Client: ");
    match &inv.client_name {
        None => {
            proof {
                reveal_strlit("");
            }
            s.append("");
        },
        Some(name) => {
            s.append(name.as_str());
        },
    }
    s.append("\n");
    s.append("Date: ");
    let d = date_string(today);
    s.append(d.as_str());
    s.append("\n");
    s.append("\n");
    proof {
        reveal_strlit("");
        assert(""@ =~= Seq::<char>::empty());
        assert(s@ =~= "INVOICE #"@ + inv.invoice_number@ + "\n"@ + "Client: "@ + opt_view(
            inv.client_name,
        ) + "\n"@ + "Date: "@ + date_str(today.year as int, today.month as int, today.day as int)
            + "\n"@ + "\n"@);
    }
    let ghost head = s@;
    let n = items.len();
    let mut k: usize = 0;
    while k < n
        invariant
            k <= n,
            n == items@.len(),
            s@ + item_lines(items@, k as int) == head + item_lines(items@, 0),
        decreases n - k,
    {
        let ghost s0 = s@;
        let it = &items[k];
        s.append(it.description.as_str());
        s.append(" - ");
        let q = fixed2_string(it.quantity);
        s.append(q.as_str());
        s.append(" x $");
        let p = fixed2_string(it.price);
        s.append(p.as_str());
        s.append(" = $");
        let a = fixed2_string(it.amount);
        s.append(a.as_str());
        s.append("\n");
        proof {
            assert(s@ =~= s0 + item_line(items@[k as int]));
            assert(s@ + item_lines(items@, k + 1 as int) =~= head + item_lines(items@, 0));
        }
        k = k + 1;
    }
    s.append("\n");
    s.append("TOTAL: $");
    let t = fixed2_string(inv.total);
    s.append(t.as_str());
    s.append("\n");
    proof {
        assert(s@ =~= invoice_text(*inv, items@, *today));
    }
    s
}

} // verus!
