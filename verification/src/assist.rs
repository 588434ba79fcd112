//! Line-item suggestions derived from free-form notes. Without an
//! assistant credential the single suggestion wraps the notes behind an
//! analysis label at one unit of a default price; with one, behind a
//! breakdown label at one unit of an unset price. Quantities are in
//! hundredths of a unit, prices in the smallest currency unit.

use vstd::prelude::*;

verus! {

/// One suggested line item.
#[derive(Debug)]
pub struct SuggestedItem {
    pub description: String,
    pub quantity: i64,
    pub unit_price: i64,
}

/// Builds the suggestion list for a batch of notes.
pub fn describe_line_items(notes: &str, has_key: bool) -> (r: Vec<SuggestedItem>)
    ensures
        r@.len() == 1,
        r@[0].quantity == 100,
        !has_key ==> r@[0].description@ == "AI Analysis: "@ + notes@ && r@[0].unit_price == 10000,
        has_key ==> r@[0].description@ == "Smart Breakdown: "@ + notes@ && r@[0].unit_price == 0,
{
    let mut description = if has_key {
        "Smart Breakdown: ".to_owned()
    } else {
        "AI Analysis: ".to_owned()
    };
    description.append(notes);
    let unit_price: i64 = if has_key {
        0
    } else {
        10000
    };
    let mut out: Vec<SuggestedItem> = Vec::new();
    out.push(SuggestedItem { description, quantity: 100, unit_price });
    out
}

} // verus!
