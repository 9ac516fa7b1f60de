//! Financial-statement source: envelope and adapter.

use vstd::prelude::*;

use crate::client::PageFetch;

verus! {

#[derive(Debug, Clone, PartialEq)]
pub struct FscResponse {
    pub response: FscResponseBody,
}

#[derive(Debug, Clone, PartialEq)]
pub struct FscResponseBody {
    pub header: FscHeader,
    pub body: Option<FscBody>,
}

#[derive(Debug, Clone, PartialEq)]
pub struct FscHeader {
    pub result_code: String,
}

#[derive(Debug, Clone, PartialEq)]
pub struct FscBody {
    pub items: Option<FscItems>,
    pub total_count: u32,
}

#[derive(Debug, Clone, PartialEq)]
pub struct FscItems {
    pub item: Vec<FscFinancial>,
}

/// One financial-statement line item, amounts carried verbatim as the
/// source's decimal strings.
#[derive(Debug, Clone, PartialEq)]
pub struct FscFinancial {
    pub corp_no: String,
    pub corp_name: String,
    pub account_date: String,
    pub account_name: String,
    pub current_amount: Option<String>,
    pub previous_amount: Option<String>,
}

/// The total item count one page reports; zero when the body is absent.
pub open spec fn spec_fsc_total(r: FscResponse) -> u32 {
    match r.response.body {
        Some(b) => b.total_count,
        None => 0,
    }
}

/// The items one page carries; empty when body or items are absent.
pub open spec fn spec_fsc_items(r: FscResponse) -> Seq<FscFinancial> {
    match r.response.body {
        Some(b) => match b.items {
            Some(it) => it.item@,
            None => Seq::empty(),
        },
        None => Seq::empty(),
    }
}

/// Unwrap one page envelope into the generic page shape, tolerating an
/// absent body or absent items as an empty page.
pub fn fsc_extract_page(resp: FscResponse) -> (r: PageFetch<FscFinancial>)
    ensures
        r.items@ == spec_fsc_items(resp),
        r.reported_total == spec_fsc_total(resp),
{
    match resp.response.body {
        Some(b) => {
            let total = b.total_count;
            let items = match b.items {
                Some(it) => it.item,
                None => Vec::new(),
            };
            PageFetch { items, reported_total: total }
        },
        None => PageFetch { items: Vec::new(), reported_total: 0 },
    }
}

/// Request parameters of a financial-statement fetch: the corporation
/// registration number and the fiscal year.
pub fn fsc_params(corp_no: &str, fiscal_year: &str) -> (r: Vec<(String, String)>)
    ensures
        r@.len() == 2,
        r@[0].0@ == "crno"@ && r@[0].1@ == corp_no@,
        r@[1].0@ == "bizYear"@ && r@[1].1@ == fiscal_year@,
{
    let mut params: Vec<(String, String)> = Vec::new();
    params.push((String::from_str("crno"), String::from_str(corp_no)));
    params.push((String::from_str("bizYear"), String::from_str(fiscal_year)));
    params
}

} // verus!
