//! Public-procurement contract source: envelope and adapter.
//!
//! Unlike the other sources, this envelope carries its items as a bare
//! list directly under the body.

use vstd::prelude::*;

use crate::client::PageFetch;

verus! {

#[derive(Debug, Clone, PartialEq)]
pub struct PpsResponse {
    pub response: PpsResponseBody,
}

#[derive(Debug, Clone, PartialEq)]
pub struct PpsResponseBody {
    pub header: PpsHeader,
    pub body: Option<PpsBody>,
}

#[derive(Debug, Clone, PartialEq)]
pub struct PpsHeader {
    pub result_code: String,
}

#[derive(Debug, Clone, PartialEq)]
pub struct PpsBody {
    pub items: Option<Vec<PpsContract>>,
    pub total_count: u32,
}

/// One procurement contract, amounts carried verbatim as the source's
/// decimal strings.
#[derive(Debug, Clone, PartialEq)]
pub struct PpsContract {
    pub bid_no: String,
    pub contract_no: String,
    pub title: String,
    pub biz_no: String,
    pub company_name: String,
    pub amount: Option<String>,
    pub contract_date: String,
    pub agency: String,
    pub contract_type: String,
}

/// The total item count one page reports; zero when the body is absent.
pub open spec fn spec_pps_total(r: PpsResponse) -> u32 {
    match r.response.body {
        Some(b) => b.total_count,
        None => 0,
    }
}

/// The items one page carries; empty when body or items are absent.
pub open spec fn spec_pps_items(r: PpsResponse) -> Seq<PpsContract> {
    match r.response.body {
        Some(b) => match b.items {
            Some(it) => it@,
            None => Seq::empty(),
        },
        None => Seq::empty(),
    }
}

/// Unwrap one page envelope into the generic page shape, tolerating an
/// absent body or absent items as an empty page.
pub fn pps_extract_page(resp: PpsResponse) -> (r: PageFetch<PpsContract>)
    ensures
        r.items@ == spec_pps_items(resp),
        r.reported_total == spec_pps_total(resp),
{
    match resp.response.body {
        Some(b) => {
            let total = b.total_count;
            let items = match b.items {
                Some(it) => it,
                None => Vec::new(),
            };
            PageFetch { items, reported_total: total }
        },
        None => PageFetch { items: Vec::new(), reported_total: 0 },
    }
}

/// Request parameters of a date-range contract fetch.
pub fn pps_params(from_date: &str, to_date: &str) -> (r: Vec<(String, String)>)
    ensures
        r@.len() == 2,
        r@[0].0@ == "inqryBgnDt"@ && r@[0].1@ == from_date@,
        r@[1].0@ == "inqryEndDt"@ && r@[1].1@ == to_date@,
{
    let mut params: Vec<(String, String)> = Vec::new();
    params.push((String::from_str("inqryBgnDt"), String::from_str(from_date)));
    params.push((String::from_str("inqryEndDt"), String::from_str(to_date)));
    params
}

} // verus!
