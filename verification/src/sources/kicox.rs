//! Industrial-complex registry source: envelope and adapter.
//!
//! Areas and rates arrive from the source as fractional numbers; they are
//! carried here as scaled integers in thousandths of the source's unit
//! (thousand square metres for areas, percent for the occupancy rate) so
//! the crate stays exact.  The boundary that decodes the source's JSON
//! performs that scaling.

use vstd::prelude::*;

use crate::client::PageFetch;

verus! {

#[derive(Debug, Clone, PartialEq)]
pub struct KicoxResponse {
    pub response: KicoxResponseBody,
}

#[derive(Debug, Clone, PartialEq)]
pub struct KicoxResponseBody {
    pub header: KicoxHeader,
    pub body: Option<KicoxBody>,
}

#[derive(Debug, Clone, PartialEq)]
pub struct KicoxHeader {
    pub result_code: String,
}

#[derive(Debug, Clone, PartialEq)]
pub struct KicoxBody {
    pub items: Option<KicoxItems>,
    pub total_count: u32,
}

#[derive(Debug, Clone, PartialEq)]
pub struct KicoxItems {
    pub item: Vec<KicoxComplex>,
}

/// One industrial complex as the registry reports it.  `designated_area`,
/// `industrial_area` and `occupancy_rate` are in thousandths of the
/// source's unit.
#[derive(Debug, Clone, PartialEq)]
pub struct KicoxComplex {
    pub complex_code: String,
    pub name: String,
    pub complex_type: String,
    pub province: String,
    pub sigungu: String,
    pub designated_area: Option<i64>,
    pub industrial_area: Option<i64>,
    pub tenant_count: Option<u32>,
    pub operating_count: Option<u32>,
    pub occupancy_rate: Option<i64>,
    pub production: Option<i64>,
    pub export_amount: Option<i64>,
    pub employment: Option<u32>,
}

/// The total item count one page reports; zero when the body is absent.
pub open spec fn spec_kicox_total(r: KicoxResponse) -> u32 {
    match r.response.body {
        Some(b) => b.total_count,
        None => 0,
    }
}

/// The items one page carries; empty when body or items are absent.
pub open spec fn spec_kicox_items(r: KicoxResponse) -> Seq<KicoxComplex> {
    match r.response.body {
        Some(b) => match b.items {
            Some(it) => it.item@,
            None => Seq::empty(),
        },
        None => Seq::empty(),
    }
}

/// Unwrap one page envelope into the generic page shape, tolerating an
/// absent body or absent items as an empty page.
pub fn kicox_extract_page(resp: KicoxResponse) -> (r: PageFetch<KicoxComplex>)
    ensures
        r.items@ == spec_kicox_items(resp),
        r.reported_total == spec_kicox_total(resp),
{
    match resp.response.body {
        Some(b) => {
            let total = b.total_count;
            let items = match b.items {
                Some(it) => it.item,
                None => Vec::new(),
            };
            PageFetch { items, reported_total: total }
        },
        None => PageFetch { items: Vec::new(), reported_total: 0 },
    }
}

/// Request parameters of a whole-registry fetch: none beyond the page
/// parameters the client appends.
pub fn kicox_all_params() -> (r: Vec<(String, String)>)
    ensures
        r@.len() == 0,
{
    Vec::new()
}

/// Request parameters of a by-province fetch.
pub fn kicox_province_params(province: &str) -> (r: Vec<(String, String)>)
    ensures
        r@.len() == 1,
        r@[0].0@ == "ctpvNm"@ && r@[0].1@ == province@,
{
    let mut params: Vec<(String, String)> = Vec::new();
    params.push((String::from_str("ctpvNm"), String::from_str(province)));
    params
}

} // verus!
