//! Pension-fund workplace roster source: envelope and adapter.

use vstd::prelude::*;

use crate::client::PageFetch;

verus! {

/// Top-level envelope of one page response.
#[derive(Debug, Clone, PartialEq)]
pub struct NpsResponse {
    pub response: NpsResponseBody,
}

#[derive(Debug, Clone, PartialEq)]
pub struct NpsResponseBody {
    pub header: NpsHeader,
    pub body: Option<NpsBody>,
}

#[derive(Debug, Clone, PartialEq)]
pub struct NpsHeader {
    pub result_code: String,
    pub result_msg: String,
}

#[derive(Debug, Clone, PartialEq)]
pub struct NpsBody {
    pub items: Option<NpsItems>,
    pub total_count: u32,
}

#[derive(Debug, Clone, PartialEq)]
pub struct NpsItems {
    pub item: Vec<NpsWorkplace>,
}

/// One workplace record as the source reports it: the business number
/// comes truncated to its leading digits, subscriber counts stand in for
/// employment figures, and the region arrives as three code fragments.
#[derive(Debug, Clone, PartialEq)]
pub struct NpsWorkplace {
    pub name: String,
    pub biz_reg_no: String,
    pub subscriber_count: u32,
    pub new_subscribers: u32,
    pub lost_subscribers: u32,
    pub industry_name: String,
    pub sido_code: String,
    pub sigungu_code: String,
    pub emd_code: String,
    pub data_year_month: String,
}

/// The total item count one page reports; zero when the body is absent.
pub open spec fn spec_nps_total(r: NpsResponse) -> u32 {
    match r.response.body {
        Some(b) => b.total_count,
        None => 0,
    }
}

/// The items one page carries; empty when body or items are absent.
pub open spec fn spec_nps_items(r: NpsResponse) -> Seq<NpsWorkplace> {
    match r.response.body {
        Some(b) => match b.items {
            Some(it) => it.item@,
            None => Seq::empty(),
        },
        None => Seq::empty(),
    }
}

/// Unwrap one page envelope into the generic page shape, tolerating an
/// absent body or absent items as an empty page.
pub fn nps_extract_page(resp: NpsResponse) -> (r: PageFetch<NpsWorkplace>)
    ensures
        r.items@ == spec_nps_items(resp),
        r.reported_total == spec_nps_total(resp),
{
    match resp.response.body {
        Some(b) => {
            let total = b.total_count;
            let items = match b.items {
                Some(it) => it.item,
                None => Vec::new(),
            };
            PageFetch { items, reported_total: total }
        },
        None => PageFetch { items: Vec::new(), reported_total: 0 },
    }
}

/// Request parameters of a by-region fetch: the province code, and the
/// district code when the caller narrows to one.
pub fn nps_region_params(sido_code: &str, sigungu_code: Option<&str>) -> (r: Vec<
    (String, String),
>)
    ensures
        r@.len() == (if sigungu_code is Some {
            2int
        } else {
            1int
        }),
        r@[0].0@ == "ldong_addr_mgpl_dg_cd"@,
        r@[0].1@ == sido_code@,
        sigungu_code matches Some(sg) ==> r@[1].0@ == "ldong_addr_mgpl_sggu_cd"@ && r@[1].1@
            == sg@,
{
    let mut params: Vec<(String, String)> = Vec::new();
    params.push((String::from_str("ldong_addr_mgpl_dg_cd"), String::from_str(sido_code)));
    match sigungu_code {
        Some(sg) => {
            params.push((String::from_str("ldong_addr_mgpl_sggu_cd"), String::from_str(sg)));
        },
        None => {},
    }
    params
}

} // verus!
