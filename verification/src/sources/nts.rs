//! Business-registry status source: envelope and single-record adapter.

use vstd::prelude::*;

verus! {

#[derive(Debug, Clone, PartialEq)]
pub struct NtsResponse {
    pub response: NtsResponseBody,
}

#[derive(Debug, Clone, PartialEq)]
pub struct NtsResponseBody {
    pub header: NtsHeader,
    pub body: Option<NtsBody>,
}

#[derive(Debug, Clone, PartialEq)]
pub struct NtsHeader {
    pub result_code: String,
}

#[derive(Debug, Clone, PartialEq)]
pub struct NtsBody {
    pub items: Option<NtsItems>,
    pub total_count: u32,
}

#[derive(Debug, Clone, PartialEq)]
pub struct NtsItems {
    pub item: Vec<NtsBizInfo>,
}

/// Registration status of one business, as the registry reports it.
#[derive(Debug, Clone, PartialEq)]
pub struct NtsBizInfo {
    pub biz_no: String,
    pub biz_name: String,
    pub ceo_name: String,
    pub status: String,
    pub tax_type: String,
}

/// The items one status response carries; empty when body or items are
/// absent.
pub open spec fn spec_nts_items(r: NtsResponse) -> Seq<NtsBizInfo> {
    match r.response.body {
        Some(b) => match b.items {
            Some(it) => it.item@,
            None => Seq::empty(),
        },
        None => Seq::empty(),
    }
}

/// The single-record lookup bypasses pagination: it takes the first item
/// of the first page, or nothing when the response carries none.
pub fn nts_first_item(resp: NtsResponse) -> (r: Option<NtsBizInfo>)
    ensures
        spec_nts_items(resp).len() == 0 ==> r is None,
        spec_nts_items(resp).len() > 0 ==> r == Some(spec_nts_items(resp)[0]),
{
    match resp.response.body {
        Some(b) => match b.items {
            Some(it) => {
                let mut v = it.item;
                if v.len() > 0 {
                    Some(v.remove(0))
                } else {
                    None
                }
            },
            None => None,
        },
        None => None,
    }
}

/// Request parameters of a single-status lookup: the business number, a
/// page size of one, and the JSON type hint.
pub fn nts_status_params(biz_no: &str) -> (r: Vec<(String, String)>)
    ensures
        r@.len() == 3,
        r@[0].0@ == "bno"@ && r@[0].1@ == biz_no@,
        r@[1].0@ == "numOfRows"@ && r@[1].1@ == "1"@,
        r@[2].0@ == "type"@ && r@[2].1@ == "json"@,
{
    let mut params: Vec<(String, String)> = Vec::new();
    params.push((String::from_str("bno"), String::from_str(biz_no)));
    params.push((String::from_str("numOfRows"), String::from_str("1")));
    params.push((String::from_str("type"), String::from_str("json")));
    params
}

} // verus!
