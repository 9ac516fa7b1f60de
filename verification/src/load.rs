//! Merge/upsert loader: commits one adapter batch to the canonical store.
//!
//! Per record, in input order: a record whose identifying fields are
//! empty is skipped (not counted, not an error); the business number and
//! region code are normalized; the company row is upserted by its
//! canonical key; and when the record carries a period-stamped employment
//! figure, the employment point is upserted with full-replacement
//! semantics.  A store-side failure aborts the remainder of the batch;
//! records already committed stay committed.

use vstd::prelude::*;

use crate::error::Error;
use crate::models::{BizStatus, Company, EmploymentPoint};
use crate::normalize::{
    extract_sigungu_code, lemma_normalize_bjd_code_idempotent, normalize_biz_no,
    normalize_bjd_code, spec_normalize_biz_no, spec_normalize_bjd_code,
};
use crate::sources::nps::NpsWorkplace;
use crate::store::{
    companies_unique, company_at, emp_at, emps_unique, find_company, find_emp, has_company,
    has_emp, lemma_find_company_at, lemma_find_company_props, lemma_find_emp_at,
    lemma_find_emp_props, lemma_upsert_company_wf, lemma_upsert_emp_wf, spec_merge_company,
    spec_upsert_company, spec_upsert_emp, CanonicalStore, CompanyView, EmploymentPointView,
    StoreView,
};

verus! {

/// `"YYYYMM..." -> "YYYY-MM"`; shorter inputs pass through unchanged.
pub open spec fn spec_format_year_month(s: Seq<char>) -> Seq<char> {
    if s.len() >= 6 {
        s.subrange(0, 4) + seq!['-'] + s.subrange(4, 6)
    } else {
        s
    }
}

/// Put a raw period stamp such as `"202401"` into `"2024-01"` form.
pub fn format_year_month(raw: &str) -> (r: String)
    ensures
        r@ == spec_format_year_month(raw@),
{
    let n = raw.unicode_len();
    if n >= 6 {
        let year = raw.substring_char(0, 4);
        let month = raw.substring_char(4, 6);
        let mut out = String::from_str(year);
        out.append("-");
        out.append(month);
        proof {
            reveal_strlit("-");
            assert(out@ =~= spec_format_year_month(raw@));
        }
        out
    } else {
        String::from_str(raw)
    }
}

/// A subscriber count as a stored `i32`; counts beyond `i32::MAX`
/// saturate rather than wrap.
pub open spec fn spec_count_i32(n: u32) -> i32 {
    if n > 0x7fffffff {
        0x7fffffff
    } else {
        n as i32
    }
}

fn count_to_i32(n: u32) -> (r: i32)
    ensures
        r == spec_count_i32(n),
{
    if n > 0x7fffffff {
        0x7fffffff
    } else {
        n as i32
    }
}

/// What one source record commits to the store: a company row and,
/// when the record carries a period stamp, one employment point.
pub struct RecordPlan {
    pub company: Company,
    pub employment: Option<EmploymentPoint>,
}

/// Mathematical image of one record plan.
#[verifier::ext_equal]
pub struct PlanView {
    pub company: CompanyView,
    pub employment: Option<EmploymentPointView>,
}

impl View for RecordPlan {
    type V = PlanView;

    open spec fn view(&self) -> PlanView {
        PlanView {
            company: self.company@,
            employment: match self.employment {
                Some(p) => Some(p@),
                None => None,
            },
        }
    }
}

/// The canonical company key a record maps to.
pub open spec fn spec_plan_company_key(wp: NpsWorkplace) -> Seq<char> {
    spec_normalize_biz_no(wp.biz_reg_no@)
}

/// The region code a record's company row carries: the district-level
/// prefix of the normalized code assembled from the record's three
/// region fragments.
pub open spec fn spec_plan_bjd(wp: NpsWorkplace) -> Seq<char> {
    spec_normalize_bjd_code(wp.sido_code@ + wp.sigungu_code@ + wp.emd_code@).subrange(0, 5)
}

/// The company row a record upserts.
pub open spec fn spec_plan_company(wp: NpsWorkplace) -> CompanyView {
    CompanyView {
        biz_no: spec_plan_company_key(wp),
        name: wp.name@,
        biz_status: BizStatus::Active,
        industry_code: Some(wp.industry_name@),
        bjd_code: Some(spec_plan_bjd(wp)),
    }
}

/// The employment point a period-stamped record upserts.
pub open spec fn spec_plan_emp(wp: NpsWorkplace) -> EmploymentPointView {
    EmploymentPointView {
        biz_no: spec_plan_company_key(wp),
        year_month: spec_format_year_month(wp.data_year_month@),
        employee_count: spec_count_i32(wp.subscriber_count),
        new_hires: spec_count_i32(wp.new_subscribers),
        departures: spec_count_i32(wp.lost_subscribers),
    }
}

/// What one record commits, if anything: a record whose name or raw
/// identifier is empty is rejected without error.
pub open spec fn spec_plan_of(wp: NpsWorkplace) -> Option<PlanView> {
    if wp.name@.len() == 0 || wp.biz_reg_no@.len() == 0 {
        None
    } else {
        Some(
            PlanView {
                company: spec_plan_company(wp),
                employment: if wp.data_year_month@.len() > 0 {
                    Some(spec_plan_emp(wp))
                } else {
                    None
                },
            },
        )
    }
}

/// Normalize one source record into its store plan, or nothing when its
/// identifying fields are empty.
pub fn plan_nps_record(wp: &NpsWorkplace) -> (r: Option<RecordPlan>)
    ensures
        match r {
            Some(plan) => spec_plan_of(*wp) == Some(plan@),
            None => spec_plan_of(*wp) is None,
        },
{
    if wp.biz_reg_no.as_str().is_empty() || wp.name.as_str().is_empty() {
        return None;
    }
    let biz_no = normalize_biz_no(wp.biz_reg_no.as_str());
    let mut raw_bjd = wp.sido_code.clone();
    raw_bjd.append(wp.sigungu_code.as_str());
    raw_bjd.append(wp.emd_code.as_str());
    let bjd_normalized = normalize_bjd_code(raw_bjd.as_str());
    let sigungu = extract_sigungu_code(bjd_normalized.as_str());
    proof {
        lemma_normalize_bjd_code_idempotent(
            wp.sido_code@ + wp.sigungu_code@ + wp.emd_code@,
        );
        assert(sigungu@ == spec_plan_bjd(*wp));
    }
    let employment = if !wp.data_year_month.as_str().is_empty() {
        Some(
            EmploymentPoint {
                biz_no: biz_no.clone(),
                year_month: format_year_month(wp.data_year_month.as_str()),
                employee_count: count_to_i32(wp.subscriber_count),
                new_hires: count_to_i32(wp.new_subscribers),
                departures: count_to_i32(wp.lost_subscribers),
            },
        )
    } else {
        None
    };
    let plan = RecordPlan {
        company: Company {
            biz_no,
            name: wp.name.clone(),
            biz_status: BizStatus::Active,
            industry_code: Some(wp.industry_name.clone()),
            bjd_code: Some(sigungu),
        },
        employment,
    };
    proof {
        assert(spec_plan_of(*wp) matches Some(pv) && pv =~= plan@);
    }
    Some(plan)
}

/// One plan applied to the store image.
pub open spec fn spec_apply_plan(sv: StoreView, p: PlanView) -> StoreView {
    StoreView {
        companies: spec_upsert_company(sv.companies, p.company),
        employment: match p.employment {
            Some(e) => spec_upsert_emp(sv.employment, e),
            None => sv.employment,
        },
    }
}

/// A whole batch applied in input order; rejected records change
/// nothing.
pub open spec fn spec_load_all(sv: StoreView, wps: Seq<NpsWorkplace>) -> StoreView
    decreases wps.len(),
{
    if wps.len() == 0 {
        sv
    } else {
        match spec_plan_of(wps.last()) {
            Some(p) => spec_apply_plan(spec_load_all(sv, wps.drop_last()), p),
            None => spec_load_all(sv, wps.drop_last()),
        }
    }
}

/// How many records of the batch carry a plan.
pub open spec fn spec_planned_count(wps: Seq<NpsWorkplace>) -> int
    decreases wps.len(),
{
    if wps.len() == 0 {
        0
    } else {
        spec_planned_count(wps.drop_last()) + (if spec_plan_of(wps.last()) is Some {
            1int
        } else {
            0int
        })
    }
}

/// Upsert a batch of workplace records into the store, in input order,
/// and return how many records were committed; records with empty
/// identifying fields are skipped without error.
pub fn upsert_nps_workplaces(store: &mut CanonicalStore, workplaces: &Vec<NpsWorkplace>) -> (count:
    u32)
    requires
        old(store).wf(),
        workplaces@.len() <= u32::MAX,
    ensures
        final(store).wf(),
        final(store)@ == spec_load_all(old(store)@, workplaces@),
        count == spec_planned_count(workplaces@),
{
    let mut count: u32 = 0;
    let mut i: usize = 0;
    while i < workplaces.len()
        invariant
            store.wf(),
            i <= workplaces@.len(),
            workplaces@.len() <= u32::MAX,
            count <= i,
            store@ == spec_load_all(old(store)@, workplaces@.take(i as int)),
            count == spec_planned_count(workplaces@.take(i as int)),
        decreases workplaces@.len() - i,
    {
        let wp = &workplaces[i];
        proof {
            assert(workplaces@.take(i + 1).drop_last() =~= workplaces@.take(i as int));
            assert(workplaces@.take(i + 1).last() == workplaces@[i as int]);
        }
        match plan_nps_record(wp) {
            Some(plan) => {
                let ghost pv = plan@;
                let ghost prev = store@;
                let RecordPlan { company, employment } = plan;
                store.upsert_company(company);
                match employment {
                    Some(p) => {
                        store.upsert_employment(p);
                    },
                    None => {},
                }
                count = count + 1;
                proof {
                    assert(store@ =~= spec_apply_plan(prev, pv));
                }
            },
            None => {},
        }
        i = i + 1;
    }
    proof {
        assert(workplaces@.take(workplaces@.len() as int) =~= workplaces@);
    }
    count
}

/// Report of one batch load: how many records were committed, and the
/// error that aborted the batch, if one did.
pub struct LoadReport {
    pub committed: u32,
    pub error: Option<Error>,
}

/// Index of the first record whose upsert the store rejects, or the
/// batch length when every attempted upsert is accepted.  Skipped
/// records consult no verdict.
pub open spec fn spec_first_load_failure(wps: Seq<NpsWorkplace>, verdicts: Seq<bool>) -> int
    decreases wps.len(),
{
    if wps.len() == 0 {
        0
    } else if spec_plan_of(wps[0]) is Some && !verdicts[0] {
        0
    } else {
        1 + spec_first_load_failure(wps.drop_first(), verdicts.drop_first())
    }
}

proof fn lemma_first_load_failure_at(wps: Seq<NpsWorkplace>, verdicts: Seq<bool>, i: int)
    requires
        verdicts.len() == wps.len(),
        0 <= i <= wps.len(),
        forall|j: int|
            0 <= j < i ==> !(#[trigger] spec_plan_of(wps[j]) is Some && !verdicts[j]),
        i < wps.len() ==> spec_plan_of(wps[i]) is Some && !verdicts[i],
    ensures
        spec_first_load_failure(wps, verdicts) == i,
    decreases i,
{
    if i == 0 {
        if wps.len() > 0 && !(spec_plan_of(wps[0]) is Some && !verdicts[0]) {
            lemma_first_load_failure_none(wps.drop_first(), verdicts.drop_first());
        }
    } else {
        assert(!(spec_plan_of(wps[0]) is Some && !verdicts[0]));
        lemma_first_load_failure_at(wps.drop_first(), verdicts.drop_first(), i - 1);
    }
}

proof fn lemma_first_load_failure_none(wps: Seq<NpsWorkplace>, verdicts: Seq<bool>)
    requires
        verdicts.len() == wps.len(),
        forall|j: int|
            0 <= j < wps.len() ==> !(#[trigger] spec_plan_of(wps[j]) is Some && !verdicts[j]),
    ensures
        spec_first_load_failure(wps, verdicts) == wps.len(),
    decreases wps.len(),
{
    if wps.len() > 0 {
        lemma_first_load_failure_none(wps.drop_first(), verdicts.drop_first());
    }
}

/// Replay one batch load against the store's verdict on each attempted
/// upsert: `verdicts[i]` says whether the store accepts record `i`.
///
/// The first rejected upsert aborts the batch: records committed before
/// it stay committed, later records are never attempted, and the report
/// carries the count of committed records beside the error.
pub fn run_nps_load(
    store: &mut CanonicalStore,
    workplaces: &Vec<NpsWorkplace>,
    verdicts: &Vec<bool>,
) -> (r: LoadReport)
    requires
        old(store).wf(),
        workplaces@.len() <= u32::MAX,
        verdicts@.len() == workplaces@.len(),
    ensures
        final(store).wf(),
        ({
            let f = spec_first_load_failure(workplaces@, verdicts@);
            &&& final(store)@ == spec_load_all(old(store)@, workplaces@.take(f))
            &&& r.committed == spec_planned_count(workplaces@.take(f))
            &&& (r.error is Some <==> f < workplaces@.len())
        }),
{
    let mut count: u32 = 0;
    let mut i: usize = 0;
    while i < workplaces.len()
        invariant
            store.wf(),
            i <= workplaces@.len(),
            workplaces@.len() <= u32::MAX,
            verdicts@.len() == workplaces@.len(),
            count <= i,
            forall|j: int|
                0 <= j < i ==> !(#[trigger] spec_plan_of(workplaces@[j]) is Some && !verdicts@[j]),
            store@ == spec_load_all(old(store)@, workplaces@.take(i as int)),
            count == spec_planned_count(workplaces@.take(i as int)),
        decreases workplaces@.len() - i,
    {
        let wp = &workplaces[i];
        proof {
            assert(workplaces@.take(i + 1).drop_last() =~= workplaces@.take(i as int));
            assert(workplaces@.take(i + 1).last() == workplaces@[i as int]);
        }
        match plan_nps_record(wp) {
            Some(plan) => {
                if !verdicts[i] {
                    proof {
                        lemma_first_load_failure_at(workplaces@, verdicts@, i as int);
                    }
                    return LoadReport {
                        committed: count,
                        error: Some(
                            Error::Load(String::from_str("upsert rejected; batch aborted")),
                        ),
                    };
                }
                let ghost pv = plan@;
                let ghost prev = store@;
                let RecordPlan { company, employment } = plan;
                store.upsert_company(company);
                match employment {
                    Some(p) => {
                        store.upsert_employment(p);
                    },
                    None => {},
                }
                count = count + 1;
                proof {
                    assert(store@ =~= spec_apply_plan(prev, pv));
                }
            },
            None => {},
        }
        i = i + 1;
    }
    proof {
        lemma_first_load_failure_none(workplaces@, verdicts@);
        assert(workplaces@.take(workplaces@.len() as int) =~= workplaces@);
    }
    LoadReport { committed: count, error: None }
}

/// Whether a record's plan upserts the company row under key `k`.
pub open spec fn targets_company(wp: NpsWorkplace, k: Seq<char>) -> bool {
    spec_plan_of(wp) is Some && spec_plan_company_key(wp) == k
}

/// The company row of the last record in the batch that targets `k`.
pub open spec fn spec_last_company_plan(wps: Seq<NpsWorkplace>, k: Seq<char>) -> Option<
    CompanyView,
>
    decreases wps.len(),
{
    if wps.len() == 0 {
        None
    } else if targets_company(wps.last(), k) {
        Some(spec_plan_company(wps.last()))
    } else {
        spec_last_company_plan(wps.drop_last(), k)
    }
}

/// Whether a record's plan upserts the employment point under
/// `(biz, ym)`.
pub open spec fn targets_emp(wp: NpsWorkplace, biz: Seq<char>, ym: Seq<char>) -> bool {
    spec_plan_of(wp) is Some && wp.data_year_month@.len() > 0 && spec_plan_company_key(wp) == biz
        && spec_format_year_month(wp.data_year_month@) == ym
}

/// The employment point of the last record in the batch that targets
/// `(biz, ym)`.
pub open spec fn spec_last_emp_plan(wps: Seq<NpsWorkplace>, biz: Seq<char>, ym: Seq<char>) -> Option<
    EmploymentPointView,
>
    decreases wps.len(),
{
    if wps.len() == 0 {
        None
    } else if targets_emp(wps.last(), biz, ym) {
        Some(spec_plan_emp(wps.last()))
    } else {
        spec_last_emp_plan(wps.drop_last(), biz, ym)
    }
}

/// Loading a batch keeps the store's keys unique.
pub proof fn lemma_load_wf(sv: StoreView, wps: Seq<NpsWorkplace>)
    requires
        sv.wf(),
    ensures
        spec_load_all(sv, wps).wf(),
    decreases wps.len(),
{
    if wps.len() > 0 {
        lemma_load_wf(sv, wps.drop_last());
        let t0 = spec_load_all(sv, wps.drop_last());
        match spec_plan_of(wps.last()) {
            Some(p) => {
                lemma_upsert_company_wf(t0.companies, p.company);
                match p.employment {
                    Some(e) => {
                        lemma_upsert_emp_wf(t0.employment, e);
                    },
                    None => {},
                }
            },
            None => {},
        }
    }
}

/// Where one company upsert leaves the entry under an arbitrary key `k`.
proof fn lemma_upsert_company_find(cs: Seq<CompanyView>, c: CompanyView, k: Seq<char>)
    ensures
        c.biz_no == k && has_company(cs, k) ==> {
            let cs2 = spec_upsert_company(cs, c);
            &&& cs2.len() == cs.len()
            &&& find_company(cs2, k) == find_company(cs, k)
            &&& cs2[find_company(cs, k)] == spec_merge_company(cs[find_company(cs, k)], c)
        },
        c.biz_no == k && !has_company(cs, k) ==> {
            let cs2 = spec_upsert_company(cs, c);
            &&& cs2.len() == cs.len() + 1
            &&& find_company(cs2, k) == cs.len()
            &&& cs2[cs.len() as int] == c
        },
        c.biz_no != k ==> {
            let cs2 = spec_upsert_company(cs, c);
            &&& find_company(cs2, k) == find_company(cs, k)
            &&& (has_company(cs, k) ==> cs2[find_company(cs, k)] == cs[find_company(cs, k)])
        },
{
    lemma_find_company_props(cs, c.biz_no);
    lemma_find_company_props(cs, k);
    let r = find_company(cs, c.biz_no);
    let f = find_company(cs, k);
    let cs2 = spec_upsert_company(cs, c);
    assert forall|j: int| 0 <= j < f implies #[trigger] cs[j].biz_no != k by {
        if cs[j].biz_no == k {
        }
    }
    if r == -1 {
        if c.biz_no == k {
            lemma_find_company_at(cs2, k, cs.len() as int);
        } else {
            if f == -1 {
                lemma_find_company_at(cs2, k, cs2.len() as int);
            } else {
                lemma_find_company_at(cs2, k, f);
            }
        }
    } else {
        if c.biz_no == k {
            lemma_find_company_at(cs2, k, f);
        } else {
            if f == -1 {
                lemma_find_company_at(cs2, k, cs2.len() as int);
            } else {
                lemma_find_company_at(cs2, k, f);
            }
        }
    }
}

/// Where one employment upsert leaves the entry under an arbitrary key.
proof fn lemma_upsert_emp_find(
    ps: Seq<EmploymentPointView>,
    p: EmploymentPointView,
    biz: Seq<char>,
    ym: Seq<char>,
)
    ensures
        p.biz_no == biz && p.year_month == ym && has_emp(ps, biz, ym) ==> {
            let ps2 = spec_upsert_emp(ps, p);
            &&& ps2.len() == ps.len()
            &&& find_emp(ps2, biz, ym) == find_emp(ps, biz, ym)
            &&& ps2[find_emp(ps, biz, ym)] == p
        },
        p.biz_no == biz && p.year_month == ym && !has_emp(ps, biz, ym) ==> {
            let ps2 = spec_upsert_emp(ps, p);
            &&& ps2.len() == ps.len() + 1
            &&& find_emp(ps2, biz, ym) == ps.len()
            &&& ps2[ps.len() as int] == p
        },
        !(p.biz_no == biz && p.year_month == ym) ==> {
            let ps2 = spec_upsert_emp(ps, p);
            &&& find_emp(ps2, biz, ym) == find_emp(ps, biz, ym)
            &&& (has_emp(ps, biz, ym) ==> ps2[find_emp(ps, biz, ym)] == ps[find_emp(ps, biz, ym)])
        },
{
    lemma_find_emp_props(ps, p.biz_no, p.year_month);
    lemma_find_emp_props(ps, biz, ym);
    let r = find_emp(ps, p.biz_no, p.year_month);
    let f = find_emp(ps, biz, ym);
    let ps2 = spec_upsert_emp(ps, p);
    assert forall|j: int|
        0 <= j < f implies !(#[trigger] ps[j].biz_no == biz && ps[j].year_month == ym) by {
        if ps[j].biz_no == biz && ps[j].year_month == ym {
        }
    }
    if p.biz_no == biz && p.year_month == ym {
        if r == -1 {
            lemma_find_emp_at(ps2, biz, ym, ps.len() as int);
        } else {
            lemma_find_emp_at(ps2, biz, ym, f);
        }
    } else {
        if f == -1 {
            lemma_find_emp_at(ps2, biz, ym, ps2.len() as int);
        } else {
            lemma_find_emp_at(ps2, biz, ym, f);
        }
    }
}

/// After a batch, the company entry under a targeted key exists and
/// carries the last targeting plan's name and region code; entries
/// present before stay present.
proof fn lemma_load_company_settled(sv: StoreView, wps: Seq<NpsWorkplace>, k: Seq<char>)
    ensures
        has_company(sv.companies, k) ==> has_company(spec_load_all(sv, wps).companies, k),
        spec_last_company_plan(wps, k) is Some ==> has_company(
            spec_load_all(sv, wps).companies,
            k,
        ),
        spec_last_company_plan(wps, k) matches Some(pc) ==> {
            let t = spec_load_all(sv, wps).companies;
            &&& company_at(t, k).name == pc.name
            &&& company_at(t, k).bjd_code == pc.bjd_code
        },
    decreases wps.len(),
{
    if wps.len() > 0 {
        let w = wps.last();
        let t0 = spec_load_all(sv, wps.drop_last());
        lemma_load_company_settled(sv, wps.drop_last(), k);
        match spec_plan_of(w) {
            Some(p) => {
                lemma_upsert_company_find(t0.companies, p.company, k);
                lemma_find_company_props(spec_upsert_company(t0.companies, p.company), k);
            },
            None => {},
        }
    }
}

/// After a batch, the employment entry under a targeted key exists and
/// equals the last targeting plan's point; entries present before stay
/// present.
proof fn lemma_load_emp_settled(sv: StoreView, wps: Seq<NpsWorkplace>, biz: Seq<char>, ym: Seq<char>)
    ensures
        has_emp(sv.employment, biz, ym) ==> has_emp(spec_load_all(sv, wps).employment, biz, ym),
        spec_last_emp_plan(wps, biz, ym) is Some ==> has_emp(
            spec_load_all(sv, wps).employment,
            biz,
            ym,
        ),
        spec_last_emp_plan(wps, biz, ym) matches Some(pe) ==> emp_at(
            spec_load_all(sv, wps).employment,
            biz,
            ym,
        ) == pe,
    decreases wps.len(),
{
    if wps.len() > 0 {
        let w = wps.last();
        let t0 = spec_load_all(sv, wps.drop_last());
        lemma_load_emp_settled(sv, wps.drop_last(), biz, ym);
        match spec_plan_of(w) {
            Some(p) => {
                match p.employment {
                    Some(e) => {
                        lemma_upsert_emp_find(t0.employment, e, biz, ym);
                        lemma_find_emp_props(spec_upsert_emp(t0.employment, e), biz, ym);
                    },
                    None => {},
                }
            },
            None => {},
        }
    }
}

/// Every planned record leaves a last targeting plan for its company
/// key.
proof fn lemma_plan_has_last_company(wps: Seq<NpsWorkplace>, j: int)
    requires
        0 <= j < wps.len(),
        spec_plan_of(wps[j]) is Some,
    ensures
        spec_last_company_plan(wps, spec_plan_company_key(wps[j])) is Some,
    decreases wps.len(),
{
    if j < wps.len() - 1 {
        assert(wps.drop_last()[j] == wps[j]);
        lemma_plan_has_last_company(wps.drop_last(), j);
    }
}

/// Every planned, period-stamped record leaves a last targeting plan
/// for its employment key.
proof fn lemma_plan_has_last_emp(wps: Seq<NpsWorkplace>, j: int)
    requires
        0 <= j < wps.len(),
        spec_plan_of(wps[j]) is Some,
        wps[j].data_year_month@.len() > 0,
    ensures
        spec_last_emp_plan(
            wps,
            spec_plan_company_key(wps[j]),
            spec_format_year_month(wps[j].data_year_month@),
        ) is Some,
    decreases wps.len(),
{
    if j < wps.len() - 1 {
        assert(wps.drop_last()[j] == wps[j]);
        lemma_plan_has_last_emp(wps.drop_last(), j);
    }
}

/// When every planned company key is already present, a batch only
/// updates rows in place: the length, the key order, and the fields the
/// merge never touches are all preserved, and name and region code end
/// at the last targeting plan's values.
proof fn lemma_load_companies_update_only(sv: StoreView, wps: Seq<NpsWorkplace>)
    requires
        companies_unique(sv.companies),
        forall|j: int|
            0 <= j < wps.len() ==> (#[trigger] spec_plan_of(wps[j]) is Some ==> has_company(
                sv.companies,
                spec_plan_company_key(wps[j]),
            )),
    ensures
        spec_load_all(sv, wps).companies.len() == sv.companies.len(),
        forall|i: int|
            0 <= i < sv.companies.len() ==> {
                let e0 = sv.companies[i];
                let e1 = #[trigger] spec_load_all(sv, wps).companies[i];
                &&& e1.biz_no == e0.biz_no
                &&& e1.biz_status == e0.biz_status
                &&& e1.industry_code == e0.industry_code
                &&& (match spec_last_company_plan(wps, e0.biz_no) {
                    Some(pc) => e1.name == pc.name && e1.bjd_code == pc.bjd_code,
                    None => e1 == e0,
                })
            },
    decreases wps.len(),
{
    if wps.len() > 0 {
        let w = wps.last();
        let t = spec_load_all(sv, wps);
        let t0 = spec_load_all(sv, wps.drop_last());
        assert forall|j: int|
            0 <= j < wps.drop_last().len() implies (#[trigger] spec_plan_of(
            wps.drop_last()[j],
        ) is Some ==> has_company(
            sv.companies,
            spec_plan_company_key(wps.drop_last()[j]),
        )) by {
            assert(wps.drop_last()[j] == wps[j]);
        }
        lemma_load_companies_update_only(sv, wps.drop_last());
        match spec_plan_of(w) {
            Some(p) => {
                let kp = p.company.biz_no;
                assert(spec_plan_of(wps[wps.len() - 1]) is Some);
                assert(has_company(sv.companies, kp));
                lemma_find_company_props(sv.companies, kp);
                let i0 = find_company(sv.companies, kp);
                assert(t0.companies[i0].biz_no == kp);
                assert forall|j: int| 0 <= j < i0 implies #[trigger] t0.companies[j].biz_no != kp by {
                    if t0.companies[j].biz_no == kp {
                        assert(sv.companies[j].biz_no == kp);
                    }
                }
                lemma_find_company_at(t0.companies, kp, i0);
                assert(has_company(t0.companies, kp));
                lemma_upsert_company_find(t0.companies, p.company, kp);
                assert(t.companies == spec_upsert_company(t0.companies, p.company));
                assert(t.companies.len() == sv.companies.len());
                assert forall|i: int|
                    0 <= i < sv.companies.len() implies {
                    let e0 = sv.companies[i];
                    let e1 = #[trigger] t.companies[i];
                    &&& e1.biz_no == e0.biz_no
                    &&& e1.biz_status == e0.biz_status
                    &&& e1.industry_code == e0.industry_code
                    &&& (match spec_last_company_plan(wps, e0.biz_no) {
                        Some(pc) => e1.name == pc.name && e1.bjd_code == pc.bjd_code,
                        None => e1 == e0,
                    })
                } by {
                    let e0 = sv.companies[i];
                    if i == i0 {
                        assert(targets_company(w, e0.biz_no));
                    } else {
                        assert(e0.biz_no != kp);
                        assert(t.companies[i] == t0.companies[i]);
                        assert(!targets_company(w, e0.biz_no));
                    }
                }
            },
            None => {
                assert forall|i: int|
                    0 <= i < sv.companies.len() implies {
                    let e0 = sv.companies[i];
                    let e1 = #[trigger] t.companies[i];
                    &&& e1.biz_no == e0.biz_no
                    &&& e1.biz_status == e0.biz_status
                    &&& e1.industry_code == e0.industry_code
                    &&& (match spec_last_company_plan(wps, e0.biz_no) {
                        Some(pc) => e1.name == pc.name && e1.bjd_code == pc.bjd_code,
                        None => e1 == e0,
                    })
                } by {
                    assert(t.companies[i] == t0.companies[i]);
                    assert(!targets_company(w, sv.companies[i].biz_no));
                }
            },
        }
    }
}

/// When every planned employment key is already present, a batch only
/// replaces points in place: the length and key order are preserved and
/// each targeted point ends at the last targeting plan's value.
proof fn lemma_load_emps_update_only(sv: StoreView, wps: Seq<NpsWorkplace>)
    requires
        emps_unique(sv.employment),
        forall|j: int|
            0 <= j < wps.len() ==> ((#[trigger] spec_plan_of(wps[j]) is Some
                && wps[j].data_year_month@.len() > 0) ==> has_emp(
                sv.employment,
                spec_plan_company_key(wps[j]),
                spec_format_year_month(wps[j].data_year_month@),
            )),
    ensures
        spec_load_all(sv, wps).employment.len() == sv.employment.len(),
        forall|i: int|
            0 <= i < sv.employment.len() ==> {
                let e0 = sv.employment[i];
                let e1 = #[trigger] spec_load_all(sv, wps).employment[i];
                &&& e1.biz_no == e0.biz_no
                &&& e1.year_month == e0.year_month
                &&& (match spec_last_emp_plan(wps, e0.biz_no, e0.year_month) {
                    Some(pe) => e1 == pe,
                    None => e1 == e0,
                })
            },
    decreases wps.len(),
{
    if wps.len() > 0 {
        let w = wps.last();
        let t = spec_load_all(sv, wps);
        let t0 = spec_load_all(sv, wps.drop_last());
        assert forall|j: int|
            0 <= j < wps.drop_last().len() implies ((#[trigger] spec_plan_of(
            wps.drop_last()[j],
        ) is Some && wps.drop_last()[j].data_year_month@.len() > 0) ==> has_emp(
            sv.employment,
            spec_plan_company_key(wps.drop_last()[j]),
            spec_format_year_month(wps.drop_last()[j].data_year_month@),
        )) by {
            assert(wps.drop_last()[j] == wps[j]);
        }
        lemma_load_emps_update_only(sv, wps.drop_last());
        match spec_plan_of(w) {
            Some(p) => {
                match p.employment {
                    Some(e) => {
                        let kb = e.biz_no;
                        let ky = e.year_month;
                        assert(spec_plan_of(wps[wps.len() - 1]) is Some);
                        assert(has_emp(sv.employment, kb, ky));
                        lemma_find_emp_props(sv.employment, kb, ky);
                        let i0 = find_emp(sv.employment, kb, ky);
                        assert(t0.employment[i0].biz_no == kb && t0.employment[i0].year_month
                            == ky);
                        assert forall|j: int|
                            0 <= j < i0 implies !(#[trigger] t0.employment[j].biz_no == kb
                            && t0.employment[j].year_month == ky) by {
                            if t0.employment[j].biz_no == kb && t0.employment[j].year_month == ky {
                                assert(sv.employment[j].biz_no == kb && sv.employment[j].year_month
                                    == ky);
                            }
                        }
                        lemma_find_emp_at(t0.employment, kb, ky, i0);
                        assert(has_emp(t0.employment, kb, ky));
                        lemma_upsert_emp_find(t0.employment, e, kb, ky);
                        assert(t.employment == spec_upsert_emp(t0.employment, e));
                        assert forall|i: int|
                            0 <= i < sv.employment.len() implies {
                            let e0 = sv.employment[i];
                            let e1 = #[trigger] t.employment[i];
                            &&& e1.biz_no == e0.biz_no
                            &&& e1.year_month == e0.year_month
                            &&& (match spec_last_emp_plan(wps, e0.biz_no, e0.year_month) {
                                Some(pe) => e1 == pe,
                                None => e1 == e0,
                            })
                        } by {
                            let e0 = sv.employment[i];
                            if i == i0 {
                                assert(targets_emp(w, e0.biz_no, e0.year_month));
                            } else {
                                assert(!(e0.biz_no == kb && e0.year_month == ky));
                                assert(t.employment[i] == t0.employment[i]);
                                assert(!targets_emp(w, e0.biz_no, e0.year_month));
                            }
                        }
                    },
                    None => {
                        assert forall|i: int|
                            0 <= i < sv.employment.len() implies {
                            let e0 = sv.employment[i];
                            let e1 = #[trigger] t.employment[i];
                            &&& e1.biz_no == e0.biz_no
                            &&& e1.year_month == e0.year_month
                            &&& (match spec_last_emp_plan(wps, e0.biz_no, e0.year_month) {
                                Some(pe) => e1 == pe,
                                None => e1 == e0,
                            })
                        } by {
                            assert(t.employment[i] == t0.employment[i]);
                            assert(!targets_emp(w, sv.employment[i].biz_no,
                                sv.employment[i].year_month));
                        }
                    },
                }
            },
            None => {
                assert forall|i: int|
                    0 <= i < sv.employment.len() implies {
                    let e0 = sv.employment[i];
                    let e1 = #[trigger] t.employment[i];
                    &&& e1.biz_no == e0.biz_no
                    &&& e1.year_month == e0.year_month
                    &&& (match spec_last_emp_plan(wps, e0.biz_no, e0.year_month) {
                        Some(pe) => e1 == pe,
                        None => e1 == e0,
                    })
                } by {
                    assert(t.employment[i] == t0.employment[i]);
                    assert(!targets_emp(w, sv.employment[i].biz_no, sv.employment[i].year_month));
                }
            },
        }
    }
}

/// Applying the same batch twice leaves exactly the state one
/// application leaves: the loader is idempotent per natural key, so a
/// re-ingested batch neither duplicates rows nor accumulates values.
pub proof fn lemma_upsert_batch_idempotent(sv: StoreView, wps: Seq<NpsWorkplace>)
    requires
        sv.wf(),
    ensures
        spec_load_all(spec_load_all(sv, wps), wps) == spec_load_all(sv, wps),
{
    let t = spec_load_all(sv, wps);
    let t2 = spec_load_all(t, wps);
    lemma_load_wf(sv, wps);
    assert forall|j: int|
        0 <= j < wps.len() implies (#[trigger] spec_plan_of(wps[j]) is Some ==> has_company(
        t.companies,
        spec_plan_company_key(wps[j]),
    )) by {
        if spec_plan_of(wps[j]) is Some {
            lemma_plan_has_last_company(wps, j);
            lemma_load_company_settled(sv, wps, spec_plan_company_key(wps[j]));
        }
    }
    assert forall|j: int|
        0 <= j < wps.len() implies ((#[trigger] spec_plan_of(wps[j]) is Some
        && wps[j].data_year_month@.len() > 0) ==> has_emp(
        t.employment,
        spec_plan_company_key(wps[j]),
        spec_format_year_month(wps[j].data_year_month@),
    )) by {
        if spec_plan_of(wps[j]) is Some && wps[j].data_year_month@.len() > 0 {
            lemma_plan_has_last_emp(wps, j);
            lemma_load_emp_settled(
                sv,
                wps,
                spec_plan_company_key(wps[j]),
                spec_format_year_month(wps[j].data_year_month@),
            );
        }
    }
    lemma_load_companies_update_only(t, wps);
    lemma_load_emps_update_only(t, wps);
    assert forall|i: int| 0 <= i < t.companies.len() implies t2.companies[i] == t.companies[i] by {
        let k = t.companies[i].biz_no;
        match spec_last_company_plan(wps, k) {
            Some(pc) => {
                lemma_load_company_settled(sv, wps, k);
                lemma_find_company_props(t.companies, k);
                let f = find_company(t.companies, k);
                assert(f == i) by {
                    if f < i {
                        assert(t.companies[f].biz_no == t.companies[i].biz_no);
                    }
                }
                assert(t2.companies[i] =~= t.companies[i]);
            },
            None => {},
        }
    }
    assert forall|i: int| 0 <= i < t.employment.len() implies t2.employment[i]
        == t.employment[i] by {
        let kb = t.employment[i].biz_no;
        let ky = t.employment[i].year_month;
        match spec_last_emp_plan(wps, kb, ky) {
            Some(pe) => {
                lemma_load_emp_settled(sv, wps, kb, ky);
                lemma_find_emp_props(t.employment, kb, ky);
                let f = find_emp(t.employment, kb, ky);
                assert(f == i) by {
                    if f < i {
                        assert(t.employment[f].biz_no == t.employment[i].biz_no);
                    }
                }
            },
            None => {},
        }
    }
    assert(t2.companies =~= t.companies);
    assert(t2.employment =~= t.employment);
    assert(t2 =~= t);
}

} // verus!
