//! In-memory model of the canonical store.
//!
//! The durable store behind the ingestion pipeline is a relational
//! database reached by natural-key upserts; this module gives the library
//! an exact model of that contract.  A `CanonicalStore` holds company
//! rows keyed by the canonical business number and employment points
//! keyed by `(biz_no, year_month)`, each key occurring at most once.
//! Upserting an existing company overwrites only its mutable descriptive
//! fields (name and region code); upserting an existing employment point
//! replaces it entirely.

use vstd::prelude::*;

use crate::models::{BizStatus, Company, EmploymentPoint};

verus! {

/// Mathematical image of one company row.
#[verifier::ext_equal]
pub struct CompanyView {
    pub biz_no: Seq<char>,
    pub name: Seq<char>,
    pub biz_status: BizStatus,
    pub industry_code: Option<Seq<char>>,
    pub bjd_code: Option<Seq<char>>,
}

/// Mathematical image of one employment point.
#[verifier::ext_equal]
pub struct EmploymentPointView {
    pub biz_no: Seq<char>,
    pub year_month: Seq<char>,
    pub employee_count: i32,
    pub new_hires: i32,
    pub departures: i32,
}

impl View for Company {
    type V = CompanyView;

    open spec fn view(&self) -> CompanyView {
        CompanyView {
            biz_no: self.biz_no@,
            name: self.name@,
            biz_status: self.biz_status,
            industry_code: match self.industry_code {
                Some(s) => Some(s@),
                None => None,
            },
            bjd_code: match self.bjd_code {
                Some(s) => Some(s@),
                None => None,
            },
        }
    }
}

impl View for EmploymentPoint {
    type V = EmploymentPointView;

    open spec fn view(&self) -> EmploymentPointView {
        EmploymentPointView {
            biz_no: self.biz_no@,
            year_month: self.year_month@,
            employee_count: self.employee_count,
            new_hires: self.new_hires,
            departures: self.departures,
        }
    }
}

/// Mathematical image of the whole store.
#[verifier::ext_equal]
pub struct StoreView {
    pub companies: Seq<CompanyView>,
    pub employment: Seq<EmploymentPointView>,
}

/// Index of the first company row with the given key, or -1.
pub open spec fn find_company(cs: Seq<CompanyView>, key: Seq<char>) -> int
    decreases cs.len(),
{
    if cs.len() == 0 {
        -1
    } else if cs[0].biz_no == key {
        0
    } else {
        let r = find_company(cs.drop_first(), key);
        if r == -1 {
            -1
        } else {
            1 + r
        }
    }
}

/// Index of the first employment point with the given key, or -1.
pub open spec fn find_emp(ps: Seq<EmploymentPointView>, biz_no: Seq<char>, ym: Seq<char>) -> int
    decreases ps.len(),
{
    if ps.len() == 0 {
        -1
    } else if ps[0].biz_no == biz_no && ps[0].year_month == ym {
        0
    } else {
        let r = find_emp(ps.drop_first(), biz_no, ym);
        if r == -1 {
            -1
        } else {
            1 + r
        }
    }
}

pub open spec fn has_company(cs: Seq<CompanyView>, key: Seq<char>) -> bool {
    find_company(cs, key) >= 0
}

pub open spec fn has_emp(ps: Seq<EmploymentPointView>, biz_no: Seq<char>, ym: Seq<char>) -> bool {
    find_emp(ps, biz_no, ym) >= 0
}

/// The row stored under a present key.
pub open spec fn company_at(cs: Seq<CompanyView>, key: Seq<char>) -> CompanyView
    recommends
        has_company(cs, key),
{
    cs[find_company(cs, key)]
}

/// The point stored under a present key.
pub open spec fn emp_at(ps: Seq<EmploymentPointView>, biz_no: Seq<char>, ym: Seq<char>) -> EmploymentPointView
    recommends
        has_emp(ps, biz_no, ym),
{
    ps[find_emp(ps, biz_no, ym)]
}

/// On conflict, only the mutable descriptive fields (name and region
/// code) are overwritten; the rest of the row is never touched by this
/// path.
pub open spec fn spec_merge_company(existing: CompanyView, c: CompanyView) -> CompanyView {
    CompanyView { name: c.name, bjd_code: c.bjd_code, ..existing }
}

/// Upsert one company row: insert if the key is absent, else merge.
pub open spec fn spec_upsert_company(cs: Seq<CompanyView>, c: CompanyView) -> Seq<CompanyView> {
    let r = find_company(cs, c.biz_no);
    if r == -1 {
        cs.push(c)
    } else {
        cs.update(r, spec_merge_company(cs[r], c))
    }
}

/// Upsert one employment point with full-replacement semantics.
pub open spec fn spec_upsert_emp(ps: Seq<EmploymentPointView>, p: EmploymentPointView) -> Seq<
    EmploymentPointView,
> {
    let r = find_emp(ps, p.biz_no, p.year_month);
    if r == -1 {
        ps.push(p)
    } else {
        ps.update(r, p)
    }
}

pub open spec fn companies_unique(cs: Seq<CompanyView>) -> bool {
    forall|i: int, j: int|
        #![trigger cs[i].biz_no, cs[j].biz_no]
        0 <= i < j < cs.len() ==> cs[i].biz_no != cs[j].biz_no
}

pub open spec fn emps_unique(ps: Seq<EmploymentPointView>) -> bool {
    forall|i: int, j: int|
        #![trigger ps[i].biz_no, ps[j].biz_no]
        0 <= i < j < ps.len() ==> !(ps[i].biz_no == ps[j].biz_no && ps[i].year_month
            == ps[j].year_month)
}

impl StoreView {
    /// Each natural key occurs at most once.
    pub open spec fn wf(self) -> bool {
        companies_unique(self.companies) && emps_unique(self.employment)
    }
}

/// Where a linear scan that failed before `i` and hit at `i` (or ran
/// out) places the first occurrence of `key`.
pub proof fn lemma_find_company_at(cs: Seq<CompanyView>, key: Seq<char>, i: int)
    requires
        0 <= i <= cs.len(),
        forall|j: int| 0 <= j < i ==> #[trigger] cs[j].biz_no != key,
        i < cs.len() ==> cs[i].biz_no == key,
    ensures
        find_company(cs, key) == (if i < cs.len() {
            i
        } else {
            -1
        }),
    decreases i,
{
    if i == 0 {
        if cs.len() > 0 && cs[0].biz_no != key {
            lemma_find_company_none(cs.drop_first(), key);
        }
    } else {
        assert(cs[0].biz_no != key);
        lemma_find_company_at(cs.drop_first(), key, i - 1);
    }
}

proof fn lemma_find_company_none(cs: Seq<CompanyView>, key: Seq<char>)
    requires
        forall|j: int| 0 <= j < cs.len() ==> #[trigger] cs[j].biz_no != key,
    ensures
        find_company(cs, key) == -1,
    decreases cs.len(),
{
    if cs.len() > 0 {
        lemma_find_company_none(cs.drop_first(), key);
    }
}

/// What `find_company` returning an index (or not) says of the sequence.
pub proof fn lemma_find_company_props(cs: Seq<CompanyView>, key: Seq<char>)
    ensures
        find_company(cs, key) == -1 || (0 <= find_company(cs, key) < cs.len()),
        find_company(cs, key) >= 0 ==> cs[find_company(cs, key)].biz_no == key,
        forall|j: int|
            0 <= j < cs.len() && #[trigger] cs[j].biz_no == key ==> find_company(cs, key) >= 0
                && find_company(cs, key) <= j,
    decreases cs.len(),
{
    if cs.len() > 0 {
        lemma_find_company_props(cs.drop_first(), key);
        assert forall|j: int|
            0 <= j < cs.len() && #[trigger] cs[j].biz_no == key implies find_company(cs, key) >= 0
            && find_company(cs, key) <= j by {
            if j > 0 && cs[0].biz_no != key {
                assert(cs.drop_first()[j - 1] == cs[j]);
            }
        }
    }
}

/// The same, for employment keys.
pub proof fn lemma_find_emp_at(ps: Seq<EmploymentPointView>, biz_no: Seq<char>, ym: Seq<char>, i: int)
    requires
        0 <= i <= ps.len(),
        forall|j: int|
            0 <= j < i ==> !(#[trigger] ps[j].biz_no == biz_no && ps[j].year_month == ym),
        i < ps.len() ==> ps[i].biz_no == biz_no && ps[i].year_month == ym,
    ensures
        find_emp(ps, biz_no, ym) == (if i < ps.len() {
            i
        } else {
            -1
        }),
    decreases i,
{
    if i == 0 {
        if ps.len() > 0 && !(ps[0].biz_no == biz_no && ps[0].year_month == ym) {
            lemma_find_emp_none(ps.drop_first(), biz_no, ym);
        }
    } else {
        lemma_find_emp_at(ps.drop_first(), biz_no, ym, i - 1);
    }
}

proof fn lemma_find_emp_none(ps: Seq<EmploymentPointView>, biz_no: Seq<char>, ym: Seq<char>)
    requires
        forall|j: int|
            0 <= j < ps.len() ==> !(#[trigger] ps[j].biz_no == biz_no && ps[j].year_month == ym),
    ensures
        find_emp(ps, biz_no, ym) == -1,
    decreases ps.len(),
{
    if ps.len() > 0 {
        lemma_find_emp_none(ps.drop_first(), biz_no, ym);
    }
}

/// What `find_emp` returning an index (or not) says of the sequence.
pub proof fn lemma_find_emp_props(ps: Seq<EmploymentPointView>, biz_no: Seq<char>, ym: Seq<char>)
    ensures
        find_emp(ps, biz_no, ym) == -1 || (0 <= find_emp(ps, biz_no, ym) < ps.len()),
        find_emp(ps, biz_no, ym) >= 0 ==> ps[find_emp(ps, biz_no, ym)].biz_no == biz_no && ps[
            find_emp(ps, biz_no, ym)
        ].year_month == ym,
        forall|j: int|
            0 <= j < ps.len() && (#[trigger] ps[j].biz_no == biz_no && ps[j].year_month == ym)
                ==> find_emp(ps, biz_no, ym) >= 0 && find_emp(ps, biz_no, ym) <= j,
    decreases ps.len(),
{
    if ps.len() > 0 {
        lemma_find_emp_props(ps.drop_first(), biz_no, ym);
        assert forall|j: int|
            0 <= j < ps.len() && (#[trigger] ps[j].biz_no == biz_no && ps[j].year_month == ym)
            implies find_emp(ps, biz_no, ym) >= 0 && find_emp(ps, biz_no, ym) <= j by {
            if j > 0 && !(ps[0].biz_no == biz_no && ps[0].year_month == ym) {
                assert(ps.drop_first()[j - 1] == ps[j]);
            }
        }
    }
}

/// Company upserts keep keys unique.
pub proof fn lemma_upsert_company_wf(cs: Seq<CompanyView>, c: CompanyView)
    requires
        companies_unique(cs),
    ensures
        companies_unique(spec_upsert_company(cs, c)),
{
    lemma_find_company_props(cs, c.biz_no);
}

/// Employment upserts keep keys unique.
pub proof fn lemma_upsert_emp_wf(ps: Seq<EmploymentPointView>, p: EmploymentPointView)
    requires
        emps_unique(ps),
    ensures
        emps_unique(spec_upsert_emp(ps, p)),
{
    lemma_find_emp_props(ps, p.biz_no, p.year_month);
}

/// The canonical store: company rows and employment points, each keyed
/// by its natural key.
pub struct CanonicalStore {
    pub companies: Vec<Company>,
    pub employment: Vec<EmploymentPoint>,
}

impl View for CanonicalStore {
    type V = StoreView;

    open spec fn view(&self) -> StoreView {
        StoreView {
            companies: Seq::new(self.companies@.len(), |i: int| self.companies@[i]@),
            employment: Seq::new(self.employment@.len(), |i: int| self.employment@[i]@),
        }
    }
}

impl CanonicalStore {
    pub open spec fn wf(self) -> bool {
        self@.wf()
    }

    /// An empty store.
    pub fn new() -> (s: Self)
        ensures
            s.wf(),
            s@.companies.len() == 0,
            s@.employment.len() == 0,
    {
        CanonicalStore { companies: Vec::new(), employment: Vec::new() }
    }

    pub fn company_count(&self) -> (n: usize)
        ensures
            n == self@.companies.len(),
    {
        self.companies.len()
    }

    pub fn employment_count(&self) -> (n: usize)
        ensures
            n == self@.employment.len(),
    {
        self.employment.len()
    }

    /// Insert the company if its key is absent; otherwise overwrite the
    /// existing row's name and region code and nothing else.
    pub fn upsert_company(&mut self, c: Company)
        requires
            old(self).wf(),
        ensures
            final(self).wf(),
            final(self)@.companies == spec_upsert_company(old(self)@.companies, c@),
            final(self)@.employment == old(self)@.employment,
    {
        let n = self.companies.len();
        let mut i: usize = 0;
        while i < n
            invariant
                old(self).wf(),
                n == self.companies@.len(),
                i <= n,
                *self == *old(self),
                forall|j: int| 0 <= j < i ==> #[trigger] self@.companies[j].biz_no != c@.biz_no,
            decreases n - i,
        {
            if self.companies[i].biz_no == c.biz_no {
                proof {
                    lemma_find_company_at(self@.companies, c@.biz_no, i as int);
                    lemma_upsert_company_wf(self@.companies, c@);
                }
                let merged = Company {
                    biz_no: self.companies[i].biz_no.clone(),
                    name: c.name,
                    biz_status: self.companies[i].biz_status,
                    industry_code: match &self.companies[i].industry_code {
                        Some(s) => Some(s.clone()),
                        None => None,
                    },
                    bjd_code: c.bjd_code,
                };
                proof {
                    assert(merged@ =~= spec_merge_company(self@.companies[i as int], c@));
                }
                self.companies[i] = merged;
                proof {
                    assert(self@.companies =~= spec_upsert_company(
                        old(self)@.companies,
                        c@,
                    ));
                    assert(self@.employment =~= old(self)@.employment);
                }
                return ;
            }
            i = i + 1;
        }
        proof {
            lemma_find_company_at(self@.companies, c@.biz_no, n as int);
            lemma_upsert_company_wf(self@.companies, c@);
        }
        self.companies.push(c);
        proof {
            assert(self@.companies =~= spec_upsert_company(old(self)@.companies, c@));
            assert(self@.employment =~= old(self)@.employment);
        }
    }

    /// Insert the point if its key is absent; otherwise replace the
    /// existing point entirely.
    pub fn upsert_employment(&mut self, p: EmploymentPoint)
        requires
            old(self).wf(),
        ensures
            final(self).wf(),
            final(self)@.employment == spec_upsert_emp(old(self)@.employment, p@),
            final(self)@.companies == old(self)@.companies,
    {
        let n = self.employment.len();
        let mut i: usize = 0;
        while i < n
            invariant
                old(self).wf(),
                n == self.employment@.len(),
                i <= n,
                *self == *old(self),
                forall|j: int|
                    0 <= j < i ==> !(#[trigger] self@.employment[j].biz_no == p@.biz_no
                        && self@.employment[j].year_month == p@.year_month),
            decreases n - i,
        {
            if self.employment[i].biz_no == p.biz_no && self.employment[i].year_month
                == p.year_month {
                proof {
                    lemma_find_emp_at(self@.employment, p@.biz_no, p@.year_month, i as int);
                    lemma_upsert_emp_wf(self@.employment, p@);
                }
                self.employment[i] = p;
                proof {
                    assert(self@.employment =~= spec_upsert_emp(old(self)@.employment, p@));
                    assert(self@.companies =~= old(self)@.companies);
                }
                return ;
            }
            i = i + 1;
        }
        proof {
            lemma_find_emp_at(self@.employment, p@.biz_no, p@.year_month, n as int);
            lemma_upsert_emp_wf(self@.employment, p@);
        }
        self.employment.push(p);
        proof {
            assert(self@.employment =~= spec_upsert_emp(old(self)@.employment, p@));
            assert(self@.companies =~= old(self)@.companies);
        }
    }

    /// The company stored under a canonical business number, if any.
    pub fn get_company(&self, biz_no: &String) -> (r: Option<&Company>)
        ensures
            has_company(self@.companies, biz_no@) ==> (r matches Some(c) && c@ == company_at(
                self@.companies,
                biz_no@,
            )),
            !has_company(self@.companies, biz_no@) ==> r is None,
    {
        let n = self.companies.len();
        let mut i: usize = 0;
        while i < n
            invariant
                n == self.companies@.len(),
                i <= n,
                forall|j: int| 0 <= j < i ==> #[trigger] self@.companies[j].biz_no != biz_no@,
            decreases n - i,
        {
            if self.companies[i].biz_no == *biz_no {
                proof {
                    lemma_find_company_at(self@.companies, biz_no@, i as int);
                }
                return Some(&self.companies[i]);
            }
            i = i + 1;
        }
        proof {
            lemma_find_company_at(self@.companies, biz_no@, n as int);
        }
        None
    }

    /// The employment point stored under `(biz_no, year_month)`, if any.
    pub fn get_employment(&self, biz_no: &String, year_month: &String) -> (r: Option<
        &EmploymentPoint,
    >)
        ensures
            has_emp(self@.employment, biz_no@, year_month@) ==> (r matches Some(p) && p@ == emp_at(
                self@.employment,
                biz_no@,
                year_month@,
            )),
            !has_emp(self@.employment, biz_no@, year_month@) ==> r is None,
    {
        let n = self.employment.len();
        let mut i: usize = 0;
        while i < n
            invariant
                n == self.employment@.len(),
                i <= n,
                forall|j: int|
                    0 <= j < i ==> !(#[trigger] self@.employment[j].biz_no == biz_no@
                        && self@.employment[j].year_month == year_month@),
            decreases n - i,
        {
            if self.employment[i].biz_no == *biz_no && self.employment[i].year_month
                == *year_month {
                proof {
                    lemma_find_emp_at(self@.employment, biz_no@, year_month@, i as int);
                }
                return Some(&self.employment[i]);
            }
            i = i + 1;
        }
        proof {
            lemma_find_emp_at(self@.employment, biz_no@, year_month@, n as int);
        }
        None
    }
}

} // verus!
