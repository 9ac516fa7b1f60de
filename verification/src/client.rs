//! Decision core of the paginated retrying client.
//!
//! The network side of the client lives outside this crate; here stand the
//! rules it must follow.  `RetryPolicy` fixes the bounded exponential
//! backoff schedule, `run_retry` replays the retry rule over the observed
//! outcome of each attempt, `Paginator` tracks when the next page is owed,
//! and `run_pagination` replays the page rule over the successive page
//! responses of a source, concatenating the items of the pages it
//! requests in source order.

use vstd::arithmetic::mul::lemma_mul_inequality;
use vstd::arithmetic::power2::{lemma_pow2_strictly_increases, lemma_pow2_unfold, pow2};
use vstd::prelude::*;

use crate::error::{Error, FetchFailure};

verus! {

/// Retry budget and backoff base for one request.  Attempt 0 fires
/// immediately; each retry attempt `a` in `1..=max_retries` is preceded
/// by a delay of `base_backoff_ms * 2^(a-1)` milliseconds.
#[derive(Debug, Clone, PartialEq, Eq, Structural)]
pub struct RetryPolicy {
    pub max_retries: u32,
    pub base_backoff_ms: u64,
}

impl RetryPolicy {
    /// Bounds under which every backoff delay fits in a `u64`.
    pub open spec fn wf(self) -> bool {
        self.max_retries <= 30 && self.base_backoff_ms <= 0x100000000
    }

    /// Delay in milliseconds before retry attempt `attempt` (1-based):
    /// `base_backoff_ms * 2^(attempt-1)`.
    pub open spec fn spec_delay_ms(self, attempt: int) -> int
        recommends
            1 <= attempt,
    {
        self.base_backoff_ms * pow2((attempt - 1) as nat)
    }

    /// The production schedule: 4 retries delayed 2s, 4s, 8s, 16s.
    pub fn standard() -> (p: Self)
        ensures
            p.wf(),
            p.max_retries == 4,
            p.base_backoff_ms == 2000,
    {
        RetryPolicy { max_retries: 4, base_backoff_ms: 2000 }
    }

    /// Delay in milliseconds before the given retry attempt.
    pub fn backoff_delay_ms(&self, attempt: u32) -> (d: u64)
        requires
            self.wf(),
            1 <= attempt <= self.max_retries,
        ensures
            d == self.spec_delay_ms(attempt as int),
    {
        let mut d: u64 = self.base_backoff_ms;
        let mut i: u32 = 1;
        proof {
            vstd::arithmetic::power2::lemma2_to64();
            assert(self.base_backoff_ms * pow2(0) == self.base_backoff_ms) by (nonlinear_arith)
                requires
                    pow2(0) == 1,
            ;
        }
        while i < attempt
            invariant
                1 <= i <= attempt,
                attempt <= 30,
                self.base_backoff_ms <= 0x100000000,
                d == self.base_backoff_ms * pow2((i - 1) as nat),
            decreases attempt - i,
        {
            proof {
                let b = self.base_backoff_ms as int;
                lemma_pow2_strictly_increases((i - 1) as nat, 29);
                vstd::arithmetic::power2::lemma2_to64();
                lemma_pow2_unfold(i as nat);
                assert(b * pow2((i - 1) as nat) <= 0x100000000 * 0x20000000) by (nonlinear_arith)
                    requires
                        0 <= b <= 0x100000000,
                        0 <= pow2((i - 1) as nat) <= 0x20000000,
                ;
                assert(b * pow2(i as nat) == 2 * (b * pow2((i - 1) as nat))) by (nonlinear_arith)
                    requires
                        pow2(i as nat) == 2 * pow2((i - 1) as nat),
                ;
            }
            d = d * 2;
            i = i + 1;
        }
        d
    }
}

/// Outcome of replaying the retry rule: whether some attempt succeeded,
/// how many attempts were made, the delays observed between them, and —
/// when the budget ran out — the error that wraps the last observed
/// failure.
pub struct RetryRun {
    pub succeeded: bool,
    pub attempts: u32,
    pub delays_ms: Vec<u64>,
    pub error: Option<Error>,
}

/// Index of the first successful attempt (the first attempt with no
/// failure recorded), or the number of attempts when none succeeds.
pub open spec fn spec_first_success(outcomes: Seq<Option<FetchFailure>>) -> int
    decreases outcomes.len(),
{
    if outcomes.len() == 0 {
        0
    } else if outcomes[0] is None {
        0
    } else {
        1 + spec_first_success(outcomes.drop_first())
    }
}

proof fn lemma_first_success_is(outcomes: Seq<Option<FetchFailure>>, i: int)
    requires
        0 <= i <= outcomes.len(),
        forall|j: int| 0 <= j < i ==> outcomes[j] is Some,
        i < outcomes.len() ==> outcomes[i] is None,
    ensures
        spec_first_success(outcomes) == i,
    decreases i,
{
    if i == 0 {
    } else {
        assert(outcomes[0] is Some);
        lemma_first_success_is(outcomes.drop_first(), i - 1);
    }
}

/// Replay the retry rule over the outcome of each attempt.
///
/// `outcomes[a]` is the failure attempt `a` (0-based) would observe, or
/// nothing when it would succeed; one outcome is supplied for every
/// attempt the budget allows.  The run stops at the first success and
/// observes exactly the schedule's delays: none before attempt 0,
/// `spec_delay_ms(a)` before retry attempt `a`.  When every attempt
/// fails, the run ends with `RetriesExhausted` wrapping the last
/// observed failure, and nothing is delivered.
pub fn run_retry(policy: &RetryPolicy, outcomes: Vec<Option<FetchFailure>>) -> (r: RetryRun)
    requires
        policy.wf(),
        outcomes@.len() == policy.max_retries + 1,
    ensures
        ({
            let k = spec_first_success(outcomes@);
            &&& (r.succeeded <==> k < outcomes@.len())
            &&& r.attempts == (if k < outcomes@.len() {
                k + 1
            } else {
                policy.max_retries + 1
            })
            &&& r.delays_ms@.len() == (if k < outcomes@.len() {
                k
            } else {
                policy.max_retries as int
            })
            &&& forall|j: int|
                0 <= j < r.delays_ms@.len() ==> r.delays_ms@[j] == policy.spec_delay_ms(j + 1)
            &&& (r.succeeded ==> r.error is None)
            &&& (!r.succeeded ==> (outcomes@.last() matches Some(f) && r.error == Some(
                Error::RetriesExhausted(f),
            )))
        }),
{
    let ghost outcomes0 = outcomes@;
    let total: u32 = policy.max_retries + 1;
    let mut rest = outcomes;
    let mut delays: Vec<u64> = Vec::new();
    let mut last: Option<FetchFailure> = None;
    let mut attempt: u32 = 0;
    while attempt < total
        invariant
            policy.wf(),
            total == policy.max_retries + 1,
            outcomes0 == outcomes@,
            outcomes0.len() == total,
            attempt <= total,
            rest@ == outcomes0.subrange(attempt as int, total as int),
            forall|j: int| 0 <= j < attempt ==> outcomes0[j] is Some,
            attempt > 0 ==> last == outcomes0[attempt - 1],
            delays@.len() == (if attempt == 0 {
                0int
            } else {
                attempt - 1
            }),
            forall|j: int| 0 <= j < delays@.len() ==> delays@[j] == policy.spec_delay_ms(j + 1),
        decreases total - attempt,
    {
        if attempt > 0 {
            let d = policy.backoff_delay_ms(attempt);
            delays.push(d);
        }
        let outcome = rest.remove(0);
        proof {
            assert(outcome == outcomes0[attempt as int]);
            assert(rest@ =~= outcomes0.subrange(attempt + 1, total as int));
        }
        match outcome {
            None => {
                proof {
                    lemma_first_success_is(outcomes0, attempt as int);
                }
                return RetryRun {
                    succeeded: true,
                    attempts: attempt + 1,
                    delays_ms: delays,
                    error: None,
                };
            },
            Some(f) => {
                last = Some(f);
            },
        }
        attempt = attempt + 1;
    }
    proof {
        lemma_first_success_is(outcomes0, outcomes0.len() as int);
    }
    let f = match last {
        Some(f) => f,
        None => FetchFailure::Transport(String::from_str("unknown error")),
    };
    RetryRun {
        succeeded: false,
        attempts: total,
        delays_ms: delays,
        error: Some(Error::RetriesExhausted(f)),
    }
}

/// Pagination progress for one paged fetch.  The source's reported total
/// is trusted as most recently observed; it starts at `u32::MAX` so the
/// first page is always requested.
pub struct Paginator {
    pub page_size: u32,
    pub pages_fetched: u32,
    pub total_count: u32,
    pub last_page_empty: bool,
}

impl Paginator {
    pub open spec fn wf(self) -> bool {
        self.page_size >= 1
    }

    /// No further page is owed: the last page was empty, or the pages
    /// fetched already cover the most recently reported total.
    pub open spec fn spec_done(self) -> bool {
        self.last_page_empty || self.pages_fetched as int * self.page_size as int
            >= self.total_count as int
    }

    pub fn new(page_size: u32) -> (p: Self)
        requires
            page_size >= 1,
        ensures
            p.wf(),
            p.page_size == page_size,
            p.pages_fetched == 0,
            p.total_count == u32::MAX,
            !p.last_page_empty,
            !p.spec_done(),
    {
        Paginator { page_size, pages_fetched: 0, total_count: u32::MAX, last_page_empty: false }
    }

    pub fn done(&self) -> (b: bool)
        ensures
            b == self.spec_done(),
    {
        proof {
            vstd::arithmetic::mul::lemma_mul_upper_bound(
                self.pages_fetched as int,
                0xffffffff,
                self.page_size as int,
                0xffffffff,
            );
        }
        self.last_page_empty || (self.pages_fetched as u64) * (self.page_size as u64) >= (
        self.total_count as u64)
    }

    /// The 1-based number of the next page to request, if one is owed.
    pub fn next_page(&self) -> (p: Option<u32>)
        requires
            self.wf(),
        ensures
            self.spec_done() ==> p is None,
            !self.spec_done() ==> p == Some((self.pages_fetched + 1) as u32),
    {
        if self.done() {
            None
        } else {
            proof {
                lemma_mul_inequality(1, self.page_size as int, self.pages_fetched as int);
            }
            Some(self.pages_fetched + 1)
        }
    }

    /// Record one fetched page: count it, trust the newly reported total,
    /// and stop for good when the page was empty — even if the reported
    /// total has not been reached.
    pub fn record_page(&mut self, item_count: usize, total_count: u32)
        requires
            old(self).wf(),
            !old(self).spec_done(),
        ensures
            final(self).wf(),
            final(self).page_size == old(self).page_size,
            final(self).pages_fetched == old(self).pages_fetched + 1,
            final(self).total_count == total_count,
            final(self).last_page_empty == (item_count == 0),
            item_count == 0 ==> final(self).spec_done(),
    {
        proof {
            lemma_mul_inequality(1, self.page_size as int, self.pages_fetched as int);
        }
        self.pages_fetched = self.pages_fetched + 1;
        self.total_count = total_count;
        self.last_page_empty = item_count == 0;
    }
}

/// One page response: the items it carried and the total item count the
/// source reported alongside them.
pub struct PageFetch<R> {
    pub items: Vec<R>,
    pub reported_total: u32,
}

/// Outcome of replaying the page rule: the concatenated items of the
/// requested pages in source order, how many pages were requested, and
/// whether the supplied responses ran out while another page was owed.
pub struct PaginationRun<R> {
    pub items: Vec<R>,
    pub pages_requested: u32,
    pub source_drained: bool,
}

/// The item sequences of the pages, in page order.
pub open spec fn page_item_seqs<R>(pages: Seq<PageFetch<R>>) -> Seq<Seq<R>> {
    pages.map_values(|p: PageFetch<R>| p.items@)
}

/// Whether page `k+1` is requested after the first `k` responses: the
/// first page always is; afterwards the last page must have been
/// non-empty and the pages fetched must not yet cover its reported total.
pub open spec fn pg_continues<R>(page_size: int, pages: Seq<PageFetch<R>>, k: int) -> bool {
    k == 0 || (0 < k <= pages.len() && pages[k - 1].items@.len() > 0 && k * page_size < pages[k
        - 1].reported_total)
}

/// Replay the page rule over the successive page responses of a source.
///
/// Pages are requested sequentially from page 1 while the rule continues;
/// the result preserves source order across pages.
pub fn run_pagination<R>(page_size: u32, pages: Vec<PageFetch<R>>) -> (r: PaginationRun<R>)
    requires
        page_size >= 1,
    ensures
        r.pages_requested <= pages@.len(),
        r.items@ == page_item_seqs(pages@.take(r.pages_requested as int)).flatten(),
        forall|k: int| 0 <= k < r.pages_requested ==> pg_continues(page_size as int, pages@, k),
        r.source_drained <==> (r.pages_requested == pages@.len() && pg_continues(
            page_size as int,
            pages@,
            r.pages_requested as int,
        )),
        !r.source_drained ==> !pg_continues(page_size as int, pages@, r.pages_requested as int),
{
    let ghost pages0 = pages@;
    let mut rest = pages;
    let mut items: Vec<R> = Vec::new();
    let mut pager = Paginator::new(page_size);
    let mut drained = false;
    loop
        invariant_except_break
            pager.wf(),
            pager.page_size == page_size,
            !drained,
            pager.pages_fetched as int + rest@.len() == pages0.len(),
            rest@ == pages0.subrange(pager.pages_fetched as int, pages0.len() as int),
            items@ == page_item_seqs(pages0.take(pager.pages_fetched as int)).flatten(),
            forall|j: int|
                0 <= j < pager.pages_fetched ==> pg_continues(page_size as int, pages0, j),
            pager.spec_done() <==> !pg_continues(
                page_size as int,
                pages0,
                pager.pages_fetched as int,
            ),
        ensures
            pager.pages_fetched as int <= pages0.len(),
            items@ == page_item_seqs(pages0.take(pager.pages_fetched as int)).flatten(),
            forall|j: int|
                0 <= j < pager.pages_fetched ==> pg_continues(page_size as int, pages0, j),
            drained ==> pager.pages_fetched as int == pages0.len() && pg_continues(
                page_size as int,
                pages0,
                pager.pages_fetched as int,
            ),
            !drained ==> !pg_continues(page_size as int, pages0, pager.pages_fetched as int),
        decreases rest@.len(),
    {
        if pager.done() {
            break ;
        }
        if rest.len() == 0 {
            drained = true;
            break ;
        }
        let ghost k = pager.pages_fetched as int;
        let page = rest.remove(0);
        proof {
            assert(page == pages0[k]);
            assert(rest@ =~= pages0.subrange(k + 1, pages0.len() as int));
        }
        pager.record_page(page.items.len(), page.reported_total);
        let mut page_items = page.items;
        items.append(&mut page_items);
        proof {
            assert(pages0.take(k + 1) =~= pages0.take(k).push(pages0[k]));
            assert(page_item_seqs(pages0.take(k + 1)) =~= page_item_seqs(pages0.take(k)).push(
                pages0[k].items@,
            ));
            page_item_seqs(pages0.take(k)).lemma_flatten_push(pages0[k].items@);
        }
    }
    PaginationRun {
        items,
        pages_requested: pager.pages_fetched,
        source_drained: drained,
    }
}

/// Query parameters of one authenticated request: the API key first,
/// under `serviceKey`, then the caller's parameters in order.
pub fn with_service_key(api_key: &str, params: &Vec<(String, String)>) -> (r: Vec<
    (String, String),
>)
    ensures
        r@.len() == params@.len() + 1,
        r@[0].0@ == "serviceKey"@,
        r@[0].1@ == api_key@,
        forall|i: int|
            0 <= i < params@.len() ==> #[trigger] r@[i + 1].0@ == params@[i].0@ && r@[i + 1].1@
                == params@[i].1@,
{
    let mut out: Vec<(String, String)> = Vec::new();
    out.push((String::from_str("serviceKey"), String::from_str(api_key)));
    let mut i: usize = 0;
    while i < params.len()
        invariant
            i <= params@.len(),
            out@.len() == i + 1,
            out@[0].0@ == "serviceKey"@,
            out@[0].1@ == api_key@,
            forall|j: int|
                0 <= j < i ==> #[trigger] out@[j + 1].0@ == params@[j].0@ && out@[j + 1].1@
                    == params@[j].1@,
        decreases params@.len() - i,
    {
        let p = &params[i];
        out.push((p.0.clone(), p.1.clone()));
        i = i + 1;
    }
    out
}

/// Query parameters of one page request: the caller's parameters in
/// order, then the page number, the page size and the JSON type hint
/// under the names the sources expect.
pub fn page_query_params(base: &Vec<(String, String)>, page_no: u32, num_of_rows: u32) -> (r: Vec<
    (String, String),
>)
    ensures
        r@.len() == base@.len() + 3,
        forall|i: int|
            0 <= i < base@.len() ==> #[trigger] r@[i].0@ == base@[i].0@ && r@[i].1@
                == base@[i].1@,
        r@[base@.len() as int].0@ == "pageNo"@,
        r@[base@.len() as int].1@ == crate::numeric::spec_decimal(page_no as int),
        r@[base@.len() as int + 1].0@ == "numOfRows"@,
        r@[base@.len() as int + 1].1@ == crate::numeric::spec_decimal(num_of_rows as int),
        r@[base@.len() as int + 2].0@ == "type"@,
        r@[base@.len() as int + 2].1@ == "json"@,
{
    let mut out: Vec<(String, String)> = Vec::new();
    let mut i: usize = 0;
    while i < base.len()
        invariant
            i <= base@.len(),
            out@.len() == i,
            forall|j: int|
                0 <= j < i ==> #[trigger] out@[j].0@ == base@[j].0@ && out@[j].1@ == base@[j].1@,
        decreases base@.len() - i,
    {
        let p = &base[i];
        out.push((p.0.clone(), p.1.clone()));
        i = i + 1;
    }
    out.push((String::from_str("pageNo"), crate::numeric::u32_to_string(page_no)));
    out.push((String::from_str("numOfRows"), crate::numeric::u32_to_string(num_of_rows)));
    out.push((String::from_str("type"), String::from_str("json")));
    out
}

} // verus!
