//! The year-level crawl: one session bootstrap, twelve monthly queries,
//! fail-fast error propagation, and aggregation of every month's links
//! into one sorted, duplicate-free set.
use crate::error::Error;
use crate::html::month_hrefs;
use crate::html::month_hrefs_of;
use crate::order::lemma_dedup_shrinks;
use crate::order::lemma_sorted_set_unique;
use crate::order::sort_dedup;
use crate::order::strictly_sorted;
use crate::session::boot_view;
use crate::session::session_of_reply;
use crate::session::session_result;
use crate::session::BootstrapReply;
use crate::session::BootstrapView;
use vstd::prelude::*;

verus! {

/// How many monthly queries one crawl makes: one per calendar month.
pub const MONTHS_OF_YEAR: usize = 12;

/// The outcome of the query for month `i + 1` (zero-based `i`), given the
/// transport outcomes `months` of the queries that were issued: a monthly
/// reply that never arrived is a transport failure.
pub open spec fn month_outcome(months: Seq<Option<Seq<char>>>, i: int) -> Result<
    Seq<Seq<char>>,
    Error,
> {
    if 0 <= i < months.len() {
        month_hrefs_of(months[i])
    } else {
        Err(Error::HttpIOError)
    }
}

/// The combined outcome of the first `upto` monthly queries: the earliest
/// failing month's error, or every month's links concatenated in month
/// order, duplicates still present.
pub open spec fn months_result(months: Seq<Option<Seq<char>>>, upto: int) -> Result<
    Seq<Seq<char>>,
    Error,
>
    decreases upto,
{
    if upto <= 0 {
        Ok(Seq::empty())
    } else {
        match months_result(months, upto - 1) {
            Err(e) => Err(e),
            Ok(acc) => match month_outcome(months, upto - 1) {
                Err(e) => Err(e),
                Ok(hs) => Ok(acc + hs),
            },
        }
    }
}

/// What a whole year's crawl yields, before the final ordering: the
/// session error when the bootstrap gave no session (the monthly replies
/// never enter into it), the earliest failing month's error otherwise,
/// else the twelve months' links in month order.
pub open spec fn year_result(
    bootstrap: Option<BootstrapView>,
    months: Seq<Option<Seq<char>>>,
) -> Result<Seq<Seq<char>>, Error> {
    match session_result(bootstrap) {
        Err(e) => Err(e),
        Ok(_) => months_result(months, MONTHS_OF_YEAR as int),
    }
}

proof fn lemma_months_result_err_stays(months: Seq<Option<Seq<char>>>, k: int, j: int)
    requires
        months_result(months, k) is Err,
        k <= j,
    ensures
        months_result(months, j) == months_result(months, k),
    decreases j - k,
{
    if j > k {
        lemma_months_result_err_stays(months, k, j - 1);
    }
}

/// Collects the result-page links of a year, given the transport outcomes
/// of the crawl's requests: the bootstrap reply, and one entry per monthly
/// query in month order (`None` where transport failed; a missing entry
/// counts as a transport failure too). Fail-fast: the session error or the
/// earliest month's error decides the whole year, and no partial set comes
/// back. On success the links of all twelve months are returned sorted
/// lexicographically, each distinct value exactly once.
pub fn fetch_result_urls_of_year(
    bootstrap: &Option<BootstrapReply>,
    months: &Vec<Option<String>>,
) -> (r: Result<Vec<String>, Error>)
    ensures
        (match r {
            Err(e) => year_result(boot_view(*bootstrap), months.deep_view()) == Err::<
                Seq<Seq<char>>,
                Error,
            >(e),
            Ok(v) => {
                &&& year_result(boot_view(*bootstrap), months.deep_view()) is Ok
                &&& strictly_sorted(v.deep_view())
                &&& v.deep_view().to_set() == year_result(
                    boot_view(*bootstrap),
                    months.deep_view(),
                )->Ok_0.to_set()
            },
        }),
{
    match session_of_reply(bootstrap) {
        Err(e) => {
            return Err(e);
        },
        Ok(_) => {},
    }
    let ghost mv = months.deep_view();
    let mut all: Vec<String> = Vec::new();
    let mut m: usize = 0;
    proof {
        assert(all.deep_view() =~= Seq::<Seq<char>>::empty());
    }
    while m < MONTHS_OF_YEAR
        invariant
            m <= MONTHS_OF_YEAR,
            mv == months.deep_view(),
            mv.len() == months.len(),
            session_result(boot_view(*bootstrap)) is Ok,
            months_result(mv, m as int) == Ok::<Seq<Seq<char>>, Error>(all.deep_view()),
        decreases MONTHS_OF_YEAR - m,
    {
        let none_body: Option<String> = None;
        let body: &Option<String> = if m < months.len() {
            &months[m]
        } else {
            &none_body
        };
        proof {
            assert(month_hrefs_of(body.deep_view()) == month_outcome(mv, m as int));
        }
        let mut hs: Vec<String> = match month_hrefs(body) {
            Err(e) => {
                proof {
                    lemma_months_result_err_stays(mv, m + 1, MONTHS_OF_YEAR as int);
                }
                return Err(e);
            },
            Ok(h) => h,
        };
        let ghost all0 = all.deep_view();
        let ghost hsv = hs.deep_view();
        all.append(&mut hs);
        proof {
            assert(all.deep_view() =~= all0 + hsv);
        }
        m = m + 1;
    }
    let r = sort_dedup(all);
    Ok(r)
}

/// A failed bootstrap decides the year on its own: when no session comes
/// out of it, the crawl's outcome is that error, whatever the monthly
/// replies would have said — no monthly query is needed to know it.
pub proof fn lemma_bootstrap_failure_is_final(
    bootstrap: Option<BootstrapView>,
    months1: Seq<Option<Seq<char>>>,
    months2: Seq<Option<Seq<char>>>,
)
    requires
        session_result(bootstrap) is Err,
    ensures
        year_result(bootstrap, months1) == year_result(bootstrap, months2),
{
}

/// Determinism: for one and the same set of replies, any two outputs that
/// meet the crawl's contract — strictly sorted, over exactly the crawled
/// links — are the same sequence of strings.
pub proof fn lemma_year_output_deterministic(
    bootstrap: Option<BootstrapView>,
    months: Seq<Option<Seq<char>>>,
    v1: Seq<Seq<char>>,
    v2: Seq<Seq<char>>,
)
    requires
        year_result(bootstrap, months) is Ok,
        strictly_sorted(v1),
        strictly_sorted(v2),
        v1.to_set() == year_result(bootstrap, months)->Ok_0.to_set(),
        v2.to_set() == year_result(bootstrap, months)->Ok_0.to_set(),
    ensures
        v1 == v2,
{
    lemma_sorted_set_unique(v1, v2);
}

/// Deduplication at the year level: a successful crawl's output holds no
/// value twice, is never longer than the twelve monthly results combined,
/// and is strictly shorter as soon as any link occurs twice among them —
/// within one month or across months.
pub proof fn lemma_year_output_dedups(
    bootstrap: Option<BootstrapView>,
    months: Seq<Option<Seq<char>>>,
    v: Seq<Seq<char>>,
)
    requires
        year_result(bootstrap, months) is Ok,
        strictly_sorted(v),
        v.to_set() == year_result(bootstrap, months)->Ok_0.to_set(),
    ensures
        v.no_duplicates(),
        v.len() <= year_result(bootstrap, months)->Ok_0.len(),
        (exists|i: int, j: int|
            0 <= i < j < year_result(bootstrap, months)->Ok_0.len() && year_result(
                bootstrap,
                months,
            )->Ok_0[i] == year_result(bootstrap, months)->Ok_0[j]) ==> v.len() < year_result(
            bootstrap,
            months,
        )->Ok_0.len(),
{
    lemma_dedup_shrinks(year_result(bootstrap, months)->Ok_0, v);
}

} // verus!
