//! The fixed endpoints and the form a monthly query submits.
use crate::dates::date_window;
use crate::session::Session;
use crate::text::dec_of;
use crate::text::to_decimal;
use vstd::prelude::*;
use vstd::string::StringExecFns;

verus! {

/// The URL the bootstrap request gets.
pub fn bootstrap_url() -> (r: String)
    ensures
        r@ == "http://autorace.jp/netstadium/SearchRace"@,
{
    "http://autorace.jp/netstadium/SearchRace".to_owned()
}

/// The URL a monthly query posts to.
pub fn query_url() -> (r: String)
    ensures
        r@ == "http://autorace.jp/netstadium/SearchRace/Result"@,
{
    "http://autorace.jp/netstadium/SearchRace/Result".to_owned()
}

/// The exact form fields of the query for `(year, month)` carrying the
/// form token `token`: the month's date window rendered in decimal, an
/// always-empty `paragraph`, and the token, each under its fixed name.
pub open spec fn form_params_spec(
    p: Seq<(String, String)>,
    year: usize,
    month: usize,
    token: Seq<char>,
) -> bool {
    &&& p.len() == 9
    &&& p[0].0@ == "search_race[lg]"@ && p[0].1@ == "0"@
    &&& p[1].0@ == "search_race[date_from][year]"@ && p[1].1@ == dec_of(year as nat)
    &&& p[2].0@ == "search_race[date_from][month]"@ && p[2].1@ == dec_of(month as nat)
    &&& p[3].0@ == "search_race[date_from][day]"@ && p[3].1@ == dec_of(1)
    &&& p[4].0@ == "search_race[date_to][year]"@ && p[4].1@ == dec_of(
        if month == 12 {
            (year + 1) as nat
        } else {
            year as nat
        },
    )
    &&& p[5].0@ == "search_race[date_to][month]"@ && p[5].1@ == dec_of(
        if month == 12 {
            1 as nat
        } else {
            (month + 1) as nat
        },
    )
    &&& p[6].0@ == "search_race[date_to][day]"@ && p[6].1@ == dec_of(1)
    &&& p[7].0@ == "search_race[paragraph]"@ && p[7].1@ == Seq::<char>::empty()
    &&& p[8].0@ == "search_race[_token]"@ && p[8].1@ == token
}

/// Builds the form fields of the query for `(year, month)`.
pub fn month_form_params(year: usize, month: usize, token: &str) -> (r: Vec<(String, String)>)
    requires
        1 <= month <= 12,
        year + 1 <= usize::MAX,
    ensures
        form_params_spec(r@, year, month, token@),
{
    let w = date_window(year, month);
    let mut r: Vec<(String, String)> = Vec::new();
    r.push(("search_race[lg]".to_owned(), "0".to_owned()));
    r.push(("search_race[date_from][year]".to_owned(), to_decimal(w.year_from)));
    r.push(("search_race[date_from][month]".to_owned(), to_decimal(w.month_from)));
    r.push(("search_race[date_from][day]".to_owned(), to_decimal(w.day_from)));
    r.push(("search_race[date_to][year]".to_owned(), to_decimal(w.year_to)));
    r.push(("search_race[date_to][month]".to_owned(), to_decimal(w.month_to)));
    r.push(("search_race[date_to][day]".to_owned(), to_decimal(w.day_to)));
    r.push(("search_race[paragraph]".to_owned(), String::new()));
    r.push(("search_race[_token]".to_owned(), token.to_owned()));
    r
}

/// Everything one monthly query sends: the fixed URL, the session cookie
/// header, and the form fields for the month's date window.
pub struct MonthQuery {
    pub url: String,
    pub cookie: String,
    pub params: Vec<(String, String)>,
}

/// Builds the query for `(year, month)` under `session`: all twelve monthly
/// queries of one crawl carry the same session cookie and form token.
pub fn month_query(year: usize, month: usize, session: &Session) -> (q: MonthQuery)
    requires
        1 <= month <= 12,
        year + 1 <= usize::MAX,
    ensures
        q.url@ == "http://autorace.jp/netstadium/SearchRace/Result"@,
        q.cookie@ == "PHPSESSID="@ + session.session_id@,
        form_params_spec(q.params@, year, month, session.token@),
{
    MonthQuery {
        url: query_url(),
        cookie: "PHPSESSID=".to_owned().concat(session.session_id.as_str()),
        params: month_form_params(year, month, session.token.as_str()),
    }
}

} // verus!
