//! HTML extraction: the per-session form token from the bootstrap page,
//! and the result-page links from a monthly listing response.
use crate::error::Error;
use vstd::prelude::*;

verus! {

/// The `value` attribute of the first element matching the fixed selector
/// `input#search_race__token` in the document `html`; `None` when the
/// element or the attribute is missing.
pub uninterp spec fn token_value_of(html: Seq<char>) -> Option<Seq<char>>;

/// For the first element matching the fixed selector `table#tblRace` in
/// the document `html`: one entry per `tr` row of that table (header row
/// included, in document order), holding the `href` attribute of the first
/// `a` inside the row's first `td`, or `None` where the `td`, the `a` or
/// the `href` is missing. `None` when the document has no such table.
pub uninterp spec fn race_rows_of(html: Seq<char>) -> Option<Seq<Option<Seq<char>>>>;

/// Relies on scraper's `Selector::parse`, `Html::parse_document`,
/// `Html::select` and `ElementRef::attr`: what the fixed selector
/// `input#search_race__token` matches, and that element's `value`
/// attribute, are functions of the document text alone.
#[verifier::external_body]
pub(crate) fn token_value(html: &str) -> (r: Option<String>)
    ensures
        r.deep_view() == token_value_of(html@),
{
    let doc = scraper::Html::parse_document(html);
    let sel = scraper::Selector::parse("input#search_race__token").unwrap();
    doc.select(&sel).next().and_then(|e| e.attr("value")).map(|v| v.to_string())
}

/// Relies on scraper's `Selector::parse`, `Html::parse_document`,
/// `Html::select`, `ElementRef::select` and `ElementRef::attr`, over the
/// fixed selectors `table#tblRace`, `tr`, `td` and `a`: the matched
/// elements and their attributes are functions of the document text alone.
#[verifier::external_body]
fn race_rows(html: &str) -> (r: Option<Vec<Option<String>>>)
    ensures
        r.deep_view() == race_rows_of(html@),
{
    let doc = scraper::Html::parse_document(html);
    let table = doc.select(&scraper::Selector::parse("table#tblRace").unwrap()).next()?;
    let td = scraper::Selector::parse("td").unwrap();
    let a = scraper::Selector::parse("a").unwrap();
    let tr_sel = scraper::Selector::parse("tr").unwrap();
    let rows = table.select(&tr_sel);
    Some(
        rows.map(
            |tr| {
                tr.select(&td).next().and_then(|c| c.select(&a).next()).and_then(
                    |x| x.attr("href"),
                ).map(|h| h.to_string())
            },
        ).collect(),
    )
}

/// The links of a table's rows past the header: every row must carry one,
/// and one missing link spoils the whole extraction.
pub open spec fn rows_hrefs(rows: Seq<Option<Seq<char>>>) -> Result<Seq<Seq<char>>, Error> {
    if forall|j: int| 0 <= j < rows.len() ==> rows[j] is Some {
        Ok(Seq::new(rows.len(), |j: int| rows[j]->Some_0))
    } else {
        Err(Error::HtmlParseError)
    }
}

/// The data rows of a listing: every row but the first, which is the
/// header row of the result table.
pub open spec fn data_rows(rows: Seq<Option<Seq<char>>>) -> Seq<Option<Seq<char>>> {
    if rows.len() == 0 {
        rows
    } else {
        rows.drop_first()
    }
}

/// What extracting one month's result links yields. No response body
/// (`None`) is a transport failure; a body without the result table, or
/// with a data row lacking its link, is a parse failure; otherwise the
/// result is the links of all data rows, in row order.
pub open spec fn month_hrefs_of(body: Option<Seq<char>>) -> Result<Seq<Seq<char>>, Error> {
    match body {
        None => Err(Error::HttpIOError),
        Some(html) => match race_rows_of(html) {
            None => Err(Error::HtmlParseError),
            Some(rows) => rows_hrefs(data_rows(rows)),
        },
    }
}

/// The mathematical value of an extraction result.
pub open spec fn hrefs_result_view(r: Result<Vec<String>, Error>) -> Result<
    Seq<Seq<char>>,
    Error,
> {
    match r {
        Ok(v) => Ok(v.deep_view()),
        Err(e) => Err(e),
    }
}

/// Extracts one month's result links from the body of that month's query
/// response (`None` when the query already failed in transport).
pub fn month_hrefs(body: &Option<String>) -> (r: Result<Vec<String>, Error>)
    ensures
        hrefs_result_view(r) == month_hrefs_of(body.deep_view()),
{
    let html: &String = match body {
        None => {
            return Err(Error::HttpIOError);
        },
        Some(h) => h,
    };
    let rows: Vec<Option<String>> = match race_rows(html.as_str()) {
        None => {
            return Err(Error::HtmlParseError);
        },
        Some(rows) => rows,
    };
    let ghost rv = rows.deep_view();
    let ghost data = data_rows(rv);
    let mut out: Vec<String> = Vec::new();
    if rows.len() == 0 {
        proof {
            assert(out.deep_view() =~= Seq::<Seq<char>>::empty());
            assert(rows_hrefs(data) == Ok::<Seq<Seq<char>>, Error>(out.deep_view())) by {
                assert(Seq::new(data.len(), |j: int| data[j]->Some_0) =~= out.deep_view());
            }
        }
        return Ok(out);
    }
    let mut i: usize = 1;
    while i < rows.len()
        invariant
            1 <= i <= rows.len(),
            rv == rows.deep_view(),
            rv.len() == rows.len(),
            rv.len() >= 1,
            data == data_rows(rv),
            month_hrefs_of(body.deep_view()) == rows_hrefs(data),
            forall|j: int| 1 <= j < i ==> rv[j] is Some,
            out.deep_view() =~= Seq::new((i - 1) as nat, |j: int| rv[j + 1]->Some_0),
        decreases rows.len() - i,
    {
        let ghost out0 = out.deep_view();
        match &rows[i] {
            None => {
                proof {
                    assert(data.len() == rv.len() - 1);
                    assert(data[i - 1] == rv[i as int]);
                    assert(!(data[i - 1] is Some));
                    assert(rows_hrefs(data) == Err::<Seq<Seq<char>>, Error>(
                        Error::HtmlParseError,
                    )) by {
                        assert(!(forall|j: int| 0 <= j < data.len() ==> data[j] is Some)) by {
                            assert(0 <= i - 1 < data.len() && !(data[i - 1] is Some));
                        }
                    }
                }
                return Err(Error::HtmlParseError);
            },
            Some(h) => {
                out.push(h.clone());
                proof {
                    assert(out.deep_view() =~= out0.push(rv[i as int]->Some_0));
                    assert(out.deep_view() =~= Seq::new(
                        i as nat,
                        |j: int| rv[j + 1]->Some_0,
                    ));
                }
            },
        }
        i = i + 1;
    }
    proof {
        assert(forall|j: int| 0 <= j < data.len() ==> data[j] == rv[j + 1]);
        assert(rows_hrefs(data) == Ok::<Seq<Seq<char>>, Error>(out.deep_view())) by {
            assert(Seq::new(data.len(), |j: int| data[j]->Some_0) =~= out.deep_view());
        }
    }
    Ok(out)
}

} // verus!
