use autorace_results::fetch_result_urls_of_year;
use autorace_results::BootstrapReply;
use autorace_results::Cookie;
use autorace_results::Error;

fn bootstrap_body(token: &str) -> String {
    format!(
        "<html><body><form><input type=\"hidden\" id=\"search_race__token\" value=\"{}\"/></form></body></html>",
        token
    )
}

fn month_body(hrefs: &[String]) -> String {
    let mut rows = String::from("<tr><th>date</th><th>race</th></tr>");
    for h in hrefs {
        rows.push_str(&format!(
            "<tr><td><a href=\"{}\">result</a></td><td>x</td></tr>",
            h
        ));
    }
    format!(
        "<html><body><table id=\"tblRace\">{}</table></body></html>",
        rows
    )
}

fn good_bootstrap() -> Option<BootstrapReply> {
    Some(BootstrapReply {
        cookies: vec![
            Cookie {
                name: "lang".to_string(),
                value: "ja".to_string(),
            },
            Cookie {
                name: "PHPSESSID".to_string(),
                value: "abc123".to_string(),
            },
        ],
        body: bootstrap_body("token-xyz"),
    })
}

fn hrefs_of_month_2018(month: usize, count: usize) -> Vec<String> {
    (0..count)
        .map(|i| format!("/netstadium/RaceResult?k=2018-{:02}-{:02}", month, i))
        .collect()
}

/// Twelve monthly replies for 2018: months 1..=11 with 40 links each,
/// month 12 with 23 fresh links plus 2 repeats of January's, so the
/// deduplicated year holds exactly 463 distinct links out of 465 rows.
fn months_2018() -> Vec<Option<String>> {
    let mut months = Vec::new();
    for m in 1..=11 {
        months.push(Some(month_body(&hrefs_of_month_2018(m, 40))));
    }
    let mut december = hrefs_of_month_2018(12, 23);
    december.push("/netstadium/RaceResult?k=2018-01-00".to_string());
    december.push("/netstadium/RaceResult?k=2018-01-01".to_string());
    months.push(Some(month_body(&december)));
    months
}

#[test]
fn test_fetch_result_urls_of_year() {
    let url_set = fetch_result_urls_of_year(&good_bootstrap(), &months_2018());
    assert_eq!(url_set.unwrap().len(), 463);
}

#[test]
fn year_output_is_sorted_and_duplicate_free() {
    let urls = fetch_result_urls_of_year(&good_bootstrap(), &months_2018()).unwrap();
    for w in urls.windows(2) {
        assert!(w[0] < w[1]);
    }
    // strictly less than the 465 extracted rows: the overlaps collapsed
    assert!(urls.len() < 465);
}

#[test]
fn identical_replies_give_identical_ordered_sets() {
    let a = fetch_result_urls_of_year(&good_bootstrap(), &months_2018()).unwrap();
    let b = fetch_result_urls_of_year(&good_bootstrap(), &months_2018()).unwrap();
    assert_eq!(a, b);
}

#[test]
fn missing_session_cookie_fails_with_cookie_error() {
    let bootstrap = Some(BootstrapReply {
        cookies: vec![Cookie {
            name: "lang".to_string(),
            value: "ja".to_string(),
        }],
        body: bootstrap_body("token-xyz"),
    });
    // whatever the monthly replies hold, the bootstrap decides
    assert_eq!(
        fetch_result_urls_of_year(&bootstrap, &months_2018()),
        Err(Error::CookieError)
    );
    assert_eq!(
        fetch_result_urls_of_year(&bootstrap, &Vec::new()),
        Err(Error::CookieError)
    );
}

#[test]
fn missing_table_in_month_seven_fails_whole_year() {
    let mut months = months_2018();
    months[6] = Some("<html><body><p>no results table here</p></body></html>".to_string());
    assert_eq!(
        fetch_result_urls_of_year(&good_bootstrap(), &months),
        Err(Error::HtmlParseError)
    );
}

#[test]
fn bootstrap_transport_failure_fails_with_http_io_error() {
    assert_eq!(
        fetch_result_urls_of_year(&None, &months_2018()),
        Err(Error::HttpIOError)
    );
}

#[test]
fn monthly_transport_failure_fails_with_http_io_error() {
    let mut months = months_2018();
    months[3] = None;
    assert_eq!(
        fetch_result_urls_of_year(&good_bootstrap(), &months),
        Err(Error::HttpIOError)
    );
}

#[test]
fn short_reply_list_counts_as_transport_failure() {
    let mut months = months_2018();
    months.truncate(9);
    assert_eq!(
        fetch_result_urls_of_year(&good_bootstrap(), &months),
        Err(Error::HttpIOError)
    );
}

#[test]
fn missing_token_input_fails_with_html_parse_error() {
    let bootstrap = Some(BootstrapReply {
        cookies: vec![Cookie {
            name: "PHPSESSID".to_string(),
            value: "abc123".to_string(),
        }],
        body: "<html><body><form></form></body></html>".to_string(),
    });
    assert_eq!(
        fetch_result_urls_of_year(&bootstrap, &months_2018()),
        Err(Error::HtmlParseError)
    );
}

#[test]
fn row_without_link_fails_whole_month() {
    let mut months = months_2018();
    months[1] = Some(
        "<html><body><table id=\"tblRace\">\
         <tr><th>date</th></tr>\
         <tr><td><a href=\"/ok\">r</a></td></tr>\
         <tr><td>no anchor here</td></tr>\
         </table></body></html>"
            .to_string(),
    );
    assert_eq!(
        fetch_result_urls_of_year(&good_bootstrap(), &months),
        Err(Error::HtmlParseError)
    );
}

#[test]
fn header_only_months_give_empty_year() {
    let empty = month_body(&[]);
    let months: Vec<Option<String>> = (0..12).map(|_| Some(empty.clone())).collect();
    let urls = fetch_result_urls_of_year(&good_bootstrap(), &months).unwrap();
    assert!(urls.is_empty());
}
