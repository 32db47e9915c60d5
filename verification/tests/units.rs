use autorace_results::date_window;
use autorace_results::html::month_hrefs;
use autorace_results::order::sort_dedup;
use autorace_results::order::str_lt;
use autorace_results::query::month_query;
use autorace_results::session_of_reply;
use autorace_results::text::to_decimal;
use autorace_results::BootstrapReply;
use autorace_results::Cookie;
use autorace_results::Error;
use autorace_results::Session;

#[test]
fn date_window_of_ordinary_month() {
    let w = date_window(2018, 5);
    assert_eq!(w.year_from, 2018);
    assert_eq!(w.month_from, 5);
    assert_eq!(w.day_from, 1);
    assert_eq!(w.year_to, 2018);
    assert_eq!(w.month_to, 6);
    assert_eq!(w.day_to, 1);
}

#[test]
fn date_window_of_december_rolls_over() {
    let w = date_window(2018, 12);
    assert_eq!(w.year_from, 2018);
    assert_eq!(w.month_from, 12);
    assert_eq!(w.day_from, 1);
    assert_eq!(w.year_to, 2019);
    assert_eq!(w.month_to, 1);
    assert_eq!(w.day_to, 1);
}

#[test]
fn decimal_rendering() {
    assert_eq!(to_decimal(0), "0");
    assert_eq!(to_decimal(7), "7");
    assert_eq!(to_decimal(2018), "2018");
    assert_eq!(to_decimal(1000), "1000");
}

#[test]
fn month_query_carries_session_and_window() {
    let session = Session {
        session_id: "sid-42".to_string(),
        token: "tok-99".to_string(),
    };
    let q = month_query(2018, 12, &session);
    assert_eq!(q.url, "http://autorace.jp/netstadium/SearchRace/Result");
    assert_eq!(q.cookie, "PHPSESSID=sid-42");
    let expected: Vec<(String, String)> = vec![
        ("search_race[lg]".to_string(), "0".to_string()),
        ("search_race[date_from][year]".to_string(), "2018".to_string()),
        ("search_race[date_from][month]".to_string(), "12".to_string()),
        ("search_race[date_from][day]".to_string(), "1".to_string()),
        ("search_race[date_to][year]".to_string(), "2019".to_string()),
        ("search_race[date_to][month]".to_string(), "1".to_string()),
        ("search_race[date_to][day]".to_string(), "1".to_string()),
        ("search_race[paragraph]".to_string(), String::new()),
        ("search_race[_token]".to_string(), "tok-99".to_string()),
    ];
    assert_eq!(q.params, expected);
}

#[test]
fn session_reads_first_matching_cookie_and_token() {
    let reply = Some(BootstrapReply {
        cookies: vec![
            Cookie {
                name: "other".to_string(),
                value: "x".to_string(),
            },
            Cookie {
                name: "PHPSESSID".to_string(),
                value: "first".to_string(),
            },
            Cookie {
                name: "PHPSESSID".to_string(),
                value: "second".to_string(),
            },
        ],
        body: "<html><body><input id=\"search_race__token\" value=\"tkn\"/></body></html>"
            .to_string(),
    });
    let s = session_of_reply(&reply).unwrap();
    assert_eq!(s.session_id, "first");
    assert_eq!(s.token, "tkn");
}

#[test]
fn session_of_no_reply_is_transport_failure() {
    assert!(matches!(session_of_reply(&None), Err(Error::HttpIOError)));
}

#[test]
fn token_input_without_value_attribute_is_parse_failure() {
    let reply = Some(BootstrapReply {
        cookies: vec![Cookie {
            name: "PHPSESSID".to_string(),
            value: "sid".to_string(),
        }],
        body: "<html><body><input id=\"search_race__token\"/></body></html>".to_string(),
    });
    assert!(matches!(session_of_reply(&reply), Err(Error::HtmlParseError)));
}

#[test]
fn month_extraction_keeps_row_order_and_skips_header() {
    let body = Some(
        "<html><body><table id=\"tblRace\">\
         <tr><th>header</th></tr>\
         <tr><td><a href=\"/b\">x</a></td></tr>\
         <tr><td><a href=\"/a\">y</a><a href=\"/ignored\">z</a></td></tr>\
         </table></body></html>"
            .to_string(),
    );
    let hrefs = month_hrefs(&body).unwrap();
    assert_eq!(hrefs, vec!["/b".to_string(), "/a".to_string()]);
}

#[test]
fn month_extraction_of_rowless_table_is_empty() {
    let body = Some("<html><body><table id=\"tblRace\"></table></body></html>".to_string());
    assert_eq!(month_hrefs(&body), Ok(Vec::new()));
}

#[test]
fn month_extraction_of_missing_body_is_transport_failure() {
    assert_eq!(month_hrefs(&None), Err(Error::HttpIOError));
}

#[test]
fn sort_dedup_orders_and_collapses() {
    let input = vec![
        "pear".to_string(),
        "apple".to_string(),
        "pear".to_string(),
        "fig".to_string(),
        "apple".to_string(),
    ];
    let out = sort_dedup(input);
    assert_eq!(
        out,
        vec!["apple".to_string(), "fig".to_string(), "pear".to_string()]
    );
}

#[test]
fn error_kinds_describe_themselves() {
    assert_eq!(Error::HtmlParseError.describe(), "HtmlParseError");
    assert_eq!(Error::HttpIOError.describe(), "HttpIOError");
    assert_eq!(Error::CookieError.describe(), "CookieError");
}

#[test]
fn lexicographic_comparison() {
    assert!(str_lt("abc", "abd"));
    assert!(str_lt("ab", "abc"));
    assert!(!str_lt("abc", "abc"));
    assert!(!str_lt("b", "a"));
    assert!(str_lt("", "a"));
}
