//! The failure kinds of a crawl. Every failure is fatal to the whole
//! year-level operation: there is no retry and no partial result.
use vstd::prelude::*;

verus! {

/// Why a crawl failed.
#[derive(Clone, Copy, Debug, PartialEq, Eq, Structural)]
pub enum Error {
    /// An expected HTML element or attribute (token input, result table,
    /// row cell, anchor, href) was missing from a response body.
    HtmlParseError,
    /// A transport-level failure: the request got no usable response.
    HttpIOError,
    /// The bootstrap response carried no session cookie.
    CookieError,
}

impl Error {
    /// A short name for the failure kind, for callers that print it.
    pub fn describe(&self) -> (r: &'static str)
        ensures
            *self == Error::HtmlParseError ==> r@ == "HtmlParseError"@,
            *self == Error::HttpIOError ==> r@ == "HttpIOError"@,
            *self == Error::CookieError ==> r@ == "CookieError"@,
    {
        match self {
            Error::HtmlParseError => "HtmlParseError",
            Error::HttpIOError => "HttpIOError",
            Error::CookieError => "CookieError",
        }
    }
}

} // verus!
