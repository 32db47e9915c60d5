//! Session bootstrap: reading the session cookie and the form token out of
//! the bootstrap response.
use crate::error::Error;
use crate::html::token_value;
use crate::html::token_value_of;
use vstd::prelude::*;

verus! {

/// One cookie of an HTTP response, as its name and its value.
pub struct Cookie {
    pub name: String,
    pub value: String,
}

impl View for Cookie {
    type V = (Seq<char>, Seq<char>);

    open spec fn view(&self) -> (Seq<char>, Seq<char>) {
        (self.name@, self.value@)
    }
}

/// What the bootstrap request brought back: the response cookies in the
/// order they arrived, and the response body.
pub struct BootstrapReply {
    pub cookies: Vec<Cookie>,
    pub body: String,
}

/// The mathematical content of a bootstrap reply.
pub ghost struct BootstrapView {
    pub cookies: Seq<(Seq<char>, Seq<char>)>,
    pub body: Seq<char>,
}

impl View for BootstrapReply {
    type V = BootstrapView;

    open spec fn view(&self) -> BootstrapView {
        BootstrapView {
            cookies: self.cookies@.map_values(|c: Cookie| c@),
            body: self.body@,
        }
    }
}

/// The content of a bootstrap transport outcome; `None` is a transport
/// failure that produced no reply at all.
pub open spec fn boot_view(reply: Option<BootstrapReply>) -> Option<BootstrapView> {
    match reply {
        None => None,
        Some(r) => Some(r@),
    }
}

/// A browsing session: the site's session cookie value and the per-session
/// form token, read once from the bootstrap response and immutable for the
/// rest of the crawl.
pub struct Session {
    pub session_id: String,
    pub token: String,
}

/// The value of the first cookie named `name`, if any.
pub open spec fn cookie_lookup(
    cookies: Seq<(Seq<char>, Seq<char>)>,
    name: Seq<char>,
) -> Option<Seq<char>>
    decreases cookies.len(),
{
    if cookies.len() == 0 {
        None
    } else if cookies[0].0 == name {
        Some(cookies[0].1)
    } else {
        cookie_lookup(cookies.drop_first(), name)
    }
}

/// What establishing a session from the bootstrap outcome yields: a
/// transport failure when there was no reply; a cookie failure when the
/// reply names no `PHPSESSID` cookie; a parse failure when its body holds
/// no form token; otherwise the pair of session id and token.
pub open spec fn session_result(reply: Option<BootstrapView>) -> Result<
    (Seq<char>, Seq<char>),
    Error,
> {
    match reply {
        None => Err(Error::HttpIOError),
        Some(r) => match cookie_lookup(r.cookies, "PHPSESSID"@) {
            None => Err(Error::CookieError),
            Some(sid) => match token_value_of(r.body) {
                None => Err(Error::HtmlParseError),
                Some(tok) => Ok((sid, tok)),
            },
        },
    }
}

/// The mathematical value of a session extraction result.
pub open spec fn session_result_view(r: Result<Session, Error>) -> Result<
    (Seq<char>, Seq<char>),
    Error,
> {
    match r {
        Ok(s) => Ok((s.session_id@, s.token@)),
        Err(e) => Err(e),
    }
}

proof fn lemma_cookie_lookup_step(cs: Seq<(Seq<char>, Seq<char>)>, name: Seq<char>, i: int)
    requires
        0 <= i < cs.len(),
        cs[i].0 != name,
    ensures
        cookie_lookup(cs.skip(i), name) == cookie_lookup(cs.skip(i + 1), name),
{
    assert(cs.skip(i).drop_first() =~= cs.skip(i + 1));
    assert(cs.skip(i)[0] == cs[i]);
}

fn find_session_cookie(cookies: &Vec<Cookie>) -> (r: Option<String>)
    ensures
        r.deep_view() == cookie_lookup(cookies@.map_values(|c: Cookie| c@), "PHPSESSID"@),
{
    let ghost cv = cookies@.map_values(|c: Cookie| c@);
    let key: String = "PHPSESSID".to_owned();
    let mut i: usize = 0;
    proof {
        assert(cv.skip(0) =~= cv);
    }
    while i < cookies.len()
        invariant
            i <= cookies.len(),
            cv == cookies@.map_values(|c: Cookie| c@),
            cv.len() == cookies.len(),
            key@ == "PHPSESSID"@,
            cookie_lookup(cv, "PHPSESSID"@) == cookie_lookup(cv.skip(i as int), "PHPSESSID"@),
        decreases cookies.len() - i,
    {
        proof {
            assert(cv[i as int] == cookies@[i as int]@);
        }
        if cookies[i].name == key {
            proof {
                assert(cv.skip(i as int)[0] == cv[i as int]);
            }
            return Some(cookies[i].value.clone());
        }
        proof {
            lemma_cookie_lookup_step(cv, "PHPSESSID"@, i as int);
        }
        i = i + 1;
    }
    proof {
        assert(cv.skip(i as int).len() == 0);
    }
    None
}

/// Establishes the session from the bootstrap outcome: the value of the
/// first `PHPSESSID` response cookie, and the search form's token from the
/// response body.
pub fn session_of_reply(reply: &Option<BootstrapReply>) -> (r: Result<Session, Error>)
    ensures
        session_result_view(r) == session_result(boot_view(*reply)),
{
    let rep: &BootstrapReply = match reply {
        None => {
            return Err(Error::HttpIOError);
        },
        Some(r) => r,
    };
    let sid: String = match find_session_cookie(&rep.cookies) {
        None => {
            return Err(Error::CookieError);
        },
        Some(v) => v,
    };
    let tok: String = match token_value(rep.body.as_str()) {
        None => {
            return Err(Error::HtmlParseError);
        },
        Some(t) => t,
    };
    Ok(Session { session_id: sid, token: tok })
}

} // verus!
