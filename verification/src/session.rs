//! The credential state a successful login yields: a header mapping that is
//! either empty or holds exactly the CSRF token entry and the cookie entry.

use vstd::prelude::*;

verus! {

pub open spec fn csrf_header_name() -> Seq<char> {
    "X-CSRF-Token"@
}

pub open spec fn set_cookie_header_name() -> Seq<char> {
    "Set-Cookie"@
}

pub open spec fn cookie_header_name() -> Seq<char> {
    "Cookie"@
}

/// The three header names are pairwise distinct.
pub proof fn lemma_header_names_distinct()
    ensures
        csrf_header_name() != cookie_header_name(),
        csrf_header_name() != set_cookie_header_name(),
        set_cookie_header_name() != cookie_header_name(),
{
    reveal_strlit("X-CSRF-Token");
    reveal_strlit("Set-Cookie");
    reveal_strlit("Cookie");
    assert(csrf_header_name().len() == 12);
    assert(set_cookie_header_name().len() == 10);
    assert(cookie_header_name().len() == 6);
}

/// A header the login response must carry, or the request header derived
/// from it.
#[derive(Debug, Clone, Copy, PartialEq, Eq, Structural)]
pub enum HeaderName {
    CsrfToken,
    SetCookie,
    Cookie,
}

pub open spec fn header_name_model(h: HeaderName) -> Seq<char> {
    match h {
        HeaderName::CsrfToken => csrf_header_name(),
        HeaderName::SetCookie => set_cookie_header_name(),
        HeaderName::Cookie => cookie_header_name(),
    }
}

/// The header's name on the wire.
pub fn header_name_str(h: HeaderName) -> (r: &'static str)
    ensures
        r@ == header_name_model(h),
{
    match h {
        HeaderName::CsrfToken => "X-CSRF-Token",
        HeaderName::SetCookie => "Set-Cookie",
        HeaderName::Cookie => "Cookie",
    }
}

/// The credential headers of one login. Unauthenticated it holds nothing;
/// after a successful login it holds exactly two entries, the CSRF token
/// header and the cookie header, never only one of them.
pub struct AuthSession {
    creds: Option<(String, String)>,
}

impl AuthSession {
    /// The headers as a mapping from header name to value.
    pub closed spec fn headers(self) -> Map<Seq<char>, Seq<char>> {
        match self.creds {
            None => Map::empty(),
            Some(c) => map![csrf_header_name() => c.0@, cookie_header_name() => c.1@],
        }
    }

    pub closed spec fn is_authenticated(self) -> bool {
        self.creds is Some
    }

    /// Either no entry at all, or exactly the two required entries: a partial
    /// session cannot be expressed.
    pub proof fn lemma_all_or_nothing(self)
        ensures
            !self.is_authenticated() ==> self.headers().dom() =~= Set::<Seq<char>>::empty(),
            self.is_authenticated() ==> self.headers().dom() =~= set![
                csrf_header_name(),
                cookie_header_name(),
            ],
    {
    }

    /// The unauthenticated session.
    pub fn empty() -> (r: AuthSession)
        ensures
            !r.is_authenticated(),
            r.headers() == Map::<Seq<char>, Seq<char>>::empty(),
    {
        AuthSession { creds: None }
    }

    /// The session a successful login yields: exactly the CSRF entry and the
    /// cookie entry.
    pub fn authenticated(csrf_token: String, cookie: String) -> (r: AuthSession)
        ensures
            r.is_authenticated(),
            r.headers() == map![
                csrf_header_name() => csrf_token@,
                cookie_header_name() => cookie@,
            ],
    {
        AuthSession { creds: Some((csrf_token, cookie)) }
    }

    pub fn is_empty(&self) -> (r: bool)
        ensures
            r == !self.is_authenticated(),
    {
        self.creds.is_none()
    }

    /// The headers to attach to an authenticated request: the CSRF pair then
    /// the cookie pair, or nothing while unauthenticated.
    pub fn header_pairs(&self) -> (r: Vec<(String, String)>)
        ensures
            !self.is_authenticated() ==> r@.len() == 0,
            self.is_authenticated() ==> {
                &&& r@.len() == 2
                &&& r@[0].0@ == csrf_header_name()
                &&& r@[0].1@ == self.headers()[csrf_header_name()]
                &&& r@[1].0@ == cookie_header_name()
                &&& r@[1].1@ == self.headers()[cookie_header_name()]
            },
    {
        match &self.creds {
            None => Vec::new(),
            Some(c) => {
                proof {
                    lemma_header_names_distinct();
                }
                let mut v: Vec<(String, String)> = Vec::new();
                v.push(("X-CSRF-Token".to_owned(), c.0.clone()));
                v.push(("Cookie".to_owned(), c.1.clone()));
                v
            },
        }
    }
}

} // verus!
