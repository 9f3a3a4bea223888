//! The client façade: a validated base URL plus the session headers, with the
//! endpoint URLs it composes and the errors its calls surface.

use vstd::prelude::*;
use crate::base_url::{
    BaseUrl, BaseUrlError, append_path, plain_segment, plain_segment_char, plain_segments,
    url_append, url_cannot_be_base, url_parse, url_path, valid_base,
};
use crate::session::AuthSession;

verus! {

/// Why client construction failed.
#[derive(Debug, Clone, PartialEq, Eq)]
pub enum NewProtectError {
    /// The base URL parses but cannot carry appended path segments; holds the
    /// serialized URL for diagnostics.
    ProtectUrlCannotBeBase(String),
    /// The base URL does not parse.
    ParseBaseUrl,
}

impl From<BaseUrlError> for NewProtectError {
    fn from(err: BaseUrlError) -> Self {
        match err {
            BaseUrlError::CannotBeBase(u) => NewProtectError::ProtectUrlCannotBeBase(u),
            BaseUrlError::ParseBaseUrl => NewProtectError::ParseBaseUrl,
        }
    }
}

impl vstd::std_specs::convert::FromSpecImpl<BaseUrlError> for NewProtectError {
    open spec fn obeys_from_spec() -> bool {
        true
    }

    open spec fn from_spec(err: BaseUrlError) -> Self {
        match err {
            BaseUrlError::CannotBeBase(u) => NewProtectError::ProtectUrlCannotBeBase(u),
            BaseUrlError::ParseBaseUrl => NewProtectError::ParseBaseUrl,
        }
    }
}

/// Errors of authenticated API calls that have no actionable variants of
/// their own.
#[derive(Debug, Clone, PartialEq, Eq)]
pub enum ProtectError {
    /// The request did not succeed: the URL attempted and the HTTP status.
    RequestFailed { url: String, status: u16 },
    /// A success status arrived, but the body is not the expected shape.
    UnexpectedResponseJson { url: String },
}

/// The statuses a response may carry for the call to count as succeeded.
pub open spec fn status_is_success(status: u16) -> bool {
    200 <= status < 300
}

/// The fixed path segments of the login endpoint.
pub open spec fn login_segments() -> Seq<Seq<char>> {
    seq!["api"@, "auth"@, "login"@]
}

/// The fixed path segments of the cameras endpoint.
pub open spec fn cameras_segments() -> Seq<Seq<char>> {
    seq!["proxy"@, "protect"@, "api"@, "cameras"@]
}

proof fn lemma_plain_api()
    ensures
        plain_segment("api"@),
{
    reveal_strlit("api");
    assert("api"@.len() == 3);
    assert forall|i: int| 0 <= i < "api"@.len() implies plain_segment_char(#[trigger] "api"@[i]) by {
        if i == 0 {
            assert("api"@[i] == 'a');
        } else if i == 1 {
            assert("api"@[i] == 'p');
        } else {
            assert("api"@[i] == 'i');
        }
    }
}

proof fn lemma_plain_auth()
    ensures
        plain_segment("auth"@),
{
    reveal_strlit("auth");
    assert("auth"@.len() == 4);
    assert forall|i: int| 0 <= i < "auth"@.len() implies plain_segment_char(
        #[trigger] "auth"@[i],
    ) by {
        if i == 0 {
            assert("auth"@[i] == 'a');
        } else if i == 1 {
            assert("auth"@[i] == 'u');
        } else if i == 2 {
            assert("auth"@[i] == 't');
        } else {
            assert("auth"@[i] == 'h');
        }
    }
}

proof fn lemma_plain_login()
    ensures
        plain_segment("login"@),
{
    reveal_strlit("login");
    assert("login"@.len() == 5);
    assert forall|i: int| 0 <= i < "login"@.len() implies plain_segment_char(
        #[trigger] "login"@[i],
    ) by {
        if i == 0 {
            assert("login"@[i] == 'l');
        } else if i == 1 {
            assert("login"@[i] == 'o');
        } else if i == 2 {
            assert("login"@[i] == 'g');
        } else if i == 3 {
            assert("login"@[i] == 'i');
        } else {
            assert("login"@[i] == 'n');
        }
    }
}

proof fn lemma_plain_proxy()
    ensures
        plain_segment("proxy"@),
{
    reveal_strlit("proxy");
    assert("proxy"@.len() == 5);
    assert forall|i: int| 0 <= i < "proxy"@.len() implies plain_segment_char(
        #[trigger] "proxy"@[i],
    ) by {
        if i == 0 {
            assert("proxy"@[i] == 'p');
        } else if i == 1 {
            assert("proxy"@[i] == 'r');
        } else if i == 2 {
            assert("proxy"@[i] == 'o');
        } else if i == 3 {
            assert("proxy"@[i] == 'x');
        } else {
            assert("proxy"@[i] == 'y');
        }
    }
}

proof fn lemma_plain_protect()
    ensures
        plain_segment("protect"@),
{
    reveal_strlit("protect");
    assert("protect"@.len() == 7);
    assert forall|i: int| 0 <= i < "protect"@.len() implies plain_segment_char(
        #[trigger] "protect"@[i],
    ) by {
        if i == 0 {
            assert("protect"@[i] == 'p');
        } else if i == 1 {
            assert("protect"@[i] == 'r');
        } else if i == 2 {
            assert("protect"@[i] == 'o');
        } else if i == 3 {
            assert("protect"@[i] == 't');
        } else if i == 4 {
            assert("protect"@[i] == 'e');
        } else if i == 5 {
            assert("protect"@[i] == 'c');
        } else {
            assert("protect"@[i] == 't');
        }
    }
}

proof fn lemma_plain_cameras()
    ensures
        plain_segment("cameras"@),
{
    reveal_strlit("cameras");
    assert("cameras"@.len() == 7);
    assert forall|i: int| 0 <= i < "cameras"@.len() implies plain_segment_char(
        #[trigger] "cameras"@[i],
    ) by {
        if i == 0 {
            assert("cameras"@[i] == 'c');
        } else if i == 1 {
            assert("cameras"@[i] == 'a');
        } else if i == 2 {
            assert("cameras"@[i] == 'm');
        } else if i == 3 {
            assert("cameras"@[i] == 'e');
        } else if i == 4 {
            assert("cameras"@[i] == 'r');
        } else if i == 5 {
            assert("cameras"@[i] == 'a');
        } else {
            assert("cameras"@[i] == 's');
        }
    }
}

/// Both endpoints' fixed segments are plain: the url crate appends them
/// verbatim.
pub proof fn lemma_fixed_segments_plain()
    ensures
        plain_segments(login_segments()),
        plain_segments(cameras_segments()),
{
    lemma_plain_api();
    lemma_plain_auth();
    lemma_plain_login();
    lemma_plain_proxy();
    lemma_plain_protect();
    lemma_plain_cameras();
    assert forall|i: int| 0 <= i < login_segments().len() implies plain_segment(
        #[trigger] login_segments()[i],
    ) by {
        if i == 0 {
            assert(login_segments()[i] == "api"@);
        } else if i == 1 {
            assert(login_segments()[i] == "auth"@);
        } else {
            assert(login_segments()[i] == "login"@);
        }
    }
    assert forall|i: int| 0 <= i < cameras_segments().len() implies plain_segment(
        #[trigger] cameras_segments()[i],
    ) by {
        if i == 0 {
            assert(cameras_segments()[i] == "proxy"@);
        } else if i == 1 {
            assert(cameras_segments()[i] == "protect"@);
        } else if i == 2 {
            assert(cameras_segments()[i] == "api"@);
        } else {
            assert(cameras_segments()[i] == "cameras"@);
        }
    }
}

fn login_segment_vec() -> (r: Vec<String>)
    ensures
        r.deep_view() == login_segments(),
{
    let mut v: Vec<String> = Vec::new();
    v.push("api".to_owned());
    v.push("auth".to_owned());
    v.push("login".to_owned());
    proof {
        assert(v.deep_view() =~= login_segments());
    }
    v
}

fn cameras_segment_vec() -> (r: Vec<String>)
    ensures
        r.deep_view() == cameras_segments(),
{
    let mut v: Vec<String> = Vec::new();
    v.push("proxy".to_owned());
    v.push("protect".to_owned());
    v.push("api".to_owned());
    v.push("cameras".to_owned());
    proof {
        assert(v.deep_view() =~= cameras_segments());
    }
    v
}

/// The API client: a validated base URL and the session headers attached to
/// every authenticated call.
pub struct ProtectApi {
    pub(crate) base_url: BaseUrl,
    pub(crate) auth_headers: AuthSession,
}

impl ProtectApi {
    /// The base URL's serialization.
    pub closed spec fn base(self) -> Seq<char> {
        self.base_url@
    }

    /// The credential headers of the current session.
    pub closed spec fn session_headers(self) -> Map<Seq<char>, Seq<char>> {
        self.auth_headers.headers()
    }

    pub closed spec fn authenticated(self) -> bool {
        self.auth_headers.is_authenticated()
    }

    /// How the model decomposes into the fields, for the sibling modules
    /// that implement the calls.
    pub(crate) proof fn lemma_parts(self)
        ensures
            self.base() == self.base_url@,
            self.session_headers() == self.auth_headers.headers(),
            self.authenticated() == self.auth_headers.is_authenticated(),
    {
    }

    /// Validate the base URL once; a client only exists around a URL that
    /// accepts path segments. The session starts empty.
    pub fn new(base: &str) -> (r: Result<ProtectApi, NewProtectError>)
        ensures
            match r {
                Ok(api) => {
                    &&& url_parse(base@) == Some(api.base())
                    &&& valid_base(api.base())
                    &&& !api.authenticated()
                    &&& api.session_headers() == Map::<Seq<char>, Seq<char>>::empty()
                },
                Err(NewProtectError::ParseBaseUrl) => url_parse(base@) is None,
                Err(NewProtectError::ProtectUrlCannotBeBase(u)) => url_parse(base@) == Some(u@)
                    && url_cannot_be_base(u@),
            },
    {
        match BaseUrl::new(base) {
            Ok(b) => Ok(ProtectApi { base_url: b, auth_headers: AuthSession::empty() }),
            Err(e) => Err(NewProtectError::from(e)),
        }
    }

    /// A read-only look at the session.
    pub fn session(&self) -> (r: &AuthSession)
        ensures
            r.headers() == self.session_headers(),
            r.is_authenticated() == self.authenticated(),
    {
        &self.auth_headers
    }

    /// The seam for logout: drop the credentials, keeping the base URL.
    pub fn clear_session(&mut self)
        ensures
            final (self).base() == old(self).base(),
            !final (self).authenticated(),
            final (self).session_headers() == Map::<Seq<char>, Seq<char>>::empty(),
    {
        self.auth_headers = AuthSession::empty();
    }

    /// The login endpoint: the base URL with `api/auth/login` appended, so
    /// its path is the base path extended with those segments.
    pub fn login_url(&self) -> (r: String)
        ensures
            r@ == url_append(self.base(), login_segments()),
            url_path(r@) == append_path(url_path(self.base()), login_segments()),
    {
        proof {
            lemma_fixed_segments_plain();
        }
        self.base_url.duplicate().and_path_segments(login_segment_vec()).into_string()
    }

    /// The cameras endpoint: the base URL with `proxy/protect/api/cameras`
    /// appended, so its path is the base path extended with those segments.
    pub fn cameras_url(&self) -> (r: String)
        ensures
            r@ == url_append(self.base(), cameras_segments()),
            url_path(r@) == append_path(url_path(self.base()), cameras_segments()),
    {
        proof {
            lemma_fixed_segments_plain();
        }
        self.base_url.duplicate().and_path_segments(cameras_segment_vec()).into_string()
    }
}

} // verus!
