//! The login handshake: the request body sent to the login endpoint, the
//! masked diagnostic line, and how the response replaces the session.

use vstd::prelude::*;
use vstd::string::StrSliceExecFns;
use crate::protect::{ProtectApi, login_segments, status_is_success};
use crate::session::{AuthSession, HeaderName, cookie_header_name, csrf_header_name};
use crate::base_url::url_append;
use crate::text::{chars_to_string, push_str_chars};

verus! {

/// Why a login failed.
#[derive(Debug, Clone, PartialEq, Eq)]
pub enum LoginError {
    /// The response carried a non-success status; holds that status.
    RequestFailed { status: u16 },
    /// A success status arrived without a required header; holds its name.
    MissingOrInvalidHeaderResponse { header: HeaderName },
}

/// The lower-case hexadecimal digit of a value below 16.
pub open spec fn hex_digit(n: u8) -> char {
    if n < 10 {
        ((0x30 + n) as u8) as char
    } else {
        ((0x57 + n) as u8) as char
    }
}

/// How one character stands inside a JSON string literal: quote and backslash
/// escaped, control characters by their short escape or as `\u00..`, every
/// other character as itself.
pub open spec fn json_escape_char(c: char) -> Seq<char> {
    if c == '"' {
        seq!['\\', '"']
    } else if c == '\\' {
        seq!['\\', '\\']
    } else if c == '\u{8}' {
        seq!['\\', 'b']
    } else if c == '\u{c}' {
        seq!['\\', 'f']
    } else if c == '\n' {
        seq!['\\', 'n']
    } else if c == '\r' {
        seq!['\\', 'r']
    } else if c == '\t' {
        seq!['\\', 't']
    } else if (c as u32) < 0x20 {
        seq!['\\', 'u', '0', '0', hex_digit(((c as u32) / 16) as u8), hex_digit(
            ((c as u32) % 16) as u8,
        )]
    } else {
        seq![c]
    }
}

/// A whole string inside a JSON string literal.
pub open spec fn json_escaped(s: Seq<char>) -> Seq<char>
    decreases s.len(),
{
    if s.len() == 0 {
        Seq::empty()
    } else {
        json_escape_char(s[0]) + json_escaped(s.skip(1))
    }
}

proof fn lemma_json_escaped_push(s: Seq<char>, c: char)
    ensures
        json_escaped(s.push(c)) == json_escaped(s) + json_escape_char(c),
    decreases s.len(),
{
    if s.len() == 0 {
        assert(s.push(c)[0] == c);
        assert(s.push(c).skip(1) =~= Seq::<char>::empty());
        assert(json_escape_char(c) + json_escaped(Seq::empty()) =~= json_escape_char(c));
        assert(json_escaped(s) + json_escape_char(c) =~= json_escape_char(c));
    } else {
        assert(s.push(c).skip(1) =~= s.skip(1).push(c));
        lemma_json_escaped_push(s.skip(1), c);
        assert(json_escape_char(s[0]) + (json_escaped(s.skip(1)) + json_escape_char(c)) =~= (
        json_escape_char(s[0]) + json_escaped(s.skip(1))) + json_escape_char(c));
    }
}

fn hex_digit_char(n: u8) -> (r: char)
    requires
        n < 16,
    ensures
        r == hex_digit(n),
{
    if n < 10 {
        (0x30 + n) as char
    } else {
        (0x57 + n) as char
    }
}

/// Append `s`, escaped for a JSON string literal, to `v`.
fn push_json_escaped(v: &mut Vec<char>, s: &str)
    ensures
        final(v)@ == old(v)@ + json_escaped(s@),
{
    let ghost orig = v@;
    let n = s.unicode_len();
    let mut i: usize = 0;
    proof {
        assert(s@.subrange(0, 0) =~= Seq::<char>::empty());
        assert(orig + json_escaped(s@.subrange(0, 0)) =~= orig);
    }
    while i < n
        invariant
            i <= n,
            n == s@.len(),
            v@ == orig + json_escaped(s@.subrange(0, i as int)),
        decreases n - i,
    {
        let c = s.get_char(i);
        if c == '"' {
            v.push('\\');
            v.push('"');
        } else if c == '\\' {
            v.push('\\');
            v.push('\\');
        } else if c == '\u{8}' {
            v.push('\\');
            v.push('b');
        } else if c == '\u{c}' {
            v.push('\\');
            v.push('f');
        } else if c == '\n' {
            v.push('\\');
            v.push('n');
        } else if c == '\r' {
            v.push('\\');
            v.push('r');
        } else if c == '\t' {
            v.push('\\');
            v.push('t');
        } else if (c as u32) < 0x20 {
            let code = c as u32;
            v.push('\\');
            v.push('u');
            v.push('0');
            v.push('0');
            v.push(hex_digit_char((code / 16) as u8));
            v.push(hex_digit_char((code % 16) as u8));
        } else {
            v.push(c);
        }
        proof {
            let pre = s@.subrange(0, i as int);
            assert(s@.subrange(0, (i + 1) as int) =~= pre.push(s@[i as int]));
            lemma_json_escaped_push(pre, s@[i as int]);
            assert(v@ =~= orig + (json_escaped(pre) + json_escape_char(s@[i as int])));
        }
        i = i + 1;
    }
    proof {
        assert(s@.subrange(0, n as int) =~= s@);
    }
}

/// The JSON body the login endpoint is sent: field names exactly as on the
/// wire, `rememberMe` always true, `token` always empty.
pub open spec fn login_body_model(user: Seq<char>, pass: Seq<char>) -> Seq<char> {
    "{\"username\":\""@ + json_escaped(user) + "\",\"password\":\""@ + json_escaped(pass)
        + "\",\"rememberMe\":true,\"token\":\"\"}"@
}

/// Build the login request body for these credentials.
pub fn login_request_body(user: &str, pass: &str) -> (r: String)
    ensures
        r@ == login_body_model(user@, pass@),
{
    let mut v: Vec<char> = Vec::new();
    push_str_chars(&mut v, "{\"username\":\"");
    push_json_escaped(&mut v, user);
    push_str_chars(&mut v, "\",\"password\":\"");
    push_json_escaped(&mut v, pass);
    push_str_chars(&mut v, "\",\"rememberMe\":true,\"token\":\"\"}");
    proof {
        assert(v@ =~= login_body_model(user@, pass@));
    }
    chars_to_string(&v)
}

/// `n` asterisks.
pub open spec fn masked(n: nat) -> Seq<char>
    decreases n,
{
    if n == 0 {
        Seq::empty()
    } else {
        seq!['*'] + masked((n - 1) as nat)
    }
}

pub proof fn lemma_masked_stars(n: nat)
    ensures
        masked(n).len() == n,
        forall|i: int| 0 <= i < n ==> masked(n)[i] == '*',
    decreases n,
{
    if n > 0 {
        lemma_masked_stars((n - 1) as nat);
    }
}

proof fn lemma_masked_push(n: nat)
    ensures
        masked(n).push('*') == masked(n + 1),
{
    lemma_masked_stars(n);
    lemma_masked_stars(n + 1);
    assert(masked(n).push('*') =~= masked(n + 1));
}

/// The one diagnostic line of a login attempt: the URL called, the user, and
/// the password replaced by one `*` per character.
pub open spec fn login_diagnostic_model(url: Seq<char>, user: Seq<char>, pass: Seq<char>) -> Seq<
    char,
> {
    "calling login api url="@ + url + " user="@ + user + " pass="@ + masked(pass.len())
}

/// The diagnostic never carries the password: it depends on the password's
/// length alone, and the masked part is all asterisks.
pub proof fn lemma_login_diagnostic_masks_password(
    url: Seq<char>,
    user: Seq<char>,
    pass_a: Seq<char>,
    pass_b: Seq<char>,
)
    requires
        pass_a.len() == pass_b.len(),
    ensures
        login_diagnostic_model(url, user, pass_a) == login_diagnostic_model(url, user, pass_b),
        forall|i: int| 0 <= i < masked(pass_a.len()).len() ==> masked(pass_a.len())[i] == '*',
{
    lemma_masked_stars(pass_a.len());
}

fn push_masked(v: &mut Vec<char>, n: usize)
    ensures
        final(v)@ == old(v)@ + masked(n as nat),
{
    let ghost orig = v@;
    let mut i: usize = 0;
    proof {
        assert(orig + masked(0) =~= orig);
    }
    while i < n
        invariant
            i <= n,
            v@ == orig + masked(i as nat),
        decreases n - i,
    {
        v.push('*');
        proof {
            lemma_masked_push(i as nat);
            assert(v@ =~= orig + masked((i + 1) as nat));
        }
        i = i + 1;
    }
}

impl ProtectApi {
    /// The line to log when calling the login endpoint, password masked.
    pub fn login_diagnostic(&self, user: &str, pass: &str) -> (r: String)
        ensures
            r@ == login_diagnostic_model(
                url_append(self.base(), login_segments()),
                user@,
                pass@,
            ),
    {
        let url = self.login_url();
        let mut v: Vec<char> = Vec::new();
        push_str_chars(&mut v, "calling login api url=");
        push_str_chars(&mut v, url.as_str());
        push_str_chars(&mut v, " user=");
        push_str_chars(&mut v, user);
        push_str_chars(&mut v, " pass=");
        push_masked(&mut v, pass.unicode_len());
        proof {
            assert(v@ =~= login_diagnostic_model(
                url_append(self.base(), login_segments()),
                user@,
                pass@,
            ));
        }
        chars_to_string(&v)
    }

    /// Apply the outcome of the login round trip. A non-success status fails
    /// with that status; a success without the CSRF header, or without the
    /// cookie header, fails naming the missing header. Only on full success
    /// is the session replaced, wholesale, with exactly the two entries from
    /// the response; on every failure the client is left unchanged.
    ///
    /// The raw `Set-Cookie` value is kept verbatim, to be sent back as the
    /// next request's `Cookie` header: a deliberate simplification, not
    /// cookie-jar semantics, which misbehaves if the service ever sends
    /// several cookies or attributes unfit for direct reuse.
    pub fn login(
        &mut self,
        status: u16,
        csrf_token: Option<String>,
        set_cookie: Option<String>,
    ) -> (r: Result<(), LoginError>)
        ensures
            final (self).base() == old(self).base(),
            match r {
                Ok(()) => {
                    &&& status_is_success(status)
                    &&& csrf_token is Some
                    &&& set_cookie is Some
                    &&& final (self).authenticated()
                    &&& final (self).session_headers() == map![
                        csrf_header_name() => csrf_token->Some_0@,
                        cookie_header_name() => set_cookie->Some_0@,
                    ]
                },
                Err(LoginError::RequestFailed { status: st }) => {
                    &&& st == status
                    &&& !status_is_success(status)
                    &&& *final (self) == *old(self)
                },
                Err(LoginError::MissingOrInvalidHeaderResponse { header }) => {
                    &&& status_is_success(status)
                    &&& *final (self) == *old(self)
                    &&& (header == HeaderName::CsrfToken <==> csrf_token is None)
                    &&& (header == HeaderName::SetCookie <==> csrf_token is Some && set_cookie
                        is None)
                    &&& (header == HeaderName::CsrfToken || header == HeaderName::SetCookie)
                },
            },
    {
        if !(200 <= status && status < 300) {
            return Err(LoginError::RequestFailed { status });
        }
        let csrf = match csrf_token {
            Some(c) => c,
            None => {
                return Err(
                    LoginError::MissingOrInvalidHeaderResponse { header: HeaderName::CsrfToken },
                );
            },
        };
        let cookie = match set_cookie {
            Some(c) => c,
            None => {
                return Err(
                    LoginError::MissingOrInvalidHeaderResponse { header: HeaderName::SetCookie },
                );
            },
        };
        self.auth_headers = AuthSession::authenticated(csrf, cookie);
        proof {
            ProtectApi::lemma_parts(*self);
            ProtectApi::lemma_parts(*old(self));
        }
        Ok(())
    }
}

} // verus!
