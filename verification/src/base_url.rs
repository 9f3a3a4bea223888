//! A validated base URL: a URL that is guaranteed to accept appended path
//! segments (it is hierarchical, unlike an opaque scheme such as `mailto:`).
//!
//! The URL itself is kept as its serialization, a plain string; the url crate
//! parses, validates and rewrites it behind a few trusted wrappers, and the
//! uninterpreted functions below name what those calls return.

use vstd::prelude::*;

verus! {

/// What `url::Url::parse` returns on a string: the serialization of the
/// parsed URL, or nothing on a syntax error.
pub uninterp spec fn url_parse(s: Seq<char>) -> Option<Seq<char>>;

/// What `url::Url::cannot_be_a_base` returns on the URL whose serialization
/// is the given string.
pub uninterp spec fn url_cannot_be_base(s: Seq<char>) -> bool;

/// What `url::Url::path` returns on the URL whose serialization is the given
/// string.
pub uninterp spec fn url_path(s: Seq<char>) -> Seq<char>;

/// The serialization after `url::PathSegmentsMut::extend` appends the given
/// segments to the URL whose serialization is the given string.
pub uninterp spec fn url_append(s: Seq<char>, segments: Seq<Seq<char>>) -> Seq<char>;

/// A serialization the url crate produced, of a URL that can be a base.
pub open spec fn valid_base(s: Seq<char>) -> bool {
    &&& url_parse(s) == Some(s)
    &&& !url_cannot_be_base(s)
}

/// A character that the url crate keeps verbatim in an appended path segment:
/// ASCII alphanumerics are in no percent-encode set.
pub open spec fn plain_segment_char(c: char) -> bool {
    ||| 'a' as u32 <= c as u32 <= 'z' as u32
    ||| 'A' as u32 <= c as u32 <= 'Z' as u32
    ||| '0' as u32 <= c as u32 <= '9' as u32
}

pub open spec fn plain_segment(s: Seq<char>) -> bool {
    forall|i: int| 0 <= i < s.len() ==> plain_segment_char(#[trigger] s[i])
}

pub open spec fn plain_segments(segments: Seq<Seq<char>>) -> bool {
    forall|i: int| 0 <= i < segments.len() ==> plain_segment(#[trigger] segments[i])
}

/// A path that is exactly `/`.
pub open spec fn root_path(p: Seq<char>) -> bool {
    p.len() == 1 && p[0] == '/'
}

/// How one appended segment extends a path: a separating `/` is added unless
/// the path is exactly `/`, where the segment follows the slash already there.
pub open spec fn join_segment(p: Seq<char>, s: Seq<char>) -> Seq<char> {
    if root_path(p) {
        p + s
    } else {
        p + seq!['/'] + s
    }
}

/// How a sequence of appended segments extends a path, first segment first.
pub open spec fn append_path(p: Seq<char>, segments: Seq<Seq<char>>) -> Seq<char>
    decreases segments.len(),
{
    if segments.len() == 0 {
        p
    } else {
        append_path(join_segment(p, segments[0]), segments.skip(1))
    }
}

/// `/s1/s2/.../sn` for segments `s1..sn`.
pub open spec fn slash_joined(segments: Seq<Seq<char>>) -> Seq<char>
    decreases segments.len(),
{
    if segments.len() == 0 {
        Seq::empty()
    } else {
        seq!['/'] + segments[0] + slash_joined(segments.skip(1))
    }
}

/// Appending nonempty segments to a path is concatenation: the old path, then
/// `/` and each segment in order. The one exception is the bare root path
/// `/`, whose slash already separates it from the first segment.
pub proof fn lemma_append_path_concat(p: Seq<char>, segments: Seq<Seq<char>>)
    requires
        forall|i: int| 0 <= i < segments.len() ==> (#[trigger] segments[i]).len() > 0,
    ensures
        !root_path(p) ==> append_path(p, segments) == p + slash_joined(segments),
        root_path(p) && segments.len() > 0 ==> append_path(p, segments) == seq!['/']
            + segments[0] + slash_joined(segments.skip(1)),
        root_path(p) && segments.len() == 0 ==> append_path(p, segments) == p,
    decreases segments.len(),
{
    if segments.len() == 0 {
        assert(p + slash_joined(segments) =~= p);
    } else {
        let q = join_segment(p, segments[0]);
        assert(q.len() >= 2);
        lemma_append_path_concat(q, segments.skip(1));
        if root_path(p) {
            assert(q =~= seq!['/'] + segments[0]);
            assert(q + slash_joined(segments.skip(1)) =~= seq!['/'] + segments[0]
                + slash_joined(segments.skip(1)));
        } else {
            assert(q + slash_joined(segments.skip(1)) =~= p + slash_joined(segments));
        }
    }
}

/// Relies on `url::Url::parse` and on the url crate's guarantee that a `Url`'s
/// serialization parses back to the same URL: the result is the parsed URL
/// written back out, so it parses to itself.
#[verifier::external_body]
pub(crate) fn parse_normalized(s: &str) -> (r: Option<String>)
    ensures
        (r is Some) == (url_parse(s@) is Some),
        r matches Some(t) ==> url_parse(s@) == Some(t@) && url_parse(t@) == Some(t@),
{
    match url::Url::parse(s) {
        Ok(u) => Some(String::from(u)),
        Err(_) => None,
    }
}

/// Relies on `url::Url::cannot_be_a_base`. The argument is a serialization
/// the url crate produced, so parsing it back cannot fail.
#[verifier::external_body]
fn serialized_cannot_be_base(s: &str) -> (r: bool)
    requires
        url_parse(s@) == Some(s@),
    ensures
        r == url_cannot_be_base(s@),
{
    match url::Url::parse(s) {
        Ok(u) => u.cannot_be_a_base(),
        Err(_) => true,
    }
}

/// Relies on `url::Url::path`.
#[verifier::external_body]
fn serialized_path(s: &str) -> (r: String)
    requires
        url_parse(s@) == Some(s@),
    ensures
        r@ == url_path(s@),
{
    match url::Url::parse(s) {
        Ok(u) => u.path().to_owned(),
        Err(_) => String::new(),
    }
}

/// Relies on `url::Url::path_segments_mut` and `url::PathSegmentsMut::extend`:
/// on a URL that can be a base the call cannot fail, it keeps the URL valid
/// and hierarchical, and it appends each segment after a `/` (after the slash
/// already there when the path is exactly `/`); segments of ASCII
/// alphanumerics are in no percent-encode set and are written verbatim.
#[verifier::external_body]
fn serialized_append_segments(s: &str, segments: &Vec<String>) -> (r: String)
    requires
        valid_base(s@),
    ensures
        r@ == url_append(s@, segments.deep_view()),
        valid_base(r@),
        plain_segments(segments.deep_view()) ==> url_path(r@) == append_path(
            url_path(s@),
            segments.deep_view(),
        ),
{
    let mut u = match url::Url::parse(s) {
        Ok(u) => u,
        Err(_) => return String::new(),
    };
    if let Ok(mut path_segments) = u.path_segments_mut() {
        path_segments.extend(segments);
    }
    String::from(u)
}

/// Why a string was refused as a base URL.
#[derive(Debug, Clone, PartialEq, Eq)]
pub enum BaseUrlError {
    /// The string is not a URL at all.
    ParseBaseUrl,
    /// The string is a URL, but an opaque one that cannot carry appended path
    /// segments; the serialized URL is carried for diagnostics.
    CannotBeBase(String),
}

/// A URL validated to accept appended path segments.
#[derive(Debug)]
pub struct BaseUrl {
    raw: String,
}

impl View for BaseUrl {
    type V = Seq<char>;

    closed spec fn view(&self) -> Seq<char> {
        self.raw@
    }
}

impl BaseUrl {
    #[verifier::type_invariant]
    closed spec fn inv(self) -> bool {
        valid_base(self.raw@)
    }

    /// Parse and validate: fails with `ParseBaseUrl` on malformed syntax and
    /// with `CannotBeBase` on a URL that cannot carry path segments; succeeds
    /// on every other input, with the parsed URL's serialization as the value.
    pub fn new(s: &str) -> (r: Result<BaseUrl, BaseUrlError>)
        ensures
            match r {
                Ok(b) => url_parse(s@) == Some(b@) && valid_base(b@),
                Err(BaseUrlError::ParseBaseUrl) => url_parse(s@) is None,
                Err(BaseUrlError::CannotBeBase(u)) => url_parse(s@) == Some(u@)
                    && url_cannot_be_base(u@),
            },
    {
        match parse_normalized(s) {
            None => Err(BaseUrlError::ParseBaseUrl),
            Some(t) => {
                if serialized_cannot_be_base(t.as_str()) {
                    Err(BaseUrlError::CannotBeBase(t))
                } else {
                    Ok(BaseUrl { raw: t })
                }
            },
        }
    }

    /// Append the given segments to the path, in order, producing a new URL;
    /// never fails, because the value is known to accept path segments. For
    /// segments of ASCII alphanumerics the new path is the old path extended
    /// with `/` and each segment.
    pub fn and_path_segments(self, segments: Vec<String>) -> (r: BaseUrl)
        ensures
            r@ == url_append(self@, segments.deep_view()),
            valid_base(r@),
            plain_segments(segments.deep_view()) ==> url_path(r@) == append_path(
                url_path(self@),
                segments.deep_view(),
            ),
    {
        proof {
            use_type_invariant(&self);
        }
        let raw = serialized_append_segments(self.raw.as_str(), &segments);
        BaseUrl { raw }
    }

    /// A copy of this URL.
    pub fn duplicate(&self) -> (r: BaseUrl)
        ensures
            r@ == self@,
    {
        proof {
            use_type_invariant(self);
        }
        BaseUrl { raw: self.raw.clone() }
    }

    /// The serialization.
    pub fn as_str(&self) -> (r: &str)
        ensures
            r@ == self@,
    {
        self.raw.as_str()
    }

    /// The serialization, as an owned string.
    pub fn into_string(self) -> (r: String)
        ensures
            r@ == self@,
    {
        self.raw
    }

    /// The URL's path.
    pub fn path(&self) -> (r: String)
        ensures
            r@ == url_path(self@),
    {
        proof {
            use_type_invariant(self);
        }
        serialized_path(self.raw.as_str())
    }
}

} // verus!
