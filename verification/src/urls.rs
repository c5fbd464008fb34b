use vstd::prelude::*;

verus! {

/// The view of an optional string, for stating contracts over results that
/// may be absent.
pub open spec fn opt_string_view(o: Option<String>) -> Option<Seq<char>> {
    match o {
        Some(s) => Some(s@),
        None => None,
    }
}

/// The normalized serialization `url::Url::parse` produces for `s`, or
/// `None` when `s` does not parse as a URL.
pub uninterp spec fn url_parsed(s: Seq<char>) -> Option<Seq<char>>;

/// The serialization of `path` resolved against the URL `base` by standard
/// URL semantics, or `None` when `base` does not parse or the join fails.
pub uninterp spec fn url_joined(base: Seq<char>, path: Seq<char>) -> Option<Seq<char>>;

/// The serialization of the URL `u` with the raw segment `seg` appended to
/// its path, or `None` when `u` does not parse or cannot be a base.
pub uninterp spec fn url_with_segment(u: Seq<char>, seg: Seq<char>) -> Option<Seq<char>>;

/// The serialization of the URL `u` with the pair `name=value` appended to
/// its query string, or `None` when `u` does not parse.
pub uninterp spec fn url_with_query(u: Seq<char>, name: Seq<char>, value: Seq<char>) -> Option<
    Seq<char>,
>;

/// Whether `s` is a valid HTTP header name.
pub uninterp spec fn header_name_valid(s: Seq<char>) -> bool;

/// Whether `s` is a valid HTTP header value.
pub uninterp spec fn header_value_valid(s: Seq<char>) -> bool;

/// Relies on url::Url::parse: `Some` exactly when `s` parses as a URL; the
/// result is the parsed URL's normalized serialization.
#[verifier::external_body]
pub(crate) fn parse_url(s: &str) -> (r: Option<String>)
    ensures
        opt_string_view(r) == url_parsed(s@),
{
    match url::Url::parse(s) {
        Ok(u) => Some(String::from(u)),
        Err(_) => None,
    }
}

/// Relies on url::Url::parse and url::Url::join: resolves `path` against
/// the URL `base` and returns the result's serialization.
#[verifier::external_body]
pub(crate) fn join_url(base: &str, path: &str) -> (r: Option<String>)
    ensures
        opt_string_view(r) == url_joined(base@, path@),
{
    match url::Url::parse(base) {
        Ok(u) => match u.join(path) {
            Ok(j) => Some(String::from(j)),
            Err(_) => None,
        },
        Err(_) => None,
    }
}

/// Relies on url::Url::parse and url::Url::path_segments_mut: appends the
/// raw segment `seg` to the URL's path; `path_segments_mut` refuses URLs
/// that cannot be a base.
#[verifier::external_body]
pub(crate) fn url_push_segment(u: &str, seg: &str) -> (r: Option<String>)
    ensures
        opt_string_view(r) == url_with_segment(u@, seg@),
{
    let mut parsed = match url::Url::parse(u) {
        Ok(p) => p,
        Err(_) => return None,
    };
    match parsed.path_segments_mut() {
        Ok(mut segments) => {
            segments.push(seg);
        },
        Err(()) => return None,
    }
    Some(String::from(parsed))
}

/// Relies on url::Url::parse and url::Url::query_pairs_mut: appends the
/// pair `name=value` to the URL's query string.
#[verifier::external_body]
pub(crate) fn url_append_query(u: &str, name: &str, value: &str) -> (r: Option<String>)
    ensures
        opt_string_view(r) == url_with_query(u@, name@, value@),
{
    let mut parsed = match url::Url::parse(u) {
        Ok(p) => p,
        Err(_) => return None,
    };
    parsed.query_pairs_mut().append_pair(name, value);
    Some(String::from(parsed))
}

/// Relies on hyper::header::HeaderName::from_bytes: `Ok` exactly for valid
/// HTTP header names.
#[verifier::external_body]
pub(crate) fn valid_header_name(s: &str) -> (r: bool)
    ensures
        r == header_name_valid(s@),
{
    hyper::header::HeaderName::from_bytes(s.as_bytes()).is_ok()
}

/// Relies on hyper::header::HeaderValue::from_str: `Ok` exactly for valid
/// HTTP header values.
#[verifier::external_body]
pub(crate) fn valid_header_value(s: &str) -> (r: bool)
    ensures
        r == header_value_valid(s@),
{
    hyper::header::HeaderValue::from_str(s).is_ok()
}

} // verus!
