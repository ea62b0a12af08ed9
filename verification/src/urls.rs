//! URL handling: classifying a literal reference as absolute or relative,
//! joining a relative reference against the origin, and reading the
//! components (host, path, query, last path segment) that the archiver needs.
//! The `url` crate does the actual parsing; each call stands behind a trusted
//! wrapper whose result is named, and the resolution policy itself is
//! verified on top of those names.

use vstd::prelude::*;

verus! {

/// How a reference literal parses on its own: as an absolute URL, as a
/// relative reference lacking a base, or not at all.
#[derive(Clone, Copy, PartialEq, Eq, Structural, Debug)]
pub enum ParseKind {
    Absolute,
    RelativeNoBase,
    Invalid,
}

/// What `url::Url::parse` decides for a string on its own: `Some(true)` when
/// it parses as an absolute URL, `Some(false)` when it fails with the
/// relative-URL-without-a-base condition, `None` on any other failure.
pub uninterp spec fn url_parse_class(s: Seq<char>) -> Option<bool>;

/// Relies on url::Url::parse: the outcome depends on the input string alone,
/// and `ParseError::RelativeUrlWithoutBase` is the distinguished failure of a
/// relative reference parsed without a base.
#[verifier::external_body]
pub(crate) fn classify_reference(s: &str) -> (r: ParseKind)
    ensures
        r is Absolute <==> url_parse_class(s@) == Some(true),
        r is RelativeNoBase <==> url_parse_class(s@) == Some(false),
        r is Invalid <==> url_parse_class(s@) is None,
{
    match url::Url::parse(s) {
        Ok(_) => ParseKind::Absolute,
        Err(url::ParseError::RelativeUrlWithoutBase) => ParseKind::RelativeNoBase,
        Err(_) => ParseKind::Invalid,
    }
}

/// What parsing `base` and joining `rel` against it yields, serialized back
/// to a string; `None` when `base` does not parse or the join fails.
pub uninterp spec fn url_join(base: Seq<char>, rel: Seq<char>) -> Option<Seq<char>>;

/// Relies on url::Url::parse and url::Url::join: the standard join of a base
/// URL and a reference is a function of the two strings alone.
#[verifier::external_body]
pub(crate) fn join_against(base: &str, rel: &str) -> (r: Option<String>)
    ensures
        r matches Some(j) ==> url_join(base@, rel@) == Some(j@),
        r is None <==> url_join(base@, rel@) is None,
{
    match url::Url::parse(base) {
        Ok(u) => u.join(rel).ok().map(|j| j.to_string()),
        Err(_) => None,
    }
}

/// What a resolved reference is: an absolute literal stands for itself, a
/// relative one is joined against the origin, anything else is rejected.
pub open spec fn resolved_ref(literal: Seq<char>, origin: Seq<char>) -> Option<Seq<char>> {
    match url_parse_class(literal) {
        Some(true) => Some(literal),
        Some(false) => url_join(origin, literal),
        _ => None,
    }
}

/// Resolve a literal reference against the origin URL. An already-absolute
/// reference is kept exactly as it is; a relative one becomes the standard
/// join of origin and reference; a literal that fails to parse for any other
/// reason is rejected.
pub fn resolve(literal: &str, origin: &str) -> (r: Option<String>)
    ensures
        r matches Some(a) ==> resolved_ref(literal@, origin@) == Some(a@),
        r is None <==> resolved_ref(literal@, origin@) is None,
{
    match classify_reference(literal) {
        ParseKind::Absolute => Some(literal.to_owned()),
        ParseKind::RelativeNoBase => join_against(origin, literal),
        ParseKind::Invalid => None,
    }
}

/// Resolution law: an absolute reference resolves to itself, and a relative
/// reference resolves to the standard join of the origin and the reference.
pub proof fn lemma_resolution_law(literal: Seq<char>, origin: Seq<char>)
    ensures
        url_parse_class(literal) == Some(true) ==> resolved_ref(literal, origin) == Some(literal),
        url_parse_class(literal) == Some(false) ==> resolved_ref(literal, origin) == url_join(
            origin,
            literal,
        ),
{
}

/// The query component of an absolute URL; `None` when the URL does not parse
/// or carries no query.
pub uninterp spec fn url_query(s: Seq<char>) -> Option<Seq<char>>;

/// Relies on url::Url::parse and url::Url::query: the query component is a
/// function of the URL string alone.
#[verifier::external_body]
pub(crate) fn query_component(s: &str) -> (r: Option<String>)
    ensures
        r matches Some(q) ==> url_query(s@) == Some(q@),
        r is None <==> url_query(s@) is None,
{
    match url::Url::parse(s) {
        Ok(u) => u.query().map(|q| q.to_string()),
        Err(_) => None,
    }
}

/// The path segments of an absolute URL; `None` when the URL does not parse
/// or cannot be split into segments.
pub uninterp spec fn url_segments(s: Seq<char>) -> Option<Seq<Seq<char>>>;

/// Relies on url::Url::parse and url::Url::path_segments: the path segments
/// of an absolute URL are a function of the URL string alone.
#[verifier::external_body]
pub(crate) fn path_segment_list(s: &str) -> (r: Option<Vec<String>>)
    ensures
        r.deep_view() == url_segments(s@),
{
    match url::Url::parse(s) {
        Ok(u) => u.path_segments().map(|segments| segments.map(|t| t.to_string()).collect()),
        Err(_) => None,
    }
}

/// The host component of an absolute URL, serialized; `None` when the URL
/// does not parse or has no host.
pub uninterp spec fn url_host(s: Seq<char>) -> Option<Seq<char>>;

/// Relies on url::Url::parse and url::Url::host: the host component is a
/// function of the URL string alone.
#[verifier::external_body]
pub(crate) fn host_component(s: &str) -> (r: Option<String>)
    ensures
        r matches Some(h) ==> url_host(s@) == Some(h@),
        r is None <==> url_host(s@) is None,
{
    match url::Url::parse(s) {
        Ok(u) => u.host().map(|h| h.to_string()),
        Err(_) => None,
    }
}

/// The path component of an absolute URL; `None` when the URL does not parse.
pub uninterp spec fn url_path(s: Seq<char>) -> Option<Seq<char>>;

/// Relies on url::Url::parse and url::Url::path: the path component is a
/// function of the URL string alone.
#[verifier::external_body]
pub(crate) fn path_component(s: &str) -> (r: Option<String>)
    ensures
        r matches Some(p) ==> url_path(s@) == Some(p@),
        r is None <==> url_path(s@) is None,
{
    match url::Url::parse(s) {
        Ok(u) => Some(u.path().to_string()),
        Err(_) => None,
    }
}

} // verus!
