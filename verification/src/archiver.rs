//! Archive layout and filename policy: the resource categories, the archive
//! directory computed from the origin URL and the capture timestamp, and the
//! local filename derived from a resolved URL, with a generated fallback
//! name when the URL offers no trustworthy one.

use vstd::prelude::*;
use vstd::string::*;
use crate::urls::{url_host, url_path, url_query, url_segments};
use crate::urls::{host_component, path_component, path_segment_list, query_component};
use rand::{distributions::Alphanumeric, Rng};

verus! {

/// One of the three resource kinds handled: image, stylesheet, script.
#[derive(Clone, Copy, PartialEq, Eq, Structural, Debug)]
pub enum Category {
    Image,
    Stylesheet,
    Script,
}

/// The subdirectory that holds a category's localized resources.
pub open spec fn subdir_of(category: Category) -> Seq<char> {
    match category {
        Category::Image => "images"@,
        Category::Stylesheet => "css"@,
        Category::Script => "js"@,
    }
}

/// The suffix appended to a generated fallback name: `.png` for images; for
/// stylesheets and scripts the bare `css`/`js`, with no separating dot.
pub open spec fn suffix_of(category: Category) -> Seq<char> {
    match category {
        Category::Image => ".png"@,
        Category::Stylesheet => "css"@,
        Category::Script => "js"@,
    }
}

impl Category {
    /// The subdirectory name for this category.
    pub fn subdir(&self) -> (r: &'static str)
        ensures
            r@ == subdir_of(*self),
    {
        match self {
            Category::Image => "images",
            Category::Stylesheet => "css",
            Category::Script => "js",
        }
    }

    /// The generated-name suffix for this category.
    pub fn suffix(&self) -> (r: &'static str)
        ensures
            r@ == suffix_of(*self),
    {
        match self {
            Category::Image => ".png",
            Category::Stylesheet => "css",
            Category::Script => "js",
        }
    }
}

/// The text a localized reference is rewritten to: a relative path into the
/// category subdirectory.
pub open spec fn replacement_text(category: Category, filename: Seq<char>) -> Seq<char> {
    "./"@ + subdir_of(category) + "/"@ + filename
}

/// Build the rewrite target `./<category>/<filename>` for a saved resource.
pub fn local_reference(category: Category, filename: &str) -> (r: String)
    ensures
        r@ == replacement_text(category, filename@),
{
    let mut out = "./".to_owned();
    out.append(category.subdir());
    out.append("/");
    out.append(filename);
    proof {
        assert(out@ =~= replacement_text(category, filename@));
    }
    out
}

/// `s` with a trailing separator appended when it does not already end in one.
pub open spec fn with_trailing_slash(s: Seq<char>) -> Seq<char> {
    if s.len() > 0 && s.last() == '/' {
        s
    } else {
        s.push('/')
    }
}

fn ensure_trailing_slash(s: &str) -> (r: String)
    ensures
        r@ == with_trailing_slash(s@),
{
    let n = s.unicode_len();
    if n > 0 && s.get_char(n - 1) == '/' {
        s.to_owned()
    } else {
        let mut out = s.to_owned();
        out.append("/");
        proof {
            reveal_strlit("/");
            assert(out@ =~= s@.push('/'));
        }
        out
    }
}

/// The archive directory: base path and URL path each given a trailing
/// separator, then host, URL path and capture timestamp concatenated.
pub open spec fn archive_dir_spec(
    base: Seq<char>,
    host: Seq<char>,
    path: Seq<char>,
    captured_at: Seq<char>,
) -> Seq<char> {
    with_trailing_slash(base) + host + with_trailing_slash(path) + captured_at
}

/// Concatenate the archive directory from its four parts.
pub fn build_directory(base: &str, host: &str, url_path: &str, captured_at: &str) -> (r: String)
    ensures
        r@ == archive_dir_spec(base@, host@, url_path@, captured_at@),
{
    let mut out = ensure_trailing_slash(base);
    out.append(host);
    let path_part = ensure_trailing_slash(url_path);
    out.append(path_part.as_str());
    out.append(captured_at);
    proof {
        assert(out@ =~= archive_dir_spec(base@, host@, url_path@, captured_at@));
    }
    out
}

/// The page-localization pipeline's policy holder: where a capture is
/// archived and under which filenames its resources are saved.
pub struct Archiver;

impl Archiver {
    /// Compute the directory a capture of `origin` at `captured_at` is
    /// archived under; rejected when the origin does not parse as an absolute
    /// URL with a host.
    pub fn archive_directory(origin: &str, base_path: &str, captured_at: &str) -> (r: Option<
        String,
    >)
        ensures
            r matches Some(d) ==> (url_host(origin@) matches Some(h) && url_path(origin@)
                matches Some(p) && d@ == archive_dir_spec(base_path@, h, p, captured_at@)),
            r is None <==> (url_host(origin@) is None || url_path(origin@) is None),
    {
        match host_component(origin) {
            Some(host) => match path_component(origin) {
                Some(path) => Some(
                    build_directory(base_path, host.as_str(), path.as_str(), captured_at),
                ),
                None => None,
            },
            None => None,
        }
    }
}

/// The filename a resolved URL offers on its own: rejected when the URL
/// carries a query string (the path-derived name is then untrustworthy) and
/// when the last path segment is empty or absent.
pub open spec fn derived_name(resolved: Seq<char>) -> Option<Seq<char>> {
    if url_query(resolved) is Some {
        None
    } else {
        match url_segments(resolved) {
            Some(segments) => if segments.len() > 0 && segments.last().len() > 0 {
                Some(segments.last())
            } else {
                None
            },
            None => None,
        }
    }
}

/// Derive a local filename from a resolved URL, when it offers a usable one:
/// the last path segment.
pub fn get_file_name(link: &str) -> (r: Option<String>)
    ensures
        r matches Some(name) ==> derived_name(link@) == Some(name@),
        r is None <==> derived_name(link@) is None,
{
    match query_component(link) {
        Some(_) => None,
        None => match path_segment_list(link) {
            Some(segments) => {
                if segments.len() > 0 {
                    let segment = &segments[segments.len() - 1];
                    proof {
                        assert(segments.deep_view().last() == segment@);
                    }
                    if segment.as_str().unicode_len() > 0 {
                        Some(segment.clone())
                    } else {
                        None
                    }
                } else {
                    None
                }
            },
            None => None,
        },
    }
}

/// A URL with a query string never yields a path-derived filename: the
/// derivation always falls back to a generated name.
pub proof fn lemma_query_forces_generated(resolved: Seq<char>)
    requires
        url_query(resolved) is Some,
    ensures
        derived_name(resolved) is None,
{
}

/// An ASCII letter or digit, the alphabet of generated names.
pub open spec fn is_alnum_char(c: char) -> bool {
    ('a' <= c && c <= 'z') || ('A' <= c && c <= 'Z') || ('0' <= c && c <= '9')
}

/// An eight-character random alphanumeric stem for a generated filename.
pub open spec fn is_generated_stem(g: Seq<char>) -> bool {
    g.len() == 8 && (forall|i: int| 0 <= i < g.len() ==> is_alnum_char(#[trigger] g[i]))
}

/// Relies on rand::Rng::sample_iter with rand::distributions::Alphanumeric:
/// every sample is uniformly an ASCII letter or digit, and eight samples are
/// taken; which letters come back depends on the generator's state, so only
/// the shape is promised.
#[verifier::external_body]
pub(crate) fn random_name_generator() -> (r: String)
    ensures
        is_generated_stem(r@),
{
    let s: String = rand::thread_rng().sample_iter(&Alphanumeric).take(8).map(char::from).collect();
    s
}

/// The local filename for a resolved URL: the URL-derived name when there is
/// one, else a generated random stem with the category's suffix.
pub fn resolve_filename(link: &str, category: Category) -> (r: String)
    ensures
        (match derived_name(link@) {
            Some(name) => r@ == name,
            None => exists|g: Seq<char>|
                #[trigger] is_generated_stem(g) && r@ == g + suffix_of(category),
        }),
{
    match get_file_name(link) {
        Some(name) => name,
        None => {
            let mut name = random_name_generator();
            let ghost stem: Seq<char> = name@;
            name.append(category.suffix());
            proof {
                assert(is_generated_stem(stem) && name@ == stem + suffix_of(category));
            }
            name
        },
    }
}

} // verus!
