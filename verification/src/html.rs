//! The page record and link discovery. A record holds the origin URL, the
//! capture timestamp, the mutable body, and a read-only parsed view of the
//! body as fetched: the attribute values of every image, link and script
//! element. Discovery turns those attributes into (literal, resolved)
//! reference pairs; localization rewrites the body by literal text, so the
//! pairs stay valid substitution keys after earlier rewrites.

use vstd::prelude::*;
use vstd::string::*;
use crate::archiver::{local_reference, replacement_text, Category};
use crate::text::{contains_sub, contains_substring, replace_all, replaced};
use crate::urls::{resolve, resolved_ref};

verus! {

/// The `src` attribute of each `img` element of a markup text, in document
/// order; `None` where the element has no such attribute.
pub uninterp spec fn img_src_attrs(markup: Seq<char>) -> Seq<Option<Seq<char>>>;

/// Relies on scraper::Html::parse_document, scraper::Selector::parse and the
/// element attribute accessor: the image elements of a markup text and their
/// `src` attributes are a function of the markup alone.
#[verifier::external_body]
pub(crate) fn select_img_srcs(markup: &str) -> (r: Vec<Option<String>>)
    ensures
        r.deep_view() == img_src_attrs(markup@),
{
    let document = scraper::Html::parse_document(markup);
    let selector = scraper::Selector::parse("img").unwrap();
    document.select(&selector).map(
        |element| element.value().attr("src").map(|s| s.to_string()),
    ).collect()
}

/// The (`rel`, `href`) attribute pair of each `link` element of a markup
/// text, in document order.
pub uninterp spec fn link_attrs(markup: Seq<char>) -> Seq<(Option<Seq<char>>, Option<Seq<char>>)>;

/// Relies on scraper::Html::parse_document, scraper::Selector::parse and the
/// element attribute accessor: the link elements of a markup text and their
/// `rel` and `href` attributes are a function of the markup alone.
#[verifier::external_body]
pub(crate) fn select_link_attrs(markup: &str) -> (r: Vec<(Option<String>, Option<String>)>)
    ensures
        r.deep_view() == link_attrs(markup@),
{
    let document = scraper::Html::parse_document(markup);
    let selector = scraper::Selector::parse("link").unwrap();
    document.select(&selector).map(
        |element| (
            element.value().attr("rel").map(|s| s.to_string()),
            element.value().attr("href").map(|s| s.to_string()),
        ),
    ).collect()
}

/// The `src` attribute of each `script` element of a markup text, in
/// document order; `None` where the element has no such attribute.
pub uninterp spec fn script_src_attrs(markup: Seq<char>) -> Seq<Option<Seq<char>>>;

/// Relies on scraper::Html::parse_document, scraper::Selector::parse and the
/// element attribute accessor: the script elements of a markup text and
/// their `src` attributes are a function of the markup alone.
#[verifier::external_body]
pub(crate) fn select_script_srcs(markup: &str) -> (r: Vec<Option<String>>)
    ensures
        r.deep_view() == script_src_attrs(markup@),
{
    let document = scraper::Html::parse_document(markup);
    let selector = scraper::Selector::parse("script").unwrap();
    document.select(&selector).map(
        |element| element.value().attr("src").map(|s| s.to_string()),
    ).collect()
}

/// Relies on chrono::Utc::now and chrono's formatter with the fixed
/// day-month-year-hour:minute:second pattern; the value depends on the
/// clock, so nothing is promised of it.
#[verifier::external_body]
pub(crate) fn current_timestamp() -> String {
    chrono::Utc::now().format("%d-%m-%Y-%H:%M:%S").to_string()
}

/// One capture attempt of a page: the origin URL, the capture timestamp used
/// verbatim in the archive path, the body being rewritten, and the parsed
/// view of the body as fetched.
pub struct HtmlRecord {
    /// The absolute URL originally requested.
    pub origin: String,
    /// The capture timestamp, fixed at record creation.
    pub date_time: String,
    /// The page text: starts as fetched, progressively rewritten as
    /// resources are localized.
    pub body: String,
    /// The `src` attribute of each `img` element of the body as fetched.
    pub img_srcs: Vec<Option<String>>,
    /// The (`rel`, `href`) attribute pair of each `link` element of the body
    /// as fetched.
    pub link_rel_hrefs: Vec<(Option<String>, Option<String>)>,
    /// The `src` attribute of each `script` element of the body as fetched.
    pub script_srcs: Vec<Option<String>>,
}

/// The inline-data encoding marker: a reference containing it cannot be
/// fetched as a remote resource.
pub open spec fn inline_marker() -> Seq<char> {
    ";base64,"@
}

/// One candidate literal folded into a reference list: an unfetchable or
/// unresolvable literal is dropped; a resolvable one is paired with its
/// resolved URL and kept once per (literal, resolved) pair.
pub open spec fn fold_ref(
    acc: Seq<(Seq<char>, Seq<char>)>,
    literal: Seq<char>,
    origin: Seq<char>,
    skip_inline: bool,
) -> Seq<(Seq<char>, Seq<char>)> {
    if skip_inline && contains_sub(literal, inline_marker()) {
        acc
    } else {
        match resolved_ref(literal, origin) {
            Some(res) => if acc.contains((literal, res)) {
                acc
            } else {
                acc.push((literal, res))
            },
            None => acc,
        }
    }
}

/// The reference pairs extracted from a sequence of optional attribute
/// values; elements without the attribute are skipped.
pub open spec fn refs_from(
    srcs: Seq<Option<Seq<char>>>,
    origin: Seq<char>,
    skip_inline: bool,
) -> Seq<(Seq<char>, Seq<char>)>
    decreases srcs.len(),
{
    if srcs.len() == 0 {
        Seq::empty()
    } else {
        let prev = refs_from(srcs.drop_last(), origin, skip_inline);
        match srcs.last() {
            Some(literal) => fold_ref(prev, literal, origin, skip_inline),
            None => prev,
        }
    }
}

/// The `href` attribute of each `link` element whose `rel` is exactly
/// "stylesheet"; link elements with another relation, or without one, are
/// skipped as non-stylesheet links.
pub open spec fn stylesheet_hrefs(
    links: Seq<(Option<Seq<char>>, Option<Seq<char>>)>,
) -> Seq<Option<Seq<char>>>
    decreases links.len(),
{
    if links.len() == 0 {
        Seq::empty()
    } else {
        let prev = stylesheet_hrefs(links.drop_last());
        if links.last().0 == Some("stylesheet"@) {
            prev.push(links.last().1)
        } else {
            prev
        }
    }
}

/// The image reference pairs of a record's parsed view.
pub open spec fn image_refs_of(r: HtmlRecord) -> Seq<(Seq<char>, Seq<char>)> {
    refs_from(r.img_srcs.deep_view(), r.origin@, true)
}

/// The stylesheet reference pairs of a record's parsed view.
pub open spec fn css_refs_of(r: HtmlRecord) -> Seq<(Seq<char>, Seq<char>)> {
    refs_from(stylesheet_hrefs(r.link_rel_hrefs.deep_view()), r.origin@, false)
}

/// The script reference pairs of a record's parsed view.
pub open spec fn js_refs_of(r: HtmlRecord) -> Seq<(Seq<char>, Seq<char>)> {
    refs_from(r.script_srcs.deep_view(), r.origin@, false)
}

fn contains_pair(v: &Vec<(String, String)>, literal: &String, res: &String) -> (r: bool)
    ensures
        r <==> v.deep_view().contains((literal@, res@)),
{
    let mut i: usize = 0;
    while i < v.len()
        invariant
            i <= v.len(),
            forall|k: int| 0 <= k < i ==> v.deep_view()[k] != (literal@, res@),
        decreases v.len() - i,
    {
        let p = &v[i];
        proof {
            assert(v.deep_view()[i as int] == (p.0@, p.1@));
        }
        if p.0 == *literal && p.1 == *res {
            proof {
                assert(v.deep_view().contains((literal@, res@)));
            }
            return true;
        }
        i = i + 1;
    }
    proof {
        assert forall|k: int| 0 <= k < v.deep_view().len() implies v.deep_view()[k] != (
        literal@,
        res@,
        ) by {}
        assert(!v.deep_view().contains((literal@, res@)));
    }
    false
}

fn collect_refs(srcs: &Vec<Option<String>>, origin: &str, skip_inline: bool) -> (r: Vec<
    (String, String),
>)
    ensures
        r.deep_view() == refs_from(srcs.deep_view(), origin@, skip_inline),
{
    let mut out: Vec<(String, String)> = Vec::new();
    let mut i: usize = 0;
    proof {
        assert(srcs.deep_view().take(0) =~= Seq::<Option<Seq<char>>>::empty());
        assert(out.deep_view() =~= Seq::<(Seq<char>, Seq<char>)>::empty());
    }
    while i < srcs.len()
        invariant
            i <= srcs.len(),
            out.deep_view() == refs_from(srcs.deep_view().take(i as int), origin@, skip_inline),
        decreases srcs.len() - i,
    {
        proof {
            assert(srcs.deep_view().take(i + 1).drop_last() =~= srcs.deep_view().take(i as int));
            assert(srcs.deep_view().take(i + 1).last() == srcs@[i as int].deep_view());
        }
        let ghost prefix_refs = out.deep_view();
        let entry = &srcs[i];
        match entry {
            Some(literal) => {
                proof {
                    assert(srcs@[i as int].deep_view() == Some(literal@));
                }
                if skip_inline && contains_substring(literal.as_str(), ";base64,") {
                    // an inline-encoded reference cannot be fetched
                } else {
                    match resolve(literal.as_str(), origin) {
                        Some(res) => {
                            if !contains_pair(&out, literal, &res) {
                                let pair = (literal.clone(), res);
                                out.push(pair);
                                proof {
                                    assert(out.deep_view() =~= prefix_refs.push(
                                        (literal@, res@),
                                    ));
                                }
                            }
                        },
                        None => {
                            // a literal that parses as neither an absolute nor
                            // a relative URL is skipped
                        },
                    }
                }
            },
            None => {
                proof {
                    assert(srcs@[i as int].deep_view() is None);
                }
            },
        }
        i = i + 1;
    }
    proof {
        assert(srcs.deep_view().take(srcs@.len() as int) =~= srcs.deep_view());
    }
    out
}

fn stylesheet_href_list(links: &Vec<(Option<String>, Option<String>)>) -> (r: Vec<Option<String>>)
    ensures
        r.deep_view() == stylesheet_hrefs(links.deep_view()),
{
    let sheet = "stylesheet".to_owned();
    let mut out: Vec<Option<String>> = Vec::new();
    let mut i: usize = 0;
    proof {
        assert(links.deep_view().take(0) =~= Seq::<
            (Option<Seq<char>>, Option<Seq<char>>),
        >::empty());
        assert(out.deep_view() =~= Seq::<Option<Seq<char>>>::empty());
    }
    while i < links.len()
        invariant
            i <= links.len(),
            sheet@ == "stylesheet"@,
            out.deep_view() == stylesheet_hrefs(links.deep_view().take(i as int)),
        decreases links.len() - i,
    {
        proof {
            assert(links.deep_view().take(i + 1).drop_last() =~= links.deep_view().take(i as int));
            assert(links.deep_view().take(i + 1).last() == links@[i as int].deep_view());
        }
        let ghost prefix_hrefs = out.deep_view();
        let entry = &links[i];
        match &entry.0 {
            Some(rel) => {
                proof {
                    assert(links@[i as int].deep_view().0 == Some(rel@));
                }
                if *rel == sheet {
                    let href = match &entry.1 {
                        Some(h) => Some(h.clone()),
                        None => None,
                    };
                    proof {
                        assert(href.deep_view() == links@[i as int].deep_view().1);
                    }
                    out.push(href);
                    proof {
                        assert(out.deep_view() =~= prefix_hrefs.push(
                            links.deep_view()[i as int].1,
                        ));
                    }
                }
            },
            None => {
                proof {
                    assert(links@[i as int].deep_view().0 is None);
                }
            },
        }
        i = i + 1;
    }
    proof {
        assert(links.deep_view().take(links@.len() as int) =~= links.deep_view());
    }
    out
}

impl HtmlRecord {
    /// Create a record with a caller-chosen capture timestamp; the parsed
    /// view reflects the body exactly as given and is never re-computed.
    pub fn with_timestamp(origin: String, body: String, date_time: String) -> (r: HtmlRecord)
        ensures
            r.origin@ == origin@,
            r.body@ == body@,
            r.date_time@ == date_time@,
            r.img_srcs.deep_view() == img_src_attrs(body@),
            r.link_rel_hrefs.deep_view() == link_attrs(body@),
            r.script_srcs.deep_view() == script_src_attrs(body@),
    {
        let img_srcs = select_img_srcs(body.as_str());
        let link_rel_hrefs = select_link_attrs(body.as_str());
        let script_srcs = select_script_srcs(body.as_str());
        HtmlRecord { origin, date_time, body, img_srcs, link_rel_hrefs, script_srcs }
    }

    /// Create a record for a page fetched now: the capture timestamp is
    /// taken from the clock at record creation.
    pub fn new(origin: String, body: String) -> (r: HtmlRecord)
        ensures
            r.origin@ == origin@,
            r.body@ == body@,
            r.img_srcs.deep_view() == img_src_attrs(body@),
            r.link_rel_hrefs.deep_view() == link_attrs(body@),
            r.script_srcs.deep_view() == script_src_attrs(body@),
    {
        let date_time = current_timestamp();
        HtmlRecord::with_timestamp(origin, body, date_time)
    }

    /// Image references of the page: every `img` element's `src`, inline-data
    /// references excluded, resolved against the origin, deduplicated by
    /// (literal, resolved) pair; `None` when the page has none.
    pub fn get_image_links(&self) -> (r: Result<Option<Vec<(String, String)>>, String>)
        ensures
            (match r {
                Ok(Some(v)) => v.deep_view() == image_refs_of(*self) && image_refs_of(
                    *self,
                ).len() > 0,
                Ok(None) => image_refs_of(*self).len() == 0,
                Err(_) => false,
            }),
    {
        let refs = collect_refs(&self.img_srcs, self.origin.as_str(), true);
        if refs.len() == 0 {
            Ok(None)
        } else {
            Ok(Some(refs))
        }
    }

    /// Stylesheet references of the page: the `href` of every `link` element
    /// whose relation is exactly "stylesheet", resolved against the origin,
    /// deduplicated by pair; `None` when the page has none.
    pub fn get_css_links(&self) -> (r: Result<Option<Vec<(String, String)>>, String>)
        ensures
            (match r {
                Ok(Some(v)) => v.deep_view() == css_refs_of(*self) && css_refs_of(*self).len() > 0,
                Ok(None) => css_refs_of(*self).len() == 0,
                Err(_) => false,
            }),
    {
        let hrefs = stylesheet_href_list(&self.link_rel_hrefs);
        let refs = collect_refs(&hrefs, self.origin.as_str(), false);
        if refs.len() == 0 {
            Ok(None)
        } else {
            Ok(Some(refs))
        }
    }

    /// Script references of the page: every `script` element's `src`,
    /// resolved against the origin, deduplicated by pair; `None` when the
    /// page has none.
    pub fn get_js_links(&self) -> (r: Result<Option<Vec<(String, String)>>, String>)
        ensures
            (match r {
                Ok(Some(v)) => v.deep_view() == js_refs_of(*self) && js_refs_of(*self).len() > 0,
                Ok(None) => js_refs_of(*self).len() == 0,
                Err(_) => false,
            }),
    {
        let refs = collect_refs(&self.script_srcs, self.origin.as_str(), false);
        if refs.len() == 0 {
            Ok(None)
        } else {
            Ok(Some(refs))
        }
    }

    /// Rewrite every occurrence of a localized reference's literal text to
    /// the local path `./<category>/<filename>`; called only once that
    /// resource's bytes are durably written.
    pub fn localize_reference(&mut self, literal: &str, category: Category, filename: &str)
        ensures
            final(self).body@ == replaced(
                old(self).body@,
                literal@,
                replacement_text(category, filename@),
            ),
            final(self).origin == old(self).origin,
            final(self).date_time == old(self).date_time,
            final(self).img_srcs == old(self).img_srcs,
            final(self).link_rel_hrefs == old(self).link_rel_hrefs,
            final(self).script_srcs == old(self).script_srcs,
    {
        let target = local_reference(category, filename);
        let new_body = replace_all(self.body.as_str(), literal, target.as_str());
        self.body = new_body;
    }
}

/// What fetch-and-persist reports for one reference: the resource was saved
/// under a local filename, or it failed somewhere and was skipped.
pub enum ResourceOutcome {
    Saved(String),
    Skipped,
}

impl HtmlRecord {
    /// Decide the rewrite for one reference from its outcome: only a saved
    /// resource changes the body; a skipped one leaves the record — and with
    /// it every occurrence of the original literal — untouched.
    pub fn apply_resource_outcome(
        &mut self,
        literal: &str,
        category: Category,
        outcome: ResourceOutcome,
    )
        ensures
            (outcome matches ResourceOutcome::Saved(f) ==> final(self).body@ == replaced(
                old(self).body@,
                literal@,
                replacement_text(category, f@),
            )),
            outcome is Skipped ==> *final(self) == *old(self),
            (outcome is Skipped && contains_sub(old(self).body@, literal@)) ==> contains_sub(
                final(self).body@,
                literal@,
            ),
            final(self).origin == old(self).origin,
            final(self).date_time == old(self).date_time,
            final(self).img_srcs == old(self).img_srcs,
            final(self).link_rel_hrefs == old(self).link_rel_hrefs,
            final(self).script_srcs == old(self).script_srcs,
    {
        match outcome {
            ResourceOutcome::Saved(filename) => {
                self.localize_reference(literal, category, filename.as_str())
            },
            ResourceOutcome::Skipped => {},
        }
    }
}

/// A reference extracted with inline filtering never has the inline-data
/// marker in its literal: such references are excluded from the set.
pub proof fn lemma_no_inline_refs(
    srcs: Seq<Option<Seq<char>>>,
    origin: Seq<char>,
    p: (Seq<char>, Seq<char>),
)
    requires
        refs_from(srcs, origin, true).contains(p),
    ensures
        !contains_sub(p.0, inline_marker()),
    decreases srcs.len(),
{
    if srcs.len() == 0 {
        let empty = refs_from(srcs, origin, true);
        let k = choose|k: int| 0 <= k < empty.len() && empty[k] == p;
        assert(false);
    } else {
        let prev = refs_from(srcs.drop_last(), origin, true);
        let cur = refs_from(srcs, origin, true);
        match srcs.last() {
            Some(literal) => {
                match resolved_ref(literal, origin) {
                    Some(res) => {
                        if !contains_sub(literal, inline_marker()) && !prev.contains(
                            (literal, res),
                        ) {
                            if p == (literal, res) {
                                // the newly kept pair passed the inline filter
                            } else {
                                let k = choose|k: int| 0 <= k < cur.len() && cur[k] == p;
                                assert(prev[k] == p);
                                lemma_no_inline_refs(srcs.drop_last(), origin, p);
                            }
                        } else {
                            lemma_no_inline_refs(srcs.drop_last(), origin, p);
                        }
                    },
                    None => {
                        lemma_no_inline_refs(srcs.drop_last(), origin, p);
                    },
                }
            },
            None => {
                lemma_no_inline_refs(srcs.drop_last(), origin, p);
            },
        }
    }
}

/// An extracted reference list holds each (literal, resolved) pair at most
/// once: two distinct positions never carry the same pair.
pub proof fn lemma_refs_unique(
    srcs: Seq<Option<Seq<char>>>,
    origin: Seq<char>,
    skip_inline: bool,
    i: int,
    j: int,
)
    requires
        0 <= i < j < refs_from(srcs, origin, skip_inline).len(),
    ensures
        refs_from(srcs, origin, skip_inline)[i] != refs_from(srcs, origin, skip_inline)[j],
    decreases srcs.len(),
{
    if srcs.len() == 0 {
    } else {
        let prev = refs_from(srcs.drop_last(), origin, skip_inline);
        let cur = refs_from(srcs, origin, skip_inline);
        match srcs.last() {
            Some(literal) => {
                match resolved_ref(literal, origin) {
                    Some(res) => {
                        if !(skip_inline && contains_sub(literal, inline_marker()))
                            && !prev.contains((literal, res)) {
                            if j < prev.len() {
                                lemma_refs_unique(srcs.drop_last(), origin, skip_inline, i, j);
                            } else {
                                assert(cur[j] == (literal, res));
                                assert(cur[i] == prev[i]);
                                if prev[i] == (literal, res) {
                                    assert(prev.contains((literal, res)));
                                }
                            }
                        } else {
                            lemma_refs_unique(srcs.drop_last(), origin, skip_inline, i, j);
                        }
                    },
                    None => {
                        lemma_refs_unique(srcs.drop_last(), origin, skip_inline, i, j);
                    },
                }
            },
            None => {
                lemma_refs_unique(srcs.drop_last(), origin, skip_inline, i, j);
            },
        }
    }
}

} // verus!
