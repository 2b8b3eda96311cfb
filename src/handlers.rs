//! Which fragment answers which path, and the response that carries it.
use vstd::prelude::*;
use vstd::string::*;
use crate::fragment::{
    CONTENT_DELAY_MS, Fragment, HTML_TYPE, fragment_markup, path_of, render_fragment,
};

verus! {

/// The status, media type and body of an answer.
pub struct Response {
    pub status: u16,
    pub content_type: String,
    pub body: String,
}

/// The fragment that a path selects, if the path is one of the four.
pub open spec fn route_of(path: Seq<char>) -> Option<Fragment> {
    if path == path_of(Fragment::Entry) {
        Some(Fragment::Entry)
    } else if path == path_of(Fragment::LoadingIndicator) {
        Some(Fragment::LoadingIndicator)
    } else if path == path_of(Fragment::LoadedContent) {
        Some(Fragment::LoadedContent)
    } else if path == path_of(Fragment::ResetEntry) {
        Some(Fragment::ResetEntry)
    } else {
        None
    }
}

/// How long a fragment waits before it is answered, in milliseconds.
pub open spec fn delay_of(f: Fragment) -> u64 {
    if f == Fragment::LoadedContent {
        CONTENT_DELAY_MS
    } else {
        0
    }
}

/// The four paths are distinct.
pub proof fn lemma_paths_distinct(f: Fragment, g: Fragment)
    ensures
        path_of(f) == path_of(g) <==> f == g,
{
    reveal_strlit("/");
    reveal_strlit("/loadimg");
    reveal_strlit("/img");
    reveal_strlit("/default");
    if f != g {
        assert(path_of(f).len() != path_of(g).len() || path_of(f)[1] != path_of(g)[1]);
    }
}

/// Selects the fragment for a request path; `None` for any other path, which
/// is left to static files.
pub fn route(path: &str) -> (r: Option<Fragment>)
    ensures
        r == route_of(path@),
        forall|f: Fragment| #[trigger] path_of(f) == path@ <==> r == Some(f),
{
    proof {
        assert forall|f: Fragment, g: Fragment| path_of(f) == path_of(g) <==> f == g by {
            lemma_paths_distinct(f, g);
        }
    }
    let p = String::from_str(path);
    if p == String::from_str("/") {
        Some(Fragment::Entry)
    } else if p == String::from_str("/loadimg") {
        Some(Fragment::LoadingIndicator)
    } else if p == String::from_str("/img") {
        Some(Fragment::LoadedContent)
    } else if p == String::from_str("/default") {
        Some(Fragment::ResetEntry)
    } else {
        None
    }
}

/// The wait before a fragment's response is built: the content waits
/// `CONTENT_DELAY_MS`, the others not at all.
pub fn delay_ms(f: Fragment) -> (r: u64)
    ensures
        r == delay_of(f),
{
    match f {
        Fragment::LoadedContent => CONTENT_DELAY_MS,
        _ => 0,
    }
}

/// The successful response that carries a fragment.
pub fn respond(f: Fragment) -> (r: Response)
    ensures
        r.status == 200,
        r.content_type@ == HTML_TYPE@,
        r.body@ == fragment_markup(f),
{
    Response { status: 200, content_type: String::from_str(HTML_TYPE), body: render_fragment(f) }
}

/// The full page with the control that starts loading.
pub fn index() -> (r: Response)
    ensures
        r.status == 200,
        r.content_type@ == HTML_TYPE@,
        r.body@ == fragment_markup(Fragment::Entry),
{
    respond(Fragment::Entry)
}

/// The loading indicator, which fetches the content once attached.
pub fn loading_text() -> (r: Response)
    ensures
        r.status == 200,
        r.content_type@ == HTML_TYPE@,
        r.body@ == fragment_markup(Fragment::LoadingIndicator),
{
    respond(Fragment::LoadingIndicator)
}

/// The starting control again, without the page shell.
pub fn default_view() -> (r: Response)
    ensures
        r.status == 200,
        r.content_type@ == HTML_TYPE@,
        r.body@ == fragment_markup(Fragment::ResetEntry),
{
    respond(Fragment::ResetEntry)
}

/// The content with its reset control; the caller waits `delay_ms` of it first.
pub fn load_image() -> (r: Response)
    ensures
        r.status == 200,
        r.content_type@ == HTML_TYPE@,
        r.body@ == fragment_markup(Fragment::LoadedContent),
{
    respond(Fragment::LoadedContent)
}

} // verus!
