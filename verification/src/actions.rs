//! Decisions shared by both web view widgets: how a view is created, what
//! a finished page fetch puts on screen, and which discovered images are
//! fetched.

use vstd::prelude::*;

use crate::page::PageType;
use crate::string_map::StringMap;
use crate::text::push_str;
use crate::util::{html_escape, html_escaped};
use crate::weburl::{is_http, is_http_scheme, opt_url_view, resolve_url, resolved, url_scheme, ParsedUrl};

verus! {

broadcast use vstd::string::group_string_axioms;

/// How a requested view is created.
pub enum CreateViewPlan {
    /// Create the view showing this content.
    Open(PageType),
    /// The engine cannot load URLs: create a blank view, point it at this
    /// URL, and fetch the page for it.
    OpenAndFetch(String),
}

/// The plan for `CreateView(page)` on an engine that does (or does not)
/// load URLs itself.
pub open spec fn create_plan(page: PageType, engine_handles_urls: bool) -> CreateViewPlan {
    match page {
        PageType::Url(u) => if engine_handles_urls {
            CreateViewPlan::Open(PageType::Url(u))
        } else {
            CreateViewPlan::OpenAndFetch(u)
        },
        PageType::Html(h) => CreateViewPlan::Open(PageType::Html(h)),
    }
}

/// Decide how to create a view for `page`.
pub fn plan_create_view(page: PageType, engine_handles_urls: bool) -> (r: CreateViewPlan)
    ensures
        r == create_plan(page, engine_handles_urls),
{
    match page {
        PageType::Url(u) => if engine_handles_urls {
            CreateViewPlan::Open(PageType::Url(u))
        } else {
            CreateViewPlan::OpenAndFetch(u)
        },
        PageType::Html(h) => CreateViewPlan::Open(PageType::Html(h)),
    }
}

/// The error page shown when fetching `url` failed with `error`.
pub open spec fn failure_html(url: Seq<char>, error: Seq<char>) -> Seq<char> {
    "<html><body><h1>Failed to load</h1><p>"@ + html_escaped(url) + "</p><p>"@ + html_escaped(
        error,
    ) + "</p></body></html>"@
}

/// Builds the error page for a failed fetch of `url`.
pub fn failure_page(url: &str, error: &str) -> (r: String)
    ensures
        r@ == failure_html(url@, error@),
{
    let mut r = String::new();
    push_str(&mut r, "<html><body><h1>Failed to load</h1><p>");
    let u = html_escape(url);
    push_str(&mut r, u.as_str());
    push_str(&mut r, "</p><p>");
    let e = html_escape(error);
    push_str(&mut r, e.as_str());
    push_str(&mut r, "</p></body></html>");
    assert(r@ =~= failure_html(url@, error@));
    r
}

/// What a finished page fetch of `url` puts into a view: the stylesheet
/// cache to install (on success) and the HTML to show.
pub fn page_after_fetch(url: &str, result: Result<(String, StringMap), String>) -> (r: (
    Option<StringMap>,
    String,
))
    ensures
        match result {
            Ok((html, cache)) => r.1@ == html@ && (r.0 matches Some(c) && c@ == cache@),
            Err(e) => r.1@ == failure_html(url@, e@) && r.0 is None,
        },
{
    match result {
        Ok((html, cache)) => (Some(cache), html),
        Err(e) => (None, failure_page(url, e.as_str())),
    }
}

/// The URL an image discovered during layout is fetched from: `src`
/// resolved against its base URL, falling back to the page URL, when that
/// is an http or https URL.
pub open spec fn image_target(src: Seq<char>, baseurl: Seq<char>, page_url: Seq<char>) -> Option<
    Seq<char>,
> {
    match resolved(src, baseurl, page_url) {
        Some(u) => if is_http_scheme(url_scheme(u)) {
            Some(u)
        } else {
            None
        },
        None => None,
    }
}

/// Where to fetch a discovered image from, if anywhere.
pub fn image_fetch_target(src: &str, baseurl: &str, page_url: &str) -> (r: Option<ParsedUrl>)
    ensures
        opt_url_view(r) == image_target(src@, baseurl@, page_url@),
{
    match resolve_url(src, baseurl, page_url) {
        Some(u) => {
            let scheme = u.scheme();
            if is_http(scheme.as_str()) {
                Some(u)
            } else {
                None
            }
        },
        None => None,
    }
}

/// The kind of an action handed to a web view widget (its payload left out).
#[derive(Clone, Copy, Debug, PartialEq, Eq, Structural)]
pub enum Step {
    ChangeView,
    CloseCurrentView,
    CloseView,
    CreateView,
    GoBackward,
    GoForward,
    GoToUrl,
    Refresh,
    SendKeyboardEvent,
    SendMouseEvent,
    Update,
    UpdateAll,
    Resize,
    CopySelection,
    FetchComplete,
    ImageFetchComplete,
    SetScaleFactor,
}

/// Whether the basic widget asks the engine to render its current view
/// after handling `step`. `took_effect` tells, for `Resize`, whether the
/// size changed and, for `FetchComplete`, whether the view still exists.
/// Mouse events, copying and image arrivals wait for the next `Update`,
/// which renders by itself.
pub open spec fn basic_render_after(step: Step, took_effect: bool) -> bool {
    match step {
        Step::SendMouseEvent | Step::Update | Step::UpdateAll | Step::CopySelection
        | Step::ImageFetchComplete => false,
        Step::Resize | Step::FetchComplete => took_effect,
        _ => true,
    }
}

/// Decides whether the basic widget renders its current view after `step`.
pub fn basic_renders_after(step: Step, took_effect: bool) -> (r: bool)
    ensures
        r == basic_render_after(step, took_effect),
{
    match step {
        Step::SendMouseEvent | Step::Update | Step::UpdateAll | Step::CopySelection
        | Step::ImageFetchComplete => false,
        Step::Resize | Step::FetchComplete => took_effect,
        _ => true,
    }
}

/// Whether the advanced widget asks the engine to render the view an
/// action names, after handling `step`: after history moves, navigation,
/// refreshes, key presses and (when the view still exists) a finished page
/// fetch. The update actions render by themselves; the others wait for them.
pub open spec fn advanced_render_after(step: Step, took_effect: bool) -> bool {
    match step {
        Step::GoBackward | Step::GoForward | Step::GoToUrl | Step::Refresh
        | Step::SendKeyboardEvent => true,
        Step::FetchComplete => took_effect,
        _ => false,
    }
}

/// Decides whether the advanced widget renders the named view after `step`.
pub fn advanced_renders_after(step: Step, took_effect: bool) -> (r: bool)
    ensures
        r == advanced_render_after(step, took_effect),
{
    match step {
        Step::GoBackward | Step::GoForward | Step::GoToUrl | Step::Refresh
        | Step::SendKeyboardEvent => true,
        Step::FetchComplete => took_effect,
        _ => false,
    }
}

} // verus!
