use iced_servo::actions::{
    advanced_renders_after, basic_renders_after, failure_page, image_fetch_target, page_after_fetch,
    plan_create_view, CreateViewPlan, Step,
};
use iced_servo::container::WebviewContainer;
use iced_servo::page_state::{
    at_least_one, css_cursor_to_interaction, cursor_to_interaction, display_url, id_selector,
    initial_page, layout_height, name_selector, plan_render, EngineCursor, Interaction, RenderStep,
    StagedImages,
};
use iced_servo::string_map::StringMap;
use iced_servo::weburl::{
    anchor_action, data_url_for_html, initial_load, load_target, report_url, resolve_url,
    AnchorAction,
};
use iced_servo::{is_same_page, PageType, ParsedUrl};

fn url(s: &str) -> ParsedUrl {
    match ParsedUrl::parse(s) {
        Ok(u) => u,
        Err(e) => panic!("{s} must parse: {e}"),
    }
}

#[test]
fn parse_normalises() {
    let u = url("https://Example.com:8443/a/b?x=1#frag");
    assert_eq!(u.as_str(), "https://example.com:8443/a/b?x=1#frag");
    assert_eq!(url("HTTP://A.com").to_string(), "http://a.com/");
    assert_eq!(url("https://a.com:443/").as_str(), "https://a.com/");
}

#[test]
fn parse_and_join_errors() {
    assert_eq!(ParsedUrl::parse("no scheme").err(), Some("relative URL without a base".to_string()));
    assert_eq!(ParsedUrl::parse("http://a:99999/").err(), Some("invalid port number".to_string()));
    let joined = resolve_url("../z", "https://a.com/x/y", "");
    assert_eq!(joined.map(|u| u.to_string()), Some("https://a.com/z".to_string()));
    match anchor_action("rel", "about:blank") {
        AnchorAction::Unresolved(e) => assert_eq!(e, "relative URL with a cannot-be-a-base base"),
        _ => panic!("expected an error"),
    }
}

#[test]
fn same_page_compares_hosts_by_value() {
    assert!(is_same_page(&url("http://127.0.0.1/p"), &url("http://127.0.0.1/p#a")));
    assert!(!is_same_page(&url("http://127.0.0.1/p"), &url("http://127.0.0.2/p")));
    assert!(is_same_page(&url("http://[::1]/"), &url("http://[0:0::1]/#x")));
    assert!(!is_same_page(&url("http://[::1]/"), &url("http://[::2]/")));
    assert!(!is_same_page(&url("http://1.2.3.4/"), &url("http://one.example/")));
}

#[test]
fn same_page_ignores_fragment_only() {
    assert!(is_same_page(&url("https://a.com/p?q#x"), &url("https://a.com/p?q#y")));
    assert!(is_same_page(&url("https://u@a.com/p"), &url("https://a.com/p")));
    assert!(!is_same_page(&url("https://a.com/p?q"), &url("https://a.com/p?r")));
    assert!(!is_same_page(&url("http://a.com/p"), &url("https://a.com/p")));
    assert!(!is_same_page(&url("https://a.com:1/p"), &url("https://a.com/p")));
    assert!(!is_same_page(&url("https://a.com/p"), &url("https://b.com/p")));
    let x = url("https://a.com/p#z");
    assert!(is_same_page(&x, &x));
}

#[test]
fn resolution_order() {
    let abs = resolve_url("https://x.org/i.png", "https://base/", "https://page/");
    assert_eq!(abs.map(|u| u.to_string()), Some("https://x.org/i.png".to_string()));
    let ctx = resolve_url("i.png", "https://css.org/s/style.css", "https://page.org/p");
    assert_eq!(ctx.map(|u| u.to_string()), Some("https://css.org/s/i.png".to_string()));
    let fallback = resolve_url("i.png", "", "https://page.org/p/q");
    assert_eq!(fallback.map(|u| u.to_string()), Some("https://page.org/p/i.png".to_string()));
    let bad_ctx = resolve_url("i.png", "not a url", "https://page.org/");
    assert_eq!(bad_ctx.map(|u| u.to_string()), Some("https://page.org/i.png".to_string()));
    assert!(resolve_url("i.png", "", "").is_none());
}

#[test]
fn anchor_decisions() {
    match anchor_action("#sec", "https://a.com/p") {
        AnchorAction::ScrollToFragment(f) => assert_eq!(f, "sec"),
        _ => panic!("expected a scroll"),
    }
    match anchor_action("/other", "https://a.com/p") {
        AnchorAction::Navigate(u) => assert_eq!(u.as_str(), "https://a.com/other"),
        _ => panic!("expected navigation"),
    }
    assert!(matches!(anchor_action("mailto:x@y.z", "https://a.com/p"), AnchorAction::Ignore));
    assert!(matches!(anchor_action("https://a.com/p", "https://a.com/p"), AnchorAction::Ignore));
    match anchor_action("rel", "") {
        AnchorAction::Unresolved(e) => assert_eq!(e, "relative URL without a base"),
        _ => panic!("expected an error"),
    }
    match anchor_action("rel", "about:blank") {
        AnchorAction::Unresolved(e) => assert_eq!(e, "relative URL with a cannot-be-a-base base"),
        _ => panic!("expected an error"),
    }
}

#[test]
fn percent_encoding_and_data_urls() {
    assert_eq!(data_url_for_html("a-b_c.d~e"), "data:text/html;charset=utf-8,a-b_c.d~e");
    assert_eq!(data_url_for_html("a b/é"), "data:text/html;charset=utf-8,a%20b%2F%C3%A9");
    assert_eq!(
        data_url_for_html("<p>hi</p>"),
        "data:text/html;charset=utf-8,%3Cp%3Ehi%3C%2Fp%3E"
    );
}

#[test]
fn initial_and_load_targets() {
    let (rec, target) = initial_load(&Some(PageType::Url("https://a.com/".to_string())));
    assert_eq!(rec, "https://a.com/");
    assert_eq!(target.map(|u| u.to_string()), Some("https://a.com/".to_string()));
    let (rec, target) = initial_load(&Some(PageType::Url("bad".to_string())));
    assert_eq!(rec, "bad");
    assert!(target.is_none());
    let (rec, target) = initial_load(&Some(PageType::Html("<b>x</b>".to_string())));
    assert_eq!(rec, "");
    assert_eq!(
        target.map(|u| u.to_string()),
        Some("data:text/html;charset=utf-8,%3Cb%3Ex%3C%2Fb%3E".to_string())
    );
    let (rec, target) = initial_load(&None);
    assert_eq!(rec, "");
    assert!(target.is_none());
    match load_target(PageType::Url("https://b.com/x".to_string())) {
        Some((Some(r), t)) => {
            assert_eq!(r, "https://b.com/x");
            assert_eq!(t.as_str(), "https://b.com/x");
        },
        _ => panic!("expected a load"),
    }
    assert!(load_target(PageType::Url("nope".to_string())).is_none());
    assert!(matches!(load_target(PageType::Html("x".to_string())), Some((None, _))));
}

#[test]
fn reported_urls() {
    assert_eq!(report_url(Some("https://live/".to_string()), "https://rec/"), "https://live/");
    assert_eq!(report_url(None, "https://rec/"), "https://rec/");
    assert_eq!(report_url(None, ""), "about:blank");
    assert_eq!(display_url(""), "about:blank");
    assert_eq!(display_url("https://x/"), "https://x/");
}

#[test]
fn failure_page_escapes() {
    assert_eq!(
        failure_page("https://a/?q=<x>", "boom & \"bust\""),
        "<html><body><h1>Failed to load</h1><p>https://a/?q=&lt;x&gt;</p><p>boom &amp; &quot;bust&quot;</p></body></html>"
    );
    let (cache, html) = page_after_fetch("u", Err("e".to_string()));
    assert!(cache.is_none());
    assert_eq!(html, "<html><body><h1>Failed to load</h1><p>u</p><p>e</p></body></html>");
    let mut m = StringMap::new();
    m.insert("k".to_string(), "v".to_string());
    let (cache, html) = page_after_fetch("u", Ok(("<p/>".to_string(), m)));
    assert_eq!(html, "<p/>");
    assert_eq!(cache.map(|c| c.len()), Some(1));
}

#[test]
fn image_targets_only_http() {
    let t = image_fetch_target("img/a.png", "", "https://site.org/dir/page");
    assert_eq!(t.map(|u| u.to_string()), Some("https://site.org/dir/img/a.png".to_string()));
    assert!(image_fetch_target("data:image/png;base64,AAAA", "", "https://site.org/").is_none());
    assert!(image_fetch_target("a.png", "", "about:blank").is_none());
    let t = image_fetch_target("b.png", "http://css.org/x/s.css", "https://site.org/");
    assert_eq!(t.map(|u| u.to_string()), Some("http://css.org/x/b.png".to_string()));
}

#[test]
fn create_view_plans() {
    assert!(matches!(
        plan_create_view(PageType::Url("u".to_string()), true),
        CreateViewPlan::Open(PageType::Url(u)) if u == "u"
    ));
    assert!(matches!(
        plan_create_view(PageType::Url("u".to_string()), false),
        CreateViewPlan::OpenAndFetch(u) if u == "u"
    ));
    assert!(matches!(
        plan_create_view(PageType::Html("h".to_string()), false),
        CreateViewPlan::Open(PageType::Html(h)) if h == "h"
    ));
}

#[test]
fn container_imports_from_cache() {
    let mut c = WebviewContainer::new(0u8);
    let mut cache = StringMap::new();
    cache.insert("https://a.com/css/site.css".to_string(), "body{}".to_string());
    c.set_css_cache(cache);
    assert_eq!(
        c.import_css("site.css", "https://a.com/css/main.css"),
        ("body{}".to_string(), Some("https://a.com/css/site.css".to_string()))
    );
    assert_eq!(c.import_css("other.css", "https://a.com/css/main.css"), (String::new(), None));
    // no base context: falls back to the page base URL
    assert_eq!(c.import_css("css/site.css", ""), (String::new(), None));
    c.set_base_url("https://a.com/");
    assert_eq!(
        c.import_css("css/site.css", ""),
        ("body{}".to_string(), Some("https://a.com/css/site.css".to_string()))
    );
    *c.inner_mut() = 7;
    assert_eq!(*c.inner(), 7);
}

#[test]
fn container_image_baseurls() {
    let mut c = WebviewContainer::new(());
    c.note_image_baseurl("a.png", "https://css/s.css");
    c.note_image_baseurl("b.png", "");
    assert_eq!(c.image_baseurl("a.png"), "https://css/s.css");
    assert_eq!(c.image_baseurl("b.png"), "");
    c.note_image_baseurl("a.png", "https://css/t.css");
    assert_eq!(c.image_baseurl("a.png"), "https://css/t.css");
    c.clear_image_baseurls();
    assert_eq!(c.image_baseurl("a.png"), "");
    assert!(c.resolve_against("x", "").is_none());
}

#[test]
fn staged_images_replace_by_source() {
    let mut s = StagedImages::new();
    assert!(s.is_empty());
    s.stage("a.png", &[1], false);
    s.stage("b.png", &[2], true);
    s.stage("a.png", &[3, 3], true);
    assert_eq!(s.len(), 2);
    let drained = s.drain();
    assert!(s.is_empty());
    assert_eq!(drained.len(), 2);
    assert_eq!(drained[0].url, "a.png");
    assert_eq!(drained[0].bytes, vec![3, 3]);
    assert!(drained[0].redraw_on_ready);
    assert_eq!(drained[1].url, "b.png");
    s.stage("c.png", &[], false);
    s.clear();
    assert!(s.is_empty());
}

#[test]
fn render_steps() {
    assert_eq!(plan_render(0, 10, false, true, true), RenderStep::Skip);
    assert_eq!(plan_render(10, 0, false, true, true), RenderStep::Skip);
    assert_eq!(plan_render(10, 10, true, true, true), RenderStep::Blank);
    assert_eq!(plan_render(10, 10, false, false, true), RenderStep::Rebuild);
    assert_eq!(plan_render(10, 10, false, true, true), RenderStep::FlushImages);
    assert_eq!(plan_render(10, 10, false, true, false), RenderStep::Redraw);
    assert_eq!(layout_height(600), 10_000);
    assert_eq!(layout_height(12_000), 12_000);
    assert_eq!(at_least_one(0), 1);
    assert_eq!(at_least_one(5), 5);
}

#[test]
fn initial_pages() {
    assert_eq!(initial_page(&Some(PageType::Html("<p>".to_string()))), ("<p>".to_string(), String::new()));
    assert_eq!(initial_page(&Some(PageType::Url("u".to_string()))), (String::new(), "u".to_string()));
    assert_eq!(initial_page(&None), (String::new(), String::new()));
}

#[test]
fn cursors() {
    assert_eq!(css_cursor_to_interaction("pointer"), Interaction::Pointer);
    assert_eq!(css_cursor_to_interaction("no-drop"), Interaction::NotAllowed);
    assert_eq!(css_cursor_to_interaction("ew-resize"), Interaction::ResizingHorizontally);
    assert_eq!(css_cursor_to_interaction("ns-resize"), Interaction::ResizingVertically);
    assert_eq!(css_cursor_to_interaction("Pointer"), Interaction::Idle);
    assert_eq!(css_cursor_to_interaction("auto"), Interaction::Idle);
    assert_eq!(cursor_to_interaction(EngineCursor::Cell), Interaction::Crosshair);
    assert_eq!(cursor_to_interaction(EngineCursor::AllScroll), Interaction::Grab);
    assert_eq!(cursor_to_interaction(EngineCursor::ZoomOut), Interaction::ZoomOut);
    assert_eq!(cursor_to_interaction(EngineCursor::Other), Interaction::Idle);
}

#[test]
fn selectors() {
    assert_eq!(name_selector("plain"), "[name=\"plain\"]");
    assert_eq!(name_selector("a\"b\\c"), "[name=\"a\\\"b\\\\c\"]");
    assert_eq!(id_selector("sec.1"), "#sec\\.1");
    assert_eq!(id_selector("1a b"), "#\\1a\\ b");
}

#[test]
fn query_and_fragment_split_at_the_first_marks() {
    // a '?' inside the fragment is no query
    assert!(is_same_page(&url("https://a.com/p#x?y"), &url("https://a.com/p")));
    assert!(!is_same_page(&url("https://a.com/p?y"), &url("https://a.com/p")));
    assert!(is_same_page(&url("https://a.com/p?q#f?g"), &url("https://a.com/p?q")));
    match anchor_action("#a?b#c", "https://a.com/p") {
        AnchorAction::ScrollToFragment(f) => assert_eq!(f, "a?b#c"),
        _ => panic!("expected a scroll"),
    }
    assert!(matches!(anchor_action("ftp://a.com/p", "https://a.com/p"), AnchorAction::Ignore));
}

#[test]
fn render_requests_after_actions() {
    assert!(basic_renders_after(Step::GoToUrl, true));
    assert!(basic_renders_after(Step::CloseCurrentView, true));
    assert!(!basic_renders_after(Step::SendMouseEvent, true));
    assert!(!basic_renders_after(Step::Update, true));
    assert!(!basic_renders_after(Step::Resize, false));
    assert!(basic_renders_after(Step::Resize, true));
    assert!(!basic_renders_after(Step::FetchComplete, false));
    assert!(advanced_renders_after(Step::Refresh, true));
    assert!(advanced_renders_after(Step::FetchComplete, true));
    assert!(!advanced_renders_after(Step::FetchComplete, false));
    assert!(!advanced_renders_after(Step::CloseView, true));
    assert!(!advanced_renders_after(Step::Resize, true));
}
