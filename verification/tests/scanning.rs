use iced_servo::fetch::{
    store_stylesheet,
    accept_css_body, accept_image_body, accept_page_body, cap_stylesheets, check_image_length,
    check_page_length, css_imports_in_bounds, css_size_ok, may_follow_imports, page_stylesheets,
    should_fetch_css, too_large_message, MAX_CSS_SIZE, MAX_IMAGE_SIZE, MAX_PAGE_SIZE,
    MAX_STYLESHEETS,
};
use iced_servo::string_map::StringMap;
use iced_servo::{extract_attr, extract_css_imports, extract_stylesheet_links, extract_url_value, html_escape, ParsedUrl};

fn base() -> ParsedUrl {
    match ParsedUrl::parse("https://example.com/dir/page.html") {
        Ok(u) => u,
        Err(e) => panic!("base URL must parse: {e}"),
    }
}

#[test]
fn escape_replaces_markup_characters() {
    assert_eq!(
        html_escape("<a href=\"x\">Tom & Jerry</a>"),
        "&lt;a href=&quot;x&quot;&gt;Tom &amp; Jerry&lt;/a&gt;"
    );
    assert_eq!(html_escape("plain 'text'"), "plain 'text'");
    assert_eq!(html_escape(""), "");
}

#[test]
fn escape_leaves_no_markup() {
    let out = html_escape("<<>>\"\"&&<script>");
    assert!(!out.contains('<') && !out.contains('>') && !out.contains('"'));
}

#[test]
fn attr_quoted_and_bare() {
    assert_eq!(extract_attr("<link rel=\"stylesheet\" href=\"a.css\">", "href"), Some("a.css".to_string()));
    assert_eq!(extract_attr("<link HREF='b.css' rel=stylesheet>", "href"), Some("b.css".to_string()));
    assert_eq!(extract_attr("<link href=c.css rel=stylesheet>", "href"), Some("c.css".to_string()));
    assert_eq!(extract_attr("<link href=d.css/>", "href"), Some("d.css/".to_string()));
    assert_eq!(extract_attr("<link href=e.css>", "href"), Some("e.css".to_string()));
    assert_eq!(extract_attr("<link href=", "href"), Some(String::new()));
}

#[test]
fn attr_missing_or_unterminated() {
    assert_eq!(extract_attr("<link rel=\"stylesheet\">", "href"), None);
    assert_eq!(extract_attr("<link href=\"never-closed>", "href"), None);
    // the needle is not lower-cased, only the tag
    assert_eq!(extract_attr("<link href=\"a.css\">", "HREF"), None);
}

#[test]
fn url_value_forms() {
    assert_eq!(extract_url_value("  \"x.css\") screen"), Some("x.css".to_string()));
    assert_eq!(extract_url_value("'y.css')"), Some("y.css".to_string()));
    assert_eq!(extract_url_value(" z.css )"), Some("z.css".to_string()));
    assert_eq!(extract_url_value("no-close"), None);
    assert_eq!(extract_url_value("\"open"), None);
    assert_eq!(extract_url_value(")"), Some(String::new()));
}

#[test]
fn stylesheet_links_resolved_in_order() {
    let html = "<html><head>\
        <link rel=\"stylesheet\" href=\"a.css\">\
        <link rel=\"icon\" href=\"favicon.ico\">\
        <LINK REL=STYLESHEET HREF=root.css>\
        <link rel=\"stylesheet\" href=\"https://cdn.example.org/c.css\">\
        </head></html>";
    let links = extract_stylesheet_links(html, &base());
    let got: Vec<&str> = links.iter().map(|u| u.as_str()).collect();
    assert_eq!(
        got,
        vec![
            "https://example.com/dir/a.css",
            "https://example.com/dir/root.css",
            "https://cdn.example.org/c.css"
        ]
    );
}

#[test]
fn bare_href_runs_to_whitespace_or_tag_end() {
    assert_eq!(extract_attr("<link rel=stylesheet href=/css/a.css>", "href"), Some("/css/a.css".to_string()));
    assert_eq!(extract_attr("<link href=/root.css rel=x>", "href"), Some("/root.css".to_string()));
    let links = extract_stylesheet_links("<link rel=stylesheet href=/root.css>", &base());
    assert_eq!(links.len(), 1);
    assert_eq!(links[0].as_str(), "https://example.com/root.css");
}

#[test]
fn attribute_names_match_whole() {
    assert_eq!(extract_attr("<link data-href='x' href='y'>", "href"), Some("y".to_string()));
    assert_eq!(extract_attr("<link data-href='x'>", "href"), None);
    assert_eq!(extract_attr("<link\thref=z>", "href"), Some("z".to_string()));
    assert_eq!(extract_attr("href=q", "href"), None);
    // an attribute may follow a quoted value or '/' directly
    assert_eq!(extract_attr("<link rel=\"stylesheet\"href=\"a.css\">", "href"), Some("a.css".to_string()));
    assert_eq!(extract_attr("<link rel='x'href=b.css>", "href"), Some("b.css".to_string()));
    assert_eq!(extract_attr("<link/href=c.css>", "href"), Some("c.css".to_string()));
    let glued = extract_stylesheet_links("<link rel=\"stylesheet\"href=\"g.css\">", &base());
    assert_eq!(glued.len(), 1);
    assert_eq!(glued[0].as_str(), "https://example.com/dir/g.css");
    let links = extract_stylesheet_links("<link rel=stylesheet xhref=a.css href=b.css>", &base());
    assert_eq!(links.len(), 1);
    assert_eq!(links[0].as_str(), "https://example.com/dir/b.css");
}

#[test]
fn stylesheet_link_without_closing_bracket_ends_scan() {
    let links = extract_stylesheet_links("<link rel=stylesheet href=a.css", &base());
    assert!(links.is_empty());
}

#[test]
fn css_imports_all_forms() {
    let css = "@import url(\"a.css\");\n@import 'b.css';\n@IMPORT url( c.css );\n@import nothing;";
    assert!(css_imports_in_bounds(css));
    let imports = extract_css_imports(css, &base());
    let got: Vec<&str> = imports.iter().map(|u| u.as_str()).collect();
    assert_eq!(
        got,
        vec![
            "https://example.com/dir/a.css",
            "https://example.com/dir/b.css",
            "https://example.com/dir/c.css"
        ]
    );
}

#[test]
fn css_import_scan_bounds() {
    assert!(css_imports_in_bounds(""));
    assert!(css_imports_in_bounds("body { color: red }"));
    assert!(!css_imports_in_bounds("@import"));
    assert!(!css_imports_in_bounds("@import   "));
    assert!(!css_imports_in_bounds("@import\u{e9}.css"));
}

#[test]
fn size_messages_exact() {
    assert_eq!(too_large_message("page", 12, 10), "page too large: 12 bytes exceeds 10 byte limit");
    assert_eq!(
        check_page_length(Some(MAX_PAGE_SIZE + 1)),
        Err("page too large: 10485761 bytes exceeds 10485760 byte limit".to_string())
    );
    assert_eq!(check_page_length(Some(MAX_PAGE_SIZE)), Ok(()));
    assert_eq!(check_page_length(None), Ok(()));
    assert_eq!(
        check_image_length(Some(u64::MAX)),
        Err("image too large: 18446744073709551615 bytes exceeds 10485760 byte limit".to_string())
    );
    assert!(css_size_ok(Some(MAX_CSS_SIZE)));
    assert!(!css_size_ok(Some(MAX_CSS_SIZE + 1)));
    assert!(css_size_ok(None));
}

#[test]
fn bodies_decoded_or_refused() {
    assert_eq!(accept_page_body(b"<p>hi</p>"), Ok("<p>hi</p>".to_string()));
    assert_eq!(accept_page_body(&[b'a', 0xff, b'b']), Ok("a\u{fffd}b".to_string()));
    let big = vec![0u8; (MAX_IMAGE_SIZE + 1) as usize];
    assert_eq!(
        accept_image_body(big),
        Err("image too large: 10485761 bytes exceeds 10485760 byte limit".to_string())
    );
    assert_eq!(accept_image_body(vec![1, 2, 3]), Ok(vec![1, 2, 3]));
    let css = vec![b' '; (MAX_CSS_SIZE + 1) as usize];
    assert_eq!(accept_css_body(&css), None);
    assert_eq!(accept_css_body(b"a{}"), Some("a{}".to_string()));
    let page = vec![b'x'; (MAX_PAGE_SIZE + 1) as usize];
    assert_eq!(
        accept_page_body(&page),
        Err("page too large: 10485761 bytes exceeds 10485760 byte limit".to_string())
    );
}

#[test]
fn stylesheets_capped() {
    let mut html = String::new();
    for i in 0..60 {
        html.push_str(&format!("<link rel=stylesheet href=s{i}.css>"));
    }
    let links = page_stylesheets(&html, &base());
    assert_eq!(links.len(), MAX_STYLESHEETS);
    assert_eq!(links[49].as_str(), "https://example.com/dir/s49.css");
    let few = cap_stylesheets(extract_stylesheet_links("<link rel=stylesheet href=x.css>", &base()));
    assert_eq!(few.len(), 1);
}

#[test]
fn css_crawl_decisions() {
    let mut cache = StringMap::new();
    assert!(should_fetch_css(&cache, "https://a/x.css", 0));
    assert!(should_fetch_css(&cache, "https://a/x.css", 3));
    assert!(!should_fetch_css(&cache, "https://a/x.css", 4));
    cache.insert("https://a/x.css".to_string(), "body{}".to_string());
    assert!(!should_fetch_css(&cache, "https://a/x.css", 0));
    assert!(may_follow_imports(&cache));
    for i in 0..49 {
        cache.insert(format!("https://a/{i}.css"), String::new());
    }
    assert_eq!(cache.len(), 50);
    assert!(!may_follow_imports(&cache));
}

fn unescape(t: &str) -> String {
    t.replace("&lt;", "<").replace("&gt;", ">").replace("&quot;", "\"").replace("&amp;", "&")
}

#[test]
fn unescaping_gives_the_text_back() {
    for s in ["", "plain", "<a href=\"x\">T & J</a>", "&amp;lt;", "&", ";", "&quot;;", "a&b<c>d\"e"] {
        assert_eq!(unescape(&html_escape(s)), s);
    }
}

#[test]
fn crawl_step_stores_and_returns_imports() {
    let mut cache = StringMap::new();
    let sheet = base();
    let imports = store_stylesheet(&mut cache, "k1".to_string(), "@import 'x.css'; a{}".to_string(), &sheet);
    assert_eq!(imports.len(), 1);
    assert_eq!(imports[0].as_str(), "https://example.com/dir/x.css");
    let none = store_stylesheet(&mut cache, "k2".to_string(), "b{}".to_string(), &sheet);
    assert!(none.is_empty());
    assert_eq!(cache.len(), 2);
    assert_eq!(cache.get("k1"), Some(&"@import 'x.css'; a{}".to_string()));
    assert_eq!(cache.get("k2"), Some(&"b{}".to_string()));
}
