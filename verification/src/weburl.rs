//! URLs as the web view reads them: parsing and joining through the `url`
//! crate, and the decisions taken on parsed URLs (same-page checks, link
//! resolution, fetchable schemes, `data:` URLs for inline HTML).

use vstd::prelude::*;

use crate::page::PageType;
use crate::text::{find_from, push_str};
use vstd::string::StringExecFns;

verus! {

broadcast use vstd::string::group_string_axioms;

#[verifier::external_type_specification]
#[verifier::external_body]
pub struct ExUrl(url::Url);

// ---------------------------------------------------------------------
// What the `url` crate computes
// ---------------------------------------------------------------------

/// The host of a URL as the web view compares it.
pub enum HostView {
    Domain(Seq<char>),
    Ipv4(u32),
    Ipv6(u128),
}

/// `url::Url::parse(input)`: the serialization of the parsed URL, or the
/// text of the parse error.
pub uninterp spec fn url_parse(input: Seq<char>) -> Result<Seq<char>, Seq<char>>;

/// `base.join(input)` for the URL `base` whose serialization is given: the
/// serialization of the result, or the text of the parse error.
pub uninterp spec fn url_join(base: Seq<char>, input: Seq<char>) -> Result<Seq<char>, Seq<char>>;

/// `Url::scheme` of the URL with the given serialization: the text before
/// the first `:` (a scheme holds no `:`, and the serialization puts one
/// right after it).
pub open spec fn url_scheme(url: Seq<char>) -> Seq<char> {
    match find_from(url, seq![':'], 0) {
        Some(i) => url.subrange(0, i),
        None => url,
    }
}

/// `Url::host` of the URL with the given serialization.
pub uninterp spec fn url_host(url: Seq<char>) -> Option<HostView>;

/// `Url::port` of the URL with the given serialization.
pub uninterp spec fn url_port(url: Seq<char>) -> Option<u16>;

/// `Url::path` of the URL with the given serialization.
pub uninterp spec fn url_path(url: Seq<char>) -> Seq<char>;

/// Where the fragment of a serialized URL starts (its `#`), or the end.
pub open spec fn fragment_mark(url: Seq<char>) -> int {
    match find_from(url, seq!['#'], 0) {
        Some(h) => h,
        None => url.len() as int,
    }
}

/// `Url::query` of the URL with the given serialization: the text between
/// the first `?` and the fragment's `#` (or the end), when that `?` comes
/// before the fragment. Scheme, user information, host and path hold no
/// unencoded `?` or `#`, and a query holds no `#`.
pub open spec fn url_query(url: Seq<char>) -> Option<Seq<char>> {
    let end = fragment_mark(url);
    match find_from(url.subrange(0, end), seq!['?'], 0) {
        Some(q) => Some(url.subrange(q + 1, end)),
        None => None,
    }
}

/// `Url::fragment` of the URL with the given serialization: the text after
/// the first `#`, when there is one (no component before the fragment holds
/// an unencoded `#`).
pub open spec fn url_fragment(url: Seq<char>) -> Option<Seq<char>> {
    match find_from(url, seq!['#'], 0) {
        Some(h) => Some(url.subrange(h + 1, url.len() as int)),
        None => None,
    }
}

/// The view of a parse or join outcome.
pub open spec fn outcome_view(r: Result<ParsedUrl, String>) -> Result<Seq<char>, Seq<char>> {
    match r {
        Ok(u) => Ok(u@),
        Err(e) => Err(e@),
    }
}

/// The view of an optional string.
pub open spec fn opt_view(o: Option<String>) -> Option<Seq<char>> {
    match o {
        Some(s) => Some(s@),
        None => None,
    }
}

// ---------------------------------------------------------------------
// The library's URL type
// ---------------------------------------------------------------------

/// The host of a parsed URL.
pub enum UrlHost {
    /// A DNS domain name (or an opaque host).
    Domain(String),
    /// An IPv4 address, as its 32-bit value.
    Ipv4(u32),
    /// An IPv6 address, as its 128-bit value.
    Ipv6(u128),
}

impl UrlHost {
    pub open spec fn view(&self) -> HostView {
        match self {
            UrlHost::Domain(d) => HostView::Domain(d@),
            UrlHost::Ipv4(a) => HostView::Ipv4(*a),
            UrlHost::Ipv6(a) => HostView::Ipv6(*a),
        }
    }
}

/// The view of an optional host.
pub open spec fn host_view(h: Option<UrlHost>) -> Option<HostView> {
    match h {
        Some(h) => Some(h.view()),
        None => None,
    }
}

/// An absolute URL, parsed by the `url` crate. Its view is its
/// serialization.
pub struct ParsedUrl {
    href: String,
    url: url::Url,
}

impl View for ParsedUrl {
    type V = Seq<char>;

    closed spec fn view(&self) -> Seq<char> {
        self.href@
    }
}

impl ParsedUrl {
    /// Parses an absolute URL; an error carries the text of the parse error.
    pub fn parse(input: &str) -> (r: Result<ParsedUrl, String>)
        ensures
            outcome_view(r) == url_parse(input@),
    {
        Self::parse_absolute(input)
    }

    /// `url::Url::parse`: the parsed URL and its serialization, or the text
    /// of the `url::ParseError`.
    #[verifier::external_body]
    fn parse_absolute(input: &str) -> (r: Result<ParsedUrl, String>)
        ensures
            outcome_view(r) == url_parse(input@),
    {
        match url::Url::parse(input) {
            Ok(u) => Ok(ParsedUrl { href: u.as_str().to_string(), url: u }),
            Err(e) => Err(e.to_string()),
        }
    }

    /// Resolves `input` against this URL (`url::Url::join`).
    #[verifier::external_body]
    pub(crate) fn join(&self, input: &str) -> (r: Result<ParsedUrl, String>)
        ensures
            outcome_view(r) == url_join(self@, input@),
    {
        match self.url.join(input) {
            Ok(u) => Ok(ParsedUrl { href: u.as_str().to_string(), url: u }),
            Err(e) => Err(e.to_string()),
        }
    }

    /// The serialization (`Url::as_str`, which is also its `to_string`).
    pub fn as_str(&self) -> (r: &str)
        ensures
            r@ == self@,
    {
        self.href.as_str()
    }

    /// The serialization as an owned string.
    pub fn to_string(&self) -> (r: String)
        ensures
            r@ == self@,
    {
        self.href.clone()
    }

    /// `Url::scheme`: the serialization's text before its first `:`.
    #[verifier::external_body]
    pub(crate) fn scheme(&self) -> (r: String)
        ensures
            r@ == url_scheme(self@),
    {
        self.url.scheme().to_string()
    }

    /// The host (`Url::host`).
    #[verifier::external_body]
    pub(crate) fn host(&self) -> (r: Option<UrlHost>)
        ensures
            host_view(r) == url_host(self@),
    {
        match self.url.host() {
            None => None,
            Some(url::Host::Domain(d)) => Some(UrlHost::Domain(d.to_string())),
            Some(url::Host::Ipv4(a)) => Some(UrlHost::Ipv4(a.into())),
            Some(url::Host::Ipv6(a)) => Some(UrlHost::Ipv6(a.into())),
        }
    }

    /// The port, `None` for the scheme's default (`Url::port`).
    #[verifier::external_body]
    pub(crate) fn port(&self) -> (r: Option<u16>)
        ensures
            r == url_port(self@),
    {
        self.url.port()
    }

    /// The path (`Url::path`).
    #[verifier::external_body]
    pub(crate) fn path(&self) -> (r: String)
        ensures
            r@ == url_path(self@),
    {
        self.url.path().to_string()
    }

    /// `Url::query`: the text after the first `?` up to the fragment, when
    /// that `?` precedes the fragment.
    #[verifier::external_body]
    pub(crate) fn query(&self) -> (r: Option<String>)
        ensures
            opt_view(r) == url_query(self@),
    {
        self.url.query().map(str::to_string)
    }

    /// `Url::fragment`: the text after the first `#`, if any.
    #[verifier::external_body]
    pub(crate) fn fragment(&self) -> (r: Option<String>)
        ensures
            opt_view(r) == url_fragment(self@),
    {
        self.url.fragment().map(str::to_string)
    }
}

/// The text of `url::ParseError::RelativeUrlWithoutBase`.
#[verifier::external_body]
pub(crate) fn relative_url_without_base() -> (r: String)
    ensures
        r@ == "relative URL without a base"@,
{
    url::ParseError::RelativeUrlWithoutBase.to_string()
}

// ---------------------------------------------------------------------
// Decisions on URLs
// ---------------------------------------------------------------------

/// Two URLs refer to the same page: they agree on everything but the
/// fragment (and the user information).
pub open spec fn same_page(a: Seq<char>, b: Seq<char>) -> bool {
    &&& url_scheme(a) == url_scheme(b)
    &&& url_host(a) == url_host(b)
    &&& url_port(a) == url_port(b)
    &&& url_path(a) == url_path(b)
    &&& url_query(a) == url_query(b)
}

fn string_eq(a: &String, b: &String) -> (r: bool)
    ensures
        r == (a@ == b@),
{
    *a == *b
}

fn opt_string_eq(a: &Option<String>, b: &Option<String>) -> (r: bool)
    ensures
        r == (opt_view(*a) == opt_view(*b)),
{
    match (a, b) {
        (Some(x), Some(y)) => string_eq(x, y),
        (None, None) => true,
        _ => false,
    }
}

fn host_eq(a: &Option<UrlHost>, b: &Option<UrlHost>) -> (r: bool)
    ensures
        r == (host_view(*a) == host_view(*b)),
{
    match (a, b) {
        (None, None) => true,
        (Some(UrlHost::Domain(x)), Some(UrlHost::Domain(y))) => string_eq(x, y),
        (Some(UrlHost::Ipv4(x)), Some(UrlHost::Ipv4(y))) => *x == *y,
        (Some(UrlHost::Ipv6(x)), Some(UrlHost::Ipv6(y))) => *x == *y,
        _ => false,
    }
}

/// Check if two URLs refer to the same page (ignoring fragment).
pub fn is_same_page(a: &ParsedUrl, b: &ParsedUrl) -> (r: bool)
    ensures
        r == same_page(a@, b@),
{
    string_eq(&a.scheme(), &b.scheme()) && host_eq(&a.host(), &b.host()) && a.port() == b.port()
        && string_eq(&a.path(), &b.path()) && opt_string_eq(&a.query(), &b.query())
}

/// The schemes whose resources the web view fetches and navigates to.
pub open spec fn is_http_scheme(s: Seq<char>) -> bool {
    s == "http"@ || s == "https"@
}

/// Whether `scheme` is `http` or `https`.
pub fn is_http(scheme: &str) -> (r: bool)
    ensures
        r == is_http_scheme(scheme@),
{
    let http = String::from_str("http");
    let https = String::from_str("https");
    let s = String::from_str(scheme);
    string_eq(&s, &http) || string_eq(&s, &https)
}

/// The URL that `href` denotes: `href` itself when it is absolute, else
/// `href` resolved against `baseurl` (when non-empty and parseable), else
/// against `fallback` (when non-empty and parseable).
pub open spec fn resolved(href: Seq<char>, baseurl: Seq<char>, fallback: Seq<char>) -> Option<
    Seq<char>,
> {
    if url_parse(href) is Ok {
        Some(url_parse(href)->Ok_0)
    } else if baseurl.len() > 0 && url_parse(baseurl) is Ok && url_join(
        url_parse(baseurl)->Ok_0,
        href,
    ) is Ok {
        Some(url_join(url_parse(baseurl)->Ok_0, href)->Ok_0)
    } else if fallback.len() > 0 && url_parse(fallback) is Ok && url_join(
        url_parse(fallback)->Ok_0,
        href,
    ) is Ok {
        Some(url_join(url_parse(fallback)->Ok_0, href)->Ok_0)
    } else {
        None
    }
}

/// The view of an optional URL.
pub open spec fn opt_url_view(o: Option<ParsedUrl>) -> Option<Seq<char>> {
    match o {
        Some(u) => Some(u@),
        None => None,
    }
}

/// Resolve a URL against a given base context, falling back to a second
/// base (the page URL).
pub fn resolve_url(href: &str, baseurl: &str, fallback: &str) -> (r: Option<ParsedUrl>)
    ensures
        opt_url_view(r) == resolved(href@, baseurl@, fallback@),
{
    // Already absolute
    if let Ok(u) = ParsedUrl::parse(href) {
        return Some(u);
    }
    // Resolve against the provided base context (e.g. stylesheet URL)
    if !baseurl.is_empty() {
        if let Ok(base) = ParsedUrl::parse(baseurl) {
            if let Ok(u) = base.join(href) {
                return Some(u);
            }
        }
    }
    // Fall back to the page base URL
    if !fallback.is_empty() {
        if let Ok(base) = ParsedUrl::parse(fallback) {
            if let Ok(u) = base.join(href) {
                return Some(u);
            }
        }
    }
    None
}

/// What following a clicked link means for the view showing `current`.
pub enum AnchorAction {
    /// The link points into the current page: scroll to this fragment.
    ScrollToFragment(String),
    /// The link points to another http(s) page: navigate there.
    Navigate(ParsedUrl),
    /// Nothing to do (another scheme, or a same-page link without fragment).
    Ignore,
    /// The link could not be resolved; the text of the parse error.
    Unresolved(String),
}

/// The URL a link `href` clicked on the page `current` resolves to: `href`
/// when absolute, else joined onto `current` when that parses.
pub open spec fn link_target(href: Seq<char>, current: Seq<char>) -> Result<Seq<char>, Seq<char>> {
    if url_parse(href) is Ok {
        url_parse(href)
    } else if url_parse(current) is Ok {
        url_join(url_parse(current)->Ok_0, href)
    } else {
        Err("relative URL without a base"@)
    }
}

/// The action for a click on the link `href` in the page `current`.
pub open spec fn anchor_spec(href: Seq<char>, current: Seq<char>) -> AnchorActionView {
    match link_target(href, current) {
        Err(e) => AnchorActionView::Unresolved(e),
        Ok(t) => if !is_http_scheme(url_scheme(t)) {
            AnchorActionView::Ignore
        } else if url_parse(current) is Ok && same_page(t, url_parse(current)->Ok_0) {
            match url_fragment(t) {
                Some(f) => AnchorActionView::ScrollToFragment(f),
                None => AnchorActionView::Ignore,
            }
        } else {
            AnchorActionView::Navigate(t)
        },
    }
}

/// The view of an [`AnchorAction`].
pub enum AnchorActionView {
    ScrollToFragment(Seq<char>),
    Navigate(Seq<char>),
    Ignore,
    Unresolved(Seq<char>),
}

impl AnchorAction {
    pub open spec fn view(&self) -> AnchorActionView {
        match self {
            AnchorAction::ScrollToFragment(f) => AnchorActionView::ScrollToFragment(f@),
            AnchorAction::Navigate(u) => AnchorActionView::Navigate(u@),
            AnchorAction::Ignore => AnchorActionView::Ignore,
            AnchorAction::Unresolved(e) => AnchorActionView::Unresolved(e@),
        }
    }
}

/// Decide what a click on a link `href` does in a view currently showing
/// `current`: scroll within the page, navigate (http and https only), or
/// nothing.
pub fn anchor_action(href: &str, current: &str) -> (r: AnchorAction)
    ensures
        r.view() == anchor_spec(href@, current@),
{
    let base = ParsedUrl::parse(current);
    let target = match ParsedUrl::parse(href) {
        Ok(u) => Ok(u),
        Err(_) => match &base {
            Ok(b) => b.join(href),
            Err(_) => Err(relative_url_without_base()),
        },
    };
    match target {
        Err(e) => AnchorAction::Unresolved(e),
        Ok(t) => {
            let scheme = t.scheme();
            if !is_http(scheme.as_str()) {
                return AnchorAction::Ignore;
            }
            let same = match &base {
                Ok(cur) => is_same_page(&t, cur),
                Err(_) => false,
            };
            if same {
                match t.fragment() {
                    Some(f) => AnchorAction::ScrollToFragment(f),
                    None => AnchorAction::Ignore,
                }
            } else {
                AnchorAction::Navigate(t)
            }
        },
    }
}

// ---------------------------------------------------------------------
// Percent-encoding (`urlencoding::encode`)
// ---------------------------------------------------------------------

/// Bytes that `urlencoding` leaves as they are.
pub open spec fn is_unreserved(b: u8) -> bool {
    ||| 48 <= b && b <= 57
    ||| 65 <= b && b <= 90
    ||| 97 <= b && b <= 122
    ||| b == 45 || b == 46 || b == 95 || b == 126
}

/// An upper-case hexadecimal digit for `d < 16`.
pub open spec fn hex_upper(d: u8) -> char {
    if d < 10 {
        ((48 + d) as u32) as char
    } else {
        ((55 + d) as u32) as char
    }
}

/// The encoding of one byte.
pub open spec fn encode_byte(b: u8) -> Seq<char> {
    if is_unreserved(b) {
        seq![(b as u32) as char]
    } else {
        seq!['%', hex_upper(b / 16), hex_upper(b % 16)]
    }
}

/// Percent-encoding of every byte except alphanumerics and `-`, `_`, `.`,
/// `~`, with upper-case hex digits.
pub open spec fn percent_encoded(bytes: Seq<u8>) -> Seq<char>
    decreases bytes.len(),
{
    if bytes.len() == 0 {
        Seq::empty()
    } else {
        percent_encoded(bytes.drop_last()) + encode_byte(bytes.last())
    }
}

/// `urlencoding::encode`: percent-encodes the UTF-8 bytes of `s`.
#[verifier::external_body]
pub(crate) fn url_encode(s: &str) -> (r: String)
    ensures
        r@ == percent_encoded(vstd::utf8::encode_utf8(s@)),
{
    urlencoding::encode(s).into_owned()
}

/// The `data:` URL under which an engine that only loads URLs shows `html`.
pub open spec fn html_data_url(html: Seq<char>) -> Seq<char> {
    "data:text/html;charset=utf-8,"@ + percent_encoded(vstd::utf8::encode_utf8(html))
}

/// Builds the `data:` URL for inline HTML.
pub fn data_url_for_html(html: &str) -> (r: String)
    ensures
        r@ == html_data_url(html@),
{
    let mut r = String::from_str("data:text/html;charset=utf-8,");
    let enc = url_encode(html);
    push_str(&mut r, enc.as_str());
    r
}

/// Where a view backed by a URL-loading engine starts: the URL it reports
/// until the engine knows better, and the URL to load (if any).
pub fn initial_load(content: &Option<PageType>) -> (r: (String, Option<ParsedUrl>))
    ensures
        match content {
            Some(PageType::Url(u)) => r.0@ == u@ && match url_parse(u@) {
                Ok(p) => opt_url_view(r.1) == Some(p),
                Err(_) => r.1 is None,
            },
            Some(PageType::Html(h)) => r.0@.len() == 0 && match url_parse(html_data_url(h@)) {
                Ok(p) => opt_url_view(r.1) == Some(p),
                Err(_) => r.1 is None,
            },
            None => r.0@.len() == 0 && r.1 is None,
        },
{
    match content {
        Some(PageType::Url(u)) => (u.clone(), ParsedUrl::parse(u.as_str()).ok()),
        Some(PageType::Html(h)) => {
            let data = data_url_for_html(h.as_str());
            (String::new(), ParsedUrl::parse(data.as_str()).ok())
        },
        None => (String::new(), None),
    }
}

/// The URL a view reports: the engine's current URL when it has one, else
/// the one recorded for the view, else `about:blank`.
pub open spec fn reported_url(live: Option<Seq<char>>, recorded: Seq<char>) -> Seq<char> {
    match live {
        Some(u) => u,
        None => if recorded.len() == 0 {
            "about:blank"@
        } else {
            recorded
        },
    }
}

/// The URL to report for a view.
pub fn report_url(live: Option<String>, recorded: &str) -> (r: String)
    ensures
        r@ == reported_url(opt_view(live), recorded@),
{
    match live {
        Some(u) => u,
        None => if recorded.is_empty() {
            String::from_str("about:blank")
        } else {
            String::from_str(recorded)
        },
    }
}

/// What navigating a URL-loading engine's view to `page` loads: for a URL,
/// that URL (which the view also records as its own), for inline HTML its
/// `data:` URL; nothing when it does not parse.
pub fn load_target(page: PageType) -> (r: Option<(Option<String>, ParsedUrl)>)
    ensures
        match page {
            PageType::Url(u) => match url_parse(u@) {
                Ok(p) => r matches Some((Some(rec), t)) && rec@ == u@ && t@ == p,
                Err(_) => r is None,
            },
            PageType::Html(h) => match url_parse(html_data_url(h@)) {
                Ok(p) => r matches Some((None, t)) && t@ == p,
                Err(_) => r is None,
            },
        },
{
    match page {
        PageType::Url(u) => match ParsedUrl::parse(u.as_str()) {
            Ok(parsed) => Some((Some(u), parsed)),
            Err(_) => None,
        },
        PageType::Html(h) => {
            let data = data_url_for_html(h.as_str());
            match ParsedUrl::parse(data.as_str()) {
                Ok(parsed) => Some((None, parsed)),
                Err(_) => None,
            }
        },
    }
}

} // verus!
