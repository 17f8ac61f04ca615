//! The computing side of page fetching for engines that cannot load URLs
//! themselves: scanning HTML for stylesheet links and CSS for `@import`
//! rules, size limits on fetched bodies, and the stylesheet cache crawl.
//! The network transfers themselves are done by the caller.

use vstd::prelude::*;

use crate::string_map::StringMap;
use crate::text::{
    ascii_lower, chars_of, contains_seq, find_char, find_chars, find_from, is_space, is_whitespace,
    leading_space, lemma_find_from, matches_at, lemma_trim_start_suffix, lower_chars, occurs_at, starts_with,
    string_of, trailing_space, trim, trim_start, decimal, push_decimal, push_str,
};
use crate::weburl::{ParsedUrl, url_join};

verus! {

broadcast use vstd::string::group_string_axioms;

/// Max response size for the main page (10 MB).
pub const MAX_PAGE_SIZE: u64 = 10 * 1024 * 1024;

/// Max response size for a single image (10 MB).
pub const MAX_IMAGE_SIZE: u64 = 10 * 1024 * 1024;

/// Max response size for a single stylesheet (5 MB).
pub const MAX_CSS_SIZE: u64 = 5 * 1024 * 1024;

/// Max number of external stylesheets to fetch.
pub const MAX_STYLESHEETS: usize = 50;

/// Max depth for @import chains to prevent infinite loops.
pub const MAX_IMPORT_DEPTH: usize = 3;

// ---------------------------------------------------------------------
// Specifications of the scanners
// ---------------------------------------------------------------------

/// A quote character that may delimit an attribute or URL value.
pub open spec fn is_quote(c: char) -> bool {
    c == '"' || c == '\''
}

/// A character that ends an unquoted attribute value.
pub open spec fn ends_bare_value(c: char) -> bool {
    is_space(c) || c == '>'
}

/// The first position at or after `i` holding a character that ends an
/// unquoted attribute value, or the length of `s`.
pub open spec fn bare_end(s: Seq<char>, i: int) -> int
    decreases s.len() - i,
{
    if i < 0 || i >= s.len() {
        s.len() as int
    } else if ends_bare_value(s[i]) {
        i
    } else {
        bare_end(s, i + 1)
    }
}

/// A character after which an attribute name may begin: whitespace, the
/// closing quote of the previous value, or `/`.
pub open spec fn precedes_attribute(c: char) -> bool {
    is_space(c) || is_quote(c) || c == '/'
}

/// The first position at or after `i` where `needle` occurs in `lower` (the
/// lower-cased `tag`) right after a character of `tag` that may precede an
/// attribute name: the start of an attribute whose name and `=` are
/// `needle`.
pub open spec fn attr_start(tag: Seq<char>, lower: Seq<char>, needle: Seq<char>, i: int) -> Option<
    int,
>
    decreases lower.len() + 1 - i,
{
    if i < 0 {
        None
    } else {
        match find_from(lower, needle, i) {
            None => None,
            Some(j) => {
                proof {
                    lemma_find_from(lower, needle, i);
                }
                if j > 0 && j - 1 < tag.len() && precedes_attribute(tag[j - 1]) {
                    Some(j)
                } else if j + 1 <= lower.len() + 1 {
                    attr_start(tag, lower, needle, j + 1)
                } else {
                    None
                }
            },
        }
    }
}

/// The value of the attribute `name` in the HTML tag text `tag`: the first
/// `name=` (compared case-insensitively for a lower-case `name`) that begins
/// an attribute, i.e. follows whitespace, a quote or `/`, then a quoted value up to the
/// matching quote, or a bare value up to whitespace or `>`.
pub open spec fn attr_value(tag: Seq<char>, name: Seq<char>) -> Option<Seq<char>> {
    let needle = name.push('=');
    match attr_start(tag, ascii_lower(tag), needle, 0) {
        None => None,
        Some(idx) => {
            let k = idx + needle.len();
            if k < tag.len() && is_quote(tag[k]) {
                match find_from(tag, seq![tag[k]], k + 1) {
                    Some(e) => Some(tag.subrange(k + 1, e)),
                    None => None,
                }
            } else {
                Some(tag.subrange(k, bare_end(tag, k)))
            }
        },
    }
}

/// The URL inside `url(...)`, given the text after `url(`: a quoted value
/// up to the matching quote, or everything up to `)` with surrounding
/// whitespace removed.
pub open spec fn url_value(s: Seq<char>) -> Option<Seq<char>> {
    let w = s.len() - trim_start(s).len();
    if w < s.len() && is_quote(s[w]) {
        match find_from(s, seq![s[w]], w + 1) {
            Some(e) => Some(s.subrange(w + 1, e)),
            None => None,
        }
    } else {
        match find_from(s, seq![')'], w) {
            Some(e) => Some(trim(s.subrange(w, e))),
            None => None,
        }
    }
}

/// The stylesheet URLs (serialized) that the `<link>` tags of `html` from
/// position `pos` on name with `rel=stylesheet` (any tag text containing
/// `stylesheet`), resolved against `base`; unresolvable ones are skipped.
pub open spec fn link_scan(html: Seq<char>, base: Seq<char>, pos: int) -> Seq<Seq<char>>
    decreases html.len() + 1 - pos,
{
    let lower = ascii_lower(html);
    if pos < 0 {
        Seq::empty()
    } else {
        match find_from(lower, "<link"@, pos) {
            None => Seq::empty(),
            Some(start) => match find_from(lower, seq!['>'], start) {
                None => Seq::empty(),
                Some(gt) => {
                    proof {
                        lemma_find_from(lower, "<link"@, pos);
                        lemma_find_from(lower, seq!['>'], start);
                    }
                    let end = gt + 1;
                    let rest = link_scan(html, base, end);
                    if !contains_seq(lower.subrange(start, end), "stylesheet"@) {
                        rest
                    } else {
                        match attr_value(html.subrange(start, end), "href"@) {
                            None => rest,
                            Some(href) => match url_join(base, href) {
                                Ok(u) => seq![u] + rest,
                                Err(_) => rest,
                            },
                        }
                    }
                },
            },
        }
    }
}

/// The target of an `@import` whose text after the keyword and whitespace is
/// `t`: `url(...)` or a quoted string.
pub open spec fn import_target(t: Seq<char>) -> Option<Seq<char>> {
    if starts_with(t, "url("@) {
        url_value(t.subrange("url("@.len() as int, t.len() as int))
    } else if t.len() > 0 && is_quote(t[0]) {
        match find_from(t, seq![t[0]], 1) {
            Some(e) => Some(t.subrange(1, e)),
            None => None,
        }
    } else {
        None
    }
}

/// The position of the first non-whitespace character of `css` at or after
/// `start` (or the length of `css`).
pub open spec fn skip_space(css: Seq<char>, start: int) -> int {
    css.len() - trim_start(css.subrange(start, css.len() as int)).len()
}

/// The `@import` URLs (serialized) of `css` from position `pos` on, resolved
/// against `base`; the keyword is matched case-insensitively and the scan
/// resumes one character after the import target begins.
pub open spec fn import_scan(css: Seq<char>, base: Seq<char>, pos: int) -> Seq<Seq<char>>
    decreases css.len() + 1 - pos,
{
    let lower = ascii_lower(css);
    if pos < 0 {
        Seq::empty()
    } else {
        match find_from(lower, "@import"@, pos) {
            None => Seq::empty(),
            Some(at) => {
                proof {
                    lemma_find_from(lower, "@import"@, pos);
                    lemma_trim_start_suffix(css.subrange(at + "@import"@.len(), css.len() as int));
                }
                let after_ws = skip_space(css, at + "@import"@.len());
                let rest = import_scan(css, base, after_ws + 1);
                match import_target(css.subrange(after_ws, css.len() as int)) {
                    None => rest,
                    Some(href) => match url_join(base, href) {
                        Ok(u) => seq![u] + rest,
                        Err(_) => rest,
                    },
                }
            },
        }
    }
}

/// The `@import` scan of `css` from `pos` never resumes inside a character
/// that takes more than one byte, nor past the end: the byte-indexed scan
/// stays on character boundaries.
pub open spec fn import_scan_in_bounds(css: Seq<char>, pos: int) -> bool
    decreases css.len() + 1 - pos,
{
    let lower = ascii_lower(css);
    if pos < 0 {
        true
    } else {
        match find_from(lower, "@import"@, pos) {
            None => true,
            Some(at) => {
                proof {
                    lemma_find_from(lower, "@import"@, pos);
                    lemma_trim_start_suffix(css.subrange(at + "@import"@.len(), css.len() as int));
                }
                let after_ws = skip_space(css, at + "@import"@.len());
                &&& after_ws < css.len()
                &&& (css[after_ws] as u32) < 128
                &&& import_scan_in_bounds(css, after_ws + 1)
            },
        }
    }
}

// ---------------------------------------------------------------------
// Lemmas
// ---------------------------------------------------------------------

/// Searching a tail of `s` is searching `s` from the tail's start.
pub proof fn lemma_find_tail(s: Seq<char>, p: Seq<char>, a: int, j: int)
    requires
        0 <= a <= s.len(),
        0 <= j,
    ensures
        find_from(s.subrange(a, s.len() as int), p, j) == match find_from(s, p, a + j) {
            Some(i) => Some(i - a),
            None => None::<int>,
        },
    decreases s.len() + 1 - (a + j),
{
    let t = s.subrange(a, s.len() as int);
    if j + p.len() > t.len() {
    } else {
        if occurs_at(t, p, j) {
            assert(t.subrange(j, j + p.len()) =~= s.subrange(a + j, a + j + p.len()));
        } else {
            assert(t.subrange(j, j + p.len()) =~= s.subrange(a + j, a + j + p.len()));
            lemma_find_tail(s, p, a, j + 1);
        }
    }
}

// ---------------------------------------------------------------------
// Executable scanners
// ---------------------------------------------------------------------

/// `v[a..b]` as a new vector.
fn copy_range(v: &Vec<char>, a: usize, b: usize) -> (r: Vec<char>)
    requires
        a <= b <= v.len(),
    ensures
        r@ == v@.subrange(a as int, b as int),
{
    let mut r: Vec<char> = Vec::new();
    let mut i = a;
    while i < b
        invariant
            a <= i <= b <= v.len(),
            r@ == v@.subrange(a as int, i as int),
        decreases b - i,
    {
        r.push(v[i]);
        i = i + 1;
        assert(r@ =~= v@.subrange(a as int, i as int));
    }
    r
}

/// The first position at or after `i` that ends an unquoted value.
fn bare_end_at(v: &Vec<char>, i: usize) -> (r: usize)
    requires
        i <= v.len(),
    ensures
        r == bare_end(v@, i as int),
{
    let mut j = i;
    while j < v.len()
        invariant
            i <= j <= v.len(),
            bare_end(v@, i as int) == bare_end(v@, j as int),
        decreases v.len() - j,
    {
        let c = v[j];
        if is_whitespace(c) || c == '>' {
            return j;
        }
        j = j + 1;
    }
    j
}

/// [`attr_start`] from position 0, computed.
fn attr_position(tag: &Vec<char>, lower: &Vec<char>, needle: &Vec<char>) -> (r: Option<usize>)
    requires
        lower@.len() == tag@.len(),
        needle@.len() > 0,
    ensures
        match r {
            Some(j) => attr_start(tag@, lower@, needle@, 0) == Some(j as int),
            None => attr_start(tag@, lower@, needle@, 0) is None,
        },
{
    let mut from: usize = 0;
    while from <= lower.len()
        invariant
            lower@.len() == tag@.len(),
            needle@.len() > 0,
            attr_start(tag@, lower@, needle@, 0) == attr_start(tag@, lower@, needle@, from as int),
        decreases lower.len() + 1 - from,
    {
        match find_chars(lower, needle, from) {
            None => return None,
            Some(j) => {
                proof {
                    lemma_find_from(lower@, needle@, from as int);
                }
                if j > 0 {
                    let before = tag[j - 1];
                    if is_whitespace(before) || before == '"' || before == '\'' || before == '/' {
                        return Some(j);
                    }
                }
                from = j + 1;
            },
        }
    }
    None
}

/// [`attr_value`] on a tag held as characters.
fn attr_value_chars(tag: &Vec<char>, name: &str) -> (r: Option<String>)
    ensures
        crate::weburl::opt_view(r) == attr_value(tag@, name@),
{
    let lower = lower_chars(tag);
    let mut needle = chars_of(name);
    needle.push('=');
    assert(needle@ == name@.push('='));
    let idx = match attr_position(tag, &lower, &needle) {
        Some(i) => i,
        None => return None,
    };
    proof {
        lemma_attr_start(tag@, lower@, needle@, 0);
        assert(lower@.len() == tag@.len());
        assert(idx + needle@.len() <= tag@.len());
        assert(tag@.len() == tag.len());
        assert(needle@.len() == needle.len());
    }
    let k = idx + needle.len();
    if k < tag.len() && (tag[k] == '"' || tag[k] == '\'') {
        match find_char(tag, tag[k], k + 1) {
            Some(e) => {
                proof {
                    lemma_find_from(tag@, seq![tag@[k as int]], k + 1);
                }
                Some(string_of(tag, k + 1, e))
            },
            None => None,
        }
    } else {
        let e = bare_end_at(tag, k);
        proof {
            lemma_bare_end(tag@, k as int);
        }
        Some(string_of(tag, k, e))
    }
}

/// A position found by `attr_start` is an occurrence of the needle.
proof fn lemma_attr_start(tag: Seq<char>, lower: Seq<char>, needle: Seq<char>, i: int)
    requires
        0 <= i,
    ensures
        attr_start(tag, lower, needle, i) matches Some(j) ==> i <= j && occurs_at(lower, needle, j),
    decreases lower.len() + 1 - i,
{
    lemma_find_from(lower, needle, i);
    if let Some(j) = find_from(lower, needle, i) {
        if !(j > 0 && j - 1 < tag.len() && precedes_attribute(tag[j - 1])) && j + 1 <= lower.len()
            + 1 {
            lemma_attr_start(tag, lower, needle, j + 1);
        }
    }
}

/// `bare_end` stays within the text.
proof fn lemma_bare_end(s: Seq<char>, i: int)
    requires
        0 <= i <= s.len(),
    ensures
        i <= bare_end(s, i) <= s.len(),
    decreases s.len() - i,
{
    if i < s.len() && !ends_bare_value(s[i]) {
        lemma_bare_end(s, i + 1);
    }
}

/// Pull the value of a named attribute out of a single HTML tag string.
pub fn extract_attr(tag: &str, name: &str) -> (r: Option<String>)
    ensures
        crate::weburl::opt_view(r) == attr_value(tag@, name@),
{
    let v = chars_of(tag);
    attr_value_chars(&v, name)
}

/// [`url_value`] of the tail `v[a..]`.
fn url_value_at(v: &Vec<char>, a: usize) -> (r: Option<String>)
    requires
        a <= v.len(),
    ensures
        crate::weburl::opt_view(r) == url_value(v@.subrange(a as int, v@.len() as int)),
{
    let ghost s = v@.subrange(a as int, v@.len() as int);
    let n = leading_space(v, a);
    let w = a + n;
    proof {
        lemma_trim_start_suffix(s);
        assert(trim_start(s) == v@.subrange(w as int, v@.len() as int));
        assert(s.len() - trim_start(s).len() == n);
    }
    if w < v.len() && (v[w] == '"' || v[w] == '\'') {
        proof {
            assert(s[n as int] == v@[w as int]);
            lemma_find_tail(v@, seq![v@[w as int]], a as int, n + 1);
        }
        match find_char(v, v[w], w + 1) {
            Some(e) => {
                proof {
                    lemma_find_from(v@, seq![v@[w as int]], w + 1);
                    assert(s.subrange(n + 1, e - a) =~= v@.subrange(w + 1, e as int));
                }
                Some(string_of(v, w + 1, e))
            },
            None => None,
        }
    } else {
        proof {
            if w < v.len() {
                assert(s[n as int] == v@[w as int]);
            }
            lemma_find_tail(v@, seq![')'], a as int, n as int);
        }
        match find_char(v, ')', w) {
            Some(e) => {
                proof {
                    lemma_find_from(v@, seq![')'], w as int);
                }
                let m = trailing_space(v, w, e);
                proof {
                    assert(s.subrange(n as int, e - a) =~= v@.subrange(w as int, e as int));
                    if e > w {
                        assert(trim_start(s)[0] == v@[w as int]);
                    }
                    lemma_trim_start_fixed(v@.subrange(w as int, e as int));
                }
                Some(string_of(v, w, e - m))
            },
            None => None,
        }
    }
}

/// A text that starts with a non-space is its own `trim_start`.
proof fn lemma_trim_start_fixed(s: Seq<char>)
    requires
        s.len() == 0 || !is_space(s[0]),
    ensures
        trim_start(s) == s,
{
}

/// Extract a URL value from inside `url(...)`.
pub fn extract_url_value(s: &str) -> (r: Option<String>)
    ensures
        crate::weburl::opt_view(r) == url_value(s@),
{
    let v = chars_of(s);
    assert(v@.subrange(0, v@.len() as int) =~= v@);
    url_value_at(&v, 0)
}

/// The serializations of a list of URLs.
pub open spec fn url_views(v: Seq<ParsedUrl>) -> Seq<Seq<char>> {
    v.map_values(|u: ParsedUrl| u@)
}

/// Scan HTML for `<link rel="stylesheet" href="...">` tags.
/// Returns resolved URLs.
pub fn extract_stylesheet_links(html: &str, base: &ParsedUrl) -> (r: Vec<ParsedUrl>)
    ensures
        url_views(r@) == link_scan(html@, base@, 0),
{
    let v = chars_of(html);
    let lower = lower_chars(&v);
    let link = chars_of("<link");
    let marker = chars_of("stylesheet");
    let mut results: Vec<ParsedUrl> = Vec::new();
    let mut pos: usize = 0;
    proof {
        assert(lower@.len() == v@.len());
    }
    loop
        invariant
            v@ == html@,
            lower@ == ascii_lower(html@),
            lower@.len() == v@.len(),
            link@ == "<link"@,
            marker@ == "stylesheet"@,
            pos <= v.len(),
            url_views(results@) + link_scan(html@, base@, pos as int) == link_scan(html@, base@, 0),
        ensures
            url_views(results@) == link_scan(html@, base@, 0),
        decreases v.len() + 1 - pos,
    {
        let start = match find_chars(&lower, &link, pos) {
            Some(s) => s,
            None => {
                assert(url_views(results@) =~= url_views(results@) + link_scan(html@, base@, pos as int));
                break;
            },
        };
        proof {
            lemma_find_from(lower@, link@, pos as int);
        }
        let gt = match find_char(&lower, '>', start) {
            Some(g) => g,
            None => {
                assert(url_views(results@) =~= url_views(results@) + link_scan(html@, base@, pos as int));
                break;
            },
        };
        proof {
            lemma_find_from(lower@, seq!['>'], start as int);
        }
        let end = gt + 1;
        let ghost before = url_views(results@);
        let tag_lower = copy_range(&lower, start, end);
        if find_chars(&tag_lower, &marker, 0).is_some() {
            let tag = copy_range(&v, start, end);
            match attr_value_chars(&tag, "href") {
                Some(href) => match base.join(href.as_str()) {
                    Ok(u) => {
                        results.push(u);
                        assert(url_views(results@) =~= before.push(u@));
                        assert(before + link_scan(html@, base@, pos as int) =~= url_views(results@)
                            + link_scan(html@, base@, end as int));
                    },
                    Err(_) => {},
                },
                None => {},
            }
        }
        pos = end;
    }
    results
}

/// The target of an `@import` whose keyword and whitespace end at `w`.
fn import_target_at(v: &Vec<char>, w: usize) -> (r: Option<String>)
    requires
        w <= v.len(),
    ensures
        crate::weburl::opt_view(r) == import_target(v@.subrange(w as int, v@.len() as int)),
{
    let ghost t = v@.subrange(w as int, v@.len() as int);
    let url_open = chars_of("url(");
    if matches_at(v, &url_open, w) {
        proof {
            assert(t.subrange(0, url_open@.len() as int) =~= v@.subrange(w as int, w + url_open@.len()));
            assert(t.subrange(url_open@.len() as int, t.len() as int) =~= v@.subrange(
                w + url_open@.len(),
                v@.len() as int,
            ));
        }
        url_value_at(v, w + url_open.len())
    } else {
        proof {
            if url_open@.len() <= t.len() {
                assert(t.subrange(0, url_open@.len() as int) =~= v@.subrange(w as int, w + url_open@.len()));
            }
        }
        if w < v.len() && (v[w] == '"' || v[w] == '\'') {
            proof {
                assert(t[0] == v@[w as int]);
                lemma_find_tail(v@, seq![v@[w as int]], w as int, 1);
            }
            match find_char(v, v[w], w + 1) {
                Some(e) => {
                    proof {
                        lemma_find_from(v@, seq![v@[w as int]], w + 1);
                        assert(t.subrange(1, e - w) =~= v@.subrange(w + 1, e as int));
                    }
                    Some(string_of(v, w + 1, e))
                },
                None => None,
            }
        } else {
            proof {
                if w < v.len() {
                    assert(t[0] == v@[w as int]);
                }
            }
            None
        }
    }
}

/// Scan CSS text for `@import url(...)` or `@import "..."` directives.
/// Returns resolved URLs.
pub fn extract_css_imports(css: &str, base: &ParsedUrl) -> (r: Vec<ParsedUrl>)
    requires
        import_scan_in_bounds(css@, 0),
    ensures
        url_views(r@) == import_scan(css@, base@, 0),
{
    let v = chars_of(css);
    let lower = lower_chars(&v);
    let keyword = chars_of("@import");
    let mut results: Vec<ParsedUrl> = Vec::new();
    let mut pos: usize = 0;
    loop
        invariant
            v@ == css@,
            lower@ == ascii_lower(css@),
            lower@.len() == v@.len(),
            keyword@ == "@import"@,
            pos <= v.len(),
            import_scan_in_bounds(css@, pos as int),
            url_views(results@) + import_scan(css@, base@, pos as int) == import_scan(css@, base@, 0),
        ensures
            url_views(results@) == import_scan(css@, base@, 0),
        decreases v.len() + 1 - pos,
    {
        let at = match find_chars(&lower, &keyword, pos) {
            Some(a) => a,
            None => {
                assert(url_views(results@) =~= url_views(results@) + import_scan(css@, base@, pos as int));
                break;
            },
        };
        proof {
            lemma_find_from(lower@, keyword@, pos as int);
        }
        let start = at + keyword.len();
        let n = leading_space(&v, start);
        let after_ws = start + n;
        proof {
            lemma_trim_start_suffix(v@.subrange(start as int, v@.len() as int));
            assert(skip_space(css@, start as int) == after_ws);
        }
        let ghost before = url_views(results@);
        match import_target_at(&v, after_ws) {
            Some(href) => match base.join(href.as_str()) {
                Ok(u) => {
                    results.push(u);
                    assert(url_views(results@) =~= before.push(u@));
                    assert(before + import_scan(css@, base@, pos as int) =~= url_views(results@)
                        + import_scan(css@, base@, after_ws + 1));
                },
                Err(_) => {},
            },
            None => {},
        }
        pos = after_ws + 1;
    }
    results
}

/// Whether [`extract_css_imports`] may scan `css`: every `@import` target
/// starts at a one-byte character before the end of the text.
pub fn css_imports_in_bounds(css: &str) -> (r: bool)
    ensures
        r == import_scan_in_bounds(css@, 0),
{
    let v = chars_of(css);
    let lower = lower_chars(&v);
    let keyword = chars_of("@import");
    let mut pos: usize = 0;
    loop
        invariant
            v@ == css@,
            lower@ == ascii_lower(css@),
            lower@.len() == v@.len(),
            keyword@ == "@import"@,
            pos <= v.len(),
            import_scan_in_bounds(css@, pos as int) == import_scan_in_bounds(css@, 0),
        decreases v.len() + 1 - pos,
    {
        let at = match find_chars(&lower, &keyword, pos) {
            Some(a) => a,
            None => return true,
        };
        proof {
            lemma_find_from(lower@, keyword@, pos as int);
        }
        let start = at + keyword.len();
        let n = leading_space(&v, start);
        let after_ws = start + n;
        proof {
            lemma_trim_start_suffix(v@.subrange(start as int, v@.len() as int));
            assert(skip_space(css@, start as int) == after_ws);
        }
        if after_ws >= v.len() {
            return false;
        }
        let c: u32 = v[after_ws] as u32;
        if c >= 128 {
            return false;
        }
        pos = after_ws + 1;
    }
}

// ---------------------------------------------------------------------
// Size limits and decoding of fetched bodies
// ---------------------------------------------------------------------

/// The message for a `kind` ("page", "image") response of `len` bytes over
/// `limit`.
pub open spec fn too_large(kind: Seq<char>, len: nat, limit: nat) -> Seq<char> {
    kind + " too large: "@ + decimal(len) + " bytes exceeds "@ + decimal(limit) + " byte limit"@
}

/// Builds the message for an oversized response.
pub fn too_large_message(kind: &str, len: u64, limit: u64) -> (r: String)
    ensures
        r@ == too_large(kind@, len as nat, limit as nat),
{
    let mut r = String::new();
    push_str(&mut r, kind);
    push_str(&mut r, " too large: ");
    push_decimal(&mut r, len);
    push_str(&mut r, " bytes exceeds ");
    push_decimal(&mut r, limit);
    push_str(&mut r, " byte limit");
    assert(r@ =~= too_large(kind@, len as nat, limit as nat));
    r
}

/// Checks a declared (`Content-Length`) or received size against `limit`:
/// an error message exactly when the size is known and over the limit.
pub fn check_size(kind: &str, len: Option<u64>, limit: u64) -> (r: Result<(), String>)
    ensures
        match len {
            Some(n) if n > limit => r matches Err(e) && e@ == too_large(kind@, n as nat, limit as nat),
            _ => r is Ok,
        },
{
    match len {
        Some(n) => if n > limit {
            Err(too_large_message(kind, n, limit))
        } else {
            Ok(())
        },
        None => Ok(()),
    }
}

/// Check of a page response's declared length (`MAX_PAGE_SIZE`).
pub fn check_page_length(len: Option<u64>) -> (r: Result<(), String>)
    ensures
        match len {
            Some(n) if n > MAX_PAGE_SIZE => r matches Err(e) && e@ == too_large(
                "page"@,
                n as nat,
                MAX_PAGE_SIZE as nat,
            ),
            _ => r is Ok,
        },
{
    check_size("page", len, MAX_PAGE_SIZE)
}

/// Check of an image response's declared length (`MAX_IMAGE_SIZE`).
pub fn check_image_length(len: Option<u64>) -> (r: Result<(), String>)
    ensures
        match len {
            Some(n) if n > MAX_IMAGE_SIZE => r matches Err(e) && e@ == too_large(
                "image"@,
                n as nat,
                MAX_IMAGE_SIZE as nat,
            ),
            _ => r is Ok,
        },
{
    check_size("image", len, MAX_IMAGE_SIZE)
}

/// Whether a stylesheet of the given declared or received length is
/// accepted (`MAX_CSS_SIZE`).
pub fn css_size_ok(len: Option<u64>) -> (r: bool)
    ensures
        r == match len {
            Some(n) => n <= MAX_CSS_SIZE,
            None => true,
        },
{
    match len {
        Some(n) => n <= MAX_CSS_SIZE,
        None => true,
    }
}

/// `String::from_utf8_lossy(bytes)`: the text of `bytes`, with each invalid
/// sequence replaced by U+FFFD.
pub uninterp spec fn utf8_lossy(bytes: Seq<u8>) -> Seq<char>;

/// Decodes bytes as UTF-8, replacing invalid sequences
/// (`String::from_utf8_lossy`); valid UTF-8 is decoded as it is.
#[verifier::external_body]
pub(crate) fn decode_lossy(bytes: &[u8]) -> (r: String)
    ensures
        r@ == utf8_lossy(bytes@),
        vstd::utf8::valid_utf8(bytes@) ==> r@ == vstd::utf8::decode_utf8(bytes@),
{
    String::from_utf8_lossy(bytes).into_owned()
}

/// Accepts a fetched page body: its text, or the size error.
pub fn accept_page_body(body: &[u8]) -> (r: Result<String, String>)
    ensures
        body@.len() > MAX_PAGE_SIZE ==> (r matches Err(e) && e@ == too_large(
            "page"@,
            body@.len(),
            MAX_PAGE_SIZE as nat,
        )),
        body@.len() <= MAX_PAGE_SIZE ==> (r matches Ok(t) && t@ == utf8_lossy(body@)),
{
    let n = body.len();
    if n as u64 > MAX_PAGE_SIZE {
        return Err(too_large_message("page", n as u64, MAX_PAGE_SIZE));
    }
    Ok(decode_lossy(body))
}

/// Accepts a fetched image body: its bytes, or the size error.
pub fn accept_image_body(body: Vec<u8>) -> (r: Result<Vec<u8>, String>)
    ensures
        body@.len() > MAX_IMAGE_SIZE ==> (r matches Err(e) && e@ == too_large(
            "image"@,
            body@.len(),
            MAX_IMAGE_SIZE as nat,
        )),
        body@.len() <= MAX_IMAGE_SIZE ==> (r matches Ok(b) && b@ == body@),
{
    let n = body.len();
    if n as u64 > MAX_IMAGE_SIZE {
        return Err(too_large_message("image", n as u64, MAX_IMAGE_SIZE));
    }
    Ok(body)
}

/// Accepts a fetched stylesheet body: its text, or nothing when too large.
pub fn accept_css_body(body: &[u8]) -> (r: Option<String>)
    ensures
        body@.len() > MAX_CSS_SIZE ==> r is None,
        body@.len() <= MAX_CSS_SIZE ==> (r matches Some(t) && t@ == utf8_lossy(body@)),
{
    let n = body.len();
    if n as u64 > MAX_CSS_SIZE {
        return None;
    }
    Some(decode_lossy(body))
}

/// At most the first `MAX_STYLESHEETS` of `links`.
pub fn cap_stylesheets(links: Vec<ParsedUrl>) -> (r: Vec<ParsedUrl>)
    ensures
        r@ == if links@.len() > MAX_STYLESHEETS {
            links@.take(MAX_STYLESHEETS as int)
        } else {
            links@
        },
{
    if links.len() <= MAX_STYLESHEETS {
        return links;
    }
    let mut links = links;
    links.truncate(MAX_STYLESHEETS);
    links
}

/// The stylesheets a page asks for, resolved against the page URL and
/// capped at `MAX_STYLESHEETS`.
pub fn page_stylesheets(html: &str, base: &ParsedUrl) -> (r: Vec<ParsedUrl>)
    ensures
        url_views(r@) == if link_scan(html@, base@, 0).len() > MAX_STYLESHEETS {
            link_scan(html@, base@, 0).take(MAX_STYLESHEETS as int)
        } else {
            link_scan(html@, base@, 0)
        },
{
    let links = extract_stylesheet_links(html, base);
    let r = cap_stylesheets(links);
    assert(url_views(r@) =~= if link_scan(html@, base@, 0).len() > MAX_STYLESHEETS {
        link_scan(html@, base@, 0).take(MAX_STYLESHEETS as int)
    } else {
        link_scan(html@, base@, 0)
    });
    r
}

// ---------------------------------------------------------------------
// The stylesheet cache crawl
// ---------------------------------------------------------------------

/// Whether the stylesheet with cache key `key`, reached through `depth`
/// `@import` steps, is to be fetched: not cached yet and not too deep.
pub fn should_fetch_css(cache: &StringMap, key: &str, depth: usize) -> (r: bool)
    ensures
        r == (!cache@.contains_key(key@) && depth <= MAX_IMPORT_DEPTH),
{
    !cache.contains_key(key) && depth <= MAX_IMPORT_DEPTH
}

/// One step of the stylesheet crawl: the sheet fetched from `url` is stored
/// under `key` (its serialization) and its `@import` targets, resolved
/// against `url`, are returned for the crawl to follow.
pub fn store_stylesheet(cache: &mut StringMap, key: String, css: String, url: &ParsedUrl) -> (r: Vec<
    ParsedUrl,
>)
    requires
        import_scan_in_bounds(css@, 0),
    ensures
        final(cache)@ == old(cache)@.insert(key@, css@),
        final(cache).key_count() == old(cache).key_count() + if old(cache)@.contains_key(key@) {
            0int
        } else {
            1int
        },
        url_views(r@) == import_scan(css@, url@, 0),
{
    let imports = extract_css_imports(css.as_str(), url);
    cache.insert(key, css);
    imports
}

/// Whether the imports of a fetched stylesheet may still be followed: the
/// cache holds fewer than `MAX_STYLESHEETS` sheets.
pub fn may_follow_imports(cache: &StringMap) -> (r: bool)
    ensures
        r == (cache.key_count() < MAX_STYLESHEETS),
{
    cache.len() < MAX_STYLESHEETS
}

} // verus!
