//! Laws of the page scanners and the URL decisions, stated over the `url`
//! crate's parse and join results and over the texts given, not over the
//! scanners' own specifications.

use vstd::prelude::*;

use crate::actions::image_target;
use crate::container::import_answer;
use crate::fetch::{
    attr_start, bare_end, ends_bare_value, import_scan, import_target, is_quote, link_scan,
    skip_space, url_value,
};
use crate::text::{
    ascii_lower, ascii_lower_char, find_from, is_space, lemma_find_from, occurs_at, starts_with,
    trim_end, trim_start,
};
use crate::weburl::{anchor_spec, same_page, url_fragment, url_join, url_parse, url_scheme, AnchorActionView};

verus! {

// ---------------------------------------------------------------------
// Search facts
// ---------------------------------------------------------------------

/// The search from `i` finds `p` at `j` when it occurs there and nowhere
/// between `i` and `j`.
proof fn lemma_find_first(t: Seq<char>, p: Seq<char>, i: int, j: int)
    requires
        0 <= i <= j,
        occurs_at(t, p, j),
        forall|m: int| i <= m < j ==> !#[trigger] occurs_at(t, p, m),
    ensures
        find_from(t, p, i) == Some(j),
{
    lemma_find_from(t, p, i);
    match find_from(t, p, i) {
        Some(k) => {
            if k < j {
                assert(occurs_at(t, p, k));
            } else if k > j {
                assert(!occurs_at(t, p, j));
            }
        },
        None => {
            assert(!occurs_at(t, p, j));
        },
    }
}

/// `p` cannot occur where the text's character differs from `p`'s first.
proof fn lemma_no_occurrence(t: Seq<char>, p: Seq<char>, m: int)
    requires
        p.len() > 0,
        0 <= m < t.len(),
        t[m] != p[0],
    ensures
        !occurs_at(t, p, m),
{
    if occurs_at(t, p, m) {
        assert(t.subrange(m, m + p.len())[0] == t[m]);
    }
}

// ---------------------------------------------------------------------
// @import rules
// ---------------------------------------------------------------------

/// An `@import` target written as a string in either kind of quotes is the
/// text between the quotes, whatever follows.
pub proof fn law_import_target_quoted(q: char, s: Seq<char>, rest: Seq<char>)
    requires
        q == '"' || q == '\'',
        !s.contains(q),
    ensures
        import_target(seq![q] + s + seq![q] + rest) == Some(s),
{
    reveal_strlit("url(");
    let t = seq![q] + s + seq![q] + rest;
    let n = s.len() as int;
    assert(t[0] == q);
    if starts_with(t, "url("@) {
        assert(t.subrange(0, 4)[0] == t[0]);
    }
    assert(t[1 + n] == q);
    assert(t.subrange(1 + n, 2 + n) =~= seq![q]);
    assert forall|m: int| 1 <= m < 1 + n implies !#[trigger] occurs_at(t, seq![q], m) by {
        assert(t[m] == s[m - 1]);
        lemma_no_occurrence(t, seq![q], m);
    }
    lemma_find_first(t, seq![q], 1, 1 + n);
    assert(t.subrange(1, 1 + n) =~= s);
}

/// `url(...)` with a quoted URL gives the text between the quotes.
pub proof fn law_url_value_quoted(q: char, s: Seq<char>, rest: Seq<char>)
    requires
        q == '"' || q == '\'',
        !s.contains(q),
    ensures
        url_value(seq![q] + s + seq![q] + rest) == Some(s),
{
    let t = seq![q] + s + seq![q] + rest;
    let n = s.len() as int;
    assert(t[0] == q);
    assert(trim_start(t) == t);
    assert(t[1 + n] == q);
    assert(t.subrange(1 + n, 2 + n) =~= seq![q]);
    assert forall|m: int| 1 <= m < 1 + n implies !#[trigger] occurs_at(t, seq![q], m) by {
        assert(t[m] == s[m - 1]);
        lemma_no_occurrence(t, seq![q], m);
    }
    lemma_find_first(t, seq![q], 1, 1 + n);
    assert(t.subrange(1, 1 + n) =~= s);
}

/// The `@import` keyword is matched in any case: `@IMPORT "…";`.
pub open spec fn import_rule_upper(q: char, s: Seq<char>) -> Seq<char> {
    seq!['@', 'I', 'M', 'P', 'O', 'R', 'T', ' ', q] + s + seq![q, ';']
}

/// An upper-case `@IMPORT` rule is followed like a lower-case one.
pub proof fn law_import_keyword_in_any_case(q: char, s: Seq<char>, base: Seq<char>)
    requires
        q == '"' || q == '\'',
        !s.contains(q),
        !s.contains('@'),
    ensures
        import_scan(import_rule_upper(q, s), base, 0) == match url_join(base, s) {
            Ok(u) => seq![u],
            Err(_) => Seq::<Seq<char>>::empty(),
        },
{
    reveal_strlit("@import");
    let css = import_rule_upper(q, s);
    let n = s.len() as int;
    let len = css.len() as int;
    let lower = ascii_lower(css);
    assert(len == 11 + n);
    assert forall|i: int| 0 <= i < len implies #[trigger] lower[i] == ascii_lower_char(css[i]) by {}
    assert(lower.subrange(0, 7) =~= "@import"@);
    lemma_find_first(lower, "@import"@, 0, 0);
    let x = css.subrange(7, len);
    assert(x[0] == ' ');
    assert(x.drop_first()[0] == q);
    assert(trim_start(x.drop_first()) == x.drop_first());
    assert(trim_start(x) == x.drop_first());
    assert(skip_space(css, 7) == 8);
    assert(css.subrange(8, len) =~= seq![q] + s + seq![q] + seq![';']);
    law_import_target_quoted(q, s, seq![';']);
    lemma_find_from(lower, "@import"@, 9);
    if let Some(k) = find_from(lower, "@import"@, 9) {
        assert(lower.subrange(k, k + 7)[0] == lower[k]);
        if k < 9 + n {
            assert(css[k] == s[k - 9]);
        }
        assert(lower[k] != '@');
    }
    assert(find_from(lower, "@import"@, 9) is None);
    assert(import_scan(css, base, 9) == Seq::<Seq<char>>::empty());
    assert(import_target(css.subrange(8, len)) == Some(s));
    match url_join(base, s) {
        Ok(u) => {
            assert(import_scan(css, base, 0) == seq![u] + import_scan(css, base, 9));
            assert(seq![u] + Seq::<Seq<char>>::empty() =~= seq![u]);
        },
        Err(_) => {},
    }
}

/// The text `@import "…";` (or with `'`), quoting `s` with `q`.
pub open spec fn import_rule(q: char, s: Seq<char>) -> Seq<char> {
    seq!['@', 'i', 'm', 'p', 'o', 'r', 't', ' ', q] + s + seq![q, ';']
}

/// Scanning a stylesheet that is a single `@import` of a string, in either
/// kind of quotes, gives that string joined onto the stylesheet URL;
/// nothing when the join fails.
pub proof fn law_import_rule_is_followed(q: char, s: Seq<char>, base: Seq<char>)
    requires
        q == '"' || q == '\'',
        !s.contains(q),
        !s.contains('@'),
    ensures
        import_scan(import_rule(q, s), base, 0) == match url_join(base, s) {
            Ok(u) => seq![u],
            Err(_) => Seq::<Seq<char>>::empty(),
        },
{
    reveal_strlit("@import");
    let css = import_rule(q, s);
    let n = s.len() as int;
    let len = css.len() as int;
    let lower = ascii_lower(css);
    assert(len == 11 + n);
    assert forall|i: int| 0 <= i < len implies #[trigger] lower[i] == ascii_lower_char(css[i]) by {}
    // The rule starts at 0.
    assert(lower.subrange(0, 7) =~= "@import"@);
    lemma_find_first(lower, "@import"@, 0, 0);
    // One space before the quote.
    let x = css.subrange(7, len);
    assert(x[0] == ' ');
    assert(x.drop_first()[0] == q);
    assert(trim_start(x.drop_first()) == x.drop_first());
    assert(trim_start(x) == x.drop_first());
    assert(skip_space(css, 7) == 8);
    // The target is the quoted string.
    assert(css.subrange(8, len) =~= seq![q] + s + seq![q] + seq![';']);
    law_import_target_quoted(q, s, seq![';']);
    // No other rule follows.
    lemma_find_from(lower, "@import"@, 9);
    if let Some(k) = find_from(lower, "@import"@, 9) {
        assert(lower.subrange(k, k + 7)[0] == lower[k]);
        if k < 9 + n {
            assert(css[k] == s[k - 9]);
        }
        assert(lower[k] != '@');
    }
    assert(find_from(lower, "@import"@, 9) is None);
    assert(import_scan(css, base, 9) == Seq::<Seq<char>>::empty());
    assert(import_target(css.subrange(8, len)) == Some(s));
    match url_join(base, s) {
        Ok(u) => {
            assert(import_scan(css, base, 0) == seq![u] + import_scan(css, base, 9));
            assert(seq![u] + Seq::<Seq<char>>::empty() =~= seq![u]);
        },
        Err(_) => {},
    }
}

/// The text `@import url(…);` around `s`.
pub open spec fn import_url_rule(s: Seq<char>) -> Seq<char> {
    seq!['@', 'i', 'm', 'p', 'o', 'r', 't', ' ', 'u', 'r', 'l', '('] + s + seq![')', ';']
}

/// Scanning a stylesheet that is a single `@import url(…)` with an unquoted
/// URL gives that URL joined onto the stylesheet URL.
pub proof fn law_import_url_is_followed(s: Seq<char>, base: Seq<char>)
    requires
        forall|i: int| 0 <= i < s.len() ==> !is_space(#[trigger] s[i]) && s[i] != ')' && s[i] != '@',
        s.len() > 0 ==> !is_quote(s[0]),
    ensures
        import_scan(import_url_rule(s), base, 0) == match url_join(base, s) {
            Ok(u) => seq![u],
            Err(_) => Seq::<Seq<char>>::empty(),
        },
{
    reveal_strlit("@import");
    reveal_strlit("url(");
    let css = import_url_rule(s);
    let n = s.len() as int;
    let len = css.len() as int;
    let lower = ascii_lower(css);
    assert(len == 14 + n);
    assert forall|i: int| 0 <= i < len implies #[trigger] lower[i] == ascii_lower_char(css[i]) by {}
    assert forall|i: int| 12 <= i < 12 + n implies #[trigger] css[i] == s[i - 12] by {}
    assert(lower.subrange(0, 7) =~= "@import"@);
    lemma_find_first(lower, "@import"@, 0, 0);
    let x = css.subrange(7, len);
    assert(x[0] == ' ');
    assert(x.drop_first()[0] == 'u');
    assert(trim_start(x.drop_first()) == x.drop_first());
    assert(trim_start(x) == x.drop_first());
    assert(skip_space(css, 7) == 8);
    // The target is `url(` and the text up to `)`.
    let t = css.subrange(8, len);
    assert(t.subrange(0, 4) =~= "url("@);
    let y = t.subrange(4, t.len() as int);
    assert(y =~= s + seq![')', ';']);
    if n > 0 {
        assert(y[0] == s[0]);
    } else {
        assert(y[0] == ')');
    }
    assert(trim_start(y) == y);
    assert(y.subrange(n, n + 1) =~= seq![')']);
    assert forall|m: int| 0 <= m < n implies !#[trigger] occurs_at(y, seq![')'], m) by {
        assert(y[m] == s[m]);
        lemma_no_occurrence(y, seq![')'], m);
    }
    lemma_find_first(y, seq![')'], 0, n);
    assert(y.subrange(0, n) =~= s);
    assert(trim_start(s) == s);
    assert(trim_end(s) == s);
    assert(import_target(t) == Some(s));
    // No other rule follows.
    lemma_find_from(lower, "@import"@, 9);
    if let Some(k) = find_from(lower, "@import"@, 9) {
        assert(lower.subrange(k, k + 7)[0] == lower[k]);
        if 12 <= k < 12 + n {
            assert(css[k] == s[k - 12]);
        }
        assert(lower[k] != '@');
    }
    assert(find_from(lower, "@import"@, 9) is None);
    assert(import_scan(css, base, 9) == Seq::<Seq<char>>::empty());
    match url_join(base, s) {
        Ok(u) => {
            assert(import_scan(css, base, 0) == seq![u] + import_scan(css, base, 9));
            assert(seq![u] + Seq::<Seq<char>>::empty() =~= seq![u]);
        },
        Err(_) => {},
    }
}

// ---------------------------------------------------------------------
// Links
// ---------------------------------------------------------------------

/// The text of a link tag `<link href="…" rel="stylesheet">` around `href`.
pub open spec fn stylesheet_link(href: Seq<char>) -> Seq<char> {
    seq!['<', 'l', 'i', 'n', 'k', ' ', 'h', 'r', 'e', 'f', '=', '"'] + href + seq![
        '"',
        ' ',
        'r',
        'e',
        'l',
        '=',
        '"',
        's',
        't',
        'y',
        'l',
        'e',
        's',
        'h',
        'e',
        'e',
        't',
        '"',
        '>',
    ]
}

/// A link `href` clicked on the page `current` leads to `t`: `href` parses
/// to `t`, or it does not parse on its own and joins onto the parsed
/// `current` to give `t`.
pub open spec fn link_leads_to(href: Seq<char>, current: Seq<char>, t: Seq<char>) -> bool {
    ||| url_parse(href) == Ok::<Seq<char>, Seq<char>>(t)
    ||| url_parse(href) is Err && url_parse(current) is Ok && url_join(
        url_parse(current)->Ok_0,
        href,
    ) == Ok::<Seq<char>, Seq<char>>(t)
}

/// `t` is the page `current` shows, up to the fragment.
pub open spec fn on_page(t: Seq<char>, current: Seq<char>) -> bool {
    url_parse(current) is Ok && same_page(t, url_parse(current)->Ok_0)
}

/// `t` is an http or https URL.
pub open spec fn web_scheme(t: Seq<char>) -> bool {
    url_scheme(t) == seq!['h', 't', 't', 'p'] || url_scheme(t) == seq!['h', 't', 't', 'p', 's']
}

/// The same tag written in upper case: `<LINK HREF="…" REL="STYLESHEET">`.
pub open spec fn stylesheet_link_upper(href: Seq<char>) -> Seq<char> {
    seq!['<', 'L', 'I', 'N', 'K', ' ', 'H', 'R', 'E', 'F', '=', '"'] + href + seq![
        '"',
        ' ',
        'R',
        'E',
        'L',
        '=',
        '"',
        'S',
        'T',
        'Y',
        'L',
        'E',
        'S',
        'H',
        'E',
        'E',
        'T',
        '"',
        '>',
    ]
}

/// Tag and attribute names are matched in any case, while the `href`
/// value keeps its own.
pub proof fn law_link_markup_in_any_case(href: Seq<char>, base: Seq<char>)
    requires
        !href.contains('"'),
        !href.contains('>'),
    ensures
        link_scan(stylesheet_link_upper(href), base, 0) == match url_join(base, href) {
            Ok(u) => seq![u],
            Err(_) => Seq::<Seq<char>>::empty(),
        },
{
    reveal_strlit("<link");
    reveal_strlit("stylesheet");
    reveal_strlit("href");
    let html = stylesheet_link_upper(href);
    let n = href.len() as int;
    let len = html.len() as int;
    let lower = ascii_lower(html);
    assert(len == 31 + n);
    assert(lower.len() == len);
    assert forall|i: int| 0 <= i < len implies #[trigger] lower[i] == ascii_lower_char(html[i]) by {}
    assert forall|i: int| 12 <= i < 12 + n implies #[trigger] html[i] == href[i - 12] by {}
    assert(lower.subrange(0, 5) =~= "<link"@);
    lemma_find_first(lower, "<link"@, 0, 0);
    assert(lower[len - 1] == '>');
    assert(lower.subrange(len - 1, len) =~= seq!['>']);
    assert forall|m: int| 0 <= m < len - 1 implies !#[trigger] occurs_at(lower, seq!['>'], m) by {
        if 12 <= m < 12 + n {
            assert(html[m] == href[m - 12]);
            assert(href[m - 12] != '>');
        } else if m < 12 {
            assert(m == 0 || m == 1 || m == 2 || m == 3 || m == 4 || m == 5 || m == 6 || m == 7
                || m == 8 || m == 9 || m == 10 || m == 11);
        } else {
            let r = m - 12 - n;
            assert(r == 0 || r == 1 || r == 2 || r == 3 || r == 4 || r == 5 || r == 6 || r == 7
                || r == 8 || r == 9 || r == 10 || r == 11 || r == 12 || r == 13 || r == 14 || r
                == 15 || r == 16 || r == 17);
        }
        lemma_no_occurrence(lower, seq!['>'], m);
    }
    lemma_find_first(lower, seq!['>'], 0, len - 1);
    assert(find_from(lower, "<link"@, len) is None);
    assert(link_scan(html, base, len) == Seq::<Seq<char>>::empty());
    assert(html.subrange(0, len) =~= html);
    assert(lower.subrange(0, len) =~= lower);
    assert(lower.subrange(19 + n, 29 + n) =~= "stylesheet"@);
    lemma_find_from(lower, "stylesheet"@, 0);
    assert(occurs_at(lower, "stylesheet"@, 19 + n));
    let needle = "href"@.push('=');
    assert(lower.subrange(6, 11) =~= needle);
    assert forall|m: int| 0 <= m < 6 implies !#[trigger] occurs_at(lower, needle, m) by {
        assert(m == 0 || m == 1 || m == 2 || m == 3 || m == 4 || m == 5);
        lemma_no_occurrence(lower, needle, m);
    }
    lemma_find_first(lower, needle, 0, 6);
    assert(html[5] == ' ');
    assert(html[11] == '"');
    assert(html[12 + n] == '"');
    assert(html.subrange(12 + n, 13 + n) =~= seq!['"']);
    assert forall|m: int| 12 <= m < 12 + n implies !#[trigger] occurs_at(html, seq!['"'], m) by {
        assert(html[m] == href[m - 12]);
        lemma_no_occurrence(html, seq!['"'], m);
    }
    lemma_find_first(html, seq!['"'], 12, 12 + n);
    assert(html.subrange(12, 12 + n) =~= href);
}

/// The tag `<link data-href="x" href="…" rel="stylesheet">`, where an
/// attribute whose name ends in `href` comes first.
pub open spec fn decoy_stylesheet_link(href: Seq<char>) -> Seq<char> {
    seq![
        '<',
        'l',
        'i',
        'n',
        'k',
        ' ',
        'd',
        'a',
        't',
        'a',
        '-',
        'h',
        'r',
        'e',
        'f',
        '=',
        '"',
        'x',
        '"',
        ' ',
        'h',
        'r',
        'e',
        'f',
        '=',
        '"',
    ] + href + seq![
        '"',
        ' ',
        'r',
        'e',
        'l',
        '=',
        '"',
        's',
        't',
        'y',
        'l',
        'e',
        's',
        'h',
        'e',
        'e',
        't',
        '"',
        '>',
    ]
}

/// Only the attribute named exactly `href` gives the stylesheet's URL; an
/// attribute whose name merely ends in `href` does not.
pub proof fn law_href_is_matched_whole(href: Seq<char>, base: Seq<char>)
    requires
        !href.contains('"'),
        !href.contains('>'),
    ensures
        link_scan(decoy_stylesheet_link(href), base, 0) == match url_join(base, href) {
            Ok(u) => seq![u],
            Err(_) => Seq::<Seq<char>>::empty(),
        },
{
    reveal_strlit("<link");
    reveal_strlit("stylesheet");
    reveal_strlit("href");
    let html = decoy_stylesheet_link(href);
    let n = href.len() as int;
    let len = html.len() as int;
    let lower = ascii_lower(html);
    assert(len == 45 + n);
    assert(lower.len() == len);
    assert forall|i: int| 0 <= i < len implies #[trigger] lower[i] == ascii_lower_char(html[i]) by {}
    assert forall|i: int| 26 <= i < 26 + n implies #[trigger] html[i] == href[i - 26] by {}
    assert(lower.subrange(0, 5) =~= "<link"@);
    lemma_find_first(lower, "<link"@, 0, 0);
    assert(lower[len - 1] == '>');
    assert(lower.subrange(len - 1, len) =~= seq!['>']);
    assert forall|m: int| 0 <= m < len - 1 implies !#[trigger] occurs_at(lower, seq!['>'], m) by {
        if 26 <= m < 26 + n {
            assert(html[m] == href[m - 26]);
            assert(href[m - 26] != '>');
        } else if m < 26 {
            assert(m == 0 || m == 1 || m == 2 || m == 3 || m == 4 || m == 5 || m == 6 || m == 7
                || m == 8 || m == 9 || m == 10 || m == 11 || m == 12 || m == 13 || m == 14 || m
                == 15 || m == 16 || m == 17 || m == 18 || m == 19 || m == 20 || m == 21 || m == 22
                || m == 23 || m == 24 || m == 25);
        } else {
            let r = m - 26 - n;
            assert(r == 0 || r == 1 || r == 2 || r == 3 || r == 4 || r == 5 || r == 6 || r == 7
                || r == 8 || r == 9 || r == 10 || r == 11 || r == 12 || r == 13 || r == 14 || r
                == 15 || r == 16 || r == 17);
        }
        lemma_no_occurrence(lower, seq!['>'], m);
    }
    lemma_find_first(lower, seq!['>'], 0, len - 1);
    assert(find_from(lower, "<link"@, len) is None);
    assert(link_scan(html, base, len) == Seq::<Seq<char>>::empty());
    assert(html.subrange(0, len) =~= html);
    assert(lower.subrange(0, len) =~= lower);
    assert(lower.subrange(33 + n, 43 + n) =~= "stylesheet"@);
    lemma_find_from(lower, "stylesheet"@, 0);
    assert(occurs_at(lower, "stylesheet"@, 33 + n));
    // `data-href=` is found first and passed over; `href=` at 20 is taken.
    let needle = "href"@.push('=');
    assert(lower.subrange(11, 16) =~= needle);
    assert(lower.subrange(20, 25) =~= needle);
    assert forall|m: int| 0 <= m < 11 implies !#[trigger] occurs_at(lower, needle, m) by {
        assert(m == 0 || m == 1 || m == 2 || m == 3 || m == 4 || m == 5 || m == 6 || m == 7
            || m == 8 || m == 9 || m == 10);
        lemma_no_occurrence(lower, needle, m);
    }
    lemma_find_first(lower, needle, 0, 11);
    assert forall|m: int| 12 <= m < 20 implies !#[trigger] occurs_at(lower, needle, m) by {
        assert(m == 12 || m == 13 || m == 14 || m == 15 || m == 16 || m == 17 || m == 18 || m
            == 19);
        lemma_no_occurrence(lower, needle, m);
    }
    lemma_find_first(lower, needle, 12, 20);
    assert(html[10] == '-');
    assert(html[19] == ' ');
    assert(attr_start(html, lower, needle, 12) == Some(20int));
    assert(attr_start(html, lower, needle, 0) == Some(20int));
    assert(html[25] == '"');
    assert(html[26 + n] == '"');
    assert(html.subrange(26 + n, 27 + n) =~= seq!['"']);
    assert forall|m: int| 26 <= m < 26 + n implies !#[trigger] occurs_at(html, seq!['"'], m) by {
        assert(html[m] == href[m - 26]);
        lemma_no_occurrence(html, seq!['"'], m);
    }
    lemma_find_first(html, seq!['"'], 26, 26 + n);
    assert(html.subrange(26, 26 + n) =~= href);
}

/// The tag `<link href="…" rel="icon">`.
pub open spec fn icon_link(href: Seq<char>) -> Seq<char> {
    seq!['<', 'l', 'i', 'n', 'k', ' ', 'h', 'r', 'e', 'f', '=', '"'] + href + seq![
        '"',
        ' ',
        'r',
        'e',
        'l',
        '=',
        '"',
        'i',
        'c',
        'o',
        'n',
        '"',
        '>',
    ]
}

/// A link that does not name a stylesheet is passed over.
pub proof fn law_other_links_are_skipped(href: Seq<char>, base: Seq<char>)
    requires
        forall|i: int|
            0 <= i < href.len() ==> #[trigger] href[i] != '>' && ascii_lower_char(href[i]) != 's',
    ensures
        link_scan(icon_link(href), base, 0) == Seq::<Seq<char>>::empty(),
{
    reveal_strlit("<link");
    reveal_strlit("stylesheet");
    let html = icon_link(href);
    let n = href.len() as int;
    let len = html.len() as int;
    let lower = ascii_lower(html);
    assert(len == 25 + n);
    assert(lower.len() == len);
    assert forall|i: int| 0 <= i < len implies #[trigger] lower[i] == ascii_lower_char(html[i]) by {}
    assert forall|i: int| 12 <= i < 12 + n implies #[trigger] html[i] == href[i - 12] by {}
    assert(lower.subrange(0, 5) =~= "<link"@);
    lemma_find_first(lower, "<link"@, 0, 0);
    assert(lower[len - 1] == '>');
    assert(lower.subrange(len - 1, len) =~= seq!['>']);
    assert forall|m: int| 0 <= m < len ==> #[trigger] lower[m] != 's' && (m < len - 1 ==> lower[m]
        != '>') by {
        if 0 <= m < len {
            if 12 <= m < 12 + n {
                assert(html[m] == href[m - 12]);
            } else if m < 12 {
                assert(m == 0 || m == 1 || m == 2 || m == 3 || m == 4 || m == 5 || m == 6 || m == 7
                    || m == 8 || m == 9 || m == 10 || m == 11);
            } else {
                let r = m - 12 - n;
                assert(r == 0 || r == 1 || r == 2 || r == 3 || r == 4 || r == 5 || r == 6 || r == 7
                    || r == 8 || r == 9 || r == 10 || r == 11 || r == 12);
            }
        }
    }
    assert forall|m: int| 0 <= m < len - 1 implies !#[trigger] occurs_at(lower, seq!['>'], m) by {
        lemma_no_occurrence(lower, seq!['>'], m);
    }
    lemma_find_first(lower, seq!['>'], 0, len - 1);
    assert(find_from(lower, "<link"@, len) is None);
    assert(link_scan(html, base, len) == Seq::<Seq<char>>::empty());
    assert(lower.subrange(0, len) =~= lower);
    lemma_find_from(lower, "stylesheet"@, 0);
    if let Some(k) = find_from(lower, "stylesheet"@, 0) {
        assert(lower.subrange(k, k + 10)[0] == lower[k]);
    }
}

/// The tag `<link href=… rel=stylesheet>` with an unquoted `href` value.
pub open spec fn bare_stylesheet_link(href: Seq<char>) -> Seq<char> {
    seq!['<', 'l', 'i', 'n', 'k', ' ', 'h', 'r', 'e', 'f', '='] + href + seq![
        ' ',
        'r',
        'e',
        'l',
        '=',
        's',
        't',
        'y',
        'l',
        'e',
        's',
        'h',
        'e',
        'e',
        't',
        '>',
    ]
}

/// `bare_end` stops at the first character that ends a bare value.
proof fn lemma_bare_end_at(t: Seq<char>, i: int, j: int)
    requires
        0 <= i <= j < t.len(),
        ends_bare_value(t[j]),
        forall|m: int| i <= m < j ==> !ends_bare_value(#[trigger] t[m]),
    ensures
        bare_end(t, i) == j,
    decreases j - i,
{
    if i < j {
        lemma_bare_end_at(t, i + 1, j);
    }
}

/// An unquoted `href` value runs to the whitespace that ends it and is kept
/// as written, `/` included.
pub proof fn law_bare_href_is_kept(href: Seq<char>, base: Seq<char>)
    requires
        forall|i: int| 0 <= i < href.len() ==> !is_space(#[trigger] href[i]) && href[i] != '>',
        href.len() > 0 ==> href[0] != '"' && href[0] != '\'',
    ensures
        link_scan(bare_stylesheet_link(href), base, 0) == match url_join(base, href) {
            Ok(u) => seq![u],
            Err(_) => Seq::<Seq<char>>::empty(),
        },
{
    reveal_strlit("<link");
    reveal_strlit("stylesheet");
    reveal_strlit("href");
    let html = bare_stylesheet_link(href);
    let n = href.len() as int;
    let len = html.len() as int;
    let lower = ascii_lower(html);
    assert(len == 27 + n);
    assert(lower.len() == len);
    assert forall|i: int| 0 <= i < len implies #[trigger] lower[i] == ascii_lower_char(html[i]) by {}
    assert forall|i: int| 11 <= i < 11 + n implies #[trigger] html[i] == href[i - 11] by {}
    assert(lower.subrange(0, 5) =~= "<link"@);
    lemma_find_first(lower, "<link"@, 0, 0);
    assert(lower[len - 1] == '>');
    assert(lower.subrange(len - 1, len) =~= seq!['>']);
    assert forall|m: int| 0 <= m < len - 1 implies !#[trigger] occurs_at(lower, seq!['>'], m) by {
        if 11 <= m < 11 + n {
            assert(html[m] == href[m - 11]);
            assert(href[m - 11] != '>');
        } else if m < 11 {
            assert(m == 0 || m == 1 || m == 2 || m == 3 || m == 4 || m == 5 || m == 6 || m == 7
                || m == 8 || m == 9 || m == 10);
        } else {
            let r = m - 11 - n;
            assert(r == 0 || r == 1 || r == 2 || r == 3 || r == 4 || r == 5 || r == 6 || r == 7
                || r == 8 || r == 9 || r == 10 || r == 11 || r == 12 || r == 13 || r == 14);
        }
        lemma_no_occurrence(lower, seq!['>'], m);
    }
    lemma_find_first(lower, seq!['>'], 0, len - 1);
    assert(find_from(lower, "<link"@, len) is None);
    assert(link_scan(html, base, len) == Seq::<Seq<char>>::empty());
    assert(html.subrange(0, len) =~= html);
    assert(lower.subrange(0, len) =~= lower);
    assert(lower.subrange(16 + n, 26 + n) =~= "stylesheet"@);
    lemma_find_from(lower, "stylesheet"@, 0);
    assert(occurs_at(lower, "stylesheet"@, 16 + n));
    let needle = "href"@.push('=');
    assert(lower.subrange(6, 11) =~= needle);
    assert forall|m: int| 0 <= m < 6 implies !#[trigger] occurs_at(lower, needle, m) by {
        assert(m == 0 || m == 1 || m == 2 || m == 3 || m == 4 || m == 5);
        lemma_no_occurrence(lower, needle, m);
    }
    lemma_find_first(lower, needle, 0, 6);
    assert(html[5] == ' ');
    if n > 0 {
        assert(html[11] == href[0]);
    } else {
        assert(html[11] == ' ');
    }
    assert(html[11 + n] == ' ');
    assert forall|m: int| 11 <= m < 11 + n implies !ends_bare_value(#[trigger] html[m]) by {
        assert(html[m] == href[m - 11]);
    }
    lemma_bare_end_at(html, 11, 11 + n);
    assert(html.subrange(11, 11 + n) =~= href);
}

/// A clicked link's action, over the `url` crate: a link to another http or
/// https page navigates there, a link into the current page scrolls to its
/// fragment, and a link with any other scheme is ignored.
pub proof fn law_anchor_follows_http_links(href: Seq<char>, current: Seq<char>, t: Seq<char>)
    requires
        link_leads_to(href, current, t),
    ensures
        web_scheme(t) && !on_page(t, current) ==> anchor_spec(href, current)
            == AnchorActionView::Navigate(t),
        web_scheme(t) && on_page(t, current) && url_fragment(t) is Some ==> anchor_spec(
            href,
            current,
        ) == AnchorActionView::ScrollToFragment(url_fragment(t)->Some_0),
        !web_scheme(t) ==> anchor_spec(href, current) == AnchorActionView::Ignore,
{
    reveal_strlit("http");
    reveal_strlit("https");
    assert("http"@ =~= seq!['h', 't', 't', 'p']);
    assert("https"@ =~= seq!['h', 't', 't', 'p', 's']);
}

/// The cache key an `@import` of `url` from the stylesheet at `baseurl` is
/// looked up under, and what that gives.
pub open spec fn cached_answer(cache: Map<Seq<char>, Seq<char>>, k: Seq<char>) -> (
    Seq<char>,
    Option<Seq<char>>,
) {
    if cache.contains_key(k) {
        (cache[k], Some(k))
    } else {
        (Seq::<char>::empty(), None::<Seq<char>>)
    }
}

/// An `@import` is answered from the cache under the URL resolved against
/// the stylesheet that asks (`baseurl`) first, whatever the page's base URL
/// is; an absolute URL is its own key; the page's base URL is used only
/// when `baseurl` is empty.
pub proof fn law_import_resolves_against_stylesheet_first(
    url: Seq<char>,
    baseurl: Seq<char>,
    page_base: Seq<char>,
    cache: Map<Seq<char>, Seq<char>>,
)
    ensures
        url_parse(url) is Ok ==> import_answer(url, baseurl, page_base, cache) == cached_answer(
            cache,
            url_parse(url)->Ok_0,
        ),
        url_parse(url) is Err && baseurl.len() > 0 && url_parse(baseurl) is Ok && url_join(
            url_parse(baseurl)->Ok_0,
            url,
        ) is Ok ==> import_answer(url, baseurl, page_base, cache) == cached_answer(
            cache,
            url_join(url_parse(baseurl)->Ok_0, url)->Ok_0,
        ),
        url_parse(url) is Err && baseurl.len() == 0 && page_base.len() > 0 && url_parse(page_base) is Ok
            && url_join(url_parse(page_base)->Ok_0, url) is Ok ==> import_answer(
            url,
            baseurl,
            page_base,
            cache,
        ) == cached_answer(cache, url_join(url_parse(page_base)->Ok_0, url)->Ok_0),
{
}

/// Scanning a page that is a single `<link href="…" rel="stylesheet">`
/// tag gives the `href` value, exactly as written (case kept), joined onto
/// the page URL; nothing when the join fails.
pub proof fn law_stylesheet_link_keeps_href(href: Seq<char>, base: Seq<char>)
    requires
        !href.contains('"'),
        !href.contains('>'),
    ensures
        link_scan(stylesheet_link(href), base, 0) == match url_join(base, href) {
            Ok(u) => seq![u],
            Err(_) => Seq::<Seq<char>>::empty(),
        },
{
    reveal_strlit("<link");
    reveal_strlit("stylesheet");
    reveal_strlit("href");
    let html = stylesheet_link(href);
    let n = href.len() as int;
    let len = html.len() as int;
    let lower = ascii_lower(html);
    assert(len == 31 + n);
    assert(lower.len() == len);
    assert forall|i: int| 0 <= i < len implies #[trigger] lower[i] == ascii_lower_char(html[i]) by {}
    assert forall|i: int| 12 <= i < 12 + n implies #[trigger] html[i] == href[i - 12] by {}
    // The tag starts at 0.
    assert(lower.subrange(0, 5) =~= "<link"@);
    lemma_find_first(lower, "<link"@, 0, 0);
    // It ends at the last character.
    assert(lower[len - 1] == '>');
    assert(lower.subrange(len - 1, len) =~= seq!['>']);
    assert forall|m: int| 0 <= m < len - 1 implies !#[trigger] occurs_at(lower, seq!['>'], m) by {
        if 12 <= m < 12 + n {
            assert(html[m] == href[m - 12]);
            assert(href[m - 12] != '>');
        } else if m < 12 {
            assert(m == 0 || m == 1 || m == 2 || m == 3 || m == 4 || m == 5 || m == 6 || m == 7
                || m == 8 || m == 9 || m == 10 || m == 11);
        } else {
            let r = m - 12 - n;
            assert(r == 0 || r == 1 || r == 2 || r == 3 || r == 4 || r == 5 || r == 6 || r == 7
                || r == 8 || r == 9 || r == 10 || r == 11 || r == 12 || r == 13 || r == 14 || r
                == 15 || r == 16 || r == 17);
        }
        lemma_no_occurrence(lower, seq!['>'], m);
    }
    lemma_find_first(lower, seq!['>'], 0, len - 1);
    // Nothing follows the tag.
    assert(find_from(lower, "<link"@, len) is None);
    assert(link_scan(html, base, len) == Seq::<Seq<char>>::empty());
    // The tag names a stylesheet.
    assert(html.subrange(0, len) =~= html);
    assert(lower.subrange(0, len) =~= lower);
    assert(lower.subrange(19 + n, 29 + n) =~= "stylesheet"@);
    lemma_find_from(lower, "stylesheet"@, 0);
    assert(occurs_at(lower, "stylesheet"@, 19 + n));
    // The attribute `href` starts at 6, after a space.
    let needle = "href"@.push('=');
    assert(lower.subrange(6, 11) =~= needle);
    assert forall|m: int| 0 <= m < 6 implies !#[trigger] occurs_at(lower, needle, m) by {
        assert(m == 0 || m == 1 || m == 2 || m == 3 || m == 4 || m == 5);
        lemma_no_occurrence(lower, needle, m);
    }
    lemma_find_first(lower, needle, 0, 6);
    assert(html[5] == ' ');
    // Its quoted value is `href`.
    assert(html[11] == '"');
    assert(html[12 + n] == '"');
    assert(html.subrange(12 + n, 13 + n) =~= seq!['"']);
    assert forall|m: int| 12 <= m < 12 + n implies !#[trigger] occurs_at(html, seq!['"'], m) by {
        assert(html[m] == href[m - 12]);
        lemma_no_occurrence(html, seq!['"'], m);
    }
    lemma_find_first(html, seq!['"'], 12, 12 + n);
    assert(html.subrange(12, 12 + n) =~= href);
}

/// A link that cannot be resolved is reported with the parse error: the
/// error of joining it onto the current page, or, when the current page's
/// URL does not parse either, that a relative URL has no base.
pub proof fn law_anchor_reports_unresolved(href: Seq<char>, current: Seq<char>)
    requires
        url_parse(href) is Err,
    ensures
        url_parse(current) is Err ==> anchor_spec(href, current) == AnchorActionView::Unresolved(
            "relative URL without a base"@,
        ),
        url_parse(current) is Ok && url_join(url_parse(current)->Ok_0, href) is Err ==> anchor_spec(
            href,
            current,
        ) == AnchorActionView::Unresolved(url_join(url_parse(current)->Ok_0, href)->Err_0),
{
}

/// An image found in the document is fetched from its `src` resolved
/// against the base URL it was found under first (the stylesheet's or the
/// page's), falling back to the page URL only when that base is empty or
/// does not resolve it; and only from http and https URLs.
pub proof fn law_image_resolves_against_its_base_first(
    src: Seq<char>,
    baseurl: Seq<char>,
    page_url: Seq<char>,
)
    ensures
        url_parse(src) is Ok ==> image_target(src, baseurl, page_url) == if web_scheme(
            url_parse(src)->Ok_0,
        ) {
            Some(url_parse(src)->Ok_0)
        } else {
            None
        },
        url_parse(src) is Err && baseurl.len() > 0 && url_parse(baseurl) is Ok && url_join(
            url_parse(baseurl)->Ok_0,
            src,
        ) is Ok ==> image_target(src, baseurl, page_url) == if web_scheme(
            url_join(url_parse(baseurl)->Ok_0, src)->Ok_0,
        ) {
            Some(url_join(url_parse(baseurl)->Ok_0, src)->Ok_0)
        } else {
            None
        },
        url_parse(src) is Err && baseurl.len() == 0 && page_url.len() > 0 && url_parse(page_url) is Ok
            && url_join(url_parse(page_url)->Ok_0, src) is Ok ==> image_target(src, baseurl, page_url)
            == if web_scheme(url_join(url_parse(page_url)->Ok_0, src)->Ok_0) {
            Some(url_join(url_parse(page_url)->Ok_0, src)->Ok_0)
        } else {
            None
        },
        url_parse(src) is Err && baseurl.len() == 0 && page_url.len() == 0 ==> image_target(
            src,
            baseurl,
            page_url,
        ) is None,
{
    reveal_strlit("http");
    reveal_strlit("https");
    assert("http"@ =~= seq!['h', 't', 't', 'p']);
    assert("https"@ =~= seq!['h', 't', 't', 'p', 's']);
}

} // verus!
