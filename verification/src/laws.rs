//! Properties of the library that span several operations or hold for all
//! inputs, proved over the specifications the operations are verified
//! against.

use vstd::prelude::*;

use crate::advanced::text_for;
use crate::basic::{
    close_current_spec, close_view_spec, change_view_spec, current_id, drop_position, id_at,
    lemma_drop_position,
    last_used, selection_valid, shifted, without_position, BasicView, CloseCurrent,
};
use crate::image::{swap_red_blue, to_rgba, unpremultiplied, unpremultiply_channel};
use crate::page::{PixelFormat, ViewId};
use crate::page_state::{distinct_sources, staged_after};
use crate::tracker::{arrived, epoch_of, navigated, next_epoch, TrackerView};
use crate::util::{
    amp_ref, ends_with, escape_char, gt_ref, html_escaped, html_unescaped, html_unescaped_in_order,
    lt_ref, quot_ref, replaced,
};
use crate::weburl::{reported_url, same_page};

verus! {

broadcast use vstd::string::group_string_axioms;

// ---------------------------------------------------------------------
// Escaping
// ---------------------------------------------------------------------

/// Escaped text never contains `<`, `>` or `"`: it cannot open or close a
/// tag or end an attribute value.
pub proof fn law_escaped_has_no_markup(s: Seq<char>)
    ensures
        forall|i: int|
            0 <= i < html_escaped(s).len() ==> html_escaped(s)[i] != '<' && html_escaped(s)[i]
                != '>' && html_escaped(s)[i] != '"',
    decreases s.len(),
{
    reveal_strlit("&amp;");
    reveal_strlit("&lt;");
    reveal_strlit("&gt;");
    reveal_strlit("&quot;");
    if s.len() > 0 {
        law_escaped_has_no_markup(s.drop_last());
        let prefix = html_escaped(s.drop_last());
        let tail = escape_char(s.last());
        assert(html_escaped(s) == prefix + tail);
        assert forall|i: int| 0 <= i < tail.len() implies tail[i] != '<' && tail[i] != '>'
            && tail[i] != '"' by {}
        assert forall|i: int| 0 <= i < html_escaped(s).len() implies html_escaped(s)[i] != '<'
            && html_escaped(s)[i] != '>' && html_escaped(s)[i] != '"' by {
            if i < prefix.len() {
                assert(html_escaped(s)[i] == prefix[i]);
            } else {
                assert(html_escaped(s)[i] == tail[i - prefix.len()]);
            }
        }
    }
}

/// Unescaping escaped text gives the text back.
pub proof fn law_unescape_inverts_escape(s: Seq<char>)
    ensures
        html_unescaped(html_escaped(s)) == s,
    decreases s.len(),
{
    if s.len() > 0 {
        law_unescape_inverts_escape(s.drop_last());
        lemma_escaped_refs_complete(s.drop_last());
        lemma_unescape_step(html_escaped(s.drop_last()), s.last());
        assert(s.drop_last().push(s.last()) =~= s);
    }
}

/// Unescaping escaped text by replacing `&lt;`, `&gt;`, `&quot;` and then
/// `&amp;` gives the text back.
pub proof fn law_unescape_in_order_inverts_escape(s: Seq<char>)
    ensures
        html_unescaped_in_order(html_escaped(s)) == s,
{
    let e0 = |c: char| escape_char(c);
    let e1 = |c: char| if c == '<' { seq!['<'] } else { escape_char(c) };
    let e2 = |c: char| if c == '<' || c == '>' { seq![c] } else { escape_char(c) };
    let e3 = |c: char| if c == '&' { amp_ref() } else { seq![c] };
    let e4 = |c: char| seq![c];
    lemma_escaped_is_flat(s);
    assert(html_escaped(s) == flat(s, e0));
    assert forall|c: char| #![trigger e0(c)]
        (e0(c) == lt_ref() && e1(c) == seq!['<']) || (e1(c) == e0(c) && no_match_in(e0(c), lt_ref())) by {
        lemma_escape_refs(c);
        if c != '<' {
            if c == '&' || c == '>' || c == '"' {
                lemma_ref_tail(e0(c));
            }
            lemma_no_match_by_first(e0(c), lt_ref());
        }
    }
    lemma_replace_each(s, e0, e1, lt_ref(), seq!['<']);
    assert forall|c: char| #![trigger e1(c)]
        (e1(c) == gt_ref() && e2(c) == seq!['>']) || (e2(c) == e1(c) && no_match_in(e1(c), gt_ref())) by {
        lemma_escape_refs(c);
        if c != '>' {
            if c == '&' || c == '"' {
                lemma_ref_tail(e1(c));
            }
            lemma_no_match_by_first(e1(c), gt_ref());
        }
    }
    lemma_replace_each(s, e1, e2, gt_ref(), seq!['>']);
    assert forall|c: char| #![trigger e2(c)]
        (e2(c) == quot_ref() && e3(c) == seq!['"']) || (e3(c) == e2(c) && no_match_in(e2(c), quot_ref())) by {
        lemma_escape_refs(c);
        if c != '"' {
            if c == '&' {
                lemma_ref_tail(e2(c));
            }
            lemma_no_match_by_first(e2(c), quot_ref());
        }
    }
    lemma_replace_each(s, e2, e3, quot_ref(), seq!['"']);
    assert forall|c: char| #![trigger e3(c)]
        (e3(c) == amp_ref() && e4(c) == seq!['&']) || (e4(c) == e3(c) && no_match_in(e3(c), amp_ref())) by {
        if c != '&' {
            lemma_no_match_by_first(e3(c), amp_ref());
        }
    }
    lemma_replace_each(s, e3, e4, amp_ref(), seq!['&']);
    lemma_flat_chars(s);
}

/// The concatenation of `f` applied to each character of `s`.
spec fn flat(s: Seq<char>, f: spec_fn(char) -> Seq<char>) -> Seq<char>
    decreases s.len(),
{
    if s.len() == 0 {
        Seq::empty()
    } else {
        f(s[0]) + flat(s.drop_first(), f)
    }
}

/// `p` agrees with `x` from position `i` on, as far as `x` reaches.
spec fn prefix_agrees(x: Seq<char>, i: int, p: Seq<char>) -> bool {
    forall|k: int| 0 <= k < p.len() && i + k < x.len() ==> #[trigger] x[i + k] == p[k]
}

/// No occurrence of `p` can start inside `x`, whatever follows `x`.
spec fn no_match_in(x: Seq<char>, p: Seq<char>) -> bool {
    forall|i: int| 0 <= i < x.len() ==> !#[trigger] prefix_agrees(x, i, p)
}

/// `x` rules out `p` by its first one or two characters at each position.
proof fn lemma_no_match_by_first(x: Seq<char>, p: Seq<char>)
    requires
        p.len() > 1,
        x.len() > 0 ==> x[0] != p[0] || (x.len() > 1 && x[1] != p[1]),
        forall|i: int| 1 <= i < x.len() ==> #[trigger] x[i] != p[0],
    ensures
        no_match_in(x, p),
{
    assert forall|i: int| 0 <= i < x.len() implies !#[trigger] prefix_agrees(x, i, p) by {
        if x[i] != p[0] {
            assert(x[i + 0] != p[0]);
        } else {
            assert(i == 0);
            assert(x[i + 1] != p[1]);
        }
    }
}

/// A character reference holds `&` only at its start.
proof fn lemma_ref_tail(x: Seq<char>)
    requires
        x == amp_ref() || x == lt_ref() || x == gt_ref() || x == quot_ref(),
    ensures
        forall|i: int| 1 <= i < x.len() ==> #[trigger] x[i] != '&',
{
    assert forall|i: int| 1 <= i < x.len() implies #[trigger] x[i] != '&' by {
        if x == amp_ref() {
            assert(i == 1 || i == 2 || i == 3 || i == 4);
        } else if x == quot_ref() {
            assert(i == 1 || i == 2 || i == 3 || i == 4 || i == 5);
        } else {
            assert(i == 1 || i == 2 || i == 3);
        }
    }
}

/// Appending a character appends its image.
proof fn lemma_flat_push(s: Seq<char>, c: char, f: spec_fn(char) -> Seq<char>)
    ensures
        flat(s.push(c), f) == flat(s, f) + f(c),
    decreases s.len(),
{
    if s.len() == 0 {
        let e = Seq::<char>::empty();
        assert(s.push(c).drop_first() =~= e);
        assert(s.push(c)[0] == c);
        assert(flat(e, f) == e);
        assert(flat(s.push(c), f) == f(c) + flat(e, f));
        assert(f(c) + e =~= f(c));
        assert(flat(s, f) + f(c) =~= f(c));
    } else {
        assert(s.push(c).drop_first() =~= s.drop_first().push(c));
        lemma_flat_push(s.drop_first(), c, f);
        assert(flat(s.push(c), f) =~= flat(s, f) + f(c));
    }
}

/// Escaping maps each character to its replacement.
proof fn lemma_escaped_is_flat(s: Seq<char>)
    ensures
        html_escaped(s) == flat(s, |c: char| escape_char(c)),
    decreases s.len(),
{
    if s.len() > 0 {
        lemma_escaped_is_flat(s.drop_last());
        lemma_flat_push(s.drop_last(), s.last(), |c: char| escape_char(c));
        assert(s.drop_last().push(s.last()) =~= s);
    }
}

/// Mapping each character to itself gives the text back.
proof fn lemma_flat_chars(s: Seq<char>)
    ensures
        flat(s, |c: char| seq![c]) == s,
    decreases s.len(),
{
    if s.len() > 0 {
        lemma_flat_chars(s.drop_first());
        assert(seq![s[0]] + s.drop_first() =~= s);
    }
}

/// Text in which `p` cannot start is copied, and replacement goes on after it.
proof fn lemma_replace_skips(x: Seq<char>, y: Seq<char>, p: Seq<char>, r: Seq<char>)
    requires
        p.len() > 0,
        no_match_in(x, p),
    ensures
        replaced(x + y, p, r) == x + replaced(y, p, r),
    decreases x.len(),
{
    if x.len() == 0 {
        assert(x + y =~= y);
        assert(x + replaced(y, p, r) =~= replaced(y, p, r));
    } else {
        let t = x + y;
        assert(!prefix_agrees(x, 0, p));
        let k = choose|k: int| 0 <= k < p.len() && 0 + k < x.len() && x[0 + k] != p[k];
        if p.len() <= t.len() && t.subrange(0, p.len() as int) == p {
            assert(t.subrange(0, p.len() as int)[k] == t[k]);
            assert(false);
        }
        let x1 = x.drop_first();
        assert(t.drop_first() =~= x1 + y);
        assert forall|i: int| 0 <= i < x1.len() implies !#[trigger] prefix_agrees(x1, i, p) by {
            assert(!prefix_agrees(x, i + 1, p));
            let k = choose|k: int| 0 <= k < p.len() && i + 1 + k < x.len() && x[i + 1 + k] != p[k];
            assert(x1[i + k] == x[i + 1 + k]);
        }
        lemma_replace_skips(x1, y, p, r);
        assert(seq![t[0]] + (x1 + replaced(y, p, r)) =~= x + replaced(y, p, r));
    }
}

/// An occurrence of `p` at the start is replaced.
proof fn lemma_replace_head(y: Seq<char>, p: Seq<char>, r: Seq<char>)
    requires
        p.len() > 0,
    ensures
        replaced(p + y, p, r) == r + replaced(y, p, r),
{
    let t = p + y;
    assert(t.subrange(0, p.len() as int) =~= p);
    assert(t.subrange(p.len() as int, t.len() as int) =~= y);
}

/// Replacing `p` by `r` in the images under `f` gives the images under `g`,
/// when each image under `f` is either `p` (and under `g` is `r`) or holds
/// no start of `p` (and is kept).
proof fn lemma_replace_each(
    s: Seq<char>,
    f: spec_fn(char) -> Seq<char>,
    g: spec_fn(char) -> Seq<char>,
    p: Seq<char>,
    r: Seq<char>,
)
    requires
        p.len() > 0,
        forall|c: char| #![trigger f(c)]
            (f(c) == p && g(c) == r) || (g(c) == f(c) && no_match_in(f(c), p)),
    ensures
        replaced(flat(s, f), p, r) == flat(s, g),
    decreases s.len(),
{
    if s.len() > 0 {
        lemma_replace_each(s.drop_first(), f, g, p, r);
        let c = s[0];
        if f(c) == p && g(c) == r {
            lemma_replace_head(flat(s.drop_first(), f), p, r);
        } else {
            lemma_replace_skips(f(c), flat(s.drop_first(), f), p, r);
        }
    }
}

/// `p` occurs in `t` at position `i`.
spec fn starts_at(t: Seq<char>, i: int, p: Seq<char>) -> bool {
    0 <= i && i + p.len() <= t.len() && t.subrange(i, i + p.len()) == p
}

/// Every `&` of `t` begins one of the four character references.
spec fn refs_complete(t: Seq<char>) -> bool {
    forall|i: int|
        #![trigger t[i]]
        0 <= i < t.len() && t[i] == '&' ==> starts_at(t, i, amp_ref()) || starts_at(t, i, lt_ref())
            || starts_at(t, i, gt_ref()) || starts_at(t, i, quot_ref())
}

/// The references `escape_char` writes.
proof fn lemma_escape_refs(c: char)
    ensures
        c == '&' ==> escape_char(c) == amp_ref(),
        c == '<' ==> escape_char(c) == lt_ref(),
        c == '>' ==> escape_char(c) == gt_ref(),
        c == '"' ==> escape_char(c) == quot_ref(),
        c != '&' && c != '<' && c != '>' && c != '"' ==> escape_char(c) == seq![c],
{
    reveal_strlit("&amp;");
    reveal_strlit("&lt;");
    reveal_strlit("&gt;");
    reveal_strlit("&quot;");
    assert("&amp;"@ =~= amp_ref());
    assert("&lt;"@ =~= lt_ref());
    assert("&gt;"@ =~= gt_ref());
    assert("&quot;"@ =~= quot_ref());
}

/// In escaped text every `&` begins a character reference.
proof fn lemma_escaped_refs_complete(s: Seq<char>)
    ensures
        refs_complete(html_escaped(s)),
    decreases s.len(),
{
    if s.len() > 0 {
        lemma_escaped_refs_complete(s.drop_last());
        lemma_escape_refs(s.last());
        let x = html_escaped(s.drop_last());
        let e = escape_char(s.last());
        let t = html_escaped(s);
        assert(t == x + e);
        assert forall|i: int| #![trigger t[i]] 0 <= i < t.len() && t[i] == '&' implies starts_at(
            t,
            i,
            amp_ref(),
        ) || starts_at(t, i, lt_ref()) || starts_at(t, i, gt_ref()) || starts_at(t, i, quot_ref()) by {
            if i < x.len() {
                assert(t[i] == x[i]);
                assert(x[i] == '&');
                if starts_at(x, i, amp_ref()) {
                    assert(t.subrange(i, i + 5) =~= x.subrange(i, i + 5));
                } else if starts_at(x, i, lt_ref()) {
                    assert(t.subrange(i, i + 4) =~= x.subrange(i, i + 4));
                } else if starts_at(x, i, gt_ref()) {
                    assert(t.subrange(i, i + 4) =~= x.subrange(i, i + 4));
                } else {
                    assert(t.subrange(i, i + 6) =~= x.subrange(i, i + 6));
                }
            } else {
                assert(t[i] == e[i - x.len()]);
                assert(t.subrange(x.len() as int, t.len() as int) =~= e);
                if i > x.len() {
                    assert(e[i - x.len()] != '&');
                }
            }
        }
    }
}

/// Escaping one more character adds that character to the unescaped text.
proof fn lemma_unescape_step(x: Seq<char>, c: char)
    requires
        refs_complete(x),
    ensures
        html_unescaped(x + escape_char(c)) == html_unescaped(x).push(c),
{
    lemma_escape_refs(c);
    let e = escape_char(c);
    let t = x + e;
    let n = t.len() as int;
    assert(t.subrange(x.len() as int, n) =~= e);
    assert(t.subrange(0, x.len() as int) =~= x);
    if c == '&' || c == '<' || c == '>' || c == '"' {
        assert(t[n - 1] == ';');
        if c == '&' {
            assert(ends_with(t, amp_ref()));
        } else if c == '<' {
            assert(t[n - 4] == '&' && t[n - 3] == 'l');
            assert(!ends_with(t, amp_ref())) by {
                if ends_with(t, amp_ref()) {
                    assert(t.subrange(n - 5, n)[1] == t[n - 4]);
                }
            }
            assert(ends_with(t, lt_ref()));
        } else if c == '>' {
            assert(!ends_with(t, amp_ref())) by {
                if ends_with(t, amp_ref()) {
                    assert(t.subrange(n - 5, n)[1] == t[n - 4]);
                }
            }
            assert(!ends_with(t, lt_ref())) by {
                if ends_with(t, lt_ref()) {
                    assert(t.subrange(n - 4, n)[1] == t[n - 3]);
                }
            }
            assert(ends_with(t, gt_ref()));
        } else {
            assert(!ends_with(t, amp_ref())) by {
                if ends_with(t, amp_ref()) {
                    assert(t.subrange(n - 5, n)[0] == t[n - 5]);
                }
            }
            assert(!ends_with(t, lt_ref())) by {
                if ends_with(t, lt_ref()) {
                    assert(t.subrange(n - 4, n)[0] == t[n - 4]);
                }
            }
            assert(!ends_with(t, gt_ref())) by {
                if ends_with(t, gt_ref()) {
                    assert(t.subrange(n - 4, n)[0] == t[n - 4]);
                }
            }
            assert(ends_with(t, quot_ref()));
        }
    } else {
        assert(t == x.push(c));
        assert(t.drop_last() =~= x);
        let m = x.len() as int;
        assert(!ends_with(t, amp_ref())) by {
            if ends_with(t, amp_ref()) {
                assert(t.subrange(n - 5, n)[4] == t[n - 1]);
                assert(t.subrange(n - 5, n)[0] == t[n - 5]);
                assert(t.subrange(n - 5, n)[1] == t[n - 4]);
                assert(x[m - 4] == '&');
                assert(x[m - 3] == 'a');
                assert(starts_at(x, m - 4, lt_ref()) ==> x.subrange(m - 4, m)[1] == x[m - 3]);
                assert(starts_at(x, m - 4, gt_ref()) ==> x.subrange(m - 4, m)[1] == x[m - 3]);
            }
        }
        assert(!ends_with(t, lt_ref())) by {
            if ends_with(t, lt_ref()) {
                assert(t.subrange(n - 4, n)[3] == t[n - 1]);
                assert(t.subrange(n - 4, n)[0] == t[n - 4]);
                assert(x[m - 3] == '&');
            }
        }
        assert(!ends_with(t, gt_ref())) by {
            if ends_with(t, gt_ref()) {
                assert(t.subrange(n - 4, n)[3] == t[n - 1]);
                assert(t.subrange(n - 4, n)[0] == t[n - 4]);
                assert(x[m - 3] == '&');
            }
        }
        assert(!ends_with(t, quot_ref())) by {
            if ends_with(t, quot_ref()) {
                assert(t.subrange(n - 6, n)[5] == t[n - 1]);
                assert(t.subrange(n - 6, n)[0] == t[n - 6]);
                assert(t.subrange(n - 6, n)[1] == t[n - 5]);
                assert(x[m - 5] == '&');
                assert(x[m - 4] == 'q');
                assert(starts_at(x, m - 5, amp_ref()) ==> x.subrange(m - 5, m)[1] == x[m - 4]);
                assert(starts_at(x, m - 5, lt_ref()) ==> x.subrange(m - 5, m - 1)[1] == x[m - 4]);
                assert(starts_at(x, m - 5, gt_ref()) ==> x.subrange(m - 5, m - 1)[1] == x[m - 4]);
            }
        }
    }
}

// ---------------------------------------------------------------------
// Pixels
// ---------------------------------------------------------------------

/// Swapping red and blue twice gives back the pixels it started from.
pub proof fn law_swap_is_involution(p: Seq<u8>)
    requires
        p.len() % 4 == 0,
    ensures
        swap_red_blue(swap_red_blue(p)) == p,
{
    assert(swap_red_blue(swap_red_blue(p)) =~= p);
}

/// RGBA input is stored as it is.
pub proof fn law_rgba_unchanged(p: Seq<u8>)
    ensures
        to_rgba(p, PixelFormat::Rgba) == p,
{
}

/// A fully opaque channel value is left as it is.
pub proof fn law_opaque_channel_unchanged(c: u8)
    ensures
        unpremultiply_channel(c, 255) == c,
{
    assert((c * 255 + 127) / 255 == c) by (nonlinear_arith)
        requires
            0 <= c <= 255,
    ;
}

/// Straight-alpha conversion keeps every alpha byte, turns every fully
/// transparent pixel into zeros and leaves fully opaque pixels unchanged.
pub proof fn law_unpremultiply_pixels(p: Seq<u8>)
    ensures
        unpremultiplied(p).len() == p.len() - p.len() % 4,
        forall|i: int|
            #![trigger unpremultiplied(p)[i]]
            0 <= i < unpremultiplied(p).len() && i % 4 == 3 ==> unpremultiplied(p)[i] == p[i],
        forall|i: int|
            #![trigger unpremultiplied(p)[i]]
            0 <= i < unpremultiplied(p).len() && p[i - i % 4 + 3] == 0 ==> unpremultiplied(p)[i]
                == 0,
        forall|i: int|
            #![trigger unpremultiplied(p)[i]]
            0 <= i < unpremultiplied(p).len() && p[i - i % 4 + 3] == 255 ==> unpremultiplied(p)[i]
                == p[i],
{
    assert forall|i: int|
        #![trigger unpremultiplied(p)[i]]
        0 <= i < unpremultiplied(p).len() && p[i - i % 4 + 3] == 255 implies unpremultiplied(p)[i]
        == p[i] by {
        law_opaque_channel_unchanged(p[i]);
    }
}

// ---------------------------------------------------------------------
// URLs
// ---------------------------------------------------------------------

/// "Same page" is an equivalence: reflexive, symmetric and transitive.
pub proof fn law_same_page_equivalence(a: Seq<char>, b: Seq<char>, c: Seq<char>)
    ensures
        same_page(a, a),
        same_page(a, b) ==> same_page(b, a),
        same_page(a, b) && same_page(b, c) ==> same_page(a, c),
{
}

/// A view with no URL reports `about:blank`; any other reports its URL.
pub proof fn law_reported_url(recorded: Seq<char>)
    ensures
        recorded.len() == 0 ==> reported_url(None, recorded) == "about:blank"@,
        recorded.len() > 0 ==> reported_url(None, recorded) == recorded,
{
}

// ---------------------------------------------------------------------
// Stylesheet crawl
// ---------------------------------------------------------------------

/// A crawl step stores a sheet only when it is not cached yet
/// (`should_fetch_css`), and storing it then keeps every sheet cached
/// before, with its text, and adds exactly one entry.
pub proof fn law_crawl_only_adds(cache: Map<Seq<char>, Seq<char>>, key: Seq<char>, css: Seq<char>)
    requires
        !cache.contains_key(key),
    ensures
        cache.insert(key, css).dom() == cache.dom().insert(key),
        forall|k: Seq<char>| #[trigger]
            cache.contains_key(k) ==> cache.insert(key, css).contains_key(k) && cache.insert(
                key,
                css,
            )[k] == cache[k],
        cache.insert(key, css)[key] == css,
{
    assert(cache.insert(key, css).dom() =~= cache.dom().insert(key));
}

// ---------------------------------------------------------------------
// Image fetch epochs
// ---------------------------------------------------------------------

/// A fetch tagged with a view's epoch before a navigation of that view is
/// recognised as stale afterwards; one tagged after it is accepted; the
/// epochs of other views are not touched.
pub proof fn law_navigation_discards_stale_fetches(t: TrackerView, id: ViewId, other: ViewId)
    requires
        other != id,
    ensures
        epoch_of(t.epochs, id) != epoch_of(navigated(t, id).epochs, id),
        epoch_of(navigated(t, id).epochs, id) == next_epoch(epoch_of(t.epochs, id)),
        epoch_of(navigated(t, id).epochs, other) == epoch_of(t.epochs, other),
        navigated(t, id).inflight == 0,
{
}

/// A result arriving does not change any epoch, and the in-flight count
/// never drops below zero.
pub proof fn law_arrival_keeps_epochs(t: TrackerView)
    ensures
        arrived(t).epochs == t.epochs,
        t.inflight > 0 ==> arrived(t).inflight == t.inflight - 1,
        t.inflight == 0 ==> arrived(t).inflight == 0,
{
}

// ---------------------------------------------------------------------
// Basic widget
// ---------------------------------------------------------------------

/// After `ChangeView(index)` on an existing view, that view is current.
pub proof fn law_change_view_selects(v: BasicView, index: u32)
    requires
        index < v.ids.len(),
    ensures
        current_id(change_view_spec(v, index)) == id_at(v, index as int),
{
}

/// Closing a view other than the current one keeps the same view current;
/// closing the current one leaves none current.
pub proof fn law_close_view_keeps_selection(v: BasicView, index: u32)
    requires
        index < v.ids.len(),
        v.current matches Some(c) && c < v.ids.len(),
    ensures
        v.current != Some(index as usize) ==> current_id(close_view_spec(v, index)) == current_id(
            v,
        ),
        v.current == Some(index as usize) ==> current_id(close_view_spec(v, index)) is None,
        close_view_spec(v, index).ids.len() == v.ids.len() - 1,
{
    let c = v.current->Some_0;
    if c != index {
        let after = close_view_spec(v, index);
        if c > index {
            assert(after.ids[c - 1] == v.ids[c as int]);
        } else {
            assert(after.ids[c as int] == v.ids[c as int]);
        }
    }
}

/// `CloseCurrentView` removes exactly the current view; with a valid
/// selection it never meets a stale position and leaves a valid one.
pub proof fn law_close_current(v: BasicView)
    ensures
        selection_valid(v) ==> !(close_current_spec(v).1 is Stale) && selection_valid(
            close_current_spec(v).0,
        ),
        match current_id(v) {
            Some(id) => close_current_spec(v).1 == CloseCurrent::Closed(id)
                && close_current_spec(v).0.ids == v.ids.remove(v.current->Some_0 as int),
            None => close_current_spec(v).0.ids == v.ids,
        },
{
    if selection_valid(v) {
        if let Some(c) = v.current {
            lemma_drop_position(v.used, c as int, v.ids.len() as int);
        }
    }
}

/// After `ChangeView(a)` and then `ChangeView(b)` on another view,
/// `CloseCurrentView` closes `b` and makes `a` current again: the view used
/// last becomes the current one.
pub proof fn law_close_returns_to_previous(v: BasicView, a: u32, b: u32)
    requires
        selection_valid(v),
        a < v.ids.len(),
        b < v.ids.len(),
        a != b,
    ensures
        current_id(close_current_spec(change_view_spec(change_view_spec(v, a), b)).0) == id_at(
            v,
            a as int,
        ),
        close_current_spec(change_view_spec(change_view_spec(v, a), b)).1 == CloseCurrent::Closed(
            v.ids[b as int],
        ),
{
    let x = without_position(v.used, a as usize);
    let w = without_position(x, b as usize);
    assert(x.push(a as usize).drop_last() =~= x);
    assert(without_position(x.push(a as usize), b as usize) == w.push(a as usize));
    let used2 = w.push(a as usize).push(b as usize);
    assert(used2.drop_last() =~= w.push(a as usize));
    assert(drop_position(used2, b as int) == drop_position(w.push(a as usize), b as int));
    assert(w.push(a as usize).drop_last() =~= w);
    let d = drop_position(w, b as int).push(shifted(a as usize, b as int));
    assert(drop_position(w.push(a as usize), b as int) == d);
    assert(last_used(d) == Some(shifted(a as usize, b as int)));
    let ids = v.ids.remove(b as int);
    assert(ids[shifted(a as usize, b as int) as int] == v.ids[a as int]);
}

/// Adding a view keeps the current view and puts the new one last.
pub proof fn law_add_view(v: BasicView, id: ViewId)
    requires
        selection_valid(v),
    ensures
        current_id(BasicView { ids: v.ids.push(id), ..v }) == current_id(v),
        id_at(BasicView { ids: v.ids.push(id), ..v }, v.ids.len() as int) == Some(id),
{
}

// ---------------------------------------------------------------------
// Advanced widget
// ---------------------------------------------------------------------

/// A tracked view reports empty URL and title until the engine reports
/// one; closing it stops tracking it and leaves the others as they were.
pub proof fn law_track_then_close(m: Map<ViewId, String>, id: ViewId, other: ViewId)
    requires
        other != id,
    ensures
        text_for(m.remove(id), id) is None,
        text_for(m.remove(id), other) == text_for(m, other),
{
}

// ---------------------------------------------------------------------
// Staged images
// ---------------------------------------------------------------------

/// Staging keeps one image per source; staging a source again replaces its
/// bytes, as if only the last staging had happened.
pub proof fn law_restaging_replaces(
    s: Seq<(Seq<char>, Seq<u8>, bool)>,
    url: Seq<char>,
    first: Seq<u8>,
    first_redraw: bool,
    second: Seq<u8>,
    second_redraw: bool,
)
    requires
        distinct_sources(s),
    ensures
        staged_after(staged_after(s, url, first, first_redraw), url, second, second_redraw)
            == staged_after(s, url, second, second_redraw),
        exists|i: int|
            0 <= i < staged_after(s, url, second, second_redraw).len() && staged_after(
                s,
                url,
                second,
                second_redraw,
            )[i] == (url, second, second_redraw),
{
    let s1 = staged_after(s, url, first, first_redraw);
    if exists|i: int| 0 <= i < s.len() && s[i].0 == url {
        let i = choose|i: int| 0 <= i < s.len() && s[i].0 == url;
        assert(s1[i].0 == url);
        let j = choose|j: int| 0 <= j < s1.len() && s1[j].0 == url;
        if j != i {
            assert(s1[j] == s[j]);
            assert(s[j].0 != s[i].0);
        }
        assert(staged_after(s1, url, second, second_redraw) =~= staged_after(
            s,
            url,
            second,
            second_redraw,
        ));
        assert(staged_after(s, url, second, second_redraw)[i] == (url, second, second_redraw));
    } else {
        assert(s1[s.len() as int].0 == url);
        let j = choose|j: int| 0 <= j < s1.len() && s1[j].0 == url;
        if j != s.len() {
            assert(s1[j] == s[j]);
        }
        assert(staged_after(s1, url, second, second_redraw) =~= staged_after(
            s,
            url,
            second,
            second_redraw,
        ));
        assert(staged_after(s, url, second, second_redraw)[s.len() as int] == (
            url,
            second,
            second_redraw,
        ));
    }
}

} // verus!
