//! Escaping of text that is placed into generated HTML.

use vstd::prelude::*;

use crate::text::{chars_of, push_char, push_str};

verus! {

/// The replacement of one character in escaped HTML text.
pub open spec fn escape_char(c: char) -> Seq<char> {
    if c == '&' {
        "&amp;"@
    } else if c == '<' {
        "&lt;"@
    } else if c == '>' {
        "&gt;"@
    } else if c == '"' {
        "&quot;"@
    } else {
        seq![c]
    }
}

/// `s` with `&`, `<`, `>` and `"` replaced by their character references.
pub open spec fn html_escaped(s: Seq<char>) -> Seq<char>
    decreases s.len(),
{
    if s.len() == 0 {
        Seq::empty()
    } else {
        html_escaped(s.drop_last()) + escape_char(s.last())
    }
}

/// `t` ends with `p`.
pub open spec fn ends_with(t: Seq<char>, p: Seq<char>) -> bool {
    p.len() <= t.len() && t.subrange(t.len() - p.len(), t.len() as int) == p
}

/// The character reference `&amp;`.
pub open spec fn amp_ref() -> Seq<char> {
    seq!['&', 'a', 'm', 'p', ';']
}

/// The character reference `&lt;`.
pub open spec fn lt_ref() -> Seq<char> {
    seq!['&', 'l', 't', ';']
}

/// The character reference `&gt;`.
pub open spec fn gt_ref() -> Seq<char> {
    seq!['&', 'g', 't', ';']
}

/// The character reference `&quot;`.
pub open spec fn quot_ref() -> Seq<char> {
    seq!['&', 'q', 'u', 'o', 't', ';']
}

/// `t` with the references `&amp;`, `&lt;`, `&gt;` and `&quot;` decoded
/// back to `&`, `<`, `>` and `"`; every other character is kept.
pub open spec fn html_unescaped(t: Seq<char>) -> Seq<char>
    decreases t.len(),
{
    if t.len() == 0 {
        Seq::empty()
    } else if ends_with(t, amp_ref()) {
        html_unescaped(t.subrange(0, t.len() - 5)).push('&')
    } else if ends_with(t, lt_ref()) {
        html_unescaped(t.subrange(0, t.len() - 4)).push('<')
    } else if ends_with(t, gt_ref()) {
        html_unescaped(t.subrange(0, t.len() - 4)).push('>')
    } else if ends_with(t, quot_ref()) {
        html_unescaped(t.subrange(0, t.len() - 6)).push('"')
    } else {
        html_unescaped(t.drop_last()).push(t.last())
    }
}

/// `t` with the occurrences of `p`, found left to right without overlap,
/// replaced by `r` (`str::replace` for a non-empty `p`).
pub open spec fn replaced(t: Seq<char>, p: Seq<char>, r: Seq<char>) -> Seq<char>
    decreases t.len(),
{
    if t.len() == 0 {
        Seq::empty()
    } else if p.len() > 0 && p.len() <= t.len() && t.subrange(0, p.len() as int) == p {
        r + replaced(t.subrange(p.len() as int, t.len() as int), p, r)
    } else {
        seq![t[0]] + replaced(t.drop_first(), p, r)
    }
}

/// `t` unescaped by replacing `&lt;`, `&gt;` and `&quot;` with `<`, `>` and
/// `"`, and then `&amp;` with `&`.
pub open spec fn html_unescaped_in_order(t: Seq<char>) -> Seq<char> {
    replaced(
        replaced(replaced(replaced(t, lt_ref(), seq!['<']), gt_ref(), seq!['>']), quot_ref(), seq!['"']),
        amp_ref(),
        seq!['&'],
    )
}

/// Minimal HTML escaping for error pages.
pub fn html_escape(s: &str) -> (r: String)
    ensures
        r@ == html_escaped(s@),
{
    let v = chars_of(s);
    let mut r = String::new();
    let mut i: usize = 0;
    while i < v.len()
        invariant
            i <= v.len(),
            v@ == s@,
            r@ == html_escaped(v@.take(i as int)),
        decreases v.len() - i,
    {
        let c = v[i];
        if c == '&' {
            push_str(&mut r, "&amp;");
        } else if c == '<' {
            push_str(&mut r, "&lt;");
        } else if c == '>' {
            push_str(&mut r, "&gt;");
        } else if c == '"' {
            push_str(&mut r, "&quot;");
        } else {
            push_char(&mut r, c);
        }
        assert(v@.take(i + 1).drop_last() =~= v@.take(i as int));
        i = i + 1;
    }
    assert(v@.take(v.len() as int) =~= v@);
    r
}

} // verus!
