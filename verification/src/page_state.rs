//! Per-view decisions of the litehtml engine that do not touch the
//! document itself: staging fetched images, choosing the render step,
//! the page a new view starts with, the URL it reports and the mouse
//! cursor a CSS `cursor` value asks for.

use vstd::prelude::*;

use crate::page::PageType;
use crate::text::{chars_of, push_char, push_str, str_eq};
use vstd::string::StringExecFns;
use crate::weburl::{report_url, reported_url};

verus! {

broadcast use vstd::string::group_string_axioms;

// ---------------------------------------------------------------------
// Staged images
// ---------------------------------------------------------------------

/// Fetched image bytes waiting to be flushed into the container.
pub struct StagedImage {
    /// The raw `src` the document asked for.
    pub url: String,
    /// The fetched bytes.
    pub bytes: Vec<u8>,
    /// The image does not affect layout: a redraw suffices.
    pub redraw_on_ready: bool,
}

/// The view of a staged image.
pub open spec fn staged_view(s: StagedImage) -> (Seq<char>, Seq<u8>, bool) {
    (s.url@, s.bytes@, s.redraw_on_ready)
}

/// Images staged between render cycles, at most one per source.
pub struct StagedImages {
    images: Vec<StagedImage>,
}

/// No source is staged twice.
pub open spec fn distinct_sources(s: Seq<(Seq<char>, Seq<u8>, bool)>) -> bool {
    forall|i: int, j: int| 0 <= i < s.len() && 0 <= j < s.len() && i != j ==> s[i].0 != s[j].0
}

/// The staged images after staging `bytes` for `url`: an image already
/// staged for that source is replaced in place, any other is added last.
pub open spec fn staged_after(
    s: Seq<(Seq<char>, Seq<u8>, bool)>,
    url: Seq<char>,
    bytes: Seq<u8>,
    redraw_on_ready: bool,
) -> Seq<(Seq<char>, Seq<u8>, bool)> {
    if exists|i: int| 0 <= i < s.len() && s[i].0 == url {
        s.update(choose|i: int| 0 <= i < s.len() && s[i].0 == url, (url, bytes, redraw_on_ready))
    } else {
        s.push((url, bytes, redraw_on_ready))
    }
}

impl View for StagedImages {
    type V = Seq<(Seq<char>, Seq<u8>, bool)>;

    closed spec fn view(&self) -> Seq<(Seq<char>, Seq<u8>, bool)> {
        self.images@.map_values(|s: StagedImage| staged_view(s))
    }
}

impl StagedImages {
    #[verifier::type_invariant]
    closed spec fn wf(&self) -> bool {
        distinct_sources(self@)
    }

    /// Nothing staged.
    pub fn new() -> (r: Self)
        ensures
            r@ == Seq::<(Seq<char>, Seq<u8>, bool)>::empty(),
    {
        let r = StagedImages { images: Vec::new() };
        assert(r@ =~= Seq::<(Seq<char>, Seq<u8>, bool)>::empty());
        r
    }

    /// Whether nothing is staged.
    pub fn is_empty(&self) -> (r: bool)
        ensures
            r == (self@.len() == 0),
    {
        self.images.len() == 0
    }

    /// The number of staged images.
    pub fn len(&self) -> (r: usize)
        ensures
            r == self@.len(),
    {
        self.images.len()
    }

    /// Stages fetched bytes for `url`: an image already staged for that
    /// source gets the new bytes and flag in its place, any other is added
    /// last.
    pub fn stage(&mut self, url: &str, bytes: &[u8], redraw_on_ready: bool)
        ensures
            distinct_sources(final(self)@),
            final(self)@ == staged_after(old(self)@, url@, bytes@, redraw_on_ready),
    {
        proof {
            use_type_invariant(&*self);
        }
        let ghost old_v = self@;
        let mut images: Vec<StagedImage> = Vec::new();
        std::mem::swap(&mut images, &mut self.images);
        let mut i: usize = 0;
        let mut found = false;
        while i < images.len() && !found
            invariant
                images@.map_values(|s: StagedImage| staged_view(s)) == old_v,
                i <= images.len(),
                found ==> i < images.len() && old_v[i as int].0 == url@,
                forall|j: int| 0 <= j < i ==> old_v[j].0 != url@,
            decreases images.len() - i + if found { 0int } else { 1int },
        {
            if str_eq(images[i].url.as_str(), url) {
                found = true;
            } else {
                i = i + 1;
            }
        }
        let new_image = StagedImage {
            url: String::from_str(url),
            bytes: vstd::slice::slice_to_vec(bytes),
            redraw_on_ready,
        };
        let ghost entry = (url@, bytes@, redraw_on_ready);
        if found {
            images.set(i, new_image);
            proof {
                let nv = images@.map_values(|s: StagedImage| staged_view(s));
                assert(nv =~= old_v.update(i as int, entry));
                assert forall|k: int| 0 <= k < old_v.len() && old_v[k].0 == url@ implies k == i by {
                    if k != i {
                        assert(old_v[k].0 != old_v[i as int].0);
                    }
                }
                let k = choose|k: int| 0 <= k < old_v.len() && old_v[k].0 == url@;
                assert(k == i);
                assert forall|a: int, b: int|
                    0 <= a < nv.len() && 0 <= b < nv.len() && a != b implies nv[a].0 != nv[b].0 by {
                    if a != i && b != i {
                        assert(old_v[a].0 != old_v[b].0);
                    } else if a == i {
                        assert(old_v[i as int].0 != old_v[b].0);
                    } else {
                        assert(old_v[a].0 != old_v[i as int].0);
                    }
                }
            }
        } else {
            images.push(new_image);
            proof {
                let nv = images@.map_values(|s: StagedImage| staged_view(s));
                assert(nv =~= old_v.push(entry));
                assert forall|a: int, b: int|
                    0 <= a < nv.len() && 0 <= b < nv.len() && a != b implies nv[a].0 != nv[b].0 by {
                    if a < old_v.len() && b < old_v.len() {
                        assert(old_v[a].0 != old_v[b].0);
                    } else if a == old_v.len() {
                        assert(nv[b] == old_v[b]);
                    } else {
                        assert(nv[a] == old_v[a]);
                    }
                }
            }
        }
        self.images = images;
    }

    /// Removes and returns every staged image, in staging order.
    pub fn drain(&mut self) -> (r: Vec<StagedImage>)
        ensures
            r@.map_values(|s: StagedImage| staged_view(s)) == old(self)@,
            final(self)@ == Seq::<(Seq<char>, Seq<u8>, bool)>::empty(),
    {
        let mut images: Vec<StagedImage> = Vec::new();
        std::mem::swap(&mut images, &mut self.images);
        assert(self@ =~= Seq::<(Seq<char>, Seq<u8>, bool)>::empty());
        images
    }

    /// Drops every staged image.
    pub fn clear(&mut self)
        ensures
            final(self)@ == Seq::<(Seq<char>, Seq<u8>, bool)>::empty(),
    {
        self.images = Vec::new();
        assert(self@ =~= Seq::<(Seq<char>, Seq<u8>, bool)>::empty());
    }
}

// ---------------------------------------------------------------------
// Rendering decisions
// ---------------------------------------------------------------------

/// What a render pass of a litehtml view does.
#[derive(Clone, Copy, Debug, PartialEq, Eq, Structural)]
pub enum RenderStep {
    /// The view has no area: nothing happens.
    Skip,
    /// No HTML: the frame becomes a blank one of the container's size.
    Blank,
    /// No document yet: build it from the HTML, then draw.
    Rebuild,
    /// A document exists and images are staged: load them, rebuild, draw.
    FlushImages,
    /// A document exists: draw it.
    Redraw,
}

/// The render step for a view of `width` x `height`.
pub open spec fn render_step(
    width: u32,
    height: u32,
    html_empty: bool,
    has_document: bool,
    has_staged: bool,
) -> RenderStep {
    if width == 0 || height == 0 {
        RenderStep::Skip
    } else if html_empty {
        RenderStep::Blank
    } else if !has_document {
        RenderStep::Rebuild
    } else if has_staged {
        RenderStep::FlushImages
    } else {
        RenderStep::Redraw
    }
}

/// Main render entry point: which step to take.
pub fn plan_render(
    width: u32,
    height: u32,
    html_empty: bool,
    has_document: bool,
    has_staged: bool,
) -> (r: RenderStep)
    ensures
        r == render_step(width, height, html_empty, has_document, has_staged),
{
    if width == 0 || height == 0 {
        RenderStep::Skip
    } else if html_empty {
        RenderStep::Blank
    } else if !has_document {
        RenderStep::Rebuild
    } else if has_staged {
        RenderStep::FlushImages
    } else {
        RenderStep::Redraw
    }
}

/// Minimum height of the first layout pass, so that CSS `100vh` does not
/// cap the content height.
pub const MIN_LAYOUT_HEIGHT: u32 = 10000;

/// The height of the first layout pass for a view `height` high.
pub fn layout_height(height: u32) -> (r: u32)
    ensures
        r == if height >= MIN_LAYOUT_HEIGHT {
            height
        } else {
            MIN_LAYOUT_HEIGHT
        },
{
    if height >= MIN_LAYOUT_HEIGHT {
        height
    } else {
        MIN_LAYOUT_HEIGHT
    }
}

/// Whether a document is built at all: the view has an area and HTML.
pub fn builds_document(width: u32, height: u32, html_empty: bool) -> (r: bool)
    ensures
        r == (width != 0 && height != 0 && !html_empty),
{
    width != 0 && height != 0 && !html_empty
}

/// A view dimension, at least 1.
pub fn at_least_one(d: u32) -> (r: u32)
    ensures
        r == if d == 0 {
            1
        } else {
            d
        },
{
    if d == 0 {
        1
    } else {
        d
    }
}

/// The HTML and URL a new view starts with.
pub fn initial_page(content: &Option<PageType>) -> (r: (String, String))
    ensures
        r.0@ == match content {
            Some(PageType::Html(h)) => h@,
            _ => Seq::<char>::empty(),
        },
        r.1@ == match content {
            Some(PageType::Url(u)) => u@,
            _ => Seq::<char>::empty(),
        },
{
    match content {
        Some(PageType::Html(h)) => (h.clone(), String::new()),
        Some(PageType::Url(u)) => (String::new(), u.clone()),
        None => (String::new(), String::new()),
    }
}

/// The URL a litehtml view reports: its URL, or `about:blank` when it has
/// none.
pub fn display_url(url: &str) -> (r: String)
    ensures
        r@ == reported_url(None, url@),
{
    report_url(None, url)
}

// ---------------------------------------------------------------------
// Mouse cursors
// ---------------------------------------------------------------------

/// The mouse cursor a view asks the widget for.
#[derive(Clone, Copy, Debug, PartialEq, Eq, Structural)]
pub enum Interaction {
    Idle,
    Pointer,
    Text,
    Crosshair,
    Grab,
    Grabbing,
    NotAllowed,
    ResizingHorizontally,
    ResizingVertically,
    ZoomIn,
    ZoomOut,
}

/// The cursor for a CSS `cursor` value.
pub open spec fn css_cursor(c: Seq<char>) -> Interaction {
    if c == "pointer"@ {
        Interaction::Pointer
    } else if c == "text"@ {
        Interaction::Text
    } else if c == "crosshair"@ {
        Interaction::Crosshair
    } else if c == "grab"@ {
        Interaction::Grab
    } else if c == "grabbing"@ {
        Interaction::Grabbing
    } else if c == "not-allowed"@ || c == "no-drop"@ {
        Interaction::NotAllowed
    } else if c == "col-resize"@ || c == "ew-resize"@ {
        Interaction::ResizingHorizontally
    } else if c == "row-resize"@ || c == "ns-resize"@ {
        Interaction::ResizingVertically
    } else {
        Interaction::Idle
    }
}

/// Map a CSS cursor value from litehtml to a mouse interaction.
pub fn css_cursor_to_interaction(cursor: &str) -> (r: Interaction)
    ensures
        r == css_cursor(cursor@),
{
    if str_eq(cursor, "pointer") {
        Interaction::Pointer
    } else if str_eq(cursor, "text") {
        Interaction::Text
    } else if str_eq(cursor, "crosshair") {
        Interaction::Crosshair
    } else if str_eq(cursor, "grab") {
        Interaction::Grab
    } else if str_eq(cursor, "grabbing") {
        Interaction::Grabbing
    } else if str_eq(cursor, "not-allowed") || str_eq(cursor, "no-drop") {
        Interaction::NotAllowed
    } else if str_eq(cursor, "col-resize") || str_eq(cursor, "ew-resize") {
        Interaction::ResizingHorizontally
    } else if str_eq(cursor, "row-resize") || str_eq(cursor, "ns-resize") {
        Interaction::ResizingVertically
    } else {
        Interaction::Idle
    }
}

/// The cursor shapes a URL-loading engine reports.
#[derive(Clone, Copy, Debug, PartialEq, Eq, Structural)]
pub enum EngineCursor {
    Pointer,
    Text,
    VerticalText,
    Crosshair,
    Cell,
    Grab,
    AllScroll,
    Grabbing,
    NotAllowed,
    NoDrop,
    ColResize,
    EwResize,
    EResize,
    WResize,
    RowResize,
    NsResize,
    NResize,
    SResize,
    ZoomIn,
    ZoomOut,
    /// Any other shape (the default arrow among them).
    Other,
}

/// The widget cursor for an engine cursor.
pub open spec fn engine_cursor(c: EngineCursor) -> Interaction {
    match c {
        EngineCursor::Pointer => Interaction::Pointer,
        EngineCursor::Text | EngineCursor::VerticalText => Interaction::Text,
        EngineCursor::Crosshair | EngineCursor::Cell => Interaction::Crosshair,
        EngineCursor::Grab | EngineCursor::AllScroll => Interaction::Grab,
        EngineCursor::Grabbing => Interaction::Grabbing,
        EngineCursor::NotAllowed | EngineCursor::NoDrop => Interaction::NotAllowed,
        EngineCursor::ColResize | EngineCursor::EwResize | EngineCursor::EResize
        | EngineCursor::WResize => Interaction::ResizingHorizontally,
        EngineCursor::RowResize | EngineCursor::NsResize | EngineCursor::NResize
        | EngineCursor::SResize => Interaction::ResizingVertically,
        EngineCursor::ZoomIn => Interaction::ZoomIn,
        EngineCursor::ZoomOut => Interaction::ZoomOut,
        EngineCursor::Other => Interaction::Idle,
    }
}

/// Map an engine cursor to a mouse interaction.
pub fn cursor_to_interaction(cursor: EngineCursor) -> (r: Interaction)
    ensures
        r == engine_cursor(cursor),
{
    match cursor {
        EngineCursor::Pointer => Interaction::Pointer,
        EngineCursor::Text | EngineCursor::VerticalText => Interaction::Text,
        EngineCursor::Crosshair | EngineCursor::Cell => Interaction::Crosshair,
        EngineCursor::Grab | EngineCursor::AllScroll => Interaction::Grab,
        EngineCursor::Grabbing => Interaction::Grabbing,
        EngineCursor::NotAllowed | EngineCursor::NoDrop => Interaction::NotAllowed,
        EngineCursor::ColResize | EngineCursor::EwResize | EngineCursor::EResize
        | EngineCursor::WResize => Interaction::ResizingHorizontally,
        EngineCursor::RowResize | EngineCursor::NsResize | EngineCursor::NResize
        | EngineCursor::SResize => Interaction::ResizingVertically,
        EngineCursor::ZoomIn => Interaction::ZoomIn,
        EngineCursor::ZoomOut => Interaction::ZoomOut,
        EngineCursor::Other => Interaction::Idle,
    }
}

// ---------------------------------------------------------------------
// Fragment selectors
// ---------------------------------------------------------------------

/// The replacement of one character inside a double-quoted CSS string.
pub open spec fn css_string_char(c: char) -> Seq<char> {
    if c == '\\' {
        seq!['\\', '\\']
    } else if c == '"' {
        seq!['\\', '"']
    } else {
        seq![c]
    }
}

/// `s` with backslashes and double quotes escaped by a backslash.
pub open spec fn css_string_escaped(s: Seq<char>) -> Seq<char>
    decreases s.len(),
{
    if s.len() == 0 {
        Seq::empty()
    } else {
        css_string_escaped(s.drop_last()) + css_string_char(s.last())
    }
}

/// The attribute selector matching elements whose `name` is `fragment`.
pub open spec fn name_selector_for(fragment: Seq<char>) -> Seq<char> {
    "[name=\""@ + css_string_escaped(fragment) + "\"]"@
}

/// Builds the `[name="..."]` selector used when no element has the
/// fragment as its id.
pub fn name_selector(fragment: &str) -> (r: String)
    ensures
        r@ == name_selector_for(fragment@),
{
    let v = chars_of(fragment);
    let mut r = String::new();
    push_str(&mut r, "[name=\"");
    let ghost start = r@;
    let mut i: usize = 0;
    while i < v.len()
        invariant
            i <= v.len(),
            v@ == fragment@,
            r@ == start + css_string_escaped(v@.take(i as int)),
        decreases v.len() - i,
    {
        let c = v[i];
        if c == '\\' {
            push_char(&mut r, '\\');
            push_char(&mut r, '\\');
        } else if c == '"' {
            push_char(&mut r, '\\');
            push_char(&mut r, '"');
        } else {
            push_char(&mut r, c);
        }
        assert(v@.take(i + 1).drop_last() =~= v@.take(i as int));
        assert(r@ =~= start + css_string_escaped(v@.take(i + 1)));
        i = i + 1;
    }
    assert(v@.take(v.len() as int) =~= v@);
    push_str(&mut r, "\"]");
    assert(r@ =~= name_selector_for(fragment@));
    r
}

/// CSS selector meta-characters that `litehtml::css_escape_ident` escapes.
pub open spec fn is_css_meta(c: char) -> bool {
    ||| c == '.' || c == ':' || c == '[' || c == ']' || c == '(' || c == ')' || c == '#'
    ||| c == '>' || c == '+' || c == '~' || c == ',' || c == ' ' || c == '{' || c == '}'
    ||| c == '!' || c == '"' || c == '\'' || c == '\\' || c == '/' || c == '=' || c == '^'
    ||| c == '$' || c == '*' || c == '|' || c == '%' || c == '&' || c == '@'
}

/// The escape of one identifier character (`first`: it is the first one).
pub open spec fn css_ident_char(c: char, first: bool) -> Seq<char> {
    (if is_css_meta(c) {
        seq!['\\']
    } else {
        Seq::empty()
    }) + (if first && '0' <= c && c <= '9' {
        seq!['\\']
    } else {
        Seq::empty()
    }) + seq![c]
}

/// `s` escaped for use as an identifier in a selector: a backslash before
/// each meta-character and before a leading digit.
pub open spec fn css_ident_escaped(s: Seq<char>) -> Seq<char>
    decreases s.len(),
{
    if s.len() == 0 {
        Seq::empty()
    } else {
        css_ident_escaped(s.drop_last()) + css_ident_char(s.last(), s.len() == 1)
    }
}

/// `litehtml::css_escape_ident`: escapes CSS meta-characters (and a leading
/// digit) with a backslash.
#[verifier::external_body]
pub(crate) fn css_escape_ident(s: &str) -> (r: String)
    ensures
        r@ == css_ident_escaped(s@),
{
    litehtml::css_escape_ident(s)
}

/// The id selector for a fragment: `#` and the escaped fragment.
pub fn id_selector(fragment: &str) -> (r: String)
    ensures
        r@ == seq!['#'] + css_ident_escaped(fragment@),
{
    let escaped = css_escape_ident(fragment);
    let mut r = String::new();
    push_char(&mut r, '#');
    push_str(&mut r, escaped.as_str());
    r
}

} // verus!
