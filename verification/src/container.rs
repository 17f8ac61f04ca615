//! The document container wrapper of the litehtml engine: it resolves the
//! URLs a document asks for, answers `@import` requests from a prefetched
//! stylesheet cache and remembers the base URL each image was requested
//! with. The drawing container it wraps is any type `C`.

use vstd::prelude::*;

use crate::string_map::StringMap;
use vstd::string::StringExecFns;
use crate::weburl::{opt_url_view, opt_view, resolve_url, resolved, ParsedUrl};

verus! {

broadcast use vstd::string::group_string_axioms;

/// Wrapper around a drawing container that handles CSS import resolution
/// and image baseurl tracking.
pub struct WebviewContainer<C> {
    inner: C,
    base_url: String,
    css_cache: StringMap,
    image_baseurls: StringMap,
}

/// The answer to an `@import` of `url` (in the context `baseurl`) from a
/// container with page base URL `page_base` and stylesheet cache `cache`:
/// the cached text and its key, or nothing.
pub open spec fn import_answer(
    url: Seq<char>,
    baseurl: Seq<char>,
    page_base: Seq<char>,
    cache: Map<Seq<char>, Seq<char>>,
) -> (Seq<char>, Option<Seq<char>>) {
    match resolved(url, baseurl, page_base) {
        Some(key) => if cache.contains_key(key) {
            (cache[key], Some(key))
        } else {
            (Seq::empty(), None)
        },
        None => (Seq::empty(), None),
    }
}

impl<C> WebviewContainer<C> {
    /// The wrapped drawing container.
    pub closed spec fn spec_inner(&self) -> C {
        self.inner
    }

    /// The page base URL used as the last resort for resolution.
    pub closed spec fn spec_base_url(&self) -> Seq<char> {
        self.base_url@
    }

    /// The prefetched stylesheets, by resolved URL.
    pub closed spec fn spec_css_cache(&self) -> Map<Seq<char>, Seq<char>> {
        self.css_cache@
    }

    /// The base URL each image source was requested with.
    pub closed spec fn spec_image_baseurls(&self) -> Map<Seq<char>, Seq<char>> {
        self.image_baseurls@
    }

    /// Wraps `inner`, with no base URL and empty caches.
    pub fn new(inner: C) -> (r: Self)
        ensures
            r.spec_inner() == inner,
            r.spec_base_url().len() == 0,
            r.spec_css_cache() == Map::<Seq<char>, Seq<char>>::empty(),
            r.spec_image_baseurls() == Map::<Seq<char>, Seq<char>>::empty(),
    {
        WebviewContainer {
            inner,
            base_url: String::new(),
            css_cache: StringMap::new(),
            image_baseurls: StringMap::new(),
        }
    }

    /// The wrapped drawing container.
    pub fn inner(&self) -> (r: &C)
        ensures
            *r == self.spec_inner(),
    {
        &self.inner
    }

    /// The wrapped drawing container, for changes; nothing else changes.
    pub fn inner_mut(&mut self) -> (r: &mut C)
        ensures
            *r == old(self).spec_inner(),
            final(self).spec_inner() == *final(r),
            final(self).spec_base_url() == old(self).spec_base_url(),
            final(self).spec_css_cache() == old(self).spec_css_cache(),
            final(self).spec_image_baseurls() == old(self).spec_image_baseurls(),
    {
        &mut self.inner
    }

    /// Replaces the stylesheet cache.
    pub fn set_css_cache(&mut self, cache: StringMap)
        ensures
            final(self).spec_css_cache() == cache@,
            final(self).spec_inner() == old(self).spec_inner(),
            final(self).spec_base_url() == old(self).spec_base_url(),
            final(self).spec_image_baseurls() == old(self).spec_image_baseurls(),
    {
        self.css_cache = cache;
    }

    /// Records the page base URL (the container's `set_base_url`).
    pub fn set_base_url(&mut self, base_url: &str)
        ensures
            final(self).spec_base_url() == base_url@,
            final(self).spec_inner() == old(self).spec_inner(),
            final(self).spec_css_cache() == old(self).spec_css_cache(),
            final(self).spec_image_baseurls() == old(self).spec_image_baseurls(),
    {
        self.base_url = String::from_str(base_url);
    }

    /// Resolve a URL against a given base, falling back to the page base URL.
    pub fn resolve_against(&self, href: &str, baseurl: &str) -> (r: Option<ParsedUrl>)
        ensures
            opt_url_view(r) == resolved(href@, baseurl@, self.spec_base_url()),
    {
        resolve_url(href, baseurl, self.base_url.as_str())
    }

    /// Answers an `@import`: the cached stylesheet for the resolved URL and
    /// that URL, or an empty text and nothing when it was not prefetched.
    pub fn import_css(&self, url: &str, baseurl: &str) -> (r: (String, Option<String>))
        ensures
            (r.0@, opt_view(r.1)) == import_answer(
                url@,
                baseurl@,
                self.spec_base_url(),
                self.spec_css_cache(),
            ),
    {
        let resolved = match self.resolve_against(url, baseurl) {
            Some(u) => u,
            None => return (String::new(), None),
        };
        let key = resolved.to_string();
        match self.css_cache.get(key.as_str()) {
            Some(cached) => (cached.clone(), Some(key)),
            None => (String::new(), None),
        }
    }

    /// Remembers the base URL an image source was requested with (the
    /// bookkeeping of `load_image`); an empty base URL is not recorded.
    pub fn note_image_baseurl(&mut self, src: &str, baseurl: &str)
        ensures
            final(self).spec_image_baseurls() == if baseurl@.len() == 0 {
                old(self).spec_image_baseurls()
            } else {
                old(self).spec_image_baseurls().insert(src@, baseurl@)
            },
            final(self).spec_inner() == old(self).spec_inner(),
            final(self).spec_base_url() == old(self).spec_base_url(),
            final(self).spec_css_cache() == old(self).spec_css_cache(),
    {
        if !baseurl.is_empty() {
            self.image_baseurls.insert(String::from_str(src), String::from_str(baseurl));
        }
    }

    /// Forgets every recorded image base URL.
    pub fn clear_image_baseurls(&mut self)
        ensures
            final(self).spec_image_baseurls() == Map::<Seq<char>, Seq<char>>::empty(),
            final(self).spec_inner() == old(self).spec_inner(),
            final(self).spec_base_url() == old(self).spec_base_url(),
            final(self).spec_css_cache() == old(self).spec_css_cache(),
    {
        self.image_baseurls.clear();
    }

    /// The base URL recorded for an image source, or the empty string.
    pub fn image_baseurl(&self, src: &str) -> (r: String)
        ensures
            r@ == if self.spec_image_baseurls().contains_key(src@) {
                self.spec_image_baseurls()[src@]
            } else {
                Seq::<char>::empty()
            },
    {
        self.image_baseurls.get_or_empty(src)
    }
}

} // verus!
