//! What a view shows and how an engine lays out its pixels.

use vstd::prelude::*;

verus! {

/// Creation of new pages to be of a html type or a url
#[derive(Clone, Debug, PartialEq, Eq, PartialOrd, Ord)]
pub enum PageType {
    /// Allows visiting Url web pages
    Url(String),
    /// Allows custom html web pages
    Html(String),
}

/// Enables browser engines to display their images in different formats
#[derive(Clone, Copy, Debug, PartialEq, Eq)]
pub enum PixelFormat {
    /// RGBA
    Rgba,
    /// BGRA
    Bgra,
}

/// Identifier an engine gives each of its views.
pub type ViewId = usize;

} // verus!
