//! Verified core of an embeddable web view: page descriptions, pixel
//! buffers, HTML/CSS scanning for stylesheet prefetching, URL decisions and
//! the view-bookkeeping state machines that drive a rendering engine.
//!
//! Rendering engines, the GUI widgets and network transfers live outside
//! this crate; they hand plain values in and take decisions back.

pub mod actions;
pub mod advanced;
pub mod basic;
pub mod container;
pub mod fetch;
pub mod image;
pub mod keys;
pub mod laws;
pub mod page;
pub mod page_laws;
pub mod page_state;
pub mod string_map;
pub mod text;
pub mod tracker;
pub mod util;
pub mod view_manager;
pub mod weburl;

pub use container::WebviewContainer;
pub use fetch::{extract_attr, extract_css_imports, extract_stylesheet_links, extract_url_value};
pub use image::{unpremultiply_rgba, ImageInfo};
pub use page::{PageType, PixelFormat, ViewId};
pub use util::html_escape;
pub use weburl::{is_same_page, ParsedUrl};
