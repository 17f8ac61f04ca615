//! Pixel buffers handed from an engine to the widget: RGBA frames, blank
//! frames and the conversion from premultiplied alpha.

use vstd::prelude::*;

use crate::page::PixelFormat;

verus! {

/// Default frame width.
pub const DEFAULT_WIDTH: u32 = 800;

/// Default frame height.
pub const DEFAULT_HEIGHT: u32 = 800;

/// The byte at position `i` of `p` after swapping the first and third byte of
/// every 4-byte pixel.
pub open spec fn swapped_byte(p: Seq<u8>, i: int) -> u8 {
    let base = i - i % 4;
    if i % 4 == 0 {
        p[base + 2]
    } else if i % 4 == 2 {
        p[base]
    } else {
        p[i]
    }
}

/// BGRA pixels reordered as RGBA (and the converse: the swap is its own
/// inverse).
pub open spec fn swap_red_blue(p: Seq<u8>) -> Seq<u8> {
    Seq::new(p.len(), |i: int| swapped_byte(p, i))
}

/// The RGBA pixels for a buffer given in `format`.
pub open spec fn to_rgba(p: Seq<u8>, format: PixelFormat) -> Seq<u8> {
    match format {
        PixelFormat::Rgba => p,
        PixelFormat::Bgra => swap_red_blue(p),
    }
}

/// The dimensions a blank frame of `width` x `height` really gets: the
/// requested ones when `width * height * 4` bytes can be addressed, else 1 x 1.
pub open spec fn blank_dims(width: u32, height: u32) -> (u32, u32) {
    if width * height * 4 <= usize::MAX {
        (width, height)
    } else {
        (1, 1)
    }
}

/// One colour channel converted from premultiplied to straight alpha.
pub open spec fn unpremultiply_channel(c: u8, a: u8) -> u8 {
    let v = (c * 255 + a / 2) / (a as int);
    if v > 255 {
        255
    } else {
        v as u8
    }
}

/// Byte `i` of the straight-alpha conversion of `p`.
pub open spec fn unpremultiplied_byte(p: Seq<u8>, i: int) -> u8 {
    let base = i - i % 4;
    let a = p[base + 3];
    if a == 0 {
        0
    } else if i % 4 == 3 {
        a
    } else {
        unpremultiply_channel(p[i], a)
    }
}

/// Straight-alpha RGBA for premultiplied RGBA `p`; a trailing partial pixel
/// is dropped.
pub open spec fn unpremultiplied(p: Seq<u8>) -> Seq<u8> {
    Seq::new((p.len() - p.len() % 4) as nat, |i: int| unpremultiplied_byte(p, i))
}

/// Image details for passing the view around
pub struct ImageInfo {
    width: u32,
    height: u32,
    raw_pixels: Vec<u8>,
}

impl ImageInfo {
    /// Image width (spec).
    pub closed spec fn spec_width(&self) -> u32 {
        self.width
    }

    /// Image height (spec).
    pub closed spec fn spec_height(&self) -> u32 {
        self.height
    }

    /// The RGBA bytes (spec).
    pub closed spec fn spec_pixels(&self) -> Seq<u8> {
        self.raw_pixels@
    }

    /// A frame from `pixels` laid out in `format`, stored as RGBA.
    pub fn new(pixels: Vec<u8>, format: PixelFormat, width: u32, height: u32) -> (r: Self)
        requires
            pixels.len() % 4 == 0,
        ensures
            r.spec_width() == width,
            r.spec_height() == height,
            r.spec_pixels() == to_rgba(pixels@, format),
    {
        let raw_pixels = match format {
            PixelFormat::Rgba => pixels,
            PixelFormat::Bgra => swap_channels(pixels),
        };
        ImageInfo { width, height, raw_pixels }
    }

    /// A frame for the shader rendering path, taken as it is (RGBA).
    pub fn from_shader_pixels(pixels: Vec<u8>, width: u32, height: u32) -> (r: Self)
        requires
            pixels.len() % 4 == 0,
        ensures
            r.spec_width() == width,
            r.spec_height() == height,
            r.spec_pixels() == pixels@,
    {
        ImageInfo { width, height, raw_pixels: pixels }
    }

    /// Image width.
    pub fn image_width(&self) -> (r: u32)
        ensures
            r == self.spec_width(),
    {
        self.width
    }

    /// Image height.
    pub fn image_height(&self) -> (r: u32)
        ensures
            r == self.spec_height(),
    {
        self.height
    }

    /// Raw RGBA pixel data for direct GPU upload (shader widget path).
    pub fn pixels(&self) -> (r: &Vec<u8>)
        ensures
            r@ == self.spec_pixels(),
    {
        &self.raw_pixels
    }

    /// The RGBA bytes, taken out of the frame.
    pub fn into_pixels(self) -> (r: Vec<u8>)
        ensures
            r@ == self.spec_pixels(),
    {
        self.raw_pixels
    }

    /// An opaque white frame of `width` x `height`, or 1 x 1 where that many
    /// bytes cannot be addressed.
    pub fn blank(width: u32, height: u32) -> (r: Self)
        ensures
            (r.spec_width(), r.spec_height()) == blank_dims(width, height),
            r.spec_pixels().len() == r.spec_width() * r.spec_height() * 4,
            forall|i: int| 0 <= i < r.spec_pixels().len() ==> r.spec_pixels()[i] == 255,
    {
        let w_us: usize = width as usize;
        let h_us: usize = height as usize;
        let fits = match w_us.checked_mul(h_us) {
            Some(n) => n.checked_mul(4).is_some(),
            None => false,
        };
        proof {
            if width * height <= usize::MAX {
                assert(fits == (width * height * 4 <= usize::MAX));
            } else {
                assert(width * height * 4 > usize::MAX) by (nonlinear_arith)
                    requires
                        width * height > usize::MAX,
                ;
            }
        }
        let (w, h): (u32, u32) = if fits {
            (width, height)
        } else {
            (1, 1)
        };
        proof {
            assert(w * h * 4 <= usize::MAX);
            assert(w * h <= usize::MAX) by (nonlinear_arith)
                requires
                    w * h * 4 <= usize::MAX,
            ;
        }
        let n: usize = (w as usize * h as usize) * 4;
        let mut pixels: Vec<u8> = Vec::new();
        let mut i: usize = 0;
        while i < n
            invariant
                i <= n,
                pixels.len() == i,
                forall|j: int| 0 <= j < i ==> pixels@[j] == 255,
            decreases n - i,
        {
            pixels.push(255);
            i = i + 1;
        }
        ImageInfo { width: w, height: h, raw_pixels: pixels }
    }
}

impl Default for ImageInfo {
    fn default() -> (r: Self)
        ensures
            r.spec_width() == DEFAULT_WIDTH,
            r.spec_height() == DEFAULT_HEIGHT,
            r.spec_pixels().len() == DEFAULT_WIDTH * DEFAULT_HEIGHT * 4,
            forall|i: int| 0 <= i < r.spec_pixels().len() ==> r.spec_pixels()[i] == 255,
    {
        ImageInfo::blank(DEFAULT_WIDTH, DEFAULT_HEIGHT)
    }
}

/// Swaps the first and third byte of every 4-byte pixel (BGRA <-> RGBA).
pub fn swap_channels(pixels: Vec<u8>) -> (r: Vec<u8>)
    requires
        pixels.len() % 4 == 0,
    ensures
        r@ == swap_red_blue(pixels@),
{
    let mut p = pixels;
    let n = p.len();
    let mut i: usize = 0;
    while i < n
        invariant
            n == p.len() == pixels.len(),
            n % 4 == 0,
            i % 4 == 0,
            i <= n,
            forall|j: int| 0 <= j < i ==> p@[j] == swapped_byte(pixels@, j),
            forall|j: int| i <= j < n ==> p@[j] == pixels@[j],
        decreases n - i,
    {
        let b0 = p[i];
        let b2 = p[i + 2];
        p.set(i, b2);
        p.set(i + 2, b0);
        assert forall|j: int| 0 <= j < i + 4 implies p@[j] == swapped_byte(pixels@, j) by {
            if j >= i {
                assert(j - j % 4 == i);
            }
        }
        i = i + 4;
    }
    assert(p@ =~= swap_red_blue(pixels@));
    p
}

/// Convert premultiplied-alpha RGBA pixels to straight alpha.
///
/// Each colour channel becomes `min((c * 255 + a / 2) / a, 255)`; a pixel
/// with alpha 0 becomes all zero; alpha is kept. A trailing partial pixel
/// is dropped.
pub fn unpremultiply_rgba(pixels: &[u8]) -> (r: Vec<u8>)
    ensures
        r@ == unpremultiplied(pixels@),
{
    let n = pixels.len();
    let full = n - n % 4;
    let mut r: Vec<u8> = Vec::with_capacity(n);
    let mut i: usize = 0;
    while i < full
        invariant
            n == pixels@.len(),
            full == n - n % 4,
            i % 4 == 0,
            i <= full,
            r.len() == i,
            forall|j: int| 0 <= j < i ==> r@[j] == unpremultiplied_byte(pixels@, j),
        decreases full - i,
    {
        let a = pixels[i + 3];
        if a == 0 {
            r.push(0);
            r.push(0);
            r.push(0);
            r.push(0);
        } else {
            let cr = unpremultiply_one(pixels[i], a);
            let cg = unpremultiply_one(pixels[i + 1], a);
            let cb = unpremultiply_one(pixels[i + 2], a);
            r.push(cr);
            r.push(cg);
            r.push(cb);
            r.push(a);
        }
        assert forall|j: int| 0 <= j < i + 4 implies r@[j] == unpremultiplied_byte(pixels@, j) by {
            if j >= i {
                assert(j - j % 4 == i);
            }
        }
        i = i + 4;
    }
    assert(r@ =~= unpremultiplied(pixels@));
    r
}

/// One channel from premultiplied to straight alpha.
fn unpremultiply_one(c: u8, a: u8) -> (r: u8)
    requires
        a != 0,
    ensures
        r == unpremultiply_channel(c, a),
{
    let cc: u32 = c as u32;
    let aa: u32 = a as u32;
    assert(cc * 255 + aa / 2 <= 255 * 255 + 127) by (nonlinear_arith)
        requires
            cc <= 255,
            aa <= 255,
    ;
    let v: u32 = (cc * 255 + aa / 2) / aa;
    if v > 255 {
        255
    } else {
        v as u8
    }
}

} // verus!
