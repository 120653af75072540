//! Pixel buffers: the frame a backend hands over, the conversion between
//! channel orders and alpha conventions, and the primitive uploaded for
//! drawing.

use vstd::prelude::*;

verus! {

/// The channel order in which a backend delivers its pixels.
#[derive(Clone, Copy, Debug, PartialEq, Eq, Structural)]
pub enum PixelFormat {
    /// Red, green, blue, alpha.
    Rgba,
    /// Blue, green, red, alpha.
    Bgra,
}

/// A colour channel with the alpha factor `a` divided out again, rounded to
/// the nearest value and limited to the channel's range.
pub open spec fn straight(c: u8, a: u8) -> u8 {
    if a == 0 {
        0u8
    } else {
        let v = (c * 255 + a / 2) / (a as int);
        if v > 255 {
            255u8
        } else {
            v as u8
        }
    }
}

/// The straight-alpha form of premultiplied pixels: every whole pixel has its
/// three colour channels divided by its alpha, which itself is kept. Bytes
/// behind the last whole pixel are dropped.
pub open spec fn unpremultiplied(p: Seq<u8>) -> Seq<u8> {
    Seq::new(
        ((p.len() / 4) * 4) as nat,
        |i: int|
            if i % 4 == 3 {
                p[i]
            } else {
                straight(p[i], p[(i / 4) * 4 + 3])
            },
    )
}

/// Pixels with the first and third channel of every whole pixel exchanged.
pub open spec fn swapped(p: Seq<u8>) -> Seq<u8> {
    Seq::new(
        p.len(),
        |i: int|
            if i >= (p.len() / 4) * 4 {
                p[i]
            } else if i % 4 == 0 {
                p[i + 2]
            } else if i % 4 == 2 {
                p[i - 2]
            } else {
                p[i]
            },
    )
}

/// The pixels of a frame in RGBA order, given the order they came in.
pub open spec fn as_rgba(p: Seq<u8>, format: PixelFormat) -> Seq<u8> {
    match format {
        PixelFormat::Rgba => p,
        PixelFormat::Bgra => swapped(p),
    }
}

/// A buffer of `n` bytes that are all 255: opaque white.
pub open spec fn white(n: nat) -> Seq<u8> {
    Seq::new(n, |i: int| 255u8)
}

/// A fully opaque pixel keeps its colour.
pub proof fn lemma_opaque_is_unchanged(c: u8)
    ensures
        straight(c, 255) == c,
{
}

/// Exchanging the channels twice gives the original pixels back.
pub proof fn lemma_swapped_twice(p: Seq<u8>)
    ensures
        swapped(swapped(p)) == p,
{
    assert(swapped(swapped(p)) =~= p);
}

fn straighten(c: u8, a: u8) -> (r: u8)
    requires
        a != 0,
    ensures
        r == straight(c, a),
{
    let wide: u32 = (c as u32 * 255 + a as u32 / 2) / a as u32;
    if wide > 255 {
        255
    } else {
        wide as u8
    }
}

/// Converts premultiplied-alpha RGBA pixels to straight alpha.
pub fn unpremultiply_rgba(pixels: &[u8]) -> (result: Vec<u8>)
    ensures
        result@ == unpremultiplied(pixels@),
{
    let n: usize = pixels.len() / 4;
    let mut result: Vec<u8> = Vec::new();
    let mut k: usize = 0;
    while k < n
        invariant
            n == pixels.len() / 4,
            k <= n,
            result@ == unpremultiplied(pixels@).take(4 * k),
        decreases n - k,
    {
        let base: usize = 4 * k;
        let a = pixels[base + 3];
        let ghost before = result@;
        if a == 0 {
            result.push(0);
            result.push(0);
            result.push(0);
            result.push(0);
        } else {
            result.push(straighten(pixels[base], a));
            result.push(straighten(pixels[base + 1], a));
            result.push(straighten(pixels[base + 2], a));
            result.push(a);
        }
        assert(result@ =~= unpremultiplied(pixels@).take(4 * (k + 1)));
        k += 1;
    }
    assert(unpremultiplied(pixels@).take(4 * n) =~= unpremultiplied(pixels@));
    result
}

/// Exchanges the first and third channel of every whole pixel in place.
pub fn swap_red_blue(pixels: &mut Vec<u8>)
    ensures
        final(pixels)@ == swapped(old(pixels)@),
{
    let len: usize = pixels.len();
    let n: usize = len / 4;
    let mut k: usize = 0;
    while k < n
        invariant
            n == len / 4,
            pixels@.len() == len,
            old(pixels)@.len() == len,
            k <= n,
            forall|i: int| 0 <= i < 4 * k ==> pixels@[i] == swapped(old(pixels)@)[i],
            forall|i: int| 4 * k <= i < pixels@.len() ==> pixels@[i] == old(pixels)@[i],
        decreases n - k,
    {
        let base: usize = 4 * k;
        let first = pixels[base];
        let third = pixels[base + 2];
        pixels.set(base, third);
        pixels.set(base + 2, first);
        k += 1;
    }
    assert(pixels@ =~= swapped(old(pixels)@));
}

/// One frame of a view: its pixels in RGBA order with their dimensions.
#[derive(Clone, Debug)]
pub struct ImageInfo {
    width: u32,
    height: u32,
    pixels: Vec<u8>,
}

impl ImageInfo {
    /// The pixels of the frame, four bytes each.
    pub closed spec fn data(&self) -> Seq<u8> {
        self.pixels@
    }

    /// The width the frame was made with.
    pub closed spec fn spec_width(&self) -> u32 {
        self.width
    }

    /// The height the frame was made with.
    pub closed spec fn spec_height(&self) -> u32 {
        self.height
    }

    /// Wraps the pixels a backend produced, bringing them into RGBA order.
    pub fn new(pixels: Vec<u8>, format: PixelFormat, width: u32, height: u32) -> (info: ImageInfo)
        requires
            pixels@.len() % 4 == 0,
        ensures
            info.data() == as_rgba(pixels@, format),
            info.spec_width() == width,
            info.spec_height() == height,
    {
        let mut pixels = pixels;
        match format {
            PixelFormat::Bgra => {
                swap_red_blue(&mut pixels);
            },
            PixelFormat::Rgba => {},
        }
        ImageInfo { width, height, pixels }
    }

    /// A frame of the given size filled with opaque white.
    pub fn blank(width: u32, height: u32) -> (info: ImageInfo)
        requires
            width * height * 4 <= usize::MAX,
        ensures
            info.data() == white((width * height * 4) as nat),
            info.spec_width() == width,
            info.spec_height() == height,
    {
        assert(width * height <= width * height * 4) by (nonlinear_arith);
        let count: usize = (width as usize * height as usize) * 4;
        let mut pixels: Vec<u8> = Vec::new();
        let mut i: usize = 0;
        while i < count
            invariant
                i <= count,
                pixels@ == white(i as nat),
            decreases count - i,
        {
            pixels.push(255);
            assert(pixels@ =~= white((i + 1) as nat));
            i += 1;
        }
        ImageInfo { width, height, pixels }
    }

    /// The frame shown before a backend has drawn anything: 800 by 800,
    /// opaque white.
    pub fn placeholder() -> (info: ImageInfo)
        ensures
            info.data() == white(2_560_000),
            info.spec_width() == 800,
            info.spec_height() == 800,
    {
        ImageInfo::blank(800, 800)
    }

    /// Image width.
    pub fn image_width(&self) -> (w: u32)
        ensures
            w == self.spec_width(),
    {
        self.width
    }

    /// Image height.
    pub fn image_height(&self) -> (h: u32)
        ensures
            h == self.spec_height(),
    {
        self.height
    }

    /// The pixels of the frame, in RGBA order.
    pub fn pixels(&self) -> (p: &Vec<u8>)
        ensures
            p@ == self.data(),
    {
        &self.pixels
    }
}

impl Default for ImageInfo {
    /// The frame shown before a backend has drawn anything.
    fn default() -> (info: ImageInfo)
        ensures
            info.data() == white(2_560_000),
            info.spec_width() == 800,
            info.spec_height() == 800,
    {
        ImageInfo::placeholder()
    }
}

/// What is handed to the drawing stage for one frame: pixels and the size
/// they claim to have.
#[derive(Debug)]
pub struct WebViewPrimitive {
    pub pixels: Vec<u8>,
    pub width: u32,
    pub height: u32,
}

impl WebViewPrimitive {
    /// The pixels fill the claimed size exactly and the size is not empty.
    pub open spec fn uploadable(&self) -> bool {
        self.width > 0 && self.height > 0 && self.pixels@.len() == 4 * (self.width * self.height)
    }

    /// Takes the pixels and size of a frame.
    pub fn of_frame(frame: &ImageInfo) -> (p: WebViewPrimitive)
        ensures
            p.pixels@ == frame.data(),
            p.width == frame.spec_width(),
            p.height == frame.spec_height(),
    {
        WebViewPrimitive {
            pixels: frame.pixels.clone(),
            width: frame.width,
            height: frame.height,
        }
    }

    /// Tells whether the texture must be made anew before this frame is
    /// uploaded: it must whenever its size differs from the frame's.
    pub fn needs_new_texture(&self, texture_width: u32, texture_height: u32) -> (r: bool)
        ensures
            r == (self.width != texture_width || self.height != texture_height),
    {
        self.width != texture_width || self.height != texture_height
    }

    /// Tells whether the pixels may be written to a texture of the claimed
    /// size.
    pub fn can_upload(&self) -> (r: bool)
        ensures
            r == self.uploadable(),
    {
        if self.width == 0 || self.height == 0 || self.pixels.len() % 4 != 0 {
            return false;
        }
        assert(self.width * self.height <= 0xFFFF_FFFF * 0xFFFF_FFFF) by (nonlinear_arith)
            requires
                self.width <= 0xFFFF_FFFF,
                self.height <= 0xFFFF_FFFF,
        ;
        let area: u64 = self.width as u64 * self.height as u64;
        (self.pixels.len() / 4) as u64 == area
    }

    /// Tells whether there is anything to draw: a frame with an empty side
    /// is passed over.
    pub fn is_visible(&self) -> (r: bool)
        ensures
            r == (self.width != 0 && self.height != 0),
    {
        self.width != 0 && self.height != 0
    }
}

} // verus!
