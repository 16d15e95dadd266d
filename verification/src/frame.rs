//! Pixel frames: fixed-size row-major grids of 3-byte RGB or 4-byte RGBA
//! pixels. Every submitted frame must match a backend's configured geometry
//! exactly, so the frame types carry their dimensions and the invariant that
//! the byte buffer has exactly the implied length.

use vstd::prelude::*;

verus! {

/// Mathematical view of a frame: its dimensions and its raw bytes.
pub struct FrameView {
    pub width: nat,
    pub height: nat,
    pub bytes: Seq<u8>,
}

/// Number of bytes of an RGB frame of the given dimensions.
pub open spec fn rgb_len(width: nat, height: nat) -> nat {
    3 * (width * height)
}

/// Number of bytes of an RGBA frame of the given dimensions.
pub open spec fn rgba_len(width: nat, height: nat) -> nat {
    4 * (width * height)
}

/// The product of two `u32` values fits in a `u64`.
proof fn lemma_u32_mul_fits_u64(a: u32, b: u32)
    by (nonlinear_arith)
    ensures
        0 <= (a as int) * (b as int) <= u64::MAX,
{
}

/// Row-major indexing stays within the pixel grid.
proof fn lemma_row_major_bound(x: int, y: int, w: int, h: int)
    by (nonlinear_arith)
    requires
        0 <= x < w,
        0 <= y < h,
    ensures
        0 <= y * w + x < w * h,
{
}

/// An RGB frame: `width * height` pixels, row-major, 3 bytes per pixel.
#[derive(Debug, Clone, PartialEq, Eq)]
pub struct RgbFrame {
    width: u32,
    height: u32,
    data: Vec<u8>,
}

impl View for RgbFrame {
    type V = FrameView;

    closed spec fn view(&self) -> FrameView {
        FrameView { width: self.width as nat, height: self.height as nat, bytes: self.data@ }
    }
}

impl RgbFrame {
    /// The byte buffer holds exactly 3 bytes per pixel.
    pub open spec fn wf(self) -> bool {
        self@.bytes.len() == rgb_len(self@.width, self@.height)
    }

    /// Channel `c` (0 = red, 1 = green, 2 = blue) of the pixel at `(x, y)`.
    pub open spec fn chan(self, x: int, y: int, c: int) -> u8 {
        self@.bytes[3 * (y * self@.width + x) + c]
    }

    /// Every byte of the frame is zero: the frame displays as black.
    pub open spec fn is_black(self) -> bool {
        forall|i: int| 0 <= i < self@.bytes.len() ==> self@.bytes[i] == 0
    }

    /// Wrap a raw byte buffer as a frame; succeeds exactly when the buffer
    /// length matches the dimensions.
    pub fn from_raw(width: u32, height: u32, data: Vec<u8>) -> (r: Option<RgbFrame>)
        ensures
            r is Some <==> data@.len() == rgb_len(width as nat, height as nat),
            r is Some ==> {
                let f = r->Some_0;
                &&& f.wf()
                &&& f@.width == width
                &&& f@.height == height
                &&& f@.bytes == data@
            },
    {
        proof {
            lemma_u32_mul_fits_u64(width, height);
        }
        let pixels: u64 = (width as u64) * (height as u64);
        if pixels <= u64::MAX / 3 {
            let expected: u64 = 3 * pixels;
            if (data.len() as u64) == expected {
                Some(RgbFrame { width, height, data })
            } else {
                None
            }
        } else {
            let actual: usize = data.len();
            proof {
                assert(pixels == (width as int) * (height as int));
                assert(3 * (pixels as int) > u64::MAX);
                assert(actual <= usize::MAX <= u64::MAX);
            }
            None
        }
    }

    /// An all-zero (black) frame of the given dimensions.
    pub fn black(width: u32, height: u32) -> (r: RgbFrame)
        requires
            rgb_len(width as nat, height as nat) <= usize::MAX,
        ensures
            r.wf(),
            r@.width == width,
            r@.height == height,
            r.is_black(),
    {
        let pixels: usize = (width as usize) * (height as usize);
        let n: usize = 3 * pixels;
        let mut data: Vec<u8> = Vec::new();
        let mut i: usize = 0;
        while i < n
            invariant
                i <= n,
                data@.len() == i,
                forall|j: int| 0 <= j < i ==> data@[j] == 0,
            decreases n - i,
        {
            data.push(0);
            i = i + 1;
        }
        RgbFrame { width, height, data }
    }

    pub fn width(&self) -> (r: u32)
        ensures
            r == self@.width,
    {
        self.width
    }

    pub fn height(&self) -> (r: u32)
        ensures
            r == self@.height,
    {
        self.height
    }

    /// Borrow the raw bytes, row-major, 3 per pixel.
    pub fn bytes(&self) -> (r: &Vec<u8>)
        ensures
            r@ == self@.bytes,
    {
        &self.data
    }
}

/// An RGBA frame: `width * height` pixels, row-major, 4 bytes per pixel;
/// the fourth channel is the per-LED brightness.
#[derive(Debug, Clone, PartialEq, Eq)]
pub struct RgbaFrame {
    width: u32,
    height: u32,
    data: Vec<u8>,
}

impl View for RgbaFrame {
    type V = FrameView;

    closed spec fn view(&self) -> FrameView {
        FrameView { width: self.width as nat, height: self.height as nat, bytes: self.data@ }
    }
}

impl RgbaFrame {
    /// The byte buffer holds exactly 4 bytes per pixel.
    pub open spec fn wf(self) -> bool {
        self@.bytes.len() == rgba_len(self@.width, self@.height)
    }

    /// Channel `c` (0 = red, 1 = green, 2 = blue, 3 = alpha) of the pixel at `(x, y)`.
    pub open spec fn chan(self, x: int, y: int, c: int) -> u8 {
        self@.bytes[4 * (y * self@.width + x) + c]
    }

    /// Wrap a raw byte buffer as a frame; succeeds exactly when the buffer
    /// length matches the dimensions.
    pub fn from_raw(width: u32, height: u32, data: Vec<u8>) -> (r: Option<RgbaFrame>)
        ensures
            r is Some <==> data@.len() == rgba_len(width as nat, height as nat),
            r is Some ==> {
                let f = r->Some_0;
                &&& f.wf()
                &&& f@.width == width
                &&& f@.height == height
                &&& f@.bytes == data@
            },
    {
        proof {
            lemma_u32_mul_fits_u64(width, height);
        }
        let pixels: u64 = (width as u64) * (height as u64);
        if pixels <= u64::MAX / 4 {
            let expected: u64 = 4 * pixels;
            if (data.len() as u64) == expected {
                Some(RgbaFrame { width, height, data })
            } else {
                None
            }
        } else {
            let actual: usize = data.len();
            proof {
                assert(pixels == (width as int) * (height as int));
                assert(4 * (pixels as int) > u64::MAX);
                assert(actual <= usize::MAX <= u64::MAX);
            }
            None
        }
    }

    pub fn width(&self) -> (r: u32)
        ensures
            r == self@.width,
    {
        self.width
    }

    pub fn height(&self) -> (r: u32)
        ensures
            r == self@.height,
    {
        self.height
    }

    /// Borrow the raw bytes, row-major, 4 per pixel.
    pub fn bytes(&self) -> (r: &Vec<u8>)
        ensures
            r@ == self@.bytes,
    {
        &self.data
    }

    /// Read one channel of one pixel.
    pub fn get(&self, x: u32, y: u32, c: u32) -> (r: u8)
        requires
            self.wf(),
            x < self@.width,
            y < self@.height,
            c < 4,
        ensures
            r == self.chan(x as int, y as int, c as int),
    {
        let total: usize = self.data.len();
        proof {
            lemma_row_major_bound(x as int, y as int, self@.width as int, self@.height as int);
            assert(total == 4 * ((self@.width as int) * (self@.height as int)));
            assert((y as int) * (self@.width as int) + (x as int)
                < (self@.width as int) * (self@.height as int));
        }
        let ix: usize = 4 * ((y as usize) * (self.width as usize) + (x as usize)) + (c as usize);
        assert(ix < total);
        self.data[ix]
    }
}

} // verus!
