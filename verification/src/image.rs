//! 8-bit grayscale fingerprint images and the pixel operations applied to them.

use vstd::prelude::*;
use base64::Engine;

verus! {

/// Errors of image loading, decoding and encoding.
#[derive(Debug, Clone, PartialEq)]
pub enum ImageError {
    InvalidBmp(String),
    InvalidTiff(String),
    InvalidDimensions { width: u32, height: u32 },
    Io(String),
    Decode(String),
    Wsq(String),
}

/// How `enhance_with_config` spreads the gray levels.
#[derive(Debug, Clone, Copy, PartialEq, Eq, Structural)]
pub enum ContrastMethod {
    Stretch,
    Darken,
}

/// The steps that `enhance_with_config` applies, in this order: invert,
/// contrast, padding, vertical flip.
#[derive(Debug, Clone, Copy, PartialEq, Eq, Structural)]
pub struct EnhanceConfig {
    pub apply_enhancement: bool,
    pub method: ContrastMethod,
    pub bg_intensity: u8,
    pub invert: bool,
    pub flip_vertical: bool,
    pub padding: u32,
}

impl Default for EnhanceConfig {
    fn default() -> (r: Self)
        ensures
            r == (EnhanceConfig {
                apply_enhancement: true,
                method: ContrastMethod::Darken,
                bg_intensity: 255,
                invert: false,
                flip_vertical: false,
                padding: 0,
            }),
    {
        EnhanceConfig {
            apply_enhancement: true,
            method: ContrastMethod::Darken,
            bg_intensity: 255,
            invert: false,
            flip_vertical: false,
            padding: 0,
        }
    }
}

/// The content of a grayscale image: its size and its pixels in row-major
/// order, the pixel at column `x` of row `y` standing at `y * width + x`.
pub struct GrayView {
    pub width: u32,
    pub height: u32,
    pub pixels: Seq<u8>,
}

impl GrayView {
    /// The pixel at column `x` of row `y`.
    pub open spec fn at(self, x: int, y: int) -> u8 {
        self.pixels[y * self.width + x]
    }

    /// The pixel count agrees with the size.
    pub open spec fn wf(self) -> bool {
        self.pixels.len() == self.width * self.height
    }
}

/// An 8-bit grayscale image, stored row by row.
#[derive(Debug, Clone)]
pub struct GrayImage {
    width: u32,
    height: u32,
    data: Vec<u8>,
}

impl View for GrayImage {
    type V = GrayView;

    closed spec fn view(&self) -> GrayView {
        GrayView { width: self.width, height: self.height, pixels: self.data@ }
    }
}

/// `x < w` and `y < h` give an index inside a `w` by `h` buffer.
pub proof fn lemma_index_in_bounds(w: int, h: int, x: int, y: int)
    requires
        0 <= x < w,
        0 <= y < h,
    ensures
        0 <= y * w + x < w * h,
        y * w + x + 1 <= w * h,
{
    assert(y * w + x < (y + 1) * w) by (nonlinear_arith)
        requires
            0 <= x < w,
    ;
    assert((y + 1) * w <= h * w) by (nonlinear_arith)
        requires
            y + 1 <= h,
            0 < w,
    ;
    assert(0 <= y * w) by (nonlinear_arith)
        requires
            0 <= y,
            0 < w,
    ;
    assert(h * w == w * h) by (nonlinear_arith);
}

/// Each index of a `w`-wide row-major buffer is the index of exactly one
/// column and row.
pub proof fn lemma_index_split(w: int, i: int)
    requires
        0 < w,
        0 <= i,
    ensures
        i == (i / w) * w + i % w,
        0 <= i % w < w,
        0 <= i / w,
{
    vstd::arithmetic::div_mod::lemma_fundamental_div_mod(i, w);
    assert((i / w) * w == w * (i / w)) by (nonlinear_arith);
    vstd::arithmetic::div_mod::lemma_div_pos_is_pos(i, w);
}

impl GrayImage {
    /// Wraps row-major pixel data; fails when the length is not
    /// `width * height`.
    pub fn from_raw(data: Vec<u8>, width: u32, height: u32) -> (r: Result<GrayImage, ImageError>)
        requires
            width * height <= u32::MAX,
        ensures
            match r {
                Ok(img) => data@.len() == width * height && img@ == (GrayView {
                    width,
                    height,
                    pixels: data@,
                }),
                Err(e) => data@.len() != width * height && e == (ImageError::InvalidDimensions {
                    width,
                    height,
                }),
            },
    {
        let expected = (width * height) as usize;
        if data.len() != expected {
            return Err(ImageError::InvalidDimensions { width, height });
        }
        Ok(GrayImage { width, height, data })
    }

    /// A `width` by `height` image, all white (255).
    pub fn new(width: u32, height: u32) -> (r: GrayImage)
        requires
            width * height <= u32::MAX,
        ensures
            r@ == (GrayView {
                width,
                height,
                pixels: Seq::new((width * height) as nat, |i: int| 255u8),
            }),
    {
        let n = (width * height) as usize;
        let data: Vec<u8> = vec![255u8; n];
        assert(data@ =~= Seq::new((width * height) as nat, |i: int| 255u8));
        GrayImage { width, height, data }
    }

    pub fn width(&self) -> (r: u32)
        ensures
            r == self@.width,
    {
        self.width
    }

    pub fn height(&self) -> (r: u32)
        ensures
            r == self@.height,
    {
        self.height
    }

    /// The pixels, row by row.
    pub fn data(&self) -> (r: &[u8])
        ensures
            r@ == self@.pixels,
    {
        self.data.as_slice()
    }

    /// The pixel buffer, open to writes in place; the size stays as it was.
    pub fn data_mut(&mut self) -> (r: &mut [u8])
        ensures
            r@ == old(self)@.pixels,
            final(self)@ == (GrayView {
                width: old(self)@.width,
                height: old(self)@.height,
                pixels: final(r)@,
            }),
    {
        self.data.as_mut_slice()
    }

    /// The pixel at index `y * width + x` of the buffer.
    pub fn pixel(&self, x: u32, y: u32) -> (r: u8)
        requires
            y * self@.width + x < self@.pixels.len(),
            y * self@.width + x <= u32::MAX,
        ensures
            r == self@.pixels[y * self@.width + x],
    {
        self.data[(y * self.width + x) as usize]
    }

    /// Writes the pixel at index `y * width + x` of the buffer.
    pub fn set_pixel(&mut self, x: u32, y: u32, val: u8)
        requires
            y * old(self)@.width + x < old(self)@.pixels.len(),
            y * old(self)@.width + x <= u32::MAX,
        ensures
            final(self)@ == (GrayView {
                pixels: old(self)@.pixels.update(y * old(self)@.width + x, val),
                ..old(self)@
            }),
    {
        let i = (y * self.width + x) as usize;
        self.data.set(i, val);
    }
}


/// The photographic negative: every pixel `p` becomes `255 - p`.
pub open spec fn invert_view(v: GrayView) -> GrayView {
    GrayView { pixels: v.pixels.map_values(|p: u8| (255 - p) as u8), ..v }
}

/// The rows in reverse order: row `y` of the result is row `height - 1 - y`.
pub open spec fn flip_view(v: GrayView) -> GrayView {
    GrayView {
        pixels: Seq::new(
            v.pixels.len(),
            |i: int| v.pixels[(v.height - 1 - i / (v.width as int)) * v.width + i % (v.width as int)],
        ),
        ..v
    }
}

/// The image framed by `p` white (255) pixels on every side.
pub open spec fn pad_view(v: GrayView, p: u32) -> GrayView {
    let nw = v.width + 2 * p;
    let nh = v.height + 2 * p;
    GrayView {
        width: nw as u32,
        height: nh as u32,
        pixels: Seq::new(
            (nw * nh) as nat,
            |i: int|
                {
                    let x = i % nw;
                    let y = i / nw;
                    if p <= x < p + v.width && p <= y < p + v.height {
                        v.pixels[(y - p) * v.width + (x - p)]
                    } else {
                        255u8
                    }
                },
        ),
    }
}

/// The darkest pixel of a non-empty sequence.
pub open spec fn seq_min(s: Seq<u8>) -> u8
    decreases s.len(),
{
    if s.len() <= 1 {
        s[0]
    } else {
        let m = seq_min(s.drop_last());
        if s.last() < m {
            s.last()
        } else {
            m
        }
    }
}

/// The brightest pixel of a non-empty sequence.
pub open spec fn seq_max(s: Seq<u8>) -> u8
    decreases s.len(),
{
    if s.len() <= 1 {
        s[0]
    } else {
        let m = seq_max(s.drop_last());
        if s.last() > m {
            s.last()
        } else {
            m
        }
    }
}

/// `seq_min` is a pixel of the sequence and no pixel is darker.
pub proof fn lemma_seq_min(s: Seq<u8>)
    requires
        s.len() > 0,
    ensures
        s.contains(seq_min(s)),
        forall|i: int| 0 <= i < s.len() ==> seq_min(s) <= #[trigger] s[i],
    decreases s.len(),
{
    if s.len() > 1 {
        lemma_seq_min(s.drop_last());
        let k = choose|k: int| 0 <= k < s.drop_last().len() && s.drop_last()[k] == seq_min(s.drop_last());
        if s.last() < seq_min(s.drop_last()) {
            assert(s[s.len() - 1] == seq_min(s));
        } else {
            assert(s[k] == seq_min(s));
        }
        assert forall|i: int| 0 <= i < s.len() implies seq_min(s) <= #[trigger] s[i] by {
            if i < s.len() - 1 {
                assert(s.drop_last()[i] == s[i]);
            }
        }
    } else {
        assert(s[0] == seq_min(s));
    }
}

/// `seq_max` is a pixel of the sequence and no pixel is brighter.
pub proof fn lemma_seq_max(s: Seq<u8>)
    requires
        s.len() > 0,
    ensures
        s.contains(seq_max(s)),
        forall|i: int| 0 <= i < s.len() ==> #[trigger] s[i] <= seq_max(s),
    decreases s.len(),
{
    if s.len() > 1 {
        lemma_seq_max(s.drop_last());
        let k = choose|k: int| 0 <= k < s.drop_last().len() && s.drop_last()[k] == seq_max(s.drop_last());
        if s.last() > seq_max(s.drop_last()) {
            assert(s[s.len() - 1] == seq_max(s));
        } else {
            assert(s[k] == seq_max(s));
        }
        assert forall|i: int| 0 <= i < s.len() implies #[trigger] s[i] <= seq_max(s) by {
            if i < s.len() - 1 {
                assert(s.drop_last()[i] == s[i]);
            }
        }
    } else {
        assert(s[0] == seq_max(s));
    }
}

/// `a - b`, or zero when `b` is larger.
pub open spec fn sat_sub(a: int, b: int) -> int {
    if a >= b {
        a - b
    } else {
        0
    }
}

/// The min-max stretch of one pixel `p`, for darkest level `lo`, brightest
/// level `hi` and top output level `m`: `((p - lo) * m + range / 2) / range`,
/// capped at `m`; with a flat image (`range == 0`) the pixel is only capped.
pub open spec fn stretch_value(p: u8, lo: u8, hi: u8, m: u8) -> u8 {
    let range = sat_sub(hi as int, lo as int);
    if range == 0 {
        if p <= m {
            p
        } else {
            m
        }
    } else {
        let q = (sat_sub(p as int, lo as int) * m + range / 2) / range;
        if q <= m {
            q as u8
        } else {
            m
        }
    }
}

/// The contrast stretch of a whole image.
pub open spec fn stretch_view(v: GrayView, m: u8) -> GrayView {
    if v.pixels.len() == 0 {
        v
    } else {
        let lo = seq_min(v.pixels);
        let hi = seq_max(v.pixels);
        GrayView { pixels: v.pixels.map_values(|p: u8| stretch_value(p, lo, hi, m)), ..v }
    }
}

/// The ridge-darkening curve with background level `m`: levels up to 200
/// go to `v * 80 / 200`; brighter levels go linearly from
/// `floor = m * 240 / 255` up to `m`.
pub open spec fn darken_value(v: u8, m: u8) -> u8 {
    if v <= 200 {
        (v * 80 / 200) as u8
    } else {
        let floor = m * 240 / 255;
        let span = sat_sub(m as int, floor);
        (floor + (v - 200) * span / 55) as u8
    }
}

/// The ridge darkening of a whole image.
pub open spec fn darken_view(v: GrayView, m: u8) -> GrayView {
    GrayView { pixels: v.pixels.map_values(|p: u8| darken_value(p, m)), ..v }
}

/// `(w + 2p) * (h + 2p)` fits the 32-bit size arithmetic.
pub open spec fn pad_fits(v: GrayView, p: u32) -> bool {
    &&& v.width + 2 * p <= u32::MAX
    &&& v.height + 2 * p <= u32::MAX
    &&& (v.width + 2 * p) * (v.height + 2 * p) <= u32::MAX
}

/// The image that `enhance_with_config` produces.
pub open spec fn enhance_view(v: GrayView, c: EnhanceConfig) -> GrayView {
    if !c.apply_enhancement {
        v
    } else {
        let a = if c.invert {
            invert_view(v)
        } else {
            v
        };
        let b = match c.method {
            ContrastMethod::Stretch => stretch_view(a, c.bg_intensity),
            ContrastMethod::Darken => darken_view(a, c.bg_intensity),
        };
        let d = if c.padding > 0 {
            pad_view(b, c.padding)
        } else {
            b
        };
        if c.flip_vertical {
            flip_view(d)
        } else {
            d
        }
    }
}


/// The stretched value of one pixel (see `stretch_value`).
pub fn stretch_pixel(p: u8, lo: u8, hi: u8, m: u8) -> (r: u8)
    ensures
        r == stretch_value(p, lo, hi, m),
{
    let range = (hi as u32).saturating_sub(lo as u32);
    if range == 0 {
        if p <= m {
            p
        } else {
            m
        }
    } else {
        let d = (p as u32).saturating_sub(lo as u32);
        assert(d * m <= 255 * 255) by (nonlinear_arith)
            requires
                d <= 255,
                m <= 255,
        ;
        let q = (d * (m as u32) + range / 2) / range;
        if q <= m as u32 {
            q as u8
        } else {
            m
        }
    }
}

/// The darkened value of one pixel (see `darken_value`).
pub fn darken_pixel(v: u8, m: u8) -> (r: u8)
    ensures
        r == darken_value(v, m),
        v <= 200 ==> r <= 80,
        v > 200 ==> m * 240 / 255 <= r <= m,
        v == 255 ==> r == m,
{
    if v <= 200 {
        ((v as u32 * 80) / 200) as u8
    } else {
        let floor = (m as u32 * 240) / 255;
        let span = (m as u32).saturating_sub(floor);
        let k = v as u32 - 200;
        assert(k * span <= 55 * span) by (nonlinear_arith)
            requires
                k <= 55,
        ;
        assert(k * span / 55 <= span) by (nonlinear_arith)
            requires
                k * span <= 55 * span,
        ;
        assert(k == 55 ==> k * span / 55 == span) by (nonlinear_arith);
        (floor + (k * span) / 55) as u8
    }
}

impl GrayImage {
    /// The negative of the image (sensors report inverted polarity).
    pub fn invert(&self) -> (r: GrayImage)
        requires
            self@.wf(),
        ensures
            r@ == invert_view(self@),
            r@.wf(),
    {
        let n = self.data.len();
        let mut out: Vec<u8> = Vec::with_capacity(n);
        let mut i: usize = 0;
        while i < n
            invariant
                n == self.data@.len(),
                i <= n,
                out@.len() == i,
                forall|j: int| 0 <= j < i ==> out@[j] == (255 - self.data@[j]) as u8,
            decreases n - i,
        {
            out.push(255 - self.data[i]);
            i = i + 1;
        }
        let r = GrayImage { width: self.width, height: self.height, data: out };
        assert(r@.pixels =~= invert_view(self@).pixels);
        r
    }

    /// The image with the gray levels spread between 0 and `max_val`: the
    /// darkest pixel becomes black and the brightest `max_val`.
    pub fn contrast_stretch(&self, max_val: u8) -> (r: GrayImage)
        requires
            self@.wf(),
        ensures
            r@ == stretch_view(self@, max_val),
            r@.wf(),
    {
        let n = self.data.len();
        if n == 0 {
            let r = GrayImage { width: self.width, height: self.height, data: Vec::new() };
            assert(r@.pixels =~= self@.pixels);
            return r;
        }
        let mut lo: u8 = self.data[0];
        let mut hi: u8 = self.data[0];
        let mut i: usize = 1;
        while i < n
            invariant
                n == self.data@.len(),
                1 <= i <= n,
                lo == seq_min(self.data@.take(i as int)),
                hi == seq_max(self.data@.take(i as int)),
            decreases n - i,
        {
            assert(self.data@.take(i as int + 1).drop_last() =~= self.data@.take(i as int));
            if self.data[i] < lo {
                lo = self.data[i];
            }
            if self.data[i] > hi {
                hi = self.data[i];
            }
            i = i + 1;
        }
        assert(self.data@.take(n as int) =~= self.data@);
        let mut out: Vec<u8> = Vec::with_capacity(n);
        let mut i: usize = 0;
        while i < n
            invariant
                n == self.data@.len(),
                i <= n,
                out@.len() == i,
                forall|j: int| 0 <= j < i ==> out@[j] == stretch_value(self.data@[j], lo, hi, max_val),
            decreases n - i,
        {
            out.push(stretch_pixel(self.data[i], lo, hi, max_val));
            i = i + 1;
        }
        let r = GrayImage { width: self.width, height: self.height, data: out };
        assert(r@.pixels =~= stretch_view(self@, max_val).pixels);
        r
    }

    /// The image with the ridges darkened and the background brought to
    /// `max_val` (see `darken_value`).
    pub fn darken_ridges(&self, max_val: u8) -> (r: GrayImage)
        requires
            self@.wf(),
        ensures
            r@ == darken_view(self@, max_val),
            r@.wf(),
    {
        let n = self.data.len();
        let mut out: Vec<u8> = Vec::with_capacity(n);
        let mut i: usize = 0;
        while i < n
            invariant
                n == self.data@.len(),
                i <= n,
                out@.len() == i,
                forall|j: int| 0 <= j < i ==> out@[j] == darken_value(self.data@[j], max_val),
            decreases n - i,
        {
            out.push(darken_pixel(self.data[i], max_val));
            i = i + 1;
        }
        let r = GrayImage { width: self.width, height: self.height, data: out };
        assert(r@.pixels =~= darken_view(self@, max_val).pixels);
        r
    }
}


/// Row `y`, column `x` of a `w`-wide row-major buffer sits at `y * w + x`,
/// and that index gives back `x` and `y`.
proof fn lemma_row_col(w: int, x: int, y: int)
    requires
        0 <= x < w,
        0 <= y,
    ensures
        (y * w + x) / w == y,
        (y * w + x) % w == x,
        (y + 1) * w == y * w + w,
{
    vstd::arithmetic::div_mod::lemma_fundamental_div_mod_converse(y * w + x, w, y, x);
    assert((y + 1) * w == y * w + w) by (nonlinear_arith);
}

impl GrayImage {
    /// The image upside down: the last row first.
    pub fn flip_vertical(&self) -> (r: GrayImage)
        requires
            self@.wf(),
        ensures
            r@ == flip_view(self@),
            r@.wf(),
    {
        let w = self.width as usize;
        let h = self.height as usize;
        let ghost v = self@;
        let mut out: Vec<u8> = Vec::with_capacity(self.data.len());
        assert(self.data@.len() <= usize::MAX);
        let mut row: usize = 0;
        while row < h
            invariant
                v == self@,
                w == v.width,
                h == v.height,
                v.pixels.len() == w * h,
                w * h <= usize::MAX,
                row <= h,
                out@.len() == row * w,
                forall|j: int| 0 <= j < out@.len() ==> out@[j] == flip_view(v).pixels[j],
            decreases h - row,
        {
            let src = h - 1 - row;
            let mut x: usize = 0;
            while x < w
                invariant
                    v == self@,
                    w == v.width,
                    h == v.height,
                    v.pixels.len() == w * h,
                    w * h <= usize::MAX,
                    row < h,
                    src == h - 1 - row,
                    x <= w,
                    out@.len() == row * w + x,
                    forall|j: int| 0 <= j < out@.len() ==> out@[j] == flip_view(v).pixels[j],
                decreases w - x,
            {
                proof {
                    lemma_index_in_bounds(w as int, h as int, x as int, src as int);
                    lemma_index_in_bounds(w as int, h as int, x as int, row as int);
                    lemma_row_col(w as int, x as int, row as int);
                }
                out.push(self.data[src * w + x]);
                x = x + 1;
            }
            proof {
                if w > 0 {
                    lemma_row_col(w as int, 0, row as int);
                } else {
                    assert((row + 1) * w == 0) by (nonlinear_arith)
                        requires
                            w == 0,
                    ;
                    assert(row * w == 0) by (nonlinear_arith)
                        requires
                            w == 0,
                    ;
                }
            }
            row = row + 1;
        }
        assert(h * w == w * h) by (nonlinear_arith);
        let r = GrayImage { width: self.width, height: self.height, data: out };
        assert(r@.pixels =~= flip_view(v).pixels);
        r
    }

    /// The image framed by `padding` white pixels on every side.
    pub fn pad_with_white(&self, padding: u32) -> (r: GrayImage)
        requires
            self@.wf(),
            pad_fits(self@, padding),
        ensures
            r@ == pad_view(self@, padding),
            r@.wf(),
    {
        let ghost v = self@;
        let new_w = self.width + padding * 2;
        let new_h = self.height + padding * 2;
        let w = self.width as usize;
        let h = self.height as usize;
        let p = padding as usize;
        let nw = new_w as usize;
        let nh = new_h as usize;
        let mut out: Vec<u8> = Vec::with_capacity(nw * nh);
        let n = self.data.len();
        assert(n == w * h);
        let mut y: usize = 0;
        while y < nh
            invariant
                v == self@,
                w == v.width,
                h == v.height,
                p == padding,
                nw == w + 2 * p,
                nh == h + 2 * p,
                nw * nh <= u32::MAX,
                v.pixels.len() == w * h,
                w * h <= usize::MAX,
                y <= nh,
                out@.len() == y * nw,
                forall|j: int| 0 <= j < out@.len() ==> out@[j] == pad_view(v, padding).pixels[j],
            decreases nh - y,
        {
            let mut x: usize = 0;
            while x < nw
                invariant
                    v == self@,
                    w == v.width,
                    h == v.height,
                    p == padding,
                    nw == w + 2 * p,
                    nh == h + 2 * p,
                    nw * nh <= u32::MAX,
                    v.pixels.len() == w * h,
                    w * h <= usize::MAX,
                    y < nh,
                    x <= nw,
                    out@.len() == y * nw + x,
                    forall|j: int| 0 <= j < out@.len() ==> out@[j] == pad_view(v, padding).pixels[j],
                decreases nw - x,
            {
                proof {
                    lemma_row_col(nw as int, x as int, y as int);
                    lemma_index_in_bounds(nw as int, nh as int, x as int, y as int);
                }
                if p <= x && x < p + w && p <= y && y < p + h {
                    proof {
                        lemma_index_in_bounds(w as int, h as int, (x - p) as int, (y - p) as int);
                    }
                    out.push(self.data[(y - p) * w + (x - p)]);
                } else {
                    out.push(255u8);
                }
                x = x + 1;
            }
            proof {
                if nw > 0 {
                    lemma_row_col(nw as int, 0, y as int);
                } else {
                    assert((y + 1) * nw == 0) by (nonlinear_arith)
                        requires
                            nw == 0,
                    ;
                    assert(y * nw == 0) by (nonlinear_arith)
                        requires
                            nw == 0,
                    ;
                }
            }
            y = y + 1;
        }
        assert(nh * nw == nw * nh) by (nonlinear_arith);
        let r = GrayImage { width: new_w, height: new_h, data: out };
        assert(r@.pixels =~= pad_view(v, padding).pixels);
        r
    }
}


impl GrayImage {
    /// Applies the steps of `config`: optional inversion, then the contrast
    /// method, then white padding, then a vertical flip. With
    /// `apply_enhancement` off the image comes back unchanged.
    pub fn enhance_with_config(&self, config: EnhanceConfig) -> (r: GrayImage)
        requires
            self@.wf(),
            config.apply_enhancement && config.padding > 0 ==> pad_fits(self@, config.padding),
        ensures
            r@ == enhance_view(self@, config),
            r@.wf(),
    {
        if !config.apply_enhancement {
            return GrayImage { width: self.width, height: self.height, data: self.data.clone() };
        }
        let a = if config.invert {
            self.invert()
        } else {
            GrayImage { width: self.width, height: self.height, data: self.data.clone() }
        };
        let b = match config.method {
            ContrastMethod::Stretch => a.contrast_stretch(config.bg_intensity),
            ContrastMethod::Darken => a.darken_ridges(config.bg_intensity),
        };
        let d = if config.padding > 0 {
            b.pad_with_white(config.padding)
        } else {
            b
        };
        if config.flip_vertical {
            d.flip_vertical()
        } else {
            d
        }
    }

    /// Enhancement with the default configuration: ridge darkening towards a
    /// white background.
    pub fn enhance_fingerprint(&self) -> (r: GrayImage)
        requires
            self@.wf(),
        ensures
            r@ == darken_view(self@, 255),
            r@.wf(),
    {
        let config = EnhanceConfig::default();
        self.enhance_with_config(config)
    }
}

/// Inverting twice gives back the image.
pub proof fn law_invert_involution(v: GrayView)
    ensures
        invert_view(invert_view(v)) == v,
{
    assert(invert_view(invert_view(v)).pixels =~= v.pixels);
}

/// Flipping twice gives back the image.
pub proof fn law_flip_involution(v: GrayView)
    requires
        v.wf(),
    ensures
        flip_view(flip_view(v)) == v,
{
    let f = flip_view(v);
    let g = flip_view(f);
    let w = v.width as int;
    let h = v.height as int;
    assert forall|i: int| 0 <= i < v.pixels.len() implies g.pixels[i] == v.pixels[i] by {
        if w > 0 {
            lemma_index_split(w, i);
            let x = i % w;
            let y = i / w;
            if y >= h {
                assert(y * w >= h * w) by (nonlinear_arith)
                    requires
                        y >= h,
                        w > 0,
                ;
                assert(h * w == w * h) by (nonlinear_arith);
            }
            let k = (h - 1 - y) * w + x;
            lemma_index_in_bounds(w, h, x, h - 1 - y);
            lemma_row_col(w, x, h - 1 - y);
            assert(g.pixels[i] == f.pixels[k]);
            assert(f.pixels[k] == v.pixels[(h - 1 - (h - 1 - y)) * w + x]);
        } else {
            assert(v.pixels.len() == 0) by (nonlinear_arith)
                requires
                    w == 0,
                    v.pixels.len() == w * h,
            ;
        }
    }
    assert(g.pixels =~= v.pixels);
}

/// A frame of width zero leaves the image as it is.
pub proof fn law_pad_zero(v: GrayView)
    requires
        v.wf(),
    ensures
        pad_view(v, 0) == v,
{
    let q = pad_view(v, 0);
    let w = v.width as int;
    let h = v.height as int;
    assert forall|i: int| 0 <= i < v.pixels.len() implies q.pixels[i] == v.pixels[i] by {
        if w > 0 {
            lemma_index_split(w, i);
            let y = i / w;
            if y >= h {
                assert(y * w >= h * w) by (nonlinear_arith)
                    requires
                        y >= h,
                        w > 0,
                ;
                assert(h * w == w * h) by (nonlinear_arith);
            }
        } else {
            assert(v.pixels.len() == 0) by (nonlinear_arith)
                requires
                    w == 0,
                    v.pixels.len() == w * h,
            ;
        }
    }
    assert(q.pixels =~= v.pixels);
}

/// After a contrast stretch with a non-flat image, the darkest pixels are
/// black, the brightest are `m`, and no pixel exceeds `m`.
pub proof fn law_stretch_endpoints(v: GrayView, m: u8)
    requires
        v.pixels.len() > 0,
        seq_min(v.pixels) < seq_max(v.pixels),
    ensures
        forall|i: int|
            0 <= i < v.pixels.len() && v.pixels[i] == seq_min(v.pixels) ==> #[trigger] stretch_view(
                v,
                m,
            ).pixels[i] == 0,
        forall|i: int|
            0 <= i < v.pixels.len() && v.pixels[i] == seq_max(v.pixels) ==> #[trigger] stretch_view(
                v,
                m,
            ).pixels[i] == m,
        forall|i: int| 0 <= i < v.pixels.len() ==> #[trigger] stretch_view(v, m).pixels[i] <= m,
{
    let lo = seq_min(v.pixels);
    let hi = seq_max(v.pixels);
    let range = hi - lo;
    assert((0 * m + range / 2) / range == 0) by (nonlinear_arith)
        requires
            range > 0,
    ;
    vstd::arithmetic::div_mod::lemma_fundamental_div_mod_converse(
        range * m + range / 2,
        range as int,
        m as int,
        range / 2,
    );
    assert(range * m == m * range) by (nonlinear_arith);
}

/// Reading a pixel gives back what was last written there, and a write
/// leaves every other pixel as it was.
pub proof fn law_pixel_read_after_write(v: GrayView, x: int, y: int, val: u8)
    requires
        0 <= y * v.width + x < v.pixels.len(),
    ensures
        (GrayView { pixels: v.pixels.update(y * v.width + x, val), ..v }).pixels[y * v.width + x]
            == val,
        forall|j: int|
            0 <= j < v.pixels.len() && j != y * v.width + x ==> (#[trigger] (GrayView {
                pixels: v.pixels.update(y * v.width + x, val),
                ..v
            }).pixels[j]) == v.pixels[j],
{
}


// --- Codecs of the `image` and `base64` crates ---

/// What `image::load_from_memory(bytes)?.to_luma8()` yields: the width, the
/// height and the 8-bit gray pixels, or nothing when the bytes do not decode.
pub uninterp spec fn luma8_decoding(bytes: Seq<u8>) -> Option<(u32, u32, Seq<u8>)>;

/// The BMP file that the `image` crate writes for an 8-bit gray image.
pub uninterp spec fn bmp_encoding(width: u32, height: u32, pixels: Seq<u8>) -> Seq<u8>;

/// The PNG file that the `image` crate writes for an 8-bit gray image.
pub uninterp spec fn png_encoding(width: u32, height: u32, pixels: Seq<u8>) -> Seq<u8>;

/// The character of a 6-bit value in the standard Base64 alphabet:
/// `A`-`Z`, `a`-`z`, `0`-`9`, `+`, `/`.
pub open spec fn base64_digit(v: int) -> char {
    if v < 26 {
        (65 + v) as char
    } else if v < 52 {
        (97 + v - 26) as char
    } else if v < 62 {
        (48 + v - 52) as char
    } else if v == 62 {
        '+'
    } else {
        '/'
    }
}

/// The standard, padded Base64 text of some bytes (RFC 4648): each group of
/// three bytes gives four characters of six bits each; a last group of one
/// or two bytes is filled with zero bits and padded with `=` to four.
pub open spec fn base64_standard(bytes: Seq<u8>) -> Seq<char>
    decreases bytes.len(),
{
    if bytes.len() == 0 {
        Seq::empty()
    } else if bytes.len() == 1 {
        let a = bytes[0] as int;
        seq![base64_digit(a / 4), base64_digit((a % 4) * 16), '=', '=']
    } else if bytes.len() == 2 {
        let a = bytes[0] as int;
        let b = bytes[1] as int;
        seq![base64_digit(a / 4), base64_digit((a % 4) * 16 + b / 16), base64_digit((b % 16) * 4), '=']
    } else {
        let a = bytes[0] as int;
        let b = bytes[1] as int;
        let c = bytes[2] as int;
        seq![
            base64_digit(a / 4),
            base64_digit((a % 4) * 16 + b / 16),
            base64_digit((b % 16) * 4 + c / 64),
            base64_digit(c % 64),
        ] + base64_standard(bytes.skip(3))
    }
}

/// Decodes an image file held in memory (format guessed from its content)
/// and converts it to 8-bit gray.
///
/// Trusted: `image::load_from_memory` followed by `DynamicImage::to_luma8`.
/// The result is named by `luma8_decoding`; the buffer of an `ImageBuffer`
/// built by the conversion holds one byte per pixel. The error text is not
/// described.
#[verifier::external_body]
fn decode_luma8(bytes: &[u8]) -> (r: Result<(Vec<u8>, u32, u32), String>)
    ensures
        match r {
            Ok((d, w, h)) => luma8_decoding(bytes@) == Some((w, h, d@)) && d@.len() == w * h,
            Err(_) => luma8_decoding(bytes@) is None,
        },
{
    match image::load_from_memory(bytes) {
        Ok(img) => {
            let g = img.to_luma8();
            let (w, h) = (g.width(), g.height());
            Ok((g.into_raw(), w, h))
        },
        Err(e) => Err(e.to_string()),
    }
}

/// The length of the BMP file of a gray image: 1078 bytes of headers and
/// palette, then rows padded to a multiple of 4 bytes.
pub open spec fn bmp_file_len(width: u32, height: u32) -> int {
    1078 + ((width + 3) / 4) * 4 * height
}

/// The BMP encoder accepts the size: the rows padded to 4 bytes, the
/// headers and gray palette, and the whole file fit in 32 bits.
pub open spec fn bmp_encodable(width: u32, height: u32) -> bool {
    let padded = ((width + 3) / 4) * 4;
    &&& padded <= u32::MAX
    &&& padded * height + 1078 <= u32::MAX
}

/// The sizes whose BMP file `image::load_from_memory` reads back: both sides
/// positive and within the decoder's soft limit of 65535, and the decoded
/// RGB buffer within the default allocation limit of 512 MiB.
pub open spec fn bmp_readable(width: u32, height: u32) -> bool {
    &&& 0 < width <= 65535
    &&& 0 < height <= 65535
    &&& 3 * width * height <= 536870912
}

/// Encodes gray pixels as a BMP file.
///
/// Trusted: `image::GrayImage::from_raw` then `write_to` with
/// `ImageFormat::Bmp` into a memory cursor. The buffer length matches the
/// size, and the encoder only fails when a size overflows 32 bits, which
/// `bmp_encodable` rules out. It writes the 14-byte file header, the 40-byte
/// info header, the 256-entry gray palette and the padded rows; the bytes
/// are named by `bmp_encoding`. Read back by `decode_luma8` (on sizes that
/// `bmp_readable` admits) the file gives the same pixels: the decoder expands
/// each palette index to the gray `(i, i, i)`, and the conversion to gray
/// weighs the channels with coefficients summing to 1 (within 3e-4) and
/// rounds, which gives back `i`.
#[verifier::external_body]
fn encode_bmp(width: u32, height: u32, pixels: &[u8]) -> (r: Vec<u8>)
    requires
        pixels@.len() == width * height,
        bmp_encodable(width, height),
    ensures
        r@ == bmp_encoding(width, height, pixels@),
        r@.len() == bmp_file_len(width, height),
        bmp_readable(width, height) ==> luma8_decoding(r@) == Some((width, height, pixels@)),
{
    let img = image::GrayImage::from_raw(width, height, pixels.to_vec()).unwrap();
    let mut buf = std::io::Cursor::new(Vec::new());
    img.write_to(&mut buf, image::ImageFormat::Bmp).unwrap();
    buf.into_inner()
}

/// Encodes gray pixels as a PNG file, or nothing when the encoder refuses.
///
/// Trusted: `image::GrayImage::from_raw` then `write_to` with
/// `ImageFormat::Png` into a memory cursor. The `png` encoder refuses a zero
/// width or height (`Writer::init`) and nothing else here: the 8-bit gray
/// color type is valid, the buffer has the expected length, the compressed
/// data goes out in chunks below the chunk limit, and writes into a `Vec`
/// do not fail. When it succeeds the bytes are named by `png_encoding` (a
/// `Vec` never holds more than `isize::MAX` bytes).
#[verifier::external_body]
fn encode_png(width: u32, height: u32, pixels: &[u8]) -> (r: Option<Vec<u8>>)
    requires
        pixels@.len() == width * height,
    ensures
        r matches Some(b) ==> b@ == png_encoding(width, height, pixels@) && b@.len()
            <= isize::MAX,
        r is Some <==> (width > 0 && height > 0),
{
    let img = image::GrayImage::from_raw(width, height, pixels.to_vec()).unwrap();
    let mut buf = std::io::Cursor::new(Vec::new());
    match img.write_to(&mut buf, image::ImageFormat::Png) {
        Ok(()) => Some(buf.into_inner()),
        Err(_) => None,
    }
}

/// Resamples gray pixels to a new size with the Gaussian filter.
///
/// Trusted: `image::imageops::resize` with `FilterType::Gaussian` on an
/// `image::GrayImage`. Its source returns a zero-filled buffer when the
/// source is empty, an exact copy when the size does not change, and else a
/// new buffer of the requested size. Its other pixels are computed in `f32`
/// with `exp` and `powi`, whose precision the standard library leaves to the
/// platform, so they are not named or described. The bounds keep its
/// intermediate buffer of four floats per pixel within `usize`.
#[verifier::external_body]
fn resize_gaussian(width: u32, height: u32, pixels: &[u8], new_width: u32, new_height: u32) -> (r:
    Vec<u8>)
    requires
        pixels@.len() == width * height,
        width * new_height * 4 <= usize::MAX,
        new_width * new_height * 4 <= usize::MAX,
    ensures
        r@.len() == new_width * new_height,
        width == 0 || height == 0 ==> r@ == Seq::new(
            (new_width * new_height) as nat,
            |i: int| 0u8,
        ),
        width > 0 && height > 0 && new_width == width && new_height == height ==> r@ == pixels@,
{
    let img = image::GrayImage::from_raw(width, height, pixels.to_vec()).unwrap();
    image::imageops::resize(&img, new_width, new_height, image::imageops::FilterType::Gaussian)
        .into_raw()
}

/// Base64 text of some bytes, standard alphabet with padding.
///
/// Trusted: `base64::engine::general_purpose::STANDARD.encode`, which
/// writes the standard alphabet with padding, as `base64_standard` states
/// it. The bound keeps its output length computation from overflowing.
#[verifier::external_body]
pub fn encode_base64(bytes: &[u8]) -> (s: String)
    requires
        (bytes@.len() / 3) * 4 + 4 <= usize::MAX,
    ensures
        s@ == base64_standard(bytes@),
{
    base64::engine::general_purpose::STANDARD.encode(bytes)
}

impl GrayImage {
    /// Decodes an image file held in memory (BMP, PNG, ...) into gray.
    pub fn from_bmp(data: &[u8]) -> (r: Result<GrayImage, ImageError>)
        ensures
            match r {
                Ok(img) => luma8_decoding(data@) == Some((img@.width, img@.height, img@.pixels))
                    && img@.wf(),
                Err(e) => luma8_decoding(data@) is None && e is Decode,
            },
    {
        match decode_luma8(data) {
            Ok((d, w, h)) => Ok(GrayImage { width: w, height: h, data: d }),
            Err(msg) => Err(ImageError::Decode(msg)),
        }
    }

    /// The image as a BMP file.
    pub fn to_bmp(&self) -> (r: Vec<u8>)
        requires
            self@.wf(),
            bmp_encodable(self@.width, self@.height),
        ensures
            r@ == bmp_encoding(self@.width, self@.height, self@.pixels),
            bmp_readable(self@.width, self@.height) ==> luma8_decoding(r@) == Some(
                (self@.width, self@.height, self@.pixels),
            ),
    {
        encode_bmp(self.width, self.height, self.data.as_slice())
    }

    /// The image as a PNG file; nothing for an image of zero width or
    /// height, which the encoder refuses.
    pub fn to_png(&self) -> (r: Option<Vec<u8>>)
        requires
            self@.wf(),
        ensures
            r matches Some(b) ==> b@ == png_encoding(self@.width, self@.height, self@.pixels),
            r is Some <==> (self@.width > 0 && self@.height > 0),
    {
        encode_png(self.width, self.height, self.data.as_slice())
    }

    /// The image as Base64 of its PNG file; nothing for an image of zero
    /// width or height, which the PNG encoder refuses.
    pub fn to_base64_png(&self) -> (r: Option<String>)
        requires
            self@.wf(),
        ensures
            r matches Some(s) ==> exists|b: Seq<u8>|
                b == png_encoding(self@.width, self@.height, self@.pixels) && s@ == base64_standard(
                    b,
                ),
            r is Some <==> (self@.width > 0 && self@.height > 0),
    {
        match encode_png(self.width, self.height, self.data.as_slice()) {
            Some(b) => Some(encode_base64(b.as_slice())),
            None => None,
        }
    }

    /// The image as Base64 of its BMP file.
    pub fn to_base64_bmp(&self) -> (r: String)
        requires
            self@.wf(),
            bmp_encodable(self@.width, self@.height),
            (bmp_file_len(self@.width, self@.height) / 3) * 4 + 4 <= usize::MAX,
        ensures
            r@ == base64_standard(bmp_encoding(self@.width, self@.height, self@.pixels)),
    {
        let b = encode_bmp(self.width, self.height, self.data.as_slice());
        encode_base64(b.as_slice())
    }

    /// The image resampled to `new_w` by `new_h` with the Gaussian filter:
    /// an empty image gives a black one, the same size gives back the same
    /// pixels; other pixels come from the filter's floating-point arithmetic.
    pub fn resize(&self, new_w: u32, new_h: u32) -> (r: GrayImage)
        requires
            self@.wf(),
            self@.width * new_h * 4 <= usize::MAX,
            new_w * new_h * 4 <= usize::MAX,
        ensures
            r@.width == new_w,
            r@.height == new_h,
            r@.wf(),
            self@.width == 0 || self@.height == 0 ==> r@.pixels == Seq::new(
                (new_w * new_h) as nat,
                |i: int| 0u8,
            ),
            self@.width > 0 && self@.height > 0 && new_w == self@.width && new_h == self@.height
                ==> r@ == self@,
    {
        let d = resize_gaussian(self.width, self.height, self.data.as_slice(), new_w, new_h);
        GrayImage { width: new_w, height: new_h, data: d }
    }
}

/// Decodes an image file held in memory into gray.
pub fn convert_bmp_to_raw(bmp_data: &[u8]) -> (r: Result<GrayImage, ImageError>)
    ensures
        match r {
            Ok(img) => luma8_decoding(bmp_data@) == Some((img@.width, img@.height, img@.pixels))
                && img@.wf(),
            Err(e) => luma8_decoding(bmp_data@) is None && e is Decode,
        },
{
    GrayImage::from_bmp(bmp_data)
}

/// The image as a BMP file; on readable sizes `convert_bmp_to_raw` reads it
/// back as the same image.
pub fn convert_raw_to_bmp(img: &GrayImage) -> (r: Vec<u8>)
    requires
        img@.wf(),
        bmp_encodable(img@.width, img@.height),
    ensures
        r@ == bmp_encoding(img@.width, img@.height, img@.pixels),
        bmp_readable(img@.width, img@.height) ==> luma8_decoding(r@) == Some(
            (img@.width, img@.height, img@.pixels),
        ),
{
    img.to_bmp()
}

/// Converting an image to BMP and back gives the same image, when its size
/// is one that the decoder reads (`bmp_readable`): `convert_bmp_to_raw`
/// succeeds on the file that `convert_raw_to_bmp` wrote, with the same width,
/// height and pixels.
pub proof fn law_bmp_round_trip(img: GrayView, bmp: Seq<u8>, back: Result<GrayView, ()>)
    requires
        img.wf(),
        bmp_readable(img.width, img.height),
        luma8_decoding(bmp) == Some((img.width, img.height, img.pixels)),
        back matches Ok(b) ==> luma8_decoding(bmp) == Some((b.width, b.height, b.pixels)),
        back is Err ==> luma8_decoding(bmp) is None,
    ensures
        back == Ok::<GrayView, ()>(img),
{
}


// --- Foreground detection ---

/// A per-pixel foreground mask: `true` where the fingerprint is.
#[derive(Debug, Clone)]
pub struct BinaryMap {
    pub width: u32,
    pub height: u32,
    pub mask: Vec<bool>,
}

impl BinaryMap {
    /// The mask entry at index `y * width + x`.
    pub fn is_foreground(&self, x: u32, y: u32) -> (r: bool)
        requires
            y * self.width + x < self.mask@.len(),
            y * self.width + x <= u32::MAX,
        ensures
            r == self.mask@[y * self.width + x],
    {
        self.mask[(y * self.width + x) as usize]
    }

    /// Writes the mask entry at index `y * width + x`.
    pub fn set(&mut self, x: u32, y: u32, val: bool)
        requires
            y * old(self).width + x < old(self).mask@.len(),
            y * old(self).width + x <= u32::MAX,
        ensures
            final(self).width == old(self).width,
            final(self).height == old(self).height,
            final(self).mask@ == old(self).mask@.update(y * old(self).width + x, val),
    {
        let i = (y * self.width + x) as usize;
        self.mask.set(i, val);
    }
}

/// The side of the square blocks that foreground detection works on.
pub const BLOCK_SIZE: u32 = 8;

/// The `k`-th pixel (row-major, `k < 64`) of block `(bx, by)`.
pub open spec fn block_pixel(v: GrayView, bx: int, by: int, k: int) -> u8 {
    v.at(bx * 8 + k % 8, by * 8 + k / 8)
}

/// The sum of the first `k` pixels of block `(bx, by)`.
pub open spec fn block_sum(v: GrayView, bx: int, by: int, k: nat) -> nat
    decreases k,
{
    if k == 0 {
        0
    } else {
        block_sum(v, bx, by, (k - 1) as nat) + (block_pixel(v, bx, by, k - 1) as nat)
    }
}

/// The sum of the squares of the first `k` pixels of block `(bx, by)`.
pub open spec fn block_sum_sq(v: GrayView, bx: int, by: int, k: nat) -> nat
    decreases k,
{
    if k == 0 {
        0
    } else {
        let p = block_pixel(v, bx, by, k - 1) as nat;
        block_sum_sq(v, bx, by, (k - 1) as nat) + p * p
    }
}

/// A block holds fingerprint when its 64 pixels are dark on average (mean
/// below 180) and textured (population variance above 200). With `s` the sum
/// and `q` the sum of squares, the mean is `s / 64` and the variance is
/// `(64 q - s^2) / 64^2`, so both tests are exact integer comparisons.
pub open spec fn block_is_foreground(v: GrayView, bx: int, by: int) -> bool {
    let s = block_sum(v, bx, by, 64);
    let q = block_sum_sq(v, bx, by, 64);
    &&& s < 180 * 64
    &&& 64 * q - s * s > 200 * 64 * 64
}

/// The mask of `detect_background`: a pixel is foreground when it lies in a
/// whole 8x8 block (blocks are counted from the top-left corner; the partial
/// blocks along the right and bottom edges are background) that holds
/// fingerprint.
pub open spec fn foreground_mask(v: GrayView) -> Seq<bool> {
    let w = v.width as int;
    let h = v.height as int;
    Seq::new(
        (w * h) as nat,
        |i: int|
            {
                let bx = (i % w) / 8;
                let by = (i / w) / 8;
                bx < w / 8 && by < h / 8 && block_is_foreground(v, bx, by)
            },
    )
}

/// What the segmentation decides for the pixel at column `x` of row `y`,
/// with `s` and `q` the sum and the sum of squares of the 64 levels of its
/// 8x8 block: it is foreground only inside a whole block (not in the partial
/// blocks along the right and bottom edges), only when the block is dark on
/// average (its mean `s / 64` below 180; a block of mean 180 or more is
/// background whatever its texture), and only when the block is textured
/// (its variance `(64 q - s^2) / 64^2` above 200; a flat block is
/// background); a whole block that is both dark and textured is foreground.
/// Every pixel of a block gets the same answer.
pub proof fn law_segmentation(v: GrayView, mask: Seq<bool>, x: int, y: int, x2: int, y2: int)
    requires
        v.wf(),
        mask == foreground_mask(v),
        0 <= x < v.width,
        0 <= y < v.height,
        0 <= x2 < v.width,
        0 <= y2 < v.height,
    ensures
        ({
            let w = v.width as int;
            let bx = x / 8;
            let by = y / 8;
            let s = block_sum(v, bx, by, 64);
            let q = block_sum_sq(v, bx, by, 64);
            &&& mask.len() == v.width * v.height
            &&& (bx >= v.width / 8 || by >= v.height / 8) ==> !mask[y * w + x]
            &&& s >= 180 * 64 ==> !mask[y * w + x]
            &&& 64 * q - s * s <= 200 * 64 * 64 ==> !mask[y * w + x]
            &&& (bx < v.width / 8 && by < v.height / 8 && s < 180 * 64 && 64 * q - s * s > 200
                * 64 * 64) ==> mask[y * w + x]
            &&& (x2 / 8 == bx && y2 / 8 == by) ==> mask[y2 * w + x2] == mask[y * w + x]
        }),
{
    let w = v.width as int;
    let h = v.height as int;
    lemma_index_in_bounds(w, h, x, y);
    lemma_index_in_bounds(w, h, x2, y2);
    let i = y * w + x;
    let i2 = y2 * w + x2;
    vstd::arithmetic::div_mod::lemma_fundamental_div_mod_converse(i, w, y, x);
    vstd::arithmetic::div_mod::lemma_fundamental_div_mod_converse(i2, w, y2, x2);
}

/// The pixel sums of block `(bx, by)`.
fn block_sums(img: &GrayImage, bx: usize, by: usize) -> (r: (u32, u32))
    requires
        img@.wf(),
        bx < img@.width / 8,
        by < img@.height / 8,
    ensures
        r.0 == block_sum(img@, bx as int, by as int, 64),
        r.1 == block_sum_sq(img@, bx as int, by as int, 64),
        r.0 <= 255 * 64,
        r.1 <= 65025 * 64,
{
    let ghost v = img@;
    let w = img.width as usize;
    let h = img.height as usize;
    let n = img.data.len();
    let mut s: u32 = 0;
    let mut q: u32 = 0;
    let mut k: usize = 0;
    while k < 64
        invariant
            v == img@,
            w == v.width,
            h == v.height,
            n == v.pixels.len(),
            n == w * h,
            bx < w / 8,
            by < h / 8,
            k <= 64,
            s == block_sum(v, bx as int, by as int, k as nat),
            q == block_sum_sq(v, bx as int, by as int, k as nat),
            s <= 255 * k,
            q <= 65025 * k,
        decreases 64 - k,
    {
        let x = bx * 8 + k % 8;
        let y = by * 8 + k / 8;
        assert(x < w && y < h) by {
            assert(bx * 8 + 8 <= w);
            assert(by * 8 + 8 <= h);
        }
        proof {
            lemma_index_in_bounds(w as int, h as int, x as int, y as int);
        }
        let p = img.data[y * w + x] as u32;
        assert(p * p <= 255 * 255) by (nonlinear_arith)
            requires
                p <= 255,
        ;
        s = s + p;
        q = q + p * p;
        k = k + 1;
    }
    (s, q)
}

/// Foreground/background segmentation: each whole 8x8 block is foreground
/// when it is dark on average and textured (see `block_is_foreground`).
pub fn detect_background(img: &GrayImage) -> (r: BinaryMap)
    requires
        img@.wf(),
    ensures
        r.width == img@.width,
        r.height == img@.height,
        r.mask@ == foreground_mask(img@),
{
    let ghost v = img@;
    let w = img.width as usize;
    let h = img.height as usize;
    let bw = w / 8;
    let bh = h / 8;
    let n = img.data.len();
    assert(bw * bh <= n) by (nonlinear_arith)
        requires
            n == w * h,
            bw == w / 8,
            bh == h / 8,
    ;
    let mut blocks: Vec<bool> = Vec::with_capacity(bw * bh);
    let mut by: usize = 0;
    while by < bh
        invariant
            v == img@,
            v.wf(),
            w == v.width,
            h == v.height,
            bw == w / 8,
            bh == h / 8,
            bw * bh <= n,
            by <= bh,
            blocks@.len() == by * bw,
            forall|j: int|
                0 <= j < blocks@.len() ==> blocks@[j] == block_is_foreground(
                    v,
                    j % (bw as int),
                    j / (bw as int),
                ),
        decreases bh - by,
    {
        let mut bx: usize = 0;
        while bx < bw
            invariant
                v == img@,
                v.wf(),
                w == v.width,
                h == v.height,
                bw == w / 8,
                bh == h / 8,
                bw * bh <= n,
                by < bh,
                bx <= bw,
                blocks@.len() == by * bw + bx,
                forall|j: int|
                    0 <= j < blocks@.len() ==> blocks@[j] == block_is_foreground(
                        v,
                        j % (bw as int),
                        j / (bw as int),
                    ),
            decreases bw - bx,
        {
            let (s, q) = block_sums(img, bx, by);
            assert(s * s <= 16320 * 16320) by (nonlinear_arith)
                requires
                    s <= 16320,
            ;
            let fg = s < 180 * 64 && (64 * q as u64) > (s as u64) * (s as u64) + 200 * 64 * 64;
            proof {
                lemma_row_col(bw as int, bx as int, by as int);
                lemma_index_in_bounds(bw as int, bh as int, bx as int, by as int);
            }
            blocks.push(fg);
            bx = bx + 1;
        }
        proof {
            if bw > 0 {
                lemma_row_col(bw as int, 0, by as int);
            } else {
                assert((by + 1) * bw == 0 && by * bw == 0) by (nonlinear_arith)
                    requires
                        bw == 0,
                ;
            }
        }
        by = by + 1;
    }
    let mut mask: Vec<bool> = Vec::with_capacity(n);
    let mut y: usize = 0;
    while y < h
        invariant
            v == img@,
            v.wf(),
            w == v.width,
            h == v.height,
            n == w * h,
            bw == w / 8,
            bh == h / 8,
            bw * bh <= n,
            blocks@.len() == bh * bw,
            forall|j: int|
                0 <= j < blocks@.len() ==> blocks@[j] == block_is_foreground(
                    v,
                    j % (bw as int),
                    j / (bw as int),
                ),
            y <= h,
            mask@.len() == y * w,
            forall|j: int| 0 <= j < mask@.len() ==> mask@[j] == foreground_mask(v)[j],
        decreases h - y,
    {
        let mut x: usize = 0;
        while x < w
            invariant
                v == img@,
                v.wf(),
                w == v.width,
                h == v.height,
                n == w * h,
                bw == w / 8,
                bh == h / 8,
                bw * bh <= n,
                blocks@.len() == bh * bw,
                forall|j: int|
                    0 <= j < blocks@.len() ==> blocks@[j] == block_is_foreground(
                        v,
                        j % (bw as int),
                        j / (bw as int),
                    ),
                y < h,
                x <= w,
                mask@.len() == y * w + x,
                forall|j: int| 0 <= j < mask@.len() ==> mask@[j] == foreground_mask(v)[j],
            decreases w - x,
        {
            proof {
                lemma_row_col(w as int, x as int, y as int);
                lemma_index_in_bounds(w as int, h as int, x as int, y as int);
            }
            let bx = x / 8;
            let by = y / 8;
            let fg = if bx < bw && by < bh {
                proof {
                    lemma_row_col(bw as int, bx as int, by as int);
                    lemma_index_in_bounds(bw as int, bh as int, bx as int, by as int);
                    assert(bh * bw == bw * bh) by (nonlinear_arith);
                }
                blocks[by * bw + bx]
            } else {
                false
            };
            mask.push(fg);
            x = x + 1;
        }
        proof {
            if w > 0 {
                lemma_row_col(w as int, 0, y as int);
            } else {
                assert((y + 1) * w == 0 && y * w == 0) by (nonlinear_arith)
                    requires
                        w == 0,
                ;
            }
        }
        y = y + 1;
    }
    assert(h * w == w * h) by (nonlinear_arith);
    assert(mask@ =~= foreground_mask(v));
    BinaryMap { width: img.width, height: img.height, mask }
}


// --- Finger presence ---

/// The sum of a sequence of gray levels.
pub open spec fn level_sum(s: Seq<u8>) -> nat
    decreases s.len(),
{
    if s.len() == 0 {
        0
    } else {
        level_sum(s.drop_last()) + (s.last() as nat)
    }
}

/// The sum of the squares of a sequence of gray levels.
pub open spec fn level_sum_sq(s: Seq<u8>) -> nat
    decreases s.len(),
{
    if s.len() == 0 {
        0
    } else {
        let p = s.last() as nat;
        level_sum_sq(s.drop_last()) + p * p
    }
}

/// A finger lies on the glass when the gray levels vary: their population
/// variance `(n q - s^2) / n^2` exceeds 100 (an empty glass stays below 50, a
/// finger usually goes above 300). No data means no finger.
pub open spec fn finger_present(s: Seq<u8>) -> bool {
    let n = s.len();
    let t = level_sum(s);
    let q = level_sum_sq(s);
    n > 0 && n * q - t * t > 100 * n * n
}

/// Whether a raw sensor frame shows a finger (see `finger_present`); the
/// size arguments are not needed.
pub fn detect_finger_presence(data: &[u8], width: u32, height: u32) -> (r: bool)
    requires
        data@.len() <= 0xffff_ffff_ffff,
    ensures
        r == finger_present(data@),
{
    let n = data.len();
    let mut t: u64 = 0;
    let mut q: u64 = 0;
    let mut i: usize = 0;
    while i < n
        invariant
            n == data@.len(),
            n <= 0xffff_ffff_ffff,
            i <= n,
            t == level_sum(data@.take(i as int)),
            q == level_sum_sq(data@.take(i as int)),
            t <= 255 * i,
            q <= 65025 * i,
        decreases n - i,
    {
        assert(data@.take(i as int + 1).drop_last() =~= data@.take(i as int));
        let p = data[i] as u64;
        assert(p * p <= 65025) by (nonlinear_arith)
            requires
                p <= 255,
        ;
        t = t + p;
        q = q + p * p;
        i = i + 1;
    }
    assert(data@.take(n as int) =~= data@);
    if n == 0 {
        return false;
    }
    let nn = n as u128;
    let tt = t as u128;
    let qq = q as u128;
    assert(nn * qq <= 0xffff_ffff_ffff * (65025 * 0xffff_ffff_ffff)) by (nonlinear_arith)
        requires
            nn <= 0xffff_ffff_ffff,
            qq <= 65025 * nn,
    ;
    assert(tt * tt <= 65025 * nn * nn) by (nonlinear_arith)
        requires
            tt <= 255 * nn,
    ;
    assert(nn * nn <= 0xffff_ffff_ffff * 0xffff_ffff_ffff) by (nonlinear_arith)
        requires
            nn <= 0xffff_ffff_ffff,
    ;
    assert(65025 * nn * nn + 100 * nn * nn <= 65125 * (0xffff_ffff_ffff * 0xffff_ffff_ffff))
        by (nonlinear_arith)
        requires
            nn * nn <= 0xffff_ffff_ffff * 0xffff_ffff_ffff,
    ;
    nn * qq > tt * tt + 100 * nn * nn
}


// --- File names and output formats ---

/// A path without its trailing separators and trailing `/.` components,
/// neither of which changes the final component of a Unix path.
pub open spec fn strip_tail(s: Seq<char>) -> Seq<char>
    decreases s.len(),
{
    if s.len() > 0 && s.last() == '/' {
        strip_tail(s.drop_last())
    } else if s.len() >= 2 && s.last() == '.' && s[s.len() - 2] == '/' {
        strip_tail(s.take(s.len() - 2))
    } else {
        s
    }
}

/// The index of the last `/`, or -1.
pub open spec fn last_sep(s: Seq<char>) -> int
    decreases s.len(),
{
    if s.len() == 0 {
        -1
    } else if s.last() == '/' {
        s.len() - 1
    } else {
        last_sep(s.drop_last())
    }
}

/// The final component of a Unix path (empty, `.` or `..` when the path has
/// no file name).
pub open spec fn final_component(s: Seq<char>) -> Seq<char> {
    let t = strip_tail(s);
    t.subrange(last_sep(t) + 1, t.len() as int)
}

/// The file name has the extension `wsq` in any letter case: it ends with
/// `.wsq` and something stands before that dot.
pub open spec fn has_wsq_extension(f: Seq<char>) -> bool {
    &&& f.len() >= 5
    &&& f[f.len() - 4] == '.'
    &&& crate::text::ascii_lower_seq(f.subrange(f.len() - 3, f.len() as int)) == seq!['w', 's', 'q']
}

/// Whether a path names a WSQ file (by its extension, ignoring case).
pub fn is_wsq_path(path: &str) -> (r: bool)
    ensures
        r == has_wsq_extension(final_component(path@)),
{
    let c = crate::text::chars_of(path);
    let n = c.len();
    let mut e: usize = n;
    assert(c@.take(n as int) =~= c@);
    loop
        invariant
            n == c@.len(),
            e <= n,
            strip_tail(c@) == strip_tail(c@.take(e as int)),
        ensures
            e <= n,
            strip_tail(c@) == c@.take(e as int),
        decreases e,
    {
        if e > 0 && c[e - 1] == '/' {
            assert(c@.take(e as int).drop_last() =~= c@.take(e - 1));
            e = e - 1;
        } else if e >= 2 && c[e - 1] == '.' && c[e - 2] == '/' {
            assert(c@.take(e as int).take(e - 2) =~= c@.take(e - 2));
            e = e - 2;
        } else {
            break;
        }
    }
    let ghost t = c@.take(e as int);
    let mut k: usize = e;
    while k > 0 && c[k - 1] != '/'
        invariant
            n == c@.len(),
            k <= e <= n,
            t == c@.take(e as int),
            last_sep(t) == last_sep(c@.take(k as int)),
        decreases k,
    {
        assert(c@.take(k as int).drop_last() =~= c@.take(k - 1));
        k = k - 1;
    }
    assert(last_sep(t) == k - 1);
    let ghost f = t.subrange(k as int, e as int);
    assert(f =~= final_component(path@));
    if e - k < 5 || c[e - 4] != '.' {
        return false;
    }
    let a = crate::text::char_ascii_lower(c[e - 3]);
    let b = crate::text::char_ascii_lower(c[e - 2]);
    let d = crate::text::char_ascii_lower(c[e - 1]);
    let ok = a == 'w' && b == 's' && d == 'q';
    proof {
        let g = f.subrange(f.len() - 3, f.len() as int);
        assert(g[0] == c@[e - 3] && g[1] == c@[e - 2] && g[2] == c@[e - 1]);
        let lg = crate::text::ascii_lower_seq(g);
        assert(lg[0] == a && lg[1] == b && lg[2] == d);
        if ok {
            assert(lg =~= seq!['w', 's', 'q']);
        }
    }
    ok
}

/// The encodings that `to_base64_with_format` produces.
#[derive(Debug, Clone, Copy, PartialEq, Eq, Structural)]
pub enum OutputFormat {
    Png,
    Bmp,
    Wsq,
}

/// The text of the error for an unknown output format (lower-cased).
pub open spec fn unsupported_format_text(lower: Seq<char>) -> Seq<char> {
    "Unsupported output format: "@ + lower
}

/// Reads an output format name, ignoring ASCII case: `png`, `bmp` or `wsq`.
pub fn parse_output_format(format: &str) -> (r: Result<OutputFormat, ImageError>)
    ensures
        ({
            let lower = crate::text::ascii_lower_seq(format@);
            match r {
                Ok(f) => (f == OutputFormat::Png && lower == seq!['p', 'n', 'g']) || (f
                    == OutputFormat::Bmp && lower == seq!['b', 'm', 'p']) || (f == OutputFormat::Wsq
                    && lower == seq!['w', 's', 'q']),
                Err(e) => {
                    &&& lower != seq!['p', 'n', 'g']
                    &&& lower != seq!['b', 'm', 'p']
                    &&& lower != seq!['w', 's', 'q']
                    &&& e matches ImageError::Wsq(m)
                    &&& m@ == unsupported_format_text(lower)
                },
            }
        }),
{
    let c = crate::text::chars_of(format);
    let l = crate::text::chars_ascii_lower(c.as_slice());
    let ghost lower = crate::text::ascii_lower_seq(format@);
    if l.len() == 3 && l[0] == 'p' && l[1] == 'n' && l[2] == 'g' {
        assert(l@ =~= seq!['p', 'n', 'g']);
        Ok(OutputFormat::Png)
    } else if l.len() == 3 && l[0] == 'b' && l[1] == 'm' && l[2] == 'p' {
        assert(l@ =~= seq!['b', 'm', 'p']);
        Ok(OutputFormat::Bmp)
    } else if l.len() == 3 && l[0] == 'w' && l[1] == 's' && l[2] == 'q' {
        assert(l@ =~= seq!['w', 's', 'q']);
        Ok(OutputFormat::Wsq)
    } else {
        assert(l@ != seq!['p', 'n', 'g']) by {
            if l@ == seq!['p', 'n', 'g'] {
                assert(l@[0] == 'p' && l@[1] == 'n' && l@[2] == 'g');
            }
        }
        assert(l@ != seq!['b', 'm', 'p']) by {
            if l@ == seq!['b', 'm', 'p'] {
                assert(l@[0] == 'b' && l@[1] == 'm' && l@[2] == 'p');
            }
        }
        assert(l@ != seq!['w', 's', 'q']) by {
            if l@ == seq!['w', 's', 'q'] {
                assert(l@[0] == 'w' && l@[1] == 's' && l@[2] == 'q');
            }
        }
        let mut out: Vec<char> = Vec::new();
        crate::text::push_str(&mut out, "Unsupported output format: ");
        crate::text::push_chars(&mut out, l.as_slice());
        proof {
            reveal_strlit("Unsupported output format: ");
        }
        Err(ImageError::Wsq(crate::text::string_from_chars(out.as_slice())))
    }
}

/// What `to_base64_with_format` gives: the Base64 text of a PNG or BMP file,
/// or the word that WSQ was asked for, whose encoder is a C library outside
/// this crate.
#[derive(Debug)]
pub enum Base64Export {
    Text(String),
    Wsq,
}

impl GrayImage {
    /// The image as Base64 in the named format (ASCII case ignored): the
    /// PNG or BMP file, or `Wsq` for the caller's WSQ encoder; any other name
    /// is refused with `Unsupported output format: ` and the lower-cased
    /// name. (A PNG of an empty image cannot be made.)
    pub fn to_base64_with_format(&self, format: &str) -> (r: Result<Base64Export, ImageError>)
        requires
            self@.wf(),
            crate::text::ascii_lower_seq(format@) == seq!['p', 'n', 'g'] ==> self@.width > 0
                && self@.height > 0,
            crate::text::ascii_lower_seq(format@) == seq!['b', 'm', 'p'] ==> bmp_encodable(
                self@.width,
                self@.height,
            ) && (bmp_file_len(self@.width, self@.height) / 3) * 4 + 4 <= usize::MAX,
        ensures
            ({
                let lower = crate::text::ascii_lower_seq(format@);
                if lower == seq!['p', 'n', 'g'] {
                    r matches Ok(Base64Export::Text(t)) && t@ == base64_standard(
                        png_encoding(self@.width, self@.height, self@.pixels),
                    )
                } else if lower == seq!['b', 'm', 'p'] {
                    r matches Ok(Base64Export::Text(t)) && t@ == base64_standard(
                        bmp_encoding(self@.width, self@.height, self@.pixels),
                    )
                } else if lower == seq!['w', 's', 'q'] {
                    r matches Ok(Base64Export::Wsq)
                } else {
                    r matches Err(ImageError::Wsq(m)) && m@ == unsupported_format_text(lower)
                }
            }),
    {
        match parse_output_format(format) {
            Ok(OutputFormat::Png) => Ok(Base64Export::Text(self.to_base64_png().unwrap())),
            Ok(OutputFormat::Bmp) => Ok(Base64Export::Text(self.to_base64_bmp())),
            Ok(OutputFormat::Wsq) => Ok(Base64Export::Wsq),
            Err(e) => Err(e),
        }
    }
}

} // verus!
