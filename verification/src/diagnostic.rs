//! The scanner check tool's own formats and decisions: the raw-capture BMP
//! file, the ASCII preview, the buffer statistics and the read loop.

use vstd::prelude::*;
use crate::image::{level_sum, level_sum_sq};
use crate::usb::{BulkRead, BulkStep};

verus! {

// --- Little-endian fields ---

/// The two little-endian bytes of `v` (`0 <= v < 2^16`).
pub open spec fn le_u16(v: int) -> Seq<u8> {
    seq![(v % 256) as u8, ((v / 256) % 256) as u8]
}

/// The four little-endian bytes of `v` (`0 <= v < 2^32`).
pub open spec fn le_u32(v: int) -> Seq<u8> {
    seq![
        (v % 256) as u8,
        ((v / 256) % 256) as u8,
        ((v / 65536) % 256) as u8,
        ((v / 16777216) % 256) as u8,
    ]
}

fn push_le16(out: &mut Vec<u8>, v: u16)
    ensures
        final(out)@ == old(out)@ + le_u16(v as int),
{
    out.push((v % 256) as u8);
    out.push(((v / 256) % 256) as u8);
    assert(final(out)@ =~= old(out)@ + le_u16(v as int));
}

fn push_le32(out: &mut Vec<u8>, v: u32)
    ensures
        final(out)@ == old(out)@ + le_u32(v as int),
{
    out.push((v % 256) as u8);
    out.push(((v / 256) % 256) as u8);
    out.push(((v / 65536) % 256) as u8);
    out.push(((v / 16777216) % 256) as u8);
    assert(final(out)@ =~= old(out)@ + le_u32(v as int));
}

// --- The raw-capture BMP file ---

/// The length of a row of `w` pixels padded to a multiple of 4 bytes.
pub open spec fn padded_row_len(w: int) -> int {
    ((w + 3) / 4) * 4
}

/// The byte at offset `k` of the pixel area: rows of `row` bytes, each
/// holding the `w` pixels of its row of `data` (zero where `data` ends)
/// and then zero padding.
pub open spec fn bmp_area_byte(data: Seq<u8>, w: int, row: int, k: int) -> u8 {
    let y = k / row;
    let x = k % row;
    if x < w && y * w + x < data.len() {
        data[y * w + x]
    } else {
        0
    }
}

/// The gray palette: entry `i` is blue, green and red `i`, then a zero.
pub open spec fn gray_palette() -> Seq<u8> {
    Seq::new(1024, |k: int| if k % 4 == 3 { 0u8 } else { (k / 4) as u8 })
}

/// The pixel area of the file.
pub open spec fn bmp_area(data: Seq<u8>, w: int, h: int) -> Seq<u8> {
    let row = padded_row_len(w);
    Seq::new((row * h) as nat, |k: int| bmp_area_byte(data, w, row, k))
}

/// An 8-bit gray BMP of `w` by `h` pixels, stored top-down: the 14-byte
/// file header, the 40-byte information header (500 dpi, 256 colors), the
/// gray palette, then the rows.
pub open spec fn gray_bmp_file(data: Seq<u8>, w: int, h: int) -> Seq<u8> {
    let img = padded_row_len(w) * h;
    let neg_h = if h == 0 { 0 } else { 4294967296 - h };
    seq![66u8, 77u8] + le_u32(1078 + img) + seq![0u8, 0u8, 0u8, 0u8] + le_u32(1078)
        + le_u32(40) + le_u32(w) + le_u32(neg_h) + le_u16(1) + le_u16(8) + le_u32(0)
        + le_u32(img) + le_u32(2835) + le_u32(2835) + le_u32(256) + le_u32(0)
        + gray_palette() + bmp_area(data, w, h)
}

/// The BMP file of a raw capture of `width` by `height` pixels, row by row
/// from the top; rows past the end of `data` are black.
pub fn gray_bmp_bytes(data: &[u8], width: usize, height: usize) -> (r: Vec<u8>)
    requires
        width <= 0x7fff_ffff,
        height <= 0x7fff_ffff,
        1078 + padded_row_len(width as int) * height <= u32::MAX,
    ensures
        r@ == gray_bmp_file(data@, width as int, height as int),
{
    let row: usize = (width + 3) / 4 * 4;
    assert(row * height <= u32::MAX);
    let img: u32 = (row * height) as u32;
    let mut out: Vec<u8> = Vec::new();
    out.push(66u8);
    out.push(77u8);
    push_le32(&mut out, 1078 + img);
    out.push(0u8);
    out.push(0u8);
    out.push(0u8);
    out.push(0u8);
    push_le32(&mut out, 1078);
    push_le32(&mut out, 40);
    push_le32(&mut out, width as u32);
    let neg_h: u32 = if height == 0 {
        0
    } else {
        (4294967296u64 - height as u64) as u32
    };
    push_le32(&mut out, neg_h);
    push_le16(&mut out, 1);
    push_le16(&mut out, 8);
    push_le32(&mut out, 0);
    push_le32(&mut out, img);
    push_le32(&mut out, 2835);
    push_le32(&mut out, 2835);
    push_le32(&mut out, 256);
    push_le32(&mut out, 0);
    let ghost header = out@;
    let mut i: usize = 0;
    while i < 256
        invariant
            i <= 256,
            out@ == header + gray_palette().take(4 * i as int),
        decreases 256 - i,
    {
        let b = i as u8;
        out.push(b);
        out.push(b);
        out.push(b);
        out.push(0u8);
        i = i + 1;
        assert(out@ =~= header + gray_palette().take(4 * i as int));
    }
    assert(gray_palette().take(1024) =~= gray_palette());
    let ghost head = out@;
    let ghost area = bmp_area(data@, width as int, height as int);
    let mut y: usize = 0;
    while y < height
        invariant
            row == padded_row_len(width as int),
            row * height <= u32::MAX,
            width <= row,
            y <= height,
            area == bmp_area(data@, width as int, height as int),
            out@ == head + area.take(row * y),
        decreases height - y,
    {
        assert(row * y + row <= row * height) by (nonlinear_arith)
            requires
                y < height,
        ;
        let mut x: usize = 0;
        while x < row
            invariant
                row == padded_row_len(width as int),
                row * height <= u32::MAX,
                width <= row,
                y < height,
                x <= row,
                row * y + row <= row * height,
                area == bmp_area(data@, width as int, height as int),
                out@ == head + area.take(row * y + x),
            decreases row - x,
        {
            let k: usize = row * y + x;
            proof {
                vstd::arithmetic::div_mod::lemma_fundamental_div_mod_converse(
                    k as int,
                    row as int,
                    y as int,
                    x as int,
                );
            }
            if x < width {
                assert(y * width + x < row * height) by (nonlinear_arith)
                    requires
                        x < width,
                        width <= row,
                        y < height,
                ;
            }
            let b: u8 = if x < width && y * width + x < data.len() {
                data[y * width + x]
            } else {
                0
            };
            assert(b == area[k as int]);
            out.push(b);
            x = x + 1;
            assert(out@ =~= head + area.take(row * y + x));
        }
        y = y + 1;
        assert(row * (y - 1) + row == row * y) by (nonlinear_arith);
    }
    assert(area.take(row * height) =~= area);
    assert(out@ =~= gray_bmp_file(data@, width as int, height as int));
    out
}

// --- The ASCII preview ---

/// The characters of the preview, from dark to bright.
pub open spec fn shades() -> Seq<char> {
    seq![' ', '.', ':', '-', '=', '+', '*', '#', '%', '@']
}

/// The character of a gray level: ten steps from 0 to 255.
pub open spec fn shade_of(v: u8) -> char {
    shades()[(v as int * 9) / 255]
}

/// The sampling step along a side of `n` pixels for `samples` samples: at
/// least 1.
pub open spec fn sample_step(n: int, samples: int) -> int {
    if n / samples > 1 {
        n / samples
    } else {
        1
    }
}

/// `len` samples `step` apart, at most `cap` of them, all below `n`, and as
/// many as fit.
pub open spec fn sample_count(len: int, step: int, n: int, cap: int) -> bool {
    &&& 0 <= len <= cap
    &&& forall|j: int| 0 <= j < len ==> #[trigger] (j * step) < n
    &&& (len == cap || len * step >= n)
}

/// The gray level at column `x` of row `y`, or black past the data.
pub open spec fn preview_pixel(data: Seq<u8>, w: int, y: int, x: int) -> u8 {
    if y * w + x < data.len() {
        data[y * w + x]
    } else {
        0
    }
}

fn shade(v: u8) -> (c: char)
    ensures
        c == shade_of(v),
{
    let k: u32 = (v as u32 * 9) / 255;
    assert(k <= 9);
    if k == 0 {
        ' '
    } else if k == 1 {
        '.'
    } else if k == 2 {
        ':'
    } else if k == 3 {
        '-'
    } else if k == 4 {
        '='
    } else if k == 5 {
        '+'
    } else if k == 6 {
        '*'
    } else if k == 7 {
        '#'
    } else if k == 8 {
        '%'
    } else {
        '@'
    }
}

/// The preview of a `width` by `height` capture: up to 20 lines of up to 40
/// characters, sampling every `sample_step(width, 40)`-th column of every
/// `sample_step(height, 20)`-th row from the top left.
pub fn ascii_preview(data: &[u8], width: usize, height: usize) -> (r: Vec<String>)
    requires
        width * height <= usize::MAX,
    ensures
        sample_count(r@.len() as int, sample_step(height as int, 20), height as int, 20),
        forall|j: int|
            0 <= j < r@.len() ==> {
                &&& sample_count(
                    r@[j]@.len() as int,
                    sample_step(width as int, 40),
                    width as int,
                    40,
                )
                &&& forall|i: int|
                    0 <= i < r@[j]@.len() ==> #[trigger] r@[j]@[i] == shade_of(
                        preview_pixel(
                            data@,
                            width as int,
                            j * sample_step(height as int, 20),
                            i * sample_step(width as int, 40),
                        ),
                    )
            },
{
    let sx: usize = if width / 40 > 1 {
        width / 40
    } else {
        1
    };
    let sy: usize = if height / 20 > 1 {
        height / 20
    } else {
        1
    };
    assert(20 * sy <= if height > 20 { height as int } else { 20 }) by (nonlinear_arith)
        requires
            sy == sample_step(height as int, 20),
    ;
    assert(40 * sx <= if width > 40 { width as int } else { 40 }) by (nonlinear_arith)
        requires
            sx == sample_step(width as int, 40),
    ;
    let mut lines: Vec<String> = Vec::new();
    let mut j: usize = 0;
    let mut y: usize = 0;
    while j < 20 && y < height
        invariant
            sx == sample_step(width as int, 40),
            sy == sample_step(height as int, 20),
            width * height <= usize::MAX,
            20 * sy <= if height > 20 { height as int } else { 20 },
            40 * sx <= if width > 40 { width as int } else { 40 },
            j <= 20,
            y == j * sy,
            lines@.len() == j,
            forall|q: int| 0 <= q < j ==> #[trigger] (q * sy) < height,
            forall|q: int|
                0 <= q < j ==> {
                    &&& sample_count(lines@[q]@.len() as int, sx as int, width as int, 40)
                    &&& forall|i: int|
                        0 <= i < lines@[q]@.len() ==> #[trigger] lines@[q]@[i] == shade_of(
                            preview_pixel(data@, width as int, q * sy, i * sx),
                        )
                },
        decreases 20 - j,
    {
        let mut line: Vec<char> = Vec::new();
        let mut i: usize = 0;
        let mut x: usize = 0;
        while i < 40 && x < width
            invariant
                sx == sample_step(width as int, 40),
                40 * sx <= if width > 40 { width as int } else { 40 },
                width * height <= usize::MAX,
                y < height,
                i <= 40,
                x == i * sx,
                line@.len() == i,
                forall|q: int| 0 <= q < i ==> #[trigger] (q * sx) < width,
                forall|q: int|
                    0 <= q < i ==> #[trigger] line@[q] == shade_of(
                        preview_pixel(data@, width as int, y as int, q * sx),
                    ),
            decreases 40 - i,
        {
            assert(y * width + x < width * height) by (nonlinear_arith)
                requires
                    y < height,
                    x < width,
            ;
            let idx: usize = y * width + x;
            let v: u8 = if idx < data.len() {
                data[idx]
            } else {
                0
            };
            line.push(shade(v));
            assert((i + 1) * sx == x + sx && (i + 1) * sx <= 40 * sx) by (nonlinear_arith)
                requires
                    x == i * sx,
                    i < 40,
            ;
            i = i + 1;
            x = x + sx;
        }
        proof {
            if i < 40 {
                assert(i * sx >= width);
            }
        }
        let text = crate::text::string_from_chars(line.as_slice());
        lines.push(text);
        assert((j + 1) * sy == y + sy && (j + 1) * sy <= 20 * sy) by (nonlinear_arith)
            requires
                y == j * sy,
                j < 20,
        ;
        j = j + 1;
        y = y + sy;
    }
    proof {
        if j < 20 {
            assert(j * sy >= height);
        }
    }
    lines
}

// --- Buffer statistics ---

/// The gray-level statistics of a non-empty capture: its size, darkest and
/// brightest level, and the sums of the levels and of their squares.
#[derive(Debug, Clone, Copy, PartialEq, Eq, Structural)]
pub struct BufferStats {
    pub len: usize,
    pub min: u8,
    pub max: u8,
    pub sum: u64,
    pub sum_sq: u64,
}

/// The statistics of `data`, or none for an empty buffer.
pub fn buffer_stats(data: &[u8]) -> (r: Option<BufferStats>)
    requires
        data@.len() <= 0xffff_ffff_ffff,
    ensures
        data@.len() == 0 ==> r is None,
        data@.len() > 0 ==> (r matches Some(st) && {
            &&& st.len == data@.len()
            &&& st.sum == level_sum(data@)
            &&& st.sum_sq == level_sum_sq(data@)
            &&& st.sum <= 255 * st.len
            &&& st.sum_sq <= 65025 * st.len
            &&& (exists|i: int| 0 <= i < data@.len() && data@[i] == st.min)
            &&& (exists|i: int| 0 <= i < data@.len() && data@[i] == st.max)
            &&& forall|i: int| 0 <= i < data@.len() ==> st.min <= #[trigger] data@[i] <= st.max
        }),
{
    let n = data.len();
    if n == 0 {
        return None;
    }
    let mut lo: u8 = data[0];
    let mut hi: u8 = data[0];
    let mut t: u64 = 0;
    let mut q: u64 = 0;
    let mut i: usize = 0;
    while i < n
        invariant
            n == data@.len(),
            0 < n <= 0xffff_ffff_ffff,
            i <= n,
            t == level_sum(data@.take(i as int)),
            q == level_sum_sq(data@.take(i as int)),
            t <= 255 * i,
            q <= 65025 * i,
            exists|k: int| 0 <= k < n && data@[k] == lo,
            exists|k: int| 0 <= k < n && data@[k] == hi,
            forall|k: int| 0 <= k < i ==> lo <= #[trigger] data@[k] <= hi,
            lo <= data@[0] <= hi,
        decreases n - i,
    {
        assert(data@.take(i as int + 1).drop_last() =~= data@.take(i as int));
        let p: u8 = data[i];
        if p < lo {
            lo = p;
        }
        if p > hi {
            hi = p;
        }
        let pw = p as u64;
        assert(pw * pw <= 65025) by (nonlinear_arith)
            requires
                pw <= 255,
        ;
        t = t + pw;
        q = q + pw * pw;
        i = i + 1;
    }
    assert(data@.take(n as int) =~= data@);
    Some(BufferStats { len: n, min: lo, max: hi, sum: t, sum_sq: q })
}

/// A capture is flat (a blind sensor, a dark LED or an empty buffer) when
/// the standard deviation of its levels is below 5: `n q - s^2 < 25 n^2`.
pub open spec fn flat_stats(st: BufferStats) -> bool {
    let n = st.len as int;
    let t = st.sum as int;
    let q = st.sum_sq as int;
    n * q - t * t < 25 * n * n
}

/// Whether the statistics show a flat capture (see `flat_stats`).
pub fn is_flat(st: &BufferStats) -> (r: bool)
    requires
        st.len <= 0xffff_ffff_ffff,
        st.sum <= 255 * st.len,
        st.sum_sq <= 65025 * st.len,
    ensures
        r == flat_stats(*st),
{
    let n = st.len as u128;
    let t = st.sum as u128;
    let q = st.sum_sq as u128;
    assert(n * q <= 65025 * 0xffff_ffff_ffff * 0xffff_ffff_ffff) by (nonlinear_arith)
        requires
            n <= 0xffff_ffff_ffff,
            q <= 65025 * n,
    ;
    assert(t * t <= 65025 * 0xffff_ffff_ffff * 0xffff_ffff_ffff) by (nonlinear_arith)
        requires
            n <= 0xffff_ffff_ffff,
            t <= 255 * n,
    ;
    assert(25 * n * n <= 25 * 0xffff_ffff_ffff * 0xffff_ffff_ffff) by (nonlinear_arith)
        requires
            n <= 0xffff_ffff_ffff,
    ;
    n * q < 25 * n * n + t * t
}

// --- The check tool's read loop ---

/// The step of the check tool after a bulk read, given the byte count
/// before (`len`) and after (`new_len`) it: bytes are kept until a full
/// 300 x 375 frame is there; a timeout ends a started stream; an overflow,
/// a stalled pipe or an I/O error clear the halt and end the stream once
/// 100000 bytes are there (after an I/O error the tool waits 50 ms before
/// reading again); any other error stops the reads.
pub open spec fn check_read_step(read: BulkRead, len: nat, new_len: nat) -> BulkStep {
    match read {
        BulkRead::Bytes(b) => if b@.len() > 0 && new_len >= 112500 {
            BulkStep::Done { clear_halt: false }
        } else {
            BulkStep::Continue { clear_halt: false, sleep_ms: 0 }
        },
        BulkRead::Timeout => if len > 0 {
            BulkStep::Done { clear_halt: false }
        } else {
            BulkStep::Continue { clear_halt: false, sleep_ms: 0 }
        },
        BulkRead::Overflow | BulkRead::Pipe => if len >= 100000 {
            BulkStep::Done { clear_halt: true }
        } else {
            BulkStep::Continue { clear_halt: true, sleep_ms: 0 }
        },
        BulkRead::Io => if len >= 100000 {
            BulkStep::Done { clear_halt: true }
        } else {
            BulkStep::Continue { clear_halt: true, sleep_ms: 50 }
        },
        BulkRead::Other => BulkStep::Fail,
    }
}

/// The bytes of a capture of the check tool as they arrive.
pub struct CheckCapture {
    pub bytes: Vec<u8>,
}

impl CheckCapture {
    /// An empty capture.
    pub fn new() -> (r: CheckCapture)
        ensures
            r.bytes@ == Seq::<u8>::empty(),
    {
        CheckCapture { bytes: Vec::new() }
    }

    /// Takes the outcome of one bulk read: keeps the bytes that arrived and
    /// says how the reads go on (see `check_read_step`).
    pub fn on_read(&mut self, read: BulkRead) -> (r: BulkStep)
        requires
            read matches BulkRead::Bytes(b) ==> old(self).bytes@.len() + b@.len() <= usize::MAX,
        ensures
            final(self).bytes@ == match read {
                BulkRead::Bytes(b) => old(self).bytes@ + b@,
                _ => old(self).bytes@,
            },
            r == check_read_step(read, old(self).bytes@.len(), final(self).bytes@.len()),
    {
        let len = self.bytes.len();
        match read {
            BulkRead::Bytes(b) => {
                let n = b.len();
                let mut i: usize = 0;
                let ghost start = self.bytes@;
                while i < n
                    invariant
                        n == b@.len(),
                        i <= n,
                        start.len() + n <= usize::MAX,
                        self.bytes@ == start + b@.take(i as int),
                    decreases n - i,
                {
                    self.bytes.push(b[i]);
                    i = i + 1;
                    assert(self.bytes@ =~= start + b@.take(i as int));
                }
                assert(b@.take(n as int) =~= b@);
                if n > 0 && self.bytes.len() >= 112500 {
                    BulkStep::Done { clear_halt: false }
                } else {
                    BulkStep::Continue { clear_halt: false, sleep_ms: 0 }
                }
            },
            BulkRead::Timeout => {
                if len > 0 {
                    BulkStep::Done { clear_halt: false }
                } else {
                    BulkStep::Continue { clear_halt: false, sleep_ms: 0 }
                }
            },
            BulkRead::Overflow | BulkRead::Pipe => {
                if len >= 100000 {
                    BulkStep::Done { clear_halt: true }
                } else {
                    BulkStep::Continue { clear_halt: true, sleep_ms: 0 }
                }
            },
            BulkRead::Io => {
                if len >= 100000 {
                    BulkStep::Done { clear_halt: true }
                } else {
                    BulkStep::Continue { clear_halt: true, sleep_ms: 50 }
                }
            },
            BulkRead::Other => BulkStep::Fail,
        }
    }
}

/// The geometries that the check tool saves a capture in: the standard
/// 300 x 375 frame, the native 300 x 360 and 288 x 375 ones, and 256 x 360.
pub fn check_geometries() -> (r: Vec<(usize, usize)>)
    ensures
        r@ == seq![(300usize, 375usize), (300usize, 360usize), (288usize, 375usize), (256usize, 360usize)],
{
    let mut v: Vec<(usize, usize)> = Vec::new();
    v.push((300, 375));
    v.push((300, 360));
    v.push((288, 375));
    v.push((256, 360));
    assert(v@ =~= seq![(300usize, 375usize), (300usize, 360usize), (288usize, 375usize), (256usize, 360usize)]);
    v
}

/// The size to preview a capture of `len` bytes at: a full frame is
/// 300 x 375, one of at least 108000 bytes 288 x 375, and else rows of 300
/// (at least one); a preview of 10 rows or fewer is not shown.
pub fn preview_geometry(len: usize) -> (r: Option<(usize, usize)>)
    ensures
        ({
            let (w, h) = if len >= 112500 {
                (300int, 375int)
            } else if len >= 108000 {
                (288int, 375int)
            } else {
                (300int, if len / 300 > 1 { (len / 300) as int } else { 1int })
            };
            if h > 10 {
                r == Some((w as usize, h as usize))
            } else {
                r is None
            }
        }),
{
    let (w, h): (usize, usize) = if len >= 112500 {
        (300, 375)
    } else if len >= 108000 {
        (288, 375)
    } else {
        (300, if len / 300 > 1 { len / 300 } else { 1 })
    };
    if h > 10 {
        Some((w, h))
    } else {
        None
    }
}

} // verus!
