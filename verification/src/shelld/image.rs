//! The `image-data` hint: accepted only when its fields agree with its length and stay within
//! bounds, then scaled down to the size a popup draws.

use vstd::arithmetic::div_mod::{
    lemma_div_pos_is_pos, lemma_fundamental_div_mod_converse, lemma_multiply_divide_le,
    lemma_multiply_divide_lt,
};
use vstd::prelude::*;

verus! {

#[derive(Debug, Clone, PartialEq, Eq)]
pub struct Image {
    pub width: u32,
    pub height: u32,
    /// Straight (not premultiplied) RGBA, `width * 4` bytes a row.
    pub rgba: Vec<u8>,
}

/// An image as a value: its size and its bytes.
pub struct ImageView {
    pub width: u32,
    pub height: u32,
    pub rgba: Seq<u8>,
}

impl View for Image {
    type V = ImageView;

    open spec fn view(&self) -> ImageView {
        ImageView { width: self.width, height: self.height, rgba: self.rgba@ }
    }
}

/// A copy of `bytes`.
pub fn copy_bytes(bytes: &[u8]) -> (r: Vec<u8>)
    ensures
        r@ == bytes@,
{
    let mut r: Vec<u8> = Vec::with_capacity(bytes.len());
    let mut i: usize = 0;
    while i < bytes.len()
        invariant
            i <= bytes.len(),
            r@ == bytes@.take(i as int),
        decreases bytes.len() - i,
    {
        r.push(bytes[i]);
        assert(bytes@.take(i as int + 1) == bytes@.take(i as int).push(bytes@[i as int]));
        i = i + 1;
    }
    assert(bytes@.take(bytes.len() as int) == bytes@);
    r
}

impl Image {
    /// A copy of this image.
    pub fn duplicate(&self) -> (r: Image)
        ensures
            r@ == self@,
    {
        Image { width: self.width, height: self.height, rgba: copy_bytes(self.rgba.as_slice()) }
    }
}


pub const MAX_SIDE: i32 = 1024;

pub const SHOWN_SIDE: usize = 96;

/// Row padding a toolkit may add: GdkPixbuf aligns to 4, others to 16 or 64.
pub const MAX_PADDING: usize = 64;

/// The fields of `(iiibiiay)`, in their order.
#[derive(Debug, Clone, Copy)]
pub struct Raw<'a> {
    pub width: i32,
    pub height: i32,
    pub rowstride: i32,
    pub has_alpha: bool,
    pub bits_per_sample: i32,
    pub channels: i32,
    pub data: &'a [u8],
}

/// The samples of a pixel: 4 with alpha, 3 without.
pub open spec fn channels_of(has_alpha: bool) -> int {
    if has_alpha {
        4
    } else {
        3
    }
}

/// The fields agree with each other and with the length of the data, and stay within bounds.
/// GdkPixbuf leaves the last row unpadded; other toolkits pad every row.
pub open spec fn acceptable(raw: Raw) -> bool {
    let ch = channels_of(raw.has_alpha);
    let row = raw.width * ch;
    &&& 1 <= raw.width <= MAX_SIDE
    &&& 1 <= raw.height <= MAX_SIDE
    &&& raw.bits_per_sample == 8
    &&& raw.channels == ch
    &&& row <= raw.rowstride <= row + MAX_PADDING
    &&& (raw.data@.len() == raw.rowstride * (raw.height - 1) + row || raw.data@.len()
        == raw.rowstride * raw.height)
}

/// The size an image of `width` by `height` is shown at: unchanged up to `SHOWN_SIDE` on the
/// longer side, scaled down to it beyond, never below 1.
pub open spec fn target_side(side: int, longest: int) -> int {
    if longest <= SHOWN_SIDE {
        side
    } else {
        let scaled = side * SHOWN_SIDE / longest;
        if scaled >= 1 {
            scaled
        } else {
            1
        }
    }
}

pub open spec fn longest_side(width: int, height: int) -> int {
    if width >= height {
        width
    } else {
        height
    }
}

/// The first source pixel that target pixel `t` of `target` covers.
pub open spec fn span_start(t: int, target: int, source: int) -> int {
    t * source / target
}

/// One past the last source pixel that target pixel `t` of `target` covers.
pub open spec fn span_end(t: int, target: int, source: int) -> int {
    let start = span_start(t, target, source);
    let end = (t + 1) * source / target;
    if end >= start + 1 {
        end
    } else {
        start + 1
    }
}

/// The alpha of the pixel at byte `at`: its own sample, or opaque without one.
pub open spec fn alpha_at(data: Seq<u8>, at: int, ch: int) -> int {
    if ch == 4 {
        data[at + 3] as int
    } else {
        255
    }
}

/// Sample `k` of the pixel at `at` weighted by its alpha (`k` = 3: the alpha itself).
pub open spec fn weighted(data: Seq<u8>, at: int, ch: int, k: int) -> int {
    if k == 3 {
        alpha_at(data, at, ch)
    } else {
        data[at + k] * alpha_at(data, at, ch)
    }
}

/// The sum of `weighted` over the pixels `x0..x` of row `y`.
pub open spec fn row_sum(data: Seq<u8>, stride: int, ch: int, k: int, y: int, x0: int, x: int) -> int
    decreases x - x0,
{
    if x <= x0 {
        0
    } else {
        row_sum(data, stride, ch, k, y, x0, x - 1) + weighted(data, y * stride + (x - 1) * ch, ch, k)
    }
}

/// The sum of `weighted` over rows `y0..y`, pixels `x0..x1`.
pub open spec fn box_sum(
    data: Seq<u8>,
    stride: int,
    ch: int,
    k: int,
    y0: int,
    y: int,
    x0: int,
    x1: int,
) -> int
    decreases y - y0,
{
    if y <= y0 {
        0
    } else {
        box_sum(data, stride, ch, k, y0, y - 1, x0, x1) + row_sum(data, stride, ch, k, y - 1, x0, x1)
    }
}

/// Sample `k` of a box-filtered pixel: colours averaged over premultiplied samples (so a
/// transparent pixel does not darken its neighbours), alpha averaged plainly.
pub open spec fn boxed_sample(
    data: Seq<u8>,
    stride: int,
    ch: int,
    k: int,
    y0: int,
    y1: int,
    x0: int,
    x1: int,
) -> u8 {
    let a = box_sum(data, stride, ch, 3, y0, y1, x0, x1);
    if k == 3 {
        (a / ((y1 - y0) * (x1 - x0))) as u8
    } else if a == 0 {
        0
    } else {
        (box_sum(data, stride, ch, k, y0, y1, x0, x1) / a) as u8
    }
}

/// The four bytes of target pixel (`tx`, `ty`).
pub open spec fn pixel_bytes(
    data: Seq<u8>,
    width: int,
    height: int,
    stride: int,
    ch: int,
    tw: int,
    th: int,
    tx: int,
    ty: int,
) -> Seq<u8> {
    let (x0, x1) = (span_start(tx, tw, width), span_end(tx, tw, width));
    let (y0, y1) = (span_start(ty, th, height), span_end(ty, th, height));
    Seq::new(4, |k: int| boxed_sample(data, stride, ch, k, y0, y1, x0, x1))
}

/// The bytes of the first `p` target pixels, row by row.
pub open spec fn scaled_bytes(
    data: Seq<u8>,
    width: int,
    height: int,
    stride: int,
    ch: int,
    tw: int,
    th: int,
    p: int,
) -> Seq<u8>
    decreases p,
{
    if p <= 0 {
        Seq::empty()
    } else {
        scaled_bytes(data, width, height, stride, ch, tw, th, p - 1) + pixel_bytes(
            data,
            width,
            height,
            stride,
            ch,
            tw,
            th,
            (p - 1) % tw,
            (p - 1) / tw,
        )
    }
}

/// The image `accept` makes of acceptable fields: scaled by a box filter down to
/// `SHOWN_SIDE` on the longer side, never up.
pub open spec fn scaled(raw: Raw) -> ImageView {
    let ch = channels_of(raw.has_alpha);
    let (w, h) = (raw.width as int, raw.height as int);
    let longest = longest_side(w, h);
    let (tw, th) = (target_side(w, longest), target_side(h, longest));
    ImageView {
        width: tw as u32,
        height: th as u32,
        rgba: scaled_bytes(raw.data@, w, h, raw.rowstride as int, ch, tw, th, tw * th),
    }
}


/// A target pixel covers a non-empty run of source pixels inside the source.
proof fn lemma_span(t: int, target: int, source: int)
    requires
        0 <= t < target <= source,
    ensures
        0 <= span_start(t, target, source) < span_end(t, target, source) <= source,
{
    assert(t * source < target * source) by (nonlinear_arith)
        requires
            0 <= t < target,
            source > 0,
    ;
    assert((t + 1) * source <= target * source) by (nonlinear_arith)
        requires
            0 <= t < target,
            source > 0,
    ;
    assert(t * source >= 0) by (nonlinear_arith)
        requires
            t >= 0,
            source >= 0,
    ;
    lemma_multiply_divide_lt(t * source, target, source);
    lemma_multiply_divide_le((t + 1) * source, target, source);
    lemma_div_pos_is_pos(t * source, target);
}

/// Each weighted sample is at most 255 * 255.
proof fn lemma_weighted_bounds(data: Seq<u8>, at: int, ch: int, k: int)
    requires
        ch == 3 || ch == 4,
        0 <= k < 4,
        0 <= at,
        at + ch <= data.len(),
        k < ch || k == 3,
    ensures
        0 <= weighted(data, at, ch, k) <= 65025,
{
    let a = alpha_at(data, at, ch);
    assert(0 <= a <= 255);
    if k != 3 {
        let v = data[at + k] as int;
        assert(0 <= v * a <= 65025) by (nonlinear_arith)
            requires
                0 <= v <= 255,
                0 <= a <= 255,
        ;
    }
}

/// The bytes of one box of source pixels, its sums and its count, and where it may be read.
pub open spec fn box_readable(data: Seq<u8>, stride: int, ch: int, y0: int, y1: int, x0: int, x1: int) -> bool {
    &&& ch == 3 || ch == 4
    &&& 0 <= y0 < y1
    &&& 0 <= x0 < x1
    &&& x1 * ch <= stride
    &&& (y1 - 1) * stride + x1 * ch <= data.len()
    &&& (y1 - y0) * (x1 - x0) <= 0x10_0000
}

/// The sums of a box stay below 65025 per pixel.
proof fn lemma_row_sum_bounds(data: Seq<u8>, stride: int, ch: int, k: int, y: int, x0: int, x: int)
    requires
        ch == 3 || ch == 4,
        0 <= k < 4,
        0 <= y,
        0 <= x0 <= x,
        x * ch <= stride,
        y * stride + x * ch <= data.len(),
    ensures
        0 <= row_sum(data, stride, ch, k, y, x0, x) <= 65025 * (x - x0),
    decreases x - x0,
{
    if x > x0 {
        lemma_row_sum_bounds(data, stride, ch, k, y, x0, x - 1);
        assert(y * stride >= 0) by (nonlinear_arith)
            requires
                y >= 0,
                stride >= 0,
        ;
        lemma_weighted_bounds(data, y * stride + (x - 1) * ch, ch, k);
    }
}

proof fn lemma_box_sum_bounds(
    data: Seq<u8>,
    stride: int,
    ch: int,
    k: int,
    y0: int,
    y: int,
    x0: int,
    x1: int,
)
    requires
        ch == 3 || ch == 4,
        0 <= k < 4,
        0 <= y0 <= y,
        0 <= x0 <= x1,
        x1 * ch <= stride,
        y == y0 || (y - 1) * stride + x1 * ch <= data.len(),
    ensures
        0 <= box_sum(data, stride, ch, k, y0, y, x0, x1) <= 65025 * ((y - y0) * (x1 - x0)),
    decreases y - y0,
{
    if y > y0 {
        if y - 1 > y0 {
            assert((y - 2) * stride + x1 * ch <= (y - 1) * stride + x1 * ch) by (nonlinear_arith)
                requires
                    stride >= 0,
            ;
        }
        lemma_box_sum_bounds(data, stride, ch, k, y0, y - 1, x0, x1);
        lemma_row_sum_bounds(data, stride, ch, k, y - 1, x0, x1);
        assert(65025 * ((y - 1 - y0) * (x1 - x0)) + 65025 * (x1 - x0) == 65025 * ((y - y0) * (
        x1 - x0))) by (nonlinear_arith);
    }
}

/// The box filter over source rows `y0..y1`, pixels `x0..x1`.
fn box_pixel(
    data: &[u8],
    stride: usize,
    ch: usize,
    y0: usize,
    y1: usize,
    x0: usize,
    x1: usize,
) -> (px: [u8; 4])
    requires
        box_readable(data@, stride as int, ch as int, y0 as int, y1 as int, x0 as int, x1 as int),
    ensures
        forall|k: int|
            0 <= k < 4 ==> px@[k] == boxed_sample(
                data@,
                stride as int,
                ch as int,
                k,
                y0 as int,
                y1 as int,
                x0 as int,
                x1 as int,
            ),
{
    let ghost (d, st, c) = (data@, stride as int, ch as int);
    let total = data.len();
    let (mut r, mut g, mut b, mut a, mut n): (u64, u64, u64, u64, u64) = (0, 0, 0, 0, 0);
    let mut y = y0;
    while y < y1
        invariant
            box_readable(d, st, c, y0 as int, y1 as int, x0 as int, x1 as int),
            d == data@,
            total == data@.len(),
            st == stride,
            c == ch,
            y0 <= y <= y1,
            r == box_sum(d, st, c, 0, y0 as int, y as int, x0 as int, x1 as int),
            g == box_sum(d, st, c, 1, y0 as int, y as int, x0 as int, x1 as int),
            b == box_sum(d, st, c, 2, y0 as int, y as int, x0 as int, x1 as int),
            a == box_sum(d, st, c, 3, y0 as int, y as int, x0 as int, x1 as int),
            n == (y - y0) * (x1 - x0),
        decreases y1 - y,
    {
        proof {
            assert(y * st <= (y1 - 1) * st) by (nonlinear_arith)
                requires
                    y <= y1 - 1,
                    st >= 0,
            ;
            assert((y - y0) * (x1 - x0) + (x1 - x0) == (y + 1 - y0) * (x1 - x0)) by (nonlinear_arith);
            assert((y + 1 - y0) * (x1 - x0) <= (y1 - y0) * (x1 - x0)) by (nonlinear_arith)
                requires
                    y + 1 <= y1,
                    x0 <= x1,
            ;
            assert(y * st >= 0) by (nonlinear_arith)
                requires
                    y >= 0,
                    st >= 0,
            ;
            assert(data@.len() == total);
        }
        let row = y * stride;
        let mut x = x0;
        while x < x1
            invariant
                box_readable(d, st, c, y0 as int, y1 as int, x0 as int, x1 as int),
                d == data@,
                total == data@.len(),
                st == stride,
                c == ch,
                y0 <= y < y1,
                x0 <= x <= x1,
                row == y * st,
                0 <= row,
                y * st <= (y1 - 1) * st,
                (y + 1 - y0) * (x1 - x0) <= (y1 - y0) * (x1 - x0),
                r == box_sum(d, st, c, 0, y0 as int, y as int, x0 as int, x1 as int) + row_sum(
                    d,
                    st,
                    c,
                    0,
                    y as int,
                    x0 as int,
                    x as int,
                ),
                g == box_sum(d, st, c, 1, y0 as int, y as int, x0 as int, x1 as int) + row_sum(
                    d,
                    st,
                    c,
                    1,
                    y as int,
                    x0 as int,
                    x as int,
                ),
                b == box_sum(d, st, c, 2, y0 as int, y as int, x0 as int, x1 as int) + row_sum(
                    d,
                    st,
                    c,
                    2,
                    y as int,
                    x0 as int,
                    x as int,
                ),
                a == box_sum(d, st, c, 3, y0 as int, y as int, x0 as int, x1 as int) + row_sum(
                    d,
                    st,
                    c,
                    3,
                    y as int,
                    x0 as int,
                    x as int,
                ),
                n == (y - y0) * (x1 - x0) + (x - x0),
            decreases x1 - x,
        {
            proof {
                assert((x + 1) * c <= x1 * c) by (nonlinear_arith)
                    requires
                        x + 1 <= x1,
                        c >= 0,
                ;
                assert(x * c >= 0) by (nonlinear_arith)
                    requires
                        x >= 0,
                        c >= 0,
                ;
                assert((x + 1) * c == x * c + c) by (nonlinear_arith);
                if y > y0 {
                    assert((y - 1) * st <= y * st) by (nonlinear_arith)
                        requires
                            st >= 0,
                    ;
                }
                assert(data@.len() == total);
                assert((y - y0) * (x1 - x0) + (x - x0) + 1 <= (y + 1 - y0) * (x1 - x0)) by (
                nonlinear_arith)
                    requires
                        x < x1,
                ;
                lemma_box_sum_bounds(d, st, c, 0, y0 as int, y as int, x0 as int, x1 as int);
                lemma_box_sum_bounds(d, st, c, 1, y0 as int, y as int, x0 as int, x1 as int);
                lemma_box_sum_bounds(d, st, c, 2, y0 as int, y as int, x0 as int, x1 as int);
                lemma_box_sum_bounds(d, st, c, 3, y0 as int, y as int, x0 as int, x1 as int);
                lemma_row_sum_bounds(d, st, c, 0, y as int, x0 as int, x as int);
                lemma_row_sum_bounds(d, st, c, 1, y as int, x0 as int, x as int);
                lemma_row_sum_bounds(d, st, c, 2, y as int, x0 as int, x as int);
                lemma_row_sum_bounds(d, st, c, 3, y as int, x0 as int, x as int);
                assert(65025 * ((y - y0) * (x1 - x0)) + 65025 * (x - x0) + 65025 <= 65025 * 0x10_0000)
                    by (nonlinear_arith)
                    requires
                        (y - y0) * (x1 - x0) + (x - x0) + 1 <= (y + 1 - y0) * (x1 - x0),
                        (y + 1 - y0) * (x1 - x0) <= 0x10_0000,
                ;
            }
            let at = row + x * ch;
            proof {
                lemma_weighted_bounds(d, at as int, c, 0);
                lemma_weighted_bounds(d, at as int, c, 1);
                lemma_weighted_bounds(d, at as int, c, 2);
                lemma_weighted_bounds(d, at as int, c, 3);
            }
            let alpha: u64 = if ch == 4 {
                data[at + 3] as u64
            } else {
                255
            };
            r = r + data[at] as u64 * alpha;
            g = g + data[at + 1] as u64 * alpha;
            b = b + data[at + 2] as u64 * alpha;
            a = a + alpha;
            n = n + 1;
            x = x + 1;
        }
        y = y + 1;
    }
    proof {
        assert((y1 - y0) * (x1 - x0) > 0) by (nonlinear_arith)
            requires
                y0 < y1,
                x0 < x1,
        ;
    }
    let red = if a == 0 {
        0
    } else {
        (#[verifier::truncate] ((r / a) as u8))
    };
    let green = if a == 0 {
        0
    } else {
        (#[verifier::truncate] ((g / a) as u8))
    };
    let blue = if a == 0 {
        0
    } else {
        (#[verifier::truncate] ((b / a) as u8))
    };
    let alpha = (#[verifier::truncate] ((a / n) as u8));
    let px = [red, green, blue, alpha];
    assert forall|k: int| 0 <= k < 4 implies px@[k] == boxed_sample(
        d,
        st,
        c,
        k,
        y0 as int,
        y1 as int,
        x0 as int,
        x1 as int,
    ) by {
        if k == 0 {
        } else if k == 1 {
        } else if k == 2 {
        } else {
        }
    }
    px
}


/// The source pixels `[start, end)` that target pixel `t` of `target` covers, on an axis of `source`.
fn span(t: usize, target: usize, source: usize) -> (r: (usize, usize))
    requires
        t < target <= source <= 1024,
    ensures
        r.0 == span_start(t as int, target as int, source as int),
        r.1 == span_end(t as int, target as int, source as int),
        r.0 < r.1 <= source,
{
    proof {
        lemma_span(t as int, target as int, source as int);
        assert((t + 1) * source <= 1024 * 1024) by (nonlinear_arith)
            requires
                t < target <= source <= 1024,
        ;
        assert(t * source <= (t + 1) * source) by (nonlinear_arith);
    }
    let start = t * source / target;
    let end = (t + 1) * source / target;
    (start, if end >= start + 1 { end } else { start + 1 })
}

/// The side a popup shows, never larger than the source's.
proof fn lemma_target_side(side: int, longest: int)
    requires
        1 <= side <= longest <= 1024,
    ensures
        1 <= target_side(side, longest) <= side,
{
    if longest > SHOWN_SIDE {
        assert(side * 96 <= longest * side) by (nonlinear_arith)
            requires
                96 < longest,
                side >= 1,
        ;
        lemma_multiply_divide_le(side * 96, longest, side);
    }
}

/// Box filter over premultiplied samples, down to `SHOWN_SIDE` on the longer side; never up.
fn scale(data: &[u8], width: usize, height: usize, stride: usize, ch: usize) -> (img: Image)
    requires
        1 <= width <= 1024,
        1 <= height <= 1024,
        ch == 3 || ch == 4,
        width * ch <= stride <= width * ch + MAX_PADDING,
        (height - 1) * stride + width * ch <= data@.len(),
    ensures
        ({
            let longest = longest_side(width as int, height as int);
            let (tw, th) = (target_side(width as int, longest), target_side(height as int, longest));
            &&& img@.width == tw
            &&& img@.height == th
            &&& img@.rgba == scaled_bytes(
                data@,
                width as int,
                height as int,
                stride as int,
                ch as int,
                tw,
                th,
                tw * th,
            )
        }),
{
    let ghost (d, w, h, st, c) = (data@, width as int, height as int, stride as int, ch as int);
    let longest = if width >= height { width } else { height };
    proof {
        lemma_target_side(w, longest as int);
        lemma_target_side(h, longest as int);
    }
    let (target_w, target_h) = if longest <= SHOWN_SIDE {
        (width, height)
    } else {
        let scaled_w = width * SHOWN_SIDE / longest;
        let scaled_h = height * SHOWN_SIDE / longest;
        (if scaled_w >= 1 { scaled_w } else { 1 }, if scaled_h >= 1 { scaled_h } else { 1 })
    };
    let ghost (tw, th) = (target_w as int, target_h as int);
    proof {
        assert(tw * th <= 1024 * 1024) by (nonlinear_arith)
            requires
                1 <= tw <= 1024,
                1 <= th <= 1024,
        ;
        assert(h * w <= 0x10_0000) by (nonlinear_arith)
            requires
                1 <= w <= 1024,
                1 <= h <= 1024,
        ;
    }
    let mut rgba: Vec<u8> = Vec::with_capacity(target_w * target_h * 4);
    let mut ty: usize = 0;
    while ty < target_h
        invariant
            d == data@,
            1 <= w <= 1024,
            1 <= h <= 1024,
            c == 3 || c == 4,
            w * c <= st <= w * c + MAX_PADDING,
            (h - 1) * st + w * c <= d.len(),
            h * w <= 0x10_0000,
            w == width,
            h == height,
            st == stride,
            c == ch,
            tw == target_w,
            th == target_h,
            1 <= tw <= w,
            1 <= th <= h,
            ty <= th,
            rgba@ == scaled_bytes(d, w, h, st, c, tw, th, ty * tw),
        decreases target_h - ty,
    {
        let (y0, y1) = span(ty, target_h, height);
        let mut tx: usize = 0;
        while tx < target_w
            invariant
                d == data@,
                1 <= w <= 1024,
                1 <= h <= 1024,
                c == 3 || c == 4,
                w * c <= st <= w * c + MAX_PADDING,
                (h - 1) * st + w * c <= d.len(),
                h * w <= 0x10_0000,
                w == width,
                h == height,
                st == stride,
                c == ch,
                tw == target_w,
                th == target_h,
                1 <= tw <= w,
                1 <= th <= h,
                ty < th,
                tx <= tw,
                y0 == span_start(ty as int, th, h),
                y1 == span_end(ty as int, th, h),
                y0 < y1 <= h,
                rgba@ == scaled_bytes(d, w, h, st, c, tw, th, ty * tw + tx),
            decreases target_w - tx,
        {
            let (x0, x1) = span(tx, target_w, width);
            proof {
                assert((y1 - 1) * st + x1 * c <= (h - 1) * st + w * c) by (nonlinear_arith)
                    requires
                        y1 <= h,
                        x1 <= w,
                        st >= 0,
                        c >= 0,
                ;
                assert(x1 * c <= w * c) by (nonlinear_arith)
                    requires
                        x1 <= w,
                        c >= 0,
                ;
                assert((y1 - y0) * (x1 - x0) <= h * w) by (nonlinear_arith)
                    requires
                        0 <= y0 < y1 <= h,
                        0 <= x0 < x1 <= w,
                ;
            }
            let px = box_pixel(data, stride, ch, y0, y1, x0, x1);
            proof {
                let p = ty * tw + tx;
                lemma_fundamental_div_mod_converse(p, tw, ty as int, tx as int);
                assert(px@ =~= pixel_bytes(d, w, h, st, c, tw, th, tx as int, ty as int));
                assert(scaled_bytes(d, w, h, st, c, tw, th, p + 1) == rgba@ + px@);
            }
            rgba.push(px[0]);
            rgba.push(px[1]);
            rgba.push(px[2]);
            rgba.push(px[3]);
            proof {
                assert(rgba@ =~= scaled_bytes(d, w, h, st, c, tw, th, ty * tw + tx + 1));
            }
            tx = tx + 1;
        }
        proof {
            assert(ty * tw + tw == (ty + 1) * tw) by (nonlinear_arith);
        }
        ty = ty + 1;
    }
    proof {
        assert(ty * tw == tw * th) by (nonlinear_arith)
            requires
                ty == th,
        ;
    }
    Image { width: target_w as u32, height: target_h as u32, rgba }
}

/// The `image-data` hint, when its fields agree with its length and stay within bounds,
/// scaled down to the size a popup draws.
pub fn accept(raw: &Raw<'_>) -> (r: Option<Image>)
    ensures
        r is Some <==> acceptable(*raw),
        r matches Some(img) ==> img@ == scaled(*raw),
{
    let channels: usize = if raw.has_alpha { 4 } else { 3 };
    let sides_ok = 1 <= raw.width && raw.width <= MAX_SIDE && 1 <= raw.height && raw.height
        <= MAX_SIDE;
    if !sides_ok || raw.bits_per_sample != 8 || raw.channels != channels as i32 {
        return None;
    }
    let (width, height) = (raw.width as usize, raw.height as usize);
    let row = width * channels;
    if raw.rowstride < 0 {
        return None;
    }
    let stride = raw.rowstride as usize;
    if stride < row || stride > row + MAX_PADDING {
        return None;
    }
    proof {
        assert(stride * height <= 5000 * 1024) by (nonlinear_arith)
            requires
                stride <= 4 * 1024 + 64,
                height <= 1024,
        ;
        assert(stride * (height - 1) <= stride * height) by (nonlinear_arith)
            requires
                height >= 1,
        ;
    }
    // GdkPixbuf leaves the last row unpadded; others pad every row.
    let tight = stride * (height - 1) + row;
    if raw.data.len() != tight && raw.data.len() != stride * height {
        return None;
    }
    proof {
        assert(stride * height == stride * (height - 1) + stride) by (nonlinear_arith);
        assert((height - 1) * stride == stride * (height - 1)) by (nonlinear_arith);
    }
    Some(scale(raw.data, width, height, stride, channels))
}

} // verus!

verus! {

/// An accepted image is shown at most `SHOWN_SIDE` on either side, never larger than it
/// was sent and never empty, with four bytes for each of its pixels.
pub proof fn an_accepted_image_fits_the_popup(raw: Raw)
    requires
        acceptable(raw),
    ensures
        1 <= scaled(raw).width <= raw.width,
        1 <= scaled(raw).height <= raw.height,
        scaled(raw).width <= SHOWN_SIDE,
        scaled(raw).height <= SHOWN_SIDE,
{
    let (w, h) = (raw.width as int, raw.height as int);
    let longest = longest_side(w, h);
    lemma_target_side(w, longest);
    lemma_target_side(h, longest);
    lemma_target_within(w, longest);
    lemma_target_within(h, longest);
}

proof fn lemma_target_within(side: int, longest: int)
    requires
        1 <= side <= longest <= 1024,
    ensures
        target_side(side, longest) <= SHOWN_SIDE,
{
    if longest > SHOWN_SIDE {
        assert(side * 96 / longest <= 96) by (nonlinear_arith)
            requires
                1 <= side <= longest,
        ;
    }
}

} // verus!
