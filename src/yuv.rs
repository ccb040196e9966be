use vstd::prelude::*;

verus! {

/// `x` limited to the range `[lo, hi]`.
pub open spec fn clamp(x: int, lo: int, hi: int) -> int {
    if x < lo {
        lo
    } else if x > hi {
        hi
    } else {
        x
    }
}

/// BT.601 luma of one pixel, with the 8-bit fixed-point coefficients and studio range.
pub open spec fn luma(b: int, g: int, r: int) -> int {
    clamp((66 * r + 129 * g + 25 * b + 128) / 256 + 16, 16, 235)
}

/// Blue-difference contribution of one pixel, before averaging and offset.
pub open spec fn u_term(b: int, g: int, r: int) -> int {
    (-38 * r - 74 * g + 112 * b + 128) / 256
}

/// Red-difference contribution of one pixel, before averaging and offset.
pub open spec fn v_term(b: int, g: int, r: int) -> int {
    (112 * r - 94 * g - 18 * b + 128) / 256
}

/// Channel `c` (0 blue, 1 green, 2 red) of pixel `(row, col)` in a BGRA image of width `w`.
pub open spec fn px(s: Seq<u8>, w: int, row: int, col: int, c: int) -> int {
    s[(row * w + col) * 4 + c] as int
}

pub open spec fn u_at(s: Seq<u8>, w: int, row: int, col: int) -> int {
    u_term(px(s, w, row, col, 0), px(s, w, row, col, 1), px(s, w, row, col, 2))
}

pub open spec fn v_at(s: Seq<u8>, w: int, row: int, col: int) -> int {
    v_term(px(s, w, row, col, 0), px(s, w, row, col, 1), px(s, w, row, col, 2))
}

/// Chroma U of the 2x2 block whose top-left pixel is `(2 * by, 2 * bx)`.
pub open spec fn chroma_u(s: Seq<u8>, w: int, by: int, bx: int) -> int {
    clamp(
        (u_at(s, w, 2 * by, 2 * bx) + u_at(s, w, 2 * by, 2 * bx + 1) + u_at(s, w, 2 * by + 1, 2 * bx)
            + u_at(s, w, 2 * by + 1, 2 * bx + 1)) / 4 + 128,
        16,
        240,
    )
}

/// Chroma V of the 2x2 block whose top-left pixel is `(2 * by, 2 * bx)`.
pub open spec fn chroma_v(s: Seq<u8>, w: int, by: int, bx: int) -> int {
    clamp(
        (v_at(s, w, 2 * by, 2 * bx) + v_at(s, w, 2 * by, 2 * bx + 1) + v_at(s, w, 2 * by + 1, 2 * bx)
            + v_at(s, w, 2 * by + 1, 2 * bx + 1)) / 4 + 128,
        16,
        240,
    )
}

/// The Y plane of a `w` x `h` BGRA image.
pub open spec fn luma_plane(s: Seq<u8>, w: int, h: int) -> Seq<u8> {
    Seq::new((w * h) as nat, |i: int| luma(s[4 * i] as int, s[4 * i + 1] as int, s[4 * i + 2] as int) as u8)
}

/// The U plane of a `w` x `h` BGRA image.
pub open spec fn u_plane(s: Seq<u8>, w: int, h: int) -> Seq<u8> {
    Seq::new(((w / 2) * (h / 2)) as nat, |k: int| chroma_u(s, w, k / (w / 2), k % (w / 2)) as u8)
}

/// The V plane of a `w` x `h` BGRA image.
pub open spec fn v_plane(s: Seq<u8>, w: int, h: int) -> Seq<u8> {
    Seq::new(((w / 2) * (h / 2)) as nat, |k: int| chroma_v(s, w, k / (w / 2), k % (w / 2)) as u8)
}

/// Planar YUV 4:2:0 picture, reused from frame to frame.
pub struct YuvBuffer {
    pub width: usize,
    pub height: usize,
    pub y: Vec<u8>,
    pub u: Vec<u8>,
    pub v: Vec<u8>,
}

impl YuvBuffer {
    /// Plane sizes agree with the dimensions.
    pub open spec fn wf(&self) -> bool {
        &&& self.y.len() == self.width * self.height
        &&& self.u.len() == (self.width * self.height) / 4
        &&& self.v.len() == (self.width * self.height) / 4
    }

    /// A zeroed picture of the given size.
    pub fn new(width: usize, height: usize) -> (r: Self)
        requires
            width * height <= usize::MAX,
        ensures
            r.wf(),
            r.width == width,
            r.height == height,
            forall|i: int| 0 <= i < r.y@.len() ==> r.y@[i] == 0,
            forall|i: int| 0 <= i < r.u@.len() ==> r.u@[i] == 0,
            forall|i: int| 0 <= i < r.v@.len() ==> r.v@[i] == 0,
    {
        let y_size = width * height;
        let uv_size = y_size / 4;
        YuvBuffer { width, height, y: vec![0; y_size], u: vec![0; uv_size], v: vec![0; uv_size] }
    }

    /// Adapts the planes to a new size; the allocation is kept when the size is unchanged.
    pub fn resize(&mut self, width: usize, height: usize)
        requires
            old(self).wf(),
            width * height <= usize::MAX,
        ensures
            final(self).wf(),
            final(self).width == width,
            final(self).height == height,
            old(self).width == width && old(self).height == height ==> *final(self) == *old(self),
    {
        if self.width != width || self.height != height {
            let y_size = width * height;
            let uv_size = y_size / 4;
            self.width = width;
            self.height = height;
            self.y.resize(y_size, 0);
            self.u.resize(uv_size, 0);
            self.v.resize(uv_size, 0);
        }
    }

    /// Width and height.
    pub fn dimensions(&self) -> (r: (usize, usize))
        ensures
            r == (self.width, self.height),
    {
        (self.width, self.height)
    }

    /// Row strides of the Y, U and V planes.
    pub fn strides(&self) -> (r: (usize, usize, usize))
        ensures
            r == (self.width, self.width / 2, self.width / 2),
    {
        (self.width, self.width / 2, self.width / 2)
    }
}

proof fn lemma_chroma_size(w: int, h: int)
    requires
        w >= 0,
        h >= 0,
        w % 2 == 0,
        h % 2 == 0,
    ensures
        (w * h) / 4 == (w / 2) * (h / 2),
        w * h == 4 * ((w / 2) * (h / 2)),
{
    let a = w / 2;
    let c = h / 2;
    assert(w == 2 * a);
    assert(h == 2 * c);
    assert(w * h == 4 * (a * c)) by (nonlinear_arith)
        requires
            w == 2 * a,
            h == 2 * c,
    ;
}

proof fn lemma_block_index(k: int, cw: int, ch: int, w: int, h: int)
    requires
        cw > 0,
        0 <= k < cw * ch,
        w == 2 * cw,
        h == 2 * ch,
    ensures
        0 <= k / cw < ch,
        0 <= k % cw < cw,
        ((2 * (k / cw) + 1) * w + 2 * (k % cw) + 1) * 4 + 2 < w * h * 4,
        (2 * (k / cw) * w + 2 * (k % cw)) * 4 >= 0,
        0 <= (2 * (k / cw)) * w <= w * h,
        0 <= (2 * (k / cw) + 1) * w <= w * h,
        2 * (k / cw) * w + 2 * (k % cw) + 1 < w * h,
        (2 * (k / cw) + 1) * w + 2 * (k % cw) + 1 < w * h,
{
    let by = k / cw;
    let bx = k % cw;
    vstd::arithmetic::div_mod::lemma_fundamental_div_mod(k, cw);
    assert(k == by * cw + bx) by (nonlinear_arith)
        requires
            k == cw * by + bx,
    ;
    assert(0 <= by < ch) by (nonlinear_arith)
        requires
            k == by * cw + bx,
            0 <= bx < cw,
            0 <= k < cw * ch,
            cw > 0,
    ;
    assert((2 * by + 1) * w + 2 * bx + 1 < w * h && 2 * by * w + 2 * bx + 1 < w * h)
        by (nonlinear_arith)
        requires
            0 <= by < ch,
            0 <= bx < cw,
            w == 2 * cw,
            h == 2 * ch,
    ;
    assert(((2 * by + 1) * w + 2 * bx + 1) * 4 + 2 < w * h * 4) by (nonlinear_arith)
        requires
            0 <= by < ch,
            0 <= bx < cw,
            w == 2 * cw,
            h == 2 * ch,
    ;
    assert((2 * by * w + 2 * bx) * 4 >= 0) by (nonlinear_arith)
        requires
            0 <= by,
            0 <= bx,
            w >= 0,
    ;
    assert(0 <= (2 * by) * w <= w * h && 0 <= (2 * by + 1) * w <= w * h) by (nonlinear_arith)
        requires
            0 <= by < ch,
            w == 2 * cw,
            h == 2 * ch,
            cw > 0,
    ;
}

fn luma_of(b: u8, g: u8, r: u8) -> (res: u8)
    ensures
        res as int == luma(b as int, g as int, r as int),
{
    let t: u32 = 66 * (r as u32) + 129 * (g as u32) + 25 * (b as u32) + 128;
    let y: u32 = t / 256 + 16;
    let c: u32 = if y < 16 {
        16
    } else if y > 235 {
        235
    } else {
        y
    };
    c as u8
}

/// `u_term + 128` of one pixel, computed without negative intermediates.
fn u_shifted(b: u8, g: u8, r: u8) -> (res: u32)
    ensures
        res as int == u_term(b as int, g as int, r as int) + 128,
        res <= 255,
{
    let t: u32 = (112 * (b as u32) + 32896) - (38 * (r as u32) + 74 * (g as u32));
    proof {
        let x = -38 * (r as int) - 74 * (g as int) + 112 * (b as int) + 128;
        assert(t as int == x + 128 * 256);
        vstd::arithmetic::div_mod::lemma_hoist_over_denominator(x, 128, 256);
    }
    t / 256
}

/// `v_term + 128` of one pixel, computed without negative intermediates.
fn v_shifted(b: u8, g: u8, r: u8) -> (res: u32)
    ensures
        res as int == v_term(b as int, g as int, r as int) + 128,
        res <= 255,
{
    let t: u32 = (112 * (r as u32) + 32896) - (94 * (g as u32) + 18 * (b as u32));
    proof {
        let x = 112 * (r as int) - 94 * (g as int) - 18 * (b as int) + 128;
        assert(t as int == x + 128 * 256);
        vstd::arithmetic::div_mod::lemma_hoist_over_denominator(x, 128, 256);
    }
    t / 256
}

fn clamp_chroma(sum: u32) -> (res: u8)
    requires
        sum <= 1020,
    ensures
        res as int == clamp(sum as int / 4, 16, 240),
{
    let a = sum / 4;
    if a < 16 {
        16
    } else if a > 240 {
        240
    } else {
        a as u8
    }
}

/// Chroma U and V of the 2x2 block whose top-left pixel is `(2 * by, 2 * bx)`.
fn block_chroma(bgra: &[u8], w: usize, by: usize, bx: usize) -> (res: (u8, u8))
    requires
        (2 * by + 1) * w + 2 * bx + 1 < usize::MAX / 4,
        ((2 * by + 1) * w + 2 * bx + 1) * 4 + 2 < bgra@.len(),
        w > 0,
    ensures
        res.0 as int == chroma_u(bgra@, w as int, by as int, bx as int),
        res.1 as int == chroma_v(bgra@, w as int, by as int, bx as int),
{
    proof {
        let (b, x, wi) = (by as int, bx as int, w as int);
        assert(2 * b <= 2 * b * wi && 2 * b * wi + 2 * x + 1 < (2 * b + 1) * wi + 2 * x + 1)
            by (nonlinear_arith)
            requires
                wi > 0,
                b >= 0,
        ;
    }
        let p00 = (2 * by * w + 2 * bx) * 4;
        let p01 = p00 + 4;
        let p10 = ((2 * by + 1) * w + 2 * bx) * 4;
        let p11 = p10 + 4;
        proof {
            assert(p00 == (2 * by * w + 2 * bx) * 4);
            assert(p01 == (2 * by * w + (2 * bx + 1)) * 4);
            assert(p11 == ((2 * by + 1) * w + (2 * bx + 1)) * 4);
        }
        let su = u_shifted(bgra[p00], bgra[p00 + 1], bgra[p00 + 2]) + u_shifted(
            bgra[p01],
            bgra[p01 + 1],
            bgra[p01 + 2],
        ) + u_shifted(bgra[p10], bgra[p10 + 1], bgra[p10 + 2]) + u_shifted(
            bgra[p11],
            bgra[p11 + 1],
            bgra[p11 + 2],
        );
        let sv = v_shifted(bgra[p00], bgra[p00 + 1], bgra[p00 + 2]) + v_shifted(
            bgra[p01],
            bgra[p01 + 1],
            bgra[p01 + 2],
        ) + v_shifted(bgra[p10], bgra[p10 + 1], bgra[p10 + 2]) + v_shifted(
            bgra[p11],
            bgra[p11 + 1],
            bgra[p11 + 2],
        );
        proof {
            let s = bgra@;
            let wi = w as int;
            let b2 = 2 * (by as int);
            let x2 = 2 * (bx as int);
            let tu = u_at(s, wi, b2, x2) + u_at(s, wi, b2, x2 + 1) + u_at(s, wi, b2 + 1, x2) + u_at(
                s,
                wi,
                b2 + 1,
                x2 + 1,
            );
            assert(su as int == tu + 512);
            assert((tu + 512) / 4 == tu / 4 + 128) by {
                vstd::arithmetic::div_mod::lemma_hoist_over_denominator(tu, 128, 4);
            }
            let tv = v_at(s, wi, b2, x2) + v_at(s, wi, b2, x2 + 1) + v_at(s, wi, b2 + 1, x2) + v_at(
                s,
                wi,
                b2 + 1,
                x2 + 1,
            );
            assert(sv as int == tv + 512);
            assert((tv + 512) / 4 == tv / 4 + 128) by {
                vstd::arithmetic::div_mod::lemma_hoist_over_denominator(tv, 128, 4);
            }
        }
        (clamp_chroma(su), clamp_chroma(sv))
}

/// Converts a BGRA image to YUV 4:2:0 (BT.601, 8-bit fixed point) into `yuv`, which is first
/// brought to the image's size. Each luma sample is taken from its pixel; each chroma sample
/// averages the terms of its 2x2 block.
pub fn convert_bgra_to_yuv420(bgra: &[u8], src_width: usize, src_height: usize, yuv: &mut YuvBuffer)
    requires
        old(yuv).wf(),
        src_width % 2 == 0,
        src_height % 2 == 0,
        src_width * src_height * 4 <= usize::MAX,
        bgra@.len() >= src_width * src_height * 4,
    ensures
        final(yuv).wf(),
        final(yuv).width == src_width,
        final(yuv).height == src_height,
        forall|i: int|
            0 <= i < src_width * src_height ==> #[trigger] final(yuv).y@[i] as int == luma(
                bgra@[4 * i] as int,
                bgra@[4 * i + 1] as int,
                bgra@[4 * i + 2] as int,
            ),
        forall|k: int|
            0 <= k < (src_width / 2) * (src_height / 2) ==> #[trigger] final(yuv).u@[k] as int
                == chroma_u(bgra@, src_width as int, k / (src_width / 2) as int, k % (src_width / 2) as int),
        forall|k: int|
            0 <= k < (src_width / 2) * (src_height / 2) ==> #[trigger] final(yuv).v@[k] as int
                == chroma_v(bgra@, src_width as int, k / (src_width / 2) as int, k % (src_width / 2) as int),
        final(yuv).y@ == luma_plane(bgra@, src_width as int, src_height as int),
        final(yuv).u@ == u_plane(bgra@, src_width as int, src_height as int),
        final(yuv).v@ == v_plane(bgra@, src_width as int, src_height as int),
{
    yuv.resize(src_width, src_height);
    let w = src_width;
    let h = src_height;
    let n = w * h;
    proof {
        lemma_chroma_size(w as int, h as int);
    }
    let mut i: usize = 0;
    while i < n
        invariant
            yuv.wf(),
            yuv.width == w,
            yuv.height == h,
            n == w * h,
            w * h * 4 <= usize::MAX,
            bgra@.len() >= w * h * 4,
            i <= n,
            forall|j: int|
                0 <= j < i ==> #[trigger] yuv.y@[j] as int == luma(
                    bgra@[4 * j] as int,
                    bgra@[4 * j + 1] as int,
                    bgra@[4 * j + 2] as int,
                ),
        decreases n - i,
    {
        let p = 4 * i;
        let val = luma_of(bgra[p], bgra[p + 1], bgra[p + 2]);
        yuv.y.set(i, val);
        i = i + 1;
    }
    let cw = w / 2;
    let ch = h / 2;
    let m = cw * ch;
    let mut k: usize = 0;
    while k < m
        invariant
            yuv.wf(),
            yuv.width == w,
            yuv.height == h,
            w % 2 == 0,
            h % 2 == 0,
            cw == w / 2,
            ch == h / 2,
            m == cw * ch,
            m == (w * h) / 4,
            w * h * 4 <= usize::MAX,
            bgra@.len() >= w * h * 4,
            k <= m,
            forall|j: int|
                0 <= j < w * h ==> #[trigger] yuv.y@[j] as int == luma(
                    bgra@[4 * j] as int,
                    bgra@[4 * j + 1] as int,
                    bgra@[4 * j + 2] as int,
                ),
            forall|j: int|
                0 <= j < k ==> #[trigger] yuv.u@[j] as int == chroma_u(
                    bgra@,
                    w as int,
                    j / cw as int,
                    j % cw as int,
                ),
            forall|j: int|
                0 <= j < k ==> #[trigger] yuv.v@[j] as int == chroma_v(
                    bgra@,
                    w as int,
                    j / cw as int,
                    j % cw as int,
                ),
        decreases m - k,
    {
        proof {
            lemma_block_index(k as int, cw as int, ch as int, w as int, h as int);
        }
        let by = k / cw;
        let bx = k % cw;
        let (cu, cv) = block_chroma(bgra, w, by, bx);
        yuv.u.set(k, cu);
        yuv.v.set(k, cv);
        k = k + 1;
    }
    proof {
        assert(yuv.y@ =~= luma_plane(bgra@, w as int, h as int));
        assert(yuv.u@ =~= u_plane(bgra@, w as int, h as int));
        assert(yuv.v@ =~= v_plane(bgra@, w as int, h as int));
    }
}

} // verus!

verus! {

/// Converts a BGRA image into a newly allocated YUV 4:2:0 picture.
pub fn bgra_to_yuv420(bgra: &[u8], width: usize, height: usize) -> (r: YuvBuffer)
    requires
        width % 2 == 0,
        height % 2 == 0,
        width * height * 4 <= usize::MAX,
        bgra@.len() >= width * height * 4,
    ensures
        r.wf(),
        r.width == width,
        r.height == height,
        r.y@ == luma_plane(bgra@, width as int, height as int),
        r.u@ == u_plane(bgra@, width as int, height as int),
        r.v@ == v_plane(bgra@, width as int, height as int),
{
    let mut yuv = YuvBuffer::new(width, height);
    convert_bgra_to_yuv420(bgra, width, height, &mut yuv);
    yuv
}

/// Every pixel of the `w` x `h` BGRA image `s` has colour `(b, g, r)`.
pub open spec fn is_flat(s: Seq<u8>, w: int, h: int, b: u8, g: u8, r: u8) -> bool {
    forall|i: int| 0 <= i < w * h ==> #[trigger] s[4 * i] == b && s[4 * i + 1] == g && s[4 * i + 2] == r
}

proof fn lemma_luma_accuracy(b: int, g: int, r: int)
    requires
        0 <= b <= 255,
        0 <= g <= 255,
        0 <= r <= 255,
    ensures
        -512 <= 256 * luma(b, g, r) - (66 * r + 129 * g + 25 * b + 4096) <= 512,
{
    let x = 66 * r + 129 * g + 25 * b;
    let q = (x + 128) / 256;
    vstd::arithmetic::div_mod::lemma_fundamental_div_mod(x + 128, 256);
    assert(0 <= (x + 128) % 256 < 256);
    assert(q <= 219);
}

proof fn lemma_chroma_term_accuracy(x: int)
    requires
        -28560 <= x <= 28560,
    ensures
        -112 <= (x + 128) / 256 <= 112,
        -512 <= 256 * ((x + 128) / 256) - x <= 512,
{
    vstd::arithmetic::div_mod::lemma_fundamental_div_mod(x + 128, 256);
    assert(0 <= (x + 128) % 256 < 256);
}

/// A flat-colour image of even size converts to samples within two steps of the exact
/// BT.601 values: `256 * Y` is within `2 * 256` of `66 R + 129 G + 25 B + 16 * 256`, and the
/// chroma samples likewise of `128 * 256 - 38 R - 74 G + 112 B` and
/// `128 * 256 + 112 R - 94 G - 18 B`.
pub proof fn lemma_flat_colour_accuracy(s: Seq<u8>, w: int, h: int, b: u8, g: u8, r: u8)
    requires
        w >= 0,
        h >= 0,
        w % 2 == 0,
        h % 2 == 0,
        s.len() >= w * h * 4,
        is_flat(s, w, h, b, g, r),
    ensures
        forall|i: int|
            0 <= i < w * h ==> -512 <= 256 * (#[trigger] luma_plane(s, w, h)[i]) - (66 * r + 129 * g
                + 25 * b + 4096) <= 512,
        forall|k: int|
            0 <= k < (w / 2) * (h / 2) ==> -512 <= 256 * (#[trigger] u_plane(s, w, h)[k]) - (32768 - 38
                * r - 74 * g + 112 * b) <= 512,
        forall|k: int|
            0 <= k < (w / 2) * (h / 2) ==> -512 <= 256 * (#[trigger] v_plane(s, w, h)[k]) - (32768 + 112
                * r - 94 * g - 18 * b) <= 512,
{
    assert forall|i: int| 0 <= i < w * h implies -512 <= 256 * (#[trigger] luma_plane(s, w, h)[i])
        - (66 * r + 129 * g + 25 * b + 4096) <= 512 by {
        lemma_luma_accuracy(b as int, g as int, r as int);
        assert(s[4 * i] == b);
        assert(s[4 * i + 1] == g);
        assert(s[4 * i + 2] == r);
    }
    assert forall|k: int| 0 <= k < (w / 2) * (h / 2) implies -512 <= 256 * (#[trigger] u_plane(s, w, h)[k]) - (
    32768 - 38 * r - 74 * g + 112 * b) <= 512 by {
        flat_block(s, w, h, b, g, r, k);
    }
    assert forall|k: int| 0 <= k < (w / 2) * (h / 2) implies -512 <= 256 * (#[trigger] v_plane(s, w, h)[k]) - (
    32768 + 112 * r - 94 * g - 18 * b) <= 512 by {
        flat_block(s, w, h, b, g, r, k);
    }
}

#[verifier::spinoff_prover]
proof fn flat_block(s: Seq<u8>, w: int, h: int, b: u8, g: u8, r: u8, k: int)
    requires
        w >= 0,
        h >= 0,
        w % 2 == 0,
        h % 2 == 0,
        0 <= k < (w / 2) * (h / 2),
        s.len() >= w * h * 4,
        is_flat(s, w, h, b, g, r),
    ensures
        -512 <= 256 * chroma_u(s, w, k / (w / 2), k % (w / 2)) - (32768 - 38 * r - 74 * g + 112 * b) <= 512,
        -512 <= 256 * chroma_v(s, w, k / (w / 2), k % (w / 2)) - (32768 + 112 * r - 94 * g - 18 * b) <= 512,
        chroma_u(s, w, k / (w / 2), k % (w / 2)) == u_term(b as int, g as int, r as int) + 128,
        chroma_v(s, w, k / (w / 2), k % (w / 2)) == v_term(b as int, g as int, r as int) + 128,
{
    let cw = w / 2;
    let ch = h / 2;
    if cw == 0 {
        assert(cw * ch == 0);
    }
    lemma_block_index(k, cw, ch, w, h);
    let by = k / cw;
    let bx = k % cw;
    flat_pixel(s, w, h, b, g, r, 2 * by, 2 * bx);
    flat_pixel(s, w, h, b, g, r, 2 * by, 2 * bx + 1);
    flat_pixel(s, w, h, b, g, r, 2 * by + 1, 2 * bx);
    flat_pixel(s, w, h, b, g, r, 2 * by + 1, 2 * bx + 1);
    let xu = -38 * (r as int) - 74 * (g as int) + 112 * (b as int);
    let xv = 112 * (r as int) - 94 * (g as int) - 18 * (b as int);
    lemma_chroma_term_accuracy(xu);
    lemma_chroma_term_accuracy(xv);
    let tu = (xu + 128) / 256;
    let tv = (xv + 128) / 256;
    assert(u_at(s, w, 2 * by, 2 * bx) == tu);
    assert(u_at(s, w, 2 * by, 2 * bx + 1) == tu);
    assert(u_at(s, w, 2 * by + 1, 2 * bx) == tu);
    assert(u_at(s, w, 2 * by + 1, 2 * bx + 1) == tu);
    assert(v_at(s, w, 2 * by, 2 * bx) == tv);
    assert(v_at(s, w, 2 * by, 2 * bx + 1) == tv);
    assert(v_at(s, w, 2 * by + 1, 2 * bx) == tv);
    assert(v_at(s, w, 2 * by + 1, 2 * bx + 1) == tv);
    assert((tu + tu + tu + tu) / 4 == tu);
    assert((tv + tv + tv + tv) / 4 == tv);
}

proof fn flat_pixel(s: Seq<u8>, w: int, h: int, b: u8, g: u8, r: u8, row: int, col: int)
    requires
        0 <= row < h,
        0 <= col < w,
        s.len() >= w * h * 4,
        is_flat(s, w, h, b, g, r),
    ensures
        px(s, w, row, col, 0) == b,
        px(s, w, row, col, 1) == g,
        px(s, w, row, col, 2) == r,
{
    let i = row * w + col;
    assert(0 <= i < w * h) by (nonlinear_arith)
        requires
            0 <= row < h,
            0 <= col < w,
            i == row * w + col,
    ;
    assert(s[4 * i] == b);
    assert((row * w + col) * 4 == 4 * i);
}

} // verus!

verus! {

/// Standard BT.601 inverse for red, with coefficients scaled by 1000, rounded and clamped.
pub open spec fn inverse_r(y: int, u: int, v: int) -> int {
    clamp((1164 * (y - 16) + 1596 * (v - 128) + 500) / 1000, 0, 255)
}

/// Standard BT.601 inverse for green, with coefficients scaled by 1000, rounded and clamped.
pub open spec fn inverse_g(y: int, u: int, v: int) -> int {
    clamp((1164 * (y - 16) - 392 * (u - 128) - 813 * (v - 128) + 500) / 1000, 0, 255)
}

/// Standard BT.601 inverse for blue, with coefficients scaled by 1000, rounded and clamped.
pub open spec fn inverse_b(y: int, u: int, v: int) -> int {
    clamp((1164 * (y - 16) + 2017 * (u - 128) + 500) / 1000, 0, 255)
}

#[verifier::spinoff_prover]
proof fn lemma_inverse_accuracy(b: int, g: int, r: int)
    requires
        0 <= b <= 255,
        0 <= g <= 255,
        0 <= r <= 255,
    ensures
        -3 <= inverse_r(luma(b, g, r), u_term(b, g, r) + 128, v_term(b, g, r) + 128) - r <= 3,
        -3 <= inverse_g(luma(b, g, r), u_term(b, g, r) + 128, v_term(b, g, r) + 128) - g <= 3,
        -3 <= inverse_b(luma(b, g, r), u_term(b, g, r) + 128, v_term(b, g, r) + 128) - b <= 3,
{
    let x = 66 * r + 129 * g + 25 * b;
    let xu = -38 * r - 74 * g + 112 * b;
    let xv = 112 * r - 94 * g - 18 * b;
    let qy = (x + 128) / 256;
    let qu = (xu + 128) / 256;
    let qv = (xv + 128) / 256;
    vstd::arithmetic::div_mod::lemma_fundamental_div_mod(x + 128, 256);
    vstd::arithmetic::div_mod::lemma_fundamental_div_mod(xu + 128, 256);
    vstd::arithmetic::div_mod::lemma_fundamental_div_mod(xv + 128, 256);
    assert(0 <= (x + 128) % 256 < 256);
    assert(0 <= (xu + 128) % 256 < 256);
    assert(0 <= (xv + 128) % 256 < 256);
    assert(-127 <= 256 * qy - x <= 128);
    assert(-127 <= 256 * qu - xu <= 128);
    assert(-127 <= 256 * qv - xv <= 128);
    assert(0 <= qy <= 219);
    assert(luma(b, g, r) == qy + 16);
    let nr = 1164 * qy + 1596 * qv;
    let ng = 1164 * qy - 392 * qu - 813 * qv;
    let nb = 1164 * qy + 2017 * qu;
    assert(-1900 <= nr - 1000 * r <= 1900);
    assert(-1900 <= ng - 1000 * g <= 1900);
    assert(-2700 <= nb - 1000 * b <= 2700);
    let dr = (nr + 500) / 1000;
    let dg = (ng + 500) / 1000;
    let db = (nb + 500) / 1000;
    vstd::arithmetic::div_mod::lemma_fundamental_div_mod(nr + 500, 1000);
    vstd::arithmetic::div_mod::lemma_fundamental_div_mod(ng + 500, 1000);
    vstd::arithmetic::div_mod::lemma_fundamental_div_mod(nb + 500, 1000);
    assert(0 <= (nr + 500) % 1000 < 1000);
    assert(0 <= (ng + 500) % 1000 < 1000);
    assert(0 <= (nb + 500) % 1000 < 1000);
    assert(-3 <= dr - r <= 3);
    assert(-3 <= dg - g <= 3);
    assert(-3 <= db - b <= 3);
}

/// A flat-colour image of even size converts so that inverting any luma sample with any
/// chroma sample by the standard BT.601 inverse gives each channel back within 3.
pub proof fn lemma_flat_colour_round_trip(s: Seq<u8>, w: int, h: int, b: u8, g: u8, r: u8)
    requires
        w >= 0,
        h >= 0,
        w % 2 == 0,
        h % 2 == 0,
        s.len() >= w * h * 4,
        is_flat(s, w, h, b, g, r),
    ensures
        forall|i: int, k: int|
            #![trigger luma_plane(s, w, h)[i], u_plane(s, w, h)[k]]
            0 <= i < w * h && 0 <= k < (w / 2) * (h / 2) ==> {
                let y = luma_plane(s, w, h)[i] as int;
                let u = u_plane(s, w, h)[k] as int;
                let v = v_plane(s, w, h)[k] as int;
                &&& -3 <= inverse_r(y, u, v) - r <= 3
                &&& -3 <= inverse_g(y, u, v) - g <= 3
                &&& -3 <= inverse_b(y, u, v) - b <= 3
            },
{
    assert forall|i: int, k: int|
        #![trigger luma_plane(s, w, h)[i], u_plane(s, w, h)[k]]
        0 <= i < w * h && 0 <= k < (w / 2) * (h / 2) implies {
            let y = luma_plane(s, w, h)[i] as int;
            let u = u_plane(s, w, h)[k] as int;
            let v = v_plane(s, w, h)[k] as int;
            &&& -3 <= inverse_r(y, u, v) - r <= 3
            &&& -3 <= inverse_g(y, u, v) - g <= 3
            &&& -3 <= inverse_b(y, u, v) - b <= 3
        } by {
        flat_pair_round_trip(s, w, h, b, g, r, i, k);
    }
}

#[verifier::spinoff_prover]
proof fn flat_pair_round_trip(s: Seq<u8>, w: int, h: int, b: u8, g: u8, r: u8, i: int, k: int)
    requires
        w >= 0,
        h >= 0,
        w % 2 == 0,
        h % 2 == 0,
        s.len() >= w * h * 4,
        is_flat(s, w, h, b, g, r),
        0 <= i < w * h,
        0 <= k < (w / 2) * (h / 2),
    ensures
        -3 <= inverse_r(luma_plane(s, w, h)[i] as int, u_plane(s, w, h)[k] as int, v_plane(s, w, h)[k] as int) - r <= 3,
        -3 <= inverse_g(luma_plane(s, w, h)[i] as int, u_plane(s, w, h)[k] as int, v_plane(s, w, h)[k] as int) - g <= 3,
        -3 <= inverse_b(luma_plane(s, w, h)[i] as int, u_plane(s, w, h)[k] as int, v_plane(s, w, h)[k] as int) - b <= 3,
{
    assert(s[4 * i] == b);
    assert(s[4 * i + 1] == g);
    assert(s[4 * i + 2] == r);
    flat_block(s, w, h, b, g, r, k);
    lemma_chroma_term_accuracy(-38 * (r as int) - 74 * (g as int) + 112 * (b as int));
    lemma_chroma_term_accuracy(112 * (r as int) - 94 * (g as int) - 18 * (b as int));
    lemma_luma_accuracy(b as int, g as int, r as int);
    lemma_inverse_accuracy(b as int, g as int, r as int);
    assert(luma_plane(s, w, h)[i] as int == luma(b as int, g as int, r as int));
    assert(u_plane(s, w, h)[k] as int == u_term(b as int, g as int, r as int) + 128);
    assert(v_plane(s, w, h)[k] as int == v_term(b as int, g as int, r as int) + 128);
}

} // verus!
