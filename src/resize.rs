use vstd::prelude::*;

use crate::yuv::px;

verus! {

/// One in 16.16 fixed point.
pub const FIXED_ONE: u64 = 65536;

/// Source distance between two neighbouring destination samples, in 16.16 fixed point.
pub open spec fn fx_step(src: int, dst: int) -> int {
    (src * 65536) / dst
}

/// Linear interpolation between `a` and `b` with 16-bit fixed-point weight `f` for `b`.
pub open spec fn lerp(a: int, b: int, f: int) -> int {
    (a * (65536 - f) + b * f) / 65536
}

/// Integer part of the source coordinate of destination coordinate `d`.
pub open spec fn coord(d: int, src: int, dst: int) -> int {
    (d * fx_step(src, dst)) / 65536
}

/// Fractional weight of the source coordinate of destination coordinate `d`.
pub open spec fn frac(d: int, src: int, dst: int) -> int {
    (d * fx_step(src, dst)) % 65536
}

/// The following source coordinate, held at the last row or column.
pub open spec fn next_coord(c: int, src: int) -> int {
    if c + 1 < src {
        c + 1
    } else {
        src - 1
    }
}

/// Channel `c` of destination pixel `(x, y)` when an `sw` x `sh` BGRA image is scaled
/// bilinearly to `dw` x `dh`: a horizontal pass on the two source rows, then a vertical one.
pub open spec fn bilinear(s: Seq<u8>, sw: int, sh: int, dw: int, dh: int, x: int, y: int, c: int) -> int {
    let x0 = coord(x, sw, dw);
    let x1 = next_coord(x0, sw);
    let fx = frac(x, sw, dw);
    let y0 = coord(y, sh, dh);
    let y1 = next_coord(y0, sh);
    let fy = frac(y, sh, dh);
    lerp(
        lerp(px(s, sw, y0, x0, c), px(s, sw, y0, x1, c), fx),
        lerp(px(s, sw, y1, x0, c), px(s, sw, y1, x1, c), fx),
        fy,
    )
}

/// The whole `dw` x `dh` BGRA image produced by [`bilinear`].
pub open spec fn scaled(s: Seq<u8>, sw: int, sh: int, dw: int, dh: int) -> Seq<u8> {
    Seq::new(
        (dw * dh * 4) as nat,
        |i: int| bilinear(s, sw, sh, dw, dh, (i / 4) % dw, (i / 4) / dw, i % 4) as u8,
    )
}

proof fn lemma_lerp_bounds(a: int, b: int, f: int)
    requires
        0 <= a <= 255,
        0 <= b <= 255,
        0 <= f < 65536,
    ensures
        0 <= lerp(a, b, f) <= 255,
        0 <= a * (65536 - f) + b * f <= 255 * 65536,
{
    let n = a * (65536 - f) + b * f;
    assert(0 <= n <= 255 * 65536) by (nonlinear_arith)
        requires
            0 <= a <= 255,
            0 <= b <= 255,
            0 <= f < 65536,
            n == a * (65536 - f) + b * f,
    ;
    vstd::arithmetic::div_mod::lemma_div_is_ordered(n, 255 * 65536int, 65536);
    vstd::arithmetic::div_mod::lemma_div_is_ordered(0, n, 65536);
}

proof fn lemma_coord_in_range(d: int, src: int, dst: int)
    requires
        0 <= d < dst,
        src > 0,
    ensures
        0 <= fx_step(src, dst) <= src * 65536,
        0 <= d * fx_step(src, dst) < src * 65536,
        0 <= coord(d, src, dst) < src,
        0 <= frac(d, src, dst) < 65536,
{
    let a = src * 65536;
    let q = fx_step(src, dst);
    vstd::arithmetic::div_mod::lemma_fundamental_div_mod(a, dst);
    assert(q * dst <= a);
    assert(0 <= q <= a) by (nonlinear_arith)
        requires
            q * dst <= a,
            dst >= 1,
            a >= 0,
            q == a / dst,
    {
        vstd::arithmetic::div_mod::lemma_div_pos_is_pos(a, dst);
    }
    assert(0 <= d * q < a) by (nonlinear_arith)
        requires
            0 <= d < dst,
            0 <= q,
            q * dst <= a,
            a > 0,
    ;
    let sx = d * q;
    vstd::arithmetic::div_mod::lemma_div_is_ordered(sx, a - 1, 65536);
    assert((a - 1) / 65536 == src - 1);
    vstd::arithmetic::div_mod::lemma_div_pos_is_pos(sx, 65536);
}

/// Identity scaling leaves every sample as it was.
pub proof fn lemma_bilinear_identity(s: Seq<u8>, w: int, h: int, x: int, y: int, c: int)
    requires
        0 <= x < w,
        0 <= y < h,
        0 <= c < 4,
        s.len() >= w * h * 4,
    ensures
        bilinear(s, w, h, w, h, x, y, c) == px(s, w, y, x, c),
{
    assert(fx_step(w, w) == 65536) by {
        vstd::arithmetic::div_mod::lemma_div_multiples_vanish(65536, w);
        assert(w * 65536 == 65536 * w) by (nonlinear_arith);
    }
    assert(fx_step(h, h) == 65536) by {
        vstd::arithmetic::div_mod::lemma_div_multiples_vanish(65536, h);
        assert(h * 65536 == 65536 * h) by (nonlinear_arith);
    }
    vstd::arithmetic::div_mod::lemma_div_multiples_vanish(x, 65536);
    vstd::arithmetic::div_mod::lemma_mod_multiples_basic(x, 65536);
    vstd::arithmetic::div_mod::lemma_div_multiples_vanish(y, 65536);
    vstd::arithmetic::div_mod::lemma_mod_multiples_basic(y, 65536);
    assert(x * 65536 == 65536 * x) by (nonlinear_arith);
    assert(y * 65536 == 65536 * y) by (nonlinear_arith);
    assert(coord(x, w, w) == x && frac(x, w, w) == 0);
    assert(coord(y, h, h) == y && frac(y, h, h) == 0);
    let a = px(s, w, y, x, c);
    let b = px(s, w, y, next_coord(x, w), c);
    assert(lerp(a, b, 0) == a) by {
        assert(a * 65536 + b * 0 == 65536 * a) by (nonlinear_arith);
        vstd::arithmetic::div_mod::lemma_div_multiples_vanish(a, 65536);
    }
    let a2 = px(s, w, next_coord(y, h), x, c);
    let b2 = px(s, w, next_coord(y, h), next_coord(x, w), c);
    let top = lerp(a, b, 0);
    let bottom = lerp(a2, b2, 0);
    assert(lerp(top, bottom, 0) == top) by {
        assert(top * 65536 + bottom * 0 == 65536 * top) by (nonlinear_arith);
        vstd::arithmetic::div_mod::lemma_div_multiples_vanish(top, 65536);
    }
}

proof fn lemma_pixel_index(x: int, y: int, w: int, h: int)
    requires
        0 <= x < w,
        0 <= y < h,
    ensures
        0 <= y * w + x < w * h,
        0 <= y * w,
{
    assert(0 <= y * w + x < w * h) by (nonlinear_arith)
        requires
            0 <= x < w,
            0 <= y < h,
    ;
    assert(0 <= y * w) by (nonlinear_arith)
        requires
            0 <= x < w,
            0 <= y < h,
    ;
}

proof fn lemma_row_bound(p: int, w: int, h: int)
    requires
        0 <= p < w * h,
        w >= 0,
        h >= 0,
    ensures
        w > 0,
        0 <= p / w < h,
        0 <= p % w < w,
        p == w * (p / w) + p % w,
{
    if w == 0 {
        assert(w * h == 0);
    }
    vstd::arithmetic::div_mod::lemma_fundamental_div_mod(p, w);
    vstd::arithmetic::div_mod::lemma_div_pos_is_pos(p, w);
    let q = p / w;
    let r = p % w;
    assert(q < h) by (nonlinear_arith)
        requires
            p == w * q + r,
            0 <= r,
            p < w * h,
            w > 0,
    ;
}

fn lerp_exec(a: u8, b: u8, f: u64) -> (r: u8)
    requires
        f < 65536,
    ensures
        r as int == lerp(a as int, b as int, f as int),
{
    proof {
        lemma_lerp_bounds(a as int, b as int, f as int);
    }
    let n: u64 = (a as u64) * (65536 - f) + (b as u64) * f;
    (n / 65536) as u8
}

/// Source position of destination coordinate `d`: integer part, following coordinate and
/// fractional weight.
fn source_coord(d: usize, src: usize, dst: usize) -> (r: (usize, usize, u64))
    requires
        d < dst,
        src > 0,
    ensures
        r.0 as int == coord(d as int, src as int, dst as int),
        r.1 as int == next_coord(coord(d as int, src as int, dst as int), src as int),
        r.2 as int == frac(d as int, src as int, dst as int),
        r.0 < src,
        r.1 < src,
        r.2 < 65536,
{
    proof {
        lemma_coord_in_range(d as int, src as int, dst as int);
    }
    let one = FIXED_ONE as u128;
    let step: u128 = ((src as u128) * one) / (dst as u128);
    let s: u128 = (d as u128) * step;
    let c0 = (s / one) as usize;
    let c1 = if c0 + 1 < src {
        c0 + 1
    } else {
        src - 1
    };
    (c0, c1, (s % one) as u64)
}

/// Scales a BGRA image bilinearly with 16-bit fixed-point weights into `dst`. When the sizes
/// match, the image is copied unchanged.
pub fn resize_bgra(
    src: &[u8],
    src_width: usize,
    src_height: usize,
    dst: &mut [u8],
    dst_width: usize,
    dst_height: usize,
)
    requires
        src_width > 0,
        src_height > 0,
        src_width * src_height * 4 <= usize::MAX,
        dst_width * dst_height * 4 <= usize::MAX,
        src@.len() >= src_width * src_height * 4,
        old(dst)@.len() >= dst_width * dst_height * 4,
    ensures
        final(dst)@.len() == old(dst)@.len(),
        forall|p: int, c: int|
            0 <= p < dst_width * dst_height && 0 <= c < 4 ==> #[trigger] final(dst)@[4 * p + c] as int
                == bilinear(
                src@,
                src_width as int,
                src_height as int,
                dst_width as int,
                dst_height as int,
                p % dst_width as int,
                p / dst_width as int,
                c,
            ),
        forall|i: int|
            dst_width * dst_height * 4 <= i < old(dst)@.len() ==> final(dst)@[i] == old(dst)@[i],
        final(dst)@.subrange(0, dst_width * dst_height * 4) == scaled(
            src@,
            src_width as int,
            src_height as int,
            dst_width as int,
            dst_height as int,
        ),
        src_width == dst_width && src_height == dst_height ==> final(dst)@.subrange(
            0,
            dst_width * dst_height * 4,
        ) == src@.subrange(0, src_width * src_height * 4),
{
    let n = dst_width * dst_height;
    let ghost d0 = dst@;
    let mut p: usize = 0;
    while p < n
        invariant
            n == dst_width * dst_height,
            n * 4 <= usize::MAX,
            src_width > 0,
            src_height > 0,
            src_width * src_height * 4 <= usize::MAX,
            src@.len() >= src_width * src_height * 4,
            dst@.len() == d0.len(),
            d0.len() >= n * 4,
            p <= n,
            forall|q: int, c: int|
                0 <= q < p && 0 <= c < 4 ==> #[trigger] dst@[4 * q + c] as int == bilinear(
                    src@,
                    src_width as int,
                    src_height as int,
                    dst_width as int,
                    dst_height as int,
                    q % dst_width as int,
                    q / dst_width as int,
                    c,
                ),
            forall|i: int| 4 * p <= i < d0.len() ==> dst@[i] == d0[i],
        decreases n - p,
    {
        proof {
            lemma_row_bound(p as int, dst_width as int, dst_height as int);
        }
        let x = p % dst_width;
        let y = p / dst_width;
        let (x0, x1, fx) = source_coord(x, src_width, dst_width);
        let (y0, y1, fy) = source_coord(y, src_height, dst_height);
        proof {
            lemma_pixel_index(x0 as int, y0 as int, src_width as int, src_height as int);
            lemma_pixel_index(x1 as int, y0 as int, src_width as int, src_height as int);
            lemma_pixel_index(x0 as int, y1 as int, src_width as int, src_height as int);
            lemma_pixel_index(x1 as int, y1 as int, src_width as int, src_height as int);
        }
        let i00 = (y0 * src_width + x0) * 4;
        let i01 = (y0 * src_width + x1) * 4;
        let i10 = (y1 * src_width + x0) * 4;
        let i11 = (y1 * src_width + x1) * 4;
        let ghost before = dst@;
        let mut c: usize = 0;
        while c < 4
            invariant
                c <= 4,
                p < n,
                n * 4 <= usize::MAX,
                dst@.len() == d0.len(),
                d0.len() >= n * 4,
                i00 + 3 < src@.len(),
                i01 + 3 < src@.len(),
                i10 + 3 < src@.len(),
                i11 + 3 < src@.len(),
                i00 == (y0 * src_width + x0) * 4,
                i01 == (y0 * src_width + x1) * 4,
                i10 == (y1 * src_width + x0) * 4,
                i11 == (y1 * src_width + x1) * 4,
                fx < 65536,
                fy < 65536,
                before.len() == d0.len(),
                forall|i: int| 0 <= i < 4 * p ==> dst@[i] == before[i],
                forall|i: int| 4 * p + c <= i < d0.len() ==> dst@[i] == before[i],
                forall|cc: int|
                    0 <= cc < c ==> #[trigger] dst@[4 * p + cc] as int == lerp(
                        lerp(
                            src@[i00 + cc] as int,
                            src@[i01 + cc] as int,
                            fx as int,
                        ),
                        lerp(src@[i10 + cc] as int, src@[i11 + cc] as int, fx as int),
                        fy as int,
                    ),
            decreases 4 - c,
        {
            let top = lerp_exec(src[i00 + c], src[i01 + c], fx);
            let bottom = lerp_exec(src[i10 + c], src[i11 + c], fx);
            let v = lerp_exec(top, bottom, fy);
            dst[4 * p + c] = v;
            c = c + 1;
        }
        proof {
            assert forall|q: int, cc: int|
                0 <= q < p + 1 && 0 <= cc < 4 implies #[trigger] dst@[4 * q + cc] as int
                == bilinear(
                src@,
                src_width as int,
                src_height as int,
                dst_width as int,
                dst_height as int,
                q % dst_width as int,
                q / dst_width as int,
                cc,
            ) by {
                if q < p {
                    assert(dst@[4 * q + cc] == before[4 * q + cc]);
                }
            }
        }
        p = p + 1;
    }
    proof {
        let sc = scaled(
            src@,
            src_width as int,
            src_height as int,
            dst_width as int,
            dst_height as int,
        );
        assert forall|i: int| 0 <= i < n * 4 implies dst@[i] == sc[i] by {
            let q = i / 4;
            let cc = i % 4;
            assert(i == 4 * q + cc);
            assert(dst@[4 * q + cc] as int == bilinear(
                src@,
                src_width as int,
                src_height as int,
                dst_width as int,
                dst_height as int,
                q % dst_width as int,
                q / dst_width as int,
                cc,
            ));
        }
        assert(dst@.subrange(0, n * 4) =~= sc);
        if src_width == dst_width && src_height == dst_height {
            let m = n * 4;
            assert forall|i: int| 0 <= i < m implies dst@[i] == src@[i] by {
                let q = i / 4;
                let cc = i % 4;
                assert(i == 4 * q + cc);
                lemma_row_bound(q, dst_width as int, dst_height as int);
                lemma_bilinear_identity(
                    src@,
                    src_width as int,
                    src_height as int,
                    q % dst_width as int,
                    q / dst_width as int,
                    cc,
                );
                assert((q / dst_width as int) * src_width + q % dst_width as int == q) by (
                nonlinear_arith)
                    requires
                        q == dst_width * (q / dst_width as int) + q % dst_width as int,
                        src_width == dst_width,
                ;
            }
            assert(dst@.subrange(0, m as int) =~= src@.subrange(0, m as int));
        }
    }
}

} // verus!
