//! Bringing a stored frame of interleaved samples upright.
use vstd::prelude::*;
use vstd::arithmetic::div_mod::*;
use vstd::arithmetic::mul::*;

use crate::orientation::Orientation;

verus! {

/// Sample `c` of pixel `(x, y)` in a row-major frame `w` pixels wide with
/// `ch` interleaved channels.
pub open spec fn sample_index(x: int, y: int, w: int, c: int, ch: int) -> int {
    (y * w + x) * ch + c
}

/// The index in the stored frame of the sample that sits at index `i` of the
/// upright frame.
pub open spec fn stored_sample_index(o: Orientation, i: int, sw: int, sh: int, ch: int) -> int {
    let ow = o.upright_dims(sw, sh).0;
    let p = i / ch;
    let src = o.source(p % ow, p / ow, sw, sh);
    sample_index(src.0, src.1, sw, i % ch, ch)
}

/// The upright frame of a stored `sw x sh` frame with `ch` channels: each
/// upright pixel carries the samples of the stored pixel it shows.
pub open spec fn oriented<T>(src: Seq<T>, sw: int, sh: int, ch: int, o: Orientation) -> Seq<T> {
    Seq::new((sw * sh * ch) as nat, |i: int| src[stored_sample_index(o, i, sw, sh, ch)])
}

/// Splitting `p * d + r` with `r < d` by `d` gives back `p` and `r`.
pub(crate) proof fn lemma_split(p: int, r: int, d: int)
    requires
        0 <= r < d,
    ensures
        (p * d + r) / d == p,
        (p * d + r) % d == r,
{
    lemma_fundamental_div_mod_converse(p * d + r, d, p, r);
}

/// A sample of a pixel inside a `w x h` frame lies inside the frame's samples.
pub(crate) proof fn lemma_sample_in_bounds(x: int, y: int, w: int, h: int, c: int, ch: int)
    requires
        0 <= x < w,
        0 <= y < h,
        0 <= c < ch,
    ensures
        0 <= y * w + x < w * h,
        0 <= sample_index(x, y, w, c, ch) < w * h * ch,
{
    assert(0 <= y * w + x < w * h) by (nonlinear_arith)
        requires
            0 <= x < w,
            0 <= y < h,
    ;
    let p = y * w + x;
    assert(0 <= p * ch + c < (w * h) * ch) by (nonlinear_arith)
        requires
            0 <= p < w * h,
            0 <= c < ch,
    ;
}

/// Where sample `c` of upright pixel `(x, y)` comes from.
proof fn lemma_stored_sample_index(
    o: Orientation,
    x: int,
    y: int,
    c: int,
    sw: int,
    sh: int,
    ch: int,
)
    requires
        0 <= x < o.upright_dims(sw, sh).0,
        0 <= y < o.upright_dims(sw, sh).1,
        0 <= c < ch,
    ensures
        stored_sample_index(o, sample_index(x, y, o.upright_dims(sw, sh).0, c, ch), sw, sh, ch)
            == sample_index(o.source(x, y, sw, sh).0, o.source(x, y, sw, sh).1, sw, c, ch),
{
    let ow = o.upright_dims(sw, sh).0;
    lemma_split(y * ow + x, c, ch);
    lemma_split(y, x, ow);
}

/// Splits a sample index of a `w x h` frame with `ch` channels into its
/// column, row and channel.
pub(crate) proof fn lemma_decompose(i: int, w: int, h: int, ch: int)
    requires
        0 <= w,
        0 <= h,
        0 <= ch,
        0 <= i < w * h * ch,
    ensures
        w > 0,
        h > 0,
        ch > 0,
        0 <= (i / ch) % w < w,
        0 <= (i / ch) / w < h,
        0 <= i % ch < ch,
        i == sample_index((i / ch) % w, (i / ch) / w, w, i % ch, ch),
{
    assert(w > 0 && h > 0 && ch > 0) by (nonlinear_arith)
        requires
            0 <= w,
            0 <= h,
            0 <= ch,
            0 <= i < w * h * ch,
    ;
    lemma_fundamental_div_mod(i, ch);
    let p = i / ch;
    let r = i % ch;
    assert(0 <= p < w * h) by (nonlinear_arith)
        requires
            i == ch * p + r,
            0 <= r < ch,
            0 <= i < (w * h) * ch,
    ;
    lemma_fundamental_div_mod(p, w);
    let y = p / w;
    let x = p % w;
    assert(0 <= y < h) by (nonlinear_arith)
        requires
            p == w * y + x,
            0 <= x < w,
            0 <= p < w * h,
    ;
    assert(i == (y * w + x) * ch + r) by (nonlinear_arith)
        requires
            i == ch * p + r,
            p == w * y + x,
    ;
}

/// The index in the upright frame at which the stored sample at index `j`
/// lands.
pub open spec fn upright_sample_index(o: Orientation, j: int, sw: int, sh: int, ch: int) -> int {
    let q = j / ch;
    let up = o.upright_of(q % sw, q / sw, sw, sh);
    sample_index(up.0, up.1, o.upright_dims(sw, sh).0, j % ch, ch)
}

/// Sample `c` of upright pixel `(x, y)` of an oriented frame is sample `c`
/// of the stored pixel that `source_of` names.
pub proof fn lemma_oriented_pixel<T>(
    src: Seq<T>,
    sw: int,
    sh: int,
    ch: int,
    o: Orientation,
    x: int,
    y: int,
    c: int,
)
    requires
        0 <= sw,
        0 <= sh,
        0 <= ch,
        src.len() == sw * sh * ch,
        0 <= x < o.upright_dims(sw, sh).0,
        0 <= y < o.upright_dims(sw, sh).1,
        0 <= c < ch,
    ensures
        0 <= sample_index(x, y, o.upright_dims(sw, sh).0, c, ch) < src.len(),
        oriented(src, sw, sh, ch, o)[sample_index(x, y, o.upright_dims(sw, sh).0, c, ch)]
            == src[sample_index(
            o.source(x, y, sw, sh).0,
            o.source(x, y, sw, sh).1,
            sw,
            c,
            ch,
        )],
{
    let (ow, oh) = o.upright_dims(sw, sh);
    crate::orientation::lemma_upright_area(o, sw, sh);
    crate::orientation::lemma_source_in_frame(o, x, y, sw, sh);
    lemma_sample_in_bounds(x, y, ow, oh, c, ch);
    assert(ow * oh * ch == sw * sh * ch);
    lemma_stored_sample_index(o, x, y, c, sw, sh, ch);
}

/// Every index of the upright frame reads a sample inside the stored frame.
pub proof fn lemma_stored_index_in_range(o: Orientation, i: int, sw: int, sh: int, ch: int)
    requires
        0 <= sw,
        0 <= sh,
        0 <= ch,
        0 <= i < sw * sh * ch,
    ensures
        0 <= stored_sample_index(o, i, sw, sh, ch) < sw * sh * ch,
{
    let (ow, oh) = o.upright_dims(sw, sh);
    crate::orientation::lemma_upright_area(o, sw, sh);
    assert(ow * oh * ch == sw * sh * ch);
    lemma_decompose(i, ow, oh, ch);
    let q = i / ch;
    crate::orientation::lemma_source_in_frame(o, q % ow, q / ow, sw, sh);
    let src = o.source(q % ow, q / ow, sw, sh);
    lemma_sample_in_bounds(src.0, src.1, sw, sh, i % ch, ch);
}

/// Orienting moves samples and invents none: no two indices of the upright
/// frame read the same stored sample.
pub proof fn lemma_stored_index_injective(
    o: Orientation,
    i1: int,
    i2: int,
    sw: int,
    sh: int,
    ch: int,
)
    requires
        0 <= sw,
        0 <= sh,
        0 <= ch,
        0 <= i1 < sw * sh * ch,
        0 <= i2 < sw * sh * ch,
        stored_sample_index(o, i1, sw, sh, ch) == stored_sample_index(o, i2, sw, sh, ch),
    ensures
        i1 == i2,
{
    let (ow, oh) = o.upright_dims(sw, sh);
    crate::orientation::lemma_upright_area(o, sw, sh);
    assert(ow * oh * ch == sw * sh * ch);
    lemma_decompose(i1, ow, oh, ch);
    lemma_decompose(i2, ow, oh, ch);
    let (q1, q2) = (i1 / ch, i2 / ch);
    let (x1, y1, c1) = (q1 % ow, q1 / ow, i1 % ch);
    let (x2, y2, c2) = (q2 % ow, q2 / ow, i2 % ch);
    crate::orientation::lemma_source_in_frame(o, x1, y1, sw, sh);
    crate::orientation::lemma_source_in_frame(o, x2, y2, sw, sh);
    let s1 = o.source(x1, y1, sw, sh);
    let s2 = o.source(x2, y2, sw, sh);
    lemma_split(s1.1 * sw + s1.0, c1, ch);
    lemma_split(s2.1 * sw + s2.0, c2, ch);
    lemma_split(s1.1, s1.0, sw);
    lemma_split(s2.1, s2.0, sw);
    crate::orientation::lemma_source_injective(o, x1, y1, x2, y2, sw, sh);
}

/// Orienting drops no sample: every stored sample is read by the upright
/// index that `upright_sample_index` names.
pub proof fn lemma_stored_index_onto(o: Orientation, j: int, sw: int, sh: int, ch: int)
    requires
        0 <= sw,
        0 <= sh,
        0 <= ch,
        0 <= j < sw * sh * ch,
    ensures
        0 <= upright_sample_index(o, j, sw, sh, ch) < sw * sh * ch,
        stored_sample_index(o, upright_sample_index(o, j, sw, sh, ch), sw, sh, ch) == j,
{
    let (ow, oh) = o.upright_dims(sw, sh);
    crate::orientation::lemma_upright_area(o, sw, sh);
    assert(ow * oh * ch == sw * sh * ch);
    lemma_decompose(j, sw, sh, ch);
    let q = j / ch;
    let (sx, sy, c) = (q % sw, q / sw, j % ch);
    crate::orientation::lemma_source_onto(o, sx, sy, sw, sh);
    let up = o.upright_of(sx, sy, sw, sh);
    lemma_sample_in_bounds(up.0, up.1, ow, oh, c, ch);
    lemma_stored_sample_index(o, up.0, up.1, c, sw, sh, ch);
}

/// Orienting the upright frame by the inverse orientation gives the stored
/// frame back, sample for sample.
pub proof fn lemma_orient_round_trip<T>(src: Seq<T>, sw: int, sh: int, ch: int, o: Orientation)
    requires
        0 <= sw,
        0 <= sh,
        0 <= ch,
        src.len() == sw * sh * ch,
    ensures
        oriented(
            oriented(src, sw, sh, ch, o),
            o.upright_dims(sw, sh).0,
            o.upright_dims(sw, sh).1,
            ch,
            o.inverse(),
        ) == src,
{
    let (ow, oh) = o.upright_dims(sw, sh);
    let inv = o.inverse();
    let mid = oriented(src, sw, sh, ch, o);
    let back = oriented(mid, ow, oh, ch, inv);
    crate::orientation::lemma_upright_area(o, sw, sh);
    assert(ow * oh * ch == sw * sh * ch);
    assert forall|j: int| 0 <= j < src.len() implies back[j] == src[j] by {
        lemma_decompose(j, sw, sh, ch);
        let q = j / ch;
        let (x, y, c) = (q % sw, q / sw, j % ch);
        crate::orientation::lemma_source_inverse(o, x, y, sw, sh);
        let up = inv.source(x, y, ow, oh);
        let k = stored_sample_index(inv, j, ow, oh, ch);
        assert(k == sample_index(up.0, up.1, ow, c, ch));
        lemma_sample_in_bounds(up.0, up.1, ow, oh, c, ch);
        lemma_stored_sample_index(o, up.0, up.1, c, sw, sh, ch);
    }
    assert(back =~= src);
}

/// The upright orientation leaves a frame as it is.
pub proof fn lemma_upright_is_identity<T>(src: Seq<T>, sw: int, sh: int, ch: int)
    requires
        0 <= sw,
        0 <= sh,
        0 <= ch,
        src.len() == sw * sh * ch,
    ensures
        oriented(src, sw, sh, ch, Orientation::Upright) == src,
{
    assert forall|i: int| 0 <= i < src.len() implies stored_sample_index(
        Orientation::Upright,
        i,
        sw,
        sh,
        ch,
    ) == i by {
        lemma_decompose(i, sw, sh, ch);
    }
    assert(oriented(src, sw, sh, ch, Orientation::Upright) =~= src);
}

/// The index, in a stored `sw x sh` frame with `ch` interleaved channels,
/// of sample `c` of the stored pixel that upright pixel `(x, y)` shows: the
/// sample a resampler reads for that upright tap.
pub fn source_sample(
    o: Orientation,
    x: usize,
    y: usize,
    c: usize,
    sw: usize,
    sh: usize,
    ch: usize,
) -> (i: usize)
    requires
        x < o.upright_dims(sw as int, sh as int).0,
        y < o.upright_dims(sw as int, sh as int).1,
        c < ch,
        sw * sh * ch <= usize::MAX,
    ensures
        i == sample_index(
            o.source(x as int, y as int, sw as int, sh as int).0,
            o.source(x as int, y as int, sw as int, sh as int).1,
            sw as int,
            c as int,
            ch as int,
        ),
        i < sw * sh * ch,
{
    proof {
        crate::orientation::lemma_source_in_frame(o, x as int, y as int, sw as int, sh as int);
    }
    let (sx, sy) = o.source_of(x, y, sw, sh);
    proof {
        lemma_sample_in_bounds(sx as int, sy as int, sw as int, sh as int, c as int, ch as int);
        assert(sw * sh <= sw * sh * ch) by (nonlinear_arith)
            requires
                ch >= 1,
                sw >= 0,
                sh >= 0,
        ;
        assert((sy * sw + sx) * ch <= (sy * sw + sx) * ch + c);
    }
    (sy * sw + sx) * ch + c
}

/// Bring a stored frame upright: `src` is `sw x sh` with `ch` interleaved
/// channels, and the result is the `upright_size` frame in the same layout.
///
/// One pixel at a time and obviously right: each upright pixel receives the
/// samples of the stored pixel that `source_of` names.
pub fn orient<T: Copy>(src: &[T], sw: usize, sh: usize, ch: usize, o: Orientation) -> (out: Vec<T>)
    requires
        sw * sh <= usize::MAX,
        src@.len() == sw * sh * ch,
    ensures
        out@ == oriented(src@, sw as int, sh as int, ch as int, o),
{
    let (ow, oh) = o.upright_size(sw, sh);
    proof {
        crate::orientation::lemma_upright_area(o, sw as int, sh as int);
    }
    let len = src.len();
    let mut out: Vec<T> = Vec::with_capacity(len);
    let mut y: usize = 0;
    while y < oh
        invariant
            0 <= y <= oh,
            (ow as int, oh as int) == o.upright_dims(sw as int, sh as int),
            ow * oh == sw * sh,
            sw * sh <= usize::MAX,
            src@.len() == sw * sh * ch,
            src@.len() <= usize::MAX,
            out@.len() == (y * ow) * ch,
            forall|i: int|
                0 <= i < out@.len() ==> #[trigger] out@[i] == src@[stored_sample_index(
                    o,
                    i,
                    sw as int,
                    sh as int,
                    ch as int,
                )],
        decreases oh - y,
    {
        let mut x: usize = 0;
        while x < ow
            invariant
                0 <= y < oh,
                0 <= x <= ow,
                (ow as int, oh as int) == o.upright_dims(sw as int, sh as int),
                ow * oh == sw * sh,
                sw * sh <= usize::MAX,
                src@.len() == sw * sh * ch,
                src@.len() <= usize::MAX,
                out@.len() == (y * ow + x) * ch,
                forall|i: int|
                    0 <= i < out@.len() ==> #[trigger] out@[i] == src@[stored_sample_index(
                        o,
                        i,
                        sw as int,
                        sh as int,
                        ch as int,
                    )],
            decreases ow - x,
        {
            proof {
                crate::orientation::lemma_source_in_frame(o, x as int, y as int, sw as int, sh as int);
            }
            let (sx, sy) = o.source_of(x, y, sw, sh);
            proof {
                lemma_sample_in_bounds(sx as int, sy as int, sw as int, sh as int, 0, 1);
                assert((sy * sw + sx) * ch + ch <= (sw * sh) * ch) by (nonlinear_arith)
                    requires
                        sy * sw + sx + 1 <= sw * sh,
                        ch >= 0,
                ;
            }
            let base = (sy * sw + sx) * ch;
            let mut c: usize = 0;
            while c < ch
                invariant
                    0 <= y < oh,
                    0 <= x < ow,
                    0 <= c <= ch,
                    (ow as int, oh as int) == o.upright_dims(sw as int, sh as int),
                    (sx as int, sy as int) == o.source(x as int, y as int, sw as int, sh as int),
                    base == (sy * sw + sx) * ch,
                    base + ch <= src@.len(),
                    src@.len() <= usize::MAX,
                    src@.len() == sw * sh * ch,
                    out@.len() == (y * ow + x) * ch + c,
                    forall|i: int|
                        0 <= i < out@.len() ==> #[trigger] out@[i] == src@[stored_sample_index(
                            o,
                            i,
                            sw as int,
                            sh as int,
                            ch as int,
                        )],
                decreases ch - c,
            {
                proof {
                    lemma_stored_sample_index(
                        o,
                        x as int,
                        y as int,
                        c as int,
                        sw as int,
                        sh as int,
                        ch as int,
                    );
                }
                out.push(src[base + c]);
                c += 1;
            }
            proof {
                assert((y * ow + x + 1) * ch == (y * ow + x) * ch + ch) by (nonlinear_arith);
            }
            x += 1;
        }
        proof {
            assert(((y + 1) * ow) * ch == (y * ow + ow) * ch) by (nonlinear_arith);
        }
        y += 1;
    }
    proof {
        assert((oh * ow) * ch == (sw * sh) * ch);
        assert(out@ =~= oriented(src@, sw as int, sh as int, ch as int, o));
    }
    out
}

} // verus!
