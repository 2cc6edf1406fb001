//! Deterministic test images: the one-pixel checkerboard whose correct
//! reduction is a single number, and the noise stream that textures the
//! synthetic benchmark frame.
use vstd::prelude::*;

use crate::orient::{lemma_split, sample_index};

verus! {

/// The encoded value of checkerboard pixel `(x, y)`: black where `x + y` is
/// even, white where it is odd.
pub open spec fn checker_value(x: int, y: int) -> u8 {
    if (x + y) % 2 == 0 {
        0
    } else {
        255
    }
}

/// An `n x n` one-pixel checkerboard with `ch` interleaved channels, every
/// channel of a pixel carrying the pixel's value.
pub open spec fn checkerboard_samples(n: int, ch: int) -> Seq<u8> {
    Seq::new((n * n * ch) as nat, |i: int| checker_value((i / ch) % n, (i / ch) / n))
}

/// A 1px checkerboard in sRGB u8, `ch` channels. Exactly half black and half
/// white by construction when `n` is even, so its correct reduction is one
/// number.
pub fn checkerboard(n: usize, ch: usize) -> (v: Vec<u8>)
    requires
        n * n <= usize::MAX,
        n * n * ch <= usize::MAX,
    ensures
        v@ == checkerboard_samples(n as int, ch as int),
{
    let mut v: Vec<u8> = Vec::new();
    let mut y: usize = 0;
    while y < n
        invariant
            0 <= y <= n,
            n * n <= usize::MAX,
            v@.len() == (y * n) * ch,
            forall|i: int|
                0 <= i < v@.len() ==> #[trigger] v@[i] == checker_value((i / ch as int) % n as int, (
                i / ch as int) / n as int),
        decreases n - y,
    {
        let mut x: usize = 0;
        while x < n
            invariant
                0 <= y < n,
                0 <= x <= n,
                n * n <= usize::MAX,
                v@.len() == (y * n + x) * ch,
                forall|i: int|
                    0 <= i < v@.len() ==> #[trigger] v@[i] == checker_value(
                        (i / ch as int) % n as int,
                        (i / ch as int) / n as int,
                    ),
            decreases n - x,
        {
            proof {
                assert(x + y <= n * n) by (nonlinear_arith)
                    requires
                        x < n,
                        y < n,
                ;
            }
            let s: u8 = if (x + y) % 2 == 0 {
                0
            } else {
                255
            };
            let mut c: usize = 0;
            while c < ch
                invariant
                    0 <= y < n,
                    0 <= x < n,
                    0 <= c <= ch,
                    s == checker_value(x as int, y as int),
                    v@.len() == (y * n + x) * ch + c,
                    forall|i: int|
                        0 <= i < v@.len() ==> #[trigger] v@[i] == checker_value(
                            (i / ch as int) % n as int,
                            (i / ch as int) / n as int,
                        ),
                decreases ch - c,
            {
                proof {
                    lemma_split(y * n + x, c as int, ch as int);
                    lemma_split(y as int, x as int, n as int);
                }
                v.push(s);
                c += 1;
            }
            proof {
                assert((y * n + x + 1) * ch == (y * n + x) * ch + ch) by (nonlinear_arith);
            }
            x += 1;
        }
        proof {
            assert(((y + 1) * n) * ch == (y * n + n) * ch) by (nonlinear_arith);
        }
        y += 1;
    }
    proof {
        assert(v@ =~= checkerboard_samples(n as int, ch as int));
    }
    v
}

/// Every channel of checkerboard pixel `(x, y)` carries the pixel's value,
/// black or white.
pub proof fn lemma_checkerboard_pixel(n: int, ch: int, x: int, y: int, c: int)
    requires
        0 <= x < n,
        0 <= y < n,
        0 <= c < ch,
    ensures
        0 <= sample_index(x, y, n, c, ch) < n * n * ch,
        checkerboard_samples(n, ch)[sample_index(x, y, n, c, ch)] == checker_value(x, y),
        checker_value(x, y) == 0 || checker_value(x, y) == 255,
{
    crate::orient::lemma_sample_in_bounds(x, y, n, n, c, ch);
    lemma_split(y * n + x, c, ch);
    lemma_split(y, x, n);
}

/// How many samples of `s` equal `v`.
pub open spec fn count_of(s: Seq<u8>, v: u8) -> nat
    decreases s.len(),
{
    if s.len() == 0 {
        0
    } else {
        count_of(s.drop_last(), v) + if s.last() == v {
            1nat
        } else {
            0nat
        }
    }
}

/// The value of pixel `p`, in row-major order, of an `n x n` checkerboard.
pub open spec fn checker_pixel(p: int, n: int) -> u8 {
    checker_value(p % n, p / n)
}

/// The first `c` samples of pixel `p` add `c` to the count of the pixel's
/// value and nothing to the other's.
proof fn lemma_count_pixel(n: int, ch: int, p: int, c: int, v: u8)
    requires
        0 <= c <= ch,
        0 <= p,
        (p + 1) * ch <= n * n * ch,
    ensures
        count_of(checkerboard_samples(n, ch).take(p * ch + c), v) == count_of(
            checkerboard_samples(n, ch).take(p * ch),
            v,
        ) + if checker_pixel(p, n) == v {
            c
        } else {
            0
        },
    decreases c,
{
    let cb = checkerboard_samples(n, ch);
    if c > 0 {
        lemma_count_pixel(n, ch, p, c - 1, v);
        assert((p + 1) * ch == p * ch + ch) by (nonlinear_arith);
        assert(0 <= p * ch) by (nonlinear_arith)
            requires
                0 <= p,
                0 <= ch,
        ;
        let k = p * ch + (c - 1);
        assert(cb.take(k + 1).drop_last() =~= cb.take(k));
        lemma_split(p, c - 1, ch);
        assert(cb.take(k + 1).last() == cb[k]);
    }
}

/// When `n` is even, pixels `2q` and `2q + 1` sit side by side in one row and
/// so take the two different values.
proof fn lemma_pair_differs(n: int, q: int)
    requires
        n > 0,
        n % 2 == 0,
        0 <= q,
    ensures
        checker_pixel(2 * q, n) != checker_pixel(2 * q + 1, n),
        checker_pixel(2 * q, n) == 0 || checker_pixel(2 * q, n) == 255,
        checker_pixel(2 * q + 1, n) == 0 || checker_pixel(2 * q + 1, n) == 255,
{
    vstd::arithmetic::div_mod::lemma_fundamental_div_mod(2 * q, n);
    let a = (2 * q) / n;
    let r = (2 * q) % n;
    let b = n / 2;
    assert(r % 2 == 0) by (nonlinear_arith)
        requires
            2 * q == n * a + r,
            n == 2 * b,
    {
        assert(r == 2 * (q - b * a));
    }
    assert(r + 1 < n);
    lemma_split(a, r + 1, n);
    assert((2 * q + 1) == a * n + (r + 1)) by (nonlinear_arith)
        requires
            2 * q == n * a + r,
    ;
}

/// The first `q` pairs of pixels hold `q * ch` samples of each value.
proof fn lemma_count_pairs(n: int, ch: int, half: int, q: int)
    requires
        n > 0,
        n % 2 == 0,
        0 <= ch,
        0 <= q <= half,
        n * n == 2 * half,
    ensures
        count_of(checkerboard_samples(n, ch).take(2 * q * ch), 255) == q * ch,
        count_of(checkerboard_samples(n, ch).take(2 * q * ch), 0) == q * ch,
    decreases q,
{
    let cb = checkerboard_samples(n, ch);
    if q == 0 {
        assert(cb.take(0) =~= Seq::<u8>::empty());
    } else {
        let r = q - 1;
        lemma_count_pairs(n, ch, half, r);
        lemma_pair_differs(n, r);
        assert((2 * r + 1 + 1) * ch <= n * n * ch) by (nonlinear_arith)
            requires
                r + 1 <= half,
                n * n == 2 * half,
                0 <= ch,
        ;
        assert((2 * r + 1) * ch <= n * n * ch) by (nonlinear_arith)
            requires
                (2 * r + 1 + 1) * ch <= n * n * ch,
                0 <= ch,
        ;
        lemma_count_pixel(n, ch, 2 * r, ch, 255);
        lemma_count_pixel(n, ch, 2 * r + 1, ch, 255);
        lemma_count_pixel(n, ch, 2 * r, ch, 0);
        lemma_count_pixel(n, ch, 2 * r + 1, ch, 0);
        assert((2 * r) * ch + ch == (2 * r + 1) * ch) by (nonlinear_arith);
        assert((2 * r + 1) * ch + ch == 2 * q * ch) by (nonlinear_arith)
            requires
                q == r + 1,
        ;
        assert(2 * r * ch == (2 * r) * ch);
        assert(q * ch == r * ch + ch) by (nonlinear_arith)
            requires
                q == r + 1,
        ;
    }
}

/// An even checkerboard is exactly half black and half white: it holds
/// `n * n * ch / 2` samples of 255 and as many of 0.
pub proof fn lemma_checkerboard_counts(n: int, ch: int)
    requires
        0 <= n,
        0 <= ch,
        n % 2 == 0,
    ensures
        (n * n * ch) % 2 == 0,
        count_of(checkerboard_samples(n, ch), 255) == (n * n * ch) / 2,
        count_of(checkerboard_samples(n, ch), 0) == (n * n * ch) / 2,
{
    let cb = checkerboard_samples(n, ch);
    let half = (n / 2) * n;
    assert(n * n == 2 * half) by (nonlinear_arith)
        requires
            n % 2 == 0,
            half == (n / 2) * n,
    ;
    assert(n * n * ch == 2 * (half * ch)) by (nonlinear_arith)
        requires
            n * n == 2 * half,
    ;
    if n == 0 {
        assert(cb =~= Seq::<u8>::empty());
    } else {
        lemma_count_pairs(n, ch, half, half);
        assert(2 * half * ch == n * n * ch) by (nonlinear_arith)
            requires
                n * n == 2 * half,
        ;
        assert(cb.take(n * n * ch) =~= cb);
    }
}

/// The seed of the synthetic frame's noise stream.
pub const NOISE_SEED: u32 = 0x9E37_79B9;

/// One step of the xorshift32 generator with shifts 13, 17 and 5.
pub open spec fn xorshift(s: u32) -> u32 {
    let a = s ^ (s << 13u32);
    let b = a ^ (a >> 17u32);
    b ^ (b << 5u32)
}

/// The generator's state after `k + 1` steps from the seed.
pub open spec fn noise_state(k: nat) -> u32
    decreases k,
{
    if k == 0 {
        xorshift(NOISE_SEED)
    } else {
        xorshift(noise_state((k - 1) as nat))
    }
}

/// The `k`th noise value: the state after `k + 1` steps, modulo 41, centred
/// on zero.
pub open spec fn noise_value(k: nat) -> i8 {
    ((noise_state(k) % 41) as int - 20) as i8
}

/// The first `n` values of the noise stream.
pub open spec fn noise_prefix(n: nat) -> Seq<i8> {
    Seq::new(n, |k: int| noise_value(k as nat))
}

/// The noise of a frame depends on its width alone row by row: a frame's
/// noise is the first rows' worth of the noise of any taller frame of the
/// same width, so its first row is the same whatever its height.
pub proof fn lemma_noise_rows_prefix(w: nat, h1: nat, h2: nat)
    requires
        h1 <= h2,
    ensures
        w * h1 * 3 <= w * h2 * 3,
        noise_prefix(w * h1 * 3) == noise_prefix(w * h2 * 3).take((w * h1 * 3) as int),
{
    assert(w * h1 * 3 <= w * h2 * 3) by (nonlinear_arith)
        requires
            h1 <= h2,
    ;
    assert(noise_prefix(w * h1 * 3) =~= noise_prefix(w * h2 * 3).take((w * h1 * 3) as int));
}

/// The per-sample noise of the synthetic `w x h` RGB frame, in the order the
/// frame's samples are laid out (row-major, channels interleaved). Each value
/// lies in `-20..=20`; the frame adds it to a soft gradient.
pub fn synthetic_noise(w: usize, h: usize) -> (v: Vec<i8>)
    requires
        w * h <= usize::MAX,
        w * h * 3 <= usize::MAX,
    ensures
        v@ == noise_prefix((w * h * 3) as nat),
        forall|k: int| 0 <= k < v@.len() ==> #[trigger] v@[k] == noise_value(k as nat),
        forall|k: int| 0 <= k < v@.len() ==> -20 <= #[trigger] v@[k] <= 20,
{
    let total = w * h * 3;
    let mut v: Vec<i8> = Vec::with_capacity(total);
    let mut s: u32 = NOISE_SEED;
    let mut k: usize = 0;
    while k < total
        invariant
            0 <= k <= total,
            total == w * h * 3,
            v@.len() == k,
            k == 0 ==> s == NOISE_SEED,
            k > 0 ==> s == noise_state((k - 1) as nat),
            forall|j: int| 0 <= j < v@.len() ==> #[trigger] v@[j] == noise_value(j as nat),
            forall|j: int| 0 <= j < v@.len() ==> -20 <= #[trigger] v@[j] <= 20,
        decreases total - k,
    {
        s ^= s << 13u32;
        s ^= s >> 17u32;
        s ^= s << 5u32;
        let n: i8 = (s % 41) as i8 - 20;
        v.push(n);
        k += 1;
    }
    assert(v@ =~= noise_prefix((w * h * 3) as nat));
    v
}

/// The size a `sw x sh` photo is reduced to for the corpus bench: a
/// landscape or square frame to `width` pixels wide, a portrait frame to
/// `height` pixels tall, the other edge scaled by the same factor and
/// rounded to the nearest pixel with halves going up.
pub open spec fn fitted_size(sw: int, sh: int, width: int, height: int) -> (int, int) {
    if sw >= sh {
        (width, (sh * width + sw / 2) / sw)
    } else {
        ((sw * height + sh / 2) / sh, height)
    }
}

/// The size a `sw x sh` photo is reduced to: `width` wide when it is
/// landscape or square, `height` tall when it is portrait, keeping its
/// aspect ratio to the nearest pixel.
pub fn fit_long_edge(sw: usize, sh: usize, width: usize, height: usize) -> (r: (usize, usize))
    requires
        sw > 0 || sh > 0,
        sw >= sh ==> sh * width + sw / 2 <= usize::MAX,
        sw < sh ==> sw * height + sh / 2 <= usize::MAX,
    ensures
        (r.0 as int, r.1 as int) == fitted_size(sw as int, sh as int, width as int, height as int),
        sw >= sh ==> r.0 == width,
        sw < sh ==> r.1 == height,
{
    proof {
        lemma_fitted_size_fits(sw as int, sh as int, width as int, height as int);
    }
    if sw >= sh {
        (width, (sh * width + sw / 2) / sw)
    } else {
        ((sw * height + sh / 2) / sh, height)
    }
}

/// The edge that `fit_long_edge` scales is the nearest whole number to the
/// exactly scaled one: with `longer` the edge set to `long` pixels, it misses
/// `short * long / longer` by at most half a pixel.
pub proof fn lemma_long_edge_rounds_to_nearest(short: int, longer: int, long: int)
    requires
        0 <= short <= longer,
        longer > 0,
        long >= 0,
    ensures
        ({
            let s = (short * long + longer / 2) / longer;
            &&& 2 * (s * longer) <= 2 * (short * long) + longer
            &&& 2 * (short * long) < 2 * (s * longer) + longer + 1
        }),
{
    let a = short * long + longer / 2;
    vstd::arithmetic::div_mod::lemma_fundamental_div_mod(a, longer);
    let s = a / longer;
    let r = a % longer;
    assert(s * longer == longer * s) by (nonlinear_arith);
    assert(2 * (longer / 2) <= longer && longer <= 2 * (longer / 2) + 1);
}

/// Dividing with halves going up: `(num + den / 2) / den` is the integer
/// nearest to `num / den`, the upper one on a tie.
proof fn lemma_round_half_up(num: int, den: int)
    requires
        num >= 0,
        den > 0,
    ensures
        2 * ((num + den / 2) / den) * den - den <= 2 * num,
        2 * num < 2 * ((num + den / 2) / den) * den + den,
{
    let a = num + den / 2;
    vstd::arithmetic::div_mod::lemma_fundamental_div_mod(a, den);
    let r = a / den;
    let m = a % den;
    assert(r * den == den * r) by (nonlinear_arith);
    assert(den % 2 == 0 || den % 2 == 1);
    if den % 2 == 1 {
        vstd::arithmetic::div_mod::lemma_fundamental_div_mod(den, 2);
        let q = den / 2;
        let t = r * den;
        assert(den == 2 * q + 1);
        assert(2 * num != 2 * t + den);
    }
    assert(2 * r * den == 2 * (r * den)) by (nonlinear_arith);
}

/// The corpus size fits the frame as the bench asks: a landscape or square
/// frame comes out `width` wide and a portrait frame `height` tall, and the
/// other edge is the whole number nearest the exactly scaled one (`sh *
/// width / sw`, or `sw * height / sh`), halves going up.
pub proof fn lemma_fitted_size_fits(sw: int, sh: int, width: int, height: int)
    requires
        0 <= sw,
        0 <= sh,
        sw > 0 || sh > 0,
        0 <= width,
        0 <= height,
    ensures
        sw >= sh ==> fitted_size(sw, sh, width, height).0 == width,
        sw >= sh ==> 2 * fitted_size(sw, sh, width, height).1 * sw - sw <= 2 * (sh * width),
        sw >= sh ==> 2 * (sh * width) < 2 * fitted_size(sw, sh, width, height).1 * sw + sw,
        sw < sh ==> fitted_size(sw, sh, width, height).1 == height,
        sw < sh ==> 2 * fitted_size(sw, sh, width, height).0 * sh - sh <= 2 * (sw * height),
        sw < sh ==> 2 * (sw * height) < 2 * fitted_size(sw, sh, width, height).0 * sh + sh,
{
    if sw >= sh {
        assert(sh * width >= 0) by (nonlinear_arith)
            requires
                sh >= 0,
                width >= 0,
        ;
        lemma_round_half_up(sh * width, sw);
    } else {
        assert(sw * height >= 0) by (nonlinear_arith)
            requires
                sw >= 0,
                height >= 0,
        ;
        lemma_round_half_up(sw * height, sh);
    }
}

/// The checkerboard is the one-pixel pattern: its corner pixel is black,
/// every pixel is black or white with all its channels alike, and each pixel
/// differs from the pixel to its right and from the pixel below it.
pub proof fn lemma_checkerboard_alternates(n: int, ch: int, x: int, y: int, c: int)
    requires
        0 <= x < n,
        0 <= y < n,
        0 <= c < ch,
    ensures
        ({
            let cb = checkerboard_samples(n, ch);
            &&& cb[sample_index(0, 0, n, c, ch)] == 0
            &&& cb[sample_index(x, y, n, c, ch)] == 0 || cb[sample_index(x, y, n, c, ch)] == 255
            &&& cb[sample_index(x, y, n, c, ch)] == cb[sample_index(x, y, n, 0, ch)]
            &&& x + 1 < n ==> cb[sample_index(x + 1, y, n, c, ch)] != cb[sample_index(x, y, n, c, ch)]
            &&& y + 1 < n ==> cb[sample_index(x, y + 1, n, c, ch)] != cb[sample_index(x, y, n, c, ch)]
        }),
{
    lemma_checkerboard_pixel(n, ch, 0, 0, c);
    lemma_checkerboard_pixel(n, ch, x, y, c);
    lemma_checkerboard_pixel(n, ch, x, y, 0);
    if x + 1 < n {
        lemma_checkerboard_pixel(n, ch, x + 1, y, c);
    }
    if y + 1 < n {
        lemma_checkerboard_pixel(n, ch, x, y + 1, c);
    }
}

/// Every checkerboard sample is 0 exactly where its column and row add up to
/// an even number, and 255 where they add up to an odd one.
pub proof fn lemma_checkerboard_parity(n: int, ch: int, x: int, y: int, c: int)
    requires
        0 <= x < n,
        0 <= y < n,
        0 <= c < ch,
    ensures
        (x + y) % 2 == 0 ==> checkerboard_samples(n, ch)[sample_index(x, y, n, c, ch)] == 0,
        (x + y) % 2 == 1 ==> checkerboard_samples(n, ch)[sample_index(x, y, n, c, ch)] == 255,
{
    lemma_checkerboard_pixel(n, ch, x, y, c);
}

/// The noise stream is one xorshift32 generator (shifts 13, 17, 5) seeded
/// once with `0x9E37_79B9` and never reseeded: its first state is one step
/// from the seed, each later state is one step from the state before, and
/// each value is its state modulo 41, less 20.
pub proof fn lemma_noise_is_one_stream(k: nat)
    ensures
        ({
            let s: u32 = 0x9E37_79B9;
            let a = s ^ (s << 13u32);
            let b = a ^ (a >> 17u32);
            noise_state(0) == b ^ (b << 5u32)
        }),
        ({
            let s = noise_state(k);
            let a = s ^ (s << 13u32);
            let b = a ^ (a >> 17u32);
            noise_state(k + 1) == b ^ (b << 5u32)
        }),
        noise_value(k) as int == (noise_state(k) % 41) as int - 20,
        -20 <= noise_value(k) <= 20,
{
    assert(((k + 1) - 1) as nat == k);
}

} // verus!
