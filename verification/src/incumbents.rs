//! The `fast_image_resize` paths the conformance suite measures against:
//! its default U8x3 resize, which averages encoded values, and its opt-in
//! sRGB mapper path, which averages light.
//!
//! A resize with the Box or Mitchell filter is a function of its arguments
//! alone: those weights are plain f64 arithmetic, the convolution is integer
//! arithmetic, and the crate holds every CPU extension to one checksum. Its
//! result gets a name here. Lanczos3 weights go through the platform's
//! `f64::sin`, so of a Lanczos3 resize only its shape is stated. The sRGB
//! tables go through `powf`: of them the items state that each sample maps
//! through one table, and where black and white go.
use vstd::prelude::*;

use crate::filter::Filter;
use fast_image_resize::images::Image;
use fast_image_resize::{PixelType, ResizeAlg, ResizeOptions, Resizer};

verus! {

/// `fast_image_resize::FilterType`, held opaque.
#[verifier::external_type_specification]
#[verifier::external_body]
pub struct ExFirFilterType(fast_image_resize::FilterType);

/// `fast_image_resize::PixelComponentMapper`, held opaque.
#[verifier::external_type_specification]
#[verifier::external_body]
pub struct ExFirPixelComponentMapper(fast_image_resize::PixelComponentMapper);

/// The sizes the outside resizer can take without an allocation beyond the
/// address space: every dimension fits the `u32` it takes, and every buffer
/// it builds, intermediate ones included, fits `isize`.
pub open spec fn fir_sizes_fit(sw: int, sh: int, dw: int, dh: int) -> bool {
    &&& sw <= u32::MAX
    &&& sh <= u32::MAX
    &&& dw <= u32::MAX
    &&& dh <= u32::MAX
    &&& (sw + dw + 1) * (sh + dh + 1) * 6 <= isize::MAX
}

/// What fast_image_resize's convolution resize makes of the U8x3 frame `src`
/// of `sw x sh` at `dw x dh` with the filter of the same name as `f`.
pub uninterp spec fn fir_resized_u8x3(src: Seq<u8>, sw: nat, sh: nat, dw: nat, dh: nat, f: Filter) -> Seq<u8>;

/// What fast_image_resize's convolution resize makes of the U16x3 frame
/// `src` (native-endian byte pairs) of `sw x sh` at `dw x dh` with the filter
/// of the same name as `f`.
pub uninterp spec fn fir_resized_u16x3(src: Seq<u8>, sw: nat, sh: nat, dw: nat, dh: nat, f: Filter) -> Seq<u8>;

/// `lin` is `src` with every byte mapped through one table into a u16 (a
/// native-endian byte pair) that sends 0 to 0 and 255 to 65535.
pub open spec fn mapped_forward(src: Seq<u8>, lin: Seq<u8>) -> bool {
    &&& lin.len() == 2 * src.len()
    &&& forall|i: int, j: int|
        0 <= i < src.len() && 0 <= j < src.len() && #[trigger] src[i] == #[trigger] src[j] ==> lin[2
            * i] == lin[2 * j] && lin[2 * i + 1] == lin[2 * j + 1]
    &&& forall|i: int|
        0 <= i < src.len() ==> {
            &&& #[trigger] src[i] == 0 ==> lin[2 * i] == 0 && lin[2 * i + 1] == 0
            &&& src[i] == 255 ==> lin[2 * i] == 255 && lin[2 * i + 1] == 255
        }
}

/// `out` is `lin` (u16 samples as native-endian byte pairs) with every
/// sample mapped through one table into a byte, sending 0 to 0 and 65535 to
/// 255.
pub open spec fn mapped_backward(lin: Seq<u8>, out: Seq<u8>) -> bool {
    &&& lin.len() == 2 * out.len()
    &&& forall|i: int, j: int|
        0 <= i < out.len() && 0 <= j < out.len() && lin[2 * i] == lin[2 * j] && lin[2 * i + 1]
            == lin[2 * j + 1] ==> #[trigger] out[i] == #[trigger] out[j]
    &&& forall|i: int|
        0 <= i < out.len() ==> {
            &&& lin[2 * i] == 0 && lin[2 * i + 1] == 0 ==> #[trigger] out[i] == 0
            &&& lin[2 * i] == 255 && lin[2 * i + 1] == 255 ==> out[i] == 255
        }
}

/// `out` is what the sRGB mapper path makes of the U8x3 frame `src` of
/// `sw x sh` at `dw x dh`, by way of the linear frame `lin` and its resize
/// `mid`: `src` mapped forward through one table, resized (a copy at the
/// same size, `fir_resized_u16x3` with Box or Mitchell), and mapped back
/// through one table.
pub open spec fn srgb_mapped_through(
    src: Seq<u8>,
    sw: nat,
    sh: nat,
    dw: nat,
    dh: nat,
    f: Filter,
    lin: Seq<u8>,
    mid: Seq<u8>,
    out: Seq<u8>,
) -> bool {
    &&& mapped_forward(src, lin)
    &&& mid.len() == dw * dh * 6
    &&& (dw == sw && dh == sh) ==> mid == lin
    &&& f != Filter::Lanczos3 ==> mid == fir_resized_u16x3(lin, sw, sh, dw, dh, f)
    &&& mapped_backward(mid, out)
}

/// The `fast_image_resize` filter of the same name as `f`.
///
/// Trusted: calls nothing; builds the outside enum's variant `Box`,
/// `Lanczos3` or `Mitchell` for the library's variant of that name. The
/// outside enum is opaque here, so no clause says which.
#[verifier::external_body]
pub fn fir_filter(f: Filter) -> fast_image_resize::FilterType {
    match f {
        Filter::Box => fast_image_resize::FilterType::Box,
        Filter::Lanczos3 => fast_image_resize::FilterType::Lanczos3,
        Filter::Mitchell => fast_image_resize::FilterType::Mitchell,
    }
}

/// `fast_image_resize::Resizer::resize` on a U8x3 image of `sw x sh` into
/// one of `dw x dh`, by convolution with `filter`.
///
/// Trusted: the result holds `dw * dh * 3` bytes; when the sizes are equal
/// the source's first `sw * sh` pixels are copied unchanged
/// (`Resizer::resize_typed` copies before it convolves); with Box or
/// Mitchell it is `fir_resized_u8x3` of the frame. Of a Lanczos3 resize the
/// values are left unsaid (they go through `f64::sin`).
#[verifier::external_body]
fn fir_resize_u8x3(src: &[u8], sw: usize, sh: usize, dw: usize, dh: usize, f: Filter) -> (out: Vec<u8>)
    requires
        src@.len() >= sw * sh * 3,
        fir_sizes_fit(sw as int, sh as int, dw as int, dh as int),
    ensures
        out@.len() == dw * dh * 3,
        (dw == sw && dh == sh) ==> out@ == src@.take(sw * sh * 3),
        f != Filter::Lanczos3 ==> out@ == fir_resized_u8x3(
            src@.take(sw * sh * 3),
            sw as nat,
            sh as nat,
            dw as nat,
            dh as nat,
            f,
        ),
{
    let filter = match f {
        Filter::Box => fast_image_resize::FilterType::Box,
        Filter::Lanczos3 => fast_image_resize::FilterType::Lanczos3,
        Filter::Mitchell => fast_image_resize::FilterType::Mitchell,
    };
    let src_img = Image::from_vec_u8(sw as u32, sh as u32, src.to_vec(), PixelType::U8x3).unwrap();
    let mut dst = Image::new(dw as u32, dh as u32, PixelType::U8x3);
    let opts = ResizeOptions::new().resize_alg(ResizeAlg::Convolution(filter));
    Resizer::new().resize(&src_img, &mut dst, &opts).unwrap();
    dst.into_vec()
}

/// `fast_image_resize::Resizer::resize` on a U16x3 image of `sw x sh`, its
/// samples as native-endian byte pairs, into one of `dw x dh`.
///
/// Trusted: the result holds `dw * dh * 6` bytes; when the sizes are equal
/// the source's first `sw * sh` pixels are copied unchanged; with Box or
/// Mitchell it is `fir_resized_u16x3` of the frame. Of a Lanczos3 resize the
/// values are left unsaid, as for `fir_resize_u8x3`. Like the crate's own
/// `Image::new`, it relies on the allocator giving byte buffers the two-byte
/// alignment of `u16`.
#[verifier::external_body]
fn fir_resize_u16x3(src: &[u8], sw: usize, sh: usize, dw: usize, dh: usize, f: Filter) -> (out: Vec<u8>)
    requires
        src@.len() >= sw * sh * 6,
        fir_sizes_fit(sw as int, sh as int, dw as int, dh as int),
    ensures
        out@.len() == dw * dh * 6,
        (dw == sw && dh == sh) ==> out@ == src@.take(sw * sh * 6),
        f != Filter::Lanczos3 ==> out@ == fir_resized_u16x3(
            src@.take(sw * sh * 6),
            sw as nat,
            sh as nat,
            dw as nat,
            dh as nat,
            f,
        ),
{
    let filter = match f {
        Filter::Box => fast_image_resize::FilterType::Box,
        Filter::Lanczos3 => fast_image_resize::FilterType::Lanczos3,
        Filter::Mitchell => fast_image_resize::FilterType::Mitchell,
    };
    let src_img = Image::from_vec_u8(sw as u32, sh as u32, src.to_vec(), PixelType::U16x3).unwrap();
    let mut dst = Image::new(dw as u32, dh as u32, PixelType::U16x3);
    let opts = ResizeOptions::new().resize_alg(ResizeAlg::Convolution(filter));
    Resizer::new().resize(&src_img, &mut dst, &opts).unwrap();
    dst.into_vec()
}

/// fast_image_resize's sRGB mapper: tables from sRGB u8 to linear u16 and
/// back. Its field is private and `srgb_mapper` is the only thing that
/// builds one, so every value of this type holds the sRGB tables.
struct SrgbMapper {
    inner: fast_image_resize::PixelComponentMapper,
}

/// `fast_image_resize::create_srgb_mapper`, kept in an `SrgbMapper`.
///
/// Trusted: nothing is stated of the tables themselves; what the maps
/// below state of them is read from `create_srgb_mapper`'s curves.
#[verifier::external_body]
fn srgb_mapper() -> SrgbMapper {
    SrgbMapper { inner: fast_image_resize::create_srgb_mapper() }
}

/// `PixelComponentMapper::forward_map` of the sRGB mapper, from a U8x3
/// image of `w x h` to a U16x3 one, its samples as native-endian byte pairs.
///
/// Trusted: the result is the first `w * h` pixels mapped byte by byte
/// through one table (`MappingTable::map`): 0 to the u16 0 and 255 to the u16 65535
/// (the table entry for `i` is `round(f(i / 255) * 65535)`, and the sRGB
/// curve sends 0.0 to 0.0 and 1.0 to exactly 1.0). The other entries rest on
/// `powf` and are left unsaid.
#[verifier::external_body]
fn fir_forward_map(mapper: &SrgbMapper, src: &[u8], w: usize, h: usize) -> (out: Vec<u8>)
    requires
        src@.len() >= w * h * 3,
        w <= u32::MAX,
        h <= u32::MAX,
        w * h * 6 <= isize::MAX,
    ensures
        mapped_forward(src@.take(w * h * 3), out@),
{
    let src_img = Image::from_vec_u8(w as u32, h as u32, src.to_vec(), PixelType::U8x3).unwrap();
    let mut dst = Image::new(w as u32, h as u32, PixelType::U16x3);
    mapper.inner.forward_map(&src_img, &mut dst).unwrap();
    dst.into_vec()
}

/// `PixelComponentMapper::backward_map` of the sRGB mapper, from a U16x3
/// image of `w x h`, its samples as native-endian byte pairs, to a U8x3 one.
///
/// Trusted: the result is the first `w * h` pixels mapped sample by sample
/// through one table (`MappingTable::map`): the u16 0 to 0 and the u16 65535 to 255
/// (the table entry for `i` is `round(f(i / 65535) * 255)`; the curve sends
/// 0.0 to 0.0 and 1.0 to within one f32 step of 1.0, which rounds to 255).
/// The other entries rest on `powf` and are left unsaid. It relies on the
/// allocator's alignment as `fir_resize_u16x3` does.
#[verifier::external_body]
fn fir_backward_map(mapper: &SrgbMapper, src: &[u8], w: usize, h: usize) -> (out: Vec<u8>)
    requires
        src@.len() >= w * h * 6,
        w <= u32::MAX,
        h <= u32::MAX,
        w * h * 6 <= isize::MAX,
    ensures
        mapped_backward(src@.take(w * h * 6), out@),
{
    let src_img = Image::from_vec_u8(w as u32, h as u32, src.to_vec(), PixelType::U16x3).unwrap();
    let mut dst = Image::new(w as u32, h as u32, PixelType::U8x3);
    mapper.inner.backward_map(&src_img, &mut dst).unwrap();
    dst.into_vec()
}

/// fast_image_resize's default path: U8x3 in, U8x3 out, averaging encoded
/// values. A resize to the same size hands the frame back unchanged.
pub fn fir_u8(src: &[u8], sw: usize, sh: usize, dw: usize, dh: usize, f: Filter) -> (out: Vec<u8>)
    requires
        src@.len() >= sw * sh * 3,
        fir_sizes_fit(sw as int, sh as int, dw as int, dh as int),
    ensures
        out@.len() == dw * dh * 3,
        (dw == sw && dh == sh) ==> out@ == src@.take(sw * sh * 3),
        f != Filter::Lanczos3 ==> out@ == fir_resized_u8x3(
            src@.take(sw * sh * 3),
            sw as nat,
            sh as nat,
            dw as nat,
            dh as nat,
            f,
        ),
{
    fir_resize_u8x3(src, sw, sh, dw, dh, f)
}

/// fast_image_resize's correct path, opt-in: sRGB u8 to linear u16 through
/// its mapper, resize U16x3, map back to sRGB u8. At the same size black
/// stays black and white stays white.
pub fn fir_u8_srgb_mapped(
    src: &[u8],
    sw: usize,
    sh: usize,
    dw: usize,
    dh: usize,
    f: Filter,
) -> (out: Vec<u8>)
    requires
        src@.len() >= sw * sh * 3,
        fir_sizes_fit(sw as int, sh as int, dw as int, dh as int),
    ensures
        out@.len() == dw * dh * 3,
        exists|lin: Seq<u8>, mid: Seq<u8>|
            #[trigger] srgb_mapped_through(
                src@.take(sw * sh * 3),
                sw as nat,
                sh as nat,
                dw as nat,
                dh as nat,
                f,
                lin,
                mid,
                out@,
            ),
        (dw == sw && dh == sh) ==> forall|i: int|
            0 <= i < sw * sh * 3 ==> {
                &&& #[trigger] src@[i] == 0 ==> out@[i] == 0
                &&& src@[i] == 255 ==> out@[i] == 255
            },
{
    let mapper = srgb_mapper();
    proof {
        assert(sw * sh * 6 <= isize::MAX && dw * dh * 6 <= isize::MAX) by (nonlinear_arith)
            requires
                (sw + dw + 1) * (sh + dh + 1) * 6 <= isize::MAX,
                sw >= 0,
                sh >= 0,
                dw >= 0,
                dh >= 0,
        ;
    }
    let src_lin = fir_forward_map(&mapper, src, sw, sh);
    let dst_lin = fir_resize_u16x3(&src_lin, sw, sh, dw, dh, f);
    let out = fir_backward_map(&mapper, &dst_lin, dw, dh);
    proof {
        assert(src_lin@.take(sw * sh * 6) =~= src_lin@);
        assert(dst_lin@.take(dw * dh * 6) =~= dst_lin@);
        assert(srgb_mapped_through(
            src@.take(sw * sh * 3),
            sw as nat,
            sh as nat,
            dw as nat,
            dh as nat,
            f,
            src_lin@,
            dst_lin@,
            out@,
        ));
        if dw == sw && dh == sh {
            assert forall|i: int| 0 <= i < sw * sh * 3 implies {
                &&& #[trigger] src@[i] == 0 ==> out@[i] == 0
                &&& src@[i] == 255 ==> out@[i] == 255
            } by {
                assert(2 * i + 1 < sw * sh * 6);
                assert(dst_lin@[2 * i] == src_lin@[2 * i]);
                assert(dst_lin@[2 * i + 1] == src_lin@[2 * i + 1]);
                assert(src@.take(sw * sh * 3)[i] == src@[i]);
            }
        }
    }
    out
}

} // verus!
