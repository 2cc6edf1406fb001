//! The eight ways a stored frame can sit, and the pixel map each one names.
use vstd::prelude::*;

verus! {

/// The eight ways a frame can sit, numbered as EXIF `Orientation` numbers them.
///
/// Each names the transform that brings the stored frame upright. All eight
/// are pure permutations, so orienting moves samples and invents none.
#[derive(Clone, Copy, PartialEq, Eq, Debug, Structural)]
pub enum Orientation {
    /// 1: already upright.
    Upright,
    /// 2: mirrored left to right.
    MirrorHorizontal,
    /// 3: rotated 180 degrees.
    Rotate180,
    /// 4: mirrored top to bottom.
    MirrorVertical,
    /// 5: mirrored along the main diagonal.
    Transpose,
    /// 6: needs a 90 degree clockwise turn.
    Rotate90,
    /// 7: mirrored along the anti-diagonal.
    Transverse,
    /// 8: needs a 270 degree clockwise turn.
    Rotate270,
}

impl Orientation {
    /// The EXIF number of an orientation.
    pub open spec fn exif(self) -> u8 {
        match self {
            Orientation::Upright => 1,
            Orientation::MirrorHorizontal => 2,
            Orientation::Rotate180 => 3,
            Orientation::MirrorVertical => 4,
            Orientation::Transpose => 5,
            Orientation::Rotate90 => 6,
            Orientation::Transverse => 7,
            Orientation::Rotate270 => 8,
        }
    }

    /// The orientation an EXIF number names, if any.
    pub open spec fn named_by(value: u8) -> Option<Orientation> {
        match value {
            1 => Some(Orientation::Upright),
            2 => Some(Orientation::MirrorHorizontal),
            3 => Some(Orientation::Rotate180),
            4 => Some(Orientation::MirrorVertical),
            5 => Some(Orientation::Transpose),
            6 => Some(Orientation::Rotate90),
            7 => Some(Orientation::Transverse),
            8 => Some(Orientation::Rotate270),
            _ => None,
        }
    }

    /// The upright frame's width is the stored frame's height.
    pub open spec fn swaps(self) -> bool {
        self.exif() >= 5
    }

    /// Along the upright axis that the stored x coordinate follows, the
    /// stored x runs backwards.
    pub open spec fn flips_x(self) -> bool {
        match self {
            Orientation::MirrorHorizontal | Orientation::Rotate180 | Orientation::Transverse
            | Orientation::Rotate270 => true,
            _ => false,
        }
    }

    /// Along the upright axis that the stored y coordinate follows, the
    /// stored y runs backwards.
    pub open spec fn flips_y(self) -> bool {
        match self {
            Orientation::Rotate180 | Orientation::MirrorVertical | Orientation::Rotate90
            | Orientation::Transverse => true,
            _ => false,
        }
    }

    /// Width and height of the upright frame of a stored `w x h` frame.
    pub open spec fn upright_dims(self, w: int, h: int) -> (int, int) {
        if self.swaps() {
            (h, w)
        } else {
            (w, h)
        }
    }

    /// The stored pixel that upright pixel `(x, y)` shows.
    pub open spec fn source(self, x: int, y: int, sw: int, sh: int) -> (int, int) {
        match self {
            Orientation::Upright => (x, y),
            Orientation::MirrorHorizontal => (sw - 1 - x, y),
            Orientation::Rotate180 => (sw - 1 - x, sh - 1 - y),
            Orientation::MirrorVertical => (x, sh - 1 - y),
            Orientation::Transpose => (y, x),
            Orientation::Rotate90 => (y, sh - 1 - x),
            Orientation::Transverse => (sw - 1 - y, sh - 1 - x),
            Orientation::Rotate270 => (sw - 1 - y, x),
        }
    }

    /// The orientation that undoes this one: the two quarter turns undo each
    /// other, and each of the other six undoes itself.
    pub open spec fn inverse(self) -> Orientation {
        match self {
            Orientation::Rotate90 => Orientation::Rotate270,
            Orientation::Rotate270 => Orientation::Rotate90,
            other => other,
        }
    }

    /// The inputs on which `source_of` computes without an unsigned
    /// subtraction going below zero.
    pub open spec fn source_defined(self, x: int, y: int, sw: int, sh: int) -> bool {
        match self {
            Orientation::Upright => true,
            Orientation::MirrorHorizontal => x < sw,
            Orientation::Rotate180 => x < sw && y < sh,
            Orientation::MirrorVertical => y < sh,
            Orientation::Transpose => true,
            Orientation::Rotate90 => x < sh,
            Orientation::Transverse => y < sw && x < sh,
            Orientation::Rotate270 => y < sw,
        }
    }

    /// The upright pixel that shows stored pixel `(sx, sy)`.
    pub open spec fn upright_of(self, sx: int, sy: int, sw: int, sh: int) -> (int, int) {
        match self {
            Orientation::Upright => (sx, sy),
            Orientation::MirrorHorizontal => (sw - 1 - sx, sy),
            Orientation::Rotate180 => (sw - 1 - sx, sh - 1 - sy),
            Orientation::MirrorVertical => (sx, sh - 1 - sy),
            Orientation::Transpose => (sy, sx),
            Orientation::Rotate90 => (sh - 1 - sy, sx),
            Orientation::Transverse => (sh - 1 - sy, sw - 1 - sx),
            Orientation::Rotate270 => (sy, sw - 1 - sx),
        }
    }

    /// The orientation an EXIF `Orientation` value names, or `None` outside 1-8.
    pub fn from_exif(value: u8) -> (o: Option<Self>)
        ensures
            o == Self::named_by(value),
    {
        match value {
            1 => Some(Orientation::Upright),
            2 => Some(Orientation::MirrorHorizontal),
            3 => Some(Orientation::Rotate180),
            4 => Some(Orientation::MirrorVertical),
            5 => Some(Orientation::Transpose),
            6 => Some(Orientation::Rotate90),
            7 => Some(Orientation::Transverse),
            8 => Some(Orientation::Rotate270),
            _ => None,
        }
    }

    /// The EXIF `Orientation` value of this orientation.
    pub fn exif_value(self) -> (v: u8)
        ensures
            v == self.exif(),
    {
        match self {
            Orientation::Upright => 1,
            Orientation::MirrorHorizontal => 2,
            Orientation::Rotate180 => 3,
            Orientation::MirrorVertical => 4,
            Orientation::Transpose => 5,
            Orientation::Rotate90 => 6,
            Orientation::Transverse => 7,
            Orientation::Rotate270 => 8,
        }
    }

    /// Whether the upright frame's width is the stored frame's height.
    pub fn swaps_axes(self) -> (b: bool)
        ensures
            b == self.swaps(),
    {
        self.exif_value() >= 5
    }

    /// The upright size of a stored `w x h` frame.
    pub fn upright_size(self, w: usize, h: usize) -> (r: (usize, usize))
        ensures
            (r.0 as int, r.1 as int) == self.upright_dims(w as int, h as int),
    {
        if self.swaps_axes() {
            (h, w)
        } else {
            (w, h)
        }
    }

    /// The stored pixel that upright pixel `(x, y)` shows, for a stored frame
    /// of `sw x sh`.
    pub fn source_of(self, x: usize, y: usize, sw: usize, sh: usize) -> (r: (usize, usize))
        requires
            self.source_defined(x as int, y as int, sw as int, sh as int),
        ensures
            (r.0 as int, r.1 as int) == self.source(x as int, y as int, sw as int, sh as int),
    {
        match self {
            Orientation::Upright => (x, y),
            Orientation::MirrorHorizontal => (sw - 1 - x, y),
            Orientation::Rotate180 => (sw - 1 - x, sh - 1 - y),
            Orientation::MirrorVertical => (x, sh - 1 - y),
            Orientation::Transpose => (y, x),
            Orientation::Rotate90 => (y, sh - 1 - x),
            Orientation::Transverse => (sw - 1 - y, sh - 1 - x),
            Orientation::Rotate270 => (sw - 1 - y, x),
        }
    }
}

/// The coordinate a stored axis takes when it follows an upright coordinate
/// `v` over an axis of length `n`, forwards or backwards.
pub open spec fn follow(flip: bool, n: int, v: int) -> int {
    if flip {
        n - 1 - v
    } else {
        v
    }
}

/// Every EXIF number from 1 to 8 names exactly one orientation, no other
/// number names one, and an orientation's own number names it back.
pub proof fn lemma_exif_round_trip(o: Orientation, v: u8)
    ensures
        Orientation::named_by(o.exif()) == Some(o),
        (Orientation::named_by(v) is Some) <==> (1 <= v && v <= 8),
        Orientation::named_by(v) matches Some(p) ==> p.exif() == v,
{
}

/// The upright frame holds as many pixels as the stored frame.
pub proof fn lemma_upright_area(o: Orientation, w: int, h: int)
    ensures
        o.upright_dims(w, h).0 * o.upright_dims(w, h).1 == w * h,
{
    assert(h * w == w * h) by (nonlinear_arith);
}

/// Each pixel of the upright frame shows a pixel of the stored frame, and
/// `source_of` computes it without leaving the unsigned range.
pub proof fn lemma_source_in_frame(o: Orientation, x: int, y: int, sw: int, sh: int)
    requires
        0 <= x < o.upright_dims(sw, sh).0,
        0 <= y < o.upright_dims(sw, sh).1,
    ensures
        o.source_defined(x, y, sw, sh),
        0 <= o.source(x, y, sw, sh).0 < sw,
        0 <= o.source(x, y, sw, sh).1 < sh,
{
}

/// No two pixels of the upright frame show the same stored pixel.
pub proof fn lemma_source_injective(
    o: Orientation,
    x1: int,
    y1: int,
    x2: int,
    y2: int,
    sw: int,
    sh: int,
)
    requires
        0 <= x1 < o.upright_dims(sw, sh).0,
        0 <= y1 < o.upright_dims(sw, sh).1,
        0 <= x2 < o.upright_dims(sw, sh).0,
        0 <= y2 < o.upright_dims(sw, sh).1,
        o.source(x1, y1, sw, sh) == o.source(x2, y2, sw, sh),
    ensures
        x1 == x2,
        y1 == y2,
{
}

/// Every pixel of the stored frame is shown by a pixel of the upright frame:
/// the one `upright_of` names.
pub proof fn lemma_source_onto(o: Orientation, sx: int, sy: int, sw: int, sh: int)
    requires
        0 <= sx < sw,
        0 <= sy < sh,
    ensures
        0 <= o.upright_of(sx, sy, sw, sh).0 < o.upright_dims(sw, sh).0,
        0 <= o.upright_of(sx, sy, sw, sh).1 < o.upright_dims(sw, sh).1,
        o.source(o.upright_of(sx, sy, sw, sh).0, o.upright_of(sx, sy, sw, sh).1, sw, sh) == (
        sx,
        sy,
        ),
{
}

/// Bringing the upright frame back by the inverse orientation returns each
/// stored pixel to its place: the stored pixel at `(x, y)` is shown by the
/// upright pixel that the inverse orientation reads for `(x, y)`.
pub proof fn lemma_source_inverse(o: Orientation, x: int, y: int, sw: int, sh: int)
    requires
        0 <= x < sw,
        0 <= y < sh,
    ensures
        ({
            let (ow, oh) = o.upright_dims(sw, sh);
            let up = o.inverse().source(x, y, ow, oh);
            &&& o.inverse().upright_dims(ow, oh) == (sw, sh)
            &&& o.inverse().source_defined(x, y, ow, oh)
            &&& 0 <= up.0 < ow
            &&& 0 <= up.1 < oh
            &&& o.source(up.0, up.1, sw, sh) == (x, y)
        }),
{
}

/// The stored column of an upright pixel depends on one upright coordinate
/// alone and its stored row on the other alone, each taken forwards or
/// backwards as `flips_x` and `flips_y` say: the upright row
/// when the axes stay, the upright column when they swap. This is what lets a
/// resampler stream a stored row or column as one upright row.
pub proof fn lemma_source_separates(o: Orientation, x: int, y: int, sw: int, sh: int)
    ensures
        !o.swaps() ==> o.source(x, y, sw, sh) == (follow(o.flips_x(), sw, x), follow(
            o.flips_y(),
            sh,
            y,
        )),
        o.swaps() ==> o.source(x, y, sw, sh) == (follow(o.flips_x(), sw, y), follow(
            o.flips_y(),
            sh,
            x,
        )),
{
}

} // verus!
