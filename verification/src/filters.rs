//! Pixel-buffer filters: mirroring one half of an image onto the other,
//! and the filter configuration types around it.

use vstd::prelude::*;

verus! {

/// Which edge's half is duplicated onto the other half.
#[derive(Copy, Clone, Eq, PartialEq, Structural, Debug)]
pub enum MirrorMode {
    North,
    South,
    East,
    West,
}

/// Element `(r, j)` of a row-major buffer that is `w` elements wide.
pub open spec fn at<T>(s: Seq<T>, w: int, r: int, j: int) -> T {
    s[r * w + j]
}

/// The source row a mirrored buffer reads its element `(r, j)` from.
pub open spec fn mirror_src_row(mode: MirrorMode, w: int, h: int, r: int, j: int) -> int {
    match mode {
        MirrorMode::North => if r >= h - h / 2 {
            h - 1 - r
        } else {
            r
        },
        MirrorMode::South => if r < h / 2 {
            h - 1 - r
        } else {
            r
        },
        MirrorMode::East => r,
        MirrorMode::West => r,
    }
}

/// The source column a mirrored buffer reads its element `(r, j)` from.
pub open spec fn mirror_src_col(mode: MirrorMode, w: int, h: int, r: int, j: int) -> int {
    match mode {
        MirrorMode::North => j,
        MirrorMode::South => j,
        MirrorMode::East => if j < w / 2 {
            w - 1 - j
        } else {
            j
        },
        MirrorMode::West => if j >= w - w / 2 {
            w - 1 - j
        } else {
            j
        },
    }
}

/// Mirrors a row-major buffer in place by duplicating elements from one
/// edge's half to the other: east and west act within each row, north and
/// south between rows; a middle row or column of an odd extent stays.
pub fn mirror<T: Copy>(in_pixels: &mut Vec<T>, width: usize, height: usize, mode: MirrorMode)
    requires
        width >= 1,
        old(in_pixels)@.len() == width * height,
    ensures
        final(in_pixels)@.len() == old(in_pixels)@.len(),
        forall|r: int, j: int|
            0 <= r < height && 0 <= j < width ==> #[trigger] at(
                final(in_pixels)@,
                width as int,
                r,
                j,
            ) == at(
                old(in_pixels)@,
                width as int,
                mirror_src_row(mode, width as int, height as int, r, j),
                mirror_src_col(mode, width as int, height as int, r, j),
            ),
{
    let w = width;
    let h = height;
    let mut out: Vec<T> = Vec::new();
    let mut r: usize = 0;
    while r < h
        invariant
            r <= h,
            w == width,
            h == height,
            w >= 1,
            in_pixels@ == old(in_pixels)@,
            in_pixels@.len() == w * h,
            out@.len() == r * w,
            forall|r2: int, j2: int|
                0 <= r2 < r && 0 <= j2 < w ==> #[trigger] at(out@, w as int, r2, j2) == at(
                    in_pixels@,
                    w as int,
                    mirror_src_row(mode, w as int, h as int, r2, j2),
                    mirror_src_col(mode, w as int, h as int, r2, j2),
                ),
        decreases h - r,
    {
        let mut j: usize = 0;
        while j < w
            invariant
                r < h,
                j <= w,
                w == width,
                h == height,
                w >= 1,
                in_pixels@ == old(in_pixels)@,
                in_pixels@.len() == w * h,
                out@.len() == r * w + j,
                forall|r2: int, j2: int|
                    0 <= r2 < r && 0 <= j2 < w ==> #[trigger] at(out@, w as int, r2, j2) == at(
                        in_pixels@,
                        w as int,
                        mirror_src_row(mode, w as int, h as int, r2, j2),
                        mirror_src_col(mode, w as int, h as int, r2, j2),
                    ),
                forall|j2: int|
                    0 <= j2 < j ==> #[trigger] at(out@, w as int, r as int, j2) == at(
                        in_pixels@,
                        w as int,
                        mirror_src_row(mode, w as int, h as int, r as int, j2),
                        mirror_src_col(mode, w as int, h as int, r as int, j2),
                    ),
            decreases w - j,
        {
            let sr: usize = match mode {
                MirrorMode::North => if r >= h - h / 2 {
                    h - 1 - r
                } else {
                    r
                },
                MirrorMode::South => if r < h / 2 {
                    h - 1 - r
                } else {
                    r
                },
                MirrorMode::East => r,
                MirrorMode::West => r,
            };
            let sj: usize = match mode {
                MirrorMode::North => j,
                MirrorMode::South => j,
                MirrorMode::East => if j < w / 2 {
                    w - 1 - j
                } else {
                    j
                },
                MirrorMode::West => if j >= w - w / 2 {
                    w - 1 - j
                } else {
                    j
                },
            };
            proof {
                assert(in_pixels.len() == in_pixels@.len());
                assert(sr < h);
                assert(sj < w);
                assert(sr * w + sj < w * h) by (nonlinear_arith)
                    requires
                        sr < h,
                        sj < w,
                        w >= 1,
                ;
            }
            let v = in_pixels[sr * w + sj];
            let ghost prev = out@;
            out.push(v);
            j = j + 1;
            proof {
                assert forall|j2: int|
                    0 <= j2 < j implies #[trigger] at(out@, w as int, r as int, j2) == at(
                    in_pixels@,
                    w as int,
                    mirror_src_row(mode, w as int, h as int, r as int, j2),
                    mirror_src_col(mode, w as int, h as int, r as int, j2),
                ) by {
                    if j2 < j - 1 {
                        assert(at(prev, w as int, r as int, j2) == at(
                            in_pixels@,
                            w as int,
                            mirror_src_row(mode, w as int, h as int, r as int, j2),
                            mirror_src_col(mode, w as int, h as int, r as int, j2),
                        ));
                        assert(out@[(r as int) * w + j2] == prev[(r as int) * w + j2]);
                    } else {
                        assert((r as int) * w + j2 == prev.len());
                    }
                }
                assert forall|r2: int, j2: int|
                    0 <= r2 < r && 0 <= j2 < w implies #[trigger] at(out@, w as int, r2, j2) == at(
                    in_pixels@,
                    w as int,
                    mirror_src_row(mode, w as int, h as int, r2, j2),
                    mirror_src_col(mode, w as int, h as int, r2, j2),
                ) by {
                    assert(at(prev, w as int, r2, j2) == at(
                        in_pixels@,
                        w as int,
                        mirror_src_row(mode, w as int, h as int, r2, j2),
                        mirror_src_col(mode, w as int, h as int, r2, j2),
                    ));
                    assert(r2 * w + j2 < (r as int) * w) by (nonlinear_arith)
                        requires
                            0 <= r2 < r,
                            0 <= j2 < w,
                            w >= 1,
                    ;
                    assert(out@[r2 * w + j2] == prev[r2 * w + j2]);
                }
            }
        }
        r = r + 1;
        proof {
            assert((r - 1) * w + w == r * w) by (nonlinear_arith);
        }
    }
    proof {
        assert(h * w == w * h) by (nonlinear_arith);
    }
    *in_pixels = out;
}

/// The upside-down flip filter.
#[derive(Debug)]
pub struct Flip;

impl Flip {
    /// A new flip filter.
    pub fn new() -> Flip {
        Flip
    }
}

/// The 180-degree rotation filter.
#[derive(Debug)]
pub struct VerticalFlip;

impl VerticalFlip {
    /// A new vertical-flip filter.
    pub fn new() -> VerticalFlip {
        VerticalFlip
    }
}

/// The mirror filter, configured with its direction.
#[derive(Debug)]
pub struct Mirror {
    pub mode: MirrorMode,
}

impl Mirror {
    /// A mirror filter for the given direction.
    pub fn new(mode: MirrorMode) -> (r: Mirror)
        ensures
            r.mode == mode,
    {
        Mirror { mode }
    }
}

} // verus!
