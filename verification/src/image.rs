//! CPU-side images: RGBA byte buffers with per-pixel access, cropping and
//! the row flip applied before export.
//!
//! A pixel colour is carried as its four channel bytes; the host layer
//! converts between float colours and channel bytes at its boundary.

use vstd::prelude::*;

verus! {

/// One pixel: four channel bytes.
#[derive(Clone, Copy, Debug, PartialEq, Eq, Structural)]
pub struct Color {
    pub r: u8,
    pub g: u8,
    pub b: u8,
    pub a: u8,
}

/// An integer pixel rectangle.
#[derive(Clone, Copy, Debug, PartialEq, Eq, Structural)]
pub struct Rect {
    pub x: u16,
    pub y: u16,
    pub w: u16,
    pub h: u16,
}

/// An image: RGBA bytes in row-major order.
#[derive(Clone, Debug)]
pub struct Image {
    pub bytes: Vec<u8>,
    pub width: u16,
    pub height: u16,
}

/// The byte buffer holds exactly four bytes per pixel.
pub open spec fn img_wf(img: &Image) -> bool {
    img.bytes@.len() == img.width * img.height * 4
}

/// The channel byte of `c` at channel index `k`.
pub open spec fn channel(c: Color, k: int) -> u8 {
    if k == 0 {
        c.r
    } else if k == 1 {
        c.g
    } else if k == 2 {
        c.b
    } else {
        c.a
    }
}

/// Channel `k` of the flat pixel `i` of an RGBA buffer.
pub open spec fn pxf(bytes: Seq<u8>, i: int, k: int) -> u8 {
    bytes[4 * i + k]
}

/// Channel `k` of pixel `(x, y)` of an RGBA buffer that is `w` pixels
/// wide.
pub open spec fn pxy(bytes: Seq<u8>, w: int, y: int, x: int, k: int) -> u8 {
    bytes[4 * (y * w + x) + k]
}

/// Byte `i` of row `y` of an RGBA buffer that is `w` pixels wide.
pub open spec fn rowb(bytes: Seq<u8>, w: int, y: int, i: int) -> u8 {
    bytes[y * (4 * w) + i]
}

impl Image {
    /// An empty image.
    pub fn empty() -> (r: Image)
        ensures
            r.width == 0,
            r.height == 0,
            r.bytes@.len() == 0,
            img_wf(&r),
    {
        Image { width: 0, height: 0, bytes: Vec::new() }
    }

    /// An image filled with one colour.
    pub fn gen_image_color(width: u16, height: u16, color: Color) -> (r: Image)
        requires
            width * height * 4 <= usize::MAX,
        ensures
            r.width == width,
            r.height == height,
            img_wf(&r),
            forall|i: int, k: int|
                0 <= i < width * height && 0 <= k < 4 ==> #[trigger] pxf(r.bytes@, i, k) == channel(
                    color,
                    k,
                ),
    {
        let n: usize = (width as usize) * (height as usize);
        let mut bytes: Vec<u8> = Vec::new();
        let mut i: usize = 0;
        while i < n
            invariant
                i <= n,
                n == width * height,
                n * 4 <= usize::MAX,
                bytes@.len() == 4 * i,
                forall|j: int, k: int|
                    0 <= j < i && 0 <= k < 4 ==> #[trigger] pxf(bytes@, j, k) == channel(color, k),
            decreases n - i,
        {
            let ghost prev = bytes@;
            bytes.push(color.r);
            bytes.push(color.g);
            bytes.push(color.b);
            bytes.push(color.a);
            i = i + 1;
            proof {
                assert(pxf(bytes@, i - 1, 0) == color.r);
                assert(pxf(bytes@, i - 1, 1) == color.g);
                assert(pxf(bytes@, i - 1, 2) == color.b);
                assert(pxf(bytes@, i - 1, 3) == color.a);
                assert forall|j: int, k: int|
                    0 <= j < i && 0 <= k < 4 implies #[trigger] pxf(bytes@, j, k) == channel(
                    color,
                    k,
                ) by {
                    if j < i - 1 {
                        assert(pxf(prev, j, k) == channel(color, k));
                        assert(bytes@[4 * j + k] == prev[4 * j + k]);
                    }
                }
            }
        }
        Image { width, height, bytes }
    }

    /// Overwrites every pixel from the given colours, row-major.
    pub fn update(&mut self, colors: &[Color])
        requires
            img_wf(old(self)),
            colors@.len() == old(self).width * old(self).height,
        ensures
            final(self).width == old(self).width,
            final(self).height == old(self).height,
            img_wf(final(self)),
            forall|i: int, k: int|
                0 <= i < colors@.len() && 0 <= k < 4 ==> #[trigger] pxf(final(self).bytes@, i, k)
                    == channel(colors@[i], k),
    {
        let n = colors.len();
        let mut i: usize = 0;
        while i < n
            invariant
                i <= n,
                n == colors@.len(),
                img_wf(self),
                self.width == old(self).width,
                self.height == old(self).height,
                n == self.width * self.height,
                forall|j: int, k: int|
                    0 <= j < i && 0 <= k < 4 ==> #[trigger] pxf(self.bytes@, j, k) == channel(
                        colors@[j],
                        k,
                    ),
            decreases n - i,
        {
            proof {
                assert(self.bytes.len() == self.bytes@.len());
                assert(self.bytes@.len() == 4 * n);
            }
            let ghost prev = self.bytes@;
            let c = colors[i];
            self.bytes.set(4 * i, c.r);
            self.bytes.set(4 * i + 1, c.g);
            self.bytes.set(4 * i + 2, c.b);
            self.bytes.set(4 * i + 3, c.a);
            i = i + 1;
            proof {
                assert(pxf(self.bytes@, i - 1, 0) == c.r);
                assert(pxf(self.bytes@, i - 1, 1) == c.g);
                assert(pxf(self.bytes@, i - 1, 2) == c.b);
                assert(pxf(self.bytes@, i - 1, 3) == c.a);
                assert forall|j: int, k: int|
                    0 <= j < i && 0 <= k < 4 implies #[trigger] pxf(self.bytes@, j, k) == channel(
                    colors@[j],
                    k,
                ) by {
                    if j < i - 1 {
                        assert(pxf(prev, j, k) == channel(colors@[j], k));
                        assert(self.bytes@[4 * j + k] == prev[4 * j + k]);
                    }
                }
            }
        }
    }

    /// The width in pixels.
    pub fn width(&self) -> (r: usize)
        ensures
            r == self.width,
    {
        self.width as usize
    }

    /// The height in pixels.
    pub fn height(&self) -> (r: usize)
        ensures
            r == self.height,
    {
        self.height as usize
    }

    /// Overwrites one pixel, addressed as the buffer is laid out: flat
    /// pixel index `y * width + x`, as long as it stays inside the
    /// buffer.
    pub fn set_pixel(&mut self, x: u32, y: u32, color: Color)
        requires
            img_wf(old(self)),
            y * old(self).width + x < old(self).width * old(self).height,
        ensures
            final(self).width == old(self).width,
            final(self).height == old(self).height,
            img_wf(final(self)),
            pxf(final(self).bytes@, y * old(self).width + x, 0) == color.r,
            pxf(final(self).bytes@, y * old(self).width + x, 1) == color.g,
            pxf(final(self).bytes@, y * old(self).width + x, 2) == color.b,
            pxf(final(self).bytes@, y * old(self).width + x, 3) == color.a,
            forall|i: int|
                0 <= i < old(self).bytes@.len() && !(4 * (y * old(self).width + x) <= i < 4 * (y
                    * old(self).width + x) + 4) ==> final(self).bytes@[i] == old(self).bytes@[i],
    {
        proof {
            assert(self.bytes.len() == self.bytes@.len());
            assert(4 * (y * self.width + x) + 3 < self.bytes@.len());
        }
        let base: usize = ((y as usize) * (self.width as usize) + (x as usize)) * 4;
        self.bytes.set(base, color.r);
        self.bytes.set(base + 1, color.g);
        self.bytes.set(base + 2, color.b);
        self.bytes.set(base + 3, color.a);
    }

    /// Reads one pixel, addressed as `set_pixel` addresses it.
    pub fn get_pixel(&self, x: u32, y: u32) -> (c: Color)
        requires
            img_wf(self),
            y * self.width + x < self.width * self.height,
        ensures
            c.r == pxf(self.bytes@, y * self.width + x, 0),
            c.g == pxf(self.bytes@, y * self.width + x, 1),
            c.b == pxf(self.bytes@, y * self.width + x, 2),
            c.a == pxf(self.bytes@, y * self.width + x, 3),
    {
        proof {
            assert(self.bytes.len() == self.bytes@.len());
            assert(4 * (y * self.width + x) + 3 < self.bytes@.len());
        }
        let base: usize = ((y as usize) * (self.width as usize) + (x as usize)) * 4;
        Color {
            r: self.bytes[base],
            g: self.bytes[base + 1],
            b: self.bytes[base + 2],
            a: self.bytes[base + 3],
        }
    }

    /// Copies the rectangle into a new image of its size: pixel
    /// `(xx, yy)` of the result is pixel `(x + xx, y + yy)` of this
    /// image.
    pub fn sub_image(&self, rect: Rect) -> (r: Image)
        requires
            img_wf(self),
            rect.w > 0 && rect.h > 0 ==> (rect.y + rect.h - 1) * self.width + rect.x + rect.w - 1
                < self.width * self.height,
        ensures
            r.width == rect.w,
            r.height == rect.h,
            img_wf(&r),
            forall|yy: int, xx: int, k: int|
                0 <= yy < rect.h && 0 <= xx < rect.w && 0 <= k < 4 ==> #[trigger] pxy(
                    r.bytes@,
                    rect.w as int,
                    yy,
                    xx,
                    k,
                ) == pxy(self.bytes@, self.width as int, rect.y + yy, rect.x + xx, k),
    {
        let w = rect.w as usize;
        let h = rect.h as usize;
        let x0 = rect.x as usize;
        let y0 = rect.y as usize;
        let mut bytes: Vec<u8> = Vec::new();
        let mut yy: usize = 0;
        while yy < h
            invariant
                yy <= h,
                w == rect.w,
                h == rect.h,
                x0 == rect.x,
                y0 == rect.y,
                img_wf(self),
                rect.w > 0 && rect.h > 0 ==> (rect.y + rect.h - 1) * self.width + rect.x + rect.w
                    - 1 < self.width * self.height,
                bytes@.len() == 4 * (yy * w),
                forall|y2: int, x2: int, k: int|
                    0 <= y2 < yy && 0 <= x2 < w && 0 <= k < 4 ==> #[trigger] pxy(
                        bytes@,
                        rect.w as int,
                        y2,
                        x2,
                        k,
                    ) == pxy(self.bytes@, self.width as int, rect.y + y2, rect.x + x2, k),
            decreases h - yy,
        {
            let mut xx: usize = 0;
            while xx < w
                invariant
                    yy < h,
                    xx <= w,
                    w == rect.w,
                    h == rect.h,
                    x0 == rect.x,
                    y0 == rect.y,
                    img_wf(self),
                    rect.w > 0 && rect.h > 0 ==> (rect.y + rect.h - 1) * self.width + rect.x
                        + rect.w - 1 < self.width * self.height,
                    bytes@.len() == 4 * (yy * w) + 4 * xx,
                    forall|y2: int, x2: int, k: int|
                        0 <= y2 < yy && 0 <= x2 < w && 0 <= k < 4 ==> #[trigger] pxy(
                            bytes@,
                            rect.w as int,
                            y2,
                            x2,
                            k,
                        ) == pxy(self.bytes@, self.width as int, rect.y + y2, rect.x + x2, k),
                    forall|x2: int, k: int|
                        0 <= x2 < xx && 0 <= k < 4 ==> #[trigger] pxy(
                            bytes@,
                            rect.w as int,
                            yy as int,
                            x2,
                            k,
                        ) == pxy(self.bytes@, self.width as int, rect.y + yy, rect.x + x2, k),
                decreases w - xx,
            {
                proof {
                    assert((y0 + yy) * self.width + x0 + xx <= (rect.y + rect.h - 1) * self.width
                        + rect.x + rect.w - 1) by (nonlinear_arith)
                        requires
                            yy < h,
                            xx < w,
                            w == rect.w,
                            h == rect.h,
                            x0 == rect.x,
                            y0 == rect.y,
                            self.width >= 0,
                    ;
                    assert(self.bytes.len() == self.bytes@.len());
                    assert(4 * ((y0 + yy) * self.width + x0 + xx) + 3 < self.bytes@.len());
                    assert(yy * w + xx < w * h) by (nonlinear_arith)
                        requires
                            yy < h,
                            xx < w,
                    ;
                }
                let src: usize = ((y0 + yy) * (self.width as usize) + x0 + xx) * 4;
                let ghost prev = bytes@;
                bytes.push(self.bytes[src]);
                bytes.push(self.bytes[src + 1]);
                bytes.push(self.bytes[src + 2]);
                bytes.push(self.bytes[src + 3]);
                xx = xx + 1;
                proof {
                    assert forall|x2: int, k: int|
                        0 <= x2 < xx && 0 <= k < 4 implies #[trigger] pxy(
                        bytes@,
                        rect.w as int,
                        yy as int,
                        x2,
                        k,
                    ) == pxy(self.bytes@, self.width as int, rect.y + yy, rect.x + x2, k) by {
                        if x2 < xx - 1 {
                            assert(pxy(prev, rect.w as int, yy as int, x2, k) == pxy(
                                self.bytes@,
                                self.width as int,
                                rect.y + yy,
                                rect.x + x2,
                                k,
                            ));
                            assert(4 * ((yy as int) * w + x2) + k < prev.len()) by (nonlinear_arith)
                                requires
                                    0 <= x2 < xx - 1,
                                    0 <= k < 4,
                                    prev.len() == 4 * ((yy as int) * w) + 4 * (xx - 1),
                                    w >= 0,
                            ;
                            assert(bytes@[4 * ((yy as int) * w + x2) + k] == prev[4 * ((yy as int)
                                * w + x2) + k]);
                        } else {
                            assert(4 * ((yy as int) * w + x2) + k == prev.len() + k)
                                by (nonlinear_arith)
                                requires
                                    x2 == xx - 1,
                                    prev.len() == 4 * ((yy as int) * w) + 4 * (xx - 1),
                            ;
                        }
                    }
                    assert forall|y2: int, x2: int, k: int|
                        0 <= y2 < yy && 0 <= x2 < w && 0 <= k < 4 implies #[trigger] pxy(
                        bytes@,
                        rect.w as int,
                        y2,
                        x2,
                        k,
                    ) == pxy(self.bytes@, self.width as int, rect.y + y2, rect.x + x2, k) by {
                        assert(pxy(prev, rect.w as int, y2, x2, k) == pxy(
                            self.bytes@,
                            self.width as int,
                            rect.y + y2,
                            rect.x + x2,
                            k,
                        ));
                        assert(4 * (y2 * w + x2) + k < 4 * ((yy as int) * w)) by (nonlinear_arith)
                            requires
                                0 <= y2 < yy,
                                0 <= x2 < w,
                                0 <= k < 4,
                                w >= 0,
                        ;
                        assert(bytes@[4 * (y2 * w + x2) + k] == prev[4 * (y2 * w + x2) + k]);
                    }
                }
            }
            yy = yy + 1;
            proof {
                assert(4 * ((yy - 1) * w) + 4 * w == 4 * (yy * w)) by (nonlinear_arith);
            }
        }
        proof {
            assert(4 * (h * w) == rect.w * rect.h * 4) by (nonlinear_arith)
                requires
                    w == rect.w,
                    h == rect.h,
            ;
        }
        Image { width: rect.w, height: rect.h, bytes }
    }

    /// The bytes written out by an export: the image with its rows in
    /// reverse order, bottom row first.
    pub fn export_png(&self) -> (r: Vec<u8>)
        requires
            img_wf(self),
        ensures
            r@.len() == self.bytes@.len(),
            forall|y: int, i: int|
                0 <= y < self.height && 0 <= i < 4 * self.width ==> #[trigger] rowb(
                    r@,
                    self.width as int,
                    y,
                    i,
                ) == rowb(self.bytes@, self.width as int, self.height - 1 - y, i),
    {
        let w4: usize = (self.width as usize) * 4;
        let h: usize = self.height as usize;
        let mut r: Vec<u8> = Vec::new();
        let mut y: usize = 0;
        proof {
            assert(self.width * self.height * 4 == h * w4) by (nonlinear_arith)
                requires
                    w4 == self.width * 4,
                    h == self.height,
            ;
        }
        while y < h
            invariant
                y <= h,
                w4 == 4 * self.width,
                h == self.height,
                img_wf(self),
                self.bytes@.len() == h * w4,
                r@.len() == y * w4,
                forall|y2: int, i: int|
                    0 <= y2 < y && 0 <= i < w4 ==> #[trigger] rowb(r@, self.width as int, y2, i)
                        == rowb(self.bytes@, self.width as int, h - 1 - y2, i),
            decreases h - y,
        {
            let mut i: usize = 0;
            while i < w4
                invariant
                    y < h,
                    i <= w4,
                    w4 == 4 * self.width,
                    h == self.height,
                    img_wf(self),
                    self.bytes@.len() == h * w4,
                    r@.len() == y * w4 + i,
                    forall|y2: int, i2: int|
                        0 <= y2 < y && 0 <= i2 < w4 ==> #[trigger] rowb(
                            r@,
                            self.width as int,
                            y2,
                            i2,
                        ) == rowb(self.bytes@, self.width as int, h - 1 - y2, i2),
                    forall|i2: int|
                        0 <= i2 < i ==> #[trigger] rowb(r@, self.width as int, y as int, i2)
                            == rowb(self.bytes@, self.width as int, h - 1 - y, i2),
                decreases w4 - i,
            {
                proof {
                    assert((h - 1 - y) * w4 + i < h * w4) by (nonlinear_arith)
                        requires
                            y < h,
                            i < w4,
                            w4 >= 0,
                    ;
                    assert(y * w4 + i < h * w4) by (nonlinear_arith)
                        requires
                            y < h,
                            i < w4,
                            w4 >= 0,
                    ;
                }
                proof {
                    assert(self.bytes.len() == self.bytes@.len());
                    assert(r.len() == r@.len());
                }
                let src: usize = (h - 1 - y) * w4 + i;
                let ghost prev = r@;
                r.push(self.bytes[src]);
                i = i + 1;
                proof {
                    assert forall|i2: int|
                        0 <= i2 < i implies #[trigger] rowb(r@, self.width as int, y as int, i2)
                        == rowb(self.bytes@, self.width as int, h - 1 - y, i2) by {
                        if i2 < i - 1 {
                            assert(rowb(prev, self.width as int, y as int, i2) == rowb(
                                self.bytes@,
                                self.width as int,
                                h - 1 - y,
                                i2,
                            ));
                            assert(r@[(y as int) * (4 * self.width) + i2] == prev[(y as int) * (4
                                * self.width) + i2]);
                        } else {
                            assert((y as int) * (4 * self.width) + i2 == prev.len());
                        }
                    }
                    assert forall|y2: int, i2: int|
                        0 <= y2 < y && 0 <= i2 < w4 implies #[trigger] rowb(
                        r@,
                        self.width as int,
                        y2,
                        i2,
                    ) == rowb(self.bytes@, self.width as int, h - 1 - y2, i2) by {
                        assert(rowb(prev, self.width as int, y2, i2) == rowb(
                            self.bytes@,
                            self.width as int,
                            h - 1 - y2,
                            i2,
                        ));
                        assert(y2 * (4 * self.width) + i2 < (y as int) * w4) by (nonlinear_arith)
                            requires
                                0 <= y2 < y,
                                0 <= i2 < w4,
                                w4 == 4 * self.width,
                        ;
                        assert(r@[y2 * (4 * self.width) + i2] == prev[y2 * (4 * self.width) + i2]);
                    }
                }
            }
            y = y + 1;
            proof {
                assert((y - 1) * w4 + w4 == y * w4) by (nonlinear_arith);
            }
        }
        r
    }
}

} // verus!
