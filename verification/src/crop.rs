//! Content-based cropping of a rendered RGBA image: find the tight
//! axis-aligned rectangle of non-transparent pixels and copy it out.

use crate::error::Error;
use vstd::arithmetic::mul::lemma_mul_inequality;
use vstd::prelude::*;

verus! {

/// An RGBA image with eight bits per channel: row-major pixel data, four
/// bytes per pixel, alpha last.
#[derive(Debug, Clone, PartialEq, Eq)]
pub struct RgbaImage {
    pub width: u32,
    pub height: u32,
    pub data: Vec<u8>,
}

impl RgbaImage {
    /// The pixel buffer holds exactly four bytes for each of the
    /// `width * height` pixels.
    pub open spec fn wf(&self) -> bool {
        self.data@.len() == 4 * ((self.height as int) * (self.width as int))
    }

    /// Offset of pixel `(x, y)`'s first byte in the buffer.
    pub open spec fn byte_index(&self, x: int, y: int) -> int {
        4 * (y * (self.width as int) + x)
    }

    /// Channel `c` of pixel `(x, y)`: red, green, blue, alpha in that order.
    pub open spec fn byte_at(&self, x: int, y: int, c: int) -> u8 {
        self.data@[self.byte_index(x, y) + c]
    }

    /// The alpha channel of pixel `(x, y)`.
    pub open spec fn alpha_at(&self, x: int, y: int) -> u8 {
        self.byte_at(x, y, 3)
    }

    /// A pixel is non-transparent when its alpha channel is nonzero.
    pub open spec fn opaque(&self, x: int, y: int) -> bool {
        self.alpha_at(x, y) != 0
    }

    /// Every pixel of the image is fully transparent.
    pub open spec fn all_transparent(&self) -> bool {
        forall|x: int, y: int|
            0 <= x < self.width && 0 <= y < self.height ==> !#[trigger] self.opaque(x, y)
    }

    /// `(mnx, mny)..=(mxx, mxy)` is the tight inclusive bounding rectangle
    /// of the image's non-transparent pixels: it contains them all, and
    /// each of its four edges touches one.
    pub open spec fn is_content_bounds(&self, mnx: int, mny: int, mxx: int, mxy: int) -> bool {
        &&& 0 <= mnx <= mxx < self.width
        &&& 0 <= mny <= mxy < self.height
        &&& forall|x: int, y: int|
            0 <= x < self.width && 0 <= y < self.height && #[trigger] self.opaque(x, y) ==> mnx
                <= x <= mxx && mny <= y <= mxy
        &&& exists|x: int, y: int|
            0 <= x < self.width && 0 <= y < self.height && #[trigger] self.opaque(x, y) && x
                == mnx
        &&& exists|x: int, y: int|
            0 <= x < self.width && 0 <= y < self.height && #[trigger] self.opaque(x, y) && x
                == mxx
        &&& exists|x: int, y: int|
            0 <= x < self.width && 0 <= y < self.height && #[trigger] self.opaque(x, y) && y
                == mny
        &&& exists|x: int, y: int|
            0 <= x < self.width && 0 <= y < self.height && #[trigger] self.opaque(x, y) && y
                == mxy
    }

    /// `img` is the copy of this image's inclusive pixel rectangle
    /// `(mnx, mny)..=(mxx, mxy)`: it is `(max - min) + 1` pixels wide and
    /// high and holds the same channel bytes, shifted.
    pub open spec fn is_crop_of(
        &self,
        img: RgbaImage,
        mnx: int,
        mny: int,
        mxx: int,
        mxy: int,
    ) -> bool {
        &&& img.width as int == mxx - mnx + 1
        &&& img.height as int == mxy - mny + 1
        &&& img.wf()
        &&& forall|x: int, y: int, c: int|
            0 <= x < img.width && 0 <= y < img.height && 0 <= c < 4 ==> #[trigger] img.byte_at(
                x,
                y,
                c,
            ) == self.byte_at(x + mnx, y + mny, c)
    }

    /// Wrap a raw pixel buffer of the declared size, or report
    /// [`Error::ImageContainerTooSmall`] when the length does not match
    /// `4 * width * height`.
    pub fn from_raw(width: u32, height: u32, data: Vec<u8>) -> (r: Result<RgbaImage, Error>)
        ensures
            match r {
                Ok(img) => {
                    &&& img.width == width
                    &&& img.height == height
                    &&& img.data == data
                    &&& img.wf()
                },
                Err(e) => {
                    &&& e == Error::ImageContainerTooSmall
                    &&& data@.len() != 4 * ((height as int) * (width as int))
                },
            },
    {
        proof {
            crate::num::lemma_mul_bound(
                height as int,
                width as int,
                0x1_0000_0000,
                0x1_0000_0000,
            );
        }
        let hw: u128 = (height as u128) * (width as u128);
        let need: u128 = 4 * hw;
        if (data.len() as u128) == need {
            Ok(RgbaImage { width, height, data })
        } else {
            Err(Error::ImageContainerTooSmall)
        }
    }

    /// Channel `c` of pixel `(x, y)`, read from the buffer.
    fn byte(&self, x: u32, y: u32, c: usize) -> (r: u8)
        requires
            self.wf(),
            x < self.width,
            y < self.height,
            c < 4,
        ensures
            r == self.byte_at(x as int, y as int, c as int),
    {
        let n = self.data.len();
        proof {
            lemma_mul_inequality(y as int + 1, self.height as int, self.width as int);
            vstd::arithmetic::mul::lemma_mul_is_distributive_add_other_way(
                self.width as int,
                y as int,
                1,
            );
            assert((y as int + 1) * (self.width as int) == (y as int) * (self.width as int) + 1 * (
            self.width as int));
            assert(4 * ((y as int) * (self.width as int) + (x as int)) + (c as int) < n as int);
        }
        let row: usize = (y as usize) * (self.width as usize);
        let idx: usize = 4 * (row + (x as usize)) + c;
        self.data[idx]
    }

    /// The inclusive pixel bounds `((min x, min y), (max x, max y))` of all
    /// non-transparent content, or `None` when every pixel is fully
    /// transparent.
    pub fn non_transparent_bounds(&self) -> (r: Option<((u32, u32), (u32, u32))>)
        requires
            self.wf(),
        ensures
            match r {
                None => self.all_transparent(),
                Some(b) => self.is_content_bounds(
                    b.0.0 as int,
                    b.0.1 as int,
                    b.1.0 as int,
                    b.1.1 as int,
                ),
            },
    {
        let mut found: bool = false;
        let mut mnx: u32 = 0;
        let mut mny: u32 = 0;
        let mut mxx: u32 = 0;
        let mut mxy: u32 = 0;
        let mut y: u32 = 0;
        while y < self.height
            invariant
                self.wf(),
                y <= self.height,
                found ==> mnx <= mxx < self.width && mny <= mxy < y,
                forall|a: int, b: int|
                    0 <= a < self.width && 0 <= b < y && #[trigger] self.opaque(a, b) ==> found
                        && mnx <= a <= mxx && mny <= b <= mxy,
                found ==> exists|a: int, b: int|
                    0 <= a < self.width && 0 <= b < y && #[trigger] self.opaque(a, b) && a == mnx,
                found ==> exists|a: int, b: int|
                    0 <= a < self.width && 0 <= b < y && #[trigger] self.opaque(a, b) && a == mxx,
                found ==> exists|a: int, b: int|
                    0 <= a < self.width && 0 <= b < y && #[trigger] self.opaque(a, b) && b == mny,
                found ==> exists|a: int, b: int|
                    0 <= a < self.width && 0 <= b < y && #[trigger] self.opaque(a, b) && b == mxy,
            decreases self.height - y,
        {
            let mut x: u32 = 0;
            while x < self.width
                invariant
                    self.wf(),
                    y < self.height,
                    x <= self.width,
                    found ==> mnx <= mxx < self.width && mny <= mxy <= y,
                    forall|a: int, b: int|
                        0 <= a < self.width && 0 <= b && (b < y || (b == y && a < x))
                            && #[trigger] self.opaque(a, b) ==> found && mnx <= a <= mxx && mny
                            <= b <= mxy,
                    found ==> exists|a: int, b: int|
                        0 <= a < self.width && 0 <= b <= y && #[trigger] self.opaque(a, b) && a
                            == mnx,
                    found ==> exists|a: int, b: int|
                        0 <= a < self.width && 0 <= b <= y && #[trigger] self.opaque(a, b) && a
                            == mxx,
                    found ==> exists|a: int, b: int|
                        0 <= a < self.width && 0 <= b <= y && #[trigger] self.opaque(a, b) && b
                            == mny,
                    found ==> exists|a: int, b: int|
                        0 <= a < self.width && 0 <= b <= y && #[trigger] self.opaque(a, b) && b
                            == mxy,
                decreases self.width - x,
            {
                let alpha = self.byte(x, y, 3);
                if alpha != 0 {
                    proof {
                        assert(self.opaque(x as int, y as int));
                    }
                    if !found {
                        found = true;
                        mnx = x;
                        mxx = x;
                        mny = y;
                        mxy = y;
                    } else {
                        if x < mnx {
                            mnx = x;
                        }
                        if x > mxx {
                            mxx = x;
                        }
                        mxy = y;
                    }
                }
                x = x + 1;
            }
            y = y + 1;
        }
        if found {
            Some(((mnx, mny), (mxx, mxy)))
        } else {
            None
        }
    }

    /// Copy out the inclusive pixel rectangle
    /// `(min_x, min_y)..=(max_x, max_y)`; the crop is
    /// `(max - min) + 1` pixels wide and high.
    pub fn crop(&self, min_x: u32, min_y: u32, max_x: u32, max_y: u32) -> (r: RgbaImage)
        requires
            self.wf(),
            min_x <= max_x < self.width,
            min_y <= max_y < self.height,
        ensures
            self.is_crop_of(r, min_x as int, min_y as int, max_x as int, max_y as int),
    {
        let nw: u32 = max_x - min_x + 1;
        let nh: u32 = max_y - min_y + 1;
        let mut data: Vec<u8> = Vec::new();
        let mut y: u32 = 0;
        while y < nh
            invariant
                self.wf(),
                min_x <= max_x < self.width,
                min_y <= max_y < self.height,
                nw == max_x - min_x + 1,
                nh == max_y - min_y + 1,
                y <= nh,
                data@.len() == 4 * ((y as int) * (nw as int)),
                forall|a: int, b: int, c: int|
                    0 <= a < nw && 0 <= b < y && 0 <= c < 4 ==> #[trigger] data@[4 * (b * (
                    nw as int) + a) + c] == self.byte_at(a + min_x, b + min_y, c),
            decreases nh - y,
        {
            let mut x: u32 = 0;
            while x < nw
                invariant
                    self.wf(),
                    min_x <= max_x < self.width,
                    min_y <= max_y < self.height,
                    nw == max_x - min_x + 1,
                    nh == max_y - min_y + 1,
                    y < nh,
                    x <= nw,
                    data@.len() == 4 * ((y as int) * (nw as int) + (x as int)),
                    forall|a: int, b: int, c: int|
                        0 <= a < nw && 0 <= b && 0 <= c < 4 && (b < y || (b == y && a < x))
                            ==> #[trigger] data@[4 * (b * (nw as int) + a) + c] == self.byte_at(
                            a + min_x,
                            b + min_y,
                            c,
                        ),
                decreases nw - x,
            {
                let b0 = self.byte(min_x + x, min_y + y, 0);
                let b1 = self.byte(min_x + x, min_y + y, 1);
                let b2 = self.byte(min_x + x, min_y + y, 2);
                let b3 = self.byte(min_x + x, min_y + y, 3);
                data.push(b0);
                data.push(b1);
                data.push(b2);
                data.push(b3);
                proof {
                    let w = nw as int;
                    let len0 = 4 * ((y as int) * w + (x as int));
                    assert(data@.len() == len0 + 4);
                    assert forall|a: int, b: int, c: int|
                        0 <= a < nw && 0 <= b && 0 <= c < 4 && (b < y || (b == y && a < x
                            + 1)) implies #[trigger] data@[4 * (b * w + a) + c] == self.byte_at(
                        a + min_x,
                        b + min_y,
                        c,
                    ) by {
                        if b == y && a == x {
                            assert(4 * (b * w + a) + c == len0 + c);
                            assert(data@[len0 + c] == self.byte_at(
                                x as int + min_x,
                                y as int + min_y,
                                c,
                            ));
                        } else {
                            if b < y {
                                lemma_mul_inequality(b + 1, y as int, w);
                                vstd::arithmetic::mul::lemma_mul_is_distributive_add_other_way(
                                    w,
                                    b,
                                    1,
                                );
                                assert((b + 1) * w == b * w + 1 * w);
                            }
                            assert(4 * (b * w + a) + c < len0);
                        }
                    }
                }
                x = x + 1;
            }
            proof {
                vstd::arithmetic::mul::lemma_mul_is_distributive_add_other_way(
                    nw as int,
                    y as int,
                    1,
                );
                assert((y as int + 1) * (nw as int) == (y as int) * (nw as int) + 1 * (
                nw as int));
            }
            y = y + 1;
        }
        let r = RgbaImage { width: nw, height: nh, data };
        proof {
            assert(r.data@.len() == 4 * ((nh as int) * (nw as int)));
        }
        r
    }

    /// The image cropped down to its non-transparent content, or
    /// [`Error::ZeroAreaImage`] when every pixel is fully transparent and
    /// there is no content to keep.
    pub fn cropped_to_content(&self) -> (r: Result<RgbaImage, Error>)
        requires
            self.wf(),
        ensures
            match r {
                Ok(img) => {
                    &&& !self.all_transparent()
                    &&& forall|mnx: int, mny: int, mxx: int, mxy: int|
                        #[trigger] self.is_content_bounds(mnx, mny, mxx, mxy) ==> self.is_crop_of(
                            img,
                            mnx,
                            mny,
                            mxx,
                            mxy,
                        )
                },
                Err(e) => e == Error::ZeroAreaImage && self.all_transparent(),
            },
    {
        match self.non_transparent_bounds() {
            None => Err(Error::ZeroAreaImage),
            Some(b) => {
                let ((mnx, mny), (mxx, mxy)) = b;
                let img = self.crop(mnx, mny, mxx, mxy);
                proof {
                    let (ox, oy) = choose|x: int, y: int|
                        0 <= x < self.width && 0 <= y < self.height && #[trigger] self.opaque(
                            x,
                            y,
                        ) && x == mnx as int;
                    assert(self.opaque(ox, oy));
                    assert(!self.all_transparent());
                    assert forall|ax: int, ay: int, bx: int, by: int|
                        #[trigger] self.is_content_bounds(ax, ay, bx, by) implies ax == mnx as int
                        && ay == mny as int && bx == mxx as int && by == mxy as int by {
                        let (x1, y1) = choose|x: int, y: int|
                            0 <= x < self.width && 0 <= y < self.height && #[trigger] self.opaque(
                                x,
                                y,
                            ) && x == mnx as int;
                        assert(self.opaque(x1, y1));
                        let (x2, y2) = choose|x: int, y: int|
                            0 <= x < self.width && 0 <= y < self.height && #[trigger] self.opaque(
                                x,
                                y,
                            ) && x == mxx as int;
                        assert(self.opaque(x2, y2));
                        let (x3, y3) = choose|x: int, y: int|
                            0 <= x < self.width && 0 <= y < self.height && #[trigger] self.opaque(
                                x,
                                y,
                            ) && y == mny as int;
                        assert(self.opaque(x3, y3));
                        let (x4, y4) = choose|x: int, y: int|
                            0 <= x < self.width && 0 <= y < self.height && #[trigger] self.opaque(
                                x,
                                y,
                            ) && y == mxy as int;
                        assert(self.opaque(x4, y4));
                        let (x5, y5) = choose|x: int, y: int|
                            0 <= x < self.width && 0 <= y < self.height && #[trigger] self.opaque(
                                x,
                                y,
                            ) && x == ax;
                        assert(self.opaque(x5, y5));
                        let (x6, y6) = choose|x: int, y: int|
                            0 <= x < self.width && 0 <= y < self.height && #[trigger] self.opaque(
                                x,
                                y,
                            ) && x == bx;
                        assert(self.opaque(x6, y6));
                        let (x7, y7) = choose|x: int, y: int|
                            0 <= x < self.width && 0 <= y < self.height && #[trigger] self.opaque(
                                x,
                                y,
                            ) && y == ay;
                        assert(self.opaque(x7, y7));
                        let (x8, y8) = choose|x: int, y: int|
                            0 <= x < self.width && 0 <= y < self.height && #[trigger] self.opaque(
                                x,
                                y,
                            ) && y == by;
                        assert(self.opaque(x8, y8));
                    }
                }
                Ok(img)
            },
        }
    }
}

} // verus!
