//! Turning an image into a fixed-size tensor: fit inside the target box keeping the
//! aspect ratio, center on a gray canvas, and lay the values out channel-first or
//! channel-last. Values stay 8-bit here; per-channel normalization is applied to
//! them by the caller.

use vstd::prelude::*;

use crate::raster::{rgb_index, thumbnail_exact, thumbnail_pixels, RgbRaster};

verus! {

/// Value of every channel of the canvas outside the pasted image.
pub const PAD_VALUE: u8 = 128;

/// `num / den` rounded to the nearest integer, halves up.
pub open spec fn round_div(num: nat, den: nat) -> nat {
    (2 * num + den) / (2 * den)
}

pub open spec fn at_least_one(x: nat) -> nat {
    if x == 0 {
        1
    } else {
        x
    }
}

/// Size of a `sw` by `sh` image scaled by `s = min(tw / sw, th / sh)` with each side
/// rounded (and kept at least 1): it fits inside the `tw` by `th` box. An empty
/// image or box gives an empty size.
pub open spec fn fit_dims(sw: nat, sh: nat, tw: nat, th: nat) -> (nat, nat) {
    if sw == 0 || sh == 0 || tw == 0 || th == 0 {
        (0, 0)
    } else if tw * sh <= th * sw {
        (tw, at_least_one(round_div(sh * tw, sw)))
    } else {
        (at_least_one(round_div(sw * th, sh)), th)
    }
}

proof fn lemma_round_div_le(num: nat, den: nat, bound: nat)
    requires
        den > 0,
        num <= bound * den,
    ensures
        round_div(num, den) <= bound,
{
    assert(2 * num + den <= bound * (2 * den) + den) by (nonlinear_arith)
        requires
            num <= bound * den,
    ;
    vstd::arithmetic::div_mod::lemma_div_is_ordered(
        (2 * num + den) as int,
        (bound * (2 * den) + den) as int,
        (2 * den) as int,
    );
    vstd::arithmetic::div_mod::lemma_fundamental_div_mod_converse(
        (bound * (2 * den) + den) as int,
        (2 * den) as int,
        bound as int,
        den as int,
    );
}

/// The size an image takes inside the target box: see `fit_dims`.
pub fn fit_dimensions(sw: u32, sh: u32, tw: u32, th: u32) -> (r: (u32, u32))
    ensures
        (r.0 as nat, r.1 as nat) == fit_dims(sw as nat, sh as nat, tw as nat, th as nat),
        r.0 <= tw,
        r.1 <= th,
{
    if sw == 0 || sh == 0 || tw == 0 || th == 0 {
        return (0, 0);
    }
    let (sw_, sh_, tw_, th_) = (sw as u128, sh as u128, tw as u128, th as u128);
    proof {
        assert(tw_ * sh_ <= 0xffff_ffff * 0xffff_ffffu128 && sh_ * tw_ == tw_ * sh_)
            by (nonlinear_arith)
            requires
                tw_ <= 0xffff_ffff,
                sh_ <= 0xffff_ffff,
        ;
        assert(th_ * sw_ <= 0xffff_ffff * 0xffff_ffffu128 && sw_ * th_ == th_ * sw_)
            by (nonlinear_arith)
            requires
                th_ <= 0xffff_ffff,
                sw_ <= 0xffff_ffff,
        ;
    }
    if tw_ * sh_ <= th_ * sw_ {
        proof {
            lemma_round_div_le((sh * tw) as nat, sw as nat, th as nat);
        }
        let h = (2 * (sh_ * tw_) + sw_) / (2 * sw_);
        let h = if h == 0 {
            1
        } else {
            h
        };
        (tw, h as u32)
    } else {
        proof {
            lemma_round_div_le((sw * th) as nat, sh as nat, tw as nat);
        }
        let w = (2 * (sw_ * th_) + sh_) / (2 * sh_);
        let w = if w == 0 {
            1
        } else {
            w
        };
        (w as u32, th)
    }
}

/// Channel `c` of canvas pixel `(x, y)`: the scaled image centered on a `tw` by `th`
/// gray canvas, with the odd pixel of padding on the right and bottom.
pub open spec fn canvas_value(
    thumb: Seq<u8>,
    nw: nat,
    nh: nat,
    tw: nat,
    th: nat,
    x: nat,
    y: nat,
    c: nat,
) -> u8 {
    let left = (tw - nw) / 2;
    let top = (th - nh) / 2;
    if left <= x < left + nw && top <= y < top + nh {
        thumb[rgb_index(nw, (x - left) as nat, (y - top) as nat, c) as int]
    } else {
        PAD_VALUE
    }
}

/// Channel `c` of pixel `(x, y)` when `image` is fitted into a `tw` by `th` canvas.
pub open spec fn padded_value(image: RgbRaster, tw: nat, th: nat, x: nat, y: nat, c: nat) -> u8 {
    let (nw, nh) = fit_dims(image.width as nat, image.height as nat, tw, th);
    canvas_value(
        thumbnail_pixels(image.data@, image.width as nat, image.height as nat, nw, nh),
        nw,
        nh,
        tw,
        th,
        x,
        y,
        c,
    )
}

/// Element `i` of an `h` by `w` tensor of one image in the given layout: channel-last
/// data runs `[y][x][c]`, channel-first data runs `[c][y][x]`.
pub open spec fn tensor_value(image: RgbRaster, h: nat, w: nat, channels_last: bool, i: nat) -> u8 {
    if channels_last {
        padded_value(image, w, h, (i / 3) % w, i / (3 * w), i % 3)
    } else {
        padded_value(image, w, h, i % w, (i / w) % h, i / (h * w))
    }
}

/// The shape of a batch of `n` images in the given layout.
pub open spec fn batch_shape(n: nat, h: nat, w: nat, channels_last: bool) -> Seq<usize> {
    if channels_last {
        seq![n as usize, h as usize, w as usize, 3usize]
    } else {
        seq![n as usize, 3usize, h as usize, w as usize]
    }
}

/// A batch of images as 8-bit values with its shape (batch first).
#[derive(Debug, Clone)]
pub struct PixelTensor {
    pub shape: Vec<usize>,
    pub data: Vec<u8>,
}

/// Why a batch could not be built.
#[derive(Debug, Clone, Copy, PartialEq, Eq, Structural)]
pub enum BatchError {
    /// The batch holds no image.
    Empty,
}

/// Target size and channel layout of the tensors that a model takes.
#[derive(Debug, Clone, Copy, PartialEq, Eq, Structural)]
pub struct TensorLayout {
    pub height: u32,
    pub width: u32,
    /// `[N, H, W, C]` when set, `[N, C, H, W]` otherwise.
    pub channels_last: bool,
}

/// Channel `c` of canvas pixel `(x, y)` with the scaled image `thumb` centered on a
/// `tw` by `th` gray canvas. Pasting an opaque RGB image copies its pixels over the
/// canvas, so a pixel inside the pasted region is the image's own.
fn canvas_at(thumb: &RgbRaster, tw: u32, th: u32, x: usize, y: usize, c: usize) -> (v: u8)
    requires
        thumb.wf(),
        thumb.width <= tw,
        thumb.height <= th,
        x < tw,
        y < th,
        c < 3,
    ensures
        v == canvas_value(
            thumb.data@,
            thumb.width as nat,
            thumb.height as nat,
            tw as nat,
            th as nat,
            x as nat,
            y as nat,
            c as nat,
        ),
{
    let left = ((tw - thumb.width) / 2) as usize;
    let top = ((th - thumb.height) / 2) as usize;
    let nw = thumb.width as usize;
    let nh = thumb.height as usize;
    let len = thumb.data.len();
    if left <= x && x < left + nw && top <= y && y < top + nh {
        let (dx, dy) = (x - left, y - top);
        proof {
            assert((dy * nw + dx) * 3 + c < nw * nh * 3) by (nonlinear_arith)
                requires
                    dx < nw,
                    dy < nh,
                    c < 3,
            ;
            assert(dy * nw <= (dy * nw + dx) * 3) by (nonlinear_arith);
        }
        thumb.data[(dy * nw + dx) * 3 + c]
    } else {
        PAD_VALUE
    }
}

impl TensorLayout {
    pub fn new(height: u32, width: u32, channels_last: bool) -> (r: TensorLayout)
        ensures
            r == (TensorLayout { height, width, channels_last }),
    {
        TensorLayout { height, width, channels_last }
    }

    /// Number of values in the tensor of one image.
    pub open spec fn image_len(&self) -> nat {
        self.height as nat * self.width as nat * 3
    }

    /// The values of one image, fitted, centered on the gray canvas and laid out.
    fn image_values(&self, image: &RgbRaster) -> (data: Vec<u8>)
        requires
            image.wf(),
            self.image_len() <= usize::MAX,
        ensures
            data@.len() == self.image_len(),
            forall|i: int|
                0 <= i < data@.len() ==> #[trigger] data@[i] == tensor_value(
                    *image,
                    self.height as nat,
                    self.width as nat,
                    self.channels_last,
                    i as nat,
                ),
    {
        let (nw, nh) = fit_dimensions(image.width, image.height, self.width, self.height);
        proof {
            assert(nw as nat * nh as nat * 3 <= self.image_len()) by (nonlinear_arith)
                requires
                    nw <= self.width,
                    nh <= self.height,
            ;
        }
        let thumb = if nw == 0 || nh == 0 {
            RgbRaster { width: nw, height: nh, data: Vec::new() }
        } else {
            thumbnail_exact(image, nw, nh)
        };
        assert(nw == 0 || nh == 0 ==> nw as nat * nh as nat == 0) by (nonlinear_arith);
        let h = self.height as usize;
        let w = self.width as usize;
        let n = h * w * 3;
        let mut data: Vec<u8> = Vec::new();
        let mut i: usize = 0;
        while i < n
            invariant
                thumb.wf(),
                thumb.width == nw,
                thumb.height == nh,
                nw <= self.width,
                nh <= self.height,
                (nw as nat, nh as nat) == fit_dims(
                    image.width as nat,
                    image.height as nat,
                    self.width as nat,
                    self.height as nat,
                ),
                nw > 0 && nh > 0 ==> thumb.data@ == thumbnail_pixels(
                    image.data@,
                    image.width as nat,
                    image.height as nat,
                    nw as nat,
                    nh as nat,
                ),
                h == self.height,
                w == self.width,
                n == h * w * 3,
                i <= n,
                data@.len() == i,
                forall|j: int|
                    0 <= j < i ==> #[trigger] data@[j] == tensor_value(
                        *image,
                        self.height as nat,
                        self.width as nat,
                        self.channels_last,
                        j as nat,
                    ),
            decreases n - i,
        {
            proof {
                assert(w > 0 && h > 0 && 3 * w <= n && h * w <= n) by (nonlinear_arith)
                    requires
                        i < n,
                        n == h * w * 3,
                ;
            }
            let (x, y, c) = if self.channels_last {
                ((i / 3) % w, i / (3 * w), i % 3)
            } else {
                (i % w, (i / w) % h, i / (h * w))
            };
            proof {
                assert(n == h * (3 * w) && n == 3 * (h * w)) by (nonlinear_arith)
                    requires
                        n == h * w * 3,
                ;
                vstd::arithmetic::div_mod::lemma_div_by_multiple_is_strongly_ordered(
                    i as int,
                    n as int,
                    h as int,
                    (3 * w) as int,
                );
                vstd::arithmetic::div_mod::lemma_div_by_multiple(h as int, (3 * w) as int);
                vstd::arithmetic::div_mod::lemma_div_by_multiple_is_strongly_ordered(
                    i as int,
                    n as int,
                    3,
                    (h * w) as int,
                );
                vstd::arithmetic::div_mod::lemma_div_by_multiple(3, (h * w) as int);
                if nw == 0 || nh == 0 {
                    assert(canvas_value(thumb.data@, nw as nat, nh as nat, w as nat, h as nat, x as nat, y as nat, c as nat)
                        == PAD_VALUE);
                }
            }
            let v = canvas_at(&thumb, self.width, self.height, x, y, c);
            data.push(v);
            i = i + 1;
        }
        data
    }

    /// The tensor of one image, of shape `[1, 3, H, W]` or `[1, H, W, 3]`.
    pub fn process(&self, image: &RgbRaster) -> (r: PixelTensor)
        requires
            image.wf(),
            self.image_len() <= usize::MAX,
        ensures
            r.shape@ == batch_shape(1, self.height as nat, self.width as nat, self.channels_last),
            r.data@.len() == self.image_len(),
            forall|i: int|
                0 <= i < r.data@.len() ==> #[trigger] r.data@[i] == tensor_value(
                    *image,
                    self.height as nat,
                    self.width as nat,
                    self.channels_last,
                    i as nat,
                ),
    {
        let data = self.image_values(image);
        let shape = if self.channels_last {
            vec![1, self.height as usize, self.width as usize, 3]
        } else {
            vec![1, 3, self.height as usize, self.width as usize]
        };
        PixelTensor { shape, data }
    }

    /// The tensors of several images, concatenated along the batch axis: image `b`
    /// occupies values `b * L .. (b + 1) * L`, where `L` is the size of one image.
    /// There is nothing to concatenate in an empty batch, which is an error.
    pub fn process_batch(&self, images: &Vec<RgbRaster>) -> (res: Result<PixelTensor, BatchError>)
        requires
            forall|b: int| 0 <= b < images@.len() ==> (#[trigger] images@[b]).wf(),
            self.image_len() * images@.len() <= usize::MAX,
        ensures
            res is Err <==> images@.len() == 0,
            res is Err ==> res == Err::<PixelTensor, BatchError>(BatchError::Empty),
            res matches Ok(r) ==> r.shape@ == batch_shape(
                images@.len(),
                self.height as nat,
                self.width as nat,
                self.channels_last,
            ),
            res matches Ok(r) ==> r.data@.len() == self.image_len() * images@.len(),
            res matches Ok(r) ==> forall|b: int, i: int|
                0 <= b < images@.len() && 0 <= i < self.image_len() ==> r.data@[b * self.image_len()
                    + i] == #[trigger] tensor_value(
                    images@[b],
                    self.height as nat,
                    self.width as nat,
                    self.channels_last,
                    i as nat,
                ),
    {
        if images.len() == 0 {
            return Err(BatchError::Empty);
        }
        let ghost len = self.image_len();
        let mut data: Vec<u8> = Vec::new();
        let mut b: usize = 0;
        while b < images.len()
            invariant
                len == self.image_len(),
                len * images@.len() <= usize::MAX,
                forall|q: int| 0 <= q < images@.len() ==> (#[trigger] images@[q]).wf(),
                b <= images@.len(),
                data@.len() == len * b,
                forall|q: int, i: int|
                    0 <= q < b && 0 <= i < len ==> data@[q * len + i] == #[trigger] tensor_value(
                        images@[q],
                        self.height as nat,
                        self.width as nat,
                        self.channels_last,
                        i as nat,
                    ),
            decreases images@.len() - b,
        {
            proof {
                assert(len <= len * images@.len()) by (nonlinear_arith)
                    requires
                        b < images@.len(),
                ;
            }
            let mut one = self.image_values(&images[b]);
            let ghost prev = data@;
            let ghost add = one@;
            data.append(&mut one);
            proof {
                assert(len * b + len == len * (b + 1)) by (nonlinear_arith);
                assert forall|q: int, i: int|
                    0 <= q < b + 1 && 0 <= i < len implies data@[q * len + i] == #[trigger] tensor_value(
                    images@[q],
                    self.height as nat,
                    self.width as nat,
                    self.channels_last,
                    i as nat,
                ) by {
                    if q < b {
                        assert(q * len + i < len * b) by (nonlinear_arith)
                            requires
                                q < b,
                                i < len,
                        ;
                        assert(data@[q * len + i] == prev[q * len + i]);
                    } else {
                        assert(q * len == len * b) by (nonlinear_arith)
                            requires
                                q == b,
                        ;
                        assert(data@[q * len + i] == add[i]);
                    }
                }
                assert(len * (b + 1) <= len * images@.len()) by (nonlinear_arith)
                    requires
                        b < images@.len(),
                ;
            }
            b = b + 1;
        }
        let shape = if self.channels_last {
            vec![images.len(), self.height as usize, self.width as usize, 3]
        } else {
            vec![images.len(), 3, self.height as usize, self.width as usize]
        };
        proof {
            assert(len * images@.len() == self.image_len() * images@.len());
        }
        Ok(PixelTensor { shape, data })
    }
}

/// Pixels in the padding band (outside the fitted image) hold the gray value on
/// every channel, before normalization.
pub proof fn padding_band_is_gray(image: RgbRaster, tw: nat, th: nat, x: nat, y: nat, c: nat)
    requires
        x < tw,
        y < th,
        ({
            let (nw, nh) = fit_dims(image.width as nat, image.height as nat, tw, th);
            x < (tw - nw) / 2 || x >= (tw - nw) / 2 + nw || y < (th - nh) / 2 || y >= (th - nh)
                / 2 + nh
        }),
    ensures
        padded_value(image, tw, th, x, y, c) == PAD_VALUE,
{
}

} // verus!
