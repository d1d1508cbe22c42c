//! Decoded RGB images held as plain values, and the resampling and colour
//! conversions that the `image` crate performs on them.

use vstd::prelude::*;

verus! {

/// An 8-bit RGB image: `data` holds `width * height` pixels in row-major order,
/// three channel values each.
#[derive(Debug, Clone)]
pub struct RgbRaster {
    pub width: u32,
    pub height: u32,
    pub data: Vec<u8>,
}

/// Index of channel `c` of pixel `(x, y)` in the row-major RGB buffer of an image `width` wide.
pub open spec fn rgb_index(width: nat, x: nat, y: nat, c: nat) -> nat {
    (y * width + x) * 3 + c
}

impl RgbRaster {
    /// The buffer holds exactly three values per pixel.
    pub open spec fn wf(&self) -> bool {
        self.data@.len() == self.width as nat * self.height as nat * 3
    }

    /// Value of channel `c` of pixel `(x, y)`.
    pub open spec fn at(&self, x: nat, y: nat, c: nat) -> u8 {
        self.data@[rgb_index(self.width as nat, x, y, c) as int]
    }

    /// Wraps a raw buffer, provided it holds exactly `width * height` RGB pixels.
    pub fn from_raw(width: u32, height: u32, data: Vec<u8>) -> (r: Option<RgbRaster>)
        ensures
            r is Some <==> data@.len() == width as nat * height as nat * 3,
            r matches Some(img) ==> img.wf() && img.width == width && img.height == height
                && img.data@ == data@,
    {
        let n = data.len() as u128;
        proof {
            assert(width as nat * height as nat <= 0xffff_ffff * 0xffff_ffff) by (nonlinear_arith)
                requires
                    width <= 0xffff_ffff,
                    height <= 0xffff_ffff,
            ;
        }
        if n == width as u128 * height as u128 * 3 {
            Some(RgbRaster { width, height, data })
        } else {
            None
        }
    }

    /// An image of the given size whose every pixel is `(r, g, b)`.
    pub fn filled(width: u32, height: u32, r: u8, g: u8, b: u8) -> (img: RgbRaster)
        requires
            width as nat * height as nat * 3 <= usize::MAX,
        ensures
            img.wf(),
            img.width == width,
            img.height == height,
            forall|i: int|
                0 <= i < img.data@.len() ==> #[trigger] img.data@[i] == (if i % 3 == 0 {
                    r
                } else if i % 3 == 1 {
                    g
                } else {
                    b
                }),
    {
        let n: usize = (width as usize) * (height as usize);
        let mut data: Vec<u8> = Vec::new();
        let mut k: usize = 0;
        while k < n
            invariant
                n == width as nat * height as nat,
                n * 3 <= usize::MAX,
                k <= n,
                data@.len() == k * 3,
                forall|i: int|
                    0 <= i < data@.len() ==> #[trigger] data@[i] == (if i % 3 == 0 {
                        r
                    } else if i % 3 == 1 {
                        g
                    } else {
                        b
                    }),
            decreases n - k,
        {
            data.push(r);
            data.push(g);
            data.push(b);
            k = k + 1;
        }
        RgbRaster { width, height, data }
    }

    /// Sets pixel `(x, y)` to `(r, g, b)` and leaves every other value as it was.
    pub fn put_pixel(&mut self, x: u32, y: u32, r: u8, g: u8, b: u8)
        requires
            old(self).wf(),
            x < old(self).width,
            y < old(self).height,
        ensures
            final(self).wf(),
            final(self).width == old(self).width,
            final(self).height == old(self).height,
            final(self).data@ == old(self).data@.update(
                rgb_index(old(self).width as nat, x as nat, y as nat, 0) as int,
                r,
            ).update(rgb_index(old(self).width as nat, x as nat, y as nat, 1) as int, g).update(
                rgb_index(old(self).width as nat, x as nat, y as nat, 2) as int,
                b,
            ),
    {
        let len = self.data.len();
        proof {
            assert(((y as nat * self.width as nat + x as nat) * 3 + 2) < self.width as nat
                * self.height as nat * 3) by (nonlinear_arith)
                requires
                    x < self.width,
                    y < self.height,
            ;
            assert(y as nat * self.width as nat <= (y as nat * self.width as nat + x as nat) * 3)
                by (nonlinear_arith);
        }
        let base: usize = ((y as usize) * (self.width as usize) + (x as usize)) * 3;
        self.data.set(base, r);
        self.data.set(base + 1, g);
        self.data.set(base + 2, b);
    }
}

/// Pixels of an RGB image resampled with a triangle filter to `nwidth` by `nheight`.
pub uninterp spec fn triangle_resized(
    data: Seq<u8>,
    width: nat,
    height: nat,
    nwidth: nat,
    nheight: nat,
) -> Seq<u8>;

/// Pixels of an RGB image scaled to `nwidth` by `nheight` with the fast integer
/// thumbnail algorithm.
pub uninterp spec fn thumbnail_pixels(
    data: Seq<u8>,
    width: nat,
    height: nat,
    nwidth: nat,
    nheight: nat,
) -> Seq<u8>;

/// Luminance samples of RGB pixel data, one per pixel.
pub uninterp spec fn luma_of(data: Seq<u8>) -> Seq<u8>;

/// Relies on `image::imageops::resize` with `FilterType::Triangle`: it returns an image
/// of exactly `nwidth` by `nheight` pixels, computed from the source pixels alone.
#[verifier::external_body]
pub(crate) fn resize_triangle(img: &RgbRaster, nwidth: u32, nheight: u32) -> (r: RgbRaster)
    requires
        img.wf(),
        nwidth > 0,
        nheight > 0,
        nwidth as nat * nheight as nat * 3 <= usize::MAX,
    ensures
        r.wf(),
        r.width == nwidth,
        r.height == nheight,
        r.data@ == triangle_resized(
            img.data@,
            img.width as nat,
            img.height as nat,
            nwidth as nat,
            nheight as nat,
        ),
{
    let src = image::RgbImage::from_raw(img.width, img.height, img.data.clone()).unwrap();
    let out = image::imageops::resize(&src, nwidth, nheight, image::imageops::FilterType::Triangle);
    RgbRaster { width: nwidth, height: nheight, data: out.into_raw() }
}

/// Relies on `image::imageops::thumbnail`: it returns an image of exactly `nwidth` by
/// `nheight` pixels, computed from the source pixels alone.
#[verifier::external_body]
pub(crate) fn thumbnail_exact(img: &RgbRaster, nwidth: u32, nheight: u32) -> (r: RgbRaster)
    requires
        img.wf(),
        nwidth > 0,
        nheight > 0,
        nwidth as nat * nheight as nat * 3 <= usize::MAX,
    ensures
        r.wf(),
        r.width == nwidth,
        r.height == nheight,
        r.data@ == thumbnail_pixels(
            img.data@,
            img.width as nat,
            img.height as nat,
            nwidth as nat,
            nheight as nat,
        ),
{
    let src = image::RgbImage::from_raw(img.width, img.height, img.data.clone()).unwrap();
    let out = image::imageops::thumbnail(&src, nwidth, nheight);
    RgbRaster { width: nwidth, height: nheight, data: out.into_raw() }
}

/// Relies on `image::DynamicImage::to_luma8`: one luminance sample per pixel, computed
/// from the pixel data alone.
#[verifier::external_body]
pub(crate) fn luma8(img: &RgbRaster) -> (r: Vec<u8>)
    requires
        img.wf(),
    ensures
        r@.len() == img.width as nat * img.height as nat,
        r@ == luma_of(img.data@),
{
    let src = image::RgbImage::from_raw(img.width, img.height, img.data.clone()).unwrap();
    image::DynamicImage::ImageRgb8(src).to_luma8().into_raw()
}

} // verus!
