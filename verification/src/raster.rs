//! Pixel buffer types: interleaved RGBA and RGB images and the
//! single-channel probability mask. All buffers are row-major with the
//! origin at the top-left corner.

use vstd::prelude::*;

verus! {

/// Channel `c` (0 = R, 1 = G, 2 = B, 3 = A) of pixel `i` of an
/// interleaved RGBA buffer.
pub open spec fn rgba_chan(data: Seq<u8>, i: int, c: int) -> u8 {
    data[4 * i + c]
}

/// Channel `c` (0 = R, 1 = G, 2 = B) of pixel `i` of an interleaved
/// RGB buffer.
pub open spec fn rgb_chan(data: Seq<u8>, i: int, c: int) -> u8 {
    data[3 * i + c]
}

/// An 8-bit RGBA image.
#[derive(Debug)]
pub struct RgbaImage {
    pub width: u32,
    pub height: u32,
    /// Interleaved RGBA samples; length is `4 * width * height`.
    pub data: Vec<u8>,
}

impl RgbaImage {
    /// Number of pixels.
    pub open spec fn npix(&self) -> int {
        (self.width as int) * (self.height as int)
    }

    /// The buffer length matches the dimensions.
    pub open spec fn wf(&self) -> bool {
        self.data@.len() == 4 * self.npix()
    }

    /// Wraps an interleaved RGBA buffer, refusing a length that does not
    /// match the dimensions.
    pub fn from_raw(width: u32, height: u32, data: Vec<u8>) -> (r: Option<RgbaImage>)
        ensures
            match r {
                Some(img) => img.wf() && img.width == width && img.height == height
                    && img.data@ == data@,
                None => data@.len() != 4 * ((width as int) * (height as int)),
            },
    {
        proof {
            vstd::arithmetic::mul::lemma_mul_nonnegative(width as int, height as int);
        }
        let n = data.len();
        match (width as usize).checked_mul(height as usize) {
            None => None,
            Some(np) => match np.checked_mul(4) {
                None => None,
                Some(bytes) => {
                    if n == bytes {
                        Some(RgbaImage { width, height, data })
                    } else {
                        None
                    }
                },
            },
        }
    }
}

/// An 8-bit RGB image.
#[derive(Debug)]
pub struct RgbImage {
    pub width: u32,
    pub height: u32,
    /// Interleaved RGB samples; length is `3 * width * height`.
    pub data: Vec<u8>,
}

impl RgbImage {
    /// Number of pixels.
    pub open spec fn npix(&self) -> int {
        (self.width as int) * (self.height as int)
    }

    /// The buffer length matches the dimensions.
    pub open spec fn wf(&self) -> bool {
        self.data@.len() == 3 * self.npix()
    }
}

/// A single-channel 8-bit mask. Each value is a reconstructed foreground
/// probability scaled to 0-255, monotonic with the model's logit.
#[derive(Debug)]
pub struct Mask {
    pub width: u32,
    pub height: u32,
    /// One sample per pixel; length is `width * height`.
    pub data: Vec<u8>,
}

impl Mask {
    /// Number of pixels.
    pub open spec fn npix(&self) -> int {
        (self.width as int) * (self.height as int)
    }

    /// The buffer length matches the dimensions.
    pub open spec fn wf(&self) -> bool {
        self.data@.len() == self.npix()
    }

    /// Wraps a mask buffer, refusing a length that does not match the
    /// dimensions.
    pub fn from_raw(width: u32, height: u32, data: Vec<u8>) -> (r: Option<Mask>)
        ensures
            match r {
                Some(m) => m.wf() && m.width == width && m.height == height
                    && m.data@ == data@,
                None => data@.len() != (width as int) * (height as int),
            },
    {
        proof {
            vstd::arithmetic::mul::lemma_mul_nonnegative(width as int, height as int);
        }
        let n = data.len();
        match (width as usize).checked_mul(height as usize) {
            None => None,
            Some(np) => {
                if n == np {
                    Some(Mask { width, height, data })
                } else {
                    None
                }
            },
        }
    }
}

/// Expands a mask into a white RGBA image whose alpha channel is the mask
/// value: white where the mask is opaque, transparent where it is clear.
pub fn create_transparent_mask(mask: &Mask) -> (r: RgbaImage)
    requires
        mask.wf(),
    ensures
        r.wf(),
        r.width == mask.width,
        r.height == mask.height,
        forall|i: int| 0 <= i < mask.npix() ==> #[trigger] rgba_chan(r.data@, i, 0) == 255,
        forall|i: int| 0 <= i < mask.npix() ==> #[trigger] rgba_chan(r.data@, i, 1) == 255,
        forall|i: int| 0 <= i < mask.npix() ==> #[trigger] rgba_chan(r.data@, i, 2) == 255,
        forall|i: int| 0 <= i < mask.npix() ==> #[trigger] rgba_chan(r.data@, i, 3)
            == mask.data@[i],
{
    let npix = mask.data.len();
    let mut data: Vec<u8> = Vec::new();
    let mut i: usize = 0;
    while i < npix
        invariant
            mask.wf(),
            npix == mask.data@.len(),
            i <= npix,
            data@.len() == 4 * i,
            forall|j: int| 0 <= j < i ==> #[trigger] rgba_chan(data@, j, 0) == 255,
            forall|j: int| 0 <= j < i ==> #[trigger] rgba_chan(data@, j, 1) == 255,
            forall|j: int| 0 <= j < i ==> #[trigger] rgba_chan(data@, j, 2) == 255,
            forall|j: int| 0 <= j < i ==> #[trigger] rgba_chan(data@, j, 3)
                == mask.data@[j],
        decreases npix - i,
    {
        let ghost pre = data@;
        data.push(255);
        data.push(255);
        data.push(255);
        data.push(mask.data[i]);
        proof {
            assert(data@.len() == pre.len() + 4);
            assert forall|j: int| 0 <= j < i + 1 implies
                #[trigger] rgba_chan(data@, j, 0) == 255 by {
                if j < i {
                    assert(rgba_chan(pre, j, 0) == 255);
                }
            }
            assert forall|j: int| 0 <= j < i + 1 implies
                #[trigger] rgba_chan(data@, j, 1) == 255 by {
                if j < i {
                    assert(rgba_chan(pre, j, 1) == 255);
                }
            }
            assert forall|j: int| 0 <= j < i + 1 implies
                #[trigger] rgba_chan(data@, j, 2) == 255 by {
                if j < i {
                    assert(rgba_chan(pre, j, 2) == 255);
                }
            }
            assert forall|j: int| 0 <= j < i + 1 implies
                #[trigger] rgba_chan(data@, j, 3) == mask.data@[j] by {
                if j < i {
                    assert(rgba_chan(pre, j, 3) == mask.data@[j]);
                }
            }
        }
        i = i + 1;
    }
    RgbaImage { width: mask.width, height: mask.height, data }
}

} // verus!
