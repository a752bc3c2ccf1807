//! Frames on their way to an encoder: dimensions checked against the bytes.

use vstd::prelude::*;
use crate::vector::Vec4;
use crate::fixed::lemma_mul_bounded;
use crate::rasterizer::{Rasterizer, frame_bytes, lemma_products_fit};

verus! {

/// An image of 8-bit RGBA pixels, row by row from the top.
#[derive(Debug)]
pub struct RgbaImage {
    pub width: u32,
    pub height: u32,
    pub data: Vec<u8>,
}

impl RgbaImage {
    /// The image holds four bytes for each of its pixels.
    pub open spec fn wf(&self) -> bool {
        self.data@.len() == 4 * (self.width * self.height)
    }
}

fn copy_bytes(data: &[u8]) -> (r: Vec<u8>)
    ensures
        r@ == data@,
{
    let n: usize = data.len();
    let mut out: Vec<u8> = Vec::new();
    let mut i: usize = 0;
    while i < n
        invariant
            i <= n,
            n == data@.len(),
            out@ == data@.take(i as int),
        decreases n - i,
    {
        out.push(data[i]);
        assert(out@ =~= data@.take(i + 1));
        i = i + 1;
    }
    assert(data@.take(n as int) =~= data@);
    out
}

/// The image of `width` × `height` pixels that `data` holds; none unless
/// `data` has exactly four bytes per pixel.
pub fn save_image_from_u8array(data: &[u8], width: u32, height: u32) -> (r: Option<RgbaImage>)
    ensures
        r.is_some() == (data@.len() == 4 * (width * height)),
        r.is_some() ==> r.unwrap().wf() && r.unwrap().width == width && r.unwrap().height
            == height && r.unwrap().data@ == data@,
{
    proof {
        lemma_mul_bounded(width as int, height as int, 0x1_0000_0000, 0x1_0000_0000);
    }
    let n: u128 = 4 * ((width as u128) * (height as u128));
    if (data.len() as u128) == n {
        Some(RgbaImage { width, height, data: copy_bytes(data) })
    } else {
        None
    }
}

/// A frame of `n` pixels has `4 n` bytes.
pub proof fn lemma_frame_bytes_len(frame: Seq<Vec4>)
    ensures
        frame_bytes(frame).len() == 4 * frame.len(),
    decreases frame.len(),
{
    if frame.len() > 0 {
        lemma_frame_bytes_len(frame.drop_last());
    }
}

/// The visible frame of a rasterizer as an image.
pub fn save_image(texture: &Rasterizer) -> (r: RgbaImage)
    requires
        texture.wf(),
    ensures
        r.wf(),
        r.width == texture.spec_width(),
        r.height == texture.spec_height(),
        r.data@ == frame_bytes(texture.frame()),
{
    proof {
        lemma_products_fit(
            texture.spec_width(),
            texture.spec_height(),
            texture.spec_antialiasing(),
        );
        lemma_frame_bytes_len(texture.frame());
    }
    let data = texture.dump_u8norm();
    RgbaImage { width: texture.width() as u32, height: texture.height() as u32, data }
}

} // verus!
