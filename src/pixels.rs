//! RGBA pixel buffers, row-major, four bytes per pixel.
use image::GenericImage;
use vstd::prelude::*;

verus! {

/// Byte `c` of pixel `(x, y)` in a row-major RGBA buffer `width` pixels wide.
pub open spec fn px_at(bytes: Seq<u8>, width: int, x: int, y: int, c: int) -> u8 {
    bytes[(y * width + x) * 4 + c]
}

pub open spec fn in_image(width: int, height: int, x: int, y: int, c: int) -> bool {
    0 <= x < width && 0 <= y < height && 0 <= c < 4
}

pub proof fn lemma_px_index_bounds(width: int, height: int, x: int, y: int, c: int)
    requires
        in_image(width, height, x, y, c),
    ensures
        0 <= (y * width + x) * 4 + c < width * height * 4,
{
    assert(0 <= (y * width + x) * 4 + c < width * height * 4) by (nonlinear_arith)
        requires 0 <= x < width, 0 <= y < height, 0 <= c < 4;
}

/// An RGBA image held as plain bytes.
#[derive(Clone, Debug)]
pub struct RgbaBuffer {
    width: u32,
    height: u32,
    pixels: Vec<u8>,
}

impl RgbaBuffer {
    pub closed spec fn spec_width(&self) -> int {
        self.width as int
    }

    pub closed spec fn spec_height(&self) -> int {
        self.height as int
    }

    pub closed spec fn bytes(&self) -> Seq<u8> {
        self.pixels@
    }

    pub closed spec fn wf(&self) -> bool {
        &&& self.pixels@.len() == self.width as int * self.height as int * 4
        &&& self.width as int * self.height as int * 4 <= usize::MAX
    }

    pub proof fn lemma_len(&self)
        requires
            self.wf(),
        ensures
            self.bytes().len() == self.spec_width() * self.spec_height() * 4,
            self.spec_width() * self.spec_height() * 4 <= usize::MAX,
            0 <= self.spec_width() <= u32::MAX,
            0 <= self.spec_height() <= u32::MAX,
    {
    }

    /// Wraps `pixels` as a `width` x `height` image; `None` unless it holds
    /// exactly four bytes per pixel.
    pub fn from_raw(width: u32, height: u32, pixels: Vec<u8>) -> (r: Option<RgbaBuffer>)
        ensures
            r is Some <==> pixels@.len() == width as int * height as int * 4,
            r matches Some(b) ==> b.wf() && b.spec_width() == width && b.spec_height() == height
                && b.bytes() == pixels@,
    {
        let n = pixels.len() as u64;
        let w = width as u64;
        let h = height as u64;
        assert(w * h <= 0xffff_ffffu64 * 0xffff_ffffu64) by (nonlinear_arith)
            requires w <= 0xffff_ffff, h <= 0xffff_ffff;
        let wh = w * h;
        if n % 4 == 0 && n / 4 == wh {
            Some(RgbaBuffer { width, height, pixels })
        } else {
            None
        }
    }

    pub(crate) fn from_parts(width: u32, height: u32, pixels: Vec<u8>) -> (r: RgbaBuffer)
        requires
            pixels@.len() == width as int * height as int * 4,
            width as int * height as int * 4 <= usize::MAX,
        ensures
            r.wf(),
            r.spec_width() == width,
            r.spec_height() == height,
            r.bytes() == pixels@,
    {
        RgbaBuffer { width, height, pixels }
    }

    pub fn width(&self) -> (r: u32)
        ensures
            r == self.spec_width(),
    {
        self.width
    }

    pub fn height(&self) -> (r: u32)
        ensures
            r == self.spec_height(),
    {
        self.height
    }

    pub fn pixels(&self) -> (r: &Vec<u8>)
        ensures
            r@ == self.bytes(),
    {
        &self.pixels
    }

    pub fn into_pixels(self) -> (r: Vec<u8>)
        ensures
            r@ == self.bytes(),
    {
        self.pixels
    }

    /// Byte `c` (0 red .. 3 alpha) of pixel `(x, y)`.
    pub fn channel(&self, x: u32, y: u32, c: u32) -> (r: u8)
        requires
            self.wf(),
            in_image(self.spec_width(), self.spec_height(), x as int, y as int, c as int),
        ensures
            r == px_at(self.bytes(), self.spec_width(), x as int, y as int, c as int),
    {
        proof {
            lemma_px_index_bounds(self.width as int, self.height as int, x as int, y as int, c as int);
            assert((y as int * self.width as int + x as int) * 4 + c as int >= y as int * self.width as int) by (nonlinear_arith)
                requires 0 <= x, 0 <= c, 0 <= y as int * self.width as int;
            assert(0 <= y as int * self.width as int) by (nonlinear_arith);
            assert(y as int * self.width as int + x as int <= (y as int * self.width as int + x as int) * 4) by (nonlinear_arith)
                requires 0 <= y as int * self.width as int + x as int;
        }
        self.pixels[(y as usize * self.width as usize + x as usize) * 4 + c as usize]
    }
}

/// Relies on image's `ImageBuffer::from_pixel`: a `width` x `height` RGBA
/// buffer with every pixel equal to `pixel`.
#[verifier::external_body]
pub(crate) fn filled_pixels(width: u32, height: u32, pixel: [u8; 4]) -> (r: Vec<u8>)
    requires
        width as int * height as int * 4 <= usize::MAX,
        width as int * 4 <= usize::MAX,
    ensures
        r@.len() == width as int * height as int * 4,
        forall|x: int, y: int, c: int|
            in_image(width as int, height as int, x, y, c) ==> #[trigger] px_at(r@, width as int, x, y, c)
                == pixel@[c],
{
    image::RgbaImage::from_pixel(width, height, image::Rgba(pixel)).into_raw()
}

/// Relies on image's `imageops::crop_imm` and `GenericImage::copy_from`: the
/// `size` x `size` block of `src` at `(sx, sy)` is written into `dst` at
/// `(dx, dy)`; every other pixel of `dst` is kept.
#[verifier::external_body]
pub(crate) fn copy_block(
    dst: &mut Vec<u8>,
    dst_w: u32,
    dst_h: u32,
    src: &Vec<u8>,
    src_w: u32,
    src_h: u32,
    sx: u32,
    sy: u32,
    size: u32,
    dx: u32,
    dy: u32,
)
    requires
        old(dst)@.len() == dst_w as int * dst_h as int * 4,
        src@.len() == src_w as int * src_h as int * 4,
        src_w as int * 4 <= usize::MAX,
        dst_w as int * 4 <= usize::MAX,
        sx as int + size as int <= src_w,
        sy as int + size as int <= src_h,
        dx as int + size as int <= dst_w,
        dy as int + size as int <= dst_h,
    ensures
        final(dst)@.len() == old(dst)@.len(),
        forall|x: int, y: int, c: int|
            in_image(dst_w as int, dst_h as int, x, y, c) ==> #[trigger] px_at(final(dst)@, dst_w as int, x, y, c)
                == if dx <= x < dx + size && dy <= y < dy + size {
                px_at(src@, src_w as int, sx + (x - dx), sy + (y - dy), c)
            } else {
                px_at(old(dst)@, dst_w as int, x, y, c)
            },
{
    let src_img = image::ImageBuffer::<image::Rgba<u8>, &[u8]>::from_raw(src_w, src_h, src.as_slice()).unwrap();
    let mut out = image::RgbaImage::from_raw(dst_w, dst_h, std::mem::take(dst)).unwrap();
    let _ = out.copy_from(&*image::imageops::crop_imm(&src_img, sx, sy, size, size), dx, dy);
    *dst = out.into_raw();
}

} // verus!
