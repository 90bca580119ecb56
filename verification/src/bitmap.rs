use vstd::prelude::*;
use crate::image::{Frame, FrameView};
use crate::palette::Rgb;

verus! {

#[verifier::external_type_specification]
#[verifier::external_body]
pub struct ExImage(bmp::Image);

/// The width of a bitmap in pixels: what `bmp::Image::get_width` returns.
pub uninterp spec fn bitmap_width(image: bmp::Image) -> int;

/// The pixels of a bitmap by rows, the top row first: entry `x` of row `y`
/// is the red, green and blue of what `bmp::Image::get_pixel(x, y)`
/// returns. There are `get_height()` rows of `get_width()` pixels.
pub uninterp spec fn bitmap_rows(image: bmp::Image) -> Seq<Seq<(u8, u8, u8)>>;

/// The bytes of one row of a 24-bit bitmap file: three to a pixel, padded
/// to a multiple of four.
pub open spec fn row_bytes(width: int) -> int {
    (24 * width + 31) / 32 * 4
}

/// Whether a bitmap file of `width` by `height` pixels can say its own
/// size, which it holds in 32 bits: 54 bytes of headers and the rows.
pub open spec fn fits_bitmap(width: int, height: int) -> bool {
    54 + height * row_bytes(width) <= 0xFFFF_FFFF
}

/// The pixels of `frame` by rows, the top row first.
pub open spec fn frame_rows(frame: FrameView) -> Seq<Seq<(u8, u8, u8)>> {
    Seq::new(
        frame.height as nat,
        |y: int|
            Seq::new(
                frame.width as nat,
                |x: int|
                    (
                        frame.pixels[y * frame.width + x].r,
                        frame.pixels[y * frame.width + x].g,
                        frame.pixels[y * frame.width + x].b,
                    ),
            ),
    )
}

/// `bmp::Image::new`: a bitmap of `width` by `height` pixels, all black.
/// It computes the size of the file in 32 bits, which `requires` keeps
/// from overflowing.
#[verifier::external_body]
fn blank_bitmap(width: u32, height: u32) -> (r: bmp::Image)
    requires
        width <= 0xFFFF,
        height <= 0xFFFF,
        fits_bitmap(width as int, height as int),
    ensures
        bitmap_width(r) == width,
        bitmap_rows(r) == Seq::new(
            height as nat,
            |y: int| Seq::new(width as nat, |x: int| (0u8, 0u8, 0u8)),
        ),
{
    bmp::Image::new(width, height)
}

/// `bmp::Image::set_pixel`: the pixel at column `x` of row `y` becomes
/// `colour`; the width and every other pixel stay.
#[verifier::external_body]
fn set_bitmap_pixel(image: &mut bmp::Image, x: u32, y: u32, colour: Rgb)
    requires
        x < bitmap_width(*old(image)),
        y < bitmap_rows(*old(image)).len(),
    ensures
        bitmap_width(*final(image)) == bitmap_width(*old(image)),
        bitmap_rows(*final(image)) == bitmap_rows(*old(image)).update(
            y as int,
            bitmap_rows(*old(image))[y as int].update(x as int, (colour.r, colour.g, colour.b)),
        ),
{
    image.set_pixel(x, y, bmp::Pixel::new(colour.r, colour.g, colour.b));
}

/// Whether a bitmap file of `width` by `height` pixels can say its own
/// size.
pub fn bitmap_fits(width: u16, height: u16) -> (r: bool)
    ensures
        r == fits_bitmap(width as int, height as int),
{
    let row: u64 = (24 * (width as u64) + 31) / 32 * 4;
    assert(height * row <= 0xFFFF * 0x3_0000) by (nonlinear_arith)
        requires
            0 <= height <= 0xFFFF,
            0 <= row <= 0x3_0000,
    ;
    54 + (height as u64) * row <= 0xFFFF_FFFF
}

/// `frame` as a bitmap of the same size and the same pixels, or `None`
/// where a bitmap file of that size cannot say its own size.
pub fn to_bitmap(frame: &Frame) -> (r: Option<bmp::Image>)
    ensures
        fits_bitmap(frame@.width, frame@.height) ==> r.is_some() && bitmap_width(r.unwrap())
            == frame@.width && bitmap_rows(r.unwrap()) == frame_rows(frame@),
        !fits_bitmap(frame@.width, frame@.height) ==> r.is_none(),
{
    let width: u16 = frame.width();
    let height: u16 = frame.height();
    if !bitmap_fits(width, height) {
        return None;
    }
    let pixels = frame.pixels();
    let mut image = blank_bitmap(width as u32, height as u32);
    let mut i: usize = 0;
    let mut y: u16 = 0;
    while y < height
        invariant
            y <= height,
            width == frame@.width,
            height == frame@.height,
            pixels@ == frame@.pixels,
            pixels@.len() == width * height,
            i == y * width,
            bitmap_width(image) == width,
            bitmap_rows(image).len() == height,
            forall|v: int| 0 <= v < height ==> (#[trigger] bitmap_rows(image)[v]).len() == width,
            forall|v: int, u: int|
                0 <= v < y && 0 <= u < width ==> (#[trigger] bitmap_rows(image)[v][u]) == (
                    pixels@[v * width + u].r,
                    pixels@[v * width + u].g,
                    pixels@[v * width + u].b,
                ),
        decreases height - y,
    {
        let mut x: u16 = 0;
        while x < width
            invariant
                y < height,
                x <= width,
                pixels@.len() == width * height,
                i == y * width + x,
                bitmap_width(image) == width,
                bitmap_rows(image).len() == height,
                forall|v: int|
                    0 <= v < height ==> (#[trigger] bitmap_rows(image)[v]).len() == width,
                forall|v: int, u: int|
                    (0 <= v < y && 0 <= u < width) || (v == y && 0 <= u < x) ==> (
                    #[trigger] bitmap_rows(image)[v][u]) == (
                        pixels@[v * width + u].r,
                        pixels@[v * width + u].g,
                        pixels@[v * width + u].b,
                    ),
            decreases width - x,
        {
            assert(y * width + x < width * height) by (nonlinear_arith)
                requires
                    0 <= y < height,
                    0 <= x < width,
            ;
            assert(i < pixels.len());
            let colour: Rgb = pixels[i];
            set_bitmap_pixel(&mut image, x as u32, y as u32, colour);
            i = i + 1;
            x = x + 1;
        }
        assert((y + 1) * width == y * width + width) by (nonlinear_arith);
        y = y + 1;
    }
    assert(bitmap_rows(image) =~~= frame_rows(frame@));
    Some(image)
}

} // verus!
