//! Grayscale images of the `image` crate, as the glyph texture uses them: their raw samples
//! (one byte per pixel, row by row) and their dimensions.
use vstd::prelude::*;
use image::{GenericImage, GenericImageView};

verus! {

/// `image::ImageError`, the error of the image operations; it is only carried.
#[verifier::external_type_specification]
#[verifier::external_body]
pub struct ExImageError(image::ImageError);

/// A grayscale image of the `image` crate (`image::GrayImage`). Verus does not take a
/// declaration of `image::ImageBuffer`, whose parameter is bound by the crate's `Pixel` trait,
/// so the image is held here and known by its samples and dimensions.
#[verifier::external_body]
pub struct GrayBitmap {
    image: image::GrayImage,
}

/// The raw samples of a grayscale image: the buffer it holds, whose first `width * height`
/// bytes are its pixels row by row.
pub uninterp spec fn gray_image_data(img: GrayBitmap) -> Seq<u8>;

/// The width and height of a grayscale image.
pub uninterp spec fn gray_image_dims(img: GrayBitmap) -> (u32, u32);

/// The sample at column `x` of row `y` of row-by-row samples `width` pixels wide.
pub open spec fn pixel_at(data: Seq<u8>, width: int, x: int, y: int) -> u8 {
    data[y * width + x]
}

/// The image holds a sample for each of its pixels.
pub open spec fn gray_image_wf(img: GrayBitmap) -> bool {
    gray_image_data(img).len() >= gray_image_dims(img).0 * gray_image_dims(img).1
}

/// `ImageBuffer::new`: an image of the given size whose pixels are all 0.
#[verifier::external_body]
pub(crate) fn gray_image_new(width: u32, height: u32) -> (r: GrayBitmap)
    requires
        width * height <= usize::MAX,
    ensures
        gray_image_dims(r) == (width, height),
        gray_image_data(r) == Seq::new((width * height) as nat, |i: int| 0u8),
{
    GrayBitmap { image: image::ImageBuffer::new(width, height) }
}

/// `ImageBuffer::from_vec`: the image of the given size over the samples `buf`, when `buf`
/// holds at least `width * height` of them; no image otherwise.
#[verifier::external_body]
pub(crate) fn gray_image_from_vec(width: u32, height: u32, buf: Vec<u8>) -> (r: Option<GrayBitmap>)
    ensures
        r is Some <==> width * height <= buf@.len(),
        r matches Some(img) ==> gray_image_dims(img) == (width, height) && gray_image_data(img)
            == buf@,
{
    image::ImageBuffer::from_vec(width, height, buf).map(|image| GrayBitmap { image })
}

/// `dst` after `src` is copied over it with its top-left corner at `(x, y)`: the pixels that
/// `src` covers are taken from it, the others keep their value.
pub open spec fn copied_over(dst: GrayBitmap, src: GrayBitmap, x: int, y: int, px: int, py: int) -> u8 {
    let (w, h) = gray_image_dims(dst);
    let (sw, sh) = gray_image_dims(src);
    if x <= px < x + sw && y <= py < y + sh {
        pixel_at(gray_image_data(src), sw as int, px - x, py - y)
    } else {
        pixel_at(gray_image_data(dst), w as int, px, py)
    }
}

/// `GenericImage::copy_from` on grayscale images: when `src` fits inside `dst` with its
/// top-left corner at `(x, y)`, copies its pixels there and succeeds; otherwise fails and
/// leaves `dst` unchanged. Samples after the pixels of `dst` are never changed.
#[verifier::external_body]
pub(crate) fn gray_image_copy_from(dst: &mut GrayBitmap, src: &GrayBitmap, x: u32, y: u32) -> (r:
    Result<(), image::ImageError>)
    requires
        gray_image_wf(*old(dst)),
        gray_image_wf(*src),
    ensures
        r is Ok <==> (x + gray_image_dims(*src).0 <= gray_image_dims(*old(dst)).0 && y
            + gray_image_dims(*src).1 <= gray_image_dims(*old(dst)).1),
        gray_image_dims(*final(dst)) == gray_image_dims(*old(dst)),
        gray_image_data(*final(dst)).len() == gray_image_data(*old(dst)).len(),
        r is Err ==> gray_image_data(*final(dst)) == gray_image_data(*old(dst)),
        r is Ok ==> forall|px: int, py: int|
            0 <= px < gray_image_dims(*old(dst)).0 && 0 <= py < gray_image_dims(*old(dst)).1
                ==> #[trigger] pixel_at(
                gray_image_data(*final(dst)),
                gray_image_dims(*old(dst)).0 as int,
                px,
                py,
            ) == copied_over(*old(dst), *src, x as int, y as int, px, py),
        forall|i: int|
            gray_image_dims(*old(dst)).0 * gray_image_dims(*old(dst)).1 <= i < gray_image_data(
                *old(dst),
            ).len() ==> #[trigger] gray_image_data(*final(dst))[i] == gray_image_data(*old(dst))[i],
{
    dst.image.copy_from(&src.image, x, y)
}

/// The pixels of the `width` by `height` area at the top-left corner of `img`, row by row:
/// the samples of `img.view(0, 0, width, height).pixels()`.
#[verifier::external_body]
pub(crate) fn gray_image_top_left(img: &GrayBitmap, width: u32, height: u32) -> (r: Vec<u8>)
    requires
        gray_image_wf(*img),
        width <= gray_image_dims(*img).0,
        height <= gray_image_dims(*img).1,
        width > 0 || height == 0,
    ensures
        r@.len() == width * height,
        forall|px: int, py: int|
            0 <= px < width && 0 <= py < height ==> #[trigger] pixel_at(r@, width as int, px, py)
                == pixel_at(gray_image_data(*img), gray_image_dims(*img).0 as int, px, py),
{
    img.image.view(0, 0, width, height).pixels().map(|(_x, _y, p)| p[0]).collect()
}

} // verus!
