use crate::raster::{PixelLayout, Raster, RasterView};
use vstd::prelude::*;
use vstd::string::StrSliceExecFns;

verus! {

/// The error type of the `image` crate, carried through unopened.
#[verifier::external_type_specification]
#[verifier::external_body]
pub struct ExImageError(image::ImageError);

/// The lower-case form of an ASCII letter; any other character is itself.
pub open spec fn ascii_lower(c: char) -> char {
    if 'A' <= c && c <= 'Z' {
        ((c as u8) + 32) as char
    } else {
        c
    }
}

/// A string with its ASCII letters in lower case.
pub open spec fn lowered(s: Seq<char>) -> Seq<char> {
    Seq::new(s.len(), |i: int| ascii_lower(s[i]))
}

/// The file extensions that name an image format, compared without regard to
/// ASCII case.
pub open spec fn known_extension(ext: Seq<char>) -> bool {
    let e = lowered(ext);
    e == "avif"@ || e == "jpg"@ || e == "jpeg"@ || e == "jfif"@ || e == "png"@ || e == "apng"@
        || e == "gif"@ || e == "webp"@ || e == "tif"@ || e == "tiff"@ || e == "tga"@ || e
        == "dds"@ || e == "bmp"@ || e == "ico"@ || e == "hdr"@ || e == "exr"@ || e == "pbm"@ || e
        == "pam"@ || e == "ppm"@ || e == "pgm"@ || e == "pnm"@ || e == "ff"@ || e == "qoi"@
}

/// The lower-case form of an ASCII letter; any other character is itself.
fn to_ascii_lower(c: char) -> (r: char)
    ensures
        r == ascii_lower(c),
{
    if c >= 'A' && c <= 'Z' {
        ((c as u8) + 32) as char
    } else {
        c
    }
}

/// Whether `ext`, with its ASCII letters in lower case, is `name`.
pub fn names_format(ext: &str, name: &str) -> (r: bool)
    ensures
        r == (lowered(ext@) == name@),
{
    let n = ext.unicode_len();
    if n != name.unicode_len() {
        return false;
    }
    let mut i: usize = 0;
    while i < n
        invariant
            n == ext@.len(),
            n == name@.len(),
            i <= n,
            forall|k: int| 0 <= k < i ==> lowered(ext@)[k] == name@[k],
        decreases n - i,
    {
        if to_ascii_lower(ext.get_char(i)) != name.get_char(i) {
            assert(lowered(ext@)[i as int] != name@[i as int]);
            return false;
        }
        i = i + 1;
    }
    assert(lowered(ext@) =~= name@);
    true
}

/// Whether an extension names an image format. These are the extensions
/// that `image::ImageFormat::from_extension` knows.
pub fn extension_is_known(ext: &str) -> (r: bool)
    ensures
        r == known_extension(ext@),
{
    names_format(ext, "avif") || names_format(ext, "jpg") || names_format(ext, "jpeg") || names_format(
        ext,
        "jfif",
    ) || names_format(ext, "png") || names_format(ext, "apng") || names_format(ext, "gif")
        || names_format(ext, "webp") || names_format(ext, "tif") || names_format(ext, "tiff")
        || names_format(ext, "tga") || names_format(ext, "dds") || names_format(ext, "bmp")
        || names_format(ext, "ico") || names_format(ext, "hdr") || names_format(ext, "exr")
        || names_format(ext, "pbm") || names_format(ext, "pam") || names_format(ext, "ppm")
        || names_format(ext, "pgm") || names_format(ext, "pnm") || names_format(ext, "ff")
        || names_format(ext, "qoi")
}

/// The extensions for which a raster can be encoded on the spot: those that
/// name a format, but for `dds`, which can be read and not written.
pub open spec fn plain_encoder(ext: Seq<char>) -> bool {
    known_extension(ext) && lowered(ext) != "dds"@
}

/// The extensions under which the same raster always gives the same bytes:
/// those of JPEG and PNG.
pub open spec fn repeatable_encoder(ext: Seq<char>) -> bool {
    let e = lowered(ext);
    e == "jpg"@ || e == "jpeg"@ || e == "jfif"@ || e == "png"@ || e == "apng"@
}

/// Whether a raster can be encoded on the spot under this extension.
pub fn has_plain_encoder(ext: &str) -> (r: bool)
    ensures
        r == plain_encoder(ext@),
{
    extension_is_known(ext) && !names_format(ext, "dds")
}

/// What the decoder of the format named by `ext` makes of `bytes`, converted
/// to four bytes per pixel; `None` where it rejects them.
pub uninterp spec fn decoded(bytes: Seq<u8>, ext: Seq<char>) -> Option<RasterView>;

/// `image::load` on an in-memory reader, followed by `DynamicImage::to_rgba8`.
/// The outcome depends on the bytes and the format alone; a decoded raster has
/// one RGBA pixel per position.
#[verifier::external_body]
pub(crate) fn decode(bytes: &Vec<u8>, ext: &str) -> (r: Result<Raster, image::ImageError>)
    requires
        known_extension(ext@),
    ensures
        match r {
            Ok(raster) => decoded(bytes@, ext@) == Some(raster@) && raster@.wf() && raster@.layout
                == PixelLayout::Rgba8,
            Err(_) => decoded(bytes@, ext@) is None,
        },
{
    let format = image::ImageFormat::from_extension(ext).unwrap();
    let rgba = image::load(std::io::Cursor::new(bytes), format)?.to_rgba8();
    Ok(Raster { width: rgba.width(), height: rgba.height(), layout: PixelLayout::Rgba8, data: rgba.into_raw() })
}

/// `ToString::to_string` on an `image::ImageError`: the text of the error.
#[verifier::external_body]
pub(crate) fn image_error_text(error: &image::ImageError) -> (r: String) {
    error.to_string()
}

/// Whether the buffers that resampling a `src_width` wide raster to `width` by
/// `height` allocates can exist: the result, and an intermediate image of
/// `src_width` by `height` pixels with sixteen bytes each.
pub open spec fn resample_fits(src_width: int, width: int, height: int) -> bool {
    4 * width * height <= isize::MAX && 16 * src_width * height <= isize::MAX
}

/// What is known of the samples of a resampled RGBA raster without looking
/// at the filter: a raster without pixels gives zeros throughout, and a
/// raster that has the size asked for already gives its own samples.
/// `None` where the filter decides.
pub open spec fn resampled_without_filter(src: RasterView, width: int, height: int) -> Option<Seq<u8>> {
    if src.is_empty() {
        Some(Seq::new((4 * width * height) as nat, |i: int| 0u8))
    } else if width == src.width && height == src.height {
        Some(src.data)
    } else {
        None
    }
}

/// `image::imageops::resize` with the Lanczos filter of radius three. The
/// result has the size asked for. A source without pixels gives a raster of
/// zeros, and a source of the size asked for gives a copy of itself. The
/// samples that the filter computes are not stated: it works in floating
/// point with a sine whose last digit differs between platforms.
#[verifier::external_body]
pub(crate) fn resample(src: &Raster, width: u32, height: u32) -> (r: Raster)
    requires
        src@.wf(),
        src@.layout == PixelLayout::Rgba8,
        resample_fits(src@.width as int, width as int, height as int),
    ensures
        r@.width == width,
        r@.height == height,
        r@.layout == PixelLayout::Rgba8,
        r@.wf(),
        resampled_without_filter(src@, width as int, height as int) is Some ==> r@.data
            == resampled_without_filter(src@, width as int, height as int)->0,
{
    let img = image::RgbaImage::from_raw(src.width, src.height, src.data.clone()).unwrap();
    let out = image::imageops::resize(&img, width, height, image::imageops::FilterType::Lanczos3);
    Raster { width: out.width(), height: out.height(), layout: PixelLayout::Rgba8, data: out.into_raw() }
}

/// The smaller of two numbers.
pub open spec fn least(a: int, b: int) -> int {
    if a <= b {
        a
    } else {
        b
    }
}

/// The rectangle of an RGBA raster that starts at `(x, y)` and is `width` by
/// `height` pixels large, clipped to the raster.
pub open spec fn cropped(src: RasterView, x: int, y: int, width: int, height: int) -> RasterView
    recommends
        src.wf(),
        src.layout == PixelLayout::Rgba8,
{
    let x0 = least(x, src.width as int);
    let y0 = least(y, src.height as int);
    let w = least(width, src.width - x0);
    let h = least(height, src.height - y0);
    RasterView {
        width: w as nat,
        height: h as nat,
        layout: PixelLayout::Rgba8,
        data: Seq::new(
            (w * h * 4) as nat,
            |i: int| src.data[((y0 + (i / 4) / w) * src.width + x0 + (i / 4) % w) * 4 + i % 4],
        ),
    }
}

/// `image::imageops::crop` followed by `SubImage::to_image`: the origin and
/// the size are clipped to the raster, and each pixel of the result is the
/// pixel of the source at the same offset from the clipped origin.
#[verifier::external_body]
pub(crate) fn crop(src: &Raster, x: u32, y: u32, width: u32, height: u32) -> (r: Raster)
    requires
        src@.wf(),
        src@.layout == PixelLayout::Rgba8,
    ensures
        r@ == cropped(src@, x as int, y as int, width as int, height as int),
        r@.wf(),
{
    let mut img = image::RgbaImage::from_raw(src.width, src.height, src.data.clone()).unwrap();
    let out = image::imageops::crop(&mut img, x, y, width, height).to_image();
    Raster { width: out.width(), height: out.height(), layout: PixelLayout::Rgba8, data: out.into_raw() }
}

/// The luminance of a colour.
pub open spec fn luminance(r: u8, g: u8, b: u8) -> u8 {
    ((2126 * r + 7152 * g + 722 * b) / 10000) as u8
}

/// An RGBA raster reduced to one luminance byte per pixel.
pub open spec fn grayscaled(src: RasterView) -> RasterView
    recommends
        src.wf(),
        src.layout == PixelLayout::Rgba8,
{
    RasterView {
        width: src.width,
        height: src.height,
        layout: PixelLayout::Luma8,
        data: Seq::new(
            src.width * src.height,
            |i: int| luminance(src.data[4 * i], src.data[4 * i + 1], src.data[4 * i + 2]),
        ),
    }
}

/// `image::imageops::grayscale`: each pixel becomes its luminance, the
/// weighted sum of red, green and blue in `luminance`; alpha is dropped.
#[verifier::external_body]
pub(crate) fn grayscale(src: &Raster) -> (r: Raster)
    requires
        src@.wf(),
        src@.layout == PixelLayout::Rgba8,
    ensures
        r@ == grayscaled(src@),
        r@.wf(),
{
    let img = image::RgbaImage::from_raw(src.width, src.height, src.data.clone()).unwrap();
    let out = image::imageops::grayscale(&img);
    Raster { width: out.width(), height: out.height(), layout: PixelLayout::Luma8, data: out.into_raw() }
}

/// The samples of the RGBA raster `bottom` after `top` has been blended onto
/// it with its upper left corner at `(x, y)`.
pub uninterp spec fn overlaid(bottom: RasterView, top: RasterView, x: int, y: int) -> Seq<u8>;

/// Whether the pixel of index `pixel`, counted row by row on a canvas of
/// `canvas_width`, lies under an overlay of `width` by `height` whose upper
/// left corner is at `(x, y)`.
pub open spec fn pixel_covered(canvas_width: int, width: int, height: int, x: int, y: int, pixel: int) -> bool {
    let px = pixel % canvas_width;
    let py = pixel / canvas_width;
    x <= px < x + width && y <= py < y + height
}

/// `image::imageops::overlay`: blends `top` onto `bottom` in place, clipped to
/// `bottom`, whose size does not change. The resulting samples depend on the
/// two rasters and the position alone, and a pixel that does not lie under
/// `top` keeps its samples.
#[verifier::external_body]
pub(crate) fn overlay(bottom: Raster, top: &Raster, x: i64, y: i64) -> (r: Raster)
    requires
        bottom@.wf(),
        bottom@.layout == PixelLayout::Rgba8,
        top@.wf(),
        top@.layout == PixelLayout::Rgba8,
    ensures
        r@.width == bottom@.width,
        r@.height == bottom@.height,
        r@.layout == PixelLayout::Rgba8,
        r@.data == overlaid(bottom@, top@, x as int, y as int),
        r@.wf(),
        forall|i: int|
            0 <= i < bottom@.data.len() && !pixel_covered(
                bottom@.width as int,
                top@.width as int,
                top@.height as int,
                x as int,
                y as int,
                i / 4,
            ) ==> #[trigger] r@.data[i] == bottom@.data[i],
{
    let mut img = image::RgbaImage::from_raw(bottom.width, bottom.height, bottom.data).unwrap();
    let over = image::RgbaImage::from_raw(top.width, top.height, top.data.clone()).unwrap();
    image::imageops::overlay(&mut img, &over, x, y);
    Raster { width: img.width(), height: img.height(), layout: PixelLayout::Rgba8, data: img.into_raw() }
}

/// The bytes that the JPEG or the PNG encoder makes of a raster that has
/// pixels, under the extension `ext`; `None` where the encoder refuses it.
pub uninterp spec fn encoded_plain(raster: RasterView, ext: Seq<char>) -> Option<Seq<u8>>;

/// `DynamicImage::write_to` into an in-memory writer, for a raster that has
/// pixels and a format that has an encoder. What an encoder writes on
/// success begins with the header of its format, so it is never empty. For
/// JPEG and PNG, whether the encoder takes the raster, and the bytes it
/// writes, depend on the raster and the format alone; of the other encoders
/// no more is claimed.
#[verifier::external_body]
pub(crate) fn encode_plain(src: &Raster, ext: &str) -> (r: Result<Vec<u8>, image::ImageError>)
    requires
        src@.wf(),
        !src@.is_empty(),
        plain_encoder(ext@),
    ensures
        match r {
            Ok(bytes) => bytes@.len() > 0 && (repeatable_encoder(ext@) ==> encoded_plain(src@, ext@)
                == Some(bytes@)),
            Err(_) => repeatable_encoder(ext@) ==> encoded_plain(src@, ext@) is None,
        },
{
    let img = match src.layout {
        PixelLayout::Rgba8 => image::DynamicImage::ImageRgba8(
            image::RgbaImage::from_raw(src.width, src.height, src.data.clone()).unwrap(),
        ),
        PixelLayout::Luma8 => image::DynamicImage::ImageLuma8(
            image::GrayImage::from_raw(src.width, src.height, src.data.clone()).unwrap(),
        ),
    };
    let mut bytes = Vec::new();
    img.write_to(&mut std::io::Cursor::new(&mut bytes), image::ImageFormat::from_extension(ext).unwrap())?;
    Ok(bytes)
}

} // verus!
