use crate::codec::{
    crop, cropped, decode, decoded, extension_is_known, grayscale, grayscaled, known_extension,
    overlaid, overlay, pixel_covered, resample, resample_fits, resampled_without_filter,
};
use crate::encoding::{base64_decoded, decode_base64};
use crate::error::ImageProcessingError;
use crate::process_image::{DiffStatus, ProcessImage, ProcessImageView};
use crate::raster::{PixelLayout, Raster, RasterView};
use crate::text::{has_prefix, pieces, same_text, split, starts_with, views};
use vstd::prelude::*;

verus! {

/// One step of a pipeline: it takes the image and hands back the image that
/// the step leaves, or the reason why it could not be done.
pub trait Process {
    fn process(&self, pi: ProcessImage) -> Result<ProcessImage, ImageProcessingError>;
}

/// The message of the error for a raster that is too large for this machine.
pub open spec fn image_too_large() -> Seq<char> {
    "image is too large"@
}

/// The message of the error for a resize that has no source length to scale by.
pub open spec fn image_is_empty() -> Seq<char> {
    "image is empty"@
}

// ---------------------------------------------------------------------------
// Load
// ---------------------------------------------------------------------------
/// The image that loading `bytes` under the extension `ext` gives: the decoded
/// raster, the bytes themselves as its encoded form, their length as the
/// baseline size, and `ext` as the format tag. `None` where the extension
/// names no format or the decoder rejects the bytes.
pub open spec fn loaded(bytes: Seq<u8>, ext: Seq<char>) -> Option<ProcessImageView> {
    if !known_extension(ext) {
        None
    } else {
        match decoded(bytes, ext) {
            None => None,
            Some(raster) => Some(
                ProcessImageView {
                    original: None,
                    di: raster,
                    diff: DiffStatus::NotApplicable,
                    original_size: bytes.len(),
                    buffer: bytes,
                    ext,
                },
            ),
        }
    }
}

/// The subtype of a content type: what follows the slash, where there is
/// exactly one slash.
pub open spec fn subtype_of(content_type: Seq<char>) -> Option<Seq<char>> {
    let parts = pieces(content_type, '/');
    if parts.len() == 2 {
        Some(parts[1])
    } else {
        None
    }
}

/// The extension to decode fetched bytes with: the subtype of the content
/// type where the response has one, else the hint.
pub open spec fn resolved_extension(hint: Seq<char>, content_type: Option<Seq<char>>) -> Seq<char> {
    match content_type {
        Some(value) => match subtype_of(value) {
            Some(subtype) => subtype,
            None => hint,
        },
        None => hint,
    }
}

/// What a network fetch hands back: the body, and the content type header if
/// the response had one.
#[derive(Debug)]
pub struct Fetched {
    pub bytes: Vec<u8>,
    pub content_type: Option<String>,
}

/// Loads an image from a locator and an extension hint. A locator that starts
/// with `http` is fetched over the network; any other is the image itself in
/// base64 without padding.
pub struct LoaderProcess {
    pub data: String,
    pub ext: String,
}

/// Decodes `bytes` under the extension `ext` into a fresh image.
pub fn load_bytes(bytes: Vec<u8>, ext: String) -> (r: Result<ProcessImage, ImageProcessingError>)
    ensures
        match r {
            Ok(img) => loaded(bytes@, ext@) == Some(img@) && img@.di.wf() && img@.di.layout
                == PixelLayout::Rgba8,
            Err(e) => {
                &&& loaded(bytes@, ext@) is None
                &&& known_extension(ext@) ==> e is Image
                &&& !known_extension(ext@) ==> e is UnsupportedFormat
                    && e->UnsupportedFormat_extension@ == ext@
            },
        },
{
    if !extension_is_known(ext.as_str()) {
        return Err(ImageProcessingError::UnsupportedFormat { extension: ext });
    }
    match decode(&bytes, ext.as_str()) {
        Err(source) => Err(ImageProcessingError::Image { source }),
        Ok(di) => {
            let original_size = bytes.len();
            Ok(
                ProcessImage {
                    original: None,
                    di,
                    diff: DiffStatus::NotApplicable,
                    original_size,
                    buffer: bytes,
                    ext,
                },
            )
        },
    }
}

/// The subtype of a content type, where it has exactly one slash.
pub fn content_subtype(content_type: &str) -> (r: Option<String>)
    ensures
        match r {
            Some(subtype) => subtype_of(content_type@) == Some(subtype@),
            None => subtype_of(content_type@) is None,
        },
{
    let parts = split(content_type, '/');
    if parts.len() == 2 {
        assert(views(parts@)[1] == parts@[1]@);
        Some(parts[1].clone())
    } else {
        None
    }
}

impl LoaderProcess {
    pub fn new(data: String, ext: String) -> (r: Self)
        ensures
            r.data == data,
            r.ext == ext,
    {
        LoaderProcess { data, ext }
    }

    /// Whether the locator has to be fetched over the network.
    pub open spec fn spec_is_remote(&self) -> bool {
        has_prefix(self.data@, "http"@)
    }

    /// Whether the locator has to be fetched over the network.
    #[verifier::when_used_as_spec(spec_is_remote)]
    pub fn is_remote(&self) -> (r: bool)
        ensures
            r == self.spec_is_remote(),
    {
        starts_with(self.data.as_str(), "http")
    }

    /// The extension to decode a fetched body with.
    pub fn resolve_extension(&self, content_type: &Option<String>) -> (r: String)
        ensures
            r@ == resolved_extension(
                self.ext@,
                match *content_type {
                    Some(value) => Some(value@),
                    None => None,
                },
            ),
    {
        match content_type {
            Some(value) => match content_subtype(value.as_str()) {
                Some(subtype) => subtype,
                None => self.ext.clone(),
            },
            None => self.ext.clone(),
        }
    }

    /// Completes a load from the network: decodes the fetched body under the
    /// extension that the content type gives, or under the hint.
    pub fn load_fetched(&self, fetched: Fetched) -> (r: Result<ProcessImage, ImageProcessingError>)
        ensures
            ({
                let ext = resolved_extension(
                    self.ext@,
                    match fetched.content_type {
                        Some(value) => Some(value@),
                        None => None,
                    },
                );
                match r {
                    Ok(img) => loaded(fetched.bytes@, ext) == Some(img@) && img@.di.wf()
                        && img@.di.layout == PixelLayout::Rgba8,
                    Err(e) => {
                        &&& loaded(fetched.bytes@, ext) is None
                        &&& known_extension(ext) ==> e is Image
                        &&& !known_extension(ext) ==> e is UnsupportedFormat
                            && e->UnsupportedFormat_extension@ == ext
                    },
                }
            }),
    {
        let ext = self.resolve_extension(&fetched.content_type);
        load_bytes(fetched.bytes, ext)
    }
}

impl Process for LoaderProcess {
    /// Loads the image that the locator itself holds in base64. The image
    /// handed in is dropped.
    fn process(&self, pi: ProcessImage) -> (r: Result<ProcessImage, ImageProcessingError>)
        ensures
            match r {
                Ok(img) => {
                    &&& base64_decoded(self.data@) is Some
                    &&& loaded(base64_decoded(self.data@)->0, self.ext@) == Some(img@)
                    &&& img@.di.wf()
                    &&& img@.di.layout == PixelLayout::Rgba8
                },
                Err(e) => match base64_decoded(self.data@) {
                    None => e is Base64Decode,
                    Some(bytes) => {
                        &&& loaded(bytes, self.ext@) is None
                        &&& known_extension(self.ext@) ==> e is Image
                        &&& !known_extension(self.ext@) ==> e is UnsupportedFormat
                            && e->UnsupportedFormat_extension@ == self.ext@
                    },
                },
            },
    {
        match decode_base64(self.data.as_str()) {
            Err(source) => Err(ImageProcessingError::Base64Decode { source }),
            Ok(bytes) => load_bytes(bytes, self.ext.clone()),
        }
    }
}

// ---------------------------------------------------------------------------
// Resize
// ---------------------------------------------------------------------------
/// The length that keeps the aspect ratio: `known * target / other`, rounded down.
pub open spec fn scaled_length(known: int, target: int, other: int) -> int {
    (known * target) / other
}

/// `numerator / denominator` rounded to the nearest whole number, halves upwards.
pub open spec fn rounded_quotient(numerator: int, denominator: int) -> int {
    (2 * numerator + denominator) / (2 * denominator)
}

/// The size that a resize to `width` by `height` gives a raster of
/// `src_width` by `src_height`, where a zero stands for the length that keeps
/// the aspect ratio. Not both of `width` and `height` are zero.
pub open spec fn resize_target(width: int, height: int, src_width: int, src_height: int) -> (int, int) {
    if width == 0 {
        (scaled_length(src_width, height, src_height), height)
    } else if height == 0 {
        (width, scaled_length(src_height, width, src_width))
    } else {
        (width, height)
    }
}

/// Why a resize cannot be done, if it cannot: the length to scale by is zero,
/// or the result would not fit this machine.
pub open spec fn resize_failure(width: int, height: int, src_width: int, src_height: int) -> Option<
    Seq<char>,
> {
    let target = resize_target(width, height, src_width, src_height);
    if (width == 0 && src_height == 0) || (width != 0 && height == 0 && src_width == 0) {
        Some(image_is_empty())
    } else if target.0 > u32::MAX || target.1 > u32::MAX || !resample_fits(
        src_width,
        target.0,
        target.1,
    ) {
        Some(image_too_large())
    } else {
        None
    }
}

/// A resize that names only the height gives the width that keeps the aspect
/// ratio, rounded down: it is at most the exact quotient and less than one
/// below it. That is the nearest whole number exactly where the remainder of
/// the division is under half the source height.
pub proof fn lemma_resize_width_keeps_ratio(height: int, src_width: int, src_height: int)
    requires
        height > 0,
        src_width >= 0,
        src_height > 0,
    ensures
        ({
            let target = resize_target(0, height, src_width, src_height);
            &&& target.1 == height
            &&& target.0 * src_height <= src_width * height < (target.0 + 1) * src_height
            &&& target.0 == rounded_quotient(src_width * height, src_height) <==> 2 * ((src_width
                * height) % src_height) < src_height
        }),
{
    lemma_floor_and_rounded(src_width * height, src_height);
}

/// A resize that names only the width gives the height that keeps the aspect
/// ratio, rounded down; it is the nearest whole number exactly where the
/// remainder of the division is under half the source width.
pub proof fn lemma_resize_height_keeps_ratio(width: int, src_width: int, src_height: int)
    requires
        width > 0,
        src_width > 0,
        src_height >= 0,
    ensures
        ({
            let target = resize_target(width, 0, src_width, src_height);
            &&& target.0 == width
            &&& target.1 * src_width <= src_height * width < (target.1 + 1) * src_width
            &&& target.1 == rounded_quotient(src_height * width, src_width) <==> 2 * ((src_height
                * width) % src_width) < src_width
        }),
{
    lemma_floor_and_rounded(src_height * width, src_width);
}

/// The quotient rounded down brackets the exact quotient, and equals the
/// quotient rounded to nearest exactly where the remainder is under half the
/// divisor.
pub proof fn lemma_floor_and_rounded(n: int, d: int)
    requires
        n >= 0,
        d > 0,
    ensures
        (n / d) * d <= n < (n / d + 1) * d,
        n / d == rounded_quotient(n, d) <==> 2 * (n % d) < d,
{
    let q = n / d;
    let r = n % d;
    vstd::arithmetic::div_mod::lemma_fundamental_div_mod(n, d);
    vstd::arithmetic::div_mod::lemma_mod_bound(n, d);
    assert(n == d * q + r);
    assert(q * d <= n < (q + 1) * d) by (nonlinear_arith)
        requires
            n == d * q + r,
            0 <= r < d,
    ;
    let m = 2 * n + d;
    let e = 2 * d;
    if 2 * r < d {
        assert(m == e * q + (2 * r + d) && 0 <= 2 * r + d < e) by (nonlinear_arith)
            requires
                n == d * q + r,
                0 <= r,
                2 * r < d,
                m == 2 * n + d,
                e == 2 * d,
        ;
        vstd::arithmetic::div_mod::lemma_fundamental_div_mod_converse(m, e, q, 2 * r + d);
    } else {
        assert(m == e * (q + 1) + (2 * r - d) && 0 <= 2 * r - d < e) by (nonlinear_arith)
            requires
                n == d * q + r,
                r < d,
                2 * r >= d,
                m == 2 * n + d,
                e == 2 * d,
        ;
        vstd::arithmetic::div_mod::lemma_fundamental_div_mod_converse(m, e, q + 1, 2 * r - d);
    }
}

/// Resizes the raster to a target width and height. A zero stands for the
/// length that keeps the aspect ratio; two zeros leave the image as it is.
pub struct ResizeProcess {
    pub width: u32,
    pub height: u32,
}

/// Whether the buffers of a resample to `width` by `height` can exist.
fn resample_allowed(src_width: u32, width: u32, height: u32) -> (r: bool)
    ensures
        r == resample_fits(src_width as int, width as int, height as int),
{
    assert(4 * width * height <= 4 * 0xffff_ffff * 0xffff_ffff && 16 * src_width * height <= 16
        * 0xffff_ffff * 0xffff_ffff && 0 <= width * height && 0 <= src_width * height
        && 4 * width * height == 4 * (width * height) && 16 * src_width * height == 16 * (src_width
        * height)) by (nonlinear_arith)
        requires
            0 <= width <= 0xffff_ffff,
            0 <= height <= 0xffff_ffff,
            0 <= src_width <= 0xffff_ffff,
    ;
    let out: u128 = 4 * ((width as u128) * (height as u128));
    let mid: u128 = 16 * ((src_width as u128) * (height as u128));
    out <= isize::MAX as u128 && mid <= isize::MAX as u128
}

impl ResizeProcess {
    pub fn new(width: u32, height: u32) -> (r: Self)
        ensures
            r.width == width,
            r.height == height,
    {
        ResizeProcess { width, height }
    }

    /// The size that this resize gives a raster of `src_width` by
    /// `src_height`, or the message of the error where it cannot be done.
    pub fn target(&self, src_width: u32, src_height: u32) -> (r: Result<(u32, u32), ImageProcessingError>)
        requires
            self.width != 0 || self.height != 0,
        ensures
            match r {
                Ok(size) => {
                    &&& resize_failure(
                        self.width as int,
                        self.height as int,
                        src_width as int,
                        src_height as int,
                    ) is None
                    &&& (size.0 as int, size.1 as int) == resize_target(
                        self.width as int,
                        self.height as int,
                        src_width as int,
                        src_height as int,
                    )
                },
                Err(e) => e is ParamsInvalid && Some(e->ParamsInvalid_message@) == resize_failure(
                    self.width as int,
                    self.height as int,
                    src_width as int,
                    src_height as int,
                ),
            },
    {
        let mut w: u64 = self.width as u64;
        let mut h: u64 = self.height as u64;
        if self.width == 0 {
            if src_height == 0 {
                return Err(ImageProcessingError::params_invalid("image is empty"));
            }
            assert(src_width * self.height <= 0xffff_ffff * 0xffff_ffff) by (nonlinear_arith)
                requires
                    0 <= src_width <= 0xffff_ffff,
                    0 <= self.height <= 0xffff_ffff,
            ;
            w = (src_width as u64) * (self.height as u64) / (src_height as u64);
        } else if self.height == 0 {
            if src_width == 0 {
                return Err(ImageProcessingError::params_invalid("image is empty"));
            }
            assert(src_height * self.width <= 0xffff_ffff * 0xffff_ffff) by (nonlinear_arith)
                requires
                    0 <= src_height <= 0xffff_ffff,
                    0 <= self.width <= 0xffff_ffff,
            ;
            h = (src_height as u64) * (self.width as u64) / (src_width as u64);
        }
        if w > 0xffff_ffff || h > 0xffff_ffff {
            return Err(ImageProcessingError::params_invalid("image is too large"));
        }
        if !resample_allowed(src_width, w as u32, h as u32) {
            return Err(ImageProcessingError::params_invalid("image is too large"));
        }
        Ok((w as u32, h as u32))
    }
}

impl Process for ResizeProcess {
    /// Resamples the raster to the target size and drops the encoded bytes.
    /// A raster that has the target size already keeps its samples, and one
    /// without pixels becomes a raster of zeros.
    fn process(&self, pi: ProcessImage) -> (r: Result<ProcessImage, ImageProcessingError>)
        ensures
            self.width == 0 && self.height == 0 ==> r is Ok && r->Ok_0@ == pi@,
            self.width != 0 || self.height != 0 ==> ({
                let failure = resize_failure(
                    self.width as int,
                    self.height as int,
                    pi@.di.width as int,
                    pi@.di.height as int,
                );
                let target = resize_target(
                    self.width as int,
                    self.height as int,
                    pi@.di.width as int,
                    pi@.di.height as int,
                );
                match r {
                    Ok(img) => {
                        &&& failure is None
                        &&& img@ == pi@.with_pixels(img@.di)
                        &&& img@.di.width == target.0
                        &&& img@.di.height == target.1
                        &&& img@.di.layout == PixelLayout::Rgba8
                        &&& img@.di.wf()
                        &&& resampled_without_filter(pi@.di.to_rgba(), target.0, target.1) is Some
                            ==> img@.di.data == resampled_without_filter(
                            pi@.di.to_rgba(),
                            target.0,
                            target.1,
                        )->0
                    },
                    Err(e) => e is ParamsInvalid && failure == Some(e->ParamsInvalid_message@),
                }
            }),
    {
        if self.width == 0 && self.height == 0 {
            return Ok(pi);
        }
        let mut img = pi;
        let (width, height) = img.get_size();
        match self.target(width, height) {
            Err(e) => Err(e),
            Ok((w, h)) => {
                let source = img.di.to_rgba();
                let _ = img.di.width();
                img.di = resample(&source, w, h);
                img.buffer = Vec::new();
                Ok(img)
            },
        }
    }
}

// ---------------------------------------------------------------------------
// Grayscale
// ---------------------------------------------------------------------------
/// Converts the raster to luminance.
pub struct GrayProcess {}

impl GrayProcess {
    pub fn new() -> (r: Self)
        ensures
            r == (GrayProcess {  }),
    {
        GrayProcess {  }
    }
}

impl Process for GrayProcess {
    /// Replaces the raster by its luminance, one byte per pixel, and drops
    /// the encoded bytes.
    fn process(&self, pi: ProcessImage) -> (r: Result<ProcessImage, ImageProcessingError>)
        ensures
            r is Ok,
            r->Ok_0@ == pi@.with_pixels(grayscaled(pi@.di.to_rgba())),
            r->Ok_0@.di.wf(),
    {
        let mut img = pi;
        let source = img.di.to_rgba();
        let _ = img.di.width();
        img.di = grayscale(&source);
        img.buffer = Vec::new();
        Ok(img)
    }
}

// ---------------------------------------------------------------------------
// Crop
// ---------------------------------------------------------------------------
/// Cuts a rectangle out of the raster. A rectangle that reaches beyond the
/// raster is clipped to it.
pub struct CropProcess {
    pub x: u32,
    pub y: u32,
    pub width: u32,
    pub height: u32,
}

impl CropProcess {
    pub fn new(x: u32, y: u32, width: u32, height: u32) -> (r: Self)
        ensures
            r.x == x,
            r.y == y,
            r.width == width,
            r.height == height,
    {
        CropProcess { x, y, width, height }
    }
}

impl Process for CropProcess {
    /// Replaces the raster by the rectangle and drops the encoded bytes.
    fn process(&self, pi: ProcessImage) -> (r: Result<ProcessImage, ImageProcessingError>)
        ensures
            r is Ok,
            r->Ok_0@ == pi@.with_pixels(
                cropped(
                    pi@.di.to_rgba(),
                    self.x as int,
                    self.y as int,
                    self.width as int,
                    self.height as int,
                ),
            ),
            r->Ok_0@.di.wf(),
    {
        let mut img = pi;
        let source = img.di.to_rgba();
        let _ = img.di.width();
        img.di = crop(&source, self.x, self.y, self.width, self.height);
        img.buffer = Vec::new();
        Ok(img)
    }
}

// ---------------------------------------------------------------------------
// Watermark
// ---------------------------------------------------------------------------
/// Where a watermark is anchored on the canvas.
#[derive(Debug, Clone, Copy, PartialEq, Eq, Structural)]
pub enum WatermarkPosition {
    LeftTop,
    Top,
    RightTop,
    Left,
    Center,
    Right,
    LeftBottom,
    Bottom,
    RightBottom,
}

/// The position that a name stands for; a name that is not one of the nine
/// stands for the bottom right corner.
pub open spec fn position_named(name: Seq<char>) -> WatermarkPosition {
    if name == "leftTop"@ {
        WatermarkPosition::LeftTop
    } else if name == "top"@ {
        WatermarkPosition::Top
    } else if name == "rightTop"@ {
        WatermarkPosition::RightTop
    } else if name == "left"@ {
        WatermarkPosition::Left
    } else if name == "center"@ {
        WatermarkPosition::Center
    } else if name == "right"@ {
        WatermarkPosition::Right
    } else if name == "leftBottom"@ {
        WatermarkPosition::LeftBottom
    } else if name == "bottom"@ {
        WatermarkPosition::Bottom
    } else {
        WatermarkPosition::RightBottom
    }
}

/// Half of `d`, rounded down: the midpoint offset `d >> 1`.
pub open spec fn half(d: int) -> int {
    d / 2
}

/// Where along one axis an overlay of length `inner` starts on a canvas of
/// length `outer`: at the start, centred, or flush with the end.
pub open spec fn axis_offset(outer: int, inner: int, centred: bool, at_end: bool) -> int {
    if centred {
        half(outer - inner)
    } else if at_end {
        outer - inner
    } else {
        0
    }
}

impl WatermarkPosition {
    /// The position that a name stands for.
    pub fn from_str(s: &str) -> (r: Self)
        ensures
            r == position_named(s@),
    {
        if same_text(s, "leftTop") {
            WatermarkPosition::LeftTop
        } else if same_text(s, "top") {
            WatermarkPosition::Top
        } else if same_text(s, "rightTop") {
            WatermarkPosition::RightTop
        } else if same_text(s, "left") {
            WatermarkPosition::Left
        } else if same_text(s, "center") {
            WatermarkPosition::Center
        } else if same_text(s, "right") {
            WatermarkPosition::Right
        } else if same_text(s, "leftBottom") {
            WatermarkPosition::LeftBottom
        } else if same_text(s, "bottom") {
            WatermarkPosition::Bottom
        } else {
            WatermarkPosition::RightBottom
        }
    }

    /// Whether the overlay is centred horizontally.
    pub open spec fn centred_x(self) -> bool {
        self is Top || self is Center || self is Bottom
    }

    /// Whether the overlay is flush with the right edge.
    pub open spec fn at_right(self) -> bool {
        self is RightTop || self is Right || self is RightBottom
    }

    /// Whether the overlay is centred vertically.
    pub open spec fn centred_y(self) -> bool {
        self is Left || self is Center || self is Right
    }

    /// Whether the overlay is flush with the bottom edge.
    pub open spec fn at_bottom(self) -> bool {
        self is LeftBottom || self is Bottom || self is RightBottom
    }

    /// The upper left corner of an overlay of `inner` size on a canvas of
    /// `outer` size, before margins.
    pub open spec fn anchor(self, outer: (int, int), inner: (int, int)) -> (int, int) {
        (
            axis_offset(outer.0, inner.0, self.centred_x(), self.at_right()),
            axis_offset(outer.1, inner.1, self.centred_y(), self.at_bottom()),
        )
    }
}

/// The centre position puts the overlay at half the difference of the
/// sizes, rounded down, on both axes: the gap before the overlay is the gap
/// behind it, or one less.
pub proof fn lemma_center_anchor(canvas: (int, int), overlay: (int, int))
    ensures
        ({
            let anchor = WatermarkPosition::Center.anchor(canvas, overlay);
            &&& anchor.0 == (canvas.0 - overlay.0) / 2
            &&& anchor.1 == (canvas.1 - overlay.1) / 2
            &&& 0 <= (canvas.0 - overlay.0 - anchor.0) - anchor.0 <= 1
            &&& 0 <= (canvas.1 - overlay.1 - anchor.1) - anchor.1 <= 1
        }),
{
}

/// Where along one axis an overlay starts.
fn offset_on_axis(outer: u32, inner: u32, centred: bool, at_end: bool) -> (r: i64)
    ensures
        r == axis_offset(outer as int, inner as int, centred, at_end),
        -0xffff_ffff <= r <= 0xffff_ffff,
{
    let d: i64 = outer as i64 - inner as i64;
    if centred {
        if d >= 0 {
            d / 2
        } else {
            -((1 - d) / 2)
        }
    } else if at_end {
        d
    } else {
        0
    }
}

/// The raster that blending `top` onto `bottom` at `(x, y)` leaves: of the
/// size and the layout of `bottom`.
pub open spec fn watermarked(bottom: RasterView, top: RasterView, x: int, y: int) -> RasterView {
    let blended = RasterView {
        width: bottom.width,
        height: bottom.height,
        layout: PixelLayout::Rgba8,
        data: overlaid(bottom.to_rgba(), top.to_rgba(), x, y),
    };
    match bottom.layout {
        PixelLayout::Rgba8 => blended,
        PixelLayout::Luma8 => grayscaled(blended),
    }
}

/// Blends a second raster onto the image, anchored by one of nine positions
/// and moved by two margins.
pub struct WatermarkProcess {
    pub watermark: Raster,
    pub position: WatermarkPosition,
    pub margin_left: i32,
    pub margin_top: i32,
}

impl WatermarkProcess {
    pub fn new(watermark: Raster, position: WatermarkPosition, margin_left: i32, margin_top: i32) -> (r:
        Self)
        ensures
            r.watermark == watermark,
            r.position == position,
            r.margin_left == margin_left,
            r.margin_top == margin_top,
    {
        WatermarkProcess { watermark, position, margin_left, margin_top }
    }

    /// Where the upper left corner of the watermark comes to lie on a canvas
    /// of the given size: the anchor of the position plus the margins.
    pub open spec fn placement(&self, canvas: (int, int)) -> (int, int) {
        let anchor = self.position.anchor(
            canvas,
            (self.watermark@.width as int, self.watermark@.height as int),
        );
        (anchor.0 + self.margin_left, anchor.1 + self.margin_top)
    }

    /// Where the upper left corner of the watermark comes to lie on a canvas
    /// of `width` by `height`.
    pub fn place(&self, width: u32, height: u32) -> (r: (i64, i64))
        ensures
            (r.0 as int, r.1 as int) == self.placement((width as int, height as int)),
    {
        let ww = self.watermark.width();
        let wh = self.watermark.height();
        let (centred_x, at_right, centred_y, at_bottom) = match self.position {
            WatermarkPosition::LeftTop => (false, false, false, false),
            WatermarkPosition::Top => (true, false, false, false),
            WatermarkPosition::RightTop => (false, true, false, false),
            WatermarkPosition::Left => (false, false, true, false),
            WatermarkPosition::Center => (true, false, true, false),
            WatermarkPosition::Right => (false, true, true, false),
            WatermarkPosition::LeftBottom => (false, false, false, true),
            WatermarkPosition::Bottom => (true, false, false, true),
            WatermarkPosition::RightBottom => (false, true, false, true),
        };
        let x = offset_on_axis(width, ww, centred_x, at_right) + self.margin_left as i64;
        let y = offset_on_axis(height, wh, centred_y, at_bottom) + self.margin_top as i64;
        (x, y)
    }
}

impl Process for WatermarkProcess {
    /// Blends the watermark onto the raster and drops the encoded bytes. The
    /// raster keeps its size and its layout; what falls outside it is
    /// clipped, and a pixel that does not lie under the watermark keeps its
    /// samples.
    fn process(&self, pi: ProcessImage) -> (r: Result<ProcessImage, ImageProcessingError>)
        ensures
            r is Ok,
            ({
                let at = self.placement((pi@.di.width as int, pi@.di.height as int));
                r->Ok_0@ == pi@.with_pixels(watermarked(pi@.di, self.watermark@, at.0, at.1))
            }),
            r->Ok_0@.di.wf(),
            r->Ok_0@.di.width == pi@.di.width,
            r->Ok_0@.di.height == pi@.di.height,
            r->Ok_0@.di.layout == pi@.di.layout,
            ({
                let at = self.placement((pi@.di.width as int, pi@.di.height as int));
                forall|i: int|
                    0 <= i < pi@.di.data.len() && !pixel_covered(
                        pi@.di.width as int,
                        self.watermark@.width as int,
                        self.watermark@.height as int,
                        at.0,
                        at.1,
                        i / (pi@.di.layout.channels() as int),
                    ) ==> #[trigger] r->Ok_0@.di.data[i] == pi@.di.data[i]
            }),
    {
        let mut img = pi;
        let (width, height) = img.get_size();
        let (x, y) = self.place(width, height);
        let bottom = img.di.to_rgba();
        let top = self.watermark.to_rgba();
        let _ = self.watermark.width();
        let blended = overlay(bottom, &top, x, y);
        img.di = match img.di.layout() {
            PixelLayout::Rgba8 => blended,
            PixelLayout::Luma8 => grayscale(&blended),
        };
        img.buffer = Vec::new();
        Ok(img)
    }
}

} // verus!
