use crate::codec::{decode, decoded, known_extension, lowered};
use crate::error::ImageProcessingError;
use crate::process_image::{ProcessImage, ProcessImageView};
use crate::raster::{PixelLayout, Raster, RasterView};
use crate::text::same_text;
use vstd::prelude::*;
use vstd::string::StringExecFns;

verus! {

/// The encoders that an image can be handed to.
#[derive(Debug, Clone, Copy, PartialEq, Eq, Structural)]
pub enum Codec {
    Gif,
    Png,
    Avif,
    Webp,
    Jpeg,
}

/// The encoder that a target format names; a name that is none of `gif`,
/// `png`, `avif` and `webp` falls to JPEG.
pub open spec fn codec_named(target: Seq<char>) -> Codec {
    if target == "gif"@ {
        Codec::Gif
    } else if target == "png"@ {
        Codec::Png
    } else if target == "avif"@ {
        Codec::Avif
    } else if target == "webp"@ {
        Codec::Webp
    } else {
        Codec::Jpeg
    }
}

/// The format tag of an image encoded for `target`: `target` itself where it
/// names an encoder, else `jpeg`.
pub open spec fn tag_after(target: Seq<char>) -> Seq<char> {
    if codec_named(target) is Jpeg {
        "jpeg"@
    } else {
        target
    }
}

/// The speed at which animated GIFs are re-encoded.
pub const GIF_SPEED: u8 = 10;

/// The quality at which the WebP encoder works without loss.
pub const WEBP_LOSSLESS_QUALITY: u8 = 100;

/// One piece of work for an encoder, with everything the encoder needs.
#[derive(Debug)]
pub enum EncodeJob {
    /// Re-encode the frames of an animated GIF, given as its encoded bytes,
    /// with infinite repeat.
    Gif { bytes: Vec<u8>, speed: u8 },
    /// Quantise to a palette at `quality` and encode as PNG.
    Png { pixels: Raster, quality: u8 },
    /// Encode as AVIF.
    Avif { pixels: Raster, quality: u8, speed: u8 },
    /// Encode as WebP, without loss or at `quality`.
    Webp { pixels: Raster, quality: u8, lossless: bool },
    /// Encode as JPEG.
    Jpeg { pixels: Raster, quality: u8 },
}

/// The mathematical content of an `EncodeJob`.
pub ghost enum EncodeJobView {
    Gif { bytes: Seq<u8>, speed: u8 },
    Png { pixels: RasterView, quality: u8 },
    Avif { pixels: RasterView, quality: u8, speed: u8 },
    Webp { pixels: RasterView, quality: u8, lossless: bool },
    Jpeg { pixels: RasterView, quality: u8 },
}

impl View for EncodeJob {
    type V = EncodeJobView;

    open spec fn view(&self) -> EncodeJobView {
        match *self {
            EncodeJob::Gif { bytes, speed } => EncodeJobView::Gif { bytes: bytes@, speed },
            EncodeJob::Png { pixels, quality } => EncodeJobView::Png { pixels: pixels@, quality },
            EncodeJob::Avif { pixels, quality, speed } => EncodeJobView::Avif {
                pixels: pixels@,
                quality,
                speed,
            },
            EncodeJob::Webp { pixels, quality, lossless } => EncodeJobView::Webp {
                pixels: pixels@,
                quality,
                lossless,
            },
            EncodeJob::Jpeg { pixels, quality } => EncodeJobView::Jpeg { pixels: pixels@, quality },
        }
    }
}

/// Whether freshly encoded bytes replace the cached ones: the format changed,
/// or they are fewer than the bytes that the image was loaded from, or
/// nothing was loaded, so that there is no size to beat.
pub open spec fn keeps_new_bytes(
    new_tag: Seq<char>,
    old_tag: Seq<char>,
    new_len: nat,
    baseline: nat,
) -> bool {
    new_tag != old_tag || new_len < baseline || baseline == 0
}

/// What an `OptimProcess` leaves once the encoder has answered.
#[derive(Debug)]
pub struct Optimized {
    /// The image after the step, but for the raster where `redecode_avif` is set.
    pub image: ProcessImage,
    /// Whether the raster is still to be replaced by what the AVIF decoder
    /// makes of the new bytes.
    pub redecode_avif: bool,
}

/// Encodes the raster to a target format.
pub struct OptimProcess {
    pub output_type: String,
    pub quality: u8,
    pub speed: u8,
}

impl OptimProcess {
    pub fn new(output_type: String, quality: u8, speed: u8) -> (r: Self)
        ensures
            r.output_type == output_type,
            r.quality == quality,
            r.speed == speed,
    {
        OptimProcess { output_type, quality, speed }
    }

    /// The format to encode to: the one asked for, or the image's own where
    /// none is asked for.
    pub open spec fn target(&self, current: Seq<char>) -> Seq<char> {
        if self.output_type@.len() == 0 {
            current
        } else {
            self.output_type@
        }
    }

    /// The work that this step hands to the encoder for the image `pi`.
    pub open spec fn job(&self, pi: ProcessImageView) -> EncodeJobView {
        let pixels = pi.di.to_rgba();
        match codec_named(self.target(pi.ext)) {
            Codec::Gif => EncodeJobView::Gif { bytes: pi.buffer, speed: GIF_SPEED },
            Codec::Png => EncodeJobView::Png { pixels, quality: self.quality },
            Codec::Avif => EncodeJobView::Avif { pixels, quality: self.quality, speed: self.speed },
            Codec::Webp => EncodeJobView::Webp {
                pixels,
                quality: self.quality,
                lossless: self.quality == WEBP_LOSSLESS_QUALITY,
            },
            Codec::Jpeg => EncodeJobView::Jpeg { pixels, quality: self.quality },
        }
    }

    /// The image once `data` has come back from the encoder, before any
    /// decoding of the new bytes: it carries the new format tag, and `data`
    /// as its encoded bytes where they replace the cached ones.
    pub open spec fn settled(&self, pi: ProcessImageView, data: Seq<u8>) -> ProcessImageView {
        let tag = tag_after(self.target(pi.ext));
        ProcessImageView {
            ext: tag,
            buffer: if keeps_new_bytes(tag, pi.ext, data.len(), pi.original_size) {
                data
            } else {
                pi.buffer
            },
            ..pi
        }
    }

    /// Whether the raster is to be decoded anew from `data`: the new bytes
    /// are kept and the new format can be compared.
    pub open spec fn decodes_again(&self, pi: ProcessImageView, data: Seq<u8>, disabled: bool) -> bool {
        let tag = tag_after(self.target(pi.ext));
        keeps_new_bytes(tag, pi.ext, data.len(), pi.original_size) && self.settled(
            pi,
            data,
        ).support_dssim(disabled)
    }

    /// The format to encode the image to.
    pub fn target_of(&self, pi: &ProcessImage) -> (r: String)
        ensures
            r@ == self.target(pi@.ext),
    {
        if self.output_type.as_str().is_empty() {
            pi.ext.clone()
        } else {
            self.output_type.clone()
        }
    }

    /// The encoder that serves a target format.
    pub fn codec_for(target: &str) -> (r: Codec)
        ensures
            r == codec_named(target@),
    {
        if same_text(target, "gif") {
            Codec::Gif
        } else if same_text(target, "png") {
            Codec::Png
        } else if same_text(target, "avif") {
            Codec::Avif
        } else if same_text(target, "webp") {
            Codec::Webp
        } else {
            Codec::Jpeg
        }
    }

    /// The work to hand to the encoder for the image `pi`.
    pub fn prepare(&self, pi: &ProcessImage) -> (r: EncodeJob)
        ensures
            r@ == self.job(pi@),
    {
        let target = self.target_of(pi);
        match Self::codec_for(target.as_str()) {
            Codec::Gif => {
                let bytes = pi.buffer.clone();
                assert(bytes@ =~= pi.buffer@);
                EncodeJob::Gif { bytes, speed: GIF_SPEED }
            },
            Codec::Png => EncodeJob::Png { pixels: pi.di.to_rgba(), quality: self.quality },
            Codec::Avif => EncodeJob::Avif {
                pixels: pi.di.to_rgba(),
                quality: self.quality,
                speed: self.speed,
            },
            Codec::Webp => EncodeJob::Webp {
                pixels: pi.di.to_rgba(),
                quality: self.quality,
                lossless: self.quality == WEBP_LOSSLESS_QUALITY,
            },
            Codec::Jpeg => EncodeJob::Jpeg { pixels: pi.di.to_rgba(), quality: self.quality },
        }
    }

    /// Takes in what the encoder made of the job for `pi`. The image gets the
    /// new format tag. The new bytes replace the cached ones if the format
    /// changed, if they are fewer than the bytes that the image was loaded
    /// from, or if nothing was loaded; else the cached ones stay, and so does
    /// the raster. The size that was loaded is never changed. Where the new
    /// bytes are kept and the format can be
    /// compared, the raster is decoded anew from them; for AVIF that is left
    /// to the caller, and `redecode_avif` says so.
    pub fn complete(&self, pi: ProcessImage, data: Vec<u8>, disabled: bool) -> (r: Result<
        Optimized,
        ImageProcessingError,
    >)
        ensures
            ({
                let settled = self.settled(pi@, data@);
                let again = self.decodes_again(pi@, data@, disabled);
                let by_caller = again && settled.ext == "avif"@;
                let here = again && settled.ext != "avif"@;
                match r {
                    Ok(out) => {
                        &&& out.redecode_avif == by_caller
                        &&& !here ==> out.image@ == settled
                        &&& here ==> decoded(data@, settled.ext) == Some(out.image@.di)
                            && out.image@ == (ProcessImageView { di: out.image@.di, ..settled })
                    },
                    Err(e) => here && e is Image && decoded(data@, settled.ext) is None,
                }
            }),
    {
        let mut img = pi;
        let target = self.target_of(&img);
        let tag = match Self::codec_for(target.as_str()) {
            Codec::Jpeg => String::from_str("jpeg"),
            _ => target,
        };
        let baseline = img.original_size;
        let keep = !same_text(tag.as_str(), img.ext.as_str()) || data.len() < baseline || baseline
            == 0;
        img.ext = tag;
        if !keep {
            return Ok(Optimized { image: img, redecode_avif: false });
        }
        img.buffer = data;
        if !img.support_dssim(disabled) {
            return Ok(Optimized { image: img, redecode_avif: false });
        }
        if same_text(img.ext.as_str(), "avif") {
            return Ok(Optimized { image: img, redecode_avif: true });
        }
        proof {
            reveal_strlit("gif");
            reveal_strlit("png");
            reveal_strlit("avif");
            reveal_strlit("webp");
            reveal_strlit("jpeg");
            assert(lowered("png"@) =~= "png"@);
            assert(lowered("webp"@) =~= "webp"@);
            assert(lowered("jpeg"@) =~= "jpeg"@);
            assert(known_extension(img.ext@));
        }
        match decode(&img.buffer, img.ext.as_str()) {
            Err(source) => Err(ImageProcessingError::Image { source }),
            Ok(di) => {
                img.di = di;
                Ok(Optimized { image: img, redecode_avif: false })
            },
        }
    }

    /// Takes in the raster that the AVIF decoder made of the new bytes.
    pub fn finish_avif(image: ProcessImage, di: Raster) -> (r: ProcessImage)
        ensures
            r@ == (ProcessImageView { di: di@, ..image@ }),
    {
        let mut img = image;
        img.di = di;
        img
    }
}

/// With the format unchanged and an image that was loaded from some bytes,
/// the new bytes are taken exactly where they are fewer than those; else
/// the cached bytes stay as they are. So where the cached bytes are no more
/// than what was loaded, the step never leaves more bytes than were loaded.
pub proof fn lemma_optim_never_grows(op: OptimProcess, pi: ProcessImageView, data: Seq<u8>)
    requires
        tag_after(op.target(pi.ext)) == pi.ext,
        pi.original_size > 0,
    ensures
        data.len() >= pi.original_size ==> op.settled(pi, data).buffer == pi.buffer,
        data.len() < pi.original_size ==> op.settled(pi, data).buffer == data,
        pi.buffer.len() <= pi.original_size ==> op.settled(pi, data).buffer.len() <= pi.original_size,
        op.settled(pi, data).original_size == pi.original_size,
        op.settled(pi, data).di == pi.di,
{
}

/// With a changed format, or with nothing loaded, the new bytes are always
/// taken.
pub proof fn lemma_optim_takes_new_bytes(op: OptimProcess, pi: ProcessImageView, data: Seq<u8>)
    requires
        tag_after(op.target(pi.ext)) != pi.ext || pi.original_size == 0,
    ensures
        op.settled(pi, data).buffer == data,
{
}

} // verus!
