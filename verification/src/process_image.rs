use crate::codec::{
    encode_plain, encoded_plain, extension_is_known, has_plain_encoder, known_extension, plain_encoder,
    repeatable_encoder,
};
use crate::error::ImageProcessingError;
use crate::raster::{Raster, RasterView};
use crate::text::same_text;
use vstd::prelude::*;

verus! {

/// Whether a comparison with the original raster has been asked for and makes sense.
#[derive(Debug, Clone, Copy, PartialEq, Eq, Structural)]
pub enum DiffStatus {
    /// No comparison: none was asked for, or the images cannot be compared.
    NotApplicable,
    /// The original and the current raster are to be compared.
    Due,
}

/// The image that a pipeline run threads through its operations.
#[derive(Debug)]
pub struct ProcessImage {
    /// The raster as it was right after loading, kept for the comparison.
    pub original: Option<Raster>,
    /// The current raster.
    pub di: Raster,
    /// Whether the image is to be compared with its original.
    pub diff: DiffStatus,
    /// The number of bytes that were loaded; 0 if nothing was.
    pub original_size: usize,
    /// The encoded form of the current raster, or empty when there is none.
    pub buffer: Vec<u8>,
    /// The format tag: the extension the image was loaded with, or the format
    /// it was last encoded to.
    pub ext: String,
}

/// The mathematical content of a `ProcessImage`.
pub ghost struct ProcessImageView {
    pub original: Option<RasterView>,
    pub di: RasterView,
    pub diff: DiffStatus,
    pub original_size: nat,
    pub buffer: Seq<u8>,
    pub ext: Seq<char>,
}

impl View for ProcessImage {
    type V = ProcessImageView;

    open spec fn view(&self) -> ProcessImageView {
        ProcessImageView {
            original: match self.original {
                Some(r) => Some(r@),
                None => None,
            },
            di: self.di@,
            diff: self.diff,
            original_size: self.original_size as nat,
            buffer: self.buffer@,
            ext: self.ext@,
        }
    }
}

impl ProcessImageView {
    /// The image before anything was loaded.
    pub open spec fn empty() -> ProcessImageView {
        ProcessImageView {
            original: None,
            di: RasterView::empty(),
            diff: DiffStatus::NotApplicable,
            original_size: 0,
            buffer: Seq::empty(),
            ext: Seq::empty(),
        }
    }

    /// The same image with another raster and no encoded bytes: what every
    /// operation that changes pixels leaves behind.
    pub open spec fn with_pixels(self, di: RasterView) -> ProcessImageView {
        ProcessImageView { di, buffer: Seq::empty(), ..self }
    }

    /// Whether this format can be compared at all: comparison is switched on
    /// and the format is not `gif`.
    pub open spec fn support_dssim(self, disabled: bool) -> bool {
        !disabled && self.ext != "gif"@
    }

    /// Whether a comparison makes sense: an original exists, comparison is supported, and
    /// the original and the current raster have the same size.
    pub open spec fn diff_applicable(self, disabled: bool) -> bool {
        &&& self.original is Some
        &&& self.support_dssim(disabled)
        &&& self.original->0.width == self.di.width
        &&& self.original->0.height == self.di.height
    }
}

/// No comparison is made of a GIF, with comparison switched off, without an
/// original, or where the size has changed since the image was loaded.
pub proof fn lemma_diff_refused(image: ProcessImageView, disabled: bool)
    ensures
        image.ext == "gif"@ ==> !image.diff_applicable(disabled),
        disabled ==> !image.diff_applicable(disabled),
        image.original is None ==> !image.diff_applicable(disabled),
        image.original is Some && (image.original->0.width != image.di.width
            || image.original->0.height != image.di.height) ==> !image.diff_applicable(disabled),
{
}

/// The message of the error for an image without pixels that is to be encoded.
pub open spec fn nothing_to_encode() -> Seq<char> {
    "image is empty"@
}

/// The extension whose encoder serves an image tagged `ext`: `ext` itself if
/// it names a format, else `jpeg`.
pub open spec fn fallback_extension(ext: Seq<char>) -> Seq<char> {
    if known_extension(ext) {
        ext
    } else {
        "jpeg"@
    }
}

impl ProcessImage {
    /// The image before anything was loaded.
    pub fn new() -> (r: Self)
        ensures
            r@ == ProcessImageView::empty(),
    {
        ProcessImage {
            original: None,
            di: Raster::new(),
            diff: DiffStatus::NotApplicable,
            original_size: 0,
            buffer: Vec::new(),
            ext: String::new(),
        }
    }

    /// A copy of this image.
    pub fn duplicate(&self) -> (r: Self)
        ensures
            r@ == self@,
    {
        let original = match &self.original {
            Some(raster) => Some(raster.duplicate()),
            None => None,
        };
        let buffer = self.buffer.clone();
        assert(buffer@ =~= self.buffer@);
        ProcessImage {
            original,
            di: self.di.duplicate(),
            diff: self.diff,
            original_size: self.original_size,
            buffer,
            ext: self.ext.clone(),
        }
    }

    /// The width and the height of the current raster.
    pub fn get_size(&self) -> (r: (u32, u32))
        ensures
            r.0 == self@.di.width,
            r.1 == self@.di.height,
    {
        (self.di.width(), self.di.height())
    }

    /// The extension whose encoder serves this image where no encoded bytes
    /// are cached.
    pub fn encoding_extension(&self) -> (r: String)
        ensures
            r@ == fallback_extension(self@.ext),
            known_extension(r@),
    {
        if extension_is_known(self.ext.as_str()) {
            self.ext.clone()
        } else {
            proof {
                reveal_strlit("jpeg");
                assert(crate::codec::lowered("jpeg"@) =~= "jpeg"@);
            }
            "jpeg".to_owned()
        }
    }

    /// The encoded bytes. Cached bytes are handed out as they are. Where none
    /// are cached, the current raster is encoded on the spot, in the format
    /// of the tag, or as JPEG if the tag names no format. A raster without
    /// pixels is refused, and so is a format that can only be read. What
    /// comes out is never empty; for JPEG and PNG it is the same for the
    /// same raster.
    pub fn get_buffer(&self) -> (r: Result<Vec<u8>, ImageProcessingError>)
        ensures
            ({
                let ext = fallback_extension(self@.ext);
                match r {
                    Ok(bytes) => if self@.buffer.len() > 0 {
                        bytes@ == self@.buffer
                    } else {
                        &&& !self@.di.is_empty()
                        &&& plain_encoder(ext)
                        &&& bytes@.len() > 0
                        &&& repeatable_encoder(ext) ==> encoded_plain(self@.di, ext) == Some(bytes@)
                    },
                    Err(e) => {
                        &&& self@.buffer.len() == 0
                        &&& self@.di.is_empty() ==> e is ParamsInvalid && e->ParamsInvalid_message@
                            == nothing_to_encode()
                        &&& !self@.di.is_empty() && !plain_encoder(ext) ==> e is UnsupportedFormat
                            && e->UnsupportedFormat_extension@ == ext
                        &&& !self@.di.is_empty() && plain_encoder(ext) ==> e is Image && (
                        repeatable_encoder(ext) ==> encoded_plain(self@.di, ext) is None)
                    },
                }
            }),
    {
        if self.buffer.len() == 0 {
            if self.di.width() == 0 || self.di.height() == 0 {
                return Err(ImageProcessingError::params_invalid("image is empty"));
            }
            let ext = self.encoding_extension();
            if !has_plain_encoder(ext.as_str()) {
                return Err(ImageProcessingError::UnsupportedFormat { extension: ext });
            }
            match encode_plain(&self.di, ext.as_str()) {
                Ok(bytes) => Ok(bytes),
                Err(source) => Err(ImageProcessingError::Image { source }),
            }
        } else {
            let bytes = self.buffer.clone();
            assert(bytes@ =~= self.buffer@);
            Ok(bytes)
        }
    }

    /// Whether this format can be compared at all.
    pub fn support_dssim(&self, disabled: bool) -> (r: bool)
        ensures
            r == self@.support_dssim(disabled),
    {
        !disabled && !same_text(self.ext.as_str(), "gif")
    }

    /// Whether a comparison with the raster that was loaded makes sense.
    pub fn diff_applicable(&self, disabled: bool) -> (r: bool)
        ensures
            r == self@.diff_applicable(disabled),
    {
        match &self.original {
            None => false,
            Some(original) => {
                self.support_dssim(disabled) && original.width() == self.di.width()
                    && original.height() == self.di.height()
            },
        }
    }

    /// The two rasters to compare, both with four bytes per pixel: the
    /// original and the current one. `None` exactly when they cannot be compared.
    pub fn diff_inputs(&self, disabled: bool) -> (r: Option<(Raster, Raster)>)
        ensures
            r is Some <==> self@.diff_applicable(disabled),
            match r {
                Some((before, after)) => {
                    &&& before@ == self@.original->0.to_rgba()
                    &&& after@ == self@.di.to_rgba()
                    &&& before@.width == after@.width
                    &&& before@.height == after@.height
                },
                None => true,
            },
    {
        if self.diff_applicable(disabled) {
            match &self.original {
                Some(original) => Some((original.to_rgba(), self.di.to_rgba())),
                None => None,
            }
        } else {
            None
        }
    }
}

} // verus!
