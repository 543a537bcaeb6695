use crate::cache::{after_get, after_put, holds, index_of, Entry, WatermarkCache};
use crate::codec::{cropped, decoded, grayscaled, known_extension, resampled_without_filter};
use crate::encoding::base64_decoded;
use crate::error::ImageProcessingError;
use crate::optim::{EncodeJob, EncodeJobView, OptimProcess};
use crate::process::{
    resize_failure, resize_target, resolved_extension, watermarked,
    CropProcess, Fetched, GrayProcess, LoaderProcess, Process, ResizeProcess, WatermarkPosition,
    WatermarkProcess,
};
use crate::process_image::{DiffStatus, ProcessImage, ProcessImageView};
use crate::raster::{PixelLayout, Raster, RasterView};
use crate::text::has_prefix;
use vstd::prelude::*;

verus! {

/// One operation of a pipeline.
#[derive(Debug, Clone)]
pub enum OperationSpec {
    /// Load the image from a locator; the hint names its format where the
    /// source does not.
    Load { locator: String, extension_hint: String },
    /// Resize to a width and a height; a zero keeps the aspect ratio.
    Resize { width: u32, height: u32 },
    /// Cut out a rectangle.
    Crop { x: u32, y: u32, width: u32, height: u32 },
    /// Convert to luminance.
    Grayscale,
    /// Blend the image behind a locator onto this one.
    Watermark { locator: String, position: WatermarkPosition, margin_left: i32, margin_top: i32 },
    /// Encode to a target format.
    Optim { target_format: String, quality: u8, speed: u8 },
    /// Decide whether the result is to be compared with the raster that was loaded.
    Diff,
}

/// The mathematical content of an `OperationSpec`.
pub ghost enum OperationView {
    Load { locator: Seq<char>, extension_hint: Seq<char> },
    Resize { width: u32, height: u32 },
    Crop { x: u32, y: u32, width: u32, height: u32 },
    Grayscale,
    Watermark { locator: Seq<char>, position: WatermarkPosition, margin_left: i32, margin_top: i32 },
    Optim { target_format: Seq<char>, quality: u8, speed: u8 },
    Diff,
}

impl View for OperationSpec {
    type V = OperationView;

    open spec fn view(&self) -> OperationView {
        match *self {
            OperationSpec::Load { locator, extension_hint } => OperationView::Load {
                locator: locator@,
                extension_hint: extension_hint@,
            },
            OperationSpec::Resize { width, height } => OperationView::Resize { width, height },
            OperationSpec::Crop { x, y, width, height } => OperationView::Crop { x, y, width, height },
            OperationSpec::Grayscale => OperationView::Grayscale,
            OperationSpec::Watermark { locator, position, margin_left, margin_top } => OperationView::Watermark {
                locator: locator@,
                position,
                margin_left,
                margin_top,
            },
            OperationSpec::Optim { target_format, quality, speed } => OperationView::Optim {
                target_format: target_format@,
                quality,
                speed,
            },
            OperationSpec::Diff => OperationView::Diff,
        }
    }
}

/// Whether an operation changes what is in the picture or its size.
pub open spec fn is_geometry(op: OperationView) -> bool {
    op is Resize || op is Crop || op is Watermark
}

/// Whether an operation changes what is in the picture or its size.
pub fn changes_geometry(op: &OperationSpec) -> (r: bool)
    ensures
        r == is_geometry(op@),
{
    match op {
        OperationSpec::Resize { .. } => true,
        OperationSpec::Crop { .. } => true,
        OperationSpec::Watermark { .. } => true,
        _ => false,
    }
}

/// Whether one of the first `count` operations changes what is in the
/// picture or its size.
pub open spec fn geometry_before(ops: Seq<OperationSpec>, count: int) -> bool {
    exists|j: int| 0 <= j < count && j < ops.len() && is_geometry(#[trigger] ops[j]@)
}

/// Whether one of the first `count` operations changes what is in the
/// picture or its size.
fn has_geometry_before(ops: &Vec<OperationSpec>, count: usize) -> (r: bool)
    requires
        count <= ops.len(),
    ensures
        r == geometry_before(ops@, count as int),
{
    let mut j: usize = 0;
    while j < count
        invariant
            j <= count <= ops.len(),
            !geometry_before(ops@, j as int),
        decreases count - j,
    {
        if changes_geometry(&ops[j]) {
            return true;
        }
        j = j + 1;
    }
    false
}

/// The contents of a list of operations.
pub open spec fn operation_views(ops: Seq<OperationSpec>) -> Seq<OperationView> {
    Seq::new(ops.len(), |i: int| ops[i]@)
}

/// What a run is waiting for from outside.
#[derive(Debug, Clone, Copy, PartialEq, Eq, Structural)]
pub enum Waiting {
    /// Nothing: the next operation can start.
    Nothing,
    /// The fetched body of the image to load.
    Body,
    /// The fetched body of a watermark.
    WatermarkBody,
    /// The encoder's output.
    Encoded,
    /// The raster that the AVIF decoder makes of the new bytes.
    AvifPixels,
}

/// What a step of a run hands back.
#[derive(Debug)]
pub enum Progress {
    /// One operation was done; step again.
    Continue,
    /// The body behind `locator` is needed: fetch it and step with it.
    Fetch { locator: String },
    /// The encoder's output for `job` is needed: encode and step with the bytes.
    Encode { job: EncodeJob },
    /// The raster in `bytes`, which are AVIF, is needed: decode and step with it.
    DecodeAvif { bytes: Vec<u8> },
    /// No operation is left: the image is final.
    Done,
}

/// The mathematical content of a `Progress`.
pub ghost enum ProgressView {
    Continue,
    Fetch { locator: Seq<char> },
    Encode { job: EncodeJobView },
    DecodeAvif { bytes: Seq<u8> },
    Done,
}

impl View for Progress {
    type V = ProgressView;

    open spec fn view(&self) -> ProgressView {
        match *self {
            Progress::Continue => ProgressView::Continue,
            Progress::Fetch { locator } => ProgressView::Fetch { locator: locator@ },
            Progress::Encode { job } => ProgressView::Encode { job: job@ },
            Progress::DecodeAvif { bytes } => ProgressView::DecodeAvif { bytes: bytes@ },
            Progress::Done => ProgressView::Done,
        }
    }
}

/// What outside work hands to a step.
#[derive(Debug)]
pub enum Reply {
    /// The response to a fetch.
    Fetched { fetched: Fetched },
    /// The output of the encoder.
    Encoded { bytes: Vec<u8> },
    /// The raster that the AVIF decoder produced.
    Decoded { pixels: Raster },
}

/// The mathematical content of a `Reply`; `Absent` stands for no reply.
pub ghost enum ReplyView {
    Absent,
    Fetched { bytes: Seq<u8>, content_type: Option<Seq<char>> },
    Encoded { bytes: Seq<u8> },
    Decoded { pixels: RasterView },
}

/// The content of an optional reply.
pub open spec fn reply_view(reply: Option<Reply>) -> ReplyView {
    match reply {
        None => ReplyView::Absent,
        Some(Reply::Fetched { fetched }) => ReplyView::Fetched {
            bytes: fetched.bytes@,
            content_type: match fetched.content_type {
                Some(value) => Some(value@),
                None => None,
            },
        },
        Some(Reply::Encoded { bytes }) => ReplyView::Encoded { bytes: bytes@ },
        Some(Reply::Decoded { pixels }) => ReplyView::Decoded { pixels: pixels@ },
    }
}

/// Why a step failed, without the cause that an outside crate reported.
pub ghost enum Failure {
    ParamsInvalid { message: Seq<char> },
    UnsupportedFormat { extension: Seq<char> },
    Base64Decode,
    Image,
    ParseInt { text: Seq<char> },
    FromUtf,
}

/// The failure that an error stands for.
pub open spec fn failure_of(e: ImageProcessingError) -> Failure {
    match e {
        ImageProcessingError::ParamsInvalid { message } => Failure::ParamsInvalid { message: message@ },
        ImageProcessingError::Base64Decode { .. } => Failure::Base64Decode,
        ImageProcessingError::Image { .. } => Failure::Image,
        ImageProcessingError::UnsupportedFormat { extension } => Failure::UnsupportedFormat {
            extension: extension@,
        },
        ImageProcessingError::ParseInt { text } => Failure::ParseInt { text: text@ },
        ImageProcessingError::FromUtf { .. } => Failure::FromUtf,
    }
}

/// The message of the error for a reply that the run did not wait for, or a
/// missing one that it did wait for.
pub open spec fn unexpected_reply() -> Seq<char> {
    "unexpected reply"@
}

/// A pipeline run between two steps.
#[derive(Debug)]
pub struct PipelineRun {
    ops: Vec<OperationSpec>,
    next: usize,
    image: ProcessImage,
    waiting: Waiting,
    disable_dssim: bool,
}

/// The mathematical content of a `PipelineRun`.
pub ghost struct RunView {
    /// The operations, in order.
    pub ops: Seq<OperationSpec>,
    /// The index of the operation to start or to complete next.
    pub next: nat,
    /// The image as the operations before `next` left it.
    pub image: ProcessImageView,
    /// What the operation at `next` waits for.
    pub waiting: Waiting,
    /// Whether comparison with the loaded raster is switched off.
    pub disable_dssim: bool,
}

impl View for PipelineRun {
    type V = RunView;

    closed spec fn view(&self) -> RunView {
        RunView {
            ops: self.ops@,
            next: self.next as nat,
            image: self.image@,
            waiting: self.waiting,
            disable_dssim: self.disable_dssim,
        }
    }
}

/// The image that a successful load of `bytes` under `ext` leaves. Where
/// `keep_original` is set, the decoded raster is also kept as the original.
pub open spec fn load_outcome(bytes: Seq<u8>, ext: Seq<char>, keep_original: bool) -> Result<
    ProcessImageView,
    Failure,
> {
    if !known_extension(ext) {
        Err(Failure::UnsupportedFormat { extension: ext })
    } else {
        match decoded(bytes, ext) {
            None => Err(Failure::Image),
            Some(raster) => Ok(
                ProcessImageView {
                    original: if keep_original {
                        Some(raster)
                    } else {
                        None
                    },
                    di: raster,
                    diff: DiffStatus::NotApplicable,
                    original_size: bytes.len(),
                    buffer: bytes,
                    ext,
                },
            ),
        }
    }
}

/// The image that a load from base64 text leaves.
pub open spec fn inline_outcome(text: Seq<char>, ext: Seq<char>, keep_original: bool) -> Result<
    ProcessImageView,
    Failure,
> {
    match base64_decoded(text) {
        None => Err(Failure::Base64Decode),
        Some(bytes) => load_outcome(bytes, ext, keep_original),
    }
}

/// The image with a watermark blended onto it.
pub open spec fn watermark_outcome(
    image: ProcessImageView,
    mark: RasterView,
    position: WatermarkPosition,
    margin_left: int,
    margin_top: int,
) -> ProcessImageView {
    let anchor = position.anchor(
        (image.di.width as int, image.di.height as int),
        (mark.width as int, mark.height as int),
    );
    image.with_pixels(watermarked(image.di, mark, anchor.0 + margin_left, anchor.1 + margin_top))
}

/// The run with the operation at `next` done and `image` as its result.
pub open spec fn moved_on(run: RunView, image: ProcessImageView) -> RunView {
    RunView { next: run.next + 1, image, waiting: Waiting::Nothing, ..run }
}

/// The run waiting for outside work on the operation at `next`.
pub open spec fn held(run: RunView, waiting: Waiting) -> RunView {
    RunView { waiting, ..run }
}

/// Whether the waiting state and the reply go together: nothing is waited
/// for and nothing comes, or what comes is what is waited for by the kind of
/// operation that waits for it.
pub open spec fn reply_fits(run: RunView, reply: ReplyView) -> bool {
    match run.waiting {
        Waiting::Nothing => reply is Absent,
        Waiting::Body => reply is Fetched && run.next < run.ops.len() && run.ops[run.next as int] is Load,
        Waiting::WatermarkBody => reply is Fetched && run.next < run.ops.len()
            && run.ops[run.next as int] is Watermark,
        Waiting::Encoded => reply is Encoded && run.next < run.ops.len() && run.ops[run.next as int] is Optim,
        Waiting::AvifPixels => reply is Decoded && run.next < run.ops.len()
            && run.ops[run.next as int] is Optim,
    }
}

/// Why the step of `run` with `reply` fails, if it does.
#[verifier::opaque]
pub open spec fn step_failure(run: RunView, entries: Seq<Entry>, reply: ReplyView) -> Option<Failure> {
    if !reply_fits(run, reply) {
        Some(Failure::ParamsInvalid { message: unexpected_reply() })
    } else if run.next >= run.ops.len() {
        None
    } else {
        let image = run.image;
        match (run.ops[run.next as int], reply) {
            (OperationSpec::Load { locator, extension_hint }, ReplyView::Absent) => {
                if has_prefix(locator@, "http"@) {
                    None
                } else {
                    match inline_outcome(locator@, extension_hint@, true) {
                        Ok(_) => None,
                        Err(failure) => Some(failure),
                    }
                }
            },
            (OperationSpec::Load { locator, extension_hint }, ReplyView::Fetched { bytes, content_type }) => {
                match load_outcome(bytes, resolved_extension(extension_hint@, content_type), true) {
                    Ok(_) => None,
                    Err(failure) => Some(failure),
                }
            },
            (OperationSpec::Resize { width, height }, _) => {
                if width == 0 && height == 0 {
                    None
                } else {
                    match resize_failure(
                        width as int,
                        height as int,
                        image.di.width as int,
                        image.di.height as int,
                    ) {
                        Some(message) => Some(Failure::ParamsInvalid { message }),
                        None => None,
                    }
                }
            },
            (OperationSpec::Watermark { locator, .. }, ReplyView::Absent) => {
                if holds(entries, locator@) || has_prefix(locator@, "http"@) {
                    None
                } else {
                    match inline_outcome(locator@, Seq::empty(), false) {
                        Ok(_) => None,
                        Err(failure) => Some(failure),
                    }
                }
            },
            (OperationSpec::Watermark { .. }, ReplyView::Fetched { bytes, content_type }) => {
                match load_outcome(bytes, resolved_extension(Seq::empty(), content_type), false) {
                    Ok(_) => None,
                    Err(failure) => Some(failure),
                }
            },
            (OperationSpec::Optim { target_format, quality, speed }, ReplyView::Encoded { bytes }) => {
                let op = OptimProcess { output_type: target_format, quality, speed };
                let settled = op.settled(image, bytes);
                if op.decodes_again(image, bytes, run.disable_dssim) && settled.ext != "avif"@ && decoded(
                    bytes,
                    settled.ext,
                ) is None {
                    Some(Failure::Image)
                } else {
                    None
                }
            },
            _ => None,
        }
    }
}

/// What the comparison step decides: the image is to be compared with its
/// original if no earlier operation of the run changes the picture or its
/// size and the image can be compared at all.
pub open spec fn diff_outcome(run: RunView) -> DiffStatus {
    if !geometry_before(run.ops, run.next as int) && run.image.diff_applicable(run.disable_dssim) {
        DiffStatus::Due
    } else {
        DiffStatus::NotApplicable
    }
}

/// Whether a step of `before` with `reply`, in front of a cache that holds
/// `entries` of at most `capacity`, leaves `after` and `entries_after` and
/// hands back `progress`. This is what a step that does not fail does.
#[verifier::opaque]
pub open spec fn step_result(
    before: RunView,
    entries: Seq<Entry>,
    capacity: nat,
    reply: ReplyView,
    after: RunView,
    entries_after: Seq<Entry>,
    progress: ProgressView,
) -> bool {
    if before.next >= before.ops.len() {
        after == before && entries_after == entries && progress is Done
    } else {
        let image = before.image;
        match (before.ops[before.next as int], reply) {
            (OperationSpec::Load { locator, extension_hint }, ReplyView::Absent) => {
                &&& entries_after == entries
                &&& if has_prefix(locator@, "http"@) {
                    after == held(before, Waiting::Body) && progress == (ProgressView::Fetch {
                        locator: locator@,
                    })
                } else {
                    inline_outcome(locator@, extension_hint@, true) == Ok::<
                        ProcessImageView,
                        Failure,
                    >(after.image) && after == moved_on(before, after.image) && progress is Continue
                }
            },
            (OperationSpec::Load { locator, extension_hint }, ReplyView::Fetched { bytes, content_type }) => {
                &&& entries_after == entries
                &&& load_outcome(bytes, resolved_extension(extension_hint@, content_type), true) == Ok::<
                    ProcessImageView,
                    Failure,
                >(after.image)
                &&& after == moved_on(before, after.image)
                &&& progress is Continue
            },
            (OperationSpec::Resize { width, height }, _) => {
                &&& entries_after == entries
                &&& progress is Continue
                &&& after == moved_on(before, after.image)
                &&& if width == 0 && height == 0 {
                    after.image == image
                } else {
                    let target = resize_target(
                        width as int,
                        height as int,
                        image.di.width as int,
                        image.di.height as int,
                    );
                    &&& after.image == image.with_pixels(after.image.di)
                    &&& after.image.di.width == target.0
                    &&& after.image.di.height == target.1
                    &&& after.image.di.layout == PixelLayout::Rgba8
                    &&& after.image.di.wf()
                    &&& resampled_without_filter(image.di.to_rgba(), target.0, target.1) is Some
                        ==> after.image.di.data == resampled_without_filter(
                        image.di.to_rgba(),
                        target.0,
                        target.1,
                    )->0
                }
            },
            (OperationSpec::Crop { x, y, width, height }, _) => {
                &&& entries_after == entries
                &&& progress is Continue
                &&& after == moved_on(
                    before,
                    image.with_pixels(
                        cropped(image.di.to_rgba(), x as int, y as int, width as int, height as int),
                    ),
                )
            },
            (OperationSpec::Grayscale, _) => {
                &&& entries_after == entries
                &&& progress is Continue
                &&& after == moved_on(before, image.with_pixels(grayscaled(image.di.to_rgba())))
            },
            (OperationSpec::Watermark { locator, position, margin_left, margin_top }, ReplyView::Absent) => {
                if holds(entries, locator@) {
                    &&& entries_after == after_get(entries, locator@)
                    &&& progress is Continue
                    &&& after == moved_on(
                        before,
                        watermark_outcome(
                            image,
                            entries[index_of(entries, locator@)].1.di,
                            position,
                            margin_left as int,
                            margin_top as int,
                        ),
                    )
                } else if has_prefix(locator@, "http"@) {
                    &&& entries_after == entries
                    &&& after == held(before, Waiting::WatermarkBody)
                    &&& progress == (ProgressView::Fetch { locator: locator@ })
                } else {
                    let source = inline_outcome(locator@, Seq::empty(), false);
                    &&& source is Ok
                    &&& entries_after == after_put(entries, capacity, locator@, source->Ok_0)
                    &&& progress is Continue
                    &&& after == moved_on(
                        before,
                        watermark_outcome(
                            image,
                            source->Ok_0.di,
                            position,
                            margin_left as int,
                            margin_top as int,
                        ),
                    )
                }
            },
            (
                OperationSpec::Watermark { locator, position, margin_left, margin_top },
                ReplyView::Fetched { bytes, content_type },
            ) => {
                let source = load_outcome(bytes, resolved_extension(Seq::empty(), content_type), false);
                &&& source is Ok
                &&& entries_after == after_put(entries, capacity, locator@, source->Ok_0)
                &&& progress is Continue
                &&& after == moved_on(
                    before,
                    watermark_outcome(
                        image,
                        source->Ok_0.di,
                        position,
                        margin_left as int,
                        margin_top as int,
                    ),
                )
            },
            (OperationSpec::Optim { target_format, quality, speed }, ReplyView::Absent) => {
                let op = OptimProcess { output_type: target_format, quality, speed };
                &&& entries_after == entries
                &&& after == held(before, Waiting::Encoded)
                &&& progress == (ProgressView::Encode { job: op.job(image) })
            },
            (OperationSpec::Optim { target_format, quality, speed }, ReplyView::Encoded { bytes }) => {
                let op = OptimProcess { output_type: target_format, quality, speed };
                let settled = op.settled(image, bytes);
                let again = op.decodes_again(image, bytes, before.disable_dssim);
                &&& entries_after == entries
                &&& if again && settled.ext == "avif"@ {
                    after == (RunView { image: settled, waiting: Waiting::AvifPixels, ..before })
                        && progress == (ProgressView::DecodeAvif { bytes: settled.buffer })
                } else if again {
                    decoded(bytes, settled.ext) is Some && after == moved_on(
                        before,
                        ProcessImageView { di: decoded(bytes, settled.ext)->0, ..settled },
                    ) && progress is Continue
                } else {
                    after == moved_on(before, settled) && progress is Continue
                }
            },
            (OperationSpec::Optim { .. }, ReplyView::Decoded { pixels }) => {
                &&& entries_after == entries
                &&& after == moved_on(before, ProcessImageView { di: pixels, ..image })
                &&& progress is Continue
            },
            (OperationSpec::Diff, _) => {
                &&& entries_after == entries
                &&& progress is Continue
                &&& after == moved_on(
                    before,
                    ProcessImageView { diff: diff_outcome(before), ..image },
                )
            },
            _ => false,
        }
    }
}

/// Blends the raster of `source` onto `image`.
fn apply_watermark(
    image: ProcessImage,
    source: ProcessImage,
    position: WatermarkPosition,
    margin_left: i32,
    margin_top: i32,
) -> (r: ProcessImage)
    ensures
        r@ == watermark_outcome(image@, source@.di, position, margin_left as int, margin_top as int),
{
    let op = WatermarkProcess::new(source.di, position, margin_left, margin_top);
    match op.process(image) {
        Ok(img) => img,
        Err(_) => vstd::pervasive::unreached(),
    }
}

/// Keeps the freshly decoded raster as the original of a loaded image.
fn keep_original(image: ProcessImage) -> (r: ProcessImage)
    requires
        image@.di.layout == PixelLayout::Rgba8,
    ensures
        r@ == (ProcessImageView { original: Some(image@.di), ..image@ }),
{
    let mut img = image;
    img.original = Some(img.di.to_rgba());
    img
}

/// The run that has moved past the operation at `next`.
fn advance(ops: Vec<OperationSpec>, next: usize, image: ProcessImage, disable_dssim: bool) -> (r: Result<
    (PipelineRun, Progress),
    ImageProcessingError,
>)
    requires
        next < ops.len(),
    ensures
        r is Ok,
        r->Ok_0.0@ == (RunView {
            ops: ops@,
            next: (next + 1) as nat,
            image: image@,
            waiting: Waiting::Nothing,
            disable_dssim,
        }),
        r->Ok_0.1@ is Continue,
{
    Ok((PipelineRun { ops, next: next + 1, image, waiting: Waiting::Nothing, disable_dssim }, Progress::Continue))
}

/// Loads an image from its encoded bytes and keeps the decoded raster as the
/// original to compare with.
pub fn load_image(bytes: Vec<u8>, ext: String) -> (r: Result<ProcessImage, ImageProcessingError>)
    ensures
        match r {
            Ok(image) => load_outcome(bytes@, ext@, true) == Ok::<ProcessImageView, Failure>(image@),
            Err(e) => load_outcome(bytes@, ext@, true) == Err::<ProcessImageView, Failure>(failure_of(e)),
        },
{
    match crate::process::load_bytes(bytes, ext) {
        Err(e) => Err(e),
        Ok(loaded) => Ok(keep_original(loaded)),
    }
}

/// Whether `runs` and `caches` record a stretch of steps that each complete
/// an operation: it starts at the run `from` in front of a cache holding
/// `entries`, and each step leads from one record to the next. The first
/// step is made with `reply`, the others with none.
pub open spec fn quiet_trace(
    from: RunView,
    entries: Seq<Entry>,
    capacity: nat,
    reply: ReplyView,
    runs: Seq<RunView>,
    caches: Seq<Seq<Entry>>,
) -> bool {
    &&& runs.len() > 0
    &&& caches.len() == runs.len()
    &&& runs[0] == from
    &&& caches[0] == entries
    &&& forall|k: int|
        0 <= k < runs.len() - 1 ==> {
            &&& step_failure(#[trigger] runs[k], caches[k], reply_after(reply, k as nat)) is None
            &&& step_result(
                runs[k],
                caches[k],
                capacity,
                reply_after(reply, k as nat),
                runs[k + 1],
                caches[k + 1],
                ProgressView::Continue,
            )
        }
}

/// The comparison step never asks for a comparison where an earlier
/// operation of the run is a resize, a crop or a watermark, where the format
/// is `gif`, where comparison is switched off, where nothing was loaded, or
/// where the size is not that of the raster that was loaded.
pub proof fn lemma_comparison_refused(
    before: RunView,
    entries: Seq<Entry>,
    capacity: nat,
    after: RunView,
    entries_after: Seq<Entry>,
    progress: ProgressView,
)
    requires
        before.next < before.ops.len(),
        before.ops[before.next as int] is Diff,
        before.waiting is Nothing,
        step_result(before, entries, capacity, ReplyView::Absent, after, entries_after, progress),
    ensures
        after.image == (ProcessImageView { diff: after.image.diff, ..before.image }),
        geometry_before(before.ops, before.next as int) ==> after.image.diff is NotApplicable,
        before.image.ext == "gif"@ ==> after.image.diff is NotApplicable,
        before.disable_dssim ==> after.image.diff is NotApplicable,
        before.image.original is None ==> after.image.diff is NotApplicable,
        before.image.original is Some && (before.image.original->0.width != before.image.di.width
            || before.image.original->0.height != before.image.di.height) ==> after.image.diff
            is NotApplicable,
        after.image.diff is Due <==> !geometry_before(before.ops, before.next as int)
            && before.image.diff_applicable(before.disable_dssim),
{
    reveal(step_result);
}

/// A step that changes pixels leaves no encoded bytes behind: after a crop, a
/// conversion to luminance, a watermark, or a resize to a size that is not
/// zero by zero, there are none.
pub proof fn lemma_pixel_steps_drop_bytes(
    before: RunView,
    entries: Seq<Entry>,
    capacity: nat,
    reply: ReplyView,
    after: RunView,
    entries_after: Seq<Entry>,
)
    requires
        before.next < before.ops.len(),
        reply_fits(before, reply),
        step_result(before, entries, capacity, reply, after, entries_after, ProgressView::Continue),
        ({
            let op = before.ops[before.next as int];
            op is Crop || op is Grayscale || op is Watermark || (op is Resize && !(op->Resize_width == 0
                && op->Resize_height == 0))
        }),
    ensures
        after.image.buffer.len() == 0,
        after.image.original == before.image.original,
        after.image.original_size == before.image.original_size,
        after.image.ext == before.image.ext,
{
    reveal(step_result);
}

/// Whether the operation at `at` is a comparison step that no resize, crop
/// or watermark precedes.
pub open spec fn fair_comparison(ops: Seq<OperationSpec>, at: int) -> bool {
    0 <= at < ops.len() && ops[at] is Diff && !geometry_before(ops, at)
}

/// Whether the mark on the image of a run is in order: the image is marked
/// for comparison only if a comparison step has been done that no resize,
/// crop or watermark precedes.
pub open spec fn compared_rightly(run: RunView) -> bool {
    run.image.diff is Due ==> exists|at: int| at < run.next && #[trigger] fair_comparison(run.ops, at)
}

/// Whether `runs` and `caches` record the steps of one run: each record
/// follows from the one before by a step that did not fail, made with the
/// reply and handing back the progress of the same position.
pub open spec fn steps_of_a_run(
    runs: Seq<RunView>,
    caches: Seq<Seq<Entry>>,
    replies: Seq<ReplyView>,
    progress: Seq<ProgressView>,
    capacity: nat,
) -> bool {
    &&& runs.len() > 0
    &&& caches.len() == runs.len()
    &&& replies.len() == runs.len() - 1
    &&& progress.len() == runs.len() - 1
    &&& forall|k: int|
        0 <= k < runs.len() - 1 ==> {
            &&& reply_fits(#[trigger] runs[k], replies[k])
            &&& step_result(runs[k], caches[k], capacity, replies[k], runs[k + 1], caches[k + 1], progress[k])
        }
}

/// A step keeps the operations of a run, and it keeps the mark on the image
/// in order.
pub proof fn lemma_step_compares_rightly(
    before: RunView,
    entries: Seq<Entry>,
    capacity: nat,
    reply: ReplyView,
    after: RunView,
    entries_after: Seq<Entry>,
    progress: ProgressView,
)
    requires
        compared_rightly(before),
        reply_fits(before, reply),
        step_result(before, entries, capacity, reply, after, entries_after, progress),
    ensures
        compared_rightly(after),
        after.ops == before.ops,
        after.disable_dssim == before.disable_dssim,
        after.next >= before.next,
{
    reveal(step_result);
    if before.next < before.ops.len() {
        if after.image.diff is Due {
            if before.ops[before.next as int] is Diff {
                assert(fair_comparison(after.ops, before.next as int));
            } else {
                assert(before.image.diff is Due);
                let at = choose|at: int| at < before.next && #[trigger] fair_comparison(before.ops, at);
                assert(fair_comparison(after.ops, at));
            }
        }
    }
}

/// Over a whole run that starts with an image that is not marked, whatever
/// the replies: the operations stay as they were, and at the end the image
/// is marked for comparison only if a comparison step was done that no
/// resize, crop or watermark precedes. So a run in which a resize, a crop
/// or a watermark stands before every comparison step never asks for a
/// comparison.
pub proof fn lemma_run_compares_rightly(
    runs: Seq<RunView>,
    caches: Seq<Seq<Entry>>,
    replies: Seq<ReplyView>,
    progress: Seq<ProgressView>,
    capacity: nat,
)
    requires
        steps_of_a_run(runs, caches, replies, progress, capacity),
        runs[0].image.diff is NotApplicable,
    ensures
        runs.last().ops == runs[0].ops,
        compared_rightly(runs.last()),
        (forall|at: int| 0 <= at < runs[0].ops.len() && runs[0].ops[at] is Diff ==> geometry_before(
            runs[0].ops,
            at,
        )) ==> runs.last().image.diff is NotApplicable,
    decreases runs.len(),
{
    if runs.len() > 1 {
        let n = runs.len() - 1;
        let shorter = runs.take(n);
        assert forall|k: int| 0 <= k < shorter.len() - 1 implies {
            &&& reply_fits(#[trigger] shorter[k], replies.take(n - 1)[k])
            &&& step_result(
                shorter[k],
                caches.take(n)[k],
                capacity,
                replies.take(n - 1)[k],
                shorter[k + 1],
                caches.take(n)[k + 1],
                progress.take(n - 1)[k],
            )
        } by {
            assert(shorter[k] == runs[k]);
            assert(shorter[k + 1] == runs[k + 1]);
        }
        lemma_run_compares_rightly(shorter, caches.take(n), replies.take(n - 1), progress.take(n - 1), capacity);
        assert(shorter.last() == runs[n - 1]);
        assert(reply_fits(runs[n - 1], replies[n - 1]));
        lemma_step_compares_rightly(
            runs[n - 1],
            caches[n - 1],
            capacity,
            replies[n - 1],
            runs[n],
            caches[n],
            progress[n - 1],
        );
    }
    if runs.last().image.diff is Due {
        let at = choose|at: int| at < runs.last().next && #[trigger] fair_comparison(runs.last().ops, at);
        assert(runs[0].ops[at] is Diff && !geometry_before(runs[0].ops, at));
    }
}

/// The encoder step sets the format tag: once the encoder's bytes are taken
/// in, the image carries the tag of the target format, `jpeg` where the
/// target names no encoder, and the size that was loaded is as before.
pub proof fn lemma_encoder_step_sets_tag(
    before: RunView,
    entries: Seq<Entry>,
    capacity: nat,
    bytes: Seq<u8>,
    after: RunView,
    entries_after: Seq<Entry>,
    progress: ProgressView,
)
    requires
        before.next < before.ops.len(),
        before.ops[before.next as int] is Optim,
        before.waiting is Encoded,
        step_result(
            before,
            entries,
            capacity,
            ReplyView::Encoded { bytes },
            after,
            entries_after,
            progress,
        ),
    ensures
        ({
            let op = before.ops[before.next as int];
            let target = if op->target_format@.len() == 0 {
                before.image.ext
            } else {
                op->target_format@
            };
            &&& after.image.ext == crate::optim::tag_after(target)
            &&& after.image.original_size == before.image.original_size
            &&& after.image.original == before.image.original
            &&& after.image.diff == before.image.diff
            &&& !(progress is DecodeAvif) ==> progress is Continue && after.next == before.next + 1
        }),
{
    reveal(step_result);
}

/// A step that hands back `Continue` has completed the operation at `next`:
/// the run is one operation further and waits for nothing.
pub proof fn lemma_continue_moves_on(
    before: RunView,
    entries: Seq<Entry>,
    capacity: nat,
    reply: ReplyView,
    after: RunView,
    entries_after: Seq<Entry>,
)
    requires
        step_result(before, entries, capacity, reply, after, entries_after, ProgressView::Continue),
    ensures
        before.next < before.ops.len(),
        after == moved_on(before, after.image),
{
    reveal(step_result);
}

/// The reply that the step after `count` steps is made with: `reply` for the
/// first step, none for the others.
pub open spec fn reply_after(reply: ReplyView, count: nat) -> ReplyView {
    if count == 0 {
        reply
    } else {
        ReplyView::Absent
    }
}

impl PipelineRun {
    /// A run of `ops` that has not started.
    pub fn new(ops: Vec<OperationSpec>, disable_dssim: bool) -> (r: Self)
        ensures
            r@ == (RunView {
                ops: ops@,
                next: 0,
                image: ProcessImageView::empty(),
                waiting: Waiting::Nothing,
                disable_dssim,
            }),
    {
        PipelineRun { ops, next: 0, image: ProcessImage::new(), waiting: Waiting::Nothing, disable_dssim }
    }

    /// A run of `ops` on an image that is loaded already.
    pub fn with_image(ops: Vec<OperationSpec>, image: ProcessImage, disable_dssim: bool) -> (r: Self)
        ensures
            r@ == (RunView { ops: ops@, next: 0, image: image@, waiting: Waiting::Nothing, disable_dssim }),
    {
        PipelineRun { ops, next: 0, image, waiting: Waiting::Nothing, disable_dssim }
    }

    /// The image as the operations done so far left it.
    pub fn image(&self) -> (r: &ProcessImage)
        ensures
            r@ == self@.image,
    {
        &self.image
    }

    /// Ends the run and hands out the image.
    pub fn into_image(self) -> (r: ProcessImage)
        ensures
            r@ == self@.image,
    {
        self.image
    }

    /// Whether every operation has been done.
    pub fn is_finished(&self) -> (r: bool)
        ensures
            r == (self@.waiting is Nothing && self@.next >= self@.ops.len()),
    {
        self.next >= self.ops.len() && match self.waiting {
            Waiting::Nothing => true,
            _ => false,
        }
    }

    /// Does the next piece of work of the run. With nothing waited for, that
    /// is the start of the next operation: it is done at once, or it asks
    /// for a fetch or for the encoder. With something waited for, `reply`
    /// brings it and the operation is completed. A step that fails ends the
    /// run; the cache is then as it was.
    #[verifier::rlimit(50)]
    pub fn step(self, cache: &mut WatermarkCache, reply: Option<Reply>) -> (r: Result<
        (PipelineRun, Progress),
        ImageProcessingError,
    >)
        ensures
            final(cache).capacity() == old(cache).capacity(),
            match r {
                Ok((run, progress)) => {
                    &&& step_failure(self@, old(cache).entries(), reply_view(reply)) is None
                    &&& step_result(
                        self@,
                        old(cache).entries(),
                        old(cache).capacity(),
                        reply_view(reply),
                        run@,
                        final(cache).entries(),
                        progress@,
                    )
                },
                Err(e) => {
                    &&& step_failure(self@, old(cache).entries(), reply_view(reply)) == Some(failure_of(e))
                    &&& final(cache).entries() == old(cache).entries()
                },
            },
    {
        reveal(step_failure);
        reveal(step_result);
        let PipelineRun { ops, next, image, waiting, disable_dssim } = self;
        if next >= ops.len() {
            return match (waiting, reply) {
                (Waiting::Nothing, None) => Ok(
                    (PipelineRun { ops, next, image, waiting, disable_dssim }, Progress::Done),
                ),
                _ => Err(ImageProcessingError::params_invalid("unexpected reply")),
            };
        }
        match (&ops[next], waiting, reply) {
            (OperationSpec::Load { locator, extension_hint }, Waiting::Nothing, None) => {
                let loader = LoaderProcess::new(locator.clone(), extension_hint.clone());
                if loader.is_remote() {
                    let locator = locator.clone();
                    Ok(
                        (
                            PipelineRun { ops, next, image, waiting: Waiting::Body, disable_dssim },
                            Progress::Fetch { locator },
                        ),
                    )
                } else {
                    match loader.process(image) {
                        Err(e) => Err(e),
                        Ok(loaded) => advance(ops, next, keep_original(loaded), disable_dssim),
                    }
                }
            },
            (
                OperationSpec::Load { locator, extension_hint },
                Waiting::Body,
                Some(Reply::Fetched { fetched }),
            ) => {
                let loader = LoaderProcess::new(locator.clone(), extension_hint.clone());
                match loader.load_fetched(fetched) {
                    Err(e) => Err(e),
                    Ok(loaded) => advance(ops, next, keep_original(loaded), disable_dssim),
                }
            },
            (OperationSpec::Resize { width, height }, Waiting::Nothing, None) => {
                match ResizeProcess::new(*width, *height).process(image) {
                    Err(e) => Err(e),
                    Ok(image) => advance(ops, next, image, disable_dssim),
                }
            },
            (OperationSpec::Crop { x, y, width, height }, Waiting::Nothing, None) => {
                match CropProcess::new(*x, *y, *width, *height).process(image) {
                    Err(e) => Err(e),
                    Ok(image) => advance(ops, next, image, disable_dssim),
                }
            },
            (OperationSpec::Grayscale, Waiting::Nothing, None) => {
                match GrayProcess::new().process(image) {
                    Err(e) => Err(e),
                    Ok(image) => advance(ops, next, image, disable_dssim),
                }
            },
            (
                OperationSpec::Watermark { locator, position, margin_left, margin_top },
                Waiting::Nothing,
                None,
            ) => {
                match cache.get_image_cache(locator) {
                    Some(source) => {
                        let image = apply_watermark(image, source, *position, *margin_left, *margin_top);
                        advance(ops, next, image, disable_dssim)
                    },
                    None => {
                        let loader = LoaderProcess::new(locator.clone(), String::new());
                        if loader.is_remote() {
                            let locator = locator.clone();
                            Ok(
                                (
                                    PipelineRun {
                                        ops,
                                        next,
                                        image,
                                        waiting: Waiting::WatermarkBody,
                                        disable_dssim,
                                    },
                                    Progress::Fetch { locator },
                                ),
                            )
                        } else {
                            match loader.process(ProcessImage::new()) {
                                Err(e) => Err(e),
                                Ok(source) => {
                                    cache.set_image_cache(locator.clone(), &source);
                                    let image = apply_watermark(
                                        image,
                                        source,
                                        *position,
                                        *margin_left,
                                        *margin_top,
                                    );
                                    advance(ops, next, image, disable_dssim)
                                },
                            }
                        }
                    },
                }
            },
            (
                OperationSpec::Watermark { locator, position, margin_left, margin_top },
                Waiting::WatermarkBody,
                Some(Reply::Fetched { fetched }),
            ) => {
                let loader = LoaderProcess::new(locator.clone(), String::new());
                match loader.load_fetched(fetched) {
                    Err(e) => Err(e),
                    Ok(source) => {
                        cache.set_image_cache(locator.clone(), &source);
                        let image = apply_watermark(image, source, *position, *margin_left, *margin_top);
                        advance(ops, next, image, disable_dssim)
                    },
                }
            },
            (OperationSpec::Optim { target_format, quality, speed }, Waiting::Nothing, None) => {
                let op = OptimProcess::new(target_format.clone(), *quality, *speed);
                let job = op.prepare(&image);
                Ok(
                    (
                        PipelineRun { ops, next, image, waiting: Waiting::Encoded, disable_dssim },
                        Progress::Encode { job },
                    ),
                )
            },
            (
                OperationSpec::Optim { target_format, quality, speed },
                Waiting::Encoded,
                Some(Reply::Encoded { bytes }),
            ) => {
                let op = OptimProcess::new(target_format.clone(), *quality, *speed);
                match op.complete(image, bytes, disable_dssim) {
                    Err(e) => Err(e),
                    Ok(out) => {
                        if out.redecode_avif {
                            let bytes = out.image.buffer.clone();
                            assert(bytes@ =~= out.image.buffer@);
                            Ok(
                                (
                                    PipelineRun {
                                        ops,
                                        next,
                                        image: out.image,
                                        waiting: Waiting::AvifPixels,
                                        disable_dssim,
                                    },
                                    Progress::DecodeAvif { bytes },
                                ),
                            )
                        } else {
                            advance(ops, next, out.image, disable_dssim)
                        }
                    },
                }
            },
            (OperationSpec::Optim { .. }, Waiting::AvifPixels, Some(Reply::Decoded { pixels })) => {
                let image = OptimProcess::finish_avif(image, pixels);
                advance(ops, next, image, disable_dssim)
            },
            (OperationSpec::Diff, Waiting::Nothing, None) => {
                let mut image = image;
                image.diff = if !has_geometry_before(&ops, next) && image.diff_applicable(disable_dssim) {
                    DiffStatus::Due
                } else {
                    DiffStatus::NotApplicable
                };
                advance(ops, next, image, disable_dssim)
            },
            _ => Err(ImageProcessingError::params_invalid("unexpected reply")),
        }
    }

    /// Steps until outside work is needed, the run is done, or a step fails.
    /// The first step is made with `reply`. What comes back is what the last
    /// step handed back; it is never `Continue`. Every step before the last
    /// completed an operation.
    #[verifier::loop_isolation(false)]
    #[verifier::rlimit(50)]
    pub fn proceed(self, cache: &mut WatermarkCache, reply: Option<Reply>) -> (r: Result<
        (PipelineRun, Progress),
        ImageProcessingError,
    >)
        ensures
            final(cache).capacity() == old(cache).capacity(),
            exists|runs: Seq<RunView>, caches: Seq<Seq<Entry>>|
                {
                    &&& #[trigger] quiet_trace(
                        self@,
                        old(cache).entries(),
                        old(cache).capacity(),
                        reply_view(reply),
                        runs,
                        caches,
                    )
                    &&& match r {
                        Ok((run, progress)) => {
                            &&& !(progress@ is Continue)
                            &&& step_failure(
                                runs.last(),
                                caches.last(),
                                reply_after(reply_view(reply), (runs.len() - 1) as nat),
                            ) is None
                            &&& step_result(
                                runs.last(),
                                caches.last(),
                                old(cache).capacity(),
                                reply_after(reply_view(reply), (runs.len() - 1) as nat),
                                run@,
                                final(cache).entries(),
                                progress@,
                            )
                        },
                        Err(e) => {
                            &&& step_failure(
                                runs.last(),
                                caches.last(),
                                reply_after(reply_view(reply), (runs.len() - 1) as nat),
                            ) == Some(failure_of(e))
                            &&& final(cache).entries() == caches.last()
                        },
                    }
                },
    {
        let ghost start = self@;
        let ghost entries = cache.entries();
        let ghost capacity = cache.capacity();
        let ghost first = reply_view(reply);
        let ghost mut runs: Seq<RunView> = seq![self@];
        let ghost mut caches: Seq<Seq<Entry>> = seq![cache.entries()];
        let mut run = self;
        let mut reply = reply;
        loop
            invariant
                cache.capacity() == capacity,
                quiet_trace(start, entries, capacity, first, runs, caches),
                runs.last() == run@,
                caches.last() == cache.entries(),
                reply_view(reply) == reply_after(first, (runs.len() - 1) as nat),
            decreases run@.ops.len() - run@.next,
        {
            let ghost before = run@;
            let ghost before_entries = cache.entries();
            let ghost before_reply = reply_view(reply);
            match run.step(cache, reply) {
                Err(e) => {
                    return Err(e);
                },
                Ok((next_run, progress)) => {
                    match progress {
                        Progress::Continue => {
                            proof {
                                lemma_continue_moves_on(
                                    before,
                                    before_entries,
                                    capacity,
                                    before_reply,
                                    next_run@,
                                    cache.entries(),
                                );
                                let ghost longer = runs.push(next_run@);
                                let ghost longer_caches = caches.push(cache.entries());
                                assert forall|k: int| 0 <= k < longer.len() - 1 implies {
                                    &&& step_failure(
                                        #[trigger] longer[k],
                                        longer_caches[k],
                                        reply_after(first, k as nat),
                                    ) is None
                                    &&& step_result(
                                        longer[k],
                                        longer_caches[k],
                                        capacity,
                                        reply_after(first, k as nat),
                                        longer[k + 1],
                                        longer_caches[k + 1],
                                        ProgressView::Continue,
                                    )
                                } by {
                                    if k < runs.len() - 1 {
                                        assert(longer[k] == runs[k]);
                                        assert(longer[k + 1] == runs[k + 1]);
                                    }
                                }
                                runs = longer;
                                caches = longer_caches;
                            }
                            run = next_run;
                            reply = None;
                        },
                        other => {
                            return Ok((next_run, other));
                        },
                    }
                },
            }
        }
    }
}

} // verus!
