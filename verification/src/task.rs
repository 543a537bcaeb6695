use crate::encoding::{capture_groups, captured};
use crate::error::ImageProcessingError;
use crate::number::{decimal_within, parse_u8};
use crate::output::{resolve_output_type, resolved_output};
use crate::pipeline::{is_geometry, operation_views, OperationSpec, OperationView};
use crate::process::{position_named, WatermarkPosition};
use crate::text::{pieces, same_text, split, views};
use vstd::prelude::*;
use vstd::string::StrSliceExecFns;

verus! {

/// The settings of the encoder step.
pub struct OptimConfig {
    /// The quality to encode at where a request names none.
    pub quality: u8,
    /// The speed of the AVIF encoder.
    pub speed: u8,
    /// For how many seconds a response may be cached.
    pub max_age: u64,
    /// The formats to choose from for `auto`, the most wanted first.
    pub auto_output_types: Vec<String>,
}

/// The quality to encode at where nothing is configured.
pub fn default_qualtiy() -> (r: u8)
    ensures
        r == 80,
{
    80
}

/// The encoder speed where nothing is configured.
pub fn default_speed() -> (r: u8)
    ensures
        r == 3,
{
    3
}

/// The cache duration in seconds where nothing is configured: thirty days.
pub fn default_max_age() -> (r: u64)
    ensures
        r == 2592000,
{
    2592000
}

/// The settings that hold where nothing is configured.
pub fn get_default_optim_params() -> (r: OptimConfig)
    ensures
        r.quality == 80,
        r.speed == 3,
        r.max_age == 2592000,
        r.auto_output_types@ == Seq::<String>::empty(),
{
    OptimConfig {
        quality: default_qualtiy(),
        speed: default_speed(),
        max_age: default_max_age(),
        auto_output_types: Vec::new(),
    }
}

/// What a request asks to be done with one stored image.
pub struct ImageTaskParams {
    /// The path of the image in the store.
    pub file: String,
    /// The format asked for, `auto`, or nothing for the image's own.
    pub output_type: Option<String>,
    pub quality: Option<u8>,
    /// The `Accept` header of the request; empty if it had none.
    pub accept: String,
    pub width: Option<u32>,
    pub height: Option<u32>,
    /// The locator of a watermark to blend on.
    pub watermark: Option<String>,
    pub position: Option<String>,
    pub margin_left: Option<i32>,
    pub margin_top: Option<i32>,
    pub x: Option<u32>,
    pub y: Option<u32>,
}

/// The operations to run for a request, and whether the response is private
/// to the client that asked.
#[derive(Debug)]
pub struct ImageTask {
    pub ops: Vec<OperationSpec>,
    pub cache_private: bool,
}

/// A number, or zero where there is none.
pub open spec fn or_zero(value: Option<u32>) -> u32 {
    match value {
        Some(v) => v,
        None => 0,
    }
}

/// A margin, or zero where there is none.
pub open spec fn margin_or_zero(value: Option<i32>) -> i32 {
    match value {
        Some(v) => v,
        None => 0,
    }
}

/// The content of an optional string.
pub open spec fn text_of(value: Option<String>) -> Option<Seq<char>> {
    match value {
        Some(s) => Some(s@),
        None => None,
    }
}

impl ImageTaskParams {
    /// Whether the request changes what is in the picture or its size.
    pub open spec fn changes_geometry(&self) -> bool {
        self.watermark is Some || (self.x is Some && self.y is Some) || self.width is Some
            || self.height is Some
    }

    /// The watermark step, if a watermark is asked for.
    pub open spec fn watermark_step(&self) -> Seq<OperationView> {
        match self.watermark {
            Some(locator) => seq![
                OperationView::Watermark {
                    locator: locator@,
                    position: position_named(
                        match self.position {
                            Some(name) => name@,
                            None => Seq::empty(),
                        },
                    ),
                    margin_left: margin_or_zero(self.margin_left),
                    margin_top: margin_or_zero(self.margin_top),
                },
            ],
            None => Seq::empty(),
        }
    }

    /// The crop step, if an origin is given.
    pub open spec fn crop_step(&self) -> Seq<OperationView> {
        if self.x is Some && self.y is Some {
            seq![
                OperationView::Crop {
                    x: self.x->0,
                    y: self.y->0,
                    width: or_zero(self.width),
                    height: or_zero(self.height),
                },
            ]
        } else {
            Seq::empty()
        }
    }

    /// The resize step, if a width or a height is given.
    pub open spec fn resize_step(&self) -> Seq<OperationView> {
        if self.width is Some || self.height is Some {
            seq![OperationView::Resize { width: or_zero(self.width), height: or_zero(self.height) }]
        } else {
            Seq::empty()
        }
    }

    /// The encoder step: to the resolved format, at the quality asked for or
    /// the configured one, at the configured speed.
    pub open spec fn optim_step(&self, config: &OptimConfig, current: Seq<char>) -> Seq<OperationView> {
        seq![
            OperationView::Optim {
                target_format: resolved_output(
                    text_of(self.output_type),
                    self.accept@,
                    views(config.auto_output_types@),
                    current,
                ).0,
                quality: match self.quality {
                    Some(q) => q,
                    None => config.quality,
                },
                speed: config.speed,
            },
        ]
    }

    /// The comparison step: only where nothing changes the picture or its size.
    pub open spec fn diff_step(&self) -> Seq<OperationView> {
        if self.changes_geometry() {
            Seq::empty()
        } else {
            seq![OperationView::Diff]
        }
    }

    /// The operations for this request on an image whose format is `current`:
    /// watermark, crop, resize, encode and compare, each where it applies.
    pub open spec fn planned(&self, config: &OptimConfig, current: Seq<char>) -> Seq<OperationView> {
        self.watermark_step() + self.crop_step() + self.resize_step() + self.optim_step(config, current)
            + self.diff_step()
    }
}

/// The operations to run for a request on a loaded image whose format is
/// `current`, and whether the response is private.
pub fn plan_image_task(params: &ImageTaskParams, config: &OptimConfig, current: &str) -> (r: ImageTask)
    ensures
        operation_views(r.ops@) == params.planned(config, current@),
        r.cache_private == resolved_output(
            text_of(params.output_type),
            params.accept@,
            views(config.auto_output_types@),
            current@,
        ).1,
{
    let (target_format, cache_private) = resolve_output_type(
        &params.output_type,
        params.accept.as_str(),
        &config.auto_output_types,
        current,
    );
    let quality = match params.quality {
        Some(q) => q,
        None => config.quality,
    };
    let mut ops: Vec<OperationSpec> = Vec::new();
    let mut should_add_diff_task = true;
    if let Some(locator) = &params.watermark {
        let position = match &params.position {
            Some(name) => WatermarkPosition::from_str(name.as_str()),
            None => WatermarkPosition::from_str(""),
        };
        proof {
            reveal_strlit("");
            assert(""@ =~= Seq::<char>::empty());
        }
        ops.push(
            OperationSpec::Watermark {
                locator: locator.clone(),
                position,
                margin_left: match params.margin_left {
                    Some(v) => v,
                    None => 0,
                },
                margin_top: match params.margin_top {
                    Some(v) => v,
                    None => 0,
                },
            },
        );
        should_add_diff_task = false;
    }
    assert(operation_views(ops@) =~= params.watermark_step());
    let width = match params.width {
        Some(v) => v,
        None => 0,
    };
    let height = match params.height {
        Some(v) => v,
        None => 0,
    };
    if let Some(x) = params.x {
        if let Some(y) = params.y {
            ops.push(OperationSpec::Crop { x, y, width, height });
            should_add_diff_task = false;
        }
    }
    assert(operation_views(ops@) =~= params.watermark_step() + params.crop_step());
    if params.width.is_some() || params.height.is_some() {
        ops.push(OperationSpec::Resize { width, height });
        should_add_diff_task = false;
    }
    assert(operation_views(ops@) =~= params.watermark_step() + params.crop_step() + params.resize_step());
    ops.push(OperationSpec::Optim { target_format, quality, speed: config.speed });
    assert(operation_views(ops@) =~= params.watermark_step() + params.crop_step() + params.resize_step()
        + params.optim_step(config, current@));
    if should_add_diff_task {
        ops.push(OperationSpec::Diff);
    }
    assert(operation_views(ops@) =~= params.planned(config, current@));
    ImageTask { ops, cache_private }
}

/// What a request asks to be done with an image that it brings along.
pub struct OptimImageParams {
    /// The locator of the image: an address to fetch, or the image in base64.
    pub data: String,
    /// The format of the image, where the locator does not tell.
    pub data_type: Option<String>,
    /// The format asked for, or nothing for the image's own.
    pub output_type: Option<String>,
    pub quality: Option<u8>,
    pub speed: Option<u8>,
}

impl OptimImageParams {
    /// The operations that the request comes to.
    pub open spec fn described(&self) -> Seq<OperationView> {
        seq![
            OperationView::Load {
                locator: self.data@,
                extension_hint: match self.data_type {
                    Some(ext) => ext@,
                    None => Seq::empty(),
                },
            },
            OperationView::Optim {
                target_format: match self.output_type {
                    Some(name) => name@,
                    None => Seq::empty(),
                },
                quality: match self.quality {
                    Some(q) => q,
                    None => 80,
                },
                speed: match self.speed {
                    Some(s) => s,
                    None => 3,
                },
            },
            OperationView::Diff,
        ]
    }

    /// The operations that the request comes to: load the image, encode it
    /// at the quality and speed asked for, or at 80 and 3, and compare.
    pub fn description(self) -> (r: Vec<OperationSpec>)
        ensures
            operation_views(r@) == self.described(),
    {
        let extension_hint = match self.data_type {
            Some(ext) => ext,
            None => String::new(),
        };
        let target_format = match self.output_type {
            Some(name) => name,
            None => String::new(),
        };
        let quality = match self.quality {
            Some(q) => q,
            None => default_qualtiy(),
        };
        let speed = match self.speed {
            Some(s) => s,
            None => default_speed(),
        };
        let mut ops: Vec<OperationSpec> = Vec::new();
        ops.push(OperationSpec::Load { locator: self.data, extension_hint });
        ops.push(OperationSpec::Optim { target_format, quality, speed });
        ops.push(OperationSpec::Diff);
        assert(operation_views(ops@) =~= self.described());
        ops
    }
}

/// The operations planned for a request hold a comparison step only where
/// none of them is a resize, a crop or a watermark; and they hold exactly one
/// encoder step, which nothing but the comparison follows.
pub proof fn lemma_no_diff_after_geometry(params: ImageTaskParams, config: OptimConfig, current: Seq<char>)
    ensures
        ({
            let ops = params.planned(&config, current);
            &&& (exists|i: int| 0 <= i < ops.len() && ops[i] is Diff) ==> forall|j: int|
                0 <= j < ops.len() ==> !is_geometry(#[trigger] ops[j])
            &&& (exists|i: int| 0 <= i < ops.len() && is_geometry(ops[i])) ==> forall|j: int|
                0 <= j < ops.len() ==> !(#[trigger] ops[j] is Diff)
            &&& forall|j: int| 0 <= j < ops.len() && #[trigger] ops[j] is Diff ==> j == ops.len() - 1
        }),
{
    let ops = params.planned(&config, current);
    let head = params.watermark_step() + params.crop_step() + params.resize_step();
    assert(ops =~= head + params.optim_step(&config, current) + params.diff_step());
    assert forall|j: int| 0 <= j < head.len() implies is_geometry(#[trigger] head[j]) by {}
    assert forall|j: int| 0 <= j < ops.len() && j < head.len() implies ops[j] == head[j] by {}
    if params.changes_geometry() {
        assert(head.len() > 0);
        assert(ops.len() == head.len() + 1);
        assert(ops[head.len() as int] is Optim);
    } else {
        assert(head.len() == 0);
        assert(ops[0] is Optim);
        assert(ops[1] is Diff);
    }
}

/// The extension of a file name: what follows its last dot, or the whole
/// name if it has no dot.
pub open spec fn extension_of(file: Seq<char>) -> Seq<char> {
    pieces(file, '.').last()
}

/// The extension of a file name.
pub fn file_extension(file: &str) -> (r: String)
    ensures
        r@ == extension_of(file@),
{
    let parts = split(file, '.');
    let last = parts.len() - 1;
    assert(views(parts@)[last as int] == parts@[last as int]@);
    parts[last].clone()
}

/// The message of the error for a file path that is too short.
pub open spec fn file_too_short() -> Seq<char> {
    "file must have at least 5 characters"@
}

/// The message of the error for a watermark path that is too short.
pub open spec fn watermark_too_short() -> Seq<char> {
    "watermark must have at least 5 characters"@
}

/// The message of the error for an output type that is not known.
pub open spec fn invalid_output_type() -> Seq<char> {
    "invalid output type"@
}

/// The least number of characters of a path.
pub const MIN_PATH_LENGTH: usize = 5;

impl ImageTaskParams {
    /// Why the request is refused, if it is: the path of the file or of the
    /// watermark is shorter than five characters, or the output type is none
    /// of those that a request may name. The first of these that holds is
    /// reported.
    pub open spec fn refusal(&self) -> Option<Seq<char>> {
        if self.file@.len() < MIN_PATH_LENGTH {
            Some(file_too_short())
        } else if self.watermark is Some && self.watermark->0@.len() < MIN_PATH_LENGTH {
            Some(watermark_too_short())
        } else if self.output_type is Some && !valid_output_type(self.output_type->0@) {
            Some(invalid_output_type())
        } else {
            None
        }
    }

    /// Checks the request.
    pub fn validate(&self) -> (r: Result<(), ImageProcessingError>)
        ensures
            match r {
                Ok(_) => self.refusal() is None,
                Err(e) => e is ParamsInvalid && self.refusal() == Some(e->ParamsInvalid_message@),
            },
    {
        if self.file.as_str().unicode_len() < MIN_PATH_LENGTH {
            return Err(ImageProcessingError::params_invalid("file must have at least 5 characters"));
        }
        if let Some(watermark) = &self.watermark {
            if watermark.as_str().unicode_len() < MIN_PATH_LENGTH {
                return Err(
                    ImageProcessingError::params_invalid("watermark must have at least 5 characters"),
                );
            }
        }
        if let Some(output_type) = &self.output_type {
            if !x_output_type(output_type.as_str()) {
                return Err(ImageProcessingError::params_invalid("invalid output type"));
            }
        }
        Ok(())
    }
}

/// The form of the path of a stored image that is asked for at a quality and
/// in a format: the path of the file, an underscore, two digits of quality,
/// a dot, and the format.
pub const IMAGE_PATH_PATTERN: &'static str = "([\\s\\S]+*)_(\\d{2})\\.(\\S+)";

/// What the path of such a request names.
#[derive(Debug)]
pub struct ImagePath {
    /// The path of the stored image.
    pub file: String,
    /// The quality to encode at.
    pub quality: u8,
    /// The format to encode to.
    pub ext: String,
}

/// The message of the error for a path that has not the form asked for.
pub open spec fn image_path_is_invalid() -> Seq<char> {
    "image path is invalid"@
}

/// The number that the two digits of quality write; 0 where they are digits
/// of another script.
pub open spec fn quality_of(digits: Seq<char>) -> u8 {
    match decimal_within(digits, false, 0, 255) {
        Some(v) => v as u8,
        None => 0,
    }
}

/// What the groups that the pattern captured in a path name: the path of the
/// file is the first group behind the whole match, the quality the second
/// and the format the third. Anything but four groups is no such path.
pub fn image_path_of(groups: &Vec<String>) -> (r: Result<ImagePath, ImageProcessingError>)
    ensures
        match r {
            Ok(found) => {
                &&& groups@.len() == 4
                &&& found.file@ == groups@[1]@
                &&& found.quality == quality_of(groups@[2]@)
                &&& found.ext@ == groups@[3]@
            },
            Err(e) => {
                &&& groups@.len() != 4
                &&& e is ParamsInvalid
                &&& e->ParamsInvalid_message@ == image_path_is_invalid()
            },
        },
{
    if groups.len() != 4 {
        return Err(ImageProcessingError::params_invalid("image path is invalid"));
    }
    let quality = match parse_u8(groups[2].as_str()) {
        Some(v) => v,
        None => 0,
    };
    Ok(ImagePath { file: groups[1].clone(), quality, ext: groups[3].clone() })
}

/// Reads the path of a stored image that is asked for at a quality and in a
/// format, as in `photos/cat_80.webp`.
pub fn parse_image_path(path: &str) -> (r: Result<ImagePath, ImageProcessingError>)
    ensures
        match r {
            Ok(found) => {
                let groups = captured(IMAGE_PATH_PATTERN@, path@);
                &&& groups is Some
                &&& groups->0.len() == 4
                &&& found.file@ == groups->0[1]
                &&& found.quality == quality_of(groups->0[2])
                &&& found.ext@ == groups->0[3]
            },
            Err(e) => {
                let groups = captured(IMAGE_PATH_PATTERN@, path@);
                &&& groups is None || groups->0.len() != 4
                &&& e is ParamsInvalid
                &&& e->ParamsInvalid_message@ == image_path_is_invalid()
            },
        },
{
    match capture_groups(IMAGE_PATH_PATTERN, path) {
        Some(groups) => {
            proof {
                if groups@.len() == 4 {
                    assert(views(groups@)[1] == groups@[1]@);
                    assert(views(groups@)[2] == groups@[2]@);
                    assert(views(groups@)[3] == groups@[3]@);
                }
            }
            image_path_of(&groups)
        },
        None => Err(ImageProcessingError::params_invalid("image path is invalid")),
    }
}

/// The output types that a request may name.
pub open spec fn valid_output_type(name: Seq<char>) -> bool {
    name == "jpeg"@ || name == "jpg"@ || name == "png"@ || name == "webp"@ || name == "avif"@ || name
        == "auto"@
}

/// Whether a request may name this output type.
pub fn x_output_type(output_type: &str) -> (r: bool)
    ensures
        r == valid_output_type(output_type@),
{
    same_text(output_type, "jpeg") || same_text(output_type, "jpg") || same_text(output_type, "png")
        || same_text(output_type, "webp") || same_text(output_type, "avif") || same_text(
        output_type,
        "auto",
    )
}

/// The message of the error for a resize without a size.
pub open spec fn both_zero() -> Seq<char> {
    "width and height cannot both be 0"@
}

/// A resize request must name a width or a height.
pub fn validate_resize_params(width: u32, height: u32) -> (r: Result<(), ImageProcessingError>)
    ensures
        r is Err <==> width == 0 && height == 0,
        r is Err ==> r->Err_0 is ParamsInvalid && r->Err_0->ParamsInvalid_message@ == both_zero(),
{
    if width == 0 && height == 0 {
        Err(ImageProcessingError::params_invalid("width and height cannot both be 0"))
    } else {
        Ok(())
    }
}

/// The size of the encoded image in percent of the size it was loaded with,
/// rounded down and no more than `usize::MAX`; 0 where nothing was loaded.
pub open spec fn ratio_of(encoded: int, original: int) -> int {
    if original == 0 {
        0
    } else if (100 * encoded) / original > usize::MAX {
        usize::MAX as int
    } else {
        (100 * encoded) / original
    }
}

/// The size of the encoded image in percent of the size it was loaded with.
pub fn size_ratio(encoded: usize, original: usize) -> (r: usize)
    ensures
        r == ratio_of(encoded as int, original as int),
{
    if original == 0 {
        return 0;
    }
    let percent: u128 = 100 * (encoded as u128) / (original as u128);
    if percent > usize::MAX as u128 {
        usize::MAX
    } else {
        percent as usize
    }
}

/// The ratio shown with a preview: the size ratio, but at least 1; so it is
/// 1 where nothing was loaded.
pub fn preview_ratio(encoded: usize, original: usize) -> (r: usize)
    ensures
        r == if ratio_of(encoded as int, original as int) < 1 {
            1
        } else {
            ratio_of(encoded as int, original as int)
        },
{
    let ratio = size_ratio(encoded, original);
    if ratio < 1 {
        1
    } else {
        ratio
    }
}

/// Who may cache a response: anyone, or only the client that asked.
pub fn cache_visibility(cache_private: bool) -> (r: &'static str)
    ensures
        r@ == if cache_private {
            "private"@
        } else {
            "public"@
        },
{
    if cache_private {
        "private"
    } else {
        "public"
    }
}

} // verus!
