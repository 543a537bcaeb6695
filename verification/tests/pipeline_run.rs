use base64::Engine;
use image_pipeline::cache::WatermarkCache;
use image_pipeline::error::ImageProcessingError;
use image_pipeline::optim::EncodeJob;
use image_pipeline::pipeline::{load_image, OperationSpec, PipelineRun, Progress, Reply};
use image_pipeline::process::{Fetched, WatermarkPosition};
use image_pipeline::process_image::{DiffStatus, ProcessImage};
use image_pipeline::raster::Raster;
use image_pipeline::task::{get_default_optim_params, plan_image_task, ImageTaskParams};

fn picture(width: u32, height: u32) -> image::RgbaImage {
    image::RgbaImage::from_fn(width, height, |x, y| {
        image::Rgba([(x * 7 % 256) as u8, (y * 5 % 256) as u8, ((x + y) % 256) as u8, 255])
    })
}

fn encoded(width: u32, height: u32, format: image::ImageFormat) -> Vec<u8> {
    let mut bytes = Vec::new();
    image::DynamicImage::ImageRgba8(picture(width, height))
        .write_to(&mut std::io::Cursor::new(&mut bytes), format)
        .unwrap();
    bytes
}

fn base64_of(bytes: &[u8]) -> String {
    base64::engine::general_purpose::STANDARD_NO_PAD.encode(bytes)
}

fn load(bytes: &[u8], ext: &str) -> OperationSpec {
    OperationSpec::Load { locator: base64_of(bytes), extension_hint: ext.to_string() }
}

fn optim(target: &str, quality: u8) -> OperationSpec {
    OperationSpec::Optim { target_format: target.to_string(), quality, speed: 3 }
}

fn rgba_of(pixels: &Raster) -> image::DynamicImage {
    let buffer = image::RgbaImage::from_raw(pixels.width(), pixels.height(), pixels.samples().clone()).unwrap();
    image::DynamicImage::ImageRgba8(buffer)
}

/// Stands in for the encoders: the codecs of the `image` crate.
fn encode(job: &EncodeJob) -> Vec<u8> {
    let (pixels, format) = match job {
        EncodeJob::Gif { bytes, .. } => return bytes.clone(),
        EncodeJob::Png { pixels, .. } => (pixels, image::ImageFormat::Png),
        EncodeJob::Webp { pixels, .. } => (pixels, image::ImageFormat::WebP),
        EncodeJob::Jpeg { pixels, .. } => (pixels, image::ImageFormat::Jpeg),
        EncodeJob::Avif { pixels, .. } => (pixels, image::ImageFormat::Png),
    };
    let mut bytes = Vec::new();
    rgba_of(pixels).write_to(&mut std::io::Cursor::new(&mut bytes), format).unwrap();
    bytes
}

/// Runs to the end, doing the encoder's part and refusing to fetch.
fn finish(run: PipelineRun, cache: &mut WatermarkCache) -> Result<ProcessImage, ImageProcessingError> {
    let (mut run, mut progress) = run.proceed(cache, None)?;
    loop {
        let reply = match &progress {
            Progress::Done => return Ok(run.into_image()),
            Progress::Encode { job } => Reply::Encoded { bytes: encode(job) },
            other => panic!("unexpected {:?}", other),
        };
        let next = run.proceed(cache, Some(reply))?;
        run = next.0;
        progress = next.1;
    }
}

#[test]
fn scenario_resize_then_encode_jpeg() {
    let jpeg = encoded(100, 50, image::ImageFormat::Jpeg);
    let ops = vec![load(&jpeg, "jpeg"), OperationSpec::Resize { width: 200, height: 0 }];
    let mut cache = WatermarkCache::new();
    let (run, progress) = PipelineRun::new(ops, false).proceed(&mut cache, None).unwrap();
    assert!(matches!(progress, Progress::Done));
    assert!(run.is_finished());
    assert_eq!(run.image().get_size(), (200, 100));
    assert!(run.image().buffer.is_empty());

    let ops = vec![load(&jpeg, "jpeg"), OperationSpec::Resize { width: 200, height: 0 }, optim("jpeg", 80)];
    let img = finish(PipelineRun::new(ops, false), &mut cache).unwrap();
    let bytes = img.get_buffer().unwrap();
    assert!(!bytes.is_empty());
    assert_eq!(image::guess_format(&bytes).unwrap(), image::ImageFormat::Jpeg);
    let decoded = image::load_from_memory(&bytes).unwrap();
    assert_eq!((decoded.width(), decoded.height()), (200, 100));
    assert_eq!(img.ext, "jpeg");
    assert_eq!(img.get_size(), (200, 100));
    assert_eq!(img.original_size, jpeg.len());
    // bytes that are no fewer than what was loaded are not kept
    assert!(img.buffer.is_empty() || img.buffer.len() < jpeg.len());
}

#[test]
fn scenario_crop_then_encode_webp_without_comparison() {
    let png = encoded(500, 500, image::ImageFormat::Png);
    let ops = vec![
        load(&png, "png"),
        OperationSpec::Crop { x: 100, y: 100, width: 200, height: 200 },
        optim("webp", 75),
        OperationSpec::Diff,
    ];
    let mut cache = WatermarkCache::new();
    let img = finish(PipelineRun::new(ops, false), &mut cache).unwrap();
    assert_eq!(img.get_size(), (200, 200));
    assert_eq!(img.ext, "webp");
    assert_eq!(img.diff, DiffStatus::NotApplicable);
    assert!(img.diff_inputs(false).is_none());

    // the plan for such a request leaves the comparison out
    let params = ImageTaskParams {
        file: "a/b.png".to_string(),
        output_type: Some("webp".to_string()),
        quality: Some(75),
        accept: String::new(),
        width: Some(200),
        height: Some(200),
        watermark: None,
        position: None,
        margin_left: None,
        margin_top: None,
        x: Some(100),
        y: Some(100),
    };
    let task = plan_image_task(&params, &get_default_optim_params(), "png");
    assert!(!task.ops.iter().any(|op| matches!(op, OperationSpec::Diff)));
    let image = load_image(png, "png".to_string()).unwrap();
    let img = finish(PipelineRun::with_image(task.ops, image, false), &mut cache).unwrap();
    assert_eq!(img.get_size(), (200, 200));
    assert_eq!(img.diff, DiffStatus::NotApplicable);
}

#[test]
fn scenario_same_input_same_output() {
    let png = encoded(40, 30, image::ImageFormat::Png);
    let mut cache = WatermarkCache::new();
    let ops = vec![load(&png, "png"), optim("png", 0)];
    let first = finish(PipelineRun::new(ops.clone(), false), &mut cache).unwrap();
    let second = finish(PipelineRun::new(ops, false), &mut cache).unwrap();
    assert_eq!(first.buffer, second.buffer);
    assert_eq!(first.get_buffer().unwrap(), second.get_buffer().unwrap());
    assert_eq!(first.di.samples(), second.di.samples());
}

fn watermark(locator: &str) -> OperationSpec {
    OperationSpec::Watermark {
        locator: locator.to_string(),
        position: WatermarkPosition::Center,
        margin_left: 0,
        margin_top: 0,
    }
}

fn fetched_png(width: u32, height: u32) -> Reply {
    Reply::Fetched {
        fetched: Fetched {
            bytes: encoded(width, height, image::ImageFormat::Png),
            content_type: Some("image/png".to_string()),
        },
    }
}

#[test]
fn scenario_two_runs_miss_the_same_watermark() {
    let mut cache = WatermarkCache::new();
    let png = encoded(20, 20, image::ImageFormat::Png);
    let locator = "https://example.com/mark.png";
    let ops = vec![load(&png, "png"), watermark(locator)];
    let (first, asked_first) = PipelineRun::new(ops.clone(), false).proceed(&mut cache, None).unwrap();
    let (second, asked_second) = PipelineRun::new(ops, false).proceed(&mut cache, None).unwrap();
    for asked in [&asked_first, &asked_second] {
        match asked {
            Progress::Fetch { locator: wanted } => assert_eq!(wanted, locator),
            other => panic!("unexpected {:?}", other),
        }
    }
    assert_eq!(cache.len(), 0);
    let (first, done_first) = first.proceed(&mut cache, Some(fetched_png(4, 4))).unwrap();
    assert_eq!(cache.len(), 1);
    let (second, done_second) = second.proceed(&mut cache, Some(fetched_png(4, 4))).unwrap();
    assert!(matches!(done_first, Progress::Done));
    assert!(matches!(done_second, Progress::Done));
    assert_eq!(cache.len(), 1);
    assert!(cache.contains(&locator.to_string()));
    assert_eq!(first.image().di.samples(), second.image().di.samples());
    assert_ne!(first.image().di.samples(), picture(20, 20).as_raw());

    // a third run finds it and fetches nothing
    let ops = vec![load(&png, "png"), watermark(locator)];
    let (third, progress) = PipelineRun::new(ops, false).proceed(&mut cache, None).unwrap();
    assert!(matches!(progress, Progress::Done));
    assert_eq!(third.image().di.samples(), first.image().di.samples());
}

#[test]
fn remote_load_asks_for_a_fetch() {
    let mut cache = WatermarkCache::new();
    let ops = vec![OperationSpec::Load { locator: "http://a/b".to_string(), extension_hint: "jpeg".to_string() }];
    let (run, progress) = PipelineRun::new(ops, false).step(&mut cache, None).unwrap();
    match progress {
        Progress::Fetch { locator } => assert_eq!(locator, "http://a/b"),
        other => panic!("unexpected {:?}", other),
    }
    assert!(!run.is_finished());
    let (run, progress) = run.step(&mut cache, Some(fetched_png(6, 5))).unwrap();
    assert!(matches!(progress, Progress::Continue));
    assert_eq!(run.image().get_size(), (6, 5));
    assert_eq!(run.image().ext, "png");
    assert!(run.image().original.is_some());
    let (run, progress) = run.step(&mut cache, None).unwrap();
    assert!(matches!(progress, Progress::Done));
    assert!(run.is_finished());
}

#[test]
fn step_does_one_operation() {
    let mut cache = WatermarkCache::new();
    let png = encoded(10, 10, image::ImageFormat::Png);
    let ops = vec![load(&png, "png"), OperationSpec::Grayscale, OperationSpec::Resize { width: 5, height: 5 }];
    let (run, progress) = PipelineRun::new(ops, false).step(&mut cache, None).unwrap();
    assert!(matches!(progress, Progress::Continue));
    assert_eq!(run.image().get_size(), (10, 10));
    let (run, _) = run.step(&mut cache, None).unwrap();
    assert_eq!(run.image().di.samples().len(), 100);
    let (run, _) = run.step(&mut cache, None).unwrap();
    assert_eq!(run.image().di.samples().len(), 100);
    assert_eq!(run.image().get_size(), (5, 5));
    let (run, progress) = run.step(&mut cache, None).unwrap();
    assert!(matches!(progress, Progress::Done));
    let (_, progress) = run.step(&mut cache, None).unwrap();
    assert!(matches!(progress, Progress::Done));
}

#[test]
fn empty_run_is_done_at_once() {
    let mut cache = WatermarkCache::new();
    let (run, progress) = PipelineRun::new(Vec::new(), false).proceed(&mut cache, None).unwrap();
    assert!(matches!(progress, Progress::Done));
    let img = run.into_image();
    assert_eq!(img.get_size(), (0, 0));
    assert_eq!(img.original_size, 0);
    assert!(img.buffer.is_empty());
}

#[test]
fn first_failure_ends_the_run() {
    let mut cache = WatermarkCache::new();
    let ops = vec![
        OperationSpec::Load { locator: "????".to_string(), extension_hint: "png".to_string() },
        OperationSpec::Grayscale,
    ];
    let out = PipelineRun::new(ops, false).proceed(&mut cache, None);
    assert!(matches!(out, Err(ImageProcessingError::Base64Decode { .. })));
    let png = encoded(4, 4, image::ImageFormat::Png);
    let ops = vec![load(&png, "png"), OperationSpec::Resize { width: 4_000_000_000, height: 4_000_000_000 }, OperationSpec::Grayscale];
    let out = PipelineRun::new(ops, false).proceed(&mut cache, None);
    assert!(matches!(out, Err(ImageProcessingError::ParamsInvalid { .. })));
}

#[test]
fn reply_that_nobody_waits_for_is_refused() {
    let mut cache = WatermarkCache::new();
    let png = encoded(4, 4, image::ImageFormat::Png);
    let out = PipelineRun::new(vec![load(&png, "png")], false)
        .step(&mut cache, Some(Reply::Encoded { bytes: vec![1] }));
    match out {
        Err(e) => assert_eq!(e.message(), "Process image fail, message:unexpected reply"),
        Ok(_) => panic!("nothing was asked for"),
    }
    let (run, _) = PipelineRun::new(vec![optim("png", 80)], false).step(&mut cache, None).unwrap();
    assert!(matches!(run.step(&mut cache, None), Err(ImageProcessingError::ParamsInvalid { .. })));
    let (run, _) = PipelineRun::new(vec![optim("png", 80)], false).step(&mut cache, None).unwrap();
    assert!(matches!(run.step(&mut cache, Some(fetched_png(1, 1))), Err(ImageProcessingError::ParamsInvalid { .. })));
    let out = PipelineRun::new(Vec::new(), false).step(&mut cache, Some(fetched_png(1, 1)));
    assert!(matches!(out, Err(ImageProcessingError::ParamsInvalid { .. })));
}

#[test]
fn comparison_is_due_after_encoding_alone() {
    let mut cache = WatermarkCache::new();
    let png = encoded(12, 12, image::ImageFormat::Png);
    let ops = vec![load(&png, "png"), optim("jpeg", 80), OperationSpec::Diff];
    let img = finish(PipelineRun::new(ops.clone(), false), &mut cache).unwrap();
    assert_eq!(img.diff, DiffStatus::Due);
    let (before, after) = img.diff_inputs(false).unwrap();
    assert_eq!((before.width(), before.height()), (after.width(), after.height()));
    assert_eq!(before.samples(), picture(12, 12).as_raw());
    // switched off
    let img = finish(PipelineRun::new(ops, true), &mut cache).unwrap();
    assert_eq!(img.diff, DiffStatus::NotApplicable);
    // nothing loaded
    let img = finish(PipelineRun::new(vec![OperationSpec::Diff], false), &mut cache).unwrap();
    assert_eq!(img.diff, DiffStatus::NotApplicable);
}

#[test]
fn comparison_is_refused_for_gif() {
    let mut cache = WatermarkCache::new();
    let gif = encoded(6, 6, image::ImageFormat::Gif);
    let ops = vec![load(&gif, "gif"), optim("gif", 80), OperationSpec::Diff];
    let img = finish(PipelineRun::new(ops, false), &mut cache).unwrap();
    assert_eq!(img.ext, "gif");
    assert_eq!(img.diff, DiffStatus::NotApplicable);
}

#[test]
fn avif_needs_the_caller_to_decode() {
    let mut cache = WatermarkCache::new();
    let png = encoded(6, 6, image::ImageFormat::Png);
    let ops = vec![load(&png, "png"), optim("avif", 60), OperationSpec::Diff];
    let (run, progress) = PipelineRun::new(ops, false).proceed(&mut cache, None).unwrap();
    assert!(matches!(progress, Progress::Encode { job: EncodeJob::Avif { quality: 60, speed: 3, .. } }));
    let (run, progress) = run.proceed(&mut cache, Some(Reply::Encoded { bytes: vec![9, 9] })).unwrap();
    match progress {
        Progress::DecodeAvif { bytes } => assert_eq!(bytes, vec![9, 9]),
        other => panic!("unexpected {:?}", other),
    }
    let pixels = Raster::from_raw(6, 6, image_pipeline::raster::PixelLayout::Rgba8, vec![3; 144]).unwrap();
    let (run, progress) = run.proceed(&mut cache, Some(Reply::Decoded { pixels })).unwrap();
    assert!(matches!(progress, Progress::Done));
    let img = run.into_image();
    assert_eq!(img.di.samples(), &vec![3; 144]);
    assert_eq!(img.buffer, vec![9, 9]);
    assert_eq!(img.diff, DiffStatus::Due);
}

#[test]
fn inline_watermark_has_no_format() {
    let mut cache = WatermarkCache::new();
    let png = encoded(6, 6, image::ImageFormat::Png);
    let ops = vec![load(&png, "png"), watermark(&base64_of(&png))];
    match PipelineRun::new(ops, false).proceed(&mut cache, None) {
        Err(e) => assert_eq!(e.message(), "format is not supported: "),
        Ok(_) => panic!("nothing names the format of the watermark"),
    }
    assert_eq!(cache.len(), 0);
}

#[test]
fn watermark_that_fails_to_load_is_not_cached() {
    let mut cache = WatermarkCache::new();
    let png = encoded(6, 6, image::ImageFormat::Png);
    let ops = vec![load(&png, "png"), watermark("http://a/mark")];
    let (run, _) = PipelineRun::new(ops, false).proceed(&mut cache, None).unwrap();
    let reply = Reply::Fetched { fetched: Fetched { bytes: vec![0; 10], content_type: Some("image/png".to_string()) } };
    assert!(matches!(run.proceed(&mut cache, Some(reply)), Err(ImageProcessingError::Image { .. })));
    assert_eq!(cache.len(), 0);
}

#[test]
fn comparison_is_refused_after_any_geometry_step() {
    let mut cache = WatermarkCache::new();
    let png = encoded(12, 12, image::ImageFormat::Png);
    // the size stays the same, and still nothing is compared
    for step in [
        OperationSpec::Resize { width: 12, height: 12 },
        OperationSpec::Resize { width: 0, height: 0 },
        OperationSpec::Crop { x: 0, y: 0, width: 12, height: 12 },
    ] {
        let ops = vec![load(&png, "png"), step, OperationSpec::Diff];
        let img = finish(PipelineRun::new(ops, false), &mut cache).unwrap();
        assert_eq!(img.get_size(), (12, 12));
        assert_eq!(img.diff, DiffStatus::NotApplicable);
    }
    // a step behind the comparison does not undo it
    let ops = vec![load(&png, "png"), OperationSpec::Diff, OperationSpec::Resize { width: 3, height: 3 }];
    let img = finish(PipelineRun::new(ops, false), &mut cache).unwrap();
    assert_eq!(img.diff, DiffStatus::Due);
    // grey is no change of geometry
    let ops = vec![load(&png, "png"), OperationSpec::Grayscale, OperationSpec::Diff];
    let img = finish(PipelineRun::new(ops, false), &mut cache).unwrap();
    assert_eq!(img.diff, DiffStatus::Due);
}

#[test]
fn webp_that_grew_is_still_handed_out() {
    let mut cache = WatermarkCache::new();
    let webp = encoded(20, 20, image::ImageFormat::WebP);
    let ops = vec![load(&webp, "webp"), OperationSpec::Resize { width: 200, height: 0 }, optim("webp", 75)];
    let img = finish(PipelineRun::new(ops, true), &mut cache).unwrap();
    assert_eq!(img.ext, "webp");
    assert_eq!(img.get_size(), (200, 200));
    // the new bytes are no fewer than what was loaded, so they were not kept
    assert!(img.buffer.is_empty());
    let bytes = img.get_buffer().unwrap();
    assert_eq!(image::guess_format(&bytes).unwrap(), image::ImageFormat::WebP);
    let decoded = image::load_from_memory(&bytes).unwrap();
    assert_eq!((decoded.width(), decoded.height()), (200, 200));
}
