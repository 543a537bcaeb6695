use base64::Engine;
use image_pipeline::error::{HTTPError, ImageProcessingError};
use image_pipeline::optim::{Codec, EncodeJob, OptimProcess, GIF_SPEED};
use image_pipeline::pipeline::load_image;
use image_pipeline::process::{content_subtype, load_bytes, Fetched, LoaderProcess, Process};
use image_pipeline::process_image::{DiffStatus, ProcessImage};
use image_pipeline::raster::{PixelLayout, Raster};

fn picture(width: u32, height: u32) -> image::RgbaImage {
    image::RgbaImage::from_fn(width, height, |x, y| {
        image::Rgba([(x * 7 % 256) as u8, (y * 5 % 256) as u8, ((x + y) % 256) as u8, 255])
    })
}

fn encoded(width: u32, height: u32, format: image::ImageFormat) -> Vec<u8> {
    let mut bytes = Vec::new();
    image::DynamicImage::ImageRgba8(picture(width, height))
        .write_to(&mut std::io::Cursor::new(&mut bytes), format)
        .unwrap();
    bytes
}

fn base64_of(bytes: &[u8]) -> String {
    base64::engine::general_purpose::STANDARD_NO_PAD.encode(bytes)
}

fn loaded_png(width: u32, height: u32) -> ProcessImage {
    load_image(encoded(width, height, image::ImageFormat::Png), "png".to_string()).unwrap()
}

#[test]
fn load_decodes_a_png() {
    let bytes = encoded(7, 3, image::ImageFormat::Png);
    let img = load_bytes(bytes.clone(), "png".to_string()).unwrap();
    assert_eq!(img.get_size(), (7, 3));
    assert_eq!(img.di.layout(), PixelLayout::Rgba8);
    assert_eq!(img.di.samples(), picture(7, 3).as_raw());
    assert_eq!(img.original_size, bytes.len());
    assert_eq!(img.buffer, bytes);
    assert_eq!(img.ext, "png");
    assert!(img.original.is_none());
    assert_eq!(img.diff, DiffStatus::NotApplicable);
}

#[test]
fn load_image_keeps_the_original() {
    let img = loaded_png(7, 3);
    let original = img.original.as_ref().unwrap();
    assert_eq!(original.samples(), img.di.samples());
    assert_eq!((original.width(), original.height()), (7, 3));
}

#[test]
fn load_goes_by_the_extension_without_regard_to_case() {
    let bytes = encoded(4, 4, image::ImageFormat::Jpeg);
    for ext in ["jpg", "jpeg", "JPG", "Jpeg", "jfif"] {
        let img = load_bytes(bytes.clone(), ext.to_string()).unwrap();
        assert_eq!(img.get_size(), (4, 4));
        assert_eq!(img.ext, ext);
    }
}

#[test]
fn load_refuses_an_unknown_extension() {
    let bytes = encoded(4, 4, image::ImageFormat::Png);
    for ext in ["", "txt", "pngx", "p ng"] {
        match load_bytes(bytes.clone(), ext.to_string()) {
            Err(ImageProcessingError::UnsupportedFormat { extension }) => assert_eq!(extension, ext),
            other => panic!("unexpected {:?}", other),
        }
    }
}

#[test]
fn load_reports_bytes_that_do_not_decode() {
    match load_bytes(vec![1, 2, 3, 4], "png".to_string()) {
        Err(e) => {
            assert!(matches!(e, ImageProcessingError::Image { .. }));
            assert!(!e.message().is_empty());
        }
        Ok(_) => panic!("four bytes are no image"),
    }
    let png = encoded(4, 4, image::ImageFormat::Png);
    assert!(matches!(load_bytes(png, "jpeg".to_string()), Err(ImageProcessingError::Image { .. })));
}

#[test]
fn loader_reads_base64_without_padding() {
    let bytes = encoded(5, 2, image::ImageFormat::Png);
    let loader = LoaderProcess::new(base64_of(&bytes), "png".to_string());
    assert!(!loader.is_remote());
    let img = loader.process(ProcessImage::new()).unwrap();
    assert_eq!(img.get_size(), (5, 2));
    assert_eq!(img.buffer, bytes);
    assert_eq!(img.original_size, bytes.len());
}

#[test]
fn loader_reports_text_that_is_not_base64() {
    let loader = LoaderProcess::new("not base64!".to_string(), "png".to_string());
    match loader.process(ProcessImage::new()) {
        Err(e) => {
            assert!(matches!(e, ImageProcessingError::Base64Decode { .. }));
            assert!(!e.message().is_empty());
        }
        Ok(_) => panic!("that is no base64"),
    }
    let padded = base64::engine::general_purpose::STANDARD.encode([1u8, 2, 3, 4]);
    assert!(padded.ends_with('='));
    let loader = LoaderProcess::new(padded, "png".to_string());
    assert!(matches!(loader.process(ProcessImage::new()), Err(ImageProcessingError::Base64Decode { .. })));
}

#[test]
fn loader_knows_remote_locators() {
    assert!(LoaderProcess::new("http://a/b.png".to_string(), String::new()).is_remote());
    assert!(LoaderProcess::new("https://a/b.png".to_string(), String::new()).is_remote());
    assert!(LoaderProcess::new("http".to_string(), String::new()).is_remote());
    assert!(!LoaderProcess::new("htt".to_string(), String::new()).is_remote());
    assert!(!LoaderProcess::new("Http://a".to_string(), String::new()).is_remote());
    assert!(!LoaderProcess::new(String::new(), String::new()).is_remote());
}

#[test]
fn content_type_gives_the_extension() {
    assert_eq!(content_subtype("image/png"), Some("png".to_string()));
    assert_eq!(content_subtype("image/"), Some(String::new()));
    assert_eq!(content_subtype("/x"), Some("x".to_string()));
    assert_eq!(content_subtype("image"), None);
    assert_eq!(content_subtype(""), None);
    assert_eq!(content_subtype("a/b/c"), None);
    assert_eq!(content_subtype("image/jpeg; q=1"), Some("jpeg; q=1".to_string()));
    let loader = LoaderProcess::new("http://a".to_string(), "gif".to_string());
    assert_eq!(loader.resolve_extension(&Some("image/webp".to_string())), "webp");
    assert_eq!(loader.resolve_extension(&Some("binary".to_string())), "gif");
    assert_eq!(loader.resolve_extension(&None), "gif");
}

#[test]
fn fetched_body_is_decoded_by_its_content_type() {
    let bytes = encoded(3, 9, image::ImageFormat::Png);
    let loader = LoaderProcess::new("http://a/b".to_string(), "jpeg".to_string());
    let img = loader
        .load_fetched(Fetched { bytes: bytes.clone(), content_type: Some("image/png".to_string()) })
        .unwrap();
    assert_eq!(img.get_size(), (3, 9));
    assert_eq!(img.ext, "png");
    let by_hint = loader.load_fetched(Fetched { bytes: bytes.clone(), content_type: None });
    assert!(matches!(by_hint, Err(ImageProcessingError::Image { .. })));
    let unknown = LoaderProcess::new("http://a/b".to_string(), String::new())
        .load_fetched(Fetched { bytes, content_type: Some("text/html".to_string()) });
    match unknown {
        Err(ImageProcessingError::UnsupportedFormat { extension }) => assert_eq!(extension, "html"),
        other => panic!("unexpected {:?}", other),
    }
}

#[test]
fn buffer_is_handed_out_as_it_is() {
    let img = loaded_png(4, 4);
    assert_eq!(img.get_buffer().unwrap(), img.buffer);
}

#[test]
fn missing_buffer_is_encoded_on_the_spot() {
    for (ext, format) in [
        ("png", image::ImageFormat::Png),
        ("PNG", image::ImageFormat::Png),
        ("apng", image::ImageFormat::Png),
        ("jpeg", image::ImageFormat::Jpeg),
        ("jpg", image::ImageFormat::Jpeg),
        ("JFIF", image::ImageFormat::Jpeg),
        ("webp", image::ImageFormat::WebP),
        ("WebP", image::ImageFormat::WebP),
        ("gif", image::ImageFormat::Gif),
        ("bmp", image::ImageFormat::Bmp),
        ("tiff", image::ImageFormat::Tiff),
        ("qoi", image::ImageFormat::Qoi),
    ] {
        let mut img = load_image(encoded(9, 4, format), ext.to_string()).unwrap();
        img.buffer = Vec::new();
        assert_eq!(img.encoding_extension(), ext);
        let bytes = img.get_buffer().unwrap();
        assert!(!bytes.is_empty());
        assert_eq!(image::guess_format(&bytes).unwrap(), format);
        // decoding what was encoded gives a raster of the same size
        let again = load_bytes(bytes, ext.to_string()).unwrap();
        assert_eq!(again.get_size(), (9, 4));
    }
}

#[test]
fn missing_buffer_of_an_unknown_format_becomes_jpeg() {
    let mut img = loaded_png(6, 6);
    img.buffer = Vec::new();
    img.ext = "whatever".to_string();
    assert_eq!(img.encoding_extension(), "jpeg");
    let bytes = img.get_buffer().unwrap();
    assert_eq!(image::guess_format(&bytes).unwrap(), image::ImageFormat::Jpeg);
}

#[test]
fn grey_raster_is_encoded_too() {
    let mut img = ProcessImage::new();
    img.di = Raster::from_raw(2, 2, PixelLayout::Luma8, vec![0, 50, 100, 250]).unwrap();
    img.ext = "png".to_string();
    let bytes = img.get_buffer().unwrap();
    let back = image::load_from_memory(&bytes).unwrap();
    assert_eq!(back.color(), image::ColorType::L8);
    assert_eq!(back.to_luma8().into_raw(), vec![0, 50, 100, 250]);
}

#[test]
fn encoding_nothing_fails() {
    let mut img = ProcessImage::new();
    img.ext = "png".to_string();
    match img.get_buffer() {
        Err(e) => assert_eq!(e.message(), "Process image fail, message:image is empty"),
        Ok(_) => panic!("nothing can be encoded"),
    }
}

#[test]
fn comparison_needs_an_original_of_the_same_size() {
    let img = loaded_png(4, 4);
    assert!(img.support_dssim(false));
    assert!(img.diff_applicable(false));
    let (before, after) = img.diff_inputs(false).unwrap();
    assert_eq!(before.samples(), after.samples());
    assert!(!img.diff_applicable(true));
    assert!(img.diff_inputs(true).is_none());

    let plain = load_bytes(encoded(4, 4, image::ImageFormat::Png), "png".to_string()).unwrap();
    assert!(!plain.diff_applicable(false));

    let mut resized = loaded_png(4, 4);
    resized.di = Raster::from_raw(2, 4, PixelLayout::Rgba8, vec![0; 32]).unwrap();
    assert!(!resized.diff_applicable(false));
    assert!(resized.diff_inputs(false).is_none());
}

#[test]
fn gif_is_never_compared() {
    let mut img = loaded_png(4, 4);
    img.ext = "gif".to_string();
    assert!(!img.support_dssim(false));
    assert!(!img.diff_applicable(false));
    assert!(img.diff_inputs(false).is_none());
    img.ext = "GIF".to_string();
    assert!(img.diff_applicable(false));
}

#[test]
fn comparison_is_made_on_four_bytes_per_pixel() {
    let mut img = loaded_png(2, 1);
    img.di = Raster::from_raw(2, 1, PixelLayout::Luma8, vec![5, 6]).unwrap();
    let (before, after) = img.diff_inputs(false).unwrap();
    assert_eq!(before.samples().len(), 8);
    assert_eq!(after.samples(), &vec![5, 5, 5, 255, 6, 6, 6, 255]);
}

#[test]
fn encoder_is_chosen_by_the_target() {
    assert_eq!(OptimProcess::codec_for("gif"), Codec::Gif);
    assert_eq!(OptimProcess::codec_for("png"), Codec::Png);
    assert_eq!(OptimProcess::codec_for("avif"), Codec::Avif);
    assert_eq!(OptimProcess::codec_for("webp"), Codec::Webp);
    assert_eq!(OptimProcess::codec_for("jpeg"), Codec::Jpeg);
    assert_eq!(OptimProcess::codec_for("jpg"), Codec::Jpeg);
    assert_eq!(OptimProcess::codec_for("PNG"), Codec::Jpeg);
    assert_eq!(OptimProcess::codec_for(""), Codec::Jpeg);
    assert_eq!(OptimProcess::codec_for("auto"), Codec::Jpeg);
}

#[test]
fn job_carries_what_the_encoder_needs() {
    let img = loaded_png(3, 2);
    match OptimProcess::new("png".to_string(), 0, 9).prepare(&img) {
        EncodeJob::Png { pixels, quality } => {
            assert_eq!(quality, 0);
            assert_eq!(pixels.samples(), img.di.samples());
        }
        other => panic!("unexpected {:?}", other),
    }
    match OptimProcess::new("avif".to_string(), 70, 4).prepare(&img) {
        EncodeJob::Avif { quality, speed, .. } => assert_eq!((quality, speed), (70, 4)),
        other => panic!("unexpected {:?}", other),
    }
    match OptimProcess::new("webp".to_string(), 100, 4).prepare(&img) {
        EncodeJob::Webp { quality, lossless, .. } => assert_eq!((quality, lossless), (100, true)),
        other => panic!("unexpected {:?}", other),
    }
    match OptimProcess::new("webp".to_string(), 99, 4).prepare(&img) {
        EncodeJob::Webp { quality, lossless, .. } => assert_eq!((quality, lossless), (99, false)),
        other => panic!("unexpected {:?}", other),
    }
    match OptimProcess::new("bmp".to_string(), 80, 4).prepare(&img) {
        EncodeJob::Jpeg { quality, .. } => assert_eq!(quality, 80),
        other => panic!("unexpected {:?}", other),
    }
    match OptimProcess::new("gif".to_string(), 80, 4).prepare(&img) {
        EncodeJob::Gif { bytes, speed } => {
            assert_eq!(bytes, img.buffer);
            assert_eq!(speed, GIF_SPEED);
            assert_eq!(speed, 10);
        }
        other => panic!("unexpected {:?}", other),
    }
    // no target: the image's own format
    match OptimProcess::new(String::new(), 80, 4).prepare(&img) {
        EncodeJob::Png { .. } => {}
        other => panic!("unexpected {:?}", other),
    }
}

#[test]
fn same_job_twice() {
    let img = loaded_png(5, 5);
    let op = OptimProcess::new("png".to_string(), 0, 3);
    let (a, b) = (op.prepare(&img), op.prepare(&img));
    match (a, b) {
        (EncodeJob::Png { pixels: p, quality: q }, EncodeJob::Png { pixels: r, quality: s }) => {
            assert_eq!(p.samples(), r.samples());
            assert_eq!((p.width(), p.height()), (r.width(), r.height()));
            assert_eq!(q, s);
        }
        other => panic!("unexpected {:?}", other),
    }
}

#[test]
fn larger_encoding_of_the_same_format_is_dropped() {
    let img = loaded_png(8, 8);
    let cached = img.buffer.clone();
    let mut larger = cached.clone();
    larger.push(0);
    let out = OptimProcess::new("png".to_string(), 80, 3).complete(img, larger, false).unwrap();
    assert_eq!(out.image.buffer, cached);
    assert!(!out.redecode_avif);
    assert_eq!(out.image.ext, "png");
    // of equal length: dropped as well
    let img = loaded_png(8, 8);
    let same = vec![0u8; cached.len()];
    let out = OptimProcess::new(String::new(), 80, 3).complete(img, same, false).unwrap();
    assert_eq!(out.image.buffer, cached);
}

#[test]
fn smaller_encoding_of_the_same_format_is_kept() {
    let img = loaded_png(8, 8);
    let smaller = encoded(2, 2, image::ImageFormat::Png);
    assert!(smaller.len() < img.buffer.len());
    let size = img.original_size;
    let out = OptimProcess::new("png".to_string(), 80, 3).complete(img, smaller.clone(), false).unwrap();
    assert_eq!(out.image.buffer, smaller);
    assert_eq!(out.image.original_size, size);
    // the raster was decoded anew from the bytes that were kept
    assert_eq!(out.image.get_size(), (2, 2));
}

#[test]
fn encoding_to_another_format_is_always_kept() {
    let img = loaded_png(2, 2);
    let jpeg = encoded(30, 30, image::ImageFormat::Jpeg);
    assert!(jpeg.len() > img.buffer.len());
    let out = OptimProcess::new("jpg".to_string(), 80, 3).complete(img, jpeg.clone(), false).unwrap();
    assert_eq!(out.image.buffer, jpeg);
    assert_eq!(out.image.ext, "jpeg");
    assert_eq!(out.image.get_size(), (30, 30));
}

#[test]
fn encoding_is_kept_where_nothing_was_loaded() {
    let mut img = ProcessImage::new();
    img.di = Raster::from_raw(1, 1, PixelLayout::Rgba8, vec![1, 2, 3, 4]).unwrap();
    img.ext = "png".to_string();
    assert_eq!(img.original_size, 0);
    let png = encoded(2, 2, image::ImageFormat::Png);
    let out = OptimProcess::new("png".to_string(), 80, 3).complete(img, png.clone(), true).unwrap();
    assert_eq!(out.image.buffer, png);
}

#[test]
fn encoding_is_measured_against_what_was_loaded() {
    // the cached bytes are gone, as after a resize: the size that was loaded still counts
    let mut img = loaded_png(8, 8);
    let size = img.original_size;
    img.buffer = Vec::new();
    let out = OptimProcess::new("png".to_string(), 80, 3).complete(img, vec![7u8; size], false).unwrap();
    assert!(out.image.buffer.is_empty());
    assert_eq!(out.image.original_size, size);
    assert_eq!(out.image.get_size(), (8, 8));
    // what is handed out then is encoded on the spot
    let bytes = out.image.get_buffer().unwrap();
    assert_eq!(image::guess_format(&bytes).unwrap(), image::ImageFormat::Png);

    let mut img = loaded_png(8, 8);
    img.buffer = Vec::new();
    let smaller = encoded(2, 2, image::ImageFormat::Png);
    assert!(smaller.len() < size);
    let out = OptimProcess::new("png".to_string(), 80, 3).complete(img, smaller.clone(), false).unwrap();
    assert_eq!(out.image.buffer, smaller);
    assert!(out.image.buffer.len() <= size);
}

#[test]
fn avif_is_encoded_on_the_spot_too() {
    let mut img = loaded_png(8, 8);
    img.buffer = Vec::new();
    img.ext = "avif".to_string();
    let bytes = img.get_buffer().unwrap();
    assert_eq!(image::guess_format(&bytes).unwrap(), image::ImageFormat::Avif);
}

#[test]
fn format_that_can_only_be_read_is_refused() {
    for ext in ["dds", "DDS", "Dds"] {
        let mut img = loaded_png(3, 3);
        img.buffer = Vec::new();
        img.ext = ext.to_string();
        match img.get_buffer() {
            Err(ImageProcessingError::UnsupportedFormat { extension }) => assert_eq!(extension, ext),
            other => panic!("unexpected {:?}", other),
        }
        // cached bytes are handed out whatever the format
        img.buffer = vec![1, 2, 3];
        assert_eq!(img.get_buffer().unwrap(), vec![1, 2, 3]);
    }
    let e = ImageProcessingError::UnsupportedFormat { extension: "dds".to_string() };
    assert_eq!(e.message(), "format is not supported: dds");
    assert_eq!(HTTPError::from_processing(&e).message, "format is not supported: dds");
}

#[test]
fn jpeg_cannot_hold_every_size() {
    let mut img = ProcessImage::new();
    img.di = Raster::from_raw(70000, 1, PixelLayout::Luma8, vec![0u8; 70000]).unwrap();
    img.ext = "jpeg".to_string();
    assert!(matches!(img.get_buffer(), Err(ImageProcessingError::Image { .. })));
    img.ext = "png".to_string();
    assert!(img.get_buffer().is_ok());
}

#[test]
fn raster_is_left_alone_where_nothing_is_compared() {
    let img = loaded_png(2, 2);
    let jpeg = encoded(30, 30, image::ImageFormat::Jpeg);
    let out = OptimProcess::new("jpeg".to_string(), 80, 3).complete(img, jpeg, true).unwrap();
    assert_eq!(out.image.get_size(), (2, 2));
    // gif is never compared, so nothing is decoded, whatever the bytes
    let img = loaded_png(2, 2);
    let out = OptimProcess::new("gif".to_string(), 80, 3).complete(img, vec![1, 2, 3], false).unwrap();
    assert_eq!(out.image.get_size(), (2, 2));
    assert_eq!(out.image.buffer, vec![1, 2, 3]);
    assert_eq!(out.image.ext, "gif");
}

#[test]
fn kept_bytes_that_do_not_decode_fail_the_step() {
    let img = loaded_png(2, 2);
    let out = OptimProcess::new("webp".to_string(), 80, 3).complete(img, vec![1, 2, 3], false);
    assert!(matches!(out, Err(ImageProcessingError::Image { .. })));
}

#[test]
fn avif_is_decoded_by_the_caller() {
    let img = loaded_png(2, 2);
    let out = OptimProcess::new("avif".to_string(), 80, 3).complete(img, vec![1, 2, 3], false).unwrap();
    assert!(out.redecode_avif);
    assert_eq!(out.image.ext, "avif");
    assert_eq!(out.image.buffer, vec![1, 2, 3]);
    assert_eq!(out.image.get_size(), (2, 2));
    let pixels = Raster::from_raw(1, 1, PixelLayout::Rgba8, vec![1, 2, 3, 4]).unwrap();
    let done = OptimProcess::finish_avif(out.image, pixels);
    assert_eq!(done.get_size(), (1, 1));
    assert_eq!(done.buffer, vec![1, 2, 3]);
    // with comparison switched off there is nothing to decode
    let img = loaded_png(2, 2);
    let out = OptimProcess::new("avif".to_string(), 80, 3).complete(img, vec![1, 2, 3], true).unwrap();
    assert!(!out.redecode_avif);
}

#[test]
fn http_error_new_defaults_to_400() {
    let e = HTTPError::new("bad", "validate");
    assert_eq!((e.message.as_str(), e.category.as_str(), e.status), ("bad", "validate", 400));
    let e = HTTPError::new_with_category_status("Request took too long", "timeout", 408);
    assert_eq!((e.message.as_str(), e.category.as_str(), e.status), ("Request took too long", "timeout", 408));
    let e = HTTPError::default();
    assert_eq!((e.message.as_str(), e.category.as_str(), e.status), ("", "", 400));
}

#[test]
fn processing_error_becomes_a_client_error() {
    let e = ImageProcessingError::params_invalid("params is invalid");
    assert_eq!(e.message(), "Process image fail, message:params is invalid");
    let http = HTTPError::from_processing(&e);
    assert_eq!(http.status, 400);
    assert_eq!(http.category, "");
    assert_eq!(http.message, "Process image fail, message:params is invalid");
    let e = ImageProcessingError::ParseInt { text: "x1".to_string() };
    assert_eq!(e.message(), "invalid number: x1");
}

#[test]
fn every_known_extension_is_answered() {
    let known = [
        "avif", "jpg", "jpeg", "jfif", "png", "apng", "gif", "webp", "tif", "tiff", "tga", "dds", "bmp", "ico",
        "hdr", "exr", "pbm", "pam", "ppm", "pgm", "pnm", "ff", "qoi",
    ];
    let rasters = [
        (0u32, 0u32, PixelLayout::Rgba8, vec![]),
        (0, 3, PixelLayout::Luma8, vec![]),
        (2, 2, PixelLayout::Rgba8, vec![7u8; 16]),
        (3, 1, PixelLayout::Luma8, vec![1, 2, 3]),
        (300, 1, PixelLayout::Rgba8, vec![9u8; 1200]),
        (1, 1, PixelLayout::Rgba8, vec![1, 2, 3, 4]),
        (1, 1, PixelLayout::Luma8, vec![1]),
        (1, 257, PixelLayout::Rgba8, vec![200u8; 1028]),
        (1, 70000, PixelLayout::Luma8, vec![9u8; 70000]),
        (70000, 1, PixelLayout::Rgba8, vec![9u8; 280000]),
    ];
    for ext in known {
        for (width, height, layout, data) in rasters.iter() {
            let mut img = ProcessImage::new();
            img.di = Raster::from_raw(*width, *height, *layout, data.clone()).unwrap();
            img.ext = ext.to_string();
            assert_eq!(img.encoding_extension(), ext);
            // the answer may be a refusal, but never empty bytes
            match img.get_buffer() {
                Ok(bytes) => {
                    assert!(!bytes.is_empty());
                    assert!(*width > 0 && *height > 0 && ext != "dds");
                }
                Err(ImageProcessingError::ParamsInvalid { .. }) => assert!(*width == 0 || *height == 0),
                Err(ImageProcessingError::UnsupportedFormat { extension }) => assert_eq!(extension, "dds"),
                Err(e) => assert!(matches!(e, ImageProcessingError::Image { .. })),
            }
            // whatever the bytes, the decoder answers too
            let _ = load_bytes(data.clone(), ext.to_string());
            let _ = load_bytes(vec![0u8; 64], ext.to_uppercase());
        }
    }
}
