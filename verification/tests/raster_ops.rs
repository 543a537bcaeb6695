use image_pipeline::process::{
    CropProcess, GrayProcess, Process, ResizeProcess, WatermarkPosition, WatermarkProcess,
};
use image_pipeline::process_image::ProcessImage;
use image_pipeline::codec::{extension_is_known, has_plain_encoder, names_format};
use image_pipeline::raster::{sample_count, PixelLayout, Raster};

/// A raster whose pixel at (x, y) is (x, y, x + y, 255).
fn gradient(width: u32, height: u32) -> Raster {
    let mut data = Vec::new();
    for y in 0..height {
        for x in 0..width {
            data.push(x as u8);
            data.push(y as u8);
            data.push((x + y) as u8);
            data.push(255);
        }
    }
    Raster::from_raw(width, height, PixelLayout::Rgba8, data).unwrap()
}

fn flat(width: u32, height: u32, pixel: [u8; 4]) -> Raster {
    let mut data = Vec::new();
    for _ in 0..(width * height) {
        data.extend_from_slice(&pixel);
    }
    Raster::from_raw(width, height, PixelLayout::Rgba8, data).unwrap()
}

fn image_of(raster: Raster) -> ProcessImage {
    let mut img = ProcessImage::new();
    img.di = raster;
    img.buffer = vec![1, 2, 3];
    img
}

fn pixel(raster: &Raster, x: u32, y: u32) -> [u8; 4] {
    let at = ((y * raster.width() + x) * 4) as usize;
    let s = raster.samples();
    [s[at], s[at + 1], s[at + 2], s[at + 3]]
}

#[test]
fn raster_from_raw_checks_the_length() {
    assert!(Raster::from_raw(2, 2, PixelLayout::Rgba8, vec![0; 16]).is_some());
    assert!(Raster::from_raw(2, 2, PixelLayout::Rgba8, vec![0; 15]).is_none());
    assert!(Raster::from_raw(2, 2, PixelLayout::Luma8, vec![0; 4]).is_some());
    assert!(Raster::from_raw(2, 2, PixelLayout::Luma8, vec![0; 16]).is_none());
    assert!(Raster::from_raw(0, 7, PixelLayout::Rgba8, vec![]).is_some());
}

#[test]
fn sample_count_multiplies() {
    assert_eq!(sample_count(3, 5, PixelLayout::Rgba8), Some(60));
    assert_eq!(sample_count(3, 5, PixelLayout::Luma8), Some(15));
    assert_eq!(sample_count(0, 5, PixelLayout::Rgba8), Some(0));
}

#[test]
fn empty_raster_has_no_pixels() {
    let r = Raster::new();
    assert_eq!((r.width(), r.height()), (0, 0));
    assert!(r.samples().is_empty());
}

#[test]
fn luma_expands_to_opaque_grey() {
    let r = Raster::from_raw(2, 1, PixelLayout::Luma8, vec![7, 200]).unwrap();
    let rgba = r.to_rgba();
    assert_eq!(rgba.layout(), PixelLayout::Rgba8);
    assert_eq!(rgba.samples(), &vec![7, 7, 7, 255, 200, 200, 200, 255]);
    let same = rgba.to_rgba();
    assert_eq!(same.samples(), rgba.samples());
}

#[test]
fn crop_copies_the_rectangle() {
    let out = CropProcess::new(2, 1, 3, 2).process(image_of(gradient(8, 6))).unwrap();
    assert_eq!(out.get_size(), (3, 2));
    assert!(out.buffer.is_empty());
    for y in 0..2u32 {
        for x in 0..3u32 {
            assert_eq!(pixel(&out.di, x, y), [(x + 2) as u8, (y + 1) as u8, (x + y + 3) as u8, 255]);
        }
    }
}

#[test]
fn crop_is_clipped_to_the_raster() {
    let out = CropProcess::new(6, 4, 10, 10).process(image_of(gradient(8, 6))).unwrap();
    assert_eq!(out.get_size(), (2, 2));
    assert_eq!(pixel(&out.di, 0, 0), [6, 4, 10, 255]);
    let none = CropProcess::new(20, 20, 5, 5).process(image_of(gradient(8, 6))).unwrap();
    assert_eq!(none.get_size(), (0, 0));
    assert!(none.di.samples().is_empty());
}

#[test]
fn grayscale_takes_the_luminance() {
    let data = vec![255, 0, 0, 255, 0, 255, 0, 255, 0, 0, 255, 10, 255, 255, 255, 0, 10, 20, 30, 255, 0, 0, 0, 255];
    let raster = Raster::from_raw(3, 2, PixelLayout::Rgba8, data).unwrap();
    let out = GrayProcess::new().process(image_of(raster)).unwrap();
    assert_eq!(out.di.layout(), PixelLayout::Luma8);
    assert_eq!(out.get_size(), (3, 2));
    assert!(out.buffer.is_empty());
    // (2126 r + 7152 g + 722 b) / 10000
    assert_eq!(out.di.samples(), &vec![54, 182, 18, 255, 18, 0]);
}

#[test]
fn grayscale_of_grey_is_itself() {
    let raster = Raster::from_raw(2, 2, PixelLayout::Luma8, vec![1, 2, 3, 250]).unwrap();
    let out = GrayProcess::new().process(image_of(raster)).unwrap();
    assert_eq!(out.di.samples(), &vec![1, 2, 3, 250]);
}

#[test]
fn resize_gives_the_size_asked_for() {
    let out = ResizeProcess::new(5, 9).process(image_of(gradient(8, 6))).unwrap();
    assert_eq!(out.get_size(), (5, 9));
    assert_eq!(out.di.samples().len(), 5 * 9 * 4);
    assert!(out.buffer.is_empty());
    assert_eq!(out.di.layout(), PixelLayout::Rgba8);
}

#[test]
fn resize_with_two_zeros_changes_nothing() {
    let out = ResizeProcess::new(0, 0).process(image_of(gradient(8, 6))).unwrap();
    assert_eq!(out.get_size(), (8, 6));
    assert_eq!(out.buffer, vec![1, 2, 3]);
    assert_eq!(out.di.samples(), gradient(8, 6).samples());
}

#[test]
fn resize_keeps_the_ratio_for_a_missing_width() {
    // 100 x 50, height 100 -> width 100 * 100 / 50
    assert_eq!(ResizeProcess::new(0, 100).target(100, 50).unwrap(), (200, 100));
    // rounded down: 3 * 1 / 2 = 1
    assert_eq!(ResizeProcess::new(0, 1).target(3, 2).unwrap(), (1, 1));
    assert_eq!(ResizeProcess::new(0, 7).target(10, 3).unwrap(), (23, 7));
    let out = ResizeProcess::new(0, 3).process(image_of(gradient(8, 6))).unwrap();
    assert_eq!(out.get_size(), (4, 3));
}

#[test]
fn resize_keeps_the_ratio_for_a_missing_height() {
    assert_eq!(ResizeProcess::new(200, 0).target(100, 50).unwrap(), (200, 100));
    assert_eq!(ResizeProcess::new(1, 0).target(2, 3).unwrap(), (1, 1));
    assert_eq!(ResizeProcess::new(5, 0).target(3, 1).unwrap(), (5, 1));
    let out = ResizeProcess::new(4, 0).process(image_of(gradient(8, 6))).unwrap();
    assert_eq!(out.get_size(), (4, 3));
}

#[test]
fn resize_may_come_to_nothing() {
    assert_eq!(ResizeProcess::new(0, 1).target(1, 3).unwrap(), (0, 1));
    let out = ResizeProcess::new(0, 1).process(image_of(gradient(1, 3))).unwrap();
    assert_eq!(out.get_size(), (0, 1));
    assert!(out.di.samples().is_empty());
}

#[test]
fn resize_of_nothing_fails_where_a_length_is_missing() {
    match ResizeProcess::new(0, 10).process(ProcessImage::new()) {
        Err(e) => assert_eq!(e.message(), "Process image fail, message:image is empty"),
        Ok(_) => panic!("an empty image has no ratio"),
    }
    match ResizeProcess::new(10, 0).target(0, 5) {
        Err(e) => assert_eq!(e.message(), "Process image fail, message:image is empty"),
        Ok(_) => panic!("an empty image has no ratio"),
    }
    let out = ResizeProcess::new(2, 3).process(ProcessImage::new()).unwrap();
    assert_eq!(out.get_size(), (2, 3));
}

#[test]
fn resize_beyond_the_machine_fails() {
    match ResizeProcess::new(0, 4_000_000_000).target(4_000_000_000, 1) {
        Err(e) => assert_eq!(e.message(), "Process image fail, message:image is too large"),
        Ok(_) => panic!("the width does not fit"),
    }
    match ResizeProcess::new(4_000_000_000, 4_000_000_000).target(10, 10) {
        Err(e) => assert_eq!(e.message(), "Process image fail, message:image is too large"),
        Ok(_) => panic!("the raster does not fit"),
    }
}

#[test]
fn position_names() {
    assert_eq!(WatermarkPosition::from_str("leftTop"), WatermarkPosition::LeftTop);
    assert_eq!(WatermarkPosition::from_str("top"), WatermarkPosition::Top);
    assert_eq!(WatermarkPosition::from_str("rightTop"), WatermarkPosition::RightTop);
    assert_eq!(WatermarkPosition::from_str("left"), WatermarkPosition::Left);
    assert_eq!(WatermarkPosition::from_str("center"), WatermarkPosition::Center);
    assert_eq!(WatermarkPosition::from_str("right"), WatermarkPosition::Right);
    assert_eq!(WatermarkPosition::from_str("leftBottom"), WatermarkPosition::LeftBottom);
    assert_eq!(WatermarkPosition::from_str("bottom"), WatermarkPosition::Bottom);
    assert_eq!(WatermarkPosition::from_str("rightBottom"), WatermarkPosition::RightBottom);
    assert_eq!(WatermarkPosition::from_str(""), WatermarkPosition::RightBottom);
    assert_eq!(WatermarkPosition::from_str("Center"), WatermarkPosition::RightBottom);
}

fn place(position: WatermarkPosition, margins: (i32, i32), canvas: (u32, u32), mark: (u32, u32)) -> (i64, i64) {
    WatermarkProcess::new(flat(mark.0, mark.1, [0, 0, 0, 255]), position, margins.0, margins.1)
        .place(canvas.0, canvas.1)
}

#[test]
fn watermark_anchors() {
    let canvas = (100, 60);
    let mark = (30, 11);
    assert_eq!(place(WatermarkPosition::LeftTop, (0, 0), canvas, mark), (0, 0));
    assert_eq!(place(WatermarkPosition::Top, (0, 0), canvas, mark), (35, 0));
    assert_eq!(place(WatermarkPosition::RightTop, (0, 0), canvas, mark), (70, 0));
    assert_eq!(place(WatermarkPosition::Left, (0, 0), canvas, mark), (0, 24));
    assert_eq!(place(WatermarkPosition::Center, (0, 0), canvas, mark), (35, 24));
    assert_eq!(place(WatermarkPosition::Right, (0, 0), canvas, mark), (70, 24));
    assert_eq!(place(WatermarkPosition::LeftBottom, (0, 0), canvas, mark), (0, 49));
    assert_eq!(place(WatermarkPosition::Bottom, (0, 0), canvas, mark), (35, 49));
    assert_eq!(place(WatermarkPosition::RightBottom, (0, 0), canvas, mark), (70, 49));
}

#[test]
fn watermark_center_is_half_the_difference() {
    assert_eq!(place(WatermarkPosition::Center, (0, 0), (10, 10), (4, 2)), (3, 4));
    // rounded down, also below zero
    assert_eq!(place(WatermarkPosition::Center, (0, 0), (10, 10), (13, 11)), (-2, -1));
    assert_eq!(place(WatermarkPosition::Center, (0, 0), (0, 0), (7, 1)), (-4, -1));
}

#[test]
fn watermark_margins_are_added() {
    assert_eq!(place(WatermarkPosition::Center, (5, -7), (10, 10), (4, 2)), (8, -3));
    assert_eq!(place(WatermarkPosition::RightBottom, (-2, -3), (10, 10), (4, 2)), (4, 5));
    assert_eq!(
        place(WatermarkPosition::LeftTop, (i32::MIN, i32::MAX), (10, 10), (4, 2)),
        (i32::MIN as i64, i32::MAX as i64)
    );
}

#[test]
fn watermark_replaces_what_it_covers() {
    let mark = flat(2, 2, [9, 8, 7, 255]);
    let op = WatermarkProcess::new(mark, WatermarkPosition::RightBottom, 0, 0);
    let out = op.process(image_of(gradient(6, 5))).unwrap();
    assert_eq!(out.get_size(), (6, 5));
    assert!(out.buffer.is_empty());
    assert_eq!(pixel(&out.di, 4, 3), [9, 8, 7, 255]);
    assert_eq!(pixel(&out.di, 5, 4), [9, 8, 7, 255]);
    assert_eq!(pixel(&out.di, 3, 3), [3, 3, 6, 255]);
    assert_eq!(pixel(&out.di, 0, 0), [0, 0, 0, 255]);
}

#[test]
fn watermark_outside_the_canvas_is_clipped() {
    let mark = flat(4, 4, [9, 8, 7, 255]);
    let op = WatermarkProcess::new(mark, WatermarkPosition::LeftTop, -3, -3);
    let out = op.process(image_of(gradient(6, 5))).unwrap();
    assert_eq!(pixel(&out.di, 0, 0), [9, 8, 7, 255]);
    assert_eq!(pixel(&out.di, 1, 0), [1, 0, 1, 255]);
    let far = WatermarkProcess::new(flat(4, 4, [9, 8, 7, 255]), WatermarkPosition::LeftTop, 100, 100);
    let same = far.process(image_of(gradient(6, 5))).unwrap();
    assert_eq!(same.di.samples(), gradient(6, 5).samples());
}

#[test]
fn transparent_watermark_changes_nothing() {
    let mark = flat(6, 5, [9, 8, 7, 0]);
    let op = WatermarkProcess::new(mark, WatermarkPosition::LeftTop, 0, 0);
    let out = op.process(image_of(gradient(6, 5))).unwrap();
    assert_eq!(out.di.samples(), gradient(6, 5).samples());
}

#[test]
fn watermark_on_grey_stays_grey() {
    let bottom = Raster::from_raw(2, 1, PixelLayout::Luma8, vec![10, 20]).unwrap();
    let mark = flat(1, 1, [255, 0, 0, 255]);
    let op = WatermarkProcess::new(mark, WatermarkPosition::LeftTop, 0, 0);
    let out = op.process(image_of(bottom)).unwrap();
    assert_eq!(out.di.layout(), PixelLayout::Luma8);
    assert_eq!(out.di.samples(), &vec![54, 20]);
}

#[test]
fn resize_to_the_same_size_keeps_the_samples() {
    let out = ResizeProcess::new(8, 6).process(image_of(gradient(8, 6))).unwrap();
    assert_eq!(out.di.samples(), gradient(8, 6).samples());
    assert!(out.buffer.is_empty());
    let out = ResizeProcess::new(8, 0).process(image_of(gradient(8, 6))).unwrap();
    assert_eq!(out.di.samples(), gradient(8, 6).samples());
    // a grey raster comes out with four bytes per pixel
    let grey = Raster::from_raw(2, 1, PixelLayout::Luma8, vec![9, 200]).unwrap();
    let out = ResizeProcess::new(2, 1).process(image_of(grey)).unwrap();
    assert_eq!(out.di.samples(), &vec![9, 9, 9, 255, 200, 200, 200, 255]);
}

#[test]
fn resize_of_nothing_gives_zeros() {
    let out = ResizeProcess::new(3, 2).process(ProcessImage::new()).unwrap();
    assert_eq!(out.di.samples(), &vec![0u8; 24]);
}

#[test]
fn resize_changes_a_picture() {
    let out = ResizeProcess::new(4, 3).process(image_of(gradient(8, 6))).unwrap();
    assert_eq!(out.di.samples().len(), 48);
    assert!(out.di.samples().iter().any(|&b| b != 0));
}

#[test]
fn extensions_are_compared_without_case() {
    assert!(names_format("PNG", "png"));
    assert!(names_format("pNg", "png"));
    assert!(!names_format("png", "PNG"));
    assert!(!names_format("pn", "png"));
    assert!(!names_format("pngs", "png"));
    assert!(names_format("", ""));
    assert!(!names_format("p\u{212A}", "pk"));
    for ext in [
        "avif", "jpg", "jpeg", "jfif", "png", "apng", "gif", "webp", "tif", "tiff", "tga", "dds", "bmp", "ico",
        "hdr", "exr", "pbm", "pam", "ppm", "pgm", "pnm", "ff", "qoi",
    ] {
        assert!(extension_is_known(ext));
        assert!(extension_is_known(&ext.to_uppercase()));
        assert_eq!(has_plain_encoder(ext), ext != "dds");
        assert_eq!(has_plain_encoder(&ext.to_uppercase()), ext != "dds");
    }
    for ext in ["", "jpe", "svg", "pn g", "mp4", "jpeg2000", " png", "png.", "heic", "jxl"] {
        assert_eq!(extension_is_known(ext), image::ImageFormat::from_extension(ext).is_some(), "{:?}", ext);
        assert!(!extension_is_known(ext));
        assert!(!has_plain_encoder(ext));
    }
}
