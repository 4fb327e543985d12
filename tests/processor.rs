use image::{DynamicImage, GenericImageView, ImageFormat, ImageOutputFormat};
use wasm_ocr::geometry::fitted_size;
use wasm_ocr::processor::{DecodeFailure, ImageProcessor, ProcessorError};
use wasm_ocr::text::{jpeg_data_uri, payload_of, size_label_of};

fn png_base64(width: u32, height: u32) -> String {
    let img = DynamicImage::new_rgb8(width, height);
    let mut bytes: Vec<u8> = Vec::new();
    img.write_to(&mut std::io::Cursor::new(&mut bytes), ImageOutputFormat::Png)
        .unwrap();
    base64::encode(&bytes)
}

fn jpeg_base64(width: u32, height: u32) -> String {
    let img = DynamicImage::new_rgb8(width, height);
    let mut bytes: Vec<u8> = Vec::new();
    img.write_to(&mut std::io::Cursor::new(&mut bytes), ImageOutputFormat::Jpeg(80))
        .unwrap();
    base64::encode(&bytes)
}

#[test]
fn new_processor_is_empty() {
    let p = ImageProcessor::new();
    assert_eq!(p.image_count(), 0);
    assert!(p.get_image_sizes().is_empty());
}

#[test]
fn ingest_png_base64_adds_one_image() {
    let mut p = ImageProcessor::new();
    assert!(p.add_image_from_base64(&png_base64(8, 4)).is_ok());
    assert_eq!(p.image_count(), 1);
    assert_eq!(p.get_image_sizes(), vec!["8x4".to_string()]);
}

#[test]
fn ingest_jpeg_base64_adds_one_image() {
    let mut p = ImageProcessor::new();
    assert!(p.add_image_from_base64(&jpeg_base64(16, 9)).is_ok());
    assert_eq!(p.image_count(), 1);
    assert_eq!(p.get_image_sizes(), vec!["16x9".to_string()]);
}

#[test]
fn ingest_data_uri_matches_bare_payload() {
    let bare = png_base64(5, 7);
    let uri = format!("data:image/png;base64,{}", bare);
    let mut a = ImageProcessor::new();
    let mut b = ImageProcessor::new();
    assert!(a.add_image_from_base64(&bare).is_ok());
    assert!(b.add_image_from_base64(&uri).is_ok());
    assert_eq!(a.get_image_sizes(), b.get_image_sizes());
    assert_eq!(b.get_image_sizes(), vec!["5x7".to_string()]);
}

#[test]
fn data_uri_without_comma_is_malformed() {
    let mut p = ImageProcessor::new();
    let r = p.add_image_from_base64("data:image/png;base64");
    assert!(matches!(r, Err(ProcessorError::MalformedInput)));
    assert_eq!(p.image_count(), 0);
}

#[test]
fn invalid_base64_is_decode_error() {
    let mut p = ImageProcessor::new();
    let r = p.add_image_from_base64("not-valid-base64!!");
    assert!(matches!(
        r,
        Err(ProcessorError::DecodeError(DecodeFailure::Base64(_)))
    ));
    assert_eq!(p.image_count(), 0);
}

#[test]
fn non_image_bytes_are_decode_error() {
    let mut p = ImageProcessor::new();
    let r = p.add_image_from_base64(&base64::encode(b"hello, not an image"));
    assert!(matches!(
        r,
        Err(ProcessorError::DecodeError(DecodeFailure::Image(_)))
    ));
    assert_eq!(p.image_count(), 0);
}

#[test]
fn resize_wide_image_binds_width() {
    let mut p = ImageProcessor::new();
    p.push_image(DynamicImage::new_luma8(4000, 2000));
    assert!(p.resize_images(1000, 1000).is_ok());
    assert_eq!(p.get_image_sizes(), vec!["1000x500".to_string()]);
}

#[test]
fn resize_leaves_small_image_unchanged() {
    let mut p = ImageProcessor::new();
    p.push_image(DynamicImage::new_rgb8(500, 500));
    assert!(p.resize_images(1000, 1000).is_ok());
    assert_eq!(p.get_image_sizes(), vec!["500x500".to_string()]);
}

#[test]
fn resize_tall_image_binds_height() {
    let mut p = ImageProcessor::new();
    p.push_image(DynamicImage::new_rgb8(300, 900));
    p.push_image(DynamicImage::new_rgb8(90, 30));
    assert!(p.resize_images(200, 300).is_ok());
    assert_eq!(
        p.get_image_sizes(),
        vec!["100x300".to_string(), "90x30".to_string()]
    );
}

#[test]
fn fitted_size_values() {
    assert_eq!(fitted_size(4000, 2000, 1000, 1000), (1000, 500));
    assert_eq!(fitted_size(500, 500, 1000, 1000), (500, 500));
    assert_eq!(fitted_size(2000, 4000, 1000, 1000), (500, 1000));
    assert_eq!(fitted_size(1000, 333, 300, 300), (300, 99));
    assert_eq!(fitted_size(3000, 3000, 1000, 500), (1000, 1000));
    assert_eq!(fitted_size(4000, 1, 1000, 1000), (1000, 0));
    assert_eq!(fitted_size(1000, 1000, 1000, 1000), (1000, 1000));
}

#[test]
fn resize_twice_equals_resize_once() {
    let mut once = ImageProcessor::new();
    let mut twice = ImageProcessor::new();
    for p in [&mut once, &mut twice] {
        p.push_image(DynamicImage::new_rgb8(120, 40));
        p.push_image(DynamicImage::new_rgb8(30, 90));
        p.push_image(DynamicImage::new_rgb8(10, 10));
        p.push_image(DynamicImage::new_rgb8(50, 50));
    }
    assert!(once.resize_images(60, 20).is_ok());
    assert!(twice.resize_images(60, 20).is_ok());
    let first = twice.get_image_sizes();
    assert!(twice.resize_images(60, 20).is_ok());
    assert_eq!(twice.get_image_sizes(), first);
    assert_eq!(once.get_image_sizes(), twice.get_image_sizes());
    assert_eq!(
        once.encode_as_jpeg(90).ok().unwrap(),
        twice.encode_as_jpeg(90).ok().unwrap()
    );
}

#[test]
fn encode_round_trip_keeps_dimensions() {
    let mut p = ImageProcessor::new();
    assert!(p.add_image_from_base64(&png_base64(40, 20)).is_ok());
    assert!(p.add_image_from_base64(&png_base64(300, 600)).is_ok());
    assert!(p.resize_images(100, 100).is_ok());
    let uris = p.encode_as_jpeg(90).ok().unwrap();
    assert_eq!(uris.len(), 2);
    let expected = [(40u32, 20u32), (50u32, 100u32)];
    for (uri, dims) in uris.iter().zip(expected.iter()) {
        let prefix = "data:image/jpeg;base64,";
        assert!(uri.starts_with(prefix));
        let bytes = base64::decode(&uri[prefix.len()..]).unwrap();
        assert_eq!(image::guess_format(&bytes).unwrap(), ImageFormat::Jpeg);
        let back = image::load_from_memory(&bytes).unwrap();
        assert_eq!(back.dimensions(), *dims);
    }
}

#[test]
fn encode_empty_batch_is_empty() {
    let p = ImageProcessor::new();
    assert!(p.encode_as_jpeg(90).ok().unwrap().is_empty());
}

#[test]
fn encode_unsupported_pixels_is_encode_error() {
    let mut p = ImageProcessor::new();
    p.push_image(DynamicImage::new_rgb8(4, 4));
    p.push_image(DynamicImage::new_rgba32f(4, 4));
    let r = p.encode_as_jpeg(90);
    assert!(matches!(r, Err(ProcessorError::EncodeError(_))));
}

#[test]
fn sizes_keep_insertion_order() {
    let mut p = ImageProcessor::new();
    assert!(p.add_image_from_base64(&png_base64(3, 1)).is_ok());
    assert!(p.add_image_from_base64(&jpeg_base64(20, 10)).is_ok());
    assert!(p.add_image_from_base64(&png_base64(1, 2)).is_ok());
    assert_eq!(p.image_count(), 3);
    assert_eq!(
        p.get_image_sizes(),
        vec!["3x1".to_string(), "20x10".to_string(), "1x2".to_string()]
    );
}

#[test]
fn failed_ingest_keeps_batch() {
    let mut p = ImageProcessor::new();
    assert!(p.add_image_from_base64(&png_base64(2, 2)).is_ok());
    assert!(p.add_image_from_base64("data:nothing").is_err());
    assert!(p.add_image_from_base64("@@@").is_err());
    assert_eq!(p.get_image_sizes(), vec!["2x2".to_string()]);
}

#[test]
fn payload_of_picks_text_after_first_comma() {
    assert_eq!(payload_of("data:image/png;base64,QUJD"), Some(&b"QUJD"[..]));
    assert_eq!(payload_of("data:a,b,c"), Some(&b"b,c"[..]));
    assert_eq!(payload_of("data:,"), Some(&b""[..]));
    assert_eq!(payload_of("QUJD"), Some(&b"QUJD"[..]));
    assert_eq!(payload_of("x,data:"), Some(&b"x,data:"[..]));
    assert_eq!(payload_of(""), Some(&b""[..]));
    assert_eq!(payload_of("data:image/png;base64"), None);
    assert_eq!(payload_of("data:"), None);
}

#[test]
fn size_labels_are_decimal() {
    assert_eq!(size_label_of(1920, 1080), "1920x1080");
    assert_eq!(size_label_of(0, 7), "0x7");
    assert_eq!(size_label_of(4294967295, 10), "4294967295x10");
}

#[test]
fn jpeg_data_uri_adds_prefix() {
    assert_eq!(jpeg_data_uri("QUJD"), "data:image/jpeg;base64,QUJD");
    assert_eq!(jpeg_data_uri(""), "data:image/jpeg;base64,");
}

#[test]
fn data_uri_payload_is_decoded_not_passed_through() {
    let mut p = ImageProcessor::new();
    let uri = format!("data:image/png;base64,{}", png_base64(6, 3));
    assert!(p.add_image_from_base64(&uri).is_ok());
    let out = p.encode_as_jpeg(50).ok().unwrap();
    assert_ne!(out[0], jpeg_data_uri(""));
    assert!(out[0].starts_with("data:image/jpeg;base64,/9j/"));
}
