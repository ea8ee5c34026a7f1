use project_store::pixels::{decode_frame, to_rgba, CodecError, ColorKind, RasterImage, SampleDepth};
use project_store::png_codec::{
    color_of_code, decode_png, depth_of_code, encode_rgba_png, png_to_rgba_base64,
    rgba_base64_to_png, write_settings, CompressionLevel, RowFilter,
};
use project_store::text64::{bytes_to_base64, decode_base64};

fn frame(width: u32, height: u32, color: ColorKind, samples: Vec<u8>) -> RasterImage {
    RasterImage { width, height, color, depth: SampleDepth::Eight, samples }
}

fn png_file(width: u32, height: u32, color: png::ColorType, samples: &[u8]) -> Vec<u8> {
    let mut out = Vec::new();
    {
        let mut encoder = png::Encoder::new(&mut out, width, height);
        encoder.set_color(color);
        encoder.set_depth(png::BitDepth::Eight);
        let mut writer = encoder.write_header().unwrap();
        writer.write_image_data(samples).unwrap();
        writer.finish().unwrap();
    }
    out
}

#[test]
fn grayscale_pixel_decodes_to_opaque_gray() {
    let b = decode_frame(&frame(1, 1, ColorKind::Grayscale, vec![200])).unwrap();
    assert_eq!(b.pixels, vec![200, 200, 200, 255]);
    assert_eq!((b.width, b.height), (1, 1));
}

#[test]
fn rgb_pixel_gets_opaque_alpha() {
    let b = decode_frame(&frame(1, 1, ColorKind::Rgb, vec![10, 20, 30])).unwrap();
    assert_eq!(b.pixels, vec![10, 20, 30, 255]);
}

#[test]
fn gray_alpha_pixel_keeps_alpha() {
    let b = decode_frame(&frame(1, 1, ColorKind::GrayscaleAlpha, vec![50, 80])).unwrap();
    assert_eq!(b.pixels, vec![50, 50, 50, 80]);
}

#[test]
fn rgba_samples_pass_through_unpremultiplied() {
    let samples = vec![255, 128, 7, 0, 1, 2, 3, 4];
    let b = decode_frame(&frame(2, 1, ColorKind::Rgba, samples.clone())).unwrap();
    assert_eq!(b.pixels, samples);
}

#[test]
fn rows_keep_source_order() {
    let b = decode_frame(&frame(1, 2, ColorKind::Grayscale, vec![1, 2])).unwrap();
    assert_eq!(b.pixels, vec![1, 1, 1, 255, 2, 2, 2, 255]);
}

#[test]
fn indexed_frame_is_unsupported() {
    let r = decode_frame(&frame(1, 1, ColorKind::Indexed, vec![0]));
    assert!(matches!(
        r,
        Err(CodecError::UnsupportedFormat { color: ColorKind::Indexed, depth: SampleDepth::Eight })
    ));
}

#[test]
fn sixteen_bit_frame_is_unsupported() {
    let img = RasterImage {
        width: 1,
        height: 1,
        color: ColorKind::Rgb,
        depth: SampleDepth::Sixteen,
        samples: vec![0; 6],
    };
    assert!(matches!(decode_frame(&img), Err(CodecError::UnsupportedFormat { .. })));
}

#[test]
fn short_frame_is_a_decode_error() {
    let r = decode_frame(&frame(2, 2, ColorKind::Rgb, vec![0; 11]));
    assert!(matches!(r, Err(CodecError::Decode(_))));
}

#[test]
fn to_rgba_expands_each_pixel() {
    assert_eq!(to_rgba(ColorKind::Rgb, &[1, 2, 3, 4, 5, 6]), vec![1, 2, 3, 255, 4, 5, 6, 255]);
    assert_eq!(to_rgba(ColorKind::Grayscale, &[]), Vec::<u8>::new());
}

#[test]
fn header_codes_map_to_encodings() {
    assert_eq!(color_of_code(0), Some(ColorKind::Grayscale));
    assert_eq!(color_of_code(2), Some(ColorKind::Rgb));
    assert_eq!(color_of_code(3), Some(ColorKind::Indexed));
    assert_eq!(color_of_code(4), Some(ColorKind::GrayscaleAlpha));
    assert_eq!(color_of_code(6), Some(ColorKind::Rgba));
    assert_eq!(color_of_code(5), None);
    assert_eq!(depth_of_code(8), Some(SampleDepth::Eight));
    assert_eq!(depth_of_code(16), Some(SampleDepth::Sixteen));
    assert_eq!(depth_of_code(3), None);
}

#[test]
fn files_are_written_fast_and_unfiltered() {
    let s = write_settings();
    assert_eq!(s.compression, CompressionLevel::Fast);
    assert_eq!(s.filter, RowFilter::NoFilter);
    assert_eq!(RowFilter::NoFilter.code(), 0);
    assert_eq!(RowFilter::Paeth.code(), 4);
}

#[test]
fn encode_rejects_length_off_by_one() {
    for len in [15usize, 17, 0, 4] {
        let r = encode_rgba_png(2, 2, &vec![0; len]);
        match r {
            Err(CodecError::DimensionMismatch { expected, actual }) => {
                assert_eq!(expected, 16);
                assert_eq!(actual, len);
            }
            other => panic!("expected a dimension mismatch, got {:?}", other),
        }
    }
}

#[test]
fn encode_writes_a_png_file() {
    let file = encode_rgba_png(1, 1, &[9, 8, 7, 0]).unwrap();
    assert_eq!(&file[..8], &[137, 80, 78, 71, 13, 10, 26, 10]);
    let b = decode_png(&file).unwrap();
    assert_eq!(b.pixels, vec![9, 8, 7, 0]);
}

#[test]
fn decode_png_of_each_encoding() {
    let cases: Vec<(png::ColorType, Vec<u8>, Vec<u8>)> = vec![
        (png::ColorType::Grayscale, vec![200], vec![200, 200, 200, 255]),
        (png::ColorType::Rgb, vec![10, 20, 30], vec![10, 20, 30, 255]),
        (png::ColorType::GrayscaleAlpha, vec![50, 80], vec![50, 50, 50, 80]),
        (png::ColorType::Rgba, vec![1, 2, 3, 0], vec![1, 2, 3, 0]),
    ];
    for (color, samples, expected) in cases {
        let b = decode_png(&png_file(1, 1, color, &samples)).unwrap();
        assert_eq!(b.pixels, expected);
    }
}

#[test]
fn reencoding_a_decoded_file_is_stable() {
    let cases: Vec<(png::ColorType, usize)> = vec![
        (png::ColorType::Grayscale, 1),
        (png::ColorType::GrayscaleAlpha, 2),
        (png::ColorType::Rgb, 3),
        (png::ColorType::Rgba, 4),
    ];
    for (color, spp) in cases {
        let (w, h) = (3u32, 2u32);
        let samples: Vec<u8> = (0..(w * h) as usize * spp).map(|i| (i * 37 % 256) as u8).collect();
        let first = decode_png(&png_file(w, h, color, &samples)).unwrap();
        let file = encode_rgba_png(first.width, first.height, &first.pixels).unwrap();
        let second = decode_png(&file).unwrap();
        assert_eq!((second.width, second.height), (w, h));
        assert_eq!(second.pixels, first.pixels);
    }
}

#[test]
fn indexed_png_is_unsupported() {
    let mut out = Vec::new();
    {
        let mut encoder = png::Encoder::new(&mut out, 1, 1);
        encoder.set_color(png::ColorType::Indexed);
        encoder.set_depth(png::BitDepth::Eight);
        encoder.set_palette(vec![0u8, 0, 0]);
        let mut writer = encoder.write_header().unwrap();
        writer.write_image_data(&[0]).unwrap();
        writer.finish().unwrap();
    }
    assert!(matches!(decode_png(&out), Err(CodecError::UnsupportedFormat { .. })));
}

#[test]
fn garbage_is_a_decode_error() {
    assert!(matches!(decode_png(&[1, 2, 3, 4]), Err(CodecError::Decode(_))));
}

#[test]
fn base64_round_trip() {
    assert_eq!(bytes_to_base64(&[1, 2, 3]), "AQID");
    assert_eq!(bytes_to_base64(&[]), "");
    assert_eq!(decode_base64("AQID").unwrap(), vec![1, 2, 3]);
    assert!(decode_base64("not base64!").is_err());
}

#[test]
fn png_pixels_travel_as_base64() {
    let file = encode_rgba_png(1, 1, &[1, 2, 3, 4]).unwrap();
    let (text, w, h) = png_to_rgba_base64(&file).unwrap();
    assert_eq!(text, "AQIDBA==");
    assert_eq!((w, h), (1, 1));
    let again = rgba_base64_to_png(&text, 1, 1).unwrap();
    assert_eq!(decode_png(&again).unwrap().pixels, vec![1, 2, 3, 4]);
}

#[test]
fn base64_pixels_of_wrong_size_are_rejected() {
    let r = rgba_base64_to_png("AQIDBA==", 2, 1);
    assert!(matches!(r, Err(CodecError::DimensionMismatch { expected: 8, actual: 4 })));
    assert!(matches!(rgba_base64_to_png("%%", 1, 1), Err(CodecError::Decode(_))));
}

#[test]
fn empty_image_is_refused_by_the_encoder() {
    assert!(matches!(encode_rgba_png(0, 3, &[]), Err(CodecError::Encode(_))));
    assert!(matches!(encode_rgba_png(3, 0, &[]), Err(CodecError::Encode(_))));
}

#[test]
fn base64_text_has_four_characters_per_started_group() {
    for n in 0..10usize {
        let bytes = vec![7u8; n];
        assert_eq!(bytes_to_base64(&bytes).len(), 4 * ((n + 2) / 3));
    }
}
