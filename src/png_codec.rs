//! PNG files to and from the canonical RGBA buffer.
//!
//! Files are written as 8-bit RGBA with the fastest compression and no row
//! filtering: the images are mostly splat maps, where filtering costs time
//! and gains no size.
use vstd::prelude::*;
use crate::pixels::{
    decode_frame, expand_to_rgba, frame_decodes, frame_len, is_supported, lemma_decode_idempotent,
    rgba_model, CodecError, ColorKind, PixelBuffer, RasterImage, RasterModel, SampleDepth,
};
use crate::text64::{
    base64_bytes_of, base64_text_of, bytes_to_base64, decode_base64, encodable_len,
};

verus! {

/// png's error for a file it cannot read.
#[verifier::external_type_specification]
#[verifier::external_body]
pub struct ExPngDecodingError(png::DecodingError);

/// png's error for an image it cannot write.
#[verifier::external_type_specification]
#[verifier::external_body]
pub struct ExPngEncodingError(png::EncodingError);

/// Deflate effort used by the encoder.
#[derive(Clone, Copy, Debug, PartialEq, Eq, Structural)]
pub enum CompressionLevel {
    Default,
    Fast,
    Best,
}

/// Per-row predictive filter used by the encoder.
#[derive(Clone, Copy, Debug, PartialEq, Eq, Structural)]
pub enum RowFilter {
    NoFilter,
    Sub,
    Up,
    Avg,
    Paeth,
}

impl RowFilter {
    /// The filter type number that PNG assigns to the filter.
    pub open spec fn spec_code(self) -> u8 {
        match self {
            RowFilter::NoFilter => 0,
            RowFilter::Sub => 1,
            RowFilter::Up => 2,
            RowFilter::Avg => 3,
            RowFilter::Paeth => 4,
        }
    }

    pub fn code(self) -> (r: u8)
        ensures
            r == self.spec_code(),
            r <= 4,
    {
        match self {
            RowFilter::NoFilter => 0,
            RowFilter::Sub => 1,
            RowFilter::Up => 2,
            RowFilter::Avg => 3,
            RowFilter::Paeth => 4,
        }
    }
}

#[derive(Clone, Copy, Debug, PartialEq, Eq, Structural)]
pub struct EncodeSettings {
    pub compression: CompressionLevel,
    pub filter: RowFilter,
}

/// The settings every file is written with.
pub open spec fn spec_write_settings() -> EncodeSettings {
    EncodeSettings { compression: CompressionLevel::Fast, filter: RowFilter::NoFilter }
}

pub fn write_settings() -> (s: EncodeSettings)
    ensures
        s == spec_write_settings(),
{
    EncodeSettings { compression: CompressionLevel::Fast, filter: RowFilter::NoFilter }
}

/// The first frame that the png crate reads from `data`, untransformed, as
/// (width, height, color type code, bit depth, samples); `None` when it
/// rejects the bytes.
pub uninterp spec fn png_frame_of(data: Seq<u8>) -> Option<(u32, u32, u8, u8, Seq<u8>)>;

/// The file that the png crate writes for an 8-bit RGBA image with the
/// given compression and PNG filter type.
pub uninterp spec fn png_rgba8_file_of(
    width: u32,
    height: u32,
    compression: CompressionLevel,
    filter: u8,
    pixels: Seq<u8>,
) -> Seq<u8>;

/// Relies on png's `Decoder::read_info` and `Reader::next_frame` with no
/// transformation: the first frame, its header and its `buffer_size()` bytes.
#[verifier::external_body]
fn read_png_frame(data: &[u8]) -> (r: Result<(u32, u32, u8, u8, Vec<u8>), png::DecodingError>)
    ensures
        match r {
            Ok(f) => png_frame_of(data@) == Some((f.0, f.1, f.2, f.3, f.4@)),
            Err(_) => png_frame_of(data@) is None,
        },
{
    let mut reader = png::Decoder::new(data).read_info()?;
    let mut buf = vec![0u8; reader.output_buffer_size()];
    let info = reader.next_frame(&mut buf)?;
    buf.truncate(info.buffer_size());
    Ok((info.width, info.height, info.color_type as u8, info.bit_depth as u8, buf))
}

/// Relies on png's `Encoder` writing an 8-bit RGBA image into memory with
/// the given compression and row filter, and on `FilterType::from_u8`
/// knowing the filter types 0 to 4; the result is the whole file. The
/// encoder refuses only a zero width or height and a buffer of the wrong
/// length, and writing into a `Vec` cannot fail. The buffer's length is
/// required to match, so that the encoder's row arithmetic cannot overflow.
#[verifier::external_body]
fn write_rgba8_png(
    width: u32,
    height: u32,
    compression: CompressionLevel,
    filter: u8,
    pixels: &[u8],
) -> (r: Result<Vec<u8>, png::EncodingError>)
    requires
        filter <= 4,
        pixels@.len() == width as int * height as int * 4,
    ensures
        r matches Ok(file) ==> file@ == png_rgba8_file_of(width, height, compression, filter, pixels@),
        width > 0 && height > 0 ==> r is Ok,
{
    let mut file: Vec<u8> = Vec::new();
    let mut encoder = png::Encoder::new(&mut file, width, height);
    encoder.set_color(png::ColorType::Rgba);
    encoder.set_depth(png::BitDepth::Eight);
    encoder.set_compression(match compression {
        CompressionLevel::Default => png::Compression::Default,
        CompressionLevel::Fast => png::Compression::Fast,
        CompressionLevel::Best => png::Compression::Best,
    });
    encoder.set_filter(png::FilterType::from_u8(filter).unwrap());
    let mut writer = encoder.write_header()?;
    writer.write_image_data(pixels)?;
    writer.finish()?;
    Ok(file)
}

/// The color encoding that a PNG color type code stands for.
pub open spec fn spec_color_of_code(code: u8) -> Option<ColorKind> {
    if code == 0 {
        Some(ColorKind::Grayscale)
    } else if code == 2 {
        Some(ColorKind::Rgb)
    } else if code == 3 {
        Some(ColorKind::Indexed)
    } else if code == 4 {
        Some(ColorKind::GrayscaleAlpha)
    } else if code == 6 {
        Some(ColorKind::Rgba)
    } else {
        None
    }
}

pub fn color_of_code(code: u8) -> (r: Option<ColorKind>)
    ensures
        r == spec_color_of_code(code),
{
    if code == 0 {
        Some(ColorKind::Grayscale)
    } else if code == 2 {
        Some(ColorKind::Rgb)
    } else if code == 3 {
        Some(ColorKind::Indexed)
    } else if code == 4 {
        Some(ColorKind::GrayscaleAlpha)
    } else if code == 6 {
        Some(ColorKind::Rgba)
    } else {
        None
    }
}

/// The sample depth that a PNG bit depth stands for.
pub open spec fn spec_depth_of_code(code: u8) -> Option<SampleDepth> {
    if code == 1 {
        Some(SampleDepth::One)
    } else if code == 2 {
        Some(SampleDepth::Two)
    } else if code == 4 {
        Some(SampleDepth::Four)
    } else if code == 8 {
        Some(SampleDepth::Eight)
    } else if code == 16 {
        Some(SampleDepth::Sixteen)
    } else {
        None
    }
}

pub fn depth_of_code(code: u8) -> (r: Option<SampleDepth>)
    ensures
        r == spec_depth_of_code(code),
{
    if code == 1 {
        Some(SampleDepth::One)
    } else if code == 2 {
        Some(SampleDepth::Two)
    } else if code == 4 {
        Some(SampleDepth::Four)
    } else if code == 8 {
        Some(SampleDepth::Eight)
    } else if code == 16 {
        Some(SampleDepth::Sixteen)
    } else {
        None
    }
}

/// The raster frame that a PNG file holds, when the png crate reads it and
/// its header codes are known.
pub open spec fn png_model(data: Seq<u8>) -> Option<RasterModel> {
    match png_frame_of(data) {
        Some(f) => match (spec_color_of_code(f.2), spec_depth_of_code(f.3)) {
            (Some(color), Some(depth)) => Some(
                RasterModel { width: f.0, height: f.1, color, depth, samples: f.4 },
            ),
            _ => None,
        },
        None => None,
    }
}

/// Whether the PNG file `data` decodes to a pixel buffer.
pub open spec fn png_decodes(data: Seq<u8>) -> bool {
    png_model(data) matches Some(m) && frame_decodes(m)
}

/// The RGBA pixels of the PNG file `data`.
pub open spec fn png_rgba_of(data: Seq<u8>) -> Seq<u8> {
    expand_to_rgba(png_model(data)->Some_0.color, png_model(data)->Some_0.samples)
}

/// `e` is the error that decoding the PNG file `data` fails with:
/// `UnsupportedFormat` for a readable file in another encoding, else a
/// decode error.
pub open spec fn png_decode_error(data: Seq<u8>, e: CodecError) -> bool {
    match png_model(data) {
        Some(m) => if is_supported(m.color, m.depth) {
            e is Decode
        } else {
            e == CodecError::UnsupportedFormat { color: m.color, depth: m.depth }
        },
        None => e is Decode,
    }
}

/// Decodes a PNG file into the canonical RGBA buffer.
pub fn decode_png(data: &[u8]) -> (r: Result<PixelBuffer, CodecError>)
    ensures
        r is Ok <==> png_decodes(data@),
        r matches Ok(b) ==> {
            &&& b.wf()
            &&& b.width == png_model(data@)->Some_0.width
            &&& b.height == png_model(data@)->Some_0.height
            &&& b.pixels@ == png_rgba_of(data@)
        },
        r matches Err(e) ==> png_decode_error(data@, e),
{
    match read_png_frame(data) {
        Err(e) => Err(CodecError::Decode(e.to_string())),
        Ok((width, height, color_code, depth_code, samples)) => {
            let color = match color_of_code(color_code) {
                Some(c) => c,
                None => {
                    return Err(CodecError::Decode("unknown PNG color type".to_string()));
                },
            };
            let depth = match depth_of_code(depth_code) {
                Some(d) => d,
                None => {
                    return Err(CodecError::Decode("unknown PNG bit depth".to_string()));
                },
            };
            decode_frame(&RasterImage { width, height, color, depth, samples })
        },
    }
}

/// The file written for an RGBA buffer, with [`spec_write_settings`].
pub open spec fn png_written_file(width: u32, height: u32, pixels: Seq<u8>) -> Seq<u8> {
    let s = spec_write_settings();
    png_rgba8_file_of(width, height, s.compression, s.filter.spec_code(), pixels)
}

/// `r` is what encoding the RGBA buffer `pixels` of a `width` by `height`
/// image yields: a dimension mismatch when the length is not
/// `width * height * 4`, else the file that the png crate writes with
/// [`spec_write_settings`]; the encoder refuses only an empty image.
pub open spec fn encode_outcome(width: u32, height: u32, pixels: Seq<u8>, r: Result<Vec<u8>, CodecError>) -> bool {
    if pixels.len() != frame_len(width, height, 4) {
        r == Err::<Vec<u8>, CodecError>(CodecError::DimensionMismatch {
            expected: frame_len(width, height, 4) as u128,
            actual: pixels.len() as usize,
        })
    } else {
        &&& (width > 0 && height > 0 ==> r is Ok)
        &&& match r {
            Ok(file) => file@ == png_written_file(width, height, pixels),
            Err(e) => e is Encode,
        }
    }
}

/// Encodes an RGBA buffer as an 8-bit RGBA PNG file. The length is checked
/// before any encoding work.
pub fn encode_rgba_png(width: u32, height: u32, pixels: &[u8]) -> (r: Result<Vec<u8>, CodecError>)
    ensures
        encode_outcome(width, height, pixels@, r),
{
    proof {
        crate::pixels::lemma_area_bound(width, height);
    }
    let expected = width as u128 * height as u128 * 4;
    if pixels.len() as u128 != expected {
        return Err(CodecError::DimensionMismatch { expected, actual: pixels.len() });
    }
    let settings = write_settings();
    match write_rgba8_png(width, height, settings.compression, settings.filter.code(), pixels) {
        Ok(file) => Ok(file),
        Err(e) => Err(CodecError::Encode(e.to_string())),
    }
}

/// Decodes a PNG file and hands its RGBA pixels back as base64 text, with
/// the width and height.
pub fn png_to_rgba_base64(data: &[u8]) -> (r: Result<(String, u32, u32), CodecError>)
    ensures
        r is Ok <==> png_decodes(data@) && encodable_len(png_rgba_of(data@).len()),
        r matches Ok(t) ==> {
            &&& t.0@ == base64_text_of(png_rgba_of(data@))
            &&& t.1 == png_model(data@)->Some_0.width
            &&& t.2 == png_model(data@)->Some_0.height
        },
        !png_decodes(data@) ==> (r matches Err(e) && png_decode_error(data@, e)),
        png_decodes(data@) && !encodable_len(png_rgba_of(data@).len()) ==> r matches Err(
            CodecError::Encode(_),
        ),
{
    let buf = decode_png(data)?;
    if buf.pixels.len() > usize::MAX / 4 * 3 {
        return Err(CodecError::Encode("pixel data too large for base64 text".to_string()));
    }
    Ok((bytes_to_base64(buf.pixels.as_slice()), buf.width, buf.height))
}

/// Turns base64 text of RGBA pixels into a PNG file of the given size.
pub fn rgba_base64_to_png(text: &str, width: u32, height: u32) -> (r: Result<Vec<u8>, CodecError>)
    ensures
        match base64_bytes_of(text@) {
            Some(pixels) => encode_outcome(width, height, pixels, r),
            None => r matches Err(CodecError::Decode(_)),
        },
{
    let pixels = match decode_base64(text) {
        Ok(p) => p,
        Err(msg) => {
            return Err(CodecError::Decode(msg));
        },
    };
    encode_rgba_png(width, height, pixels.as_slice())
}

/// The file written for the pixels that the PNG file `data` decodes to.
pub open spec fn reencoded(data: Seq<u8>) -> Seq<u8> {
    let m = png_model(data)->Some_0;
    png_written_file(m.width, m.height, png_rgba_of(data))
}

/// Decoding is idempotent after the first normalization: when the png crate
/// reads a file that it wrote for an RGBA buffer back as that same 8-bit RGBA
/// frame, decoding a file, encoding its pixels and decoding the result gives
/// the buffer of the first decode.
pub proof fn lemma_reencode_round_trip(data: Seq<u8>)
    requires
        png_decodes(data),
        png_frame_of(reencoded(data)) == Some(
            (
                png_model(data)->Some_0.width,
                png_model(data)->Some_0.height,
                6u8,
                8u8,
                png_rgba_of(data),
            ),
        ),
    ensures
        png_decodes(reencoded(data)),
        png_model(reencoded(data))->Some_0.width == png_model(data)->Some_0.width,
        png_model(reencoded(data))->Some_0.height == png_model(data)->Some_0.height,
        png_rgba_of(reencoded(data)) == png_rgba_of(data),
{
    let m = png_model(data)->Some_0;
    lemma_decode_idempotent(m);
    assert(png_model(reencoded(data)) == Some(rgba_model(m)));
}

} // verus!
