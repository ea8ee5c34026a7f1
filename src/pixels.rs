//! Conversion between the color encodings a PNG file may hold and the
//! canonical pixel buffer: row-major, four bytes (R, G, B, A) per pixel.
use vstd::prelude::*;

verus! {

/// The color encodings a PNG header can declare.
#[derive(Clone, Copy, Debug, PartialEq, Eq, Structural)]
pub enum ColorKind {
    Grayscale,
    Rgb,
    Indexed,
    GrayscaleAlpha,
    Rgba,
}

impl ColorKind {
    /// Whether pixels of this encoding can be turned into RGBA without a palette.
    pub open spec fn spec_is_direct(self) -> bool {
        !(self is Indexed)
    }

    /// Number of samples per pixel.
    pub open spec fn spec_samples(self) -> nat {
        match self {
            ColorKind::Grayscale => 1,
            ColorKind::Rgb => 3,
            ColorKind::Indexed => 1,
            ColorKind::GrayscaleAlpha => 2,
            ColorKind::Rgba => 4,
        }
    }

    pub fn samples(self) -> (n: usize)
        ensures
            n == self.spec_samples(),
    {
        match self {
            ColorKind::Grayscale => 1,
            ColorKind::Rgb => 3,
            ColorKind::Indexed => 1,
            ColorKind::GrayscaleAlpha => 2,
            ColorKind::Rgba => 4,
        }
    }
}

/// Byte `i` of the RGBA form of `src`, whose pixels are in encoding `kind`.
/// Gray is copied into the three color channels; a missing alpha is 255.
pub open spec fn rgba_byte(kind: ColorKind, src: Seq<u8>, i: int) -> u8 {
    let p = i / 4;
    let c = i % 4;
    match kind {
        ColorKind::Rgb => if c < 3 { src[3 * p + c] } else { 255 },
        ColorKind::GrayscaleAlpha => if c < 3 { src[2 * p] } else { src[2 * p + 1] },
        ColorKind::Rgba => src[i],
        _ => if c < 3 { src[p] } else { 255 },
    }
}

/// The RGBA form of the samples `src`, four bytes for each source pixel.
pub open spec fn expand_to_rgba(kind: ColorKind, src: Seq<u8>) -> Seq<u8> {
    Seq::new(src.len() / kind.spec_samples() * 4, |i: int| rgba_byte(kind, src, i))
}

proof fn lemma_pixel_index(p: int, c: int)
    requires
        0 <= p,
        0 <= c < 4,
    ensures
        (4 * p + c) / 4 == p,
        (4 * p + c) % 4 == c,
{
    assert((4 * p + c) / 4 == p && (4 * p + c) % 4 == c) by (nonlinear_arith)
        requires 0 <= p, 0 <= c < 4;
}

/// Turns whole pixels of a direct encoding into RGBA bytes, without any
/// scaling or premultiplication.
pub fn to_rgba(kind: ColorKind, src: &[u8]) -> (out: Vec<u8>)
    requires
        kind.spec_is_direct(),
        src@.len() % kind.spec_samples() == 0,
        src@.len() / kind.spec_samples() * 4 <= usize::MAX,
    ensures
        out@ == expand_to_rgba(kind, src@),
{
    let spp = kind.samples();
    let n = src.len() / spp;
    let mut out: Vec<u8> = Vec::with_capacity(n * 4);
    let mut p: usize = 0;
    while p < n
        invariant
            spp == kind.spec_samples(),
            kind.spec_is_direct(),
            n == src@.len() / (spp as nat),
            src@.len() == n * spp,
            n * 4 <= usize::MAX,
            p <= n,
            out@.len() == 4 * p,
            forall|i: int| 0 <= i < 4 * p ==> #[trigger] out@[i] == rgba_byte(kind, src@, i),
        decreases n - p,
    {
        let base = p * spp;
        assert(base + spp <= src@.len()) by (nonlinear_arith)
            requires base == p * spp, p < n, src@.len() == n * spp;
        let (r, g, b, a) = match kind {
            ColorKind::Rgb => (src[base], src[base + 1], src[base + 2], 255u8),
            ColorKind::GrayscaleAlpha => (src[base], src[base], src[base], src[base + 1]),
            ColorKind::Rgba => (src[base], src[base + 1], src[base + 2], src[base + 3]),
            _ => (src[base], src[base], src[base], 255u8),
        };
        out.push(r);
        out.push(g);
        out.push(b);
        out.push(a);
        proof {
            lemma_pixel_index(p as int, 0);
            lemma_pixel_index(p as int, 1);
            lemma_pixel_index(p as int, 2);
            lemma_pixel_index(p as int, 3);
        }
        p = p + 1;
    }
    assert(src@.len() / (spp as nat) == n) by (nonlinear_arith)
        requires src@.len() == n * spp, spp > 0;
    assert(out@ =~= expand_to_rgba(kind, src@));
    out
}

/// Bits per sample, as a PNG header declares it.
#[derive(Clone, Copy, Debug, PartialEq, Eq, Structural)]
pub enum SampleDepth {
    One,
    Two,
    Four,
    Eight,
    Sixteen,
}

/// A decoded raster frame in its source encoding.
#[derive(Debug)]
pub struct RasterImage {
    pub width: u32,
    pub height: u32,
    pub color: ColorKind,
    pub depth: SampleDepth,
    pub samples: Vec<u8>,
}

/// The mathematical content of a [`RasterImage`].
pub struct RasterModel {
    pub width: u32,
    pub height: u32,
    pub color: ColorKind,
    pub depth: SampleDepth,
    pub samples: Seq<u8>,
}

impl View for RasterImage {
    type V = RasterModel;

    open spec fn view(&self) -> RasterModel {
        RasterModel {
            width: self.width,
            height: self.height,
            color: self.color,
            depth: self.depth,
            samples: self.samples@,
        }
    }
}

/// The canonical in-memory image: `width * height` pixels, row-major,
/// four bytes (R, G, B, A) each.
#[derive(Debug)]
pub struct PixelBuffer {
    pub width: u32,
    pub height: u32,
    pub pixels: Vec<u8>,
}

impl PixelBuffer {
    pub open spec fn wf(&self) -> bool {
        self.pixels@.len() == frame_len(self.width, self.height, 4)
    }
}

#[derive(Debug)]
pub enum CodecError {
    /// The source bytes are malformed or truncated.
    Decode(String),
    /// The source uses an encoding other than 8-bit gray, gray+alpha, RGB or RGBA.
    UnsupportedFormat { color: ColorKind, depth: SampleDepth },
    /// A pixel buffer's length is not `width * height * 4`.
    DimensionMismatch { expected: u128, actual: usize },
    /// The encoder refused the image.
    Encode(String),
}

/// Number of bytes of a `width` by `height` frame with `per_pixel` bytes per pixel.
pub open spec fn frame_len(width: u32, height: u32, per_pixel: nat) -> int {
    width as int * height as int * per_pixel
}

/// The encodings that decode to a pixel buffer.
pub open spec fn is_supported(color: ColorKind, depth: SampleDepth) -> bool {
    color.spec_is_direct() && depth == SampleDepth::Eight
}

/// Whether a frame with this content decodes to a pixel buffer.
pub open spec fn frame_decodes(m: RasterModel) -> bool {
    &&& is_supported(m.color, m.depth)
    &&& m.samples.len() == frame_len(m.width, m.height, m.color.spec_samples())
    &&& frame_len(m.width, m.height, 4) <= usize::MAX
}

/// `r` is what decoding a frame with content `m` yields: the frame in RGBA
/// when it decodes, `UnsupportedFormat` for an unsupported encoding, and a
/// decode error when the samples do not fill the frame exactly.
pub open spec fn decode_outcome(m: RasterModel, r: Result<PixelBuffer, CodecError>) -> bool {
    if !is_supported(m.color, m.depth) {
        r == Err::<PixelBuffer, CodecError>(CodecError::UnsupportedFormat { color: m.color, depth: m.depth })
    } else if !frame_decodes(m) {
        r matches Err(CodecError::Decode(_))
    } else {
        &&& r is Ok
        &&& r->Ok_0.width == m.width
        &&& r->Ok_0.height == m.height
        &&& r->Ok_0.pixels@ == expand_to_rgba(m.color, m.samples)
    }
}

pub proof fn lemma_area_bound(width: u32, height: u32)
    ensures
        width as int * height as int <= 0xffff_ffff_ffff_ffff,
        width as int * height as int * 4 <= 0xffff_ffff_ffff_ffff_ffff_ffff_ffff_ffff,
{
    assert(width as int * height as int <= 0xffff_ffff * 0xffff_ffff) by (nonlinear_arith)
        requires 0 <= width <= 0xffff_ffff, 0 <= height <= 0xffff_ffff;
}

/// Turns a decoded frame into the canonical RGBA buffer.
pub fn decode_frame(img: &RasterImage) -> (r: Result<PixelBuffer, CodecError>)
    ensures
        decode_outcome(img@, r),
        r matches Ok(b) ==> b.wf(),
{
    if !(img.color != ColorKind::Indexed && img.depth == SampleDepth::Eight) {
        return Err(CodecError::UnsupportedFormat { color: img.color, depth: img.depth });
    }
    let spp = img.color.samples();
    proof {
        lemma_area_bound(img.width, img.height);
    }
    let area = img.width as u128 * img.height as u128;
    if area * spp as u128 != img.samples.len() as u128 || area * 4 > usize::MAX as u128 {
        return Err(CodecError::Decode("sample count does not match the frame size".to_string()));
    }
    proof {
        let len = img.samples@.len();
        assert(len / img.color.spec_samples() * 4 == area * 4 && len % img.color.spec_samples() == 0)
            by (nonlinear_arith)
            requires len == area * img.color.spec_samples(), img.color.spec_samples() > 0;
    }
    let pixels = to_rgba(img.color, img.samples.as_slice());
    Ok(PixelBuffer { width: img.width, height: img.height, pixels })
}

/// The 8-bit RGBA frame that holds the pixels `m` decodes to.
pub open spec fn rgba_model(m: RasterModel) -> RasterModel {
    RasterModel {
        width: m.width,
        height: m.height,
        color: ColorKind::Rgba,
        depth: SampleDepth::Eight,
        samples: expand_to_rgba(m.color, m.samples),
    }
}

/// Normalization is idempotent: the pixels that a frame decodes to, taken as
/// an 8-bit RGBA frame of the same size, decode to themselves.
pub proof fn lemma_decode_idempotent(m: RasterModel)
    requires
        frame_decodes(m),
    ensures
        frame_decodes(rgba_model(m)),
        expand_to_rgba(ColorKind::Rgba, rgba_model(m).samples) == rgba_model(m).samples,
{
    let len = m.samples.len();
    let spp = m.color.spec_samples();
    assert(len / spp * 4 == frame_len(m.width, m.height, 4)) by (nonlinear_arith)
        requires len == m.width as int * m.height as int * spp, spp > 0;
    let px = rgba_model(m).samples;
    assert(px.len() / 4 * 4 == px.len()) by (nonlinear_arith)
        requires px.len() == m.width as int * m.height as int * 4;
    assert(expand_to_rgba(ColorKind::Rgba, px) =~= px);
}

} // verus!
