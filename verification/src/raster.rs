//! Results of the CPU rasterizers: their errors and the conversion of
//! premultiplied RGBA pixels into straight alpha.
use vstd::prelude::*;

verus! {

/// Failure to create a bounded RGBA frame for a procedural object.
#[derive(Debug, Clone, Copy, PartialEq, Eq, Structural)]
pub enum ProceduralRasterError {
    InvalidDimensions,
    InvalidPath,
    AllocationFailed,
}

impl ProceduralRasterError {
    /// The text that describes the failure.
    pub fn message(&self) -> (m: &'static str)
        ensures
            m@ == match self {
                ProceduralRasterError::InvalidDimensions =>
                    "procedural object dimensions are invalid or exceed 8192 pixels"@,
                ProceduralRasterError::InvalidPath =>
                    "procedural object path could not be constructed"@,
                ProceduralRasterError::AllocationFailed =>
                    "procedural object pixel buffer could not be allocated"@,
            },
    {
        match self {
            ProceduralRasterError::InvalidDimensions => {
                "procedural object dimensions are invalid or exceed 8192 pixels"
            },
            ProceduralRasterError::InvalidPath => "procedural object path could not be constructed",
            ProceduralRasterError::AllocationFailed => {
                "procedural object pixel buffer could not be allocated"
            },
        }
    }
}

/// Failure to create a bounded RGBA frame for a built-in shape.
#[derive(Debug, Clone, Copy, PartialEq, Eq, Structural)]
pub enum ShapeRasterError {
    InvalidDimensions,
    InvalidPath,
    AllocationFailed,
}

impl ShapeRasterError {
    /// The text that describes the failure.
    pub fn message(&self) -> (m: &'static str)
        ensures
            m@ == match self {
                ShapeRasterError::InvalidDimensions =>
                    "shape dimensions are invalid or exceed 8192 pixels"@,
                ShapeRasterError::InvalidPath => "shape path could not be constructed"@,
                ShapeRasterError::AllocationFailed => "shape pixel buffer could not be allocated"@,
            },
    {
        match self {
            ShapeRasterError::InvalidDimensions => "shape dimensions are invalid or exceed 8192 pixels",
            ShapeRasterError::InvalidPath => "shape path could not be constructed",
            ShapeRasterError::AllocationFailed => "shape pixel buffer could not be allocated",
        }
    }
}

/// Failure to turn an evaluated text object into a bounded RGBA frame.
#[derive(Debug, Clone, Copy, PartialEq, Eq, Structural)]
pub enum TextRasterError {
    InvalidParameters,
    FontNotFound,
    InvalidFont,
    InvalidDimensions,
    InvalidPath,
    AllocationFailed,
}

impl TextRasterError {
    /// The text that describes the failure.
    pub fn message(&self) -> (m: &'static str)
        ensures
            m@ == match self {
                TextRasterError::InvalidParameters => "text parameters are invalid"@,
                TextRasterError::FontNotFound => "no usable system font was found"@,
                TextRasterError::InvalidFont => "the selected font could not be parsed"@,
                TextRasterError::InvalidDimensions =>
                    "text dimensions are invalid or exceed 8192 pixels"@,
                TextRasterError::InvalidPath => "text glyph outlines could not be constructed"@,
                TextRasterError::AllocationFailed => "text pixel buffer could not be allocated"@,
            },
    {
        match self {
            TextRasterError::InvalidParameters => "text parameters are invalid",
            TextRasterError::FontNotFound => "no usable system font was found",
            TextRasterError::InvalidFont => "the selected font could not be parsed",
            TextRasterError::InvalidDimensions => "text dimensions are invalid or exceed 8192 pixels",
            TextRasterError::InvalidPath => "text glyph outlines could not be constructed",
            TextRasterError::AllocationFailed => "text pixel buffer could not be allocated",
        }
    }
}

/// A colour channel premultiplied by `alpha`, brought back to straight
/// alpha with rounding (at most 255); zero when the pixel is transparent.
pub open spec fn unpremultiplied(channel: u8, alpha: u8) -> u8 {
    if alpha == 0 {
        0
    } else {
        let v = (channel * 255 + alpha / 2) / (alpha as int);
        if v > 255 {
            255
        } else {
            v as u8
        }
    }
}

/// Byte `k` of the straight-alpha form of `src`: the colour channels of each
/// whole RGBA pixel are unpremultiplied by its alpha; alpha bytes and the
/// bytes of an incomplete trailing pixel are kept.
pub open spec fn straight_byte(src: Seq<u8>, k: int) -> u8 {
    let start = k - k % 4;
    if start + 4 > src.len() || k % 4 == 3 {
        src[k]
    } else {
        unpremultiplied(src[k], src[start + 3])
    }
}

fn unpremultiply_channel(channel: u8, alpha: u8) -> (r: u8)
    ensures
        r == unpremultiplied(channel, alpha),
{
    if alpha == 0 {
        return 0;
    }
    let c = channel as u16;
    let a = alpha as u16;
    assert(c * 255 <= 255 * 255) by (nonlinear_arith)
        requires
            c <= 255,
    ;
    let v = (c * 255 + a / 2) / a;
    if v > 255 {
        255
    } else {
        v as u8
    }
}

/// Converts premultiplied RGBA bytes to straight alpha.
pub fn straight_alpha_rgba(premultiplied: &[u8]) -> (r: Vec<u8>)
    ensures
        r@.len() == premultiplied@.len(),
        forall|k: int|
            0 <= k < premultiplied@.len() ==> #[trigger] r@[k] == straight_byte(
                premultiplied@,
                k,
            ),
{
    let n = premultiplied.len();
    let mut out: Vec<u8> = Vec::new();
    let mut k: usize = 0;
    while k < n
        invariant
            n == premultiplied@.len(),
            k <= n,
            out@.len() == k,
            forall|j: int| 0 <= j < k ==> #[trigger] out@[j] == straight_byte(premultiplied@, j),
        decreases n - k,
    {
        let start = k - k % 4;
        let byte = if n - start < 4 || k % 4 == 3 {
            premultiplied[k]
        } else {
            unpremultiply_channel(premultiplied[k], premultiplied[start + 3])
        };
        out.push(byte);
        k = k + 1;
    }
    out
}

/// A fully transparent pixel becomes transparent black, and an opaque
/// pixel's colour is kept: unpremultiplying by alpha 255 is the identity.
pub proof fn straight_alpha_keeps_opaque_and_clears_transparent(channel: u8)
    ensures
        unpremultiplied(channel, 0) == 0,
        unpremultiplied(channel, 255) == channel,
{
    let c = channel as int;
    assert((c * 255 + 127) / 255 == c) by (nonlinear_arith)
        requires
            0 <= c <= 255,
    ;
}

} // verus!
