//! How raw client pixels become an image: color space, layout and bytes.

use crate::cmd::{ColorDesc, PixelFormat, Primaries, TransferFn};
use vstd::arithmetic::div_mod::lemma_fundamental_div_mod_converse;
use vstd::prelude::*;

verus! {

/// The color space that a frame is tagged with.
#[derive(Clone, Copy, PartialEq, Eq, Debug, Structural)]
pub enum CgSpace {
    /// Plain device RGB: ordinary SDR.
    DeviceRgb,
    /// Wide-gamut SDR.
    DisplayP3,
    /// HDR BT.2100 PQ.
    Pq2100,
    /// HDR BT.2100 HLG.
    Hlg2100,
    /// Extended-linear Display P3, for float content.
    ExtLinearP3,
    /// Extended-linear BT.2020, for float content.
    ExtLinear2020,
}

/// Float content is linear light and takes an extended-linear space; integer
/// content goes by its transfer function, then by its primaries.
pub open spec fn space_for(format: PixelFormat, color: Option<ColorDesc>) -> CgSpace {
    if format == PixelFormat::Rgba16F {
        if color is Some && color->0.primaries == Primaries::Bt2020 {
            CgSpace::ExtLinear2020
        } else {
            CgSpace::ExtLinearP3
        }
    } else if color is None {
        CgSpace::DeviceRgb
    } else if color->0.tf == TransferFn::Pq {
        CgSpace::Pq2100
    } else if color->0.tf == TransferFn::Hlg {
        CgSpace::Hlg2100
    } else if color->0.primaries != Primaries::Srgb {
        CgSpace::DisplayP3
    } else {
        CgSpace::DeviceRgb
    }
}

/// Picks the color space of a frame.
pub fn cg_space_for(format: PixelFormat, color: Option<ColorDesc>) -> (r: CgSpace)
    ensures
        r == space_for(format, color),
{
    match format {
        PixelFormat::Rgba16F => match color {
            Some(c) => match c.primaries {
                Primaries::Bt2020 => CgSpace::ExtLinear2020,
                _ => CgSpace::ExtLinearP3,
            },
            None => CgSpace::ExtLinearP3,
        },
        _ => match color {
            Some(c) => match c.tf {
                TransferFn::Pq => CgSpace::Pq2100,
                TransferFn::Hlg => CgSpace::Hlg2100,
                TransferFn::Srgb => if c.primaries != Primaries::Srgb {
                    CgSpace::DisplayP3
                } else {
                    CgSpace::DeviceRgb
                },
            },
            None => CgSpace::DeviceRgb,
        },
    }
}

/// Bytes of one pixel.
pub open spec fn spec_bytes_per_pixel(format: PixelFormat) -> int {
    match format {
        PixelFormat::Rgba16F => 8,
        _ => 4,
    }
}

/// Bytes per pixel of a format.
pub fn bytes_per_pixel(format: PixelFormat) -> (n: i32)
    ensures
        n == spec_bytes_per_pixel(format),
{
    match format {
        PixelFormat::Bgra8888 => 4,
        PixelFormat::Rgb2101010 => 4,
        PixelFormat::Rgba16F => 8,
    }
}

/// The dimensions are positive, a row holds its pixels, and the bytes are there.
pub open spec fn image_fits(
    width: i32,
    height: i32,
    stride: i32,
    len: int,
    format: PixelFormat,
) -> bool {
    &&& width > 0
    &&& height > 0
    &&& stride >= width * spec_bytes_per_pixel(format)
    &&& len >= stride * height
}

/// The little-endian word at byte `i`.
pub open spec fn word_at(pixels: Seq<u8>, i: int) -> int {
    pixels[i] + pixels[i + 1] * 0x100 + pixels[i + 2] * 0x1_0000 + pixels[i + 3] * 0x100_0000
}

/// A 10-bit channel spread over 16 bits: the top bits fill the bottom.
pub open spec fn widen(c: int) -> int {
    c * 64 + c / 16
}

/// Channel `k` (red, green, blue, alpha) of a packed 2:10:10:10 word, in 16 bits.
pub open spec fn channel(word: int, k: int) -> int {
    if k == 0 {
        widen(word / 0x10_0000 % 1024)
    } else if k == 1 {
        widen(word / 1024 % 1024)
    } else if k == 2 {
        widen(word % 1024)
    } else {
        0xffff
    }
}

/// Byte `k` of an expanded pixel.
pub open spec fn pixel_byte(word: int, k: int) -> u8 {
    (if k % 2 == 0 {
        channel(word, k / 2) % 256
    } else {
        channel(word, k / 2) / 256
    }) as u8
}

/// Byte `o` of the expanded image: pixels in rows without gaps, four 16-bit
/// channels each, the low byte first.
pub open spec fn expanded_byte(width: int, stride: int, pixels: Seq<u8>, o: int) -> u8 {
    let p = o / 8;
    pixel_byte(word_at(pixels, (p / width) * stride + (p % width) * 4), o % 8)
}

/// The expanded image.
pub open spec fn expanded(width: int, height: int, stride: int, pixels: Seq<u8>) -> Seq<u8> {
    Seq::new((width * height * 8) as nat, |o: int| expanded_byte(width, stride, pixels, o))
}

fn widen10(c: u32) -> (r: u32)
    requires
        c < 1024,
    ensures
        r == widen(c as int),
        r <= 0xffff,
{
    c * 64 + c / 16
}

/// Appends the eight bytes of an expanded pixel.
fn push_pixel(out: &mut Vec<u8>, v: u32)
    ensures
        final(out)@.len() == old(out)@.len() + 8,
        forall|o: int| 0 <= o < old(out)@.len() ==> #[trigger] final(out)@[o] == old(out)@[o],
        forall|k: int|
            0 <= k < 8 ==> #[trigger] final(out)@[old(out)@.len() + k] == pixel_byte(v as int, k),
{
    let r: u32 = widen10(v / 0x10_0000 % 1024);
    let g: u32 = widen10(v / 1024 % 1024);
    let b: u32 = widen10(v % 1024);
    out.push((r % 256) as u8);
    out.push((r / 256) as u8);
    out.push((g % 256) as u8);
    out.push((g / 256) as u8);
    out.push((b % 256) as u8);
    out.push((b / 256) as u8);
    out.push(255);
    out.push(255);
}

/// Every pixel of a `width` by `height` image lies inside `len` bytes.
pub open spec fn rows_in_bounds(width: int, height: int, stride: int, len: int) -> bool {
    width == 0 || height == 0 || (height - 1) * stride + width * 4 <= len
}

/// Expands packed 2:10:10:10 pixels to 16 bits per channel with opaque alpha.
pub fn expand_2101010_to_rgba16(width: i32, height: i32, stride: i32, pixels: &[u8]) -> (r: Vec<u8>)
    requires
        width >= 0,
        height >= 0,
        stride >= 0,
        rows_in_bounds(width as int, height as int, stride as int, pixels@.len() as int),
    ensures
        r@ == expanded(width as int, height as int, stride as int, pixels@),
{
    let mut out: Vec<u8> = Vec::new();
    let ghost w = width as int;
    let ghost h = height as int;
    let ghost s = stride as int;
    let len: usize = pixels.len();
    let mut y: i32 = 0;
    assert(w * 0 == 0);
    while y < height
        invariant
            0 <= y <= height,
            w == width as int,
            h == height as int,
            s == stride as int,
            w >= 0,
            s >= 0,
            rows_in_bounds(w, h, s, len as int),
            len == pixels@.len(),
            out@.len() == w * y * 8,
            forall|o: int|
                0 <= o < out@.len() ==> #[trigger] out@[o] == expanded_byte(w, s, pixels@, o),
        decreases height - y,
    {
        let mut x: i32 = 0;
        while x < width
            invariant
                0 <= x <= width,
                0 <= y < height,
                w == width as int,
                h == height as int,
                s == stride as int,
                w >= 0,
                s >= 0,
                rows_in_bounds(w, h, s, len as int),
                len == pixels@.len(),
                out@.len() == (w * y + x) * 8,
                forall|o: int|
                    0 <= o < out@.len() ==> #[trigger] out@[o] == expanded_byte(w, s, pixels@, o),
            decreases width - x,
        {
            let ghost p = w * y + x;
            assert(p / w == y && p % w == x) by {
                assert(p == y * w + x) by (nonlinear_arith)
                    requires
                        p == w * y + x,
                ;
                lemma_fundamental_div_mod_converse(p, w, y as int, x as int);
            }
            assert(y * s <= (h - 1) * s && 0 <= y * s) by (nonlinear_arith)
                requires
                    0 <= y <= h - 1,
                    s >= 0,
            ;
            assert(y * s + x * 4 + 4 <= len);
            let i: usize = (y as usize) * (stride as usize) + (x as usize) * 4;
            let v: u32 = pixels[i] as u32 + pixels[i + 1] as u32 * 0x100 + pixels[i + 2] as u32
                * 0x1_0000 + pixels[i + 3] as u32 * 0x100_0000;
            assert(v == word_at(pixels@, y * s + x * 4));
            let ghost before = out@;
            push_pixel(&mut out, v);
            assert forall|o: int| 0 <= o < out@.len() implies #[trigger] out@[o] == expanded_byte(
                w,
                s,
                pixels@,
                o,
            ) by {
                if o >= before.len() {
                    assert(o / 8 == p && o % 8 == o - 8 * p);
                    assert(out@[before.len() + (o - 8 * p)] == pixel_byte(v as int, o - 8 * p));
                }
            }
            x = x + 1;
        }
        assert(w * y + w == w * (y + 1)) by (nonlinear_arith);
        y = y + 1;
    }
    assert(out@ =~= expanded(w, h, s, pixels@));
    out
}

/// How the bytes of an image are read.
#[derive(Clone, Copy, PartialEq, Eq, Debug, Structural)]
pub enum Packing {
    /// 8 bits per channel, 32-bit little-endian, premultiplied alpha first.
    Argb8,
    /// 16 bits per channel, little-endian, the last channel skipped.
    Rgbx16,
    /// 16-bit float channels, little-endian, premultiplied alpha last.
    RgbaFloat16,
}

/// All that an image is built from.
#[derive(Debug)]
pub struct ImagePlan {
    pub space: CgSpace,
    pub packing: Packing,
    pub bits_per_component: usize,
    pub bits_per_pixel: usize,
    pub row_stride: usize,
    /// Plain SDR pixels go through a bitmap context.
    pub bitmap_context: bool,
    pub data: Vec<u8>,
}

/// The plan for an image: `space`, layout, and where each byte comes from.
pub open spec fn is_plan_for(
    plan: ImagePlan,
    width: i32,
    height: i32,
    stride: i32,
    pixels: Seq<u8>,
    format: PixelFormat,
    color: Option<ColorDesc>,
) -> bool {
    &&& plan.space == space_for(format, color)
    &&& plan.bitmap_context == (format == PixelFormat::Bgra8888 && plan.space == CgSpace::DeviceRgb)
    &&& match format {
        PixelFormat::Bgra8888 => plan.packing == Packing::Argb8 && plan.bits_per_component == 8
            && plan.bits_per_pixel == 32,
        PixelFormat::Rgb2101010 => plan.packing == Packing::Rgbx16 && plan.bits_per_component == 16
            && plan.bits_per_pixel == 64,
        PixelFormat::Rgba16F => plan.packing == Packing::RgbaFloat16 && plan.bits_per_component
            == 16 && plan.bits_per_pixel == 64,
    }
    &&& if format == PixelFormat::Rgb2101010 {
        plan.row_stride == width * 8 && plan.data@ == expanded(
            width as int,
            height as int,
            stride as int,
            pixels,
        )
    } else {
        plan.row_stride == stride && plan.data@ == pixels.take(stride * height)
    }
}

/// The first `n` bytes.
fn first_bytes(pixels: &[u8], n: usize) -> (r: Vec<u8>)
    requires
        n <= pixels@.len(),
    ensures
        r@ == pixels@.take(n as int),
{
    let mut r: Vec<u8> = Vec::new();
    let mut i: usize = 0;
    while i < n
        invariant
            i <= n <= pixels@.len(),
            r@ == pixels@.take(i as int),
        decreases n - i,
    {
        r.push(pixels[i]);
        assert(pixels@.take(i + 1) =~= pixels@.take(i as int).push(pixels@[i as int]));
        i = i + 1;
    }
    r
}

/// Plans the image of a raw buffer (row 0 on top), or refuses it where the
/// dimensions are not positive, a row is too short or bytes are missing.
///
/// Core Graphics takes no 10-bit RGB, so 10-bit content is expanded to 16 bits.
pub fn make_cgimage(
    width: i32,
    height: i32,
    stride: i32,
    pixels: &[u8],
    format: PixelFormat,
    color: Option<ColorDesc>,
) -> (r: Option<ImagePlan>)
    ensures
        r is Some == image_fits(width, height, stride, pixels@.len() as int, format),
        r is Some ==> is_plan_for(r->0, width, height, stride, pixels@, format, color),
{
    let bpp: i64 = bytes_per_pixel(format) as i64;
    if width <= 0 || height <= 0 || (stride as i64) < width as i64 * bpp {
        return None;
    }
    assert(0 <= stride * height <= 0x7fff_ffff * 0x7fff_ffff) by (nonlinear_arith)
        requires
            0 <= stride <= 0x7fff_ffff,
            0 <= height <= 0x7fff_ffff,
    ;
    let needed: u64 = stride as u64 * height as u64;
    if (pixels.len() as u64) < needed {
        return None;
    }
    let space = cg_space_for(format, color);
    let plan = match format {
        PixelFormat::Rgb2101010 => {
            proof {
                assert((height - 1) * stride + width * 4 <= stride * height) by (nonlinear_arith)
                    requires
                        4 * width <= stride,
                ;
                assert(width * 8 <= width * height * 8) by (nonlinear_arith)
                    requires
                        width > 0,
                        height >= 1,
                ;
            }
            let data = expand_2101010_to_rgba16(width, height, stride, pixels);
            let n: usize = data.len();
            assert(n == width * height * 8);
            ImagePlan {
                space,
                packing: Packing::Rgbx16,
                bits_per_component: 16,
                bits_per_pixel: 64,
                row_stride: width as usize * 8,
                bitmap_context: false,
                data,
            }
        },
        PixelFormat::Rgba16F => ImagePlan {
            space,
            packing: Packing::RgbaFloat16,
            bits_per_component: 16,
            bits_per_pixel: 64,
            row_stride: stride as usize,
            bitmap_context: false,
            data: first_bytes(pixels, needed as usize),
        },
        PixelFormat::Bgra8888 => ImagePlan {
            space,
            packing: Packing::Argb8,
            bits_per_component: 8,
            bits_per_pixel: 32,
            row_stride: stride as usize,
            bitmap_context: space == CgSpace::DeviceRgb,
            data: first_bytes(pixels, needed as usize),
        },
    };
    Some(plan)
}

/// A full channel stays full and an empty one stays empty when it is widened, and
/// a stronger signal stays stronger.
pub proof fn lemma_widening_keeps_the_range(a: int, b: int)
    requires
        0 <= a < b < 1024,
    ensures
        widen(0) == 0,
        widen(1023) == 0xffff,
        widen(a) < widen(b),
{
}

/// A packed word holds blue in its lowest ten bits, then green, then red, and each comes
/// out under its own channel, spread over the whole range; alpha is opaque.
pub proof fn lemma_channels_come_out_apart(r: int, g: int, b: int, a: int)
    requires
        0 <= r < 1024,
        0 <= g < 1024,
        0 <= b < 1024,
        0 <= a < 4,
    ensures
        ({
            let word = a * 0x4000_0000 + r * 0x10_0000 + g * 0x400 + b;
            &&& channel(word, 0) == r * 64 + r / 16
            &&& channel(word, 1) == g * 64 + g / 16
            &&& channel(word, 2) == b * 64 + b / 16
            &&& channel(word, 3) == 65_535
        }),
{
    let word = a * 0x4000_0000 + r * 0x10_0000 + g * 0x400 + b;
    let hi = a * 1024 + r;
    lemma_fundamental_div_mod_converse(word, 0x10_0000, hi, g * 0x400 + b);
    lemma_fundamental_div_mod_converse(hi, 1024, a, r);
    lemma_fundamental_div_mod_converse(word, 0x400, hi * 1024 + g, b);
    lemma_fundamental_div_mod_converse(hi * 1024 + g, 1024, hi, g);
}

/// The pixel in column `x` of row `y` comes from the same place of the buffer and goes to
/// the same place of the image: red, green, blue and alpha, the low byte of each first.
pub proof fn lemma_pixel_keeps_its_place(
    width: int,
    height: int,
    stride: int,
    pixels: Seq<u8>,
    x: int,
    y: int,
    k: int,
)
    requires
        0 <= x < width,
        0 <= y < height,
        0 <= k < 4,
    ensures
        ({
            let out = expanded(width, height, stride, pixels);
            let o = (y * width + x) * 8 + 2 * k;
            let i = y * stride + x * 4;
            let word = pixels[i] + 256 * pixels[i + 1] + 65_536 * pixels[i + 2] + 16_777_216
                * pixels[i + 3];
            &&& out.len() == width * height * 8
            &&& 0 <= o && o + 1 < out.len()
            &&& out[o] + 256 * out[o + 1] == channel(word, k)
        }),
{
    let out = expanded(width, height, stride, pixels);
    let p = y * width + x;
    let o = p * 8 + 2 * k;
    let i = y * stride + x * 4;
    assert(0 <= p < width * height) by (nonlinear_arith)
        requires
            0 <= x < width,
            0 <= y < height,
            p == y * width + x,
    ;
    assert(out.len() == width * height * 8) by (nonlinear_arith)
        requires
            out.len() == (width * height * 8) as nat,
            width * height >= 0,
    ;
    lemma_fundamental_div_mod_converse(p, width, y, x);
    assert(o / 8 == p && o % 8 == 2 * k);
    assert((o + 1) / 8 == p && (o + 1) % 8 == 2 * k + 1);
    let word = word_at(pixels, i);
    assert((p / width) * stride + (p % width) * 4 == i);
    assert(out[o] == pixel_byte(word, 2 * k));
    assert(out[o + 1] == pixel_byte(word, 2 * k + 1));
    assert(0 <= word);
    assert(0 <= channel(word, k) <= 65_535);
}

/// HDR curves are shown in the space of their curve, float content in an extended range,
/// and everything else in the gamut of its primaries: what was not described is plain.
pub proof fn lemma_space_follows_the_content(format: PixelFormat, c: ColorDesc)
    ensures
        ({
            let s = space_for(format, Some(c));
            let float = format == PixelFormat::Rgba16F;
            let extended = s == CgSpace::ExtLinearP3 || s == CgSpace::ExtLinear2020;
            &&& extended == float
            &&& float ==> (s == CgSpace::ExtLinear2020) == (c.primaries == Primaries::Bt2020)
            &&& !float ==> (s == CgSpace::Pq2100) == (c.tf == TransferFn::Pq)
            &&& !float ==> (s == CgSpace::Hlg2100) == (c.tf == TransferFn::Hlg)
            &&& !float && c.tf == TransferFn::Srgb ==> (s == CgSpace::DeviceRgb) == (c.primaries
                == Primaries::Srgb)
            &&& !float ==> space_for(format, None) == CgSpace::DeviceRgb
            &&& float ==> space_for(format, None) == CgSpace::ExtLinearP3
        }),
{
}

/// The rows of a planned image hold their pixels, all of its bytes are there, and each
/// pixel has as many bits as its channels; only plain pixels go through a bitmap.
pub proof fn lemma_plan_is_complete(
    plan: ImagePlan,
    width: i32,
    height: i32,
    stride: i32,
    pixels: Seq<u8>,
    format: PixelFormat,
    color: Option<ColorDesc>,
)
    requires
        image_fits(width, height, stride, pixels.len() as int, format),
        is_plan_for(plan, width, height, stride, pixels, format, color),
    ensures
        plan.row_stride * 8 >= width * plan.bits_per_pixel,
        plan.data@.len() == plan.row_stride * height,
        plan.bits_per_pixel == 4 * plan.bits_per_component,
        plan.bitmap_context ==> plan.bits_per_component == 8 && plan.space == CgSpace::DeviceRgb,
        (plan.packing == Packing::Argb8) == (format == PixelFormat::Bgra8888),
        (plan.packing == Packing::RgbaFloat16) == (format == PixelFormat::Rgba16F),
        format != PixelFormat::Rgb2101010 ==> forall|i: int|
            0 <= i < plan.data@.len() ==> #[trigger] plan.data@[i] == pixels[i],
{
    assert(width * height * 8 == width * 8 * height) by (nonlinear_arith);
    assert(stride * height >= 0) by (nonlinear_arith)
        requires
            stride >= 0,
            height >= 0,
    ;
    assert(width * height >= 0) by (nonlinear_arith)
        requires
            width >= 0,
            height >= 0,
    ;
}

} // verus!
