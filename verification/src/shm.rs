//! Client buffers: shared-memory pools, pixel formats, and reading pixels out.

use crate::cmd::PixelFormat;
use vstd::prelude::*;

verus! {

/// wl_shm format code: 32-bit ARGB.
pub const ARGB8888: u32 = 0;

/// wl_shm format code: 32-bit RGB.
pub const XRGB8888: u32 = 1;

/// wl_shm format code: 10 bits per channel.
pub const XRGB2101010: u32 = 0x3033_5258;

/// wl_shm format code: 10 bits per channel with alpha.
pub const ARGB2101010: u32 = 0x3033_5241;

/// wl_shm format code: 16-bit floats.
pub const ABGR16161616F: u32 = 0x4834_4241;

/// The formats that clients are told of, in this order.
pub fn advertised_formats() -> (r: Vec<u32>)
    ensures
        r@ == seq![ARGB8888, XRGB8888, XRGB2101010, ARGB2101010, ABGR16161616F],
{
    let mut r: Vec<u32> = Vec::new();
    r.push(ARGB8888);
    r.push(XRGB8888);
    r.push(XRGB2101010);
    r.push(ARGB2101010);
    r.push(ABGR16161616F);
    assert(r@ =~= seq![ARGB8888, XRGB8888, XRGB2101010, ARGB2101010, ABGR16161616F]);
    r
}

/// The layout that a format code stands for; any other code is plain 8-bit BGRA.
pub open spec fn layout_of(format: u32) -> PixelFormat {
    if format == XRGB2101010 || format == ARGB2101010 {
        PixelFormat::Rgb2101010
    } else if format == ABGR16161616F {
        PixelFormat::Rgba16F
    } else {
        PixelFormat::Bgra8888
    }
}

/// Maps a format code to its layout and bytes per pixel.
pub fn shm_pixel_format(format: u32) -> (r: (PixelFormat, usize))
    ensures
        r.0 == layout_of(format),
        r.1 == crate::pixels::spec_bytes_per_pixel(r.0),
{
    if format == XRGB2101010 || format == ARGB2101010 {
        (PixelFormat::Rgb2101010, 4)
    } else if format == ABGR16161616F {
        (PixelFormat::Rgba16F, 8)
    } else {
        (PixelFormat::Bgra8888, 4)
    }
}

/// How many bytes of a client's pool are mapped; none where mapping failed.
#[derive(Clone, Copy, PartialEq, Eq, Debug, Structural)]
pub struct PoolMem {
    pub len: Option<usize>,
}

/// The length to map for a size that a client names: none unless it is positive.
pub fn pool_length(size: i32) -> (r: Option<usize>)
    ensures
        r is Some == (size > 0),
        r is Some ==> r->0 == size,
{
    if size > 0 {
        Some(size as usize)
    } else {
        None
    }
}

impl PoolMem {
    /// The pool after a change of size.
    pub open spec fn resized(self, size: i32, mapped: bool) -> PoolMem {
        if size > 0 && mapped {
            PoolMem { len: Some(size as usize) }
        } else {
            self
        }
    }

    /// A new pool; `mapped` says whether the system could map the length.
    pub fn map_pool(size: i32, mapped: bool) -> (p: Self)
        ensures
            p.len is Some == (size > 0 && mapped),
            p.len is Some ==> p.len->0 == size,
    {
        PoolMem {
            len: if mapped {
                pool_length(size)
            } else {
                None
            },
        }
    }

    /// Changes the mapped length. A size that is not positive, or that the system
    /// cannot map, leaves the pool as it is.
    pub fn resize(&mut self, size: i32, mapped: bool)
        ensures
            *final(self) == old(self).resized(size, mapped),
    {
        if mapped {
            if let Some(n) = pool_length(size) {
                self.len = Some(n);
            }
        }
    }
}

/// What a buffer is made of.
#[derive(Clone, Copy, PartialEq, Eq, Debug, Structural)]
pub enum BufferKind {
    /// Pixels inside a client's pool.
    Shm { offset: i32, width: i32, height: i32, stride: i32, format: u32 },
    /// One pixel of one color.
    SinglePixel { b: u8, g: u8, r: u8, a: u8 },
}

/// The buffer of one pixel.
pub open spec fn one_pixel(r: u32, g: u32, b: u32, a: u32) -> BufferKind {
    BufferKind::SinglePixel {
        b: (b / 0x100_0000) as u8,
        g: (g / 0x100_0000) as u8,
        r: (r / 0x100_0000) as u8,
        a: (a / 0x100_0000) as u8,
    }
}

/// A single-pixel buffer. Channels come as fractions of `u32::MAX`; the high byte of
/// each counts.
pub fn single_pixel_buffer(r: u32, g: u32, b: u32, a: u32) -> (k: BufferKind)
    ensures
        k == one_pixel(r, g, b, a),
{
    BufferKind::SinglePixel {
        b: (b / 0x100_0000) as u8,
        g: (g / 0x100_0000) as u8,
        r: (r / 0x100_0000) as u8,
        a: (a / 0x100_0000) as u8,
    }
}

/// Raw pixels out of a buffer, with their layout.
#[derive(Debug, PartialEq, Eq)]
pub struct PixelBuf {
    pub width: i32,
    pub height: i32,
    pub stride: i32,
    pub format: PixelFormat,
    pub bytes: Vec<u8>,
}

/// The buffer lies inside a pool of `len` bytes and its rows hold their pixels.
pub open spec fn lies_inside(
    offset: i32,
    width: i32,
    height: i32,
    stride: i32,
    format: u32,
    len: int,
) -> bool {
    &&& width > 0
    &&& height > 0
    &&& offset >= 0
    &&& stride >= width * crate::pixels::spec_bytes_per_pixel(layout_of(format))
    &&& offset + stride * height <= len
}

/// A buffer can be read out.
pub open spec fn readable(kind: BufferKind, pool: Option<&[u8]>) -> bool {
    match kind {
        BufferKind::Shm { offset, width, height, stride, format } => pool is Some && lies_inside(
            offset,
            width,
            height,
            stride,
            format,
            pool->0@.len() as int,
        ),
        BufferKind::SinglePixel { .. } => true,
    }
}

/// `p` is what a buffer holds.
pub open spec fn holds_pixels(kind: BufferKind, pool: Option<&[u8]>, p: PixelBuf) -> bool {
    match kind {
        BufferKind::Shm { offset, width, height, stride, format } => {
            &&& p.width == width
            &&& p.height == height
            &&& p.stride == stride
            &&& p.format == layout_of(format)
            &&& p.bytes@ == pool->0@.subrange(offset as int, offset + stride * height)
        },
        BufferKind::SinglePixel { b, g, r, a } => {
            &&& p.width == 1
            &&& p.height == 1
            &&& p.stride == 4
            &&& p.format == PixelFormat::Bgra8888
            &&& p.bytes@ == seq![b, g, r, a]
        },
    }
}

fn copy_range(bytes: &[u8], from: usize, to: usize) -> (r: Vec<u8>)
    requires
        from <= to <= bytes@.len(),
    ensures
        r@ == bytes@.subrange(from as int, to as int),
{
    let mut r: Vec<u8> = Vec::new();
    let mut i: usize = from;
    while i < to
        invariant
            from <= i <= to <= bytes@.len(),
            r@ == bytes@.subrange(from as int, i as int),
        decreases to - i,
    {
        r.push(bytes[i]);
        assert(bytes@.subrange(from as int, i + 1) =~= bytes@.subrange(from as int, i as int).push(
            bytes@[i as int],
        ));
        i = i + 1;
    }
    assert(r@ =~= bytes@.subrange(from as int, to as int));
    r
}

/// Copies a buffer's pixels out. `pool` is the mapped pool of a shared-memory buffer.
/// A client controls every number here, so a buffer that reaches outside its pool,
/// or whose rows are too short, is refused.
pub fn buffer_to_pixels(kind: &BufferKind, pool: Option<&[u8]>) -> (r: Option<PixelBuf>)
    ensures
        r is Some == readable(*kind, pool),
        r is Some ==> holds_pixels(*kind, pool, r->0),
{
    match *kind {
        BufferKind::Shm { offset, width, height, stride, format } => {
            if width <= 0 || height <= 0 || offset < 0 || stride < 0 {
                return None;
            }
            let (pf, bpp) = shm_pixel_format(format);
            if (stride as u64) < width as u64 * bpp as u64 {
                return None;
            }
            assert(0 <= stride * height <= 0x7fff_ffff * 0x7fff_ffff) by (nonlinear_arith)
                requires
                    0 <= stride <= 0x7fff_ffff,
                    0 <= height <= 0x7fff_ffff,
            ;
            let len: u64 = stride as u64 * height as u64;
            let end: u64 = offset as u64 + len;
            match pool {
                Some(map) => {
                    if end > map.len() as u64 {
                        return None;
                    }
                    Some(
                        PixelBuf {
                            width,
                            height,
                            stride,
                            format: pf,
                            bytes: copy_range(map, offset as usize, end as usize),
                        },
                    )
                },
                None => None,
            }
        },
        BufferKind::SinglePixel { b, g, r, a } => {
            let mut bytes: Vec<u8> = Vec::new();
            bytes.push(b);
            bytes.push(g);
            bytes.push(r);
            bytes.push(a);
            assert(bytes@ =~= seq![b, g, r, a]);
            Some(PixelBuf { width: 1, height: 1, stride: 4, format: PixelFormat::Bgra8888, bytes })
        },
    }
}

/// What is read out of a buffer always makes an image: nothing that a client is
/// allowed to present is refused later.
pub proof fn lemma_readable_buffer_makes_an_image(
    kind: BufferKind,
    pool: Option<&[u8]>,
    p: PixelBuf,
)
    requires
        readable(kind, pool),
        holds_pixels(kind, pool, p),
    ensures
        crate::pixels::image_fits(p.width, p.height, p.stride, p.bytes@.len() as int, p.format),
{
    match kind {
        BufferKind::Shm { offset, width, height, stride, format } => {
            assert(stride * height >= 0) by (nonlinear_arith)
                requires
                    stride >= 0,
                    height >= 0,
            ;
        },
        _ => {},
    }
}

/// A pool that grows keeps every buffer readable that was, with the same pixels,
/// where the bytes that were there stay.
pub proof fn lemma_growing_pool_keeps_buffers(kind: BufferKind, before: &[u8], after: &[u8])
    requires
        readable(kind, Some(before)),
        before@.len() <= after@.len(),
        after@.take(before@.len() as int) == before@,
    ensures
        readable(kind, Some(after)),
        forall|p: PixelBuf| #[trigger]
            holds_pixels(kind, Some(before), p) ==> holds_pixels(kind, Some(after), p),
{
    match kind {
        BufferKind::Shm { offset, width, height, stride, format } => {
            assert(stride * height >= 0) by (nonlinear_arith)
                requires
                    stride >= 0,
                    height >= 0,
            ;
            assert(after@.subrange(offset as int, offset + stride * height) =~= before@.subrange(
                offset as int,
                offset + stride * height,
            )) by {
                assert forall|i: int| 0 <= i < before@.len() implies after@[i] == before@[i] by {
                    assert(after@.take(before@.len() as int)[i] == before@[i]);
                }
            }
        },
        _ => {},
    }
}

/// The code of a format that goes by four letters, the first one lowest.
pub open spec fn four_letters(a: char, b: char, c: char, d: char) -> int {
    a as u32 + 256 * (b as u32) + 65_536 * (c as u32) + 16_777_216 * (d as u32)
}

/// The formats that are not plain are those with ten bits per channel, `XR30` and `AR30`,
/// and the one with floats, `AB4H`.
pub proof fn lemma_formats_go_by_their_letters(format: u32)
    ensures
        layout_of(format) == PixelFormat::Rgb2101010 <==> format == four_letters('X', 'R', '3', '0')
            || format == four_letters('A', 'R', '3', '0'),
        layout_of(format) == PixelFormat::Rgba16F <==> format == four_letters('A', 'B', '4', 'H'),
{
}

/// A buffer of one pixel shows each channel as near as eight bits can tell from below:
/// blue, green, red, alpha.
pub proof fn lemma_one_pixel_has_its_color(
    r: u32,
    g: u32,
    b: u32,
    a: u32,
    pool: Option<&[u8]>,
    p: PixelBuf,
)
    requires
        holds_pixels(one_pixel(r, g, b, a), pool, p),
    ensures
        readable(one_pixel(r, g, b, a), pool),
        p.width == 1 && p.height == 1 && p.bytes@.len() == 4,
        0 <= b - p.bytes@[0] * 0x100_0000 < 0x100_0000,
        0 <= g - p.bytes@[1] * 0x100_0000 < 0x100_0000,
        0 <= r - p.bytes@[2] * 0x100_0000 < 0x100_0000,
        0 <= a - p.bytes@[3] * 0x100_0000 < 0x100_0000,
{
}

/// The pixels of a shared buffer are the pool's own bytes from its offset on, in their
/// order and with the client's own numbers.
pub proof fn lemma_pixels_are_the_pools_bytes(
    offset: i32,
    width: i32,
    height: i32,
    stride: i32,
    format: u32,
    pool: &[u8],
    p: PixelBuf,
)
    requires
        readable(BufferKind::Shm { offset, width, height, stride, format }, Some(pool)),
        holds_pixels(BufferKind::Shm { offset, width, height, stride, format }, Some(pool), p),
    ensures
        p.width == width && p.height == height && p.stride == stride,
        p.bytes@.len() == stride * height,
        forall|i: int|
            0 <= i < stride * height ==> #[trigger] p.bytes@[i] == pool@[offset + i],
        0 <= offset && offset + stride * height <= pool@.len(),
{
    assert(stride * height >= 0) by (nonlinear_arith)
        requires
            stride >= 0,
            height >= 0,
    ;
}

/// A pool has the last size that it was given and that could be mapped; a size that makes
/// no sense, or that cannot be mapped, takes nothing away.
pub proof fn lemma_pool_keeps_its_last_size(p: PoolMem, size: i32, later: i32)
    requires
        size > 0,
    ensures
        p.resized(size, true).len is Some,
        p.resized(size, true).len->0 == size,
        p.resized(size, false) == p,
        later <= 0 ==> p.resized(later, true) == p,
        later > 0 ==> p.resized(size, true).resized(later, true) == p.resized(later, true),
{
}

} // verus!
