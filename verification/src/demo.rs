//! The frames that the test client shows.

use crate::pixels::{channel, widen};
use vstd::arithmetic::div_mod::lemma_fundamental_div_mod_converse;
use vstd::prelude::*;

verus! {

/// Width of the frames, in pixels.
pub const WIDTH: u32 = 400;

/// Height of the frames, in pixels.
pub const HEIGHT: u32 = 300;

/// Byte `k` of a little-endian word.
pub open spec fn byte_of(word: int, k: int) -> u8 {
    (if k == 0 {
        word % 256
    } else if k == 1 {
        word / 0x100 % 256
    } else if k == 2 {
        word / 0x1_0000 % 256
    } else {
        word / 0x100_0000 % 256
    }) as u8
}

/// A pixel of the SDR frame, as a little-endian word of blue, green, red and filler: a
/// white marker in the top-left corner, else blue that grows to the right, green that
/// grows downward, and red half way.
pub open spec fn gradient(x: int, y: int) -> int {
    if x < 24 && y < 24 {
        0xffff_ffff
    } else {
        x * 255 / 400 + (y * 255 / 300) * 0x100 + 128 * 0x1_0000 + 255 * 0x100_0000
    }
}

/// A gray 10-bit level as an opaque 2:10:10:10 word.
pub open spec fn packed(code: int) -> int {
    3 * 0x4000_0000 + code * 0x10_0000 + code * 0x400 + code
}

/// The level of a pixel of the HDR frame: a block of SDR white in the top-left corner,
/// else a ramp from black on the left to the peak on the right.
pub open spec fn ramp(x: int, y: int) -> int {
    if x < 48 && y < 48 {
        520
    } else {
        x * 1023 / 399
    }
}

/// The frame whose pixel (x, y) is the word `pixel(x, y)`.
pub open spec fn frame_of(pixel: spec_fn(int, int) -> int) -> Seq<u8> {
    Seq::new(
        (400 * 300 * 4) as nat,
        |o: int| byte_of(pixel(o / 4 % 400, o / 4 / 400), o % 4),
    )
}

/// The words of the SDR frame.
pub open spec fn gradient_fn() -> spec_fn(int, int) -> int {
    |x: int, y: int| gradient(x, y)
}

/// The words of the HDR frame.
pub open spec fn ramp_fn() -> spec_fn(int, int) -> int {
    |x: int, y: int| packed(ramp(x, y))
}

fn push_word(out: &mut Vec<u8>, word: u32)
    ensures
        final(out)@.len() == old(out)@.len() + 4,
        forall|o: int| 0 <= o < old(out)@.len() ==> #[trigger] final(out)@[o] == old(out)@[o],
        forall|k: int|
            0 <= k < 4 ==> #[trigger] final(out)@[old(out)@.len() + k] == byte_of(word as int, k),
{
    out.push((word % 256) as u8);
    out.push((word / 0x100 % 256) as u8);
    out.push((word / 0x1_0000 % 256) as u8);
    out.push((word / 0x100_0000 % 256) as u8);
}

fn pixel(hdr: bool, x: u32, y: u32) -> (word: u32)
    requires
        x < 400,
        y < 300,
    ensures
        word == if hdr {
            packed(ramp(x as int, y as int))
        } else {
            gradient(x as int, y as int)
        },
{
    if hdr {
        let code: u32 = if x < 48 && y < 48 { 520 } else { x * 1023 / 399 };
        3 * 0x4000_0000 + code * 0x10_0000 + code * 0x400 + code
    } else if x < 24 && y < 24 {
        0xffff_ffff
    } else {
        x * 255 / WIDTH + (y * 255 / HEIGHT) * 0x100 + 128 * 0x1_0000 + 255 * 0x100_0000
    }
}

fn paint(hdr: bool) -> (out: Vec<u8>)
    ensures
        out@ == frame_of(
            if hdr {
                ramp_fn()
            } else {
                gradient_fn()
            },
        ),
{
    let ghost f = if hdr {
        ramp_fn()
    } else {
        gradient_fn()
    };
    let mut out: Vec<u8> = Vec::new();
    let mut y: u32 = 0;
    while y < HEIGHT
        invariant
            y <= 300,
            f == if hdr {
                ramp_fn()
            } else {
                gradient_fn()
            },
            out@.len() == y * 1600,
            forall|o: int|
                0 <= o < out@.len() ==> #[trigger] out@[o] == byte_of(
                    f(o / 4 % 400, o / 4 / 400),
                    o % 4,
                ),
        decreases 300 - y,
    {
        let mut x: u32 = 0;
        while x < WIDTH
            invariant
                x <= 400,
                y < 300,
                f == if hdr {
                    ramp_fn()
                } else {
                    gradient_fn()
                },
                out@.len() == y * 1600 + x * 4,
                forall|o: int|
                    0 <= o < out@.len() ==> #[trigger] out@[o] == byte_of(
                        f(o / 4 % 400, o / 4 / 400),
                        o % 4,
                    ),
            decreases 400 - x,
        {
            let ghost before = out@;
            let word: u32 = pixel(hdr, x, y);
            push_word(&mut out, word);
            assert forall|o: int| 0 <= o < out@.len() implies #[trigger] out@[o] == byte_of(
                f(o / 4 % 400, o / 4 / 400),
                o % 4,
            ) by {
                if o >= before.len() {
                    let k = o - before.len();
                    assert(o / 4 == y * 400 + x);
                    assert(o % 4 == k);
                    assert(o / 4 / 400 == y && o / 4 % 400 == x);
                    assert(out@[before.len() + k] == byte_of(word as int, k));
                }
            }
            x = x + 1;
        }
        y = y + 1;
    }
    assert(out@ =~= frame_of(f));
    out
}

/// The SDR frame, in bytes B, G, R, X.
pub fn draw() -> (out: Vec<u8>)
    ensures
        out@ == frame_of(gradient_fn()),
{
    paint(false)
}

/// The HDR frame, in packed 2:10:10:10 words.
pub fn draw_hdr() -> (out: Vec<u8>)
    ensures
        out@ == frame_of(ramp_fn()),
{
    paint(true)
}

/// A buffer of one color: `n` pixels.
pub fn make_solid_buffer(n: usize, bgra: [u8; 4]) -> (out: Vec<u8>)
    ensures
        out@.len() == n * 4,
        forall|o: int| 0 <= o < out@.len() ==> #[trigger] out@[o] == bgra@[o % 4],
{
    let mut out: Vec<u8> = Vec::new();
    let mut i: usize = 0;
    while i < n
        invariant
            i <= n,
            out@.len() == i * 4,
            forall|o: int| 0 <= o < out@.len() ==> #[trigger] out@[o] == bgra@[o % 4],
        decreases n - i,
    {
        out.push(bgra[0]);
        out.push(bgra[1]);
        out.push(bgra[2]);
        out.push(bgra[3]);
        i = i + 1;
    }
    out
}

/// A packed level comes out of the 10-bit expansion as the same gray on all three
/// color channels.
pub proof fn lemma_packed_level_expands_to_gray(code: int, k: int)
    requires
        0 <= code < 1024,
        0 <= k < 3,
    ensures
        channel(packed(code), k) == widen(code),
{
    let word = packed(code);
    lemma_fundamental_div_mod_converse(word, 0x10_0000, 3072 + code, code * 1024 + code);
    lemma_fundamental_div_mod_converse(3072 + code, 1024, 3, code);
    lemma_fundamental_div_mod_converse(word, 1024, (3072 + code) * 1024 + code, code);
    lemma_fundamental_div_mod_converse((3072 + code) * 1024 + code, 1024, 3072 + code, code);
    assert(word / 0x10_0000 % 1024 == code);
    assert(word / 1024 % 1024 == code);
    assert(word % 1024 == code);
}

/// The test picture grows bluer to the right and greener downward, and is opaque.
pub proof fn lemma_gradient_grows(x: int, y: int, x2: int, y2: int)
    requires
        24 <= x <= x2 < 400,
        24 <= y <= y2 < 300,
    ensures
        byte_of(gradient(x, y), 0) <= byte_of(gradient(x2, y), 0),
        byte_of(gradient(x, y), 1) <= byte_of(gradient(x, y2), 1),
        byte_of(gradient(x, y), 0) == byte_of(gradient(x, y2), 0),
        byte_of(gradient(x, y), 1) == byte_of(gradient(x2, y), 1),
        byte_of(gradient(x, y), 2) == 128,
        byte_of(gradient(x, y), 3) == 255,
{
    lemma_bytes_of_gradient(x, y);
    lemma_bytes_of_gradient(x2, y);
    lemma_bytes_of_gradient(x, y2);
    assert(x * 255 / 400 <= x2 * 255 / 400);
    assert(y * 255 / 300 <= y2 * 255 / 300);
}

proof fn lemma_bytes_of_gradient(x: int, y: int)
    requires
        24 <= x < 400,
        24 <= y < 300,
    ensures
        byte_of(gradient(x, y), 0) == x * 255 / 400,
        byte_of(gradient(x, y), 1) == y * 255 / 300,
        byte_of(gradient(x, y), 2) == 128,
        byte_of(gradient(x, y), 3) == 255,
{
    let b = x * 255 / 400;
    let g = y * 255 / 300;
    assert(0 <= b < 256);
    assert(0 <= g < 256);
    let word = gradient(x, y);
    lemma_fundamental_div_mod_converse(word, 0x100, g + 128 * 0x100 + 255 * 0x1_0000, b);
    lemma_fundamental_div_mod_converse(g + 128 * 0x100 + 255 * 0x1_0000, 256, 65_408, g);
    lemma_fundamental_div_mod_converse(word, 0x1_0000, 65_408, b + g * 0x100);
    lemma_fundamental_div_mod_converse(word, 0x100_0000, 255, b + g * 0x100 + 128 * 0x1_0000);
}

/// The HDR picture is a gray ramp that grows to the right from black to the peak.
pub proof fn lemma_ramp_grows(x: int, x2: int, y: int)
    requires
        0 <= x <= x2 < 400,
        48 <= y < 300,
    ensures
        0 <= ramp(x, y) <= ramp(x2, y) <= 1023,
        ramp(0, y) == 0,
        ramp(399, y) == 1023,
{
}

} // verus!
