//! Messages between the compositor and its window hosts, and how they are framed.
//!
//! A frame is the payload's length as four little-endian bytes, then the payload.

use crate::cmd::WinCmd;
use crate::input::InputEvent;
use vstd::prelude::*;

verus! {

/// Compositor to host.
#[derive(Debug, PartialEq, Eq)]
pub enum Downlink {
    /// The first message: what the host needs before it opens any window. `regular`
    /// decides whether it shows up in the Dock, under `name`.
    Hello {
        scale: i32,
        out_w: i32,
        out_h: i32,
        insets: (i32, i32, i32, i32),
        regular: bool,
        name: String,
    },
    /// A command to carry out.
    Cmd { cmd: WinCmd },
    /// The insets that docked bars reserve changed.
    Insets { top: i32, right: i32, bottom: i32, left: i32 },
    /// The client is gone; the host should end.
    Shutdown,
}

/// Host to compositor.
#[derive(Debug, PartialEq, Eq)]
pub enum Uplink {
    /// The host is up.
    Ready,
    /// An input event.
    Input { event: InputEvent },
}

/// Why a frame could not be made or read.
#[derive(Clone, Copy, PartialEq, Eq, Debug, Structural)]
pub enum FrameError {
    /// The payload's length does not fit the header.
    TooLarge,
    /// The stream ended inside a payload.
    Truncated,
}

/// The four bytes of a length, the lowest first.
pub open spec fn header(n: int) -> Seq<u8> {
    seq![
        (n % 256) as u8,
        (n / 0x100 % 256) as u8,
        (n / 0x1_0000 % 256) as u8,
        (n / 0x100_0000 % 256) as u8,
    ]
}

/// The length that four bytes stand for.
pub open spec fn length_of(h: Seq<u8>) -> int {
    h[0] + h[1] * 0x100 + h[2] * 0x1_0000 + h[3] * 0x100_0000
}

/// A payload's frame.
pub open spec fn framed(payload: Seq<u8>) -> Seq<u8> {
    header(payload.len() as int) + payload
}

/// A header gives its length back.
pub proof fn lemma_header_round_trip(n: int)
    requires
        0 <= n <= u32::MAX,
    ensures
        length_of(header(n)) == n,
        header(n).len() == 4,
{
}

/// Puts a payload into a frame.
pub fn encode_frame(payload: &[u8]) -> (r: Result<Vec<u8>, FrameError>)
    ensures
        r is Ok == (payload@.len() <= u32::MAX),
        r is Ok ==> r->Ok_0@ == framed(payload@),
        r is Err ==> r->Err_0 == FrameError::TooLarge,
{
    let n: usize = payload.len();
    if n as u64 > 0xffff_ffff {
        return Err(FrameError::TooLarge);
    }
    let len: u32 = n as u32;
    let mut out: Vec<u8> = Vec::new();
    out.push((len % 256) as u8);
    out.push((len / 0x100 % 256) as u8);
    out.push((len / 0x1_0000 % 256) as u8);
    out.push((len / 0x100_0000 % 256) as u8);
    assert(out@ =~= header(n as int));
    let mut i: usize = 0;
    assert(payload@.take(0) =~= Seq::<u8>::empty());
    while i < n
        invariant
            i <= n == payload@.len(),
            out@ =~= header(n as int) + payload@.take(i as int),
        decreases n - i,
    {
        out.push(payload[i]);
        assert(payload@.take(i + 1) =~= payload@.take(i as int).push(payload@[i as int]));
        i = i + 1;
    }
    assert(payload@.take(i as int) =~= payload@);
    Ok(out)
}

/// The payload's length that a header announces.
pub fn payload_length(h: &[u8; 4]) -> (n: u32)
    ensures
        n == length_of(h@),
{
    h[0] as u32 + h[1] as u32 * 0x100 + h[2] as u32 * 0x1_0000 + h[3] as u32 * 0x100_0000
}

/// The first frame of what is left of a stream: its payload, and how many bytes it takes.
pub open spec fn first_frame(bytes: Seq<u8>) -> Result<Option<(Seq<u8>, int)>, FrameError> {
    if bytes.len() < 4 {
        Ok(None)
    } else {
        let n = length_of(bytes.take(4));
        if bytes.len() < 4 + n {
            Err(FrameError::Truncated)
        } else {
            Ok(Some((bytes.subrange(4, 4 + n), 4 + n)))
        }
    }
}

/// Takes the first frame out of what is left of a stream: its payload, and how many
/// bytes it took. `None` where the stream ends before a whole header: the peer closed
/// it.
pub fn read_frame(bytes: &[u8]) -> (r: Result<Option<(Vec<u8>, usize)>, FrameError>)
    ensures
        match r {
            Ok(Some((payload, taken))) => first_frame(bytes@) == Ok::<
                Option<(Seq<u8>, int)>,
                FrameError,
            >(Some((payload@, taken as int))),
            Ok(None) => first_frame(bytes@) == Ok::<Option<(Seq<u8>, int)>, FrameError>(None),
            Err(e) => first_frame(bytes@) == Err::<Option<(Seq<u8>, int)>, FrameError>(e),
        },
        bytes@.len() < 4 ==> r == Ok::<Option<(Vec<u8>, usize)>, FrameError>(None),
        bytes@.len() >= 4 && bytes@.len() < 4 + length_of(bytes@.take(4)) ==> r == Err::<
            Option<(Vec<u8>, usize)>,
            FrameError,
        >(FrameError::Truncated),
        bytes@.len() >= 4 && bytes@.len() >= 4 + length_of(bytes@.take(4)) ==> r is Ok
            && r->Ok_0 is Some && (r->Ok_0->0).0@ == bytes@.subrange(
            4,
            4 + length_of(bytes@.take(4)),
        ) && (r->Ok_0->0).1 == 4 + length_of(bytes@.take(4)),
{
    let n: usize = bytes.len();
    if n < 4 {
        return Ok(None);
    }
    let len: u32 = bytes[0] as u32 + bytes[1] as u32 * 0x100 + bytes[2] as u32 * 0x1_0000
        + bytes[3] as u32 * 0x100_0000;
    assert(len == length_of(bytes@.take(4)));
    if ((n - 4) as u64) < len as u64 {
        return Err(FrameError::Truncated);
    }
    let end: usize = 4 + len as usize;
    let mut out: Vec<u8> = Vec::new();
    let mut i: usize = 4;
    while i < end
        invariant
            4 <= i <= end <= n == bytes@.len(),
            out@ =~= bytes@.subrange(4, i as int),
        decreases end - i,
    {
        out.push(bytes[i]);
        i = i + 1;
    }
    Ok(Some((out, end)))
}

/// What is read from a stream is what was written to it: the first frame's payload
/// comes back whole, and what follows it stays.
pub proof fn lemma_read_gives_back_what_was_written(payload: Seq<u8>, rest: Seq<u8>)
    requires
        payload.len() <= u32::MAX,
    ensures
        ({
            let stream = framed(payload) + rest;
            &&& stream.len() >= 4 + length_of(stream.take(4))
            &&& stream.subrange(4, 4 + length_of(stream.take(4))) == payload
            &&& stream.skip(4 + length_of(stream.take(4))) == rest
        }),
{
    let stream = framed(payload) + rest;
    lemma_header_round_trip(payload.len() as int);
    assert(stream.take(4) =~= header(payload.len() as int));
    assert(stream.subrange(4, 4 + payload.len() as int) =~= payload);
    assert(stream.skip(4 + payload.len() as int) =~= rest);
}

/// A frame that is cut short is never taken for a whole one.
pub proof fn lemma_cut_frame_is_not_read(payload: Seq<u8>, n: int)
    requires
        payload.len() <= u32::MAX,
        4 <= n < framed(payload).len(),
    ensures
        framed(payload).take(n).len() < 4 + length_of(framed(payload).take(n).take(4)),
{
    lemma_header_round_trip(payload.len() as int);
    assert(framed(payload).take(n).take(4) =~= header(payload.len() as int));
}

/// Reading undoes writing: what was put into a frame is read back whole, together with
/// where the next frame begins, whatever follows. A frame that is cut short is told from
/// a stream that has ended.
pub proof fn lemma_reading_undoes_writing(payload: Seq<u8>, rest: Seq<u8>, n: int)
    requires
        payload.len() <= u32::MAX,
        0 <= n < framed(payload).len(),
    ensures
        first_frame(framed(payload) + rest) == Ok::<Option<(Seq<u8>, int)>, FrameError>(
            Some((payload, framed(payload).len() as int)),
        ),
        n < 4 ==> first_frame(framed(payload).take(n)) == Ok::<Option<(Seq<u8>, int)>, FrameError>(
            None,
        ),
        n >= 4 ==> first_frame(framed(payload).take(n)) == Err::<
            Option<(Seq<u8>, int)>,
            FrameError,
        >(FrameError::Truncated),
{
    lemma_read_gives_back_what_was_written(payload, rest);
    lemma_header_round_trip(payload.len() as int);
    if n >= 4 {
        lemma_cut_frame_is_not_read(payload, n);
    }
}

/// A frame is four bytes longer than its payload, which stands at its end; the four bytes
/// count the payload, the lowest byte first.
pub proof fn lemma_frame_counts_its_payload(payload: Seq<u8>)
    requires
        payload.len() <= u32::MAX,
    ensures
        framed(payload).len() == payload.len() + 4,
        framed(payload).skip(4) == payload,
        framed(payload)[0] + 256 * framed(payload)[1] + 65_536 * framed(payload)[2] + 16_777_216
            * framed(payload)[3] == payload.len(),
{
    lemma_header_round_trip(payload.len() as int);
    assert(framed(payload).skip(4) =~= payload);
}

} // verus!
