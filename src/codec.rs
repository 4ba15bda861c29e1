//! Length-prefixed frames: a 16-bit big-endian length N, then N bytes of
//! payload. The same framing carries the control plane and the pipes
//! between the master and its workers.
use vstd::prelude::*;

verus! {

/// The longest payload a frame can carry.
pub const MAX_FRAME_PAYLOAD: usize = 65535;

/// Why a payload could not be framed.
#[derive(Clone, Copy, Debug, PartialEq, Eq, Structural)]
pub enum FrameError {
    /// The payload is longer than a 16-bit length can announce.
    TooLong,
}

/// The two length bytes for a payload of `n` bytes, most significant first.
pub open spec fn length_prefix(n: nat) -> Seq<u8> {
    seq![(n / 256) as u8, (n % 256) as u8]
}

/// The frame that carries `p`.
pub open spec fn frame(p: Seq<u8>) -> Seq<u8> {
    length_prefix(p.len()) + p
}

/// The payload length that the first two bytes of `b` announce.
pub open spec fn announced_len(b: Seq<u8>) -> nat {
    (b[0] as nat) * 256 + (b[1] as nat)
}

/// `b` starts with a whole frame.
pub open spec fn has_frame(b: Seq<u8>) -> bool {
    b.len() >= 2 && b.len() >= announced_len(b) + 2
}

/// The payload of the frame at the start of `b`.
pub open spec fn first_payload(b: Seq<u8>) -> Seq<u8> {
    b.subrange(2, announced_len(b) + 2int)
}

/// What follows the frame at the start of `b`.
pub open spec fn after_frame(b: Seq<u8>) -> Seq<u8> {
    b.subrange(announced_len(b) + 2int, b.len() as int)
}

/// Reads a big-endian 16-bit integer from two bytes.
pub fn read_u16_be(hi: u8, lo: u8) -> (r: u16)
    ensures
        r as nat == (hi as nat) * 256 + (lo as nat),
{
    (hi as u16) * 256 + (lo as u16)
}

/// Frames payloads and takes whole frames off the front of a buffer.
pub struct ClientTransportCodec;

impl ClientTransportCodec {
    /// Appends the frame for `payload` to `dst`; a payload that a 16-bit
    /// length cannot announce is refused and `dst` is left as it was.
    pub fn encode(&mut self, payload: &[u8], dst: &mut Vec<u8>) -> (r: Result<(), FrameError>)
        ensures
            payload@.len() <= MAX_FRAME_PAYLOAD ==> r is Ok && final(dst)@ == old(dst)@ + frame(
                payload@,
            ),
            payload@.len() > MAX_FRAME_PAYLOAD ==> r == Err::<(), FrameError>(FrameError::TooLong)
                && final(dst)@ == old(dst)@,
    {
        let n = payload.len();
        if n > MAX_FRAME_PAYLOAD {
            return Err(FrameError::TooLong);
        }
        dst.push((n / 256) as u8);
        dst.push((n % 256) as u8);
        let ghost start = dst@;
        let mut i: usize = 0;
        while i < n
            invariant
                n == payload@.len(),
                i <= n,
                dst@ == start + payload@.subrange(0, i as int),
            decreases n - i,
        {
            dst.push(payload[i]);
            i = i + 1;
            assert(dst@ =~= start + payload@.subrange(0, i as int));
        }
        assert(payload@.subrange(0, n as int) =~= payload@);
        assert(old(dst)@ + frame(payload@) =~= start + payload@);
        Ok(())
    }

    /// Takes the first whole frame off the front of `src` and returns its
    /// payload; with fewer than two bytes, or fewer than the announced
    /// length after them, it returns `None` and takes nothing.
    pub fn decode(&mut self, src: &mut Vec<u8>) -> (r: Option<Vec<u8>>)
        ensures
            has_frame(old(src)@) ==> r is Some && r->Some_0@ == first_payload(old(src)@)
                && final(src)@ == after_frame(old(src)@),
            !has_frame(old(src)@) ==> r is None && final(src)@ == old(src)@,
    {
        if src.len() < 2 {
            return None;
        }
        let size = read_u16_be(src[0], src[1]) as usize;
        if src.len() - 2 >= size {
            let rest = src.split_off(size + 2);
            let payload = src.split_off(2);
            *src = rest;
            Some(payload)
        } else {
            None
        }
    }
}

/// Decoding the frame of a payload gives back the payload and leaves what
/// followed the frame.
pub proof fn lemma_frame_round_trip(p: Seq<u8>, rest: Seq<u8>)
    requires
        p.len() <= MAX_FRAME_PAYLOAD,
    ensures
        has_frame(frame(p) + rest),
        first_payload(frame(p) + rest) == p,
        after_frame(frame(p) + rest) == rest,
{
    let b = frame(p) + rest;
    assert(announced_len(b) == p.len());
    assert(first_payload(b) =~= p);
    assert(after_frame(b) =~= rest);
}

/// A buffer that holds only part of a frame does not decode: the decoder
/// never takes bytes beyond a frame it has not seen whole.
pub proof fn lemma_partial_frame_waits(p: Seq<u8>, k: nat)
    requires
        p.len() <= MAX_FRAME_PAYLOAD,
        k < frame(p).len(),
    ensures
        !has_frame(frame(p).subrange(0, k as int)),
{
    let b = frame(p).subrange(0, k as int);
    if b.len() >= 2 {
        assert(b[0] == frame(p)[0]);
        assert(b[1] == frame(p)[1]);
        assert(announced_len(b) == p.len());
    }
}

} // verus!
