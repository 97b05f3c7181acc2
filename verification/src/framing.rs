//! Size-prefixed framing of byte strings, as the host call boundary hands
//! batches over: each frame is a four-byte little-endian length followed by
//! that many bytes, frames concatenated back to back.

use vstd::prelude::*;
use vstd::slice::slice_subrange;

verus! {

/// The value of four bytes read little-endian.
pub open spec fn le32(b: Seq<u8>) -> int {
    (b[0] as int) + 256 * ((b[1] as int) + 256 * ((b[2] as int) + 256 * (b[3] as int)))
}

/// A well-formed buffer of frames: empty, or a four-byte length that reads
/// as a non-negative 32-bit value, that many payload bytes, and a
/// well-formed remainder.
pub open spec fn well_formed_frames(s: Seq<u8>) -> bool
    decreases s.len(),
{
    if s.len() == 0 {
        true
    } else {
        &&& s.len() >= 4
        &&& le32(s.take(4)) < 0x80000000
        &&& 4 + le32(s.take(4)) <= s.len()
        &&& well_formed_frames(s.skip(4 + le32(s.take(4))))
    }
}

/// The frames of a buffer, in order, zero-length frames skipped.
pub open spec fn frames_of(s: Seq<u8>) -> Seq<Seq<u8>>
    decreases s.len(),
{
    if s.len() < 4 {
        Seq::empty()
    } else {
        let n = le32(s.take(4));
        if n < 0 || 4 + n > s.len() {
            Seq::empty()
        } else if n == 0 {
            frames_of(s.skip(4))
        } else {
            seq![s.subrange(4, 4 + n)] + frames_of(s.skip(4 + n))
        }
    }
}

/// Splits a size-prefixed concatenation of byte strings into its frames,
/// each borrowed from the input; zero-length frames are skipped.  The
/// buffer must be well-formed — the layout the host boundary produces.
pub fn unpack_size_prefixed_bytes<'a>(input: &'a [u8]) -> (r: Vec<&'a [u8]>)
    requires
        well_formed_frames(input@),
    ensures
        r.deep_view() == frames_of(input@),
{
    let mut result: Vec<&'a [u8]> = Vec::new();
    let n = input.len();
    let mut i: usize = 0;
    proof {
        assert(input@.skip(0) =~= input@);
        assert(result.deep_view() + frames_of(input@.skip(0)) =~~= frames_of(input@));
    }
    while i < n
        invariant
            i <= n,
            n == input@.len(),
            well_formed_frames(input@.skip(i as int)),
            frames_of(input@) =~~= result.deep_view() + frames_of(input@.skip(i as int)),
        decreases n - i,
    {
        let ghost rest = input@.skip(i as int);
        proof {
            assert(rest.len() == n - i);
            assert(rest.len() >= 4);
            assert(rest.take(4)[0] == input@[i as int]);
            assert(rest.take(4)[1] == input@[i + 1]);
            assert(rest.take(4)[2] == input@[i + 2]);
            assert(rest.take(4)[3] == input@[i + 3]);
        }
        let b0 = input[i];
        let b1 = input[i + 1];
        let b2 = input[i + 2];
        let b3 = input[i + 3];
        let size_u32: u32 = (b0 as u32) + 256 * (b1 as u32) + 65536 * (b2 as u32) + 16777216 * (
        b3 as u32);
        let size: usize = size_u32 as usize;
        proof {
            assert(size == le32(rest.take(4)));
            assert(4 + le32(rest.take(4)) <= rest.len());
        }
        if size == 0 {
            i = i + 4;
            proof {
                assert(input@.skip(i as int) =~= rest.skip(4));
            }
        } else {
            let frame = slice_subrange(input, i + 4, i + 4 + size);
            proof {
                assert(frame@ =~= rest.subrange(4, 4 + size));
            }
            let ghost prev = result@;
            let ghost prev_dv = result.deep_view();
            result.push(frame);
            i = i + 4 + size;
            proof {
                assert(input@.skip(i as int) =~= rest.skip(4 + size));
                assert(result@.len() == prev.len() + 1);
                assert forall|j: int|
                    0 <= j < result.deep_view().len() implies result.deep_view()[j] == prev_dv.push(
                    frame@,
                )[j] by {
                    if j < prev.len() {
                        assert(result@[j] == prev[j]);
                        assert(result.deep_view()[j] == prev[j].deep_view());
                        assert(prev_dv[j] == prev[j].deep_view());
                    } else {
                        assert(result@[j] == frame);
                    }
                }
                assert(result.deep_view() =~~= prev_dv.push(frame@));
            }
        }
    }
    proof {
        assert(input@.skip(i as int) =~= Seq::<u8>::empty());
        assert(frames_of(input@.skip(i as int)) =~~= Seq::<Seq<u8>>::empty());
        assert(result.deep_view() =~~= frames_of(input@));
    }
    result
}

} // verus!
