//! Plain encoding: the bytes are stored as they are.
use vstd::prelude::*;

use crate::encoding::EncodingError;

verus! {

/// Appends `src` to `out` unchanged. The stride is that of the values the
/// bytes hold; every codec takes one, and this one does not use it.
pub fn encode(src: &[u8], stride: usize, out: &mut Vec<u8>)
    requires
        stride > 0,
    ensures
        final(out)@ == old(out)@ + src@,
{
    let mut i: usize = 0;
    let ghost start = out@;
    while i < src.len()
        invariant
            i <= src@.len(),
            out@ == start + src@.take(i as int),
        decreases src@.len() - i,
    {
        out.push(src[i]);
        i = i + 1;
        proof {
            assert(out@ =~= start + src@.take(i as int));
        }
    }
    proof {
        assert(src@.take(i as int) =~= src@);
    }
}

/// What `decode` makes of `src`: an error for a zero stride, or for a length
/// that is no multiple of the stride; otherwise the bytes themselves.
pub open spec fn decode_spec(src: Seq<u8>, stride: usize) -> Result<Seq<u8>, EncodingError> {
    if stride == 0 {
        Err(EncodingError::UnsupportedStride(stride))
    } else if src.len() % (stride as nat) != 0 {
        Err(EncodingError::Truncated)
    } else {
        Ok(src)
    }
}

/// Appends the bytes of `src` to `out` when `src` holds whole values of
/// `stride` bytes; otherwise reports the error and leaves `out` as it was.
pub fn decode(src: &[u8], stride: usize, out: &mut Vec<u8>) -> (r: Result<(), EncodingError>)
    ensures
        match decode_spec(src@, stride) {
            Ok(bytes) => r is Ok && final(out)@ == old(out)@ + bytes,
            Err(e) => r == Err::<(), EncodingError>(e) && final(out)@ == old(out)@,
        },
{
    if stride == 0 {
        return Err(EncodingError::UnsupportedStride(stride));
    }
    if src.len() % stride != 0 {
        return Err(EncodingError::Truncated);
    }
    let mut i: usize = 0;
    let ghost start = out@;
    while i < src.len()
        invariant
            i <= src@.len(),
            out@ == start + src@.take(i as int),
        decreases src@.len() - i,
    {
        out.push(src[i]);
        i = i + 1;
        proof {
            assert(out@ =~= start + src@.take(i as int));
        }
    }
    proof {
        assert(src@.take(i as int) =~= src@);
    }
    Ok(())
}

/// Decoding what was encoded gives back the bytes, when they hold whole values.
pub proof fn lemma_plain_roundtrip(src: Seq<u8>, stride: usize)
    requires
        stride > 0,
        src.len() % (stride as nat) == 0,
    ensures
        decode_spec(src, stride) == Ok::<Seq<u8>, EncodingError>(src),
{
}

} // verus!
