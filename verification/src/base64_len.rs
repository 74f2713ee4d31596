use vstd::prelude::*;

use crate::error::{Error, Invalid};

verus! {

/// The Base64 padding byte `=`.
pub open spec fn is_pad(b: u8) -> bool {
    b == 0x3D
}

/// Number of `=` bytes at the end of `b`.
pub open spec fn trailing_pad_count(b: Seq<u8>) -> nat
    decreases b.len(),
{
    if b.len() == 0 {
        0
    } else if is_pad(b.last()) {
        1 + trailing_pad_count(b.drop_last())
    } else {
        0
    }
}

/// The number of bytes that padded Base64 text `b` decodes to, judged by its
/// length and padding alone; `None` when the length is not a multiple of four
/// or more than two padding bytes end it.
pub open spec fn base64_estimate(b: Seq<u8>) -> Option<nat> {
    if b.len() == 0 {
        Some(0)
    } else if b.len() % 4 != 0 {
        None
    } else if trailing_pad_count(b) > 2 {
        None
    } else {
        Some((b.len() / 4 * 3 - trailing_pad_count(b)) as nat)
    }
}

/// An estimate is never more than three quarters of the text's length.
pub proof fn estimate_is_at_most_three_quarters_of_length(b: Seq<u8>)
    ensures
        base64_estimate(b) matches Some(n) ==> n <= b.len() / 4 * 3,
{
}

/// Estimates how many bytes the Base64 text `data` decodes to, from its
/// length and trailing padding.
pub fn estimate_base64_decoded_len(data: &str) -> (res: Result<usize, Error>)
    ensures
        match base64_estimate(vstd::utf8::encode_utf8(data@)) {
            Some(n) => res matches Ok(m) && m == n,
            None => res matches Err(Error::InvalidArgs(Invalid::InvalidBase64)),
        },
{
    let bytes = data.as_bytes();
    let len: usize = bytes.len();
    let ghost b = vstd::utf8::encode_utf8(data@);
    assert(bytes@ == b);
    if len == 0 {
        return Ok(0);
    }
    if len % 4 != 0 {
        return Err(Error::InvalidArgs(Invalid::InvalidBase64));
    }
    let mut padding: usize = 0;
    assert(b.subrange(0, len as int) =~= b);
    while padding < len && bytes[len - 1 - padding] == 0x3Du8
        invariant
            len == b.len(),
            bytes@ == b,
            padding <= len,
            trailing_pad_count(b) == padding + trailing_pad_count(
                b.subrange(0, len - padding),
            ),
        decreases len - padding,
    {
        let ghost m: int = (len - padding) as int;
        assert(b.subrange(0, m).drop_last() =~= b.subrange(0, m - 1));
        padding = padding + 1;
    }
    proof {
        let m: int = (len - padding) as int;
        if m > 0 {
            assert(!is_pad(b.subrange(0, m).last()));
        }
    }
    if padding > 2 {
        return Err(Error::InvalidArgs(Invalid::InvalidBase64));
    }
    Ok((len / 4) * 3 - padding)
}

} // verus!
