//! Outbound path of the codec: framing a command payload for transmission.
//! The outbound magic differs from the inbound separator in the order of
//! its last two bytes, and the checksum is computed over those two bytes in
//! reverse order followed by the payload with its leading zeros stripped.

use vstd::prelude::*;
use crate::checksum::{checksum, crc16};

verus! {

/// `s` with its leading zero bytes removed; an all-zero payload strips to
/// empty.
pub open spec fn trim_leading_zeros(s: Seq<u8>) -> Seq<u8>
    decreases s.len(),
{
    if s.len() > 0 && s[0] == 0 {
        trim_leading_zeros(s.drop_first())
    } else {
        s
    }
}

/// The framed form of a command payload: outbound magic, trimmed payload,
/// and the little-endian CRC-16 of `[0xa1, 0xc0]` followed by the trimmed
/// payload.
pub open spec fn spec_request_frame(s: Seq<u8>) -> Seq<u8> {
    let t = trim_leading_zeros(s);
    let c = crc16(seq![0xa1u8, 0xc0u8] + t);
    seq![0x5au8, 0xa5u8, 0xa1u8, 0xc0u8] + t + seq![(c % 256) as u8, (c / 256) as u8]
}

/// Skipping the leading zeros of a sequence is exactly its trimmed form.
proof fn lemma_trim_is_skip(s: Seq<u8>, k: int)
    requires
        0 <= k <= s.len(),
        forall|j: int| 0 <= j < k ==> s[j] == 0,
        k < s.len() ==> s[k] != 0,
    ensures
        trim_leading_zeros(s) == s.skip(k),
    decreases k,
{
    if k == 0 {
        assert(s.skip(0) =~= s);
    } else {
        assert(s[0] == 0);
        lemma_trim_is_skip(s.drop_first(), k - 1);
        assert(s.drop_first().skip(k - 1) =~= s.skip(k));
    }
}

/// Build the transmission frame for one outgoing command payload.  There
/// are no error conditions: every payload, including an empty or all-zero
/// one, frames successfully.
pub fn request_to_buf(value: &[u8]) -> (r: Vec<u8>)
    ensures
        r@ == spec_request_frame(value@),
{
    let mut start: usize = 0;
    while start < value.len() && value[start] == 0
        invariant
            0 <= start <= value@.len(),
            forall|j: int| 0 <= j < start ==> value@[j] == 0,
        decreases value@.len() - start,
    {
        start = start + 1;
    }
    proof {
        lemma_trim_is_skip(value@, start as int);
    }
    let ghost t = trim_leading_zeros(value@);
    let mut cksum_input: Vec<u8> = Vec::new();
    cksum_input.push(0xa1);
    cksum_input.push(0xc0);
    let mut i: usize = start;
    while i < value.len()
        invariant
            start <= i <= value@.len(),
            t == value@.skip(start as int),
            cksum_input@ == seq![0xa1u8, 0xc0u8] + value@.subrange(start as int, i as int),
        decreases value@.len() - i,
    {
        cksum_input.push(value[i]);
        proof {
            assert(seq![0xa1u8, 0xc0u8] + value@.subrange(start as int, i as int) + seq![
                value@[i as int],
            ] =~= seq![0xa1u8, 0xc0u8] + value@.subrange(start as int, i + 1));
        }
        i = i + 1;
    }
    proof {
        assert(value@.subrange(start as int, value@.len() as int) =~= value@.skip(start as int));
    }
    let c = checksum(cksum_input.as_slice());
    let mut out: Vec<u8> = Vec::new();
    out.push(0x5a);
    out.push(0xa5);
    out.push(0xa1);
    out.push(0xc0);
    let mut i: usize = start;
    while i < value.len()
        invariant
            start <= i <= value@.len(),
            out@ == seq![0x5au8, 0xa5u8, 0xa1u8, 0xc0u8] + value@.subrange(
                start as int,
                i as int,
            ),
        decreases value@.len() - i,
    {
        out.push(value[i]);
        proof {
            assert(seq![0x5au8, 0xa5u8, 0xa1u8, 0xc0u8] + value@.subrange(start as int, i as int)
                + seq![value@[i as int]] =~= seq![0x5au8, 0xa5u8, 0xa1u8, 0xc0u8]
                + value@.subrange(start as int, i + 1));
        }
        i = i + 1;
    }
    out.push((c % 256) as u8);
    out.push((c / 256) as u8);
    proof {
        assert(out@ =~= spec_request_frame(value@));
    }
    out
}

} // verus!
