//! CRC-16/MODBUS checksum engine: reflected polynomial 0xA001, initial
//! register 0xFFFF, no final xor.  Both the inbound record validation and the
//! outbound command framing use this checksum.

use vstd::prelude::*;

verus! {

/// One shift round of the reflected CRC-16 computation: shift the register
/// right and, if a one bit fell out, fold in the polynomial 0xA001.
pub open spec fn crc16_round(c: u16) -> u16 {
    if c & 1 == 1 {
        (c >> 1) ^ 0xA001
    } else {
        c >> 1
    }
}

/// Folding one message byte into the running register: xor the byte into the
/// low half, then run eight shift rounds.
pub open spec fn crc16_byte(c: u16, b: u8) -> u16 {
    crc16_round(crc16_round(crc16_round(crc16_round(crc16_round(crc16_round(crc16_round(
        crc16_round(c ^ (b as u16)),
    )))))))
}

/// CRC-16/MODBUS of a byte sequence.  The empty sequence yields the initial
/// register value 0xFFFF.
pub open spec fn crc16(s: Seq<u8>) -> u16
    decreases s.len(),
{
    if s.len() == 0 {
        0xFFFF
    } else {
        crc16_byte(crc16(s.drop_last()), s.last())
    }
}

/// Folding a byte into two distinct register values keeps them distinct:
/// each shift round is a bijection on the register.
proof fn lemma_crc16_byte_injective(c1: u16, c2: u16, b: u8)
    requires
        c1 != c2,
    ensures
        crc16_byte(c1, b) != crc16_byte(c2, b),
{
    assert(crc16_byte(c1, b) != crc16_byte(c2, b)) by (bit_vector)
        requires
            c1 != c2,
    ;
}

/// Folding two distinct bytes into the same register value yields distinct
/// registers.
proof fn lemma_crc16_byte_flip(c: u16, b1: u8, b2: u8)
    requires
        b1 != b2,
    ensures
        crc16_byte(c, b1) != crc16_byte(c, b2),
{
    assert(crc16_byte(c, b1) != crc16_byte(c, b2)) by (bit_vector)
        requires
            b1 != b2,
    ;
}

/// Changing exactly one byte of a message always changes its CRC-16/MODBUS
/// checksum.
pub proof fn lemma_crc16_one_byte_change(s1: Seq<u8>, s2: Seq<u8>, j: int)
    requires
        s1.len() == s2.len(),
        0 <= j < s1.len(),
        s1[j] != s2[j],
        forall|k: int| 0 <= k < s1.len() && k != j ==> s1[k] == s2[k],
    ensures
        crc16(s1) != crc16(s2),
    decreases s1.len(),
{
    if j == s1.len() - 1 {
        assert(s1.drop_last() =~= s2.drop_last());
        lemma_crc16_byte_flip(crc16(s1.drop_last()), s1.last(), s2.last());
    } else {
        lemma_crc16_one_byte_change(s1.drop_last(), s2.drop_last(), j);
        assert(s1.last() == s2.last());
        lemma_crc16_byte_injective(crc16(s1.drop_last()), crc16(s2.drop_last()), s1.last());
    }
}

/// Flipping any single bit of any one message byte changes the
/// CRC-16/MODBUS checksum.
pub proof fn lemma_crc16_bit_flip(s: Seq<u8>, j: int, bit: u8)
    requires
        0 <= j < s.len(),
        bit < 8,
    ensures
        crc16(s.update(j, s[j] ^ (1u8 << bit))) != crc16(s),
{
    let bj = s[j];
    assert(bj ^ (1u8 << bit) != bj) by (bit_vector)
        requires
            bit < 8,
    ;
    lemma_crc16_one_byte_change(s.update(j, s[j] ^ (1u8 << bit)), s, j);
}

fn checksum_round(c: u16) -> (r: u16)
    ensures
        r == crc16_round(c),
{
    if c & 1 == 1 {
        (c >> 1) ^ 0xA001
    } else {
        c >> 1
    }
}

fn checksum_fold_byte(c: u16, b: u8) -> (r: u16)
    ensures
        r == crc16_byte(c, b),
{
    let x0 = c ^ (b as u16);
    let x1 = checksum_round(x0);
    let x2 = checksum_round(x1);
    let x3 = checksum_round(x2);
    let x4 = checksum_round(x3);
    let x5 = checksum_round(x4);
    let x6 = checksum_round(x5);
    let x7 = checksum_round(x6);
    checksum_round(x7)
}

/// CRC-16/MODBUS over `data`, deterministic and side-effect free.
pub fn checksum(data: &[u8]) -> (r: u16)
    ensures
        r == crc16(data@),
{
    let mut crc: u16 = 0xFFFF;
    let mut i: usize = 0;
    while i < data.len()
        invariant
            0 <= i <= data@.len(),
            crc == crc16(data@.subrange(0, i as int)),
        decreases data@.len() - i,
    {
        let b = data[i];
        proof {
            let pre = data@.subrange(0, i as int);
            let post = data@.subrange(0, i + 1);
            assert(post.drop_last() =~= pre);
            assert(post.last() == data@[i as int]);
        }
        crc = checksum_fold_byte(crc, b);
        i = i + 1;
    }
    proof {
        assert(data@.subrange(0, data@.len() as int) =~= data@);
    }
    crc
}

} // verus!
