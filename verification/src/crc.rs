//! CRC-32 (IEEE 802.3, reflected polynomial 0xEDB88320) over byte sequences,
//! and its rendering as eight upper-case hexadecimal digits.
use vstd::prelude::*;
use crate::strings::push_char;

verus! {

/// One bit of the reflected CRC-32 division.
pub open spec fn crc_shift(v: u32) -> u32 {
    if v & 1 != 0 {
        0xEDB8_8320u32 ^ (v >> 1u32)
    } else {
        v >> 1u32
    }
}

/// `n` bits of the reflected CRC-32 division.
pub open spec fn crc_shift_n(v: u32, n: nat) -> u32
    decreases n,
{
    if n == 0 {
        v
    } else {
        crc_shift(crc_shift_n(v, (n - 1) as nat))
    }
}

/// The register after one more byte has been fed in.
pub open spec fn crc_step(reg: u32, byte: u8) -> u32 {
    (reg >> 8u32) ^ crc_shift_n((reg ^ (byte as u32)) & 0xFFu32, 8)
}

/// The register after all of `data` has been fed in, starting from all ones.
pub open spec fn crc_register(data: Seq<u8>) -> u32
    decreases data.len(),
{
    if data.len() == 0 {
        0xFFFF_FFFFu32
    } else {
        crc_step(crc_register(data.drop_last()), data.last())
    }
}

/// The CRC-32 checksum of `data`: the final register, inverted.
pub open spec fn crc32_of(data: Seq<u8>) -> u32 {
    !crc_register(data)
}

/// The four bytes of `v`, least significant first.
pub open spec fn le_bytes(v: u32) -> Seq<u8> {
    seq![
        (v & 0xFFu32) as u8,
        ((v >> 8u32) & 0xFFu32) as u8,
        ((v >> 16u32) & 0xFFu32) as u8,
        ((v >> 24u32) & 0xFFu32) as u8,
    ]
}

/// Appending the little-endian CRC-32 of any data to that data always gives
/// the same checksum, the CRC-32 residue `0x2144DF1C`.
pub proof fn lemma_crc32_residue(data: Seq<u8>)
    ensures
        crc32_of(data + le_bytes(crc32_of(data))) == 0x2144_DF1Cu32,
{
    let r = crc_register(data);
    let c = !r;
    let le = le_bytes(c);
    let whole = data + le;
    assert(whole.drop_last() =~= data + le.take(3));
    assert((data + le.take(3)).drop_last() =~= data + le.take(2));
    assert((data + le.take(2)).drop_last() =~= data + le.take(1));
    assert((data + le.take(1)).drop_last() =~= data);
    let r1 = crc_step(r, (c & 0xFFu32) as u8);
    let r2 = crc_step(r1, ((c >> 8u32) & 0xFFu32) as u8);
    let r3 = crc_step(r2, ((c >> 16u32) & 0xFFu32) as u8);
    let r4 = crc_step(r3, ((c >> 24u32) & 0xFFu32) as u8);
    assert(crc_register(data + le.take(1)) == r1);
    assert(crc_register(data + le.take(2)) == r2);
    assert(crc_register(data + le.take(3)) == r3);
    assert(crc_register(whole) == r4);
    assert(!r4 == 0x2144_DF1Cu32) by (bit_vector)
        requires
            c == !r,
            r1 == crc_step(r, (c & 0xFFu32) as u8),
            r2 == crc_step(r1, ((c >> 8u32) & 0xFFu32) as u8),
            r3 == crc_step(r2, ((c >> 16u32) & 0xFFu32) as u8),
            r4 == crc_step(r3, ((c >> 24u32) & 0xFFu32) as u8),
    ;
}

/// Computes the CRC-32 checksum of `data`.
pub fn crc32(data: &[u8]) -> (r: u32)
    ensures
        r == crc32_of(data@),
{
    let mut crc: u32 = 0xFFFF_FFFF;
    let n = data.len();
    for i in 0..n
        invariant
            n == data@.len(),
            crc == crc_register(data@.subrange(0, i as int)),
    {
        let byte = data[i];
        let v0: u32 = (crc ^ (byte as u32)) & 0xFF;
        let mut value: u32 = v0;
        for k in 0..8u32
            invariant
                value == crc_shift_n(v0, k as nat),
        {
            if value & 1 != 0 {
                value = 0xEDB8_8320 ^ (value >> 1);
            } else {
                value = value >> 1;
            }
        }
        proof {
            let s = data@.subrange(0, i + 1);
            assert(s.drop_last() =~= data@.subrange(0, i as int));
            assert(s.last() == byte);
        }
        crc = (crc >> 8) ^ value;
    }
    proof {
        assert(data@.subrange(0, n as int) =~= data@);
    }
    !crc
}

/// The upper-case hexadecimal digit for a value below 16.
pub open spec fn hex_upper(n: u32) -> char {
    if n < 10 {
        (48 + n) as char
    } else {
        (55 + n) as char
    }
}

/// Eight upper-case hexadecimal digits of `v`, most significant first.
pub open spec fn hex8(v: u32) -> Seq<char> {
    Seq::new(8, |i: int| hex_upper((v >> ((28 - 4 * i) as u32)) & 0xFu32))
}

/// The upper-case hexadecimal digit for `n`, which is below 16.
pub fn hex_digit(n: u32) -> (c: char)
    requires
        n < 16,
    ensures
        c == hex_upper(n),
{
    if n < 10 {
        ((48 + n) as u8) as char
    } else {
        ((55 + n) as u8) as char
    }
}

/// The CRC-32 of `data` as eight upper-case hexadecimal digits.
pub fn crc32_hex(data: &[u8]) -> (r: String)
    ensures
        r@ == hex8(crc32_of(data@)),
{
    let v = crc32(data);
    let mut out = String::new();
    let mut i: u32 = 0;
    while i < 8
        invariant
            i <= 8,
            out@ == hex8(v).subrange(0, i as int),
        decreases 8 - i,
    {
        let shift: u32 = 28 - 4 * i;
        let nibble: u32 = (v >> shift) & 0xF;
        assert(nibble < 16) by (bit_vector)
            requires
                nibble == (v >> shift) & 0xFu32,
        ;
        push_char(&mut out, hex_digit(nibble));
        assert(out@ =~= hex8(v).subrange(0, i + 1));
        i = i + 1;
    }
    assert(out@ =~= hex8(v));
    out
}

} // verus!
