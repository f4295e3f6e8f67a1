use vstd::prelude::*;

verus! {

/// Bytes in the UTF-8 sequence that lead byte `x` starts.
pub open spec fn width(x: u8) -> int {
    if x < 0x80 {
        1
    } else if x < 0xE0 {
        2
    } else if x < 0xF0 {
        3
    } else {
        4
    }
}

/// The code point of the UTF-8 sequence at `i`: the lead byte's payload
/// bits followed by six bits from each continuation byte.
pub open spec fn code_point_at(s: Seq<u8>, i: int) -> int {
    let x = s[i];
    if x < 0x80 {
        x as int
    } else if x < 0xE0 {
        (x % 32) * 64 + s[i + 1] % 64
    } else if x < 0xF0 {
        (x % 16) * 4096 + (s[i + 1] % 64) * 64 + s[i + 2] % 64
    } else {
        (x % 8) * 262144 + (s[i + 1] % 64) * 4096 + (s[i + 2] % 64) * 64 + s[i + 3] % 64
    }
}

/// A whole sequence starts at `i`.
pub open spec fn decodable_at(s: Seq<u8>, i: int) -> bool {
    0 <= i < s.len() && i + width(s[i]) <= s.len()
}

const CONT_MASK: u8 = 0x3F;

/// The payload bits of a lead byte of a two-byte sequence.
fn utf8_first_byte(byte: u8, width: u32) -> (r: u32)
    requires
        width == 2,
    ensures
        r == byte % 32,
{
    assert((byte & (0x7Fu8 >> 2u32)) == byte % 32) by (bit_vector);
    (byte & (0x7F >> width)) as u32
}

/// `ch` followed by the six payload bits of continuation byte `byte`.
fn utf8_acc_cont_byte(ch: u32, byte: u8) -> (r: u32)
    requires
        ch < 0x400_0000,
    ensures
        r == ch * 64 + byte % 64,
{
    assert(((ch << 6u32) | ((byte & 0x3Fu8) as u32)) == ch * 64 + (byte % 64) as u32) by (
    bit_vector)
        requires
            ch < 0x400_0000u32,
    ;
    (ch << 6) | (byte & CONT_MASK) as u32
}

/// Whether `byte` is a continuation byte: its top bits are `10`.
pub fn utf8_is_cont_byte(byte: u8) -> (r: bool)
    ensures
        r == (0x80 <= byte < 0xC0),
{
    assert(((byte & 0xC0u8) == 0x80u8) == (0x80u8 <= byte && byte < 0xC0u8)) by (bit_vector);
    byte & 0xC0 == 0x80
}

/// Decodes the sequence at `begin_index`. Assumes the bytes are UTF-8;
/// returns `None` at the end of the bytes or when the sequence is cut short.
pub fn peek_code_point(bytes: &[u8], begin_index: usize) -> (r: Option<u32>)
    ensures
        decodable_at(bytes@, begin_index as int) ==> r == Some(
            code_point_at(bytes@, begin_index as int) as u32,
        ) && code_point_at(bytes@, begin_index as int) < 0x20_0000,
        !decodable_at(bytes@, begin_index as int) ==> r is None,
{
    if begin_index >= bytes.len() {
        return None;
    }
    let x = bytes[begin_index];
    if x < 128 {
        return Some(x as u32);
    }
    let avail = bytes.len() - begin_index;
    if avail < 2 {
        return None;
    }
    let init = utf8_first_byte(x, 2);
    let y = bytes[begin_index + 1];
    let mut ch = utf8_acc_cont_byte(init, y);
    if x >= 0xE0 {
        if avail < 3 {
            return None;
        }
        let z = bytes[begin_index + 2];
        let y_z = utf8_acc_cont_byte((y & CONT_MASK) as u32, z);
        assert((y & 0x3Fu8) == y % 64) by (bit_vector);
        assert(x % 16 == (x % 32) % 16);
        if x >= 0xF0 {
            if avail < 4 {
                return None;
            }
            let w = bytes[begin_index + 3];
            assert((init & 7u32) == init % 8) by (bit_vector);
            let hi = (init & 7) << 18;
            assert(((init & 7u32) << 18u32) == (init & 7u32) * 262144) by (bit_vector)
                requires
                    init < 32,
            ;
            let lo = utf8_acc_cont_byte(y_z, w);
            assert((hi | lo) == hi + lo) by (bit_vector)
                requires
                    hi == (hi / 262144) * 262144,
                    lo < 262144,
            ;
            ch = hi | lo;
        } else {
            let hi = init << 12;
            assert((init << 12u32) == init * 4096) by (bit_vector)
                requires
                    init < 32,
            ;
            assert((hi | y_z) == hi + y_z) by (bit_vector)
                requires
                    hi == (hi / 4096) * 4096,
                    y_z < 4096,
            ;
            ch = hi | y_z;
        }
    }
    Some(ch)
}

/// Decodes the sequence at `*index` and moves `*index` past it. Assumes the
/// bytes are UTF-8; returns `None`, leaving `*index` alone, at the end of the
/// bytes or when the sequence is cut short.
pub fn next_code_point(bytes: &[u8], index: &mut usize) -> (r: Option<u32>)
    ensures
        decodable_at(bytes@, *old(index) as int) ==> r == Some(
            code_point_at(bytes@, *old(index) as int) as u32,
        ) && *final(index) == *old(index) + width(bytes@[*old(index) as int]),
        !decodable_at(bytes@, *old(index) as int) ==> r is None && *final(index) == *old(index),
{
    let r = peek_code_point(bytes, *index);
    if r.is_some() {
        let x = bytes[*index];
        let w: usize = if x < 0x80 {
            1
        } else if x < 0xE0 {
            2
        } else if x < 0xF0 {
            3
        } else {
            4
        };
        *index = *index + w;
    }
    r
}

} // verus!
