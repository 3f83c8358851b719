//! The encodings of the format's primitive fields, as functions on sequences
//! of bytes: little-endian integers of two and four bytes, and ASCII strings.
use vstd::prelude::*;
use vstd::utf8::*;

verus! {

/// The unsigned value of two bytes, least significant first.
pub open spec fn u16_of_le(s: Seq<u8>) -> int
    recommends
        s.len() >= 2,
{
    s[0] as int + 256 * (s[1] as int)
}

/// The unsigned value of four bytes, least significant first.
pub open spec fn u32_of_le(s: Seq<u8>) -> int
    recommends
        s.len() >= 4,
{
    s[0] as int + 256 * (s[1] as int) + 65536 * (s[2] as int) + 16777216 * (s[3] as int)
}

/// The value of a 16-bit pattern read as two's complement.
pub open spec fn signed16(u: int) -> int {
    if u >= 32768 {
        u - 65536
    } else {
        u
    }
}

/// The value of a 32-bit pattern read as two's complement.
pub open spec fn signed32(u: int) -> int {
    if u >= 2147483648 {
        u - 4294967296
    } else {
        u
    }
}

/// The 16-bit pattern of `v`, for `v` from -32768 to 65535.
pub open spec fn pattern16(v: int) -> int {
    if v < 0 {
        v + 65536
    } else {
        v
    }
}

/// The 32-bit pattern of `v`, for `v` from -2147483648 to 4294967295.
pub open spec fn pattern32(v: int) -> int {
    if v < 0 {
        v + 4294967296
    } else {
        v
    }
}

/// The two bytes of a 16-bit pattern, least significant first.
pub open spec fn le_bytes2(u: int) -> Seq<u8> {
    seq![(u % 256) as u8, (u / 256) as u8]
}

/// The four bytes of a 32-bit pattern, least significant first.
pub open spec fn le_bytes4(u: int) -> Seq<u8> {
    seq![
        (u % 256) as u8,
        ((u / 256) % 256) as u8,
        ((u / 65536) % 256) as u8,
        (u / 16777216) as u8,
    ]
}

/// The bytes of an unsigned 16-bit integer.
pub open spec fn u16_le(v: u16) -> Seq<u8> {
    le_bytes2(v as int)
}

/// The bytes of a signed 16-bit integer, in two's complement.
pub open spec fn i16_le(v: i16) -> Seq<u8> {
    le_bytes2(pattern16(v as int))
}

/// The bytes of an unsigned 32-bit integer.
pub open spec fn u32_le(v: u32) -> Seq<u8> {
    le_bytes4(v as int)
}

/// The bytes of a signed 32-bit integer, in two's complement.
pub open spec fn i32_le(v: i32) -> Seq<u8> {
    le_bytes4(pattern32(v as int))
}

/// Every byte is below 128.
pub open spec fn is_ascii_bytes(s: Seq<u8>) -> bool {
    forall|i: int| 0 <= i < s.len() ==> #[trigger] s[i] < 128
}

/// The characters that ASCII bytes stand for.
pub open spec fn ascii_chars(s: Seq<u8>) -> Seq<char> {
    Seq::new(s.len(), |i: int| s[i] as char)
}

/// The bytes of a string of ASCII characters, one byte for each.
pub open spec fn str_bytes(c: Seq<char>) -> Seq<u8> {
    Seq::new(c.len(), |i: int| c[i] as u8)
}

/// No character of the string is the NUL character.
pub open spec fn no_nul(c: Seq<char>) -> bool {
    forall|i: int| 0 <= i < c.len() ==> #[trigger] c[i] != '\0'
}

/// `n` zero bytes.
pub open spec fn zeros(n: nat) -> Seq<u8> {
    Seq::new(n, |i: int| 0u8)
}

/// The index of the first zero byte of `s`, or the length of `s` where it has none.
pub open spec fn first_nul(s: Seq<u8>) -> int
    decreases s.len(),
{
    if s.len() == 0 || s[0] == 0 {
        0
    } else {
        1 + first_nul(s.skip(1))
    }
}

/// `first_nul` is the one index before which no byte is zero and at which the
/// sequence ends or holds a zero.
pub proof fn lemma_first_nul(s: Seq<u8>, n: int)
    requires
        0 <= n <= s.len(),
        forall|j: int| 0 <= j < n ==> s[j] != 0,
        n == s.len() || s[n] == 0,
    ensures
        first_nul(s) == n,
    decreases s.len(),
{
    if s.len() == 0 || s[0] == 0 {
    } else {
        lemma_first_nul(s.skip(1), n - 1);
    }
}

/// What `first_nul` returns: an index within the sequence or its length, with
/// no zero before it.
pub proof fn lemma_first_nul_bounds(s: Seq<u8>)
    ensures
        0 <= first_nul(s) <= s.len(),
        forall|j: int| 0 <= j < first_nul(s) ==> s[j] != 0,
        first_nul(s) == s.len() || s[first_nul(s)] == 0,
    decreases s.len(),
{
    if s.len() == 0 || s[0] == 0 {
    } else {
        let t = s.skip(1);
        lemma_first_nul_bounds(t);
        assert forall|j: int| 0 <= j < first_nul(s) implies s[j] != 0 by {
            if j > 0 {
                assert(s[j] == t[j - 1]);
            }
        }
        if first_nul(s) != s.len() {
            assert(s[first_nul(s)] == t[first_nul(t)]);
        }
    }
}

/// ASCII bytes are the UTF-8 encoding of the characters they stand for.
pub proof fn lemma_ascii_bytes_utf8(s: Seq<u8>)
    requires
        is_ascii_bytes(s),
    ensures
        is_ascii_chars(ascii_chars(s)),
        encode_utf8(ascii_chars(s)) == s,
        valid_utf8(s),
        decode_utf8(s) == ascii_chars(s),
        str_bytes(ascii_chars(s)) == s,
{
    let c = ascii_chars(s);
    assert forall|i: int| 0 <= i < c.len() implies '\0' <= #[trigger] c[i] <= '\u{7f}' by {
        assert(s[i] < 128);
    }
    is_ascii_chars_encode_utf8(c);
    assert forall|i: int| 0 <= i < s.len() implies encode_utf8(c)[i] == s[i] by {
        assert(s[i] < 128);
        assert(c[i] as u8 == s[i]);
    }
    assert(encode_utf8(c) =~= s);
    encode_utf8_valid_utf8(c);
    encode_utf8_decode_utf8(c);
    assert(str_bytes(c) =~= s);
}

/// The UTF-8 encoding of ASCII characters has one byte for each.
pub proof fn lemma_ascii_chars_utf8(c: Seq<char>)
    requires
        is_ascii_chars(c),
    ensures
        encode_utf8(c) == str_bytes(c),
        is_ascii_bytes(str_bytes(c)),
        ascii_chars(str_bytes(c)) == c,
{
    is_ascii_chars_encode_utf8(c);
    assert(encode_utf8(c) =~= str_bytes(c));
    assert forall|i: int| 0 <= i < c.len() implies (#[trigger] str_bytes(c)[i]) < 128 && (
    str_bytes(c)[i] as char) == c[i] by {
        assert('\0' <= c[i] <= '\u{7f}');
    }
    assert(ascii_chars(str_bytes(c)) =~= c);
}

} // verus!
