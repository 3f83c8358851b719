//! Decoding: the primitive fields, each kind of block, and a whole file.
//!
//! Every decoder comes as a pair. The `spec_` function says, for any sequence
//! of bytes, what the decoder finds and what it leaves, or why and where it
//! fails. The executable function returns exactly that.
use crate::crc16::{checksums, spec_checksums};
use crate::types::{
    BlockInfo, BlockInfoView, ChecksumBlock, ChecksumBlockView, ChecksumStatus, ChecksumStrategy,
    ChecksumValidationResult, DataPoints, DataPointsAtScaleFactor, DataPointsAtScaleFactorView,
    DataPointsView, FixedParametersBlock, FixedParametersBlockView, GeneralParametersBlock,
    GeneralParametersBlockView, KeyEvent, KeyEventView, KeyEvents, KeyEventsView, Landmark,
    LandmarkView, LastKeyEvent, LastKeyEventView, LinkParameters, LinkParametersView, MapBlock,
    MapBlockView, ProprietaryBlock, ProprietaryBlockView, SORFile, SORFileView,
    SupplierParametersBlock, SupplierParametersBlockView,
};
use crate::wire::{
    ascii_chars, first_nul, is_ascii_bytes, lemma_ascii_bytes_utf8, lemma_first_nul, pattern16,
    signed16, signed32, u16_of_le, u32_of_le,
};
use vstd::prelude::*;
use vstd::slice::{slice_subrange, slice_to_vec};
use vstd::string::*;
use vstd::utf8::*;

verus! {

/// Block header string for the map block
pub const BLOCK_ID_MAP: &'static str = "Map";

/// Block header string for the general parameters block
pub const BLOCK_ID_GENPARAMS: &'static str = "GenParams";

/// Block header string for the supplier parameters block
pub const BLOCK_ID_SUPPARAMS: &'static str = "SupParams";

/// Block header string for the fixed parameters block
pub const BLOCK_ID_FXDPARAMS: &'static str = "FxdParams";

/// Block header string for the key events block
pub const BLOCK_ID_KEYEVENTS: &'static str = "KeyEvents";

/// Block header string for the link parameters block
pub const BLOCK_ID_LNKPARAMS: &'static str = "LnkParams";

/// Block header string for the data points block
pub const BLOCK_ID_DATAPTS: &'static str = "DataPts";

/// Block header string for the checksum block
pub const BLOCK_ID_CHECKSUM: &'static str = "Cksum";

/// What can be wrong with bytes that are to be decoded.
#[derive(Debug, Clone, Copy, PartialEq, Eq)]
pub enum ParseErrorKind {
    /// A block does not begin with its name and a zero byte.
    BadHeader,
    /// A string runs to the end of the input without a zero byte.
    UnterminatedString,
    /// The input ends before the field does.
    Truncated,
    /// A string holds a byte of 128 or more.
    NonAsciiEncoding,
    /// A declared count is negative, or a count that includes the map or the
    /// last key event is less than one.
    CountUnderflow,
    /// The map declares a negative size for a block.
    NegativeBlockSize,
    /// The sizes that the map declares add up to more than the bytes that follow the map.
    SizeOverflow,
}

/// Why bytes could not be decoded, and where.
#[derive(Debug, Clone, Copy, PartialEq, Eq)]
pub struct ParseError {
    /// What is wrong with the bytes.
    pub kind: ParseErrorKind,
    /// How many bytes of the input lay ahead of the decoder where it
    /// stopped. The field that could not be read begins that many bytes
    /// before the end of the input.
    pub remaining: usize,
}

impl ParseError {
    /// The offset of the field that could not be read, in an input of `len` bytes.
    pub open spec fn spec_offset(self, len: usize) -> int {
        if self.remaining <= len {
            len - self.remaining
        } else {
            0
        }
    }

    /// The offset of the field that could not be read, in an input of `len` bytes.
    pub fn offset(&self, len: usize) -> (r: usize)
        ensures
            r == self.spec_offset(len),
    {
        if self.remaining <= len {
            len - self.remaining
        } else {
            0
        }
    }
}

/// The error of a decoder that stopped with the bytes `s` ahead of it.
pub open spec fn failed_at(kind: ParseErrorKind, s: Seq<u8>) -> ParseError {
    ParseError { kind, remaining: s.len() as usize }
}

/// The error of a decoder that stopped with the bytes `i` ahead of it.
fn failed(kind: ParseErrorKind, i: &[u8]) -> (e: ParseError)
    ensures
        e == failed_at(kind, i@),
        e.remaining == i@.len(),
{
    ParseError { kind, remaining: i.len() }
}

/// What a decoder finds in a sequence of bytes: a value and the bytes after
/// it, or the reason for which there is none.
pub type Parsed<T> = Result<(T, Seq<u8>), ParseError>;

/// An executable decoder's result as a [`Parsed`]: the value by its view, the
/// rest as a sequence.
pub open spec fn result_view<T: View>(r: Result<(&[u8], T), ParseError>) -> Parsed<T::V> {
    match r {
        Ok((rest, v)) => Ok((v@, rest@)),
        Err(e) => Err(e),
    }
}

/// What an executable decoder leaves, or the place where it stopped, lies
/// within its input.
pub open spec fn within<T>(r: Result<(&[u8], T), ParseError>, s: Seq<u8>) -> bool {
    match r {
        Ok((rest, _)) => rest@.len() <= s.len(),
        Err(e) => e.remaining <= s.len(),
    }
}

/// The first `n` bytes, and the bytes after them.
pub open spec fn spec_take(s: Seq<u8>, n: nat) -> Parsed<Seq<u8>> {
    if s.len() < n {
        Err(failed_at(ParseErrorKind::Truncated, s))
    } else {
        Ok((s.take(n as int), s.skip(n as int)))
    }
}

/// Splits off the first `n` bytes.
pub fn take(i: &[u8], n: usize) -> (r: Result<(&[u8], &[u8]), ParseError>)
    ensures
        result_view(r) == spec_take(i@, n as nat),
        within(r, i@),
{
    if i.len() < n {
        return Err(failed(ParseErrorKind::Truncated, i));
    }
    Ok((slice_subrange(i, n, i.len()), slice_subrange(i, 0, n)))
}

/// An unsigned 16-bit integer, least significant byte first.
pub open spec fn spec_le_u16(s: Seq<u8>) -> Parsed<u16> {
    if s.len() < 2 {
        Err(failed_at(ParseErrorKind::Truncated, s))
    } else {
        Ok((u16_of_le(s) as u16, s.skip(2)))
    }
}

/// A signed 16-bit integer in two's complement, least significant byte first.
pub open spec fn spec_le_i16(s: Seq<u8>) -> Parsed<i16> {
    if s.len() < 2 {
        Err(failed_at(ParseErrorKind::Truncated, s))
    } else {
        Ok((signed16(u16_of_le(s)) as i16, s.skip(2)))
    }
}

/// An unsigned 32-bit integer, least significant byte first.
pub open spec fn spec_le_u32(s: Seq<u8>) -> Parsed<u32> {
    if s.len() < 4 {
        Err(failed_at(ParseErrorKind::Truncated, s))
    } else {
        Ok((u32_of_le(s) as u32, s.skip(4)))
    }
}

/// A signed 32-bit integer in two's complement, least significant byte first.
pub open spec fn spec_le_i32(s: Seq<u8>) -> Parsed<i32> {
    if s.len() < 4 {
        Err(failed_at(ParseErrorKind::Truncated, s))
    } else {
        Ok((signed32(u32_of_le(s)) as i32, s.skip(4)))
    }
}

/// Reads an unsigned 16-bit integer.
pub fn le_u16(i: &[u8]) -> (r: Result<(&[u8], u16), ParseError>)
    ensures
        result_view(r) == spec_le_u16(i@),
        within(r, i@),
{
    if i.len() < 2 {
        return Err(failed(ParseErrorKind::Truncated, i));
    }
    let v: u16 = (i[0] as u16) + 256 * (i[1] as u16);
    Ok((slice_subrange(i, 2, i.len()), v))
}

/// Reads a signed 16-bit integer.
pub fn le_i16(i: &[u8]) -> (r: Result<(&[u8], i16), ParseError>)
    ensures
        result_view(r) == spec_le_i16(i@),
        within(r, i@),
{
    if i.len() < 2 {
        return Err(failed(ParseErrorKind::Truncated, i));
    }
    let u: i32 = (i[0] as i32) + 256 * (i[1] as i32);
    let v: i16 = if u >= 32768 {
        (u - 65536) as i16
    } else {
        u as i16
    };
    Ok((slice_subrange(i, 2, i.len()), v))
}

/// Reads an unsigned 32-bit integer.
pub fn le_u32(i: &[u8]) -> (r: Result<(&[u8], u32), ParseError>)
    ensures
        result_view(r) == spec_le_u32(i@),
        within(r, i@),
{
    if i.len() < 4 {
        return Err(failed(ParseErrorKind::Truncated, i));
    }
    let v: u32 = (i[0] as u32) + 256 * (i[1] as u32) + 65536 * (i[2] as u32) + 16777216 * (
    i[3] as u32);
    Ok((slice_subrange(i, 4, i.len()), v))
}

/// Reads a signed 32-bit integer.
pub fn le_i32(i: &[u8]) -> (r: Result<(&[u8], i32), ParseError>)
    ensures
        result_view(r) == spec_le_i32(i@),
        within(r, i@),
{
    if i.len() < 4 {
        return Err(failed(ParseErrorKind::Truncated, i));
    }
    let u: i64 = (i[0] as i64) + 256 * (i[1] as i64) + 65536 * (i[2] as i64) + 16777216 * (
    i[3] as i64);
    let v: i32 = if u >= 2147483648 {
        (u - 4294967296) as i32
    } else {
        u as i32
    };
    Ok((slice_subrange(i, 4, i.len()), v))
}

/// The bytes before the first zero byte, and the bytes after that zero byte.
pub open spec fn spec_null_terminated_chunk(s: Seq<u8>) -> Parsed<Seq<u8>> {
    let n = first_nul(s);
    if n >= s.len() {
        Err(failed_at(ParseErrorKind::UnterminatedString, s))
    } else {
        Ok((s.take(n), s.skip(n + 1)))
    }
}

/// The index of the first zero byte, or the length where there is none.
fn find_nul(s: &[u8]) -> (n: usize)
    ensures
        n == first_nul(s@),
        n <= s@.len(),
{
    let mut n: usize = 0;
    while n < s.len() && s[n] != 0
        invariant
            n <= s@.len(),
            forall|j: int| 0 <= j < n ==> s@[j] != 0,
        decreases s@.len() - n,
    {
        n += 1;
    }
    proof {
        lemma_first_nul(s@, n as int);
    }
    n
}

/// Splits the input at its first zero byte, which belongs to neither part.
pub fn null_terminated_chunk(i: &[u8]) -> (r: Result<(&[u8], &[u8]), ParseError>)
    ensures
        result_view(r) == spec_null_terminated_chunk(i@),
        within(r, i@),
{
    let n = find_nul(i);
    if n >= i.len() {
        return Err(failed(ParseErrorKind::UnterminatedString, i));
    }
    Ok((slice_subrange(i, n + 1, i.len()), slice_subrange(i, 0, n)))
}

/// The string that the bytes hold: what stands before the first zero byte,
/// which must be ASCII.
pub open spec fn spec_get_ascii_str(s: Seq<u8>) -> Result<Seq<char>, ParseError> {
    let kept = s.take(first_nul(s));
    if is_ascii_bytes(kept) {
        Ok(ascii_chars(kept))
    } else {
        Err(failed_at(ParseErrorKind::NonAsciiEncoding, s))
    }
}

/// Whether every byte is below 128.
fn all_ascii(s: &[u8]) -> (b: bool)
    ensures
        b == is_ascii_bytes(s@),
{
    let mut k: usize = 0;
    while k < s.len()
        invariant
            k <= s@.len(),
            forall|j: int| 0 <= j < k ==> #[trigger] s@[j] < 128,
        decreases s@.len() - k,
    {
        if s[k] >= 128 {
            return false;
        }
        k += 1;
    }
    true
}

/// `core::str::from_utf8`: a string exactly for bytes that are well-formed
/// UTF-8, and then one whose encoding is those bytes.
#[verifier::external_body]
fn str_from_utf8(bytes: &[u8]) -> (r: Option<&str>)
    ensures
        r is Some <==> valid_utf8(bytes@),
        r matches Some(s) ==> encode_utf8(s@) == bytes@,
{
    core::str::from_utf8(bytes).ok()
}

/// Reads the bytes as a string, stopping at the first zero byte if there is
/// one. Fails where a byte before that point is not ASCII.
pub fn get_ascii_str(s: &[u8]) -> (r: Result<&str, ParseError>)
    ensures
        match r {
            Ok(v) => spec_get_ascii_str(s@) == Ok::<Seq<char>, ParseError>(v@),
            Err(e) => spec_get_ascii_str(s@) == Err::<Seq<char>, ParseError>(e),
        },
{
    let end = find_nul(s);
    let kept = slice_subrange(s, 0, end);
    if !all_ascii(kept) {
        return Err(failed(ParseErrorKind::NonAsciiEncoding, s));
    }
    proof {
        lemma_ascii_bytes_utf8(kept@);
    }
    match str_from_utf8(kept) {
        Some(v) => {
            proof {
                encode_utf8_decode_utf8(v@);
            }
            Ok(v)
        },
        None => Err(failed(ParseErrorKind::NonAsciiEncoding, s)),
    }
}

/// A string that ends at the first zero byte.
pub open spec fn spec_null_terminated_str(s: Seq<u8>) -> Parsed<Seq<char>> {
    match spec_null_terminated_chunk(s) {
        Err(e) => Err(e),
        Ok((chunk, rest)) => match spec_get_ascii_str(chunk) {
            Err(e) => Err(failed_at(e.kind, s)),
            Ok(v) => Ok((v, rest)),
        },
    }
}

/// Reads a string that ends at the first zero byte.
pub fn null_terminated_str(i: &[u8]) -> (r: Result<(&[u8], &str), ParseError>)
    ensures
        result_view(r) == spec_null_terminated_str(i@),
        within(r, i@),
{
    let (rest, chunk) = null_terminated_chunk(i)?;
    match get_ascii_str(chunk) {
        Ok(v) => Ok((rest, v)),
        Err(e) => Err(failed(e.kind, i)),
    }
}

/// A string in a field of `n` bytes; a zero byte in the field ends the string early.
pub open spec fn spec_fixed_length_str(s: Seq<u8>, n: nat) -> Parsed<Seq<char>> {
    match spec_take(s, n) {
        Err(e) => Err(e),
        Ok((field, rest)) => match spec_get_ascii_str(field) {
            Err(e) => Err(failed_at(e.kind, s)),
            Ok(v) => Ok((v, rest)),
        },
    }
}

/// Reads a string from a field of `n_bytes` bytes.
pub fn fixed_length_str(i: &[u8], n_bytes: usize) -> (r: Result<(&[u8], &str), ParseError>)
    ensures
        result_view(r) == spec_fixed_length_str(i@, n_bytes as nat),
        within(r, i@),
{
    let (rest, field) = take(i, n_bytes)?;
    match get_ascii_str(field) {
        Ok(v) => Ok((rest, v)),
        Err(e) => Err(failed(e.kind, i)),
    }
}

/// The name of a block at the head of its bytes: the name's bytes and a zero byte.
pub open spec fn spec_block_header(s: Seq<u8>, header: Seq<char>) -> Parsed<()> {
    let h = encode_utf8(header).push(0u8);
    if s.len() >= h.len() && s.take(h.len() as int) == h {
        Ok(((), s.skip(h.len() as int)))
    } else {
        Err(failed_at(ParseErrorKind::BadHeader, s))
    }
}

/// Whether `s` begins with `p`.
fn starts_with(s: &[u8], p: &[u8]) -> (b: bool)
    ensures
        b == (s@.len() >= p@.len() && s@.take(p@.len() as int) == p@),
{
    if s.len() < p.len() {
        return false;
    }
    let mut k: usize = 0;
    while k < p.len()
        invariant
            k <= p@.len() <= s@.len(),
            forall|j: int| 0 <= j < k ==> s@[j] == p@[j],
        decreases p@.len() - k,
    {
        if s[k] != p[k] {
            assert(s@.take(p@.len() as int)[k as int] != p@[k as int]);
            return false;
        }
        k += 1;
    }
    assert(s@.take(p@.len() as int) =~= p@);
    true
}

/// Reads the name of a block and the zero byte after it.
pub fn block_header<'a>(i: &'a [u8], header: &str) -> (r: Result<(&'a [u8], ()), ParseError>)
    ensures
        result_view(r) == spec_block_header(i@, header@),
        within(r, i@),
{
    let name = header.as_bytes();
    let ghost h = encode_utf8(header@).push(0u8);
    if !starts_with(i, name) || i.len() == name.len() || i[name.len()] != 0 {
        proof {
            if i@.len() >= h.len() && i@.take(h.len() as int) == h {
                assert(i@.take(name@.len() as int) =~= h.take(name@.len() as int));
                assert(h.take(name@.len() as int) =~= name@);
                assert(i@[name@.len() as int] == h[name@.len() as int]);
            }
        }
        return Err(failed(ParseErrorKind::BadHeader, i));
    }
    proof {
        assert(i@.take(h.len() as int) =~= h) by {
            assert forall|j: int| 0 <= j < h.len() implies i@.take(h.len() as int)[j] == h[j] by {
                if j < name@.len() {
                    assert(i@.take(name@.len() as int)[j] == name@[j]);
                }
            }
        }
    }
    Ok((slice_subrange(i, name.len() + 1, i.len()), ()))
}

/// `n` values in a row, each decoded by `f`.
pub open spec fn spec_count<T>(f: spec_fn(Seq<u8>) -> Parsed<T>, n: nat, s: Seq<u8>) -> Parsed<
    Seq<T>,
>
    decreases n,
{
    if n == 0 {
        Ok((Seq::empty(), s))
    } else {
        match f(s) {
            Err(e) => Err(e),
            Ok((x, rest)) => match spec_count(f, (n - 1) as nat, rest) {
                Err(e) => Err(e),
                Ok((xs, rest)) => Ok((seq![x] + xs, rest)),
            },
        }
    }
}

/// As many values in a row as a field of the file declares. A negative count is refused.
pub open spec fn spec_counted<T>(f: spec_fn(Seq<u8>) -> Parsed<T>, n: int, s: Seq<u8>) -> Parsed<
    Seq<T>,
> {
    if n < 0 {
        Err(failed_at(ParseErrorKind::CountUnderflow, s))
    } else {
        spec_count(f, n as nat, s)
    }
}

/// What was decoded so far, followed by what `r` holds.
pub open spec fn prepend<T>(acc: Seq<T>, r: Parsed<Seq<T>>) -> Parsed<Seq<T>> {
    match r {
        Err(e) => Err(e),
        Ok((xs, rest)) => Ok((acc + xs, rest)),
    }
}

/// Decoding `n` values is decoding one and then `n - 1`.
pub proof fn lemma_count_step<T>(
    f: spec_fn(Seq<u8>) -> Parsed<T>,
    n: nat,
    s: Seq<u8>,
    acc: Seq<T>,
)
    requires
        n > 0,
    ensures
        match f(s) {
            Err(e) => prepend(acc, spec_count(f, n, s)) == Err::<(Seq<T>, Seq<u8>), ParseError>(e),
            Ok((x, rest)) => prepend(acc, spec_count(f, n, s)) == prepend(
                acc.push(x),
                spec_count(f, (n - 1) as nat, rest),
            ),
        },
{
    match f(s) {
        Err(e) => {},
        Ok((x, rest)) => match spec_count(f, (n - 1) as nat, rest) {
            Err(e) => {},
            Ok((xs, rest)) => {
                assert(acc + (seq![x] + xs) =~= acc.push(x) + xs);
            },
        },
    }
}

/// With nothing left to decode, the result is what was decoded so far.
pub proof fn lemma_count_done<T>(f: spec_fn(Seq<u8>) -> Parsed<T>, s: Seq<u8>, acc: Seq<T>)
    ensures
        prepend(acc, spec_count(f, 0, s)) == Ok::<(Seq<T>, Seq<u8>), ParseError>((acc, s)),
        prepend(Seq::<T>::empty(), spec_count(f, 0, s)) == spec_count(f, 0, s),
{
    assert(acc + Seq::<T>::empty() =~= acc);
}

/// Putting nothing before a result leaves it as it is.
pub proof fn lemma_prepend_empty<T>(r: Parsed<Seq<T>>)
    ensures
        prepend(Seq::<T>::empty(), r) == r,
{
    match r {
        Err(e) => {},
        Ok((xs, rest)) => {
            assert(Seq::<T>::empty() + xs =~= xs);
        },
    }
}

/// The decoder of a signed 16-bit integer, as a value.
pub open spec fn le_i16_parser() -> spec_fn(Seq<u8>) -> Parsed<i16> {
    |s: Seq<u8>| spec_le_i16(s)
}

/// The decoder of a signed 32-bit integer, as a value.
pub open spec fn le_i32_parser() -> spec_fn(Seq<u8>) -> Parsed<i32> {
    |s: Seq<u8>| spec_le_i32(s)
}

/// The decoder of an unsigned 16-bit integer, as a value.
pub open spec fn le_u16_parser() -> spec_fn(Seq<u8>) -> Parsed<u16> {
    |s: Seq<u8>| spec_le_u16(s)
}

/// Reads `n` signed 16-bit integers.
fn count_le_i16(i: &[u8], n: i32) -> (r: Result<(&[u8], Vec<i16>), ParseError>)
    ensures
        result_view(r) == spec_counted(le_i16_parser(), n as int, i@),
        within(r, i@),
{
    if n < 0 {
        return Err(failed(ParseErrorKind::CountUnderflow, i));
    }
    let mut out: Vec<i16> = Vec::new();
    let mut rest = i;
    let mut k: i32 = 0;
    proof {
        lemma_prepend_empty(spec_count(le_i16_parser(), n as nat, i@));
    }
    while k < n
        invariant
            0 <= k <= n,
            rest@.len() <= i@.len(),
            spec_count(le_i16_parser(), n as nat, i@) == prepend(
                out@,
                spec_count(le_i16_parser(), (n - k) as nat, rest@),
            ),
        decreases n - k,
    {
        proof {
            lemma_count_step(le_i16_parser(), (n - k) as nat, rest@, out@);
        }
        let (r, v) = le_i16(rest)?;
        out.push(v);
        rest = r;
        k += 1;
    }
    proof {
        lemma_count_done(le_i16_parser(), rest@, out@);
    }
    Ok((rest, out))
}

/// Reads `n` signed 32-bit integers.
fn count_le_i32(i: &[u8], n: i32) -> (r: Result<(&[u8], Vec<i32>), ParseError>)
    ensures
        result_view(r) == spec_counted(le_i32_parser(), n as int, i@),
        within(r, i@),
{
    if n < 0 {
        return Err(failed(ParseErrorKind::CountUnderflow, i));
    }
    let mut out: Vec<i32> = Vec::new();
    let mut rest = i;
    let mut k: i32 = 0;
    proof {
        lemma_prepend_empty(spec_count(le_i32_parser(), n as nat, i@));
    }
    while k < n
        invariant
            0 <= k <= n,
            rest@.len() <= i@.len(),
            spec_count(le_i32_parser(), n as nat, i@) == prepend(
                out@,
                spec_count(le_i32_parser(), (n - k) as nat, rest@),
            ),
        decreases n - k,
    {
        proof {
            lemma_count_step(le_i32_parser(), (n - k) as nat, rest@, out@);
        }
        let (r, v) = le_i32(rest)?;
        out.push(v);
        rest = r;
        k += 1;
    }
    proof {
        lemma_count_done(le_i32_parser(), rest@, out@);
    }
    Ok((rest, out))
}

/// Reads `n` unsigned 16-bit integers.
fn count_le_u16(i: &[u8], n: i32) -> (r: Result<(&[u8], Vec<u16>), ParseError>)
    ensures
        result_view(r) == spec_counted(le_u16_parser(), n as int, i@),
        within(r, i@),
{
    if n < 0 {
        return Err(failed(ParseErrorKind::CountUnderflow, i));
    }
    let mut out: Vec<u16> = Vec::new();
    let mut rest = i;
    let mut k: i32 = 0;
    proof {
        lemma_prepend_empty(spec_count(le_u16_parser(), n as nat, i@));
    }
    while k < n
        invariant
            0 <= k <= n,
            rest@.len() <= i@.len(),
            spec_count(le_u16_parser(), n as nat, i@) == prepend(
                out@,
                spec_count(le_u16_parser(), (n - k) as nat, rest@),
            ),
        decreases n - k,
    {
        proof {
            lemma_count_step(le_u16_parser(), (n - k) as nat, rest@, out@);
        }
        let (r, v) = le_u16(rest)?;
        out.push(v);
        rest = r;
        k += 1;
    }
    proof {
        lemma_count_done(le_u16_parser(), rest@, out@);
    }
    Ok((rest, out))
}

/// One entry of the map: name, revision, size.
#[verifier::opaque]
pub open spec fn spec_map_block_info(s: Seq<u8>) -> Parsed<BlockInfoView> {
    match spec_null_terminated_str(s) { Err(e) => Err(e), Ok((identifier, s)) =>
    match spec_le_u16(s) { Err(e) => Err(e), Ok((revision_number, s)) =>
    match spec_le_i32(s) { Err(e) => Err(e), Ok((size, s)) =>
    Ok((BlockInfoView {
        identifier, revision_number, size,
    }, s))
    }}}
}

/// Reads one entry of the map.
pub fn map_block_info(i: &[u8]) -> (r: Result<(&[u8], BlockInfo), ParseError>)
    ensures
        result_view(r) == spec_map_block_info(i@),
        within(r, i@),
{
    proof {
        reveal(spec_map_block_info);
    }
    let (i, identifier) = null_terminated_str(i)?;
    let (i, revision_number) = le_u16(i)?;
    let (i, size) = le_i32(i)?;
    Ok((i, BlockInfo {
        identifier: identifier.to_owned(),
        revision_number,
        size,
    }))
}

/// The general parameters block.
#[verifier::opaque]
pub open spec fn spec_general_parameters_block(s: Seq<u8>) -> Parsed<GeneralParametersBlockView> {
    match spec_block_header(s, BLOCK_ID_GENPARAMS@) { Err(e) => Err(e), Ok((_, s)) =>
    match spec_fixed_length_str(s, 2) { Err(e) => Err(e), Ok((language_code, s)) =>
    match spec_null_terminated_str(s) { Err(e) => Err(e), Ok((cable_id, s)) =>
    match spec_null_terminated_str(s) { Err(e) => Err(e), Ok((fiber_id, s)) =>
    match spec_le_i16(s) { Err(e) => Err(e), Ok((fiber_type, s)) =>
    match spec_le_i16(s) { Err(e) => Err(e), Ok((nominal_wavelength, s)) =>
    match spec_null_terminated_str(s) { Err(e) => Err(e), Ok((originating_location, s)) =>
    match spec_null_terminated_str(s) { Err(e) => Err(e), Ok((terminating_location, s)) =>
    match spec_null_terminated_str(s) { Err(e) => Err(e), Ok((cable_code, s)) =>
    match spec_fixed_length_str(s, 2) { Err(e) => Err(e), Ok((current_data_flag, s)) =>
    match spec_le_i32(s) { Err(e) => Err(e), Ok((user_offset, s)) =>
    match spec_le_i32(s) { Err(e) => Err(e), Ok((user_offset_distance, s)) =>
    match spec_null_terminated_str(s) { Err(e) => Err(e), Ok((operator, s)) =>
    match spec_null_terminated_str(s) { Err(e) => Err(e), Ok((comment, s)) =>
    Ok((GeneralParametersBlockView {
        language_code, cable_id, fiber_id, fiber_type, nominal_wavelength, originating_location,
        terminating_location, cable_code, current_data_flag, user_offset, user_offset_distance,
        operator, comment,
    }, s))
    }}}}}}}}}}}}}}
}

/// Reads the general parameters block.
pub fn general_parameters_block(i: &[u8]) -> (r: Result<(&[u8], GeneralParametersBlock), ParseError>)
    ensures
        result_view(r) == spec_general_parameters_block(i@),
        within(r, i@),
{
    proof {
        reveal(spec_general_parameters_block);
    }
    let (i, _) = block_header(i, BLOCK_ID_GENPARAMS)?;
    let (i, language_code) = fixed_length_str(i, 2)?;
    let (i, cable_id) = null_terminated_str(i)?;
    let (i, fiber_id) = null_terminated_str(i)?;
    let (i, fiber_type) = le_i16(i)?;
    let (i, nominal_wavelength) = le_i16(i)?;
    let (i, originating_location) = null_terminated_str(i)?;
    let (i, terminating_location) = null_terminated_str(i)?;
    let (i, cable_code) = null_terminated_str(i)?;
    let (i, current_data_flag) = fixed_length_str(i, 2)?;
    let (i, user_offset) = le_i32(i)?;
    let (i, user_offset_distance) = le_i32(i)?;
    let (i, operator) = null_terminated_str(i)?;
    let (i, comment) = null_terminated_str(i)?;
    Ok((i, GeneralParametersBlock {
        language_code: language_code.to_owned(),
        cable_id: cable_id.to_owned(),
        fiber_id: fiber_id.to_owned(),
        fiber_type,
        nominal_wavelength,
        originating_location: originating_location.to_owned(),
        terminating_location: terminating_location.to_owned(),
        cable_code: cable_code.to_owned(),
        current_data_flag: current_data_flag.to_owned(),
        user_offset,
        user_offset_distance,
        operator: operator.to_owned(),
        comment: comment.to_owned(),
    }))
}

/// The supplier parameters block.
#[verifier::opaque]
pub open spec fn spec_supplier_parameters_block(s: Seq<u8>) -> Parsed<SupplierParametersBlockView> {
    match spec_block_header(s, BLOCK_ID_SUPPARAMS@) { Err(e) => Err(e), Ok((_, s)) =>
    match spec_null_terminated_str(s) { Err(e) => Err(e), Ok((supplier_name, s)) =>
    match spec_null_terminated_str(s) { Err(e) => Err(e), Ok((otdr_mainframe_id, s)) =>
    match spec_null_terminated_str(s) { Err(e) => Err(e), Ok((otdr_mainframe_sn, s)) =>
    match spec_null_terminated_str(s) { Err(e) => Err(e), Ok((optical_module_id, s)) =>
    match spec_null_terminated_str(s) { Err(e) => Err(e), Ok((optical_module_sn, s)) =>
    match spec_null_terminated_str(s) { Err(e) => Err(e), Ok((software_revision, s)) =>
    match spec_null_terminated_str(s) { Err(e) => Err(e), Ok((other, s)) =>
    Ok((SupplierParametersBlockView {
        supplier_name, otdr_mainframe_id, otdr_mainframe_sn, optical_module_id,
        optical_module_sn, software_revision, other,
    }, s))
    }}}}}}}}
}

/// Reads the supplier parameters block.
pub fn supplier_parameters_block(i: &[u8]) -> (r: Result<(&[u8], SupplierParametersBlock), ParseError>)
    ensures
        result_view(r) == spec_supplier_parameters_block(i@),
        within(r, i@),
{
    proof {
        reveal(spec_supplier_parameters_block);
    }
    let (i, _) = block_header(i, BLOCK_ID_SUPPARAMS)?;
    let (i, supplier_name) = null_terminated_str(i)?;
    let (i, otdr_mainframe_id) = null_terminated_str(i)?;
    let (i, otdr_mainframe_sn) = null_terminated_str(i)?;
    let (i, optical_module_id) = null_terminated_str(i)?;
    let (i, optical_module_sn) = null_terminated_str(i)?;
    let (i, software_revision) = null_terminated_str(i)?;
    let (i, other) = null_terminated_str(i)?;
    Ok((i, SupplierParametersBlock {
        supplier_name: supplier_name.to_owned(),
        otdr_mainframe_id: otdr_mainframe_id.to_owned(),
        otdr_mainframe_sn: otdr_mainframe_sn.to_owned(),
        optical_module_id: optical_module_id.to_owned(),
        optical_module_sn: optical_module_sn.to_owned(),
        software_revision: software_revision.to_owned(),
        other: other.to_owned(),
    }))
}

/// The fixed parameters block. The three lists have as many entries as the field before them
/// declares.
#[verifier::opaque]
pub open spec fn spec_fixed_parameters_block(s: Seq<u8>) -> Parsed<FixedParametersBlockView> {
    match spec_block_header(s, BLOCK_ID_FXDPARAMS@) { Err(e) => Err(e), Ok((_, s)) =>
    match spec_le_u32(s) { Err(e) => Err(e), Ok((date_time_stamp, s)) =>
    match spec_fixed_length_str(s, 2) { Err(e) => Err(e), Ok((units_of_distance, s)) =>
    match spec_le_i16(s) { Err(e) => Err(e), Ok((actual_wavelength, s)) =>
    match spec_le_i32(s) { Err(e) => Err(e), Ok((acquisition_offset, s)) =>
    match spec_le_i32(s) { Err(e) => Err(e), Ok((acquisition_offset_distance, s)) =>
    match spec_le_i16(s) { Err(e) => Err(e), Ok((total_n_pulse_widths_used, s)) =>
    match spec_counted(le_i16_parser(), total_n_pulse_widths_used as int, s) { Err(e) => Err(e), Ok((pulse_widths_used, s)) =>
    match spec_counted(le_i32_parser(), total_n_pulse_widths_used as int, s) { Err(e) => Err(e), Ok((data_spacing, s)) =>
    match spec_counted(le_i32_parser(), total_n_pulse_widths_used as int, s) { Err(e) => Err(e), Ok((n_data_points_for_pulse_widths_used, s)) =>
    match spec_le_i32(s) { Err(e) => Err(e), Ok((group_index, s)) =>
    match spec_le_i16(s) { Err(e) => Err(e), Ok((backscatter_coefficient, s)) =>
    match spec_le_i32(s) { Err(e) => Err(e), Ok((number_of_averages, s)) =>
    match spec_le_u16(s) { Err(e) => Err(e), Ok((averaging_time, s)) =>
    match spec_le_i32(s) { Err(e) => Err(e), Ok((acquisition_range, s)) =>
    match spec_le_i32(s) { Err(e) => Err(e), Ok((acquisition_range_distance, s)) =>
    match spec_le_i32(s) { Err(e) => Err(e), Ok((front_panel_offset, s)) =>
    match spec_le_u16(s) { Err(e) => Err(e), Ok((noise_floor_level, s)) =>
    match spec_le_i16(s) { Err(e) => Err(e), Ok((noise_floor_scale_factor, s)) =>
    match spec_le_u16(s) { Err(e) => Err(e), Ok((power_offset_first_point, s)) =>
    match spec_le_u16(s) { Err(e) => Err(e), Ok((loss_threshold, s)) =>
    match spec_le_u16(s) { Err(e) => Err(e), Ok((reflectance_threshold, s)) =>
    match spec_le_u16(s) { Err(e) => Err(e), Ok((end_of_fibre_threshold, s)) =>
    match spec_fixed_length_str(s, 2) { Err(e) => Err(e), Ok((trace_type, s)) =>
    match spec_le_i32(s) { Err(e) => Err(e), Ok((window_coordinate_1, s)) =>
    match spec_le_i32(s) { Err(e) => Err(e), Ok((window_coordinate_2, s)) =>
    match spec_le_i32(s) { Err(e) => Err(e), Ok((window_coordinate_3, s)) =>
    match spec_le_i32(s) { Err(e) => Err(e), Ok((window_coordinate_4, s)) =>
    Ok((FixedParametersBlockView {
        date_time_stamp, units_of_distance, actual_wavelength, acquisition_offset,
        acquisition_offset_distance, total_n_pulse_widths_used, pulse_widths_used, data_spacing,
        n_data_points_for_pulse_widths_used, group_index, backscatter_coefficient,
        number_of_averages, averaging_time, acquisition_range, acquisition_range_distance,
        front_panel_offset, noise_floor_level, noise_floor_scale_factor,
        power_offset_first_point, loss_threshold, reflectance_threshold, end_of_fibre_threshold,
        trace_type, window_coordinate_1, window_coordinate_2, window_coordinate_3,
        window_coordinate_4,
    }, s))
    }}}}}}}}}}}}}}}}}}}}}}}}}}}}
}

/// Reads the fixed parameters block.
pub fn fixed_parameters_block(i: &[u8]) -> (r: Result<(&[u8], FixedParametersBlock), ParseError>)
    ensures
        result_view(r) == spec_fixed_parameters_block(i@),
        within(r, i@),
{
    proof {
        reveal(spec_fixed_parameters_block);
    }
    let (i, _) = block_header(i, BLOCK_ID_FXDPARAMS)?;
    let (i, date_time_stamp) = le_u32(i)?;
    let (i, units_of_distance) = fixed_length_str(i, 2)?;
    let (i, actual_wavelength) = le_i16(i)?;
    let (i, acquisition_offset) = le_i32(i)?;
    let (i, acquisition_offset_distance) = le_i32(i)?;
    let (i, total_n_pulse_widths_used) = le_i16(i)?;
    let (i, pulse_widths_used) = count_le_i16(i, total_n_pulse_widths_used as i32)?;
    let (i, data_spacing) = count_le_i32(i, total_n_pulse_widths_used as i32)?;
    let (i, n_data_points_for_pulse_widths_used) = count_le_i32(i, total_n_pulse_widths_used as i32)?;
    let (i, group_index) = le_i32(i)?;
    let (i, backscatter_coefficient) = le_i16(i)?;
    let (i, number_of_averages) = le_i32(i)?;
    let (i, averaging_time) = le_u16(i)?;
    let (i, acquisition_range) = le_i32(i)?;
    let (i, acquisition_range_distance) = le_i32(i)?;
    let (i, front_panel_offset) = le_i32(i)?;
    let (i, noise_floor_level) = le_u16(i)?;
    let (i, noise_floor_scale_factor) = le_i16(i)?;
    let (i, power_offset_first_point) = le_u16(i)?;
    let (i, loss_threshold) = le_u16(i)?;
    let (i, reflectance_threshold) = le_u16(i)?;
    let (i, end_of_fibre_threshold) = le_u16(i)?;
    let (i, trace_type) = fixed_length_str(i, 2)?;
    let (i, window_coordinate_1) = le_i32(i)?;
    let (i, window_coordinate_2) = le_i32(i)?;
    let (i, window_coordinate_3) = le_i32(i)?;
    let (i, window_coordinate_4) = le_i32(i)?;
    Ok((i, FixedParametersBlock {
        date_time_stamp,
        units_of_distance: units_of_distance.to_owned(),
        actual_wavelength,
        acquisition_offset,
        acquisition_offset_distance,
        total_n_pulse_widths_used,
        pulse_widths_used,
        data_spacing,
        n_data_points_for_pulse_widths_used,
        group_index,
        backscatter_coefficient,
        number_of_averages,
        averaging_time,
        acquisition_range,
        acquisition_range_distance,
        front_panel_offset,
        noise_floor_level,
        noise_floor_scale_factor,
        power_offset_first_point,
        loss_threshold,
        reflectance_threshold,
        end_of_fibre_threshold,
        trace_type: trace_type.to_owned(),
        window_coordinate_1,
        window_coordinate_2,
        window_coordinate_3,
        window_coordinate_4,
    }))
}

/// A key event other than the last.
#[verifier::opaque]
pub open spec fn spec_key_event(s: Seq<u8>) -> Parsed<KeyEventView> {
    match spec_le_i16(s) { Err(e) => Err(e), Ok((event_number, s)) =>
    match spec_le_i32(s) { Err(e) => Err(e), Ok((event_propogation_time, s)) =>
    match spec_le_i16(s) { Err(e) => Err(e), Ok((attenuation_coefficient_lead_in_fiber, s)) =>
    match spec_le_i16(s) { Err(e) => Err(e), Ok((event_loss, s)) =>
    match spec_le_i32(s) { Err(e) => Err(e), Ok((event_reflectance, s)) =>
    match spec_fixed_length_str(s, 6) { Err(e) => Err(e), Ok((event_code, s)) =>
    match spec_fixed_length_str(s, 2) { Err(e) => Err(e), Ok((loss_measurement_technique, s)) =>
    match spec_le_i32(s) { Err(e) => Err(e), Ok((marker_location_1, s)) =>
    match spec_le_i32(s) { Err(e) => Err(e), Ok((marker_location_2, s)) =>
    match spec_le_i32(s) { Err(e) => Err(e), Ok((marker_location_3, s)) =>
    match spec_le_i32(s) { Err(e) => Err(e), Ok((marker_location_4, s)) =>
    match spec_le_i32(s) { Err(e) => Err(e), Ok((marker_location_5, s)) =>
    match spec_null_terminated_str(s) { Err(e) => Err(e), Ok((comment, s)) =>
    Ok((KeyEventView {
        event_number, event_propogation_time, attenuation_coefficient_lead_in_fiber, event_loss,
        event_reflectance, event_code, loss_measurement_technique, marker_location_1,
        marker_location_2, marker_location_3, marker_location_4, marker_location_5, comment,
    }, s))
    }}}}}}}}}}}}}
}

/// Reads the fields that every key event has.
fn parse_key_event_common(i: &[u8]) -> (r: Result<(&[u8], KeyEvent), ParseError>)
    ensures
        result_view(r) == spec_key_event(i@),
        within(r, i@),
{
    proof {
        reveal(spec_key_event);
    }
    let (i, event_number) = le_i16(i)?;
    let (i, event_propogation_time) = le_i32(i)?;
    let (i, attenuation_coefficient_lead_in_fiber) = le_i16(i)?;
    let (i, event_loss) = le_i16(i)?;
    let (i, event_reflectance) = le_i32(i)?;
    let (i, event_code) = fixed_length_str(i, 6)?;
    let (i, loss_measurement_technique) = fixed_length_str(i, 2)?;
    let (i, marker_location_1) = le_i32(i)?;
    let (i, marker_location_2) = le_i32(i)?;
    let (i, marker_location_3) = le_i32(i)?;
    let (i, marker_location_4) = le_i32(i)?;
    let (i, marker_location_5) = le_i32(i)?;
    let (i, comment) = null_terminated_str(i)?;
    Ok((i, KeyEvent {
        event_number,
        event_propogation_time,
        attenuation_coefficient_lead_in_fiber,
        event_loss,
        event_reflectance,
        event_code: event_code.to_owned(),
        loss_measurement_technique: loss_measurement_technique.to_owned(),
        marker_location_1,
        marker_location_2,
        marker_location_3,
        marker_location_4,
        marker_location_5,
        comment: comment.to_owned(),
    }))
}

/// Reads a key event other than the last, which differs in layout.
pub fn key_event(i: &[u8]) -> (r: Result<(&[u8], KeyEvent), ParseError>)
    ensures
        result_view(r) == spec_key_event(i@),
        within(r, i@),
{
    parse_key_event_common(i)
}

/// A landmark. No sample of this layout was at hand, so it is an untested reading of the standard.
#[verifier::opaque]
pub open spec fn spec_landmark(s: Seq<u8>) -> Parsed<LandmarkView> {
    match spec_block_header(s, BLOCK_ID_LNKPARAMS@) { Err(e) => Err(e), Ok((_, s)) =>
    match spec_le_i16(s) { Err(e) => Err(e), Ok((landmark_number, s)) =>
    match spec_fixed_length_str(s, 2) { Err(e) => Err(e), Ok((landmark_code, s)) =>
    match spec_le_i32(s) { Err(e) => Err(e), Ok((landmark_location, s)) =>
    match spec_le_i16(s) { Err(e) => Err(e), Ok((related_event_number, s)) =>
    match spec_le_i32(s) { Err(e) => Err(e), Ok((gps_longitude, s)) =>
    match spec_le_i32(s) { Err(e) => Err(e), Ok((gps_latitude, s)) =>
    match spec_le_i16(s) { Err(e) => Err(e), Ok((fiber_correction_factor_lead_in_fiber, s)) =>
    match spec_le_i32(s) { Err(e) => Err(e), Ok((sheath_marker_entering_landmark, s)) =>
    match spec_le_i32(s) { Err(e) => Err(e), Ok((sheath_marker_leaving_landmark, s)) =>
    match spec_fixed_length_str(s, 2) { Err(e) => Err(e), Ok((units_of_sheath_marks_leaving_landmark, s)) =>
    match spec_le_i16(s) { Err(e) => Err(e), Ok((mode_field_diameter_leaving_landmark, s)) =>
    match spec_null_terminated_str(s) { Err(e) => Err(e), Ok((comment, s)) =>
    Ok((LandmarkView {
        landmark_number, landmark_code, landmark_location, related_event_number, gps_longitude,
        gps_latitude, fiber_correction_factor_lead_in_fiber, sheath_marker_entering_landmark,
        sheath_marker_leaving_landmark, units_of_sheath_marks_leaving_landmark,
        mode_field_diameter_leaving_landmark, comment,
    }, s))
    }}}}}}}}}}}}}
}

/// Reads a landmark.
pub fn landmark(i: &[u8]) -> (r: Result<(&[u8], Landmark), ParseError>)
    ensures
        result_view(r) == spec_landmark(i@),
        within(r, i@),
{
    proof {
        reveal(spec_landmark);
    }
    let (i, _) = block_header(i, BLOCK_ID_LNKPARAMS)?;
    let (i, landmark_number) = le_i16(i)?;
    let (i, landmark_code) = fixed_length_str(i, 2)?;
    let (i, landmark_location) = le_i32(i)?;
    let (i, related_event_number) = le_i16(i)?;
    let (i, gps_longitude) = le_i32(i)?;
    let (i, gps_latitude) = le_i32(i)?;
    let (i, fiber_correction_factor_lead_in_fiber) = le_i16(i)?;
    let (i, sheath_marker_entering_landmark) = le_i32(i)?;
    let (i, sheath_marker_leaving_landmark) = le_i32(i)?;
    let (i, units_of_sheath_marks_leaving_landmark) = fixed_length_str(i, 2)?;
    let (i, mode_field_diameter_leaving_landmark) = le_i16(i)?;
    let (i, comment) = null_terminated_str(i)?;
    Ok((i, Landmark {
        landmark_number,
        landmark_code: landmark_code.to_owned(),
        landmark_location,
        related_event_number,
        gps_longitude,
        gps_latitude,
        fiber_correction_factor_lead_in_fiber,
        sheath_marker_entering_landmark,
        sheath_marker_leaving_landmark,
        units_of_sheath_marks_leaving_landmark: units_of_sheath_marks_leaving_landmark.to_owned(),
        mode_field_diameter_leaving_landmark,
        comment: comment.to_owned(),
    }))
}

/// The samples of one scale factor: their number, the factor, and that many samples.
#[verifier::opaque]
pub open spec fn spec_data_points_at_scale_factor(s: Seq<u8>) -> Parsed<DataPointsAtScaleFactorView> {
    match spec_le_i32(s) { Err(e) => Err(e), Ok((n_points, s)) =>
    match spec_le_i16(s) { Err(e) => Err(e), Ok((scale_factor, s)) =>
    match spec_counted(le_u16_parser(), n_points as int, s) { Err(e) => Err(e), Ok((data, s)) =>
    Ok((DataPointsAtScaleFactorView {
        n_points, scale_factor, data,
    }, s))
    }}}
}

/// Reads the samples of one scale factor.
pub fn data_points_at_scale_factor(i: &[u8]) -> (r: Result<(&[u8], DataPointsAtScaleFactor), ParseError>)
    ensures
        result_view(r) == spec_data_points_at_scale_factor(i@),
        within(r, i@),
{
    proof {
        reveal(spec_data_points_at_scale_factor);
    }
    let (i, n_points) = le_i32(i)?;
    let (i, scale_factor) = le_i16(i)?;
    let (i, data) = count_le_u16(i, n_points)?;
    Ok((i, DataPointsAtScaleFactor {
        n_points,
        scale_factor,
        data,
    }))
}

/// The checksum block.
#[verifier::opaque]
pub open spec fn spec_checksum_block(s: Seq<u8>) -> Parsed<ChecksumBlockView> {
    match spec_block_header(s, BLOCK_ID_CHECKSUM@) { Err(e) => Err(e), Ok((_, s)) =>
    match spec_le_i16(s) { Err(e) => Err(e), Ok((checksum, s)) =>
    Ok((ChecksumBlockView {
        checksum,
    }, s))
    }}
}

/// Reads the checksum block.
pub fn checksum_block(i: &[u8]) -> (r: Result<(&[u8], ChecksumBlock), ParseError>)
    ensures
        result_view(r) == spec_checksum_block(i@),
        within(r, i@),
{
    proof {
        reveal(spec_checksum_block);
    }
    let (i, _) = block_header(i, BLOCK_ID_CHECKSUM)?;
    let (i, checksum) = le_i16(i)?;
    Ok((i, ChecksumBlock {
        checksum,
    }))
}
/// An executable decoder's result as a [`Parsed`], for a value that holds
/// records: each record by its view.
pub open spec fn result_deep_view<T: DeepView>(r: Result<(&[u8], T), ParseError>) -> Parsed<
    T::V,
> {
    match r {
        Ok((rest, v)) => Ok((v.deep_view(), rest@)),
        Err(e) => Err(e),
    }
}

/// The decoder of [`spec_key_event`], as a value.
pub open spec fn key_event_parser() -> spec_fn(Seq<u8>) -> Parsed<KeyEventView> {
    |s: Seq<u8>| spec_key_event(s)
}

/// Reads `n` key events other than the last.
fn count_key_events(i: &[u8], n: i32) -> (r: Result<(&[u8], Vec<KeyEvent>), ParseError>)
    ensures
        result_deep_view(r) == spec_counted(key_event_parser(), n as int, i@),
        within(r, i@),
{
    if n < 0 {
        return Err(failed(ParseErrorKind::CountUnderflow, i));
    }
    let mut out: Vec<KeyEvent> = Vec::new();
    let mut rest = i;
    let mut k: i32 = 0;
    proof {
        lemma_prepend_empty(spec_count(key_event_parser(), n as nat, i@));
        assert(out.deep_view() =~= Seq::<KeyEventView>::empty());
    }
    while k < n
        invariant
            0 <= k <= n,
            rest@.len() <= i@.len(),
            spec_count(key_event_parser(), n as nat, i@) == prepend(
                out.deep_view(),
                spec_count(key_event_parser(), (n - k) as nat, rest@),
            ),
        decreases n - k,
    {
        proof {
            lemma_count_step(key_event_parser(), (n - k) as nat, rest@, out.deep_view());
        }
        let ghost before = out.deep_view();
        let (r, v) = key_event(rest)?;
        out.push(v);
        rest = r;
        k += 1;
        assert(out.deep_view() =~= before.push(v@));
    }
    proof {
        lemma_count_done(key_event_parser(), rest@, out.deep_view());
    }
    Ok((rest, out))
}

/// The decoder of [`spec_map_block_info`], as a value.
pub open spec fn map_block_info_parser() -> spec_fn(Seq<u8>) -> Parsed<BlockInfoView> {
    |s: Seq<u8>| spec_map_block_info(s)
}

/// Reads `n` entries of the map.
fn count_block_infos(i: &[u8], n: i32) -> (r: Result<(&[u8], Vec<BlockInfo>), ParseError>)
    ensures
        result_deep_view(r) == spec_counted(map_block_info_parser(), n as int, i@),
        within(r, i@),
{
    if n < 0 {
        return Err(failed(ParseErrorKind::CountUnderflow, i));
    }
    let mut out: Vec<BlockInfo> = Vec::new();
    let mut rest = i;
    let mut k: i32 = 0;
    proof {
        lemma_prepend_empty(spec_count(map_block_info_parser(), n as nat, i@));
        assert(out.deep_view() =~= Seq::<BlockInfoView>::empty());
    }
    while k < n
        invariant
            0 <= k <= n,
            rest@.len() <= i@.len(),
            spec_count(map_block_info_parser(), n as nat, i@) == prepend(
                out.deep_view(),
                spec_count(map_block_info_parser(), (n - k) as nat, rest@),
            ),
        decreases n - k,
    {
        proof {
            lemma_count_step(map_block_info_parser(), (n - k) as nat, rest@, out.deep_view());
        }
        let ghost before = out.deep_view();
        let (r, v) = map_block_info(rest)?;
        out.push(v);
        rest = r;
        k += 1;
        assert(out.deep_view() =~= before.push(v@));
    }
    proof {
        lemma_count_done(map_block_info_parser(), rest@, out.deep_view());
    }
    Ok((rest, out))
}

/// The decoder of [`spec_landmark`], as a value.
pub open spec fn landmark_parser() -> spec_fn(Seq<u8>) -> Parsed<LandmarkView> {
    |s: Seq<u8>| spec_landmark(s)
}

/// Reads `n` landmarks.
fn count_landmarks(i: &[u8], n: i32) -> (r: Result<(&[u8], Vec<Landmark>), ParseError>)
    ensures
        result_deep_view(r) == spec_counted(landmark_parser(), n as int, i@),
        within(r, i@),
{
    if n < 0 {
        return Err(failed(ParseErrorKind::CountUnderflow, i));
    }
    let mut out: Vec<Landmark> = Vec::new();
    let mut rest = i;
    let mut k: i32 = 0;
    proof {
        lemma_prepend_empty(spec_count(landmark_parser(), n as nat, i@));
        assert(out.deep_view() =~= Seq::<LandmarkView>::empty());
    }
    while k < n
        invariant
            0 <= k <= n,
            rest@.len() <= i@.len(),
            spec_count(landmark_parser(), n as nat, i@) == prepend(
                out.deep_view(),
                spec_count(landmark_parser(), (n - k) as nat, rest@),
            ),
        decreases n - k,
    {
        proof {
            lemma_count_step(landmark_parser(), (n - k) as nat, rest@, out.deep_view());
        }
        let ghost before = out.deep_view();
        let (r, v) = landmark(rest)?;
        out.push(v);
        rest = r;
        k += 1;
        assert(out.deep_view() =~= before.push(v@));
    }
    proof {
        lemma_count_done(landmark_parser(), rest@, out.deep_view());
    }
    Ok((rest, out))
}

/// The decoder of [`spec_data_points_at_scale_factor`], as a value.
pub open spec fn data_points_at_scale_factor_parser() -> spec_fn(Seq<u8>) -> Parsed<DataPointsAtScaleFactorView> {
    |s: Seq<u8>| spec_data_points_at_scale_factor(s)
}

/// Reads `n` groups of samples.
fn count_scale_factors(i: &[u8], n: i32) -> (r: Result<(&[u8], Vec<DataPointsAtScaleFactor>), ParseError>)
    ensures
        result_deep_view(r) == spec_counted(data_points_at_scale_factor_parser(), n as int, i@),
        within(r, i@),
{
    if n < 0 {
        return Err(failed(ParseErrorKind::CountUnderflow, i));
    }
    let mut out: Vec<DataPointsAtScaleFactor> = Vec::new();
    let mut rest = i;
    let mut k: i32 = 0;
    proof {
        lemma_prepend_empty(spec_count(data_points_at_scale_factor_parser(), n as nat, i@));
        assert(out.deep_view() =~= Seq::<DataPointsAtScaleFactorView>::empty());
    }
    while k < n
        invariant
            0 <= k <= n,
            rest@.len() <= i@.len(),
            spec_count(data_points_at_scale_factor_parser(), n as nat, i@) == prepend(
                out.deep_view(),
                spec_count(data_points_at_scale_factor_parser(), (n - k) as nat, rest@),
            ),
        decreases n - k,
    {
        proof {
            lemma_count_step(data_points_at_scale_factor_parser(), (n - k) as nat, rest@, out.deep_view());
        }
        let ghost before = out.deep_view();
        let (r, v) = data_points_at_scale_factor(rest)?;
        out.push(v);
        rest = r;
        k += 1;
        assert(out.deep_view() =~= before.push(v@));
    }
    proof {
        lemma_count_done(data_points_at_scale_factor_parser(), rest@, out.deep_view());
    }
    Ok((rest, out))
}
/// The last key event: the fields of any key event, then the figures for the whole fibre.
#[verifier::opaque]
pub open spec fn spec_last_key_event(s: Seq<u8>) -> Parsed<LastKeyEventView> {
    match spec_key_event(s) { Err(e) => Err(e), Ok((common, s)) =>
    match spec_le_i32(s) { Err(e) => Err(e), Ok((end_to_end_loss, s)) =>
    match spec_le_i32(s) { Err(e) => Err(e), Ok((end_to_end_marker_position_1, s)) =>
    match spec_le_i32(s) { Err(e) => Err(e), Ok((end_to_end_marker_position_2, s)) =>
    match spec_le_u16(s) { Err(e) => Err(e), Ok((optical_return_loss, s)) =>
    match spec_le_i32(s) { Err(e) => Err(e), Ok((optical_return_loss_marker_position_1, s)) =>
    match spec_le_i32(s) { Err(e) => Err(e), Ok((optical_return_loss_marker_position_2, s)) =>
    Ok((LastKeyEventView {
        event_number: common.event_number,
        event_propogation_time: common.event_propogation_time,
        attenuation_coefficient_lead_in_fiber: common.attenuation_coefficient_lead_in_fiber,
        event_loss: common.event_loss,
        event_reflectance: common.event_reflectance,
        event_code: common.event_code,
        loss_measurement_technique: common.loss_measurement_technique,
        marker_location_1: common.marker_location_1,
        marker_location_2: common.marker_location_2,
        marker_location_3: common.marker_location_3,
        marker_location_4: common.marker_location_4,
        marker_location_5: common.marker_location_5,
        comment: common.comment,
        end_to_end_loss, end_to_end_marker_position_1, end_to_end_marker_position_2,
        optical_return_loss, optical_return_loss_marker_position_1,
        optical_return_loss_marker_position_2,
    }, s))
    }}}}}}}
}

/// Reads the last key event.
pub fn last_key_event(i: &[u8]) -> (r: Result<(&[u8], LastKeyEvent), ParseError>)
    ensures
        result_view(r) == spec_last_key_event(i@),
        within(r, i@),
{
    proof {
        reveal(spec_last_key_event);
    }
    let (i, common) = parse_key_event_common(i)?;
    let (i, end_to_end_loss) = le_i32(i)?;
    let (i, end_to_end_marker_position_1) = le_i32(i)?;
    let (i, end_to_end_marker_position_2) = le_i32(i)?;
    let (i, optical_return_loss) = le_u16(i)?;
    let (i, optical_return_loss_marker_position_1) = le_i32(i)?;
    let (i, optical_return_loss_marker_position_2) = le_i32(i)?;
    Ok((i, LastKeyEvent {
        event_number: common.event_number,
        event_propogation_time: common.event_propogation_time,
        attenuation_coefficient_lead_in_fiber: common.attenuation_coefficient_lead_in_fiber,
        event_loss: common.event_loss,
        event_reflectance: common.event_reflectance,
        event_code: common.event_code,
        loss_measurement_technique: common.loss_measurement_technique,
        marker_location_1: common.marker_location_1,
        marker_location_2: common.marker_location_2,
        marker_location_3: common.marker_location_3,
        marker_location_4: common.marker_location_4,
        marker_location_5: common.marker_location_5,
        comment: common.comment,
        end_to_end_loss,
        end_to_end_marker_position_1,
        end_to_end_marker_position_2,
        optical_return_loss,
        optical_return_loss_marker_position_1,
        optical_return_loss_marker_position_2,
    }))
}

/// The key events block: the number of events, one event fewer than that
/// number, and the last event. A number below one is refused.
#[verifier::opaque]
pub open spec fn spec_key_events_block(s: Seq<u8>) -> Parsed<KeyEventsView> {
    match spec_block_header(s, BLOCK_ID_KEYEVENTS@) { Err(e) => Err(e), Ok((_, s)) =>
    match spec_le_i16(s) { Err(e) => Err(e), Ok((number_of_key_events, s)) =>
    match spec_counted(key_event_parser(), number_of_key_events - 1, s) { Err(e) => Err(e), Ok((key_events, s)) =>
    match spec_last_key_event(s) { Err(e) => Err(e), Ok((last_key_event, s)) =>
    Ok((KeyEventsView { number_of_key_events, key_events, last_key_event }, s))
    }}}}
}

/// The number of events that a key events block declares, where its name
/// and that number can be read.
pub open spec fn spec_declared_key_events(s: Seq<u8>) -> Option<i16> {
    match spec_block_header(s, BLOCK_ID_KEYEVENTS@) {
        Err(_) => None,
        Ok((_, s)) => match spec_le_i16(s) {
            Err(_) => None,
            Ok((n, _)) => Some(n),
        },
    }
}

/// Reads the key events block. A block that declares no event at all is
/// refused: the last event is always there.
pub fn key_events_block(i: &[u8]) -> (r: Result<(&[u8], KeyEvents), ParseError>)
    ensures
        result_view(r) == spec_key_events_block(i@),
        within(r, i@),
        spec_declared_key_events(i@) matches Some(n) && n < 1 ==> r is Err && r->Err_0.kind
            == ParseErrorKind::CountUnderflow,
{
    proof {
        reveal(spec_key_events_block);
    }
    let (i, _) = block_header(i, BLOCK_ID_KEYEVENTS)?;
    let (i, number_of_key_events) = le_i16(i)?;
    let (i, key_events) = count_key_events(i, number_of_key_events as i32 - 1)?;
    let (i, last_key_event) = last_key_event(i)?;
    Ok((i, KeyEvents { number_of_key_events, key_events, last_key_event }))
}

/// The link parameters block: the number of landmarks, and that many landmarks.
#[verifier::opaque]
pub open spec fn spec_link_parameters_block(s: Seq<u8>) -> Parsed<LinkParametersView> {
    match spec_block_header(s, BLOCK_ID_LNKPARAMS@) { Err(e) => Err(e), Ok((_, s)) =>
    match spec_le_i16(s) { Err(e) => Err(e), Ok((number_of_landmarks, s)) =>
    match spec_counted(landmark_parser(), number_of_landmarks as int, s) { Err(e) => Err(e), Ok((landmarks, s)) =>
    Ok((LinkParametersView { number_of_landmarks, landmarks }, s))
    }}}
}

/// Reads the link parameters block.
pub fn link_parameters_block(i: &[u8]) -> (r: Result<(&[u8], LinkParameters), ParseError>)
    ensures
        result_view(r) == spec_link_parameters_block(i@),
        within(r, i@),
{
    proof {
        reveal(spec_link_parameters_block);
    }
    let (i, _) = block_header(i, BLOCK_ID_LNKPARAMS)?;
    let (i, number_of_landmarks) = le_i16(i)?;
    let (i, landmarks) = count_landmarks(i, number_of_landmarks as i32)?;
    Ok((i, LinkParameters { number_of_landmarks, landmarks }))
}

/// The data points block: the number of samples, the number of scale
/// factors, and one group of samples for each scale factor.
#[verifier::opaque]
pub open spec fn spec_data_points_block(s: Seq<u8>) -> Parsed<DataPointsView> {
    match spec_block_header(s, BLOCK_ID_DATAPTS@) { Err(e) => Err(e), Ok((_, s)) =>
    match spec_le_i32(s) { Err(e) => Err(e), Ok((number_of_data_points, s)) =>
    match spec_le_i16(s) { Err(e) => Err(e), Ok((total_number_scale_factors_used, s)) =>
    match spec_counted(data_points_at_scale_factor_parser(), total_number_scale_factors_used as int, s) { Err(e) => Err(e), Ok((scale_factors, s)) =>
    Ok((DataPointsView { number_of_data_points, total_number_scale_factors_used, scale_factors }, s))
    }}}}
}

/// Reads the data points block.
pub fn data_points_block(i: &[u8]) -> (r: Result<(&[u8], DataPoints), ParseError>)
    ensures
        result_view(r) == spec_data_points_block(i@),
        within(r, i@),
{
    proof {
        reveal(spec_data_points_block);
    }
    let (i, _) = block_header(i, BLOCK_ID_DATAPTS)?;
    let (i, number_of_data_points) = le_i32(i)?;
    let (i, total_number_scale_factors_used) = le_i16(i)?;
    let (i, scale_factors) = count_scale_factors(i, total_number_scale_factors_used as i32)?;
    Ok((i, DataPoints { number_of_data_points, total_number_scale_factors_used, scale_factors }))
}

/// A block that is not one of the standard ones: the name that it opens
/// with, and all that follows as its data. Nothing is left over.
#[verifier::opaque]
pub open spec fn spec_proprietary_block(s: Seq<u8>) -> Parsed<ProprietaryBlockView> {
    match spec_null_terminated_str(s) {
        Err(e) => Err(e),
        Ok((header, data)) => Ok((ProprietaryBlockView { header, data }, Seq::empty())),
    }
}

/// Reads a block that is not one of the standard ones.
pub fn proprietary_block(i: &[u8]) -> (r: Result<(&[u8], ProprietaryBlock), ParseError>)
    ensures
        result_view(r) == spec_proprietary_block(i@),
        within(r, i@),
{
    proof {
        reveal(spec_proprietary_block);
    }
    let (data, header) = null_terminated_str(i)?;
    let rest = slice_subrange(i, i.len(), i.len());
    assert(rest@ =~= Seq::<u8>::empty());
    Ok((rest, ProprietaryBlock { header: header.to_owned(), data: slice_to_vec(data) }))
}

/// The map block: revision, its own size, the number of blocks in the file,
/// and an entry for each block but the map itself. A number of blocks below
/// one is refused.
#[verifier::opaque]
pub open spec fn spec_map_block(s: Seq<u8>) -> Parsed<MapBlockView> {
    match spec_block_header(s, BLOCK_ID_MAP@) { Err(e) => Err(e), Ok((_, s)) =>
    match spec_le_u16(s) { Err(e) => Err(e), Ok((revision_number, s)) =>
    match spec_le_i32(s) { Err(e) => Err(e), Ok((block_size, s)) =>
    match spec_le_i16(s) { Err(e) => Err(e), Ok((block_count, s)) =>
    match spec_counted(map_block_info_parser(), block_count - 1, s) { Err(e) => Err(e), Ok((block_info, s)) =>
    Ok((MapBlockView { revision_number, block_size, block_count, block_info }, s))
    }}}}}
}

/// Reads the map block.
pub fn map_block(i: &[u8]) -> (r: Result<(&[u8], MapBlock), ParseError>)
    ensures
        result_view(r) == spec_map_block(i@),
        within(r, i@),
{
    proof {
        reveal(spec_map_block);
    }
    let (i, _) = block_header(i, BLOCK_ID_MAP)?;
    let (i, revision_number) = le_u16(i)?;
    let (i, block_size) = le_i32(i)?;
    let (i, block_count) = le_i16(i)?;
    let (i, block_info) = count_block_infos(i, block_count as i32 - 1)?;
    Ok((i, MapBlock { revision_number, block_size, block_count, block_info }))
}

/// Whether two slices hold the same bytes.
fn bytes_eq(a: &[u8], b: &[u8]) -> (r: bool)
    ensures
        r == (a@ == b@),
{
    if a.len() != b.len() {
        return false;
    }
    let mut k: usize = 0;
    while k < a.len()
        invariant
            k <= a@.len(),
            a@.len() == b@.len(),
            forall|j: int| 0 <= j < k ==> a@[j] == b@[j],
        decreases a@.len() - k,
    {
        if a[k] != b[k] {
            return false;
        }
        k += 1;
    }
    assert(a@ =~= b@);
    true
}

/// Whether two strings are the same.
pub fn str_eq(a: &str, b: &str) -> (r: bool)
    ensures
        r == (a@ == b@),
{
    proof {
        encode_utf8_decode_utf8(a@);
        encode_utf8_decode_utf8(b@);
    }
    bytes_eq(a.as_bytes(), b.as_bytes())
}

/// The sum of the sizes that the entries declare.
pub open spec fn total_size(infos: Seq<BlockInfoView>) -> int
    decreases infos.len(),
{
    if infos.len() == 0 {
        0
    } else {
        total_size(infos.drop_last()) + infos.last().size
    }
}

/// No entry declares a negative size.
pub open spec fn sizes_non_negative(infos: Seq<BlockInfoView>) -> bool {
    forall|k: int| 0 <= k < infos.len() ==> (#[trigger] infos[k]).size >= 0
}

/// The sum over one entry more is the sum so far and that entry's size.
pub proof fn lemma_total_size_step(infos: Seq<BlockInfoView>, k: int)
    requires
        0 <= k < infos.len(),
    ensures
        total_size(infos.take(k + 1)) == total_size(infos.take(k)) + infos[k].size,
{
    assert(infos.take(k + 1).drop_last() =~= infos.take(k));
}

/// Without negative sizes, the sum over the first entries is at most the sum over all.
pub proof fn lemma_total_size_monotone(infos: Seq<BlockInfoView>, k: int)
    requires
        0 <= k <= infos.len(),
        sizes_non_negative(infos),
    ensures
        0 <= total_size(infos.take(k)) <= total_size(infos),
    decreases infos.len() - k,
{
    if k == infos.len() {
        assert(infos.take(k) =~= infos);
        lemma_total_size_non_negative(infos);
    } else {
        lemma_total_size_step(infos, k);
        lemma_total_size_monotone(infos, k + 1);
        lemma_total_size_non_negative(infos.take(k));
    }
}

/// Without negative sizes, the sum is not negative.
pub proof fn lemma_total_size_non_negative(infos: Seq<BlockInfoView>)
    requires
        sizes_non_negative(infos),
    ensures
        0 <= total_size(infos),
    decreases infos.len(),
{
    if infos.len() > 0 {
        lemma_total_size_non_negative(infos.drop_last());
    }
}

/// Whether none of the first `n` entries declares a negative size.
fn first_sizes_non_negative(infos: &Vec<BlockInfo>, n: usize) -> (r: bool)
    requires
        n <= infos@.len(),
    ensures
        r == sizes_non_negative(infos.deep_view().take(n as int)),
{
    let mut k: usize = 0;
    while k < n
        invariant
            k <= n <= infos@.len(),
            forall|j: int| 0 <= j < k ==> (#[trigger] infos.deep_view()[j]).size >= 0,
        decreases n - k,
    {
        if infos[k].size < 0 {
            assert(infos.deep_view().take(n as int)[k as int].size < 0);
            return false;
        }
        k += 1;
    }
    true
}

/// The sum of the sizes of the first `n` entries added to `base`, unless it exceeds `limit`.
fn offset_after(infos: &Vec<BlockInfo>, n: usize, base: usize, limit: usize) -> (r: Option<usize>)
    requires
        n <= infos@.len(),
        sizes_non_negative(infos.deep_view().take(n as int)),
    ensures
        match r {
            Some(t) => t == base + total_size(infos.deep_view().take(n as int)) && t <= limit,
            None => base + total_size(infos.deep_view().take(n as int)) > limit,
        },
{
    if base > limit {
        proof {
            lemma_total_size_non_negative(infos.deep_view().take(n as int));
        }
        return None;
    }
    let ghost first = infos.deep_view().take(n as int);
    let mut total: usize = base;
    let mut k: usize = 0;
    while k < n
        invariant
            k <= n <= infos@.len(),
            first == infos.deep_view().take(n as int),
            sizes_non_negative(first),
            total == base + total_size(first.take(k as int)),
            total <= limit,
        decreases n - k,
    {
        proof {
            lemma_total_size_step(first, k as int);
            lemma_total_size_monotone(first, k as int + 1);
            assert(first[k as int].size >= 0);
        }
        let size = infos[k].size as usize;
        if size > limit - total {
            return None;
        }
        total += size;
        k += 1;
    }
    assert(first.take(n as int) =~= first);
    Some(total)
}

/// A file in which only the map was read.
pub open spec fn spec_only_map(map: MapBlockView) -> SORFileView {
    SORFileView {
        map,
        general_parameters: None,
        supplier_parameters: None,
        fixed_parameters: None,
        key_events: None,
        link_parameters: None,
        data_points: None,
        proprietary_blocks: Seq::empty(),
        checksum: None,
    }
}

/// The kinds of block that the reader tells apart, by the name under which
/// the map lists a block.
#[derive(Debug, Clone, Copy, PartialEq, Eq)]
pub enum BlockKind {
    SupplierParameters,
    GeneralParameters,
    FixedParameters,
    KeyEvents,
    LinkParameters,
    DataPoints,
    Checksum,
    /// Any block whose name is not one of the standard names.
    Proprietary,
}

/// The kind of the block that the map lists under `name`.
pub open spec fn spec_block_kind(name: Seq<char>) -> BlockKind {
    if name == BLOCK_ID_SUPPARAMS@ {
        BlockKind::SupplierParameters
    } else if name == BLOCK_ID_GENPARAMS@ {
        BlockKind::GeneralParameters
    } else if name == BLOCK_ID_FXDPARAMS@ {
        BlockKind::FixedParameters
    } else if name == BLOCK_ID_KEYEVENTS@ {
        BlockKind::KeyEvents
    } else if name == BLOCK_ID_LNKPARAMS@ {
        BlockKind::LinkParameters
    } else if name == BLOCK_ID_DATAPTS@ {
        BlockKind::DataPoints
    } else if name == BLOCK_ID_CHECKSUM@ {
        BlockKind::Checksum
    } else {
        BlockKind::Proprietary
    }
}

/// Tells the kind of a block by the name under which the map lists it.
pub fn block_kind(name: &str) -> (kind: BlockKind)
    ensures
        kind == spec_block_kind(name@),
{
    if str_eq(name, BLOCK_ID_SUPPARAMS) {
        BlockKind::SupplierParameters
    } else if str_eq(name, BLOCK_ID_GENPARAMS) {
        BlockKind::GeneralParameters
    } else if str_eq(name, BLOCK_ID_FXDPARAMS) {
        BlockKind::FixedParameters
    } else if str_eq(name, BLOCK_ID_KEYEVENTS) {
        BlockKind::KeyEvents
    } else if str_eq(name, BLOCK_ID_LNKPARAMS) {
        BlockKind::LinkParameters
    } else if str_eq(name, BLOCK_ID_DATAPTS) {
        BlockKind::DataPoints
    } else if str_eq(name, BLOCK_ID_CHECKSUM) {
        BlockKind::Checksum
    } else {
        BlockKind::Proprietary
    }
}

/// The file after one more block was read: `data` are the bytes of the block
/// that the map lists under `name`. A standard block goes to its decoder and
/// takes the place of an earlier block of its kind; a link parameters block
/// is passed over; a proprietary block is added to those that the file
/// holds. What a block leaves undecoded is ignored.
#[verifier::opaque]
pub open spec fn spec_with_block(f: SORFileView, name: Seq<char>, data: Seq<u8>) -> Result<
    SORFileView,
    ParseError,
> {
    match spec_block_kind(name) {
        BlockKind::SupplierParameters => match spec_supplier_parameters_block(data) {
            Err(e) => Err(e),
            Ok((b, _)) => Ok(SORFileView { supplier_parameters: Some(b), ..f }),
        },
        BlockKind::GeneralParameters => match spec_general_parameters_block(data) {
            Err(e) => Err(e),
            Ok((b, _)) => Ok(SORFileView { general_parameters: Some(b), ..f }),
        },
        BlockKind::FixedParameters => match spec_fixed_parameters_block(data) {
            Err(e) => Err(e),
            Ok((b, _)) => Ok(SORFileView { fixed_parameters: Some(b), ..f }),
        },
        BlockKind::KeyEvents => match spec_key_events_block(data) {
            Err(e) => Err(e),
            Ok((b, _)) => Ok(SORFileView { key_events: Some(b), ..f }),
        },
        BlockKind::LinkParameters => Ok(f),
        BlockKind::DataPoints => match spec_data_points_block(data) {
            Err(e) => Err(e),
            Ok((b, _)) => Ok(SORFileView { data_points: Some(b), ..f }),
        },
        BlockKind::Checksum => match spec_checksum_block(data) {
            Err(e) => Err(e),
            Ok((b, _)) => Ok(SORFileView { checksum: Some(b), ..f }),
        },
        BlockKind::Proprietary => match spec_proprietary_block(data) {
            Err(e) => Err(e),
            Ok((b, _)) => Ok(
                SORFileView { proprietary_blocks: f.proprietary_blocks.push(b), ..f },
            ),
        },
    }
}

/// The file after the blocks from entry `k` of the map on were read, where
/// `s` begins with the bytes of block `k`. Each block is as long as its
/// entry declares and lies right after the one before. An error of a block
/// is placed in the file: the bytes after the block count as lying ahead.
pub open spec fn spec_blocks(f: SORFileView, infos: Seq<BlockInfoView>, k: int, s: Seq<u8>) -> Result<
    SORFileView,
    ParseError,
>
    decreases infos.len() - k,
{
    if k < 0 || k >= infos.len() {
        Ok(f)
    } else if infos[k].size < 0 {
        Err(failed_at(ParseErrorKind::NegativeBlockSize, s))
    } else {
        match spec_take(s, infos[k].size as nat) {
            Err(e) => Err(e),
            Ok((data, rest)) => match spec_with_block(f, infos[k].identifier, data) {
                Err(e) => Err(
                    ParseError { kind: e.kind, remaining: (e.remaining + rest.len()) as usize },
                ),
                Ok(g) => spec_blocks(g, infos, k + 1, rest),
            },
        }
    }
}

/// A whole file: the map, then the blocks that the map lists, in its order.
/// Before any block is read, the map must declare no negative size, and
/// sizes that add up to no more than the bytes that follow the map.
pub open spec fn spec_parse_file(s: Seq<u8>) -> Result<SORFileView, ParseError> {
    match spec_map_block(s) {
        Err(e) => Err(e),
        Ok((map, rest)) => if !sizes_non_negative(map.block_info) {
            Err(failed_at(ParseErrorKind::NegativeBlockSize, rest))
        } else if total_size(map.block_info) > rest.len() {
            Err(failed_at(ParseErrorKind::SizeOverflow, rest))
        } else {
            spec_blocks(spec_only_map(map), map.block_info, 0, rest)
        },
    }
}

/// Reads one block into the file: `data` are the bytes of the block that the
/// map lists under `name`.
fn with_block(f: SORFile, name: &str, data: &[u8]) -> (r: Result<SORFile, ParseError>)
    ensures
        match r {
            Ok(g) => spec_with_block(f@, name@, data@) == Ok::<SORFileView, ParseError>(g@),
            Err(e) => spec_with_block(f@, name@, data@) == Err::<SORFileView, ParseError>(e),
        },
        r matches Ok(g) ==> g@.map == f@.map,
        r matches Err(e) ==> e.remaining <= data@.len(),
{
    proof {
        reveal(spec_with_block);
    }
    match block_kind(name) {
        BlockKind::SupplierParameters => {
            let (_, b) = supplier_parameters_block(data)?;
            Ok(SORFile { supplier_parameters: Some(b), ..f })
        },
        BlockKind::GeneralParameters => {
            let (_, b) = general_parameters_block(data)?;
            Ok(SORFile { general_parameters: Some(b), ..f })
        },
        BlockKind::FixedParameters => {
            let (_, b) = fixed_parameters_block(data)?;
            Ok(SORFile { fixed_parameters: Some(b), ..f })
        },
        BlockKind::KeyEvents => {
            let (_, b) = key_events_block(data)?;
            Ok(SORFile { key_events: Some(b), ..f })
        },
        BlockKind::LinkParameters => Ok(f),
        BlockKind::DataPoints => {
            let (_, b) = data_points_block(data)?;
            Ok(SORFile { data_points: Some(b), ..f })
        },
        BlockKind::Checksum => {
            let (_, b) = checksum_block(data)?;
            Ok(SORFile { checksum: Some(b), ..f })
        },
        BlockKind::Proprietary => {
            let (_, b) = proprietary_block(data)?;
            let ghost before = f.proprietary_blocks.deep_view();
            let mut f = f;
            f.proprietary_blocks.push(b);
            assert(f.proprietary_blocks.deep_view() =~= before.push(b@));
            Ok(f)
        },
    }
}

/// Reads a whole file.
///
/// The blocks are found by the sizes that the map declares and dispatched by
/// the names that it gives them. Input that the format does not allow is
/// refused; a checksum that does not match is not a reason to refuse.
pub fn parse_file(i: &[u8]) -> (r: Result<SORFile, ParseError>)
    ensures
        match r {
            Ok(f) => spec_parse_file(i@) == Ok::<SORFileView, ParseError>(f@),
            Err(e) => spec_parse_file(i@) == Err::<SORFileView, ParseError>(e),
        },
{
    let (rest, map) = map_block(i)?;
    let n = map.block_info.len();
    assert(map.block_info.deep_view().take(n as int) =~= map.block_info.deep_view());
    if !first_sizes_non_negative(&map.block_info, n) {
        return Err(failed(ParseErrorKind::NegativeBlockSize, rest));
    }
    if offset_after(&map.block_info, n, 0, rest.len()).is_none() {
        return Err(failed(ParseErrorKind::SizeOverflow, rest));
    }
    let ghost infos = map.block_info.deep_view();
    let ghost start = rest@;
    let ghost first = spec_only_map(map@);
    let mut f = SORFile {
        map,
        general_parameters: None,
        supplier_parameters: None,
        fixed_parameters: None,
        key_events: None,
        link_parameters: None,
        data_points: None,
        proprietary_blocks: Vec::new(),
        checksum: None,
    };
    assert(f.proprietary_blocks.deep_view() =~= Seq::<ProprietaryBlockView>::empty());
    assert(f@ == first);
    let mut rest = rest;
    let mut k: usize = 0;
    while k < n
        invariant
            k <= n == infos.len(),
            infos == f@.map.block_info,
            spec_parse_file(i@) == spec_blocks(first, infos, 0, start),
            spec_blocks(first, infos, 0, start) == spec_blocks(f@, infos, k as int, rest@),
        decreases n - k,
    {
        let size = f.map.block_info[k].size;
        let name = f.map.block_info[k].identifier.clone();
        assert(infos[k as int] == f.map.block_info@[k as int]@);
        if size < 0 {
            return Err(failed(ParseErrorKind::NegativeBlockSize, rest));
        }
        let ahead = rest.len();
        let (r, data) = take(rest, size as usize)?;
        rest = r;
        assert(data@.len() + rest@.len() == ahead);
        f = match with_block(f, name.as_str(), data) {
            Ok(g) => g,
            Err(e) => {
                return Err(ParseError { kind: e.kind, remaining: e.remaining + rest.len() });
            },
        };
        k += 1;
    }
    Ok(f)
}

/// The index of the first entry named `name`, or the number of entries where there is none.
pub open spec fn block_position(infos: Seq<BlockInfoView>, name: Seq<char>) -> int
    decreases infos.len(),
{
    if infos.len() == 0 || infos[0].identifier == name {
        0
    } else {
        1 + block_position(infos.skip(1), name)
    }
}

/// `block_position` is the one index before which no entry has the name and
/// at which the entries end or the entry has it.
pub proof fn lemma_block_position(infos: Seq<BlockInfoView>, name: Seq<char>, n: int)
    requires
        0 <= n <= infos.len(),
        forall|j: int| 0 <= j < n ==> (#[trigger] infos[j]).identifier != name,
        n == infos.len() || infos[n].identifier == name,
    ensures
        block_position(infos, name) == n,
    decreases infos.len(),
{
    if infos.len() == 0 || infos[0].identifier == name {
    } else {
        let t = infos.skip(1);
        assert forall|j: int| 0 <= j < n - 1 implies (#[trigger] t[j]).identifier != name by {
            assert(t[j] == infos[j + 1]);
        }
        lemma_block_position(t, name, n - 1);
    }
}

/// Finds the first entry named `name`; returns the number of entries where there is none.
pub fn find_block(infos: &Vec<BlockInfo>, name: &str) -> (n: usize)
    ensures
        n == block_position(infos.deep_view(), name@),
        n <= infos@.len(),
        n < infos@.len() ==> infos@[n as int].identifier@ == name@,
{
    let mut n: usize = 0;
    while n < infos.len() && !str_eq(infos[n].identifier.as_str(), name)
        invariant
            n <= infos@.len(),
            forall|j: int| 0 <= j < n ==> (#[trigger] infos.deep_view()[j]).identifier != name@,
        decreases infos@.len() - n,
    {
        n += 1;
    }
    proof {
        lemma_block_position(infos.deep_view(), name@, n as int);
    }
    n
}

/// Where the checksum block lies in a file of `len` bytes, as first byte and
/// length, going by the map alone: after the map and the blocks listed
/// before it. There is no answer where the map lists no checksum block,
/// declares a negative size up to that entry, gives the block fewer than the
/// eight bytes it needs, or places its end beyond the file.
pub open spec fn spec_checksum_range(map: MapBlockView, len: int) -> Option<(int, int)> {
    let k = block_position(map.block_info, BLOCK_ID_CHECKSUM@);
    if map.block_size < 0 || k >= map.block_info.len() {
        None
    } else if !sizes_non_negative(map.block_info.take(k + 1)) {
        None
    } else {
        let start = map.block_size + total_size(map.block_info.take(k));
        let size = map.block_info[k].size as int;
        if size < 8 || start + size > len {
            None
        } else {
            Some((start, size))
        }
    }
}

/// Locates the checksum block by the map.
fn checksum_range(map: &MapBlock, len: usize) -> (r: Option<(usize, usize)>)
    ensures
        match r {
            Some((start, size)) => spec_checksum_range(map@, len as int) == Some(
                (start as int, size as int),
            ),
            None => spec_checksum_range(map@, len as int) is None,
        },
{
    let k = find_block(&map.block_info, BLOCK_ID_CHECKSUM);
    if map.block_size < 0 || k >= map.block_info.len() {
        return None;
    }
    if !first_sizes_non_negative(&map.block_info, k + 1) {
        return None;
    }
    let ghost upto = map.block_info.deep_view().take(k + 1);
    proof {
        assert(upto.take(k as int) =~= map.block_info.deep_view().take(k as int));
        assert(upto[k as int] == map.block_info.deep_view()[k as int]);
        assert forall|j: int| 0 <= j < k implies (#[trigger] map.block_info.deep_view().take(
            k as int,
        )[j]).size >= 0 by {
            assert(upto[j].size >= 0);
        }
        lemma_total_size_non_negative(map.block_info.deep_view().take(k as int));
    }
    let size = map.block_info[k].size as usize;
    match offset_after(&map.block_info, k, map.block_size as usize, len) {
        None => None,
        Some(start) => {
            if size < 8 || size > len - start {
                None
            } else {
                Some((start, size))
            }
        },
    }
}

/// The stored value if one of the two check values equals it.
pub open spec fn spec_matching_checksum(computed: (u16, u16), stored: u16) -> Option<u16> {
    if computed.0 == stored || computed.1 == stored {
        Some(stored)
    } else {
        None
    }
}

/// Compares a stored value with the two check values of some bytes, the
/// IBM-3740 value first and the KERMIT value second. Returns the check value
/// that equals the stored one, if one does.
pub fn matching_checksum(computed: (u16, u16), stored: u16) -> (r: Option<u16>)
    ensures
        r == spec_matching_checksum(computed, stored),
{
    if computed.0 == stored {
        return Some(computed.0);
    }
    if computed.1 == stored {
        return Some(computed.1);
    }
    None
}

/// Compares a stored value with the check values of the bytes, under either
/// of the two conventions that a file may follow.
pub fn compare_checksums(bytes: &[u8], target_value: u16) -> (r: Option<u16>)
    ensures
        r == spec_matching_checksum(spec_checksums(bytes@), target_value),
{
    matching_checksum(checksums(bytes), target_value)
}

/// What three candidate ranges say of the stored value. For each range
/// there is the check value that equals the stored one, if one does. The
/// ranges count in the order given, and the first with such a value decides.
pub open spec fn spec_checksum_verdict(
    stored: u16,
    preceding: Option<u16>,
    zeroed: Option<u16>,
    excluded: Option<u16>,
) -> ChecksumValidationResult {
    if preceding is Some {
        ChecksumValidationResult {
            status: ChecksumStatus::Valid,
            stored: Some(stored),
            matched: preceding,
            matched_by: Some(ChecksumStrategy::PrecedingBytes),
        }
    } else if zeroed is Some {
        ChecksumValidationResult {
            status: ChecksumStatus::Valid,
            stored: Some(stored),
            matched: zeroed,
            matched_by: Some(ChecksumStrategy::WholeFileChecksumZeroed),
        }
    } else if excluded is Some {
        ChecksumValidationResult {
            status: ChecksumStatus::Valid,
            stored: Some(stored),
            matched: excluded,
            matched_by: Some(ChecksumStrategy::WholeFileExcludingBlock),
        }
    } else {
        ChecksumValidationResult {
            status: ChecksumStatus::Mismatch,
            stored: Some(stored),
            matched: None,
            matched_by: None,
        }
    }
}

/// Decides between the three candidate ranges: the bytes before the
/// checksum block, the file with the stored value zeroed, and the file
/// without the checksum block. Each argument is the outcome of comparing
/// the stored value with the check values of one range.
pub fn checksum_verdict(
    stored: u16,
    preceding: Option<u16>,
    zeroed: Option<u16>,
    excluded: Option<u16>,
) -> (r: ChecksumValidationResult)
    ensures
        r == spec_checksum_verdict(stored, preceding, zeroed, excluded),
{
    if preceding.is_some() {
        ChecksumValidationResult {
            status: ChecksumStatus::Valid,
            stored: Some(stored),
            matched: preceding,
            matched_by: Some(ChecksumStrategy::PrecedingBytes),
        }
    } else if zeroed.is_some() {
        ChecksumValidationResult {
            status: ChecksumStatus::Valid,
            stored: Some(stored),
            matched: zeroed,
            matched_by: Some(ChecksumStrategy::WholeFileChecksumZeroed),
        }
    } else if excluded.is_some() {
        ChecksumValidationResult {
            status: ChecksumStatus::Valid,
            stored: Some(stored),
            matched: excluded,
            matched_by: Some(ChecksumStrategy::WholeFileExcludingBlock),
        }
    } else {
        ChecksumValidationResult {
            status: ChecksumStatus::Mismatch,
            stored: Some(stored),
            matched: None,
            matched_by: None,
        }
    }
}

/// The file with the two bytes at `at` set to zero.
pub open spec fn with_zeroed_checksum(bytes: Seq<u8>, at: int) -> Seq<u8> {
    bytes.take(at) + seq![0u8, 0u8] + bytes.skip(at + 2)
}

/// The file without the `size` bytes from `start` on.
pub open spec fn without_checksum_block(bytes: Seq<u8>, start: int, size: int) -> Seq<u8> {
    bytes.take(start) + bytes.skip(start + size)
}

/// What checking the checksum finds, for the bytes of a file and the file
/// that was read from them.
///
/// Without a checksum block in the file read, the checksum is missing. Where
/// the map does not locate the block within the bytes, the outcome is an
/// error and no value counts as stored. Otherwise the stored value is
/// compared with the check values of three ranges, in this order: the bytes
/// before the checksum block; all bytes, with the stored value zeroed; all
/// bytes but the checksum block.
pub open spec fn spec_validate_checksum(bytes: Seq<u8>, sor: SORFileView) -> ChecksumValidationResult {
    match sor.checksum {
        None => ChecksumValidationResult {
            status: ChecksumStatus::Missing,
            stored: None,
            matched: None,
            matched_by: None,
        },
        Some(block) => match spec_checksum_range(sor.map, bytes.len() as int) {
            None => ChecksumValidationResult {
                status: ChecksumStatus::Error,
                stored: None,
                matched: None,
                matched_by: None,
            },
            Some((start, size)) => {
                let stored = pattern16(block.checksum as int) as u16;
                spec_checksum_verdict(
                    stored,
                    spec_matching_checksum(spec_checksums(bytes.take(start)), stored),
                    spec_matching_checksum(
                        spec_checksums(with_zeroed_checksum(bytes, start + 6)),
                        stored,
                    ),
                    spec_matching_checksum(
                        spec_checksums(without_checksum_block(bytes, start, size)),
                        stored,
                    ),
                )
            },
        },
    }
}

/// Checks the checksum of a file against its bytes.
///
/// `bytes` are the bytes that `sor` was read from. The outcome informs; it
/// has no part in reading or writing.
pub fn validate_checksum(bytes: &[u8], sor: &SORFile) -> (r: ChecksumValidationResult)
    ensures
        r == spec_validate_checksum(bytes@, sor@),
{
    let block = match &sor.checksum {
        None => {
            return ChecksumValidationResult {
                status: ChecksumStatus::Missing,
                stored: None,
                matched: None,
                matched_by: None,
            };
        },
        Some(block) => block,
    };
    let (start, size) = match checksum_range(&sor.map, bytes.len()) {
        None => {
            return ChecksumValidationResult {
                status: ChecksumStatus::Error,
                stored: None,
                matched: None,
                matched_by: None,
            };
        },
        Some(range) => range,
    };
    let stored: u16 = if block.checksum < 0 {
        (block.checksum as i32 + 65536) as u16
    } else {
        block.checksum as u16
    };
    let preceding = compare_checksums(slice_subrange(bytes, 0, start), stored);
    let mut zeroed: Vec<u8> = slice_to_vec(slice_subrange(bytes, 0, start + 6));
    zeroed.push(0);
    zeroed.push(0);
    zeroed.extend_from_slice(slice_subrange(bytes, start + 8, bytes.len()));
    assert(zeroed@ =~= with_zeroed_checksum(bytes@, start + 6));
    let mut excluded: Vec<u8> = slice_to_vec(slice_subrange(bytes, 0, start));
    excluded.extend_from_slice(slice_subrange(bytes, start + size, bytes.len()));
    assert(excluded@ =~= without_checksum_block(bytes@, start as int, size as int));
    checksum_verdict(
        stored,
        preceding,
        compare_checksums(zeroed.as_slice(), stored),
        compare_checksums(excluded.as_slice(), stored),
    )
}

} // verus!
