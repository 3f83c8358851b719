//! Decoding undoes encoding: what was written is read back as it was.
//!
//! The lemmas go from the primitive fields to the blocks. Each states that
//! the decoder, given the encoding of a value followed by any other bytes,
//! finds that value and leaves those bytes. Others state what holds of
//! every value that a decoder finds.
use crate::parser::{
    data_points_at_scale_factor_parser, key_event_parser, le_i16_parser, le_i32_parser,
    le_u16_parser, map_block_info_parser, spec_block_header, spec_checksum_block, spec_count,
    spec_counted, spec_data_points_at_scale_factor, spec_data_points_block, spec_fixed_length_str,
    spec_fixed_parameters_block, spec_general_parameters_block, spec_get_ascii_str, spec_key_event,
    spec_key_events_block, spec_last_key_event, spec_le_i16, spec_le_i32, spec_le_u16, spec_le_u32,
    spec_map_block, spec_map_block_info, spec_null_terminated_chunk, spec_null_terminated_str,
    spec_proprietary_block, spec_supplier_parameters_block, spec_take, ParseError, Parsed,
    BLOCK_ID_CHECKSUM, BLOCK_ID_DATAPTS, BLOCK_ID_FXDPARAMS, BLOCK_ID_GENPARAMS, BLOCK_ID_KEYEVENTS,
    BLOCK_ID_MAP, BLOCK_ID_SUPPARAMS,
};
use crate::types::{
    BlockInfoView, ChecksumBlockView, DataPointsAtScaleFactorView, DataPointsView,
    FixedParametersBlockView, GeneralParametersBlockView, KeyEventView, KeyEventsView,
    LastKeyEventView, MapBlockView, ProprietaryBlockView, SupplierParametersBlockView,
};
use crate::wire::{
    ascii_chars, first_nul, i16_le, i32_le, lemma_ascii_chars_utf8, lemma_first_nul,
    lemma_first_nul_bounds, no_nul, pattern16, pattern32, signed16, str_bytes, u16_le, u16_of_le,
    u32_le,
};
use crate::writer::{
    block_info_bytes, block_info_bytes_fn, checksum_block_bytes, concat_map, data_points_bytes,
    fixed_bytes, fixed_parameters_bytes, general_parameters_bytes, i16_le_fn, i32_le_fn,
    key_event_bytes, key_event_bytes_fn, key_events_bytes, last_key_event_bytes,
    last_key_event_common, lemma_block_ids, map_block_bytes, nts_bytes, proprietary_bytes,
    scale_factor_bytes, scale_factor_bytes_fn, supplier_parameters_bytes, u16_le_fn,
};
use vstd::prelude::*;
use vstd::utf8::*;

verus! {

/// Appending is associative.
pub proof fn lemma_assoc(a: Seq<u8>, b: Seq<u8>, c: Seq<u8>)
    ensures
        (a + b) + c == a + (b + c),
{
    assert((a + b) + c =~= a + (b + c));
}

/// Appending nothing changes nothing.
pub proof fn lemma_append_empty(a: Seq<u8>)
    ensures
        a + Seq::<u8>::empty() == a,
        Seq::<u8>::empty() + a == a,
{
    assert(a + Seq::<u8>::empty() =~= a);
    assert(Seq::<u8>::empty() + a =~= a);
}

/// An unsigned 16-bit integer is read back from its two bytes.
pub proof fn lemma_u16_roundtrip(x: u16, t: Seq<u8>)
    ensures
        spec_le_u16(u16_le(x) + t) == Ok::<(u16, Seq<u8>), ParseError>((x, t)),
{
    let s = u16_le(x) + t;
    assert(s[0] == (x as int % 256) as u8);
    assert(s[1] == (x as int / 256) as u8);
    assert(s.skip(2) =~= t);
}

/// A signed 16-bit integer is read back from its two bytes.
pub proof fn lemma_i16_roundtrip(x: i16, t: Seq<u8>)
    ensures
        spec_le_i16(i16_le(x) + t) == Ok::<(i16, Seq<u8>), ParseError>((x, t)),
{
    let u = pattern16(x as int);
    let s = i16_le(x) + t;
    assert(s[0] == (u % 256) as u8);
    assert(s[1] == (u / 256) as u8);
    assert(u16_of_le(s) == u);
    assert(s.skip(2) =~= t);
}

/// The four base-256 digits of a 32-bit pattern add up to the pattern.
pub proof fn lemma_digits4(u: int)
    requires
        0 <= u < 4294967296,
    ensures
        0 <= u / 16777216 < 256,
        u % 256 + 256 * ((u / 256) % 256) + 65536 * ((u / 65536) % 256) + 16777216 * (u
            / 16777216) == u,
{
    let q1 = u / 256;
    let q2 = q1 / 256;
    let q3 = q2 / 256;
    assert(u == 256 * q1 + u % 256);
    assert(q1 == 256 * q2 + q1 % 256);
    assert(q2 == 256 * q3 + q2 % 256);
    assert(u / 65536 == q2);
    assert(u / 16777216 == q3);
}

/// An unsigned 32-bit integer is read back from its four bytes.
pub proof fn lemma_u32_roundtrip(x: u32, t: Seq<u8>)
    ensures
        spec_le_u32(u32_le(x) + t) == Ok::<(u32, Seq<u8>), ParseError>((x, t)),
{
    let u = x as int;
    let s = u32_le(x) + t;
    lemma_digits4(u);
    assert(s[0] == (u % 256) as u8);
    assert(s[1] == ((u / 256) % 256) as u8);
    assert(s[2] == ((u / 65536) % 256) as u8);
    assert(s[3] == (u / 16777216) as u8);
    assert(s.skip(4) =~= t);
}

/// A signed 32-bit integer is read back from its four bytes.
pub proof fn lemma_i32_roundtrip(x: i32, t: Seq<u8>)
    ensures
        spec_le_i32(i32_le(x) + t) == Ok::<(i32, Seq<u8>), ParseError>((x, t)),
{
    let u = pattern32(x as int);
    let s = i32_le(x) + t;
    lemma_digits4(u);
    assert(s[0] == (u % 256) as u8);
    assert(s[1] == ((u / 256) % 256) as u8);
    assert(s[2] == ((u / 65536) % 256) as u8);
    assert(s[3] == (u / 16777216) as u8);
    assert(s.skip(4) =~= t);
}

/// The bytes of an ASCII string without a NUL character hold no zero byte.
pub proof fn lemma_str_bytes_no_zero(c: Seq<char>)
    requires
        is_ascii_chars(c),
        no_nul(c),
    ensures
        forall|j: int| 0 <= j < c.len() ==> #[trigger] str_bytes(c)[j] != 0,
        str_bytes(c).len() == c.len(),
        spec_get_ascii_str(str_bytes(c)) == Ok::<Seq<char>, ParseError>(c),
{
    let s = str_bytes(c);
    assert forall|j: int| 0 <= j < c.len() implies #[trigger] s[j] != 0 by {
        assert('\0' <= c[j] <= '\u{7f}');
        assert(c[j] != '\0');
    }
    lemma_first_nul(s, s.len() as int);
    assert(s.take(s.len() as int) =~= s);
    lemma_ascii_chars_utf8(c);
}

/// A string that ends with a zero byte is read back, where it is ASCII and
/// holds no NUL character.
pub proof fn lemma_nts_roundtrip(c: Seq<char>, t: Seq<u8>)
    requires
        is_ascii_chars(c),
        no_nul(c),
    ensures
        spec_null_terminated_str(nts_bytes(c) + t) == Ok::<(Seq<char>, Seq<u8>), ParseError>(
            (c, t),
        ),
{
    let s = nts_bytes(c) + t;
    let n = c.len() as int;
    lemma_str_bytes_no_zero(c);
    assert forall|j: int| 0 <= j < n implies s[j] != 0 by {
        assert(s[j] == str_bytes(c)[j]);
    }
    assert(s[n] == 0);
    lemma_first_nul(s, n);
    assert(s.take(n) =~= str_bytes(c));
    assert(s.skip(n + 1) =~= t);
}

/// A string in a fixed field is read back, where it is ASCII, holds no NUL
/// character and is no longer than the field.
pub proof fn lemma_fixed_roundtrip(c: Seq<char>, n: nat, t: Seq<u8>)
    requires
        is_ascii_chars(c),
        no_nul(c),
        c.len() <= n,
    ensures
        spec_fixed_length_str(fixed_bytes(c, n) + t, n) == Ok::<(Seq<char>, Seq<u8>), ParseError>(
            (c, t),
        ),
{
    let s = fixed_bytes(c, n) + t;
    let field = s.take(n as int);
    let m = c.len() as int;
    lemma_str_bytes_no_zero(c);
    assert(field =~= fixed_bytes(c, n));
    assert(s.skip(n as int) =~= t);
    assert forall|j: int| 0 <= j < m implies field[j] != 0 by {
        assert(field[j] == str_bytes(c)[j]);
    }
    if m < n {
        assert(field[m] == 0);
    }
    lemma_first_nul(field, m);
    assert(field.take(m) =~= str_bytes(c));
    lemma_ascii_chars_utf8(c);
}

/// The name of a block is read back, where it is ASCII.
pub proof fn lemma_header_roundtrip(name: Seq<char>, t: Seq<u8>)
    requires
        is_ascii_chars(name),
    ensures
        spec_block_header(nts_bytes(name) + t, name) == Ok::<((), Seq<u8>), ParseError>(((), t)),
{
    lemma_ascii_chars_utf8(name);
    let s = nts_bytes(name) + t;
    let h = encode_utf8(name).push(0u8);
    assert(h =~= nts_bytes(name));
    assert(s.take(h.len() as int) =~= h);
    assert(s.skip(h.len() as int) =~= t);
}

/// `f` reads back every value that `enc` wrote, whatever follows it.
pub open spec fn inverts<T>(
    f: spec_fn(Seq<u8>) -> Parsed<T>,
    enc: spec_fn(T) -> Seq<u8>,
    x: T,
) -> bool {
    forall|t: Seq<u8>| #[trigger] f(enc(x) + t) == Ok::<(T, Seq<u8>), ParseError>((x, t))
}

/// The encoding of a list begins with the encoding of its first value.
pub proof fn lemma_concat_map_front<T>(xs: Seq<T>, enc: spec_fn(T) -> Seq<u8>)
    requires
        xs.len() > 0,
    ensures
        concat_map(xs, enc) == enc(xs[0]) + concat_map(xs.skip(1), enc),
    decreases xs.len(),
{
    if xs.len() == 1 {
        assert(xs.drop_last() =~= Seq::<T>::empty());
        assert(xs.skip(1) =~= Seq::<T>::empty());
        lemma_append_empty(enc(xs[0]));
    } else {
        let init = xs.drop_last();
        lemma_concat_map_front(init, enc);
        assert(init.skip(1) =~= xs.skip(1).drop_last());
        assert(xs.skip(1).last() == xs.last());
        lemma_assoc(enc(xs[0]), concat_map(init.skip(1), enc), enc(xs.last()));
    }
}

/// A list is read back value by value.
pub proof fn lemma_count_roundtrip<T>(
    f: spec_fn(Seq<u8>) -> Parsed<T>,
    enc: spec_fn(T) -> Seq<u8>,
    xs: Seq<T>,
    t: Seq<u8>,
)
    requires
        forall|i: int| 0 <= i < xs.len() ==> inverts(f, enc, #[trigger] xs[i]),
    ensures
        spec_count(f, xs.len(), concat_map(xs, enc) + t) == Ok::<(Seq<T>, Seq<u8>), ParseError>(
            (xs, t),
        ),
    decreases xs.len(),
{
    if xs.len() == 0 {
        lemma_append_empty(t);
        assert(xs =~= Seq::<T>::empty());
    } else {
        let rest = xs.skip(1);
        lemma_concat_map_front(xs, enc);
        lemma_assoc(enc(xs[0]), concat_map(rest, enc), t);
        assert(inverts(f, enc, xs[0]));
        assert(f(enc(xs[0]) + (concat_map(rest, enc) + t)) == Ok::<(T, Seq<u8>), ParseError>(
            (xs[0], concat_map(rest, enc) + t),
        ));
        assert forall|i: int| 0 <= i < rest.len() implies inverts(f, enc, #[trigger] rest[i]) by {
            assert(rest[i] == xs[i + 1]);
        }
        lemma_count_roundtrip(f, enc, rest, t);
        assert(seq![xs[0]] + rest =~= xs);
    }
}

/// Lists of signed 16-bit integers are read back.
pub proof fn lemma_i16s_roundtrip(xs: Seq<i16>, t: Seq<u8>)
    ensures
        spec_counted(le_i16_parser(), xs.len() as int, concat_map(xs, i16_le_fn()) + t) == Ok::<
            (Seq<i16>, Seq<u8>),
            ParseError,
        >((xs, t)),
{
    assert forall|i: int| 0 <= i < xs.len() implies inverts(
        le_i16_parser(),
        i16_le_fn(),
        #[trigger] xs[i],
    ) by {
        assert forall|u: Seq<u8>| #[trigger]
            le_i16_parser()(i16_le_fn()(xs[i]) + u) == Ok::<(i16, Seq<u8>), ParseError>(
                (xs[i], u),
            ) by {
            lemma_i16_roundtrip(xs[i], u);
        }
    }
    lemma_count_roundtrip(le_i16_parser(), i16_le_fn(), xs, t);
}

/// Lists of signed 32-bit integers are read back.
pub proof fn lemma_i32s_roundtrip(xs: Seq<i32>, t: Seq<u8>)
    ensures
        spec_counted(le_i32_parser(), xs.len() as int, concat_map(xs, i32_le_fn()) + t) == Ok::<
            (Seq<i32>, Seq<u8>),
            ParseError,
        >((xs, t)),
{
    assert forall|i: int| 0 <= i < xs.len() implies inverts(
        le_i32_parser(),
        i32_le_fn(),
        #[trigger] xs[i],
    ) by {
        assert forall|u: Seq<u8>| #[trigger]
            le_i32_parser()(i32_le_fn()(xs[i]) + u) == Ok::<(i32, Seq<u8>), ParseError>(
                (xs[i], u),
            ) by {
            lemma_i32_roundtrip(xs[i], u);
        }
    }
    lemma_count_roundtrip(le_i32_parser(), i32_le_fn(), xs, t);
}

/// Lists of unsigned 16-bit integers are read back.
pub proof fn lemma_u16s_roundtrip(xs: Seq<u16>, t: Seq<u8>)
    ensures
        spec_counted(le_u16_parser(), xs.len() as int, concat_map(xs, u16_le_fn()) + t) == Ok::<
            (Seq<u16>, Seq<u8>),
            ParseError,
        >((xs, t)),
{
    assert forall|i: int| 0 <= i < xs.len() implies inverts(
        le_u16_parser(),
        u16_le_fn(),
        #[trigger] xs[i],
    ) by {
        assert forall|u: Seq<u8>| #[trigger]
            le_u16_parser()(u16_le_fn()(xs[i]) + u) == Ok::<(u16, Seq<u8>), ParseError>(
                (xs[i], u),
            ) by {
            lemma_u16_roundtrip(xs[i], u);
        }
    }
    lemma_count_roundtrip(le_u16_parser(), u16_le_fn(), xs, t);
}

/// A string that can be written with a terminating zero byte and read back:
/// it is ASCII and holds no NUL character.
pub open spec fn nts_ok(c: Seq<char>) -> bool {
    is_ascii_chars(c) && no_nul(c)
}

/// A string that can be written to a field of `n` bytes and read back: it is
/// ASCII, holds no NUL character and has at most `n` characters.
pub open spec fn fixed_ok(c: Seq<char>, n: nat) -> bool {
    is_ascii_chars(c) && no_nul(c) && c.len() <= n
}

/// The name of the entry can be written and read back.
pub open spec fn block_info_wf(e: BlockInfoView) -> bool {
    &&& nts_ok(e.identifier)
}

/// An entry of the map is read back.
pub proof fn lemma_block_info_roundtrip(e: BlockInfoView, t: Seq<u8>)
    requires
        block_info_wf(e),
    ensures
        spec_map_block_info(block_info_bytes(e) + t) == Ok::<(BlockInfoView, Seq<u8>), ParseError>((e, t)),
{
    reveal(spec_map_block_info);
    reveal(block_info_bytes);
    let s3 = t;
    let s2 = i32_le(e.size) + s3;
    let s1 = u16_le(e.revision_number) + s2;
    let p1 = nts_bytes(e.identifier);
    let p2 = p1 + u16_le(e.revision_number);
    let p3 = p2 + i32_le(e.size);
    lemma_assoc(p2, i32_le(e.size), s3);
    lemma_assoc(p1, u16_le(e.revision_number), s2);
    lemma_nts_roundtrip(e.identifier, s1);
    lemma_u16_roundtrip(e.revision_number, s2);
    lemma_i32_roundtrip(e.size, s3);
}

/// Every string of the block can be written and read back: it is ASCII, holds no NUL character
/// and fits its field.
pub open spec fn general_parameters_wf(b: GeneralParametersBlockView) -> bool {
    &&& fixed_ok(b.language_code, 2)
    &&& nts_ok(b.cable_id)
    &&& nts_ok(b.fiber_id)
    &&& nts_ok(b.originating_location)
    &&& nts_ok(b.terminating_location)
    &&& nts_ok(b.cable_code)
    &&& fixed_ok(b.current_data_flag, 2)
    &&& nts_ok(b.operator)
    &&& nts_ok(b.comment)
}

/// A general parameters block is read back.
pub proof fn lemma_general_parameters_roundtrip(b: GeneralParametersBlockView, t: Seq<u8>)
    requires
        general_parameters_wf(b),
    ensures
        spec_general_parameters_block(general_parameters_bytes(b) + t) == Ok::<(GeneralParametersBlockView, Seq<u8>), ParseError>((b, t)),
{
    reveal(spec_general_parameters_block);
    reveal(general_parameters_bytes);
    lemma_block_ids();
    let s14 = t;
    let s13 = nts_bytes(b.comment) + s14;
    let s12 = nts_bytes(b.operator) + s13;
    let s11 = i32_le(b.user_offset_distance) + s12;
    let s10 = i32_le(b.user_offset) + s11;
    let s9 = fixed_bytes(b.current_data_flag, 2) + s10;
    let s8 = nts_bytes(b.cable_code) + s9;
    let s7 = nts_bytes(b.terminating_location) + s8;
    let s6 = nts_bytes(b.originating_location) + s7;
    let s5 = i16_le(b.nominal_wavelength) + s6;
    let s4 = i16_le(b.fiber_type) + s5;
    let s3 = nts_bytes(b.fiber_id) + s4;
    let s2 = nts_bytes(b.cable_id) + s3;
    let s1 = fixed_bytes(b.language_code, 2) + s2;
    let p1 = nts_bytes(BLOCK_ID_GENPARAMS@);
    let p2 = p1 + fixed_bytes(b.language_code, 2);
    let p3 = p2 + nts_bytes(b.cable_id);
    let p4 = p3 + nts_bytes(b.fiber_id);
    let p5 = p4 + i16_le(b.fiber_type);
    let p6 = p5 + i16_le(b.nominal_wavelength);
    let p7 = p6 + nts_bytes(b.originating_location);
    let p8 = p7 + nts_bytes(b.terminating_location);
    let p9 = p8 + nts_bytes(b.cable_code);
    let p10 = p9 + fixed_bytes(b.current_data_flag, 2);
    let p11 = p10 + i32_le(b.user_offset);
    let p12 = p11 + i32_le(b.user_offset_distance);
    let p13 = p12 + nts_bytes(b.operator);
    let p14 = p13 + nts_bytes(b.comment);
    lemma_assoc(p13, nts_bytes(b.comment), s14);
    lemma_assoc(p12, nts_bytes(b.operator), s13);
    lemma_assoc(p11, i32_le(b.user_offset_distance), s12);
    lemma_assoc(p10, i32_le(b.user_offset), s11);
    lemma_assoc(p9, fixed_bytes(b.current_data_flag, 2), s10);
    lemma_assoc(p8, nts_bytes(b.cable_code), s9);
    lemma_assoc(p7, nts_bytes(b.terminating_location), s8);
    lemma_assoc(p6, nts_bytes(b.originating_location), s7);
    lemma_assoc(p5, i16_le(b.nominal_wavelength), s6);
    lemma_assoc(p4, i16_le(b.fiber_type), s5);
    lemma_assoc(p3, nts_bytes(b.fiber_id), s4);
    lemma_assoc(p2, nts_bytes(b.cable_id), s3);
    lemma_assoc(p1, fixed_bytes(b.language_code, 2), s2);
    lemma_header_roundtrip(BLOCK_ID_GENPARAMS@, s1);
    lemma_fixed_roundtrip(b.language_code, 2, s2);
    lemma_nts_roundtrip(b.cable_id, s3);
    lemma_nts_roundtrip(b.fiber_id, s4);
    lemma_i16_roundtrip(b.fiber_type, s5);
    lemma_i16_roundtrip(b.nominal_wavelength, s6);
    lemma_nts_roundtrip(b.originating_location, s7);
    lemma_nts_roundtrip(b.terminating_location, s8);
    lemma_nts_roundtrip(b.cable_code, s9);
    lemma_fixed_roundtrip(b.current_data_flag, 2, s10);
    lemma_i32_roundtrip(b.user_offset, s11);
    lemma_i32_roundtrip(b.user_offset_distance, s12);
    lemma_nts_roundtrip(b.operator, s13);
    lemma_nts_roundtrip(b.comment, s14);
}

/// Every string of the block can be written and read back.
pub open spec fn supplier_parameters_wf(b: SupplierParametersBlockView) -> bool {
    &&& nts_ok(b.supplier_name)
    &&& nts_ok(b.otdr_mainframe_id)
    &&& nts_ok(b.otdr_mainframe_sn)
    &&& nts_ok(b.optical_module_id)
    &&& nts_ok(b.optical_module_sn)
    &&& nts_ok(b.software_revision)
    &&& nts_ok(b.other)
}

/// A supplier parameters block is read back.
pub proof fn lemma_supplier_parameters_roundtrip(b: SupplierParametersBlockView, t: Seq<u8>)
    requires
        supplier_parameters_wf(b),
    ensures
        spec_supplier_parameters_block(supplier_parameters_bytes(b) + t) == Ok::<(SupplierParametersBlockView, Seq<u8>), ParseError>((b, t)),
{
    reveal(spec_supplier_parameters_block);
    reveal(supplier_parameters_bytes);
    lemma_block_ids();
    let s8 = t;
    let s7 = nts_bytes(b.other) + s8;
    let s6 = nts_bytes(b.software_revision) + s7;
    let s5 = nts_bytes(b.optical_module_sn) + s6;
    let s4 = nts_bytes(b.optical_module_id) + s5;
    let s3 = nts_bytes(b.otdr_mainframe_sn) + s4;
    let s2 = nts_bytes(b.otdr_mainframe_id) + s3;
    let s1 = nts_bytes(b.supplier_name) + s2;
    let p1 = nts_bytes(BLOCK_ID_SUPPARAMS@);
    let p2 = p1 + nts_bytes(b.supplier_name);
    let p3 = p2 + nts_bytes(b.otdr_mainframe_id);
    let p4 = p3 + nts_bytes(b.otdr_mainframe_sn);
    let p5 = p4 + nts_bytes(b.optical_module_id);
    let p6 = p5 + nts_bytes(b.optical_module_sn);
    let p7 = p6 + nts_bytes(b.software_revision);
    let p8 = p7 + nts_bytes(b.other);
    lemma_assoc(p7, nts_bytes(b.other), s8);
    lemma_assoc(p6, nts_bytes(b.software_revision), s7);
    lemma_assoc(p5, nts_bytes(b.optical_module_sn), s6);
    lemma_assoc(p4, nts_bytes(b.optical_module_id), s5);
    lemma_assoc(p3, nts_bytes(b.otdr_mainframe_sn), s4);
    lemma_assoc(p2, nts_bytes(b.otdr_mainframe_id), s3);
    lemma_assoc(p1, nts_bytes(b.supplier_name), s2);
    lemma_header_roundtrip(BLOCK_ID_SUPPARAMS@, s1);
    lemma_nts_roundtrip(b.supplier_name, s2);
    lemma_nts_roundtrip(b.otdr_mainframe_id, s3);
    lemma_nts_roundtrip(b.otdr_mainframe_sn, s4);
    lemma_nts_roundtrip(b.optical_module_id, s5);
    lemma_nts_roundtrip(b.optical_module_sn, s6);
    lemma_nts_roundtrip(b.software_revision, s7);
    lemma_nts_roundtrip(b.other, s8);
}

/// Every string of the block can be written and read back, and each list has as many entries as
/// the block declares.
pub open spec fn fixed_parameters_wf(b: FixedParametersBlockView) -> bool {
    &&& fixed_ok(b.units_of_distance, 2)
    &&& b.pulse_widths_used.len() == b.total_n_pulse_widths_used
    &&& b.data_spacing.len() == b.total_n_pulse_widths_used
    &&& b.n_data_points_for_pulse_widths_used.len() == b.total_n_pulse_widths_used
    &&& fixed_ok(b.trace_type, 2)
}

/// A fixed parameters block is read back.
pub proof fn lemma_fixed_parameters_roundtrip(b: FixedParametersBlockView, t: Seq<u8>)
    requires
        fixed_parameters_wf(b),
    ensures
        spec_fixed_parameters_block(fixed_parameters_bytes(b) + t) == Ok::<(FixedParametersBlockView, Seq<u8>), ParseError>((b, t)),
{
    reveal(spec_fixed_parameters_block);
    reveal(fixed_parameters_bytes);
    lemma_block_ids();
    let s28 = t;
    let s27 = i32_le(b.window_coordinate_4) + s28;
    let s26 = i32_le(b.window_coordinate_3) + s27;
    let s25 = i32_le(b.window_coordinate_2) + s26;
    let s24 = i32_le(b.window_coordinate_1) + s25;
    let s23 = fixed_bytes(b.trace_type, 2) + s24;
    let s22 = u16_le(b.end_of_fibre_threshold) + s23;
    let s21 = u16_le(b.reflectance_threshold) + s22;
    let s20 = u16_le(b.loss_threshold) + s21;
    let s19 = u16_le(b.power_offset_first_point) + s20;
    let s18 = i16_le(b.noise_floor_scale_factor) + s19;
    let s17 = u16_le(b.noise_floor_level) + s18;
    let s16 = i32_le(b.front_panel_offset) + s17;
    let s15 = i32_le(b.acquisition_range_distance) + s16;
    let s14 = i32_le(b.acquisition_range) + s15;
    let s13 = u16_le(b.averaging_time) + s14;
    let s12 = i32_le(b.number_of_averages) + s13;
    let s11 = i16_le(b.backscatter_coefficient) + s12;
    let s10 = i32_le(b.group_index) + s11;
    let s9 = concat_map(b.n_data_points_for_pulse_widths_used, i32_le_fn()) + s10;
    let s8 = concat_map(b.data_spacing, i32_le_fn()) + s9;
    let s7 = concat_map(b.pulse_widths_used, i16_le_fn()) + s8;
    let s6 = i16_le(b.total_n_pulse_widths_used) + s7;
    let s5 = i32_le(b.acquisition_offset_distance) + s6;
    let s4 = i32_le(b.acquisition_offset) + s5;
    let s3 = i16_le(b.actual_wavelength) + s4;
    let s2 = fixed_bytes(b.units_of_distance, 2) + s3;
    let s1 = u32_le(b.date_time_stamp) + s2;
    let p1 = nts_bytes(BLOCK_ID_FXDPARAMS@);
    let p2 = p1 + u32_le(b.date_time_stamp);
    let p3 = p2 + fixed_bytes(b.units_of_distance, 2);
    let p4 = p3 + i16_le(b.actual_wavelength);
    let p5 = p4 + i32_le(b.acquisition_offset);
    let p6 = p5 + i32_le(b.acquisition_offset_distance);
    let p7 = p6 + i16_le(b.total_n_pulse_widths_used);
    let p8 = p7 + concat_map(b.pulse_widths_used, i16_le_fn());
    let p9 = p8 + concat_map(b.data_spacing, i32_le_fn());
    let p10 = p9 + concat_map(b.n_data_points_for_pulse_widths_used, i32_le_fn());
    let p11 = p10 + i32_le(b.group_index);
    let p12 = p11 + i16_le(b.backscatter_coefficient);
    let p13 = p12 + i32_le(b.number_of_averages);
    let p14 = p13 + u16_le(b.averaging_time);
    let p15 = p14 + i32_le(b.acquisition_range);
    let p16 = p15 + i32_le(b.acquisition_range_distance);
    let p17 = p16 + i32_le(b.front_panel_offset);
    let p18 = p17 + u16_le(b.noise_floor_level);
    let p19 = p18 + i16_le(b.noise_floor_scale_factor);
    let p20 = p19 + u16_le(b.power_offset_first_point);
    let p21 = p20 + u16_le(b.loss_threshold);
    let p22 = p21 + u16_le(b.reflectance_threshold);
    let p23 = p22 + u16_le(b.end_of_fibre_threshold);
    let p24 = p23 + fixed_bytes(b.trace_type, 2);
    let p25 = p24 + i32_le(b.window_coordinate_1);
    let p26 = p25 + i32_le(b.window_coordinate_2);
    let p27 = p26 + i32_le(b.window_coordinate_3);
    let p28 = p27 + i32_le(b.window_coordinate_4);
    lemma_assoc(p27, i32_le(b.window_coordinate_4), s28);
    lemma_assoc(p26, i32_le(b.window_coordinate_3), s27);
    lemma_assoc(p25, i32_le(b.window_coordinate_2), s26);
    lemma_assoc(p24, i32_le(b.window_coordinate_1), s25);
    lemma_assoc(p23, fixed_bytes(b.trace_type, 2), s24);
    lemma_assoc(p22, u16_le(b.end_of_fibre_threshold), s23);
    lemma_assoc(p21, u16_le(b.reflectance_threshold), s22);
    lemma_assoc(p20, u16_le(b.loss_threshold), s21);
    lemma_assoc(p19, u16_le(b.power_offset_first_point), s20);
    lemma_assoc(p18, i16_le(b.noise_floor_scale_factor), s19);
    lemma_assoc(p17, u16_le(b.noise_floor_level), s18);
    lemma_assoc(p16, i32_le(b.front_panel_offset), s17);
    lemma_assoc(p15, i32_le(b.acquisition_range_distance), s16);
    lemma_assoc(p14, i32_le(b.acquisition_range), s15);
    lemma_assoc(p13, u16_le(b.averaging_time), s14);
    lemma_assoc(p12, i32_le(b.number_of_averages), s13);
    lemma_assoc(p11, i16_le(b.backscatter_coefficient), s12);
    lemma_assoc(p10, i32_le(b.group_index), s11);
    lemma_assoc(p9, concat_map(b.n_data_points_for_pulse_widths_used, i32_le_fn()), s10);
    lemma_assoc(p8, concat_map(b.data_spacing, i32_le_fn()), s9);
    lemma_assoc(p7, concat_map(b.pulse_widths_used, i16_le_fn()), s8);
    lemma_assoc(p6, i16_le(b.total_n_pulse_widths_used), s7);
    lemma_assoc(p5, i32_le(b.acquisition_offset_distance), s6);
    lemma_assoc(p4, i32_le(b.acquisition_offset), s5);
    lemma_assoc(p3, i16_le(b.actual_wavelength), s4);
    lemma_assoc(p2, fixed_bytes(b.units_of_distance, 2), s3);
    lemma_assoc(p1, u32_le(b.date_time_stamp), s2);
    lemma_header_roundtrip(BLOCK_ID_FXDPARAMS@, s1);
    lemma_u32_roundtrip(b.date_time_stamp, s2);
    lemma_fixed_roundtrip(b.units_of_distance, 2, s3);
    lemma_i16_roundtrip(b.actual_wavelength, s4);
    lemma_i32_roundtrip(b.acquisition_offset, s5);
    lemma_i32_roundtrip(b.acquisition_offset_distance, s6);
    lemma_i16_roundtrip(b.total_n_pulse_widths_used, s7);
    lemma_i16s_roundtrip(b.pulse_widths_used, s8);
    lemma_i32s_roundtrip(b.data_spacing, s9);
    lemma_i32s_roundtrip(b.n_data_points_for_pulse_widths_used, s10);
    lemma_i32_roundtrip(b.group_index, s11);
    lemma_i16_roundtrip(b.backscatter_coefficient, s12);
    lemma_i32_roundtrip(b.number_of_averages, s13);
    lemma_u16_roundtrip(b.averaging_time, s14);
    lemma_i32_roundtrip(b.acquisition_range, s15);
    lemma_i32_roundtrip(b.acquisition_range_distance, s16);
    lemma_i32_roundtrip(b.front_panel_offset, s17);
    lemma_u16_roundtrip(b.noise_floor_level, s18);
    lemma_i16_roundtrip(b.noise_floor_scale_factor, s19);
    lemma_u16_roundtrip(b.power_offset_first_point, s20);
    lemma_u16_roundtrip(b.loss_threshold, s21);
    lemma_u16_roundtrip(b.reflectance_threshold, s22);
    lemma_u16_roundtrip(b.end_of_fibre_threshold, s23);
    lemma_fixed_roundtrip(b.trace_type, 2, s24);
    lemma_i32_roundtrip(b.window_coordinate_1, s25);
    lemma_i32_roundtrip(b.window_coordinate_2, s26);
    lemma_i32_roundtrip(b.window_coordinate_3, s27);
    lemma_i32_roundtrip(b.window_coordinate_4, s28);
}

/// Every string of the event can be written and read back.
pub open spec fn key_event_wf(e: KeyEventView) -> bool {
    &&& fixed_ok(e.event_code, 6)
    &&& fixed_ok(e.loss_measurement_technique, 2)
    &&& nts_ok(e.comment)
}

/// A key event other than the last is read back.
pub proof fn lemma_key_event_roundtrip(e: KeyEventView, t: Seq<u8>)
    requires
        key_event_wf(e),
    ensures
        spec_key_event(key_event_bytes(e) + t) == Ok::<(KeyEventView, Seq<u8>), ParseError>((e, t)),
{
    reveal(spec_key_event);
    reveal(key_event_bytes);
    let s13 = t;
    let s12 = nts_bytes(e.comment) + s13;
    let s11 = i32_le(e.marker_location_5) + s12;
    let s10 = i32_le(e.marker_location_4) + s11;
    let s9 = i32_le(e.marker_location_3) + s10;
    let s8 = i32_le(e.marker_location_2) + s9;
    let s7 = i32_le(e.marker_location_1) + s8;
    let s6 = fixed_bytes(e.loss_measurement_technique, 2) + s7;
    let s5 = fixed_bytes(e.event_code, 6) + s6;
    let s4 = i32_le(e.event_reflectance) + s5;
    let s3 = i16_le(e.event_loss) + s4;
    let s2 = i16_le(e.attenuation_coefficient_lead_in_fiber) + s3;
    let s1 = i32_le(e.event_propogation_time) + s2;
    let p1 = i16_le(e.event_number);
    let p2 = p1 + i32_le(e.event_propogation_time);
    let p3 = p2 + i16_le(e.attenuation_coefficient_lead_in_fiber);
    let p4 = p3 + i16_le(e.event_loss);
    let p5 = p4 + i32_le(e.event_reflectance);
    let p6 = p5 + fixed_bytes(e.event_code, 6);
    let p7 = p6 + fixed_bytes(e.loss_measurement_technique, 2);
    let p8 = p7 + i32_le(e.marker_location_1);
    let p9 = p8 + i32_le(e.marker_location_2);
    let p10 = p9 + i32_le(e.marker_location_3);
    let p11 = p10 + i32_le(e.marker_location_4);
    let p12 = p11 + i32_le(e.marker_location_5);
    let p13 = p12 + nts_bytes(e.comment);
    lemma_assoc(p12, nts_bytes(e.comment), s13);
    lemma_assoc(p11, i32_le(e.marker_location_5), s12);
    lemma_assoc(p10, i32_le(e.marker_location_4), s11);
    lemma_assoc(p9, i32_le(e.marker_location_3), s10);
    lemma_assoc(p8, i32_le(e.marker_location_2), s9);
    lemma_assoc(p7, i32_le(e.marker_location_1), s8);
    lemma_assoc(p6, fixed_bytes(e.loss_measurement_technique, 2), s7);
    lemma_assoc(p5, fixed_bytes(e.event_code, 6), s6);
    lemma_assoc(p4, i32_le(e.event_reflectance), s5);
    lemma_assoc(p3, i16_le(e.event_loss), s4);
    lemma_assoc(p2, i16_le(e.attenuation_coefficient_lead_in_fiber), s3);
    lemma_assoc(p1, i32_le(e.event_propogation_time), s2);
    lemma_i16_roundtrip(e.event_number, s1);
    lemma_i32_roundtrip(e.event_propogation_time, s2);
    lemma_i16_roundtrip(e.attenuation_coefficient_lead_in_fiber, s3);
    lemma_i16_roundtrip(e.event_loss, s4);
    lemma_i32_roundtrip(e.event_reflectance, s5);
    lemma_fixed_roundtrip(e.event_code, 6, s6);
    lemma_fixed_roundtrip(e.loss_measurement_technique, 2, s7);
    lemma_i32_roundtrip(e.marker_location_1, s8);
    lemma_i32_roundtrip(e.marker_location_2, s9);
    lemma_i32_roundtrip(e.marker_location_3, s10);
    lemma_i32_roundtrip(e.marker_location_4, s11);
    lemma_i32_roundtrip(e.marker_location_5, s12);
    lemma_nts_roundtrip(e.comment, s13);
}

/// The group holds as many samples as it declares.
pub open spec fn scale_factor_wf(g: DataPointsAtScaleFactorView) -> bool {
    &&& g.data.len() == g.n_points
}

/// The samples of one scale factor are read back.
pub proof fn lemma_scale_factor_roundtrip(g: DataPointsAtScaleFactorView, t: Seq<u8>)
    requires
        scale_factor_wf(g),
    ensures
        spec_data_points_at_scale_factor(scale_factor_bytes(g) + t) == Ok::<(DataPointsAtScaleFactorView, Seq<u8>), ParseError>((g, t)),
{
    reveal(spec_data_points_at_scale_factor);
    reveal(scale_factor_bytes);
    let s3 = t;
    let s2 = concat_map(g.data, u16_le_fn()) + s3;
    let s1 = i16_le(g.scale_factor) + s2;
    let p1 = i32_le(g.n_points);
    let p2 = p1 + i16_le(g.scale_factor);
    let p3 = p2 + concat_map(g.data, u16_le_fn());
    lemma_assoc(p2, concat_map(g.data, u16_le_fn()), s3);
    lemma_assoc(p1, i16_le(g.scale_factor), s2);
    lemma_i32_roundtrip(g.n_points, s1);
    lemma_i16_roundtrip(g.scale_factor, s2);
    lemma_u16s_roundtrip(g.data, s3);
}
/// Every string of the last key event can be written and read back.
pub open spec fn last_key_event_wf(e: LastKeyEventView) -> bool {
    key_event_wf(last_key_event_common(e))
}

/// The last key event is read back.
pub proof fn lemma_last_key_event_roundtrip(e: LastKeyEventView, t: Seq<u8>)
    requires
        last_key_event_wf(e),
    ensures
        spec_last_key_event(last_key_event_bytes(e) + t) == Ok::<
            (LastKeyEventView, Seq<u8>),
            ParseError,
        >((e, t)),
{
    reveal(spec_last_key_event);
    reveal(last_key_event_bytes);
    let common = last_key_event_common(e);
    let s7 = t;
    let s6 = i32_le(e.optical_return_loss_marker_position_2) + s7;
    let s5 = i32_le(e.optical_return_loss_marker_position_1) + s6;
    let s4 = u16_le(e.optical_return_loss) + s5;
    let s3 = i32_le(e.end_to_end_marker_position_2) + s4;
    let s2 = i32_le(e.end_to_end_marker_position_1) + s3;
    let s1 = i32_le(e.end_to_end_loss) + s2;
    let p1 = key_event_bytes(common);
    let p2 = p1 + i32_le(e.end_to_end_loss);
    let p3 = p2 + i32_le(e.end_to_end_marker_position_1);
    let p4 = p3 + i32_le(e.end_to_end_marker_position_2);
    let p5 = p4 + u16_le(e.optical_return_loss);
    let p6 = p5 + i32_le(e.optical_return_loss_marker_position_1);
    lemma_assoc(p6, i32_le(e.optical_return_loss_marker_position_2), s7);
    lemma_assoc(p5, i32_le(e.optical_return_loss_marker_position_1), s6);
    lemma_assoc(p4, u16_le(e.optical_return_loss), s5);
    lemma_assoc(p3, i32_le(e.end_to_end_marker_position_2), s4);
    lemma_assoc(p2, i32_le(e.end_to_end_marker_position_1), s3);
    lemma_assoc(p1, i32_le(e.end_to_end_loss), s2);
    lemma_key_event_roundtrip(common, s1);
    lemma_i32_roundtrip(e.end_to_end_loss, s2);
    lemma_i32_roundtrip(e.end_to_end_marker_position_1, s3);
    lemma_i32_roundtrip(e.end_to_end_marker_position_2, s4);
    lemma_u16_roundtrip(e.optical_return_loss, s5);
    lemma_i32_roundtrip(e.optical_return_loss_marker_position_1, s6);
    lemma_i32_roundtrip(e.optical_return_loss_marker_position_2, s7);
}

/// Every record of the list meets `wf`.
pub open spec fn all_wf<T>(xs: Seq<T>, wf: spec_fn(T) -> bool) -> bool {
    forall|i: int| 0 <= i < xs.len() ==> wf(#[trigger] xs[i])
}

/// The key events block declares as many events as it holds, the last one
/// among them, and every string in it can be written and read back.
pub open spec fn key_events_wf(b: KeyEventsView) -> bool {
    &&& b.number_of_key_events == b.key_events.len() + 1
    &&& all_wf(b.key_events, |e: KeyEventView| key_event_wf(e))
    &&& last_key_event_wf(b.last_key_event)
}

/// A key events block is read back.
pub proof fn lemma_key_events_roundtrip(b: KeyEventsView, t: Seq<u8>)
    requires
        key_events_wf(b),
    ensures
        spec_key_events_block(key_events_bytes(b) + t) == Ok::<(KeyEventsView, Seq<u8>), ParseError>(
            (b, t),
        ),
{
    reveal(spec_key_events_block);
    reveal(key_events_bytes);
    lemma_block_ids();
    let e1 = nts_bytes(BLOCK_ID_KEYEVENTS@);
    let e2 = i16_le(b.number_of_key_events);
    let e3 = concat_map(b.key_events, key_event_bytes_fn());
    let e4 = last_key_event_bytes(b.last_key_event);
    let s4 = t;
    let s3 = e4 + s4;
    let s2 = e3 + s3;
    let s1 = e2 + s2;
    lemma_assoc(e1 + e2 + e3, e4, s4);
    lemma_assoc(e1 + e2, e3, s3);
    lemma_assoc(e1, e2, s2);
    lemma_header_roundtrip(BLOCK_ID_KEYEVENTS@, s1);
    lemma_i16_roundtrip(b.number_of_key_events, s2);
    assert forall|i: int| 0 <= i < b.key_events.len() implies inverts(
        key_event_parser(),
        key_event_bytes_fn(),
        #[trigger] b.key_events[i],
    ) by {
        let e = b.key_events[i];
        assert(key_event_wf(e));
        assert forall|u: Seq<u8>| #[trigger]
            key_event_parser()(key_event_bytes_fn()(e) + u) == Ok::<
                (KeyEventView, Seq<u8>),
                ParseError,
            >((e, u)) by {
            lemma_key_event_roundtrip(e, u);
        }
    }
    lemma_count_roundtrip(key_event_parser(), key_event_bytes_fn(), b.key_events, s3);
    lemma_last_key_event_roundtrip(b.last_key_event, s4);
}

/// The data points block declares as many groups as it holds, and each
/// group as many samples as it holds.
pub open spec fn data_points_wf(b: DataPointsView) -> bool {
    &&& b.total_number_scale_factors_used == b.scale_factors.len()
    &&& all_wf(b.scale_factors, |g: DataPointsAtScaleFactorView| scale_factor_wf(g))
}

/// A data points block is read back.
pub proof fn lemma_data_points_roundtrip(b: DataPointsView, t: Seq<u8>)
    requires
        data_points_wf(b),
    ensures
        spec_data_points_block(data_points_bytes(b) + t) == Ok::<
            (DataPointsView, Seq<u8>),
            ParseError,
        >((b, t)),
{
    reveal(spec_data_points_block);
    reveal(data_points_bytes);
    lemma_block_ids();
    let e1 = nts_bytes(BLOCK_ID_DATAPTS@);
    let e2 = i32_le(b.number_of_data_points);
    let e3 = i16_le(b.total_number_scale_factors_used);
    let e4 = concat_map(b.scale_factors, scale_factor_bytes_fn());
    let s4 = t;
    let s3 = e4 + s4;
    let s2 = e3 + s3;
    let s1 = e2 + s2;
    lemma_assoc(e1 + e2 + e3, e4, s4);
    lemma_assoc(e1 + e2, e3, s3);
    lemma_assoc(e1, e2, s2);
    lemma_header_roundtrip(BLOCK_ID_DATAPTS@, s1);
    lemma_i32_roundtrip(b.number_of_data_points, s2);
    lemma_i16_roundtrip(b.total_number_scale_factors_used, s3);
    assert forall|i: int| 0 <= i < b.scale_factors.len() implies inverts(
        data_points_at_scale_factor_parser(),
        scale_factor_bytes_fn(),
        #[trigger] b.scale_factors[i],
    ) by {
        let g = b.scale_factors[i];
        assert(scale_factor_wf(g));
        assert forall|u: Seq<u8>| #[trigger]
            data_points_at_scale_factor_parser()(scale_factor_bytes_fn()(g) + u) == Ok::<
                (DataPointsAtScaleFactorView, Seq<u8>),
                ParseError,
            >((g, u)) by {
            lemma_scale_factor_roundtrip(g, u);
        }
    }
    lemma_count_roundtrip(
        data_points_at_scale_factor_parser(),
        scale_factor_bytes_fn(),
        b.scale_factors,
        s4,
    );
}

/// The map counts its entries and itself, and the name of every entry can be
/// written and read back.
pub open spec fn map_block_wf(m: MapBlockView) -> bool {
    &&& m.block_count == m.block_info.len() + 1
    &&& all_wf(m.block_info, |e: BlockInfoView| block_info_wf(e))
}

/// A map block is read back.
pub proof fn lemma_map_block_roundtrip(m: MapBlockView, t: Seq<u8>)
    requires
        map_block_wf(m),
    ensures
        spec_map_block(map_block_bytes(m) + t) == Ok::<(MapBlockView, Seq<u8>), ParseError>((m, t)),
{
    reveal(spec_map_block);
    reveal(map_block_bytes);
    lemma_block_ids();
    let e1 = nts_bytes(BLOCK_ID_MAP@);
    let e2 = u16_le(m.revision_number);
    let e3 = i32_le(m.block_size);
    let e4 = i16_le(m.block_count);
    let e5 = concat_map(m.block_info, block_info_bytes_fn());
    let s5 = t;
    let s4 = e5 + s5;
    let s3 = e4 + s4;
    let s2 = e3 + s3;
    let s1 = e2 + s2;
    lemma_assoc(e1 + e2 + e3 + e4, e5, s5);
    lemma_assoc(e1 + e2 + e3, e4, s4);
    lemma_assoc(e1 + e2, e3, s3);
    lemma_assoc(e1, e2, s2);
    lemma_header_roundtrip(BLOCK_ID_MAP@, s1);
    lemma_u16_roundtrip(m.revision_number, s2);
    lemma_i32_roundtrip(m.block_size, s3);
    lemma_i16_roundtrip(m.block_count, s4);
    assert forall|i: int| 0 <= i < m.block_info.len() implies inverts(
        map_block_info_parser(),
        block_info_bytes_fn(),
        #[trigger] m.block_info[i],
    ) by {
        let e = m.block_info[i];
        assert(block_info_wf(e));
        assert forall|u: Seq<u8>| #[trigger]
            map_block_info_parser()(block_info_bytes_fn()(e) + u) == Ok::<
                (BlockInfoView, Seq<u8>),
                ParseError,
            >((e, u)) by {
            lemma_block_info_roundtrip(e, u);
        }
    }
    lemma_count_roundtrip(map_block_info_parser(), block_info_bytes_fn(), m.block_info, s5);
}

/// A checksum block is read back: the stored value is the written one, read
/// as a signed integer.
pub proof fn lemma_checksum_block_roundtrip(value: u16, t: Seq<u8>)
    ensures
        spec_checksum_block(checksum_block_bytes(value) + t) == Ok::<
            (ChecksumBlockView, Seq<u8>),
            ParseError,
        >((ChecksumBlockView { checksum: signed16(value as int) as i16 }, t)),
        pattern16(signed16(value as int)) == value,
{
    reveal(spec_checksum_block);
    lemma_block_ids();
    let s1 = u16_le(value) + t;
    lemma_assoc(nts_bytes(BLOCK_ID_CHECKSUM@), u16_le(value), t);
    lemma_header_roundtrip(BLOCK_ID_CHECKSUM@, s1);
    lemma_u16_roundtrip(value, t);
}

/// A proprietary block is read back from its bytes, where its name is ASCII
/// and holds no NUL character.
pub proof fn lemma_proprietary_roundtrip(b: ProprietaryBlockView)
    requires
        nts_ok(b.header),
    ensures
        spec_proprietary_block(proprietary_bytes(b)) == Ok::<
            (ProprietaryBlockView, Seq<u8>),
            ParseError,
        >((b, Seq::empty())),
{
    reveal(spec_proprietary_block);
    lemma_nts_roundtrip(b.header, b.data);
}

/// A string that was read is ASCII, holds no NUL character and, from a
/// fixed field, is no longer than the field.
pub proof fn lemma_parsed_strings()
    ensures
        forall|s: Seq<u8>| (#[trigger] spec_null_terminated_str(s)) is Ok ==> nts_ok(
            spec_null_terminated_str(s)->Ok_0.0,
        ),
        forall|s: Seq<u8>, n: nat| (#[trigger] spec_fixed_length_str(s, n)) is Ok ==> fixed_ok(
            spec_fixed_length_str(s, n)->Ok_0.0,
            n,
        ),
{
    assert forall|s: Seq<u8>| (#[trigger] spec_get_ascii_str(s)) is Ok implies nts_ok(
        spec_get_ascii_str(s)->Ok_0,
    ) && spec_get_ascii_str(s)->Ok_0.len() <= s.len() by {
        lemma_first_nul_bounds(s);
        let kept = s.take(first_nul(s));
        let c = ascii_chars(kept);
        assert forall|i: int| 0 <= i < c.len() implies '\0' <= #[trigger] c[i] <= '\u{7f}' && c[i]
            != '\0' by {
            assert(kept[i] < 128);
            assert(kept[i] == s[i]);
            assert(s[i] != 0);
        }
    }
    assert forall|s: Seq<u8>| (#[trigger] spec_null_terminated_str(s)) is Ok implies nts_ok(
        spec_null_terminated_str(s)->Ok_0.0,
    ) by {
        let chunk = spec_null_terminated_chunk(s)->Ok_0.0;
        assert(spec_get_ascii_str(chunk) is Ok);
    }
    assert forall|s: Seq<u8>, n: nat| (#[trigger] spec_fixed_length_str(s, n)) is Ok implies fixed_ok(
        spec_fixed_length_str(s, n)->Ok_0.0,
        n,
    ) by {
        let field = spec_take(s, n)->Ok_0.0;
        assert(spec_get_ascii_str(field) is Ok);
    }
}

/// A list that was read has as many values as were asked for, and each of
/// them has what every value that `f` reads has.
pub proof fn lemma_counted<T>(
    f: spec_fn(Seq<u8>) -> Parsed<T>,
    n: int,
    s: Seq<u8>,
    wf: spec_fn(T) -> bool,
)
    requires
        forall|u: Seq<u8>| (#[trigger] f(u)) is Ok ==> wf(f(u)->Ok_0.0),
        spec_counted(f, n, s) is Ok,
    ensures
        spec_counted(f, n, s)->Ok_0.0.len() == n,
        all_wf(spec_counted(f, n, s)->Ok_0.0, wf),
    decreases n,
{
    if n > 0 {
        let (x, rest) = f(s)->Ok_0;
        assert(f(s) is Ok);
        assert(spec_count(f, (n - 1) as nat, rest) is Ok);
        lemma_counted(f, n - 1, rest, wf);
        let xs = spec_count(f, (n - 1) as nat, rest)->Ok_0.0;
        let all = seq![x] + xs;
        assert forall|i: int| 0 <= i < all.len() implies wf(#[trigger] all[i]) by {
            if i > 0 {
                assert(all[i] == xs[i - 1]);
            }
        }
    }
}

/// Anything at all: the property that every value has.
pub open spec fn anything<T>() -> spec_fn(T) -> bool {
    |x: T| true
}

/// An entry of the map that was read has a name that can be written and read back.
pub proof fn lemma_block_info_parsed(s: Seq<u8>)
    ensures
        spec_map_block_info(s) matches Ok((b, _)) ==> block_info_wf(b),
{
    reveal(spec_map_block_info);
    lemma_parsed_strings();
}

/// A general parameters block that was read can be written and read back.
pub proof fn lemma_general_parameters_parsed(s: Seq<u8>)
    ensures
        spec_general_parameters_block(s) matches Ok((b, _)) ==> general_parameters_wf(b),
{
    reveal(spec_general_parameters_block);
    lemma_parsed_strings();
}

/// A supplier parameters block that was read can be written and read back.
pub proof fn lemma_supplier_parameters_parsed(s: Seq<u8>)
    ensures
        spec_supplier_parameters_block(s) matches Ok((b, _)) ==> supplier_parameters_wf(b),
{
    reveal(spec_supplier_parameters_block);
    lemma_parsed_strings();
}

/// A fixed parameters block that was read can be written and read back.
pub proof fn lemma_fixed_parameters_parsed(s: Seq<u8>)
    ensures
        spec_fixed_parameters_block(s) matches Ok((b, _)) ==> fixed_parameters_wf(b),
{
    reveal(spec_fixed_parameters_block);
    lemma_parsed_strings();
    assert forall|n: int, u: Seq<u8>| (#[trigger] spec_counted(le_i16_parser(), n, u)) is Ok implies
        spec_counted(le_i16_parser(), n, u)->Ok_0.0.len() == n by {
        lemma_counted(le_i16_parser(), n, u, anything::<i16>());
    }
    assert forall|n: int, u: Seq<u8>| (#[trigger] spec_counted(le_i32_parser(), n, u)) is Ok implies
        spec_counted(le_i32_parser(), n, u)->Ok_0.0.len() == n by {
        lemma_counted(le_i32_parser(), n, u, anything::<i32>());
    }
}

/// A key event that was read can be written and read back.
pub proof fn lemma_key_event_parsed(s: Seq<u8>)
    ensures
        spec_key_event(s) matches Ok((b, _)) ==> key_event_wf(b),
{
    reveal(spec_key_event);
    lemma_parsed_strings();
}

/// A group of samples that was read holds as many samples as it declares.
pub proof fn lemma_scale_factor_parsed(s: Seq<u8>)
    ensures
        spec_data_points_at_scale_factor(s) matches Ok((b, _)) ==> scale_factor_wf(b),
{
    reveal(spec_data_points_at_scale_factor);
    lemma_parsed_strings();
    assert forall|n: int, u: Seq<u8>| (#[trigger] spec_counted(le_u16_parser(), n, u)) is Ok implies
        spec_counted(le_u16_parser(), n, u)->Ok_0.0.len() == n by {
        lemma_counted(le_u16_parser(), n, u, anything::<u16>());
    }
}
/// A last key event that was read can be written and read back.
pub proof fn lemma_last_key_event_parsed(s: Seq<u8>)
    ensures
        spec_last_key_event(s) matches Ok((e, _)) ==> last_key_event_wf(e),
{
    reveal(spec_last_key_event);
    lemma_key_event_parsed(s);
    if spec_last_key_event(s) is Ok {
        let common = spec_key_event(s)->Ok_0.0;
        let e = spec_last_key_event(s)->Ok_0.0;
        assert(last_key_event_common(e) == common);
    }
}

/// A key events block that was read can be written and read back.
pub proof fn lemma_key_events_parsed(s: Seq<u8>)
    ensures
        spec_key_events_block(s) matches Ok((b, _)) ==> key_events_wf(b),
{
    reveal(spec_key_events_block);
    if spec_key_events_block(s) is Ok {
        let s1 = spec_block_header(s, BLOCK_ID_KEYEVENTS@)->Ok_0.1;
        let (n, s2) = spec_le_i16(s1)->Ok_0;
        let wf = |e: KeyEventView| key_event_wf(e);
        assert forall|u: Seq<u8>| (#[trigger] key_event_parser()(u)) is Ok implies wf(
            key_event_parser()(u)->Ok_0.0,
        ) by {
            lemma_key_event_parsed(u);
        }
        lemma_counted(key_event_parser(), n - 1, s2, wf);
        let s3 = spec_counted(key_event_parser(), n - 1, s2)->Ok_0.1;
        lemma_last_key_event_parsed(s3);
    }
}

/// A data points block that was read can be written and read back.
pub proof fn lemma_data_points_parsed(s: Seq<u8>)
    ensures
        spec_data_points_block(s) matches Ok((b, _)) ==> data_points_wf(b),
{
    reveal(spec_data_points_block);
    if spec_data_points_block(s) is Ok {
        let s1 = spec_block_header(s, BLOCK_ID_DATAPTS@)->Ok_0.1;
        let s2 = spec_le_i32(s1)->Ok_0.1;
        let (n, s3) = spec_le_i16(s2)->Ok_0;
        let wf = |g: DataPointsAtScaleFactorView| scale_factor_wf(g);
        assert forall|u: Seq<u8>| (#[trigger] data_points_at_scale_factor_parser()(u)) is Ok implies wf(
            data_points_at_scale_factor_parser()(u)->Ok_0.0,
        ) by {
            lemma_scale_factor_parsed(u);
        }
        lemma_counted(data_points_at_scale_factor_parser(), n as int, s3, wf);
    }
}

/// A map block that was read can be written and read back.
pub proof fn lemma_map_block_parsed(s: Seq<u8>)
    ensures
        spec_map_block(s) matches Ok((m, _)) ==> map_block_wf(m),
{
    reveal(spec_map_block);
    if spec_map_block(s) is Ok {
        let s1 = spec_block_header(s, BLOCK_ID_MAP@)->Ok_0.1;
        let s2 = spec_le_u16(s1)->Ok_0.1;
        let s3 = spec_le_i32(s2)->Ok_0.1;
        let (n, s4) = spec_le_i16(s3)->Ok_0;
        let wf = |e: BlockInfoView| block_info_wf(e);
        assert forall|u: Seq<u8>| (#[trigger] map_block_info_parser()(u)) is Ok implies wf(
            map_block_info_parser()(u)->Ok_0.0,
        ) by {
            lemma_block_info_parsed(u);
        }
        lemma_counted(map_block_info_parser(), n - 1, s4, wf);
    }
}

/// The name of a proprietary block that was read can be written and read back.
pub proof fn lemma_proprietary_parsed(s: Seq<u8>)
    ensures
        spec_proprietary_block(s) matches Ok((b, _)) ==> nts_ok(b.header),
{
    reveal(spec_proprietary_block);
    lemma_parsed_strings();
}

} // verus!
