//! Encoding: the primitive fields, each kind of block, and a whole file.
//!
//! For each block one function says which bytes stand for it and another
//! which of its strings, if any, cannot be written. The executable functions
//! return exactly that.
use crate::crc16::{checksums, crc16_ibm_3740};
use crate::parser::{
    block_position, find_block, BLOCK_ID_CHECKSUM, BLOCK_ID_DATAPTS, BLOCK_ID_FXDPARAMS,
    BLOCK_ID_GENPARAMS, BLOCK_ID_KEYEVENTS, BLOCK_ID_LNKPARAMS, BLOCK_ID_MAP, BLOCK_ID_SUPPARAMS,
};
use crate::types::{
    BlockInfo, BlockInfoView, DataPointsAtScaleFactorView, DataPointsView, FixedParametersBlockView,
    GeneralParametersBlockView, KeyEvent, KeyEventView, KeyEventsView, LastKeyEventView, MapBlock,
    MapBlockView, ProprietaryBlock, ProprietaryBlockView, SORFile, SORFileView,
    SupplierParametersBlockView,
};
use crate::wire::{i16_le, i32_le, lemma_ascii_chars_utf8, no_nul, str_bytes, u16_le, u32_le, zeros};
use vstd::prelude::*;
use vstd::string::*;
use vstd::utf8::*;

verus! {

/// Why a file could not be written.
#[derive(Debug, PartialEq, Eq)]
pub enum WriteError {
    /// The file lacks a block that the format demands. Holds the block's name.
    MissingMandatoryBlock(String),
    /// The file's map has no entry from which to take the revision of a
    /// block that is to be written. Holds the block's name.
    MissingBlockInfo(String),
    /// A string holds a character that does not fit in one byte.
    Utf8EncodingError,
    /// A string is longer than the field that is to hold it.
    FixedLengthStringMismatchError,
}

/// What a [`WriteError`] holds.
pub enum WriteErrorView {
    MissingMandatoryBlock(Seq<char>),
    MissingBlockInfo(Seq<char>),
    Utf8EncodingError,
    FixedLengthStringMismatchError,
}

impl View for WriteError {
    type V = WriteErrorView;

    open spec fn view(&self) -> WriteErrorView {
        match self {
            WriteError::MissingMandatoryBlock(name) => WriteErrorView::MissingMandatoryBlock(
                name@,
            ),
            WriteError::MissingBlockInfo(name) => WriteErrorView::MissingBlockInfo(name@),
            WriteError::Utf8EncodingError => WriteErrorView::Utf8EncodingError,
            WriteError::FixedLengthStringMismatchError => WriteErrorView::FixedLengthStringMismatchError,
        }
    }
}

impl WriteError {
    /// The text of the message that describes the error.
    pub open spec fn spec_message(self) -> Seq<char> {
        match self {
            WriteError::MissingMandatoryBlock(name) => "Missing mandatory block: "@ + name@,
            WriteError::MissingBlockInfo(name) => "BlockInfo block is missing for one of your blocks in the Map!: "@
                + name@,
            WriteError::Utf8EncodingError => "A character in a string requires more than one byte to encode, which is not permitted in the standard."@,
            WriteError::FixedLengthStringMismatchError => "Fixed-length string exceeds the length specified for the string"@,
        }
    }

    /// A message that describes the error.
    pub fn message(&self) -> (r: String)
        ensures
            r@ == self.spec_message(),
    {
        match self {
            WriteError::MissingMandatoryBlock(name) => {
                String::from_str("Missing mandatory block: ").concat(name.as_str())
            },
            WriteError::MissingBlockInfo(name) => {
                String::from_str(
                    "BlockInfo block is missing for one of your blocks in the Map!: ",
                ).concat(name.as_str())
            },
            WriteError::Utf8EncodingError => String::from_str(
                "A character in a string requires more than one byte to encode, which is not permitted in the standard.",
            ),
            WriteError::FixedLengthStringMismatchError => String::from_str(
                "Fixed-length string exceeds the length specified for the string",
            ),
        }
    }
}

/// The result of an executable encoder, with bytes as a sequence and the error by its view.
pub open spec fn written(r: Result<Vec<u8>, WriteError>) -> Result<Seq<u8>, WriteErrorView> {
    match r {
        Ok(bytes) => Ok(bytes@),
        Err(e) => Err(e@),
    }
}

/// The first of two errors, going by the order of the fields.
pub open spec fn earlier(a: Option<WriteErrorView>, b: Option<WriteErrorView>) -> Option<
    WriteErrorView,
> {
    match a {
        Some(e) => Some(e),
        None => b,
    }
}

/// Why a string cannot be written with a terminating zero byte: it holds a
/// character beyond ASCII.
pub open spec fn nts_error(c: Seq<char>) -> Option<WriteErrorView> {
    if is_ascii_chars(c) {
        None
    } else {
        Some(WriteErrorView::Utf8EncodingError)
    }
}

/// A string with a terminating zero byte.
pub open spec fn nts_bytes(c: Seq<char>) -> Seq<u8> {
    str_bytes(c).push(0u8)
}

/// Why a string cannot be written to a field of `n` bytes: its UTF-8
/// encoding is longer than the field, or else it holds a character beyond ASCII.
pub open spec fn fixed_error(c: Seq<char>, n: nat) -> Option<WriteErrorView> {
    if encode_utf8(c).len() > n {
        Some(WriteErrorView::FixedLengthStringMismatchError)
    } else if !is_ascii_chars(c) {
        Some(WriteErrorView::Utf8EncodingError)
    } else {
        None
    }
}

/// A string in a field of `n` bytes: its bytes, then zero bytes up to the width.
pub open spec fn fixed_bytes(c: Seq<char>, n: nat) -> Seq<u8> {
    str_bytes(c) + zeros((n - c.len()) as nat)
}

/// Appends a string and a zero byte. A string with a character beyond ASCII
/// is refused, and then nothing is appended.
pub fn null_terminated_str(b: &mut Vec<u8>, s: &str) -> (r: Result<(), WriteError>)
    ensures
        match r {
            Ok(_) => nts_error(s@) is None && final(b)@ == old(b)@ + nts_bytes(s@),
            Err(e) => nts_error(s@) == Some(e@) && final(b)@ == old(b)@,
        },
{
    if !s.is_ascii() {
        return Err(WriteError::Utf8EncodingError);
    }
    proof {
        lemma_ascii_chars_utf8(s@);
    }
    let ghost before = b@;
    b.extend_from_slice(s.as_bytes());
    b.push(0x0);
    assert(b@ =~= before + nts_bytes(s@));
    Ok(())
}

/// Appends a string as a field of `len` bytes, padded with zero bytes. A
/// string that is too long for the field, or that holds a character beyond
/// ASCII, is refused, and then nothing is appended.
pub fn fixed_length_str(b: &mut Vec<u8>, s: &str, len: usize) -> (r: Result<(), WriteError>)
    ensures
        match r {
            Ok(_) => fixed_error(s@, len as nat) is None && final(b)@ == old(b)@ + fixed_bytes(
                s@,
                len as nat,
            ),
            Err(e) => fixed_error(s@, len as nat) == Some(e@) && final(b)@ == old(b)@,
        },
        s@.len() > len ==> r == Err::<(), WriteError>(WriteError::FixedLengthStringMismatchError),
        r is Ok ==> final(b)@.len() == old(b)@.len() + len,
{
    proof {
        lemma_utf8_len(s@);
    }
    let bytes = s.as_bytes();
    if bytes.len() > len {
        return Err(WriteError::FixedLengthStringMismatchError);
    }
    if !s.is_ascii() {
        return Err(WriteError::Utf8EncodingError);
    }
    proof {
        lemma_ascii_chars_utf8(s@);
    }
    let ghost before = b@;
    b.extend_from_slice(bytes);
    let mut k: usize = bytes.len();
    while k < len
        invariant
            s@.len() <= k <= len,
            b@ == before + str_bytes(s@) + zeros((k - s@.len()) as nat),
        decreases len - k,
    {
        b.push(0);
        k += 1;
        assert(b@ =~= before + str_bytes(s@) + zeros((k - s@.len()) as nat));
    }
    assert(b@ =~= before + fixed_bytes(s@, len as nat));
    Ok(())
}

/// The UTF-8 encoding of a string has at least one byte for each character.
pub proof fn lemma_utf8_len(c: Seq<char>)
    ensures
        encode_utf8(c).len() >= c.len(),
    decreases c.len(),
{
    if c.len() > 0 {
        lemma_utf8_len(c.drop_first());
    }
}

/// An integer that the format stores in a fixed number of bytes.
pub trait WireInteger: Copy {
    /// The bytes that stand for the integer, least significant first.
    spec fn le_bytes(self) -> Seq<u8>;

    /// Appends those bytes.
    fn write_le(self, b: &mut Vec<u8>)
        ensures
            final(b)@ == old(b)@ + self.le_bytes(),
    ;
}

impl WireInteger for u16 {
    open spec fn le_bytes(self) -> Seq<u8> {
        u16_le(self)
    }

    fn write_le(self, b: &mut Vec<u8>) {
        let ghost before = b@;
        b.push((self % 256) as u8);
        b.push((self / 256) as u8);
        assert(b@ =~= before + u16_le(self));
    }
}

impl WireInteger for i16 {
    open spec fn le_bytes(self) -> Seq<u8> {
        i16_le(self)
    }

    fn write_le(self, b: &mut Vec<u8>) {
        let ghost before = b@;
        let u: u16 = if self < 0 {
            (self as i32 + 65536) as u16
        } else {
            self as u16
        };
        b.push((u % 256) as u8);
        b.push((u / 256) as u8);
        assert(b@ =~= before + i16_le(self));
    }
}

impl WireInteger for u32 {
    open spec fn le_bytes(self) -> Seq<u8> {
        u32_le(self)
    }

    fn write_le(self, b: &mut Vec<u8>) {
        let ghost before = b@;
        b.push((self % 256) as u8);
        b.push(((self / 256) % 256) as u8);
        b.push(((self / 65536) % 256) as u8);
        b.push((self / 16777216) as u8);
        assert(b@ =~= before + u32_le(self));
    }
}

impl WireInteger for i32 {
    open spec fn le_bytes(self) -> Seq<u8> {
        i32_le(self)
    }

    fn write_le(self, b: &mut Vec<u8>) {
        let ghost before = b@;
        let u: u32 = if self < 0 {
            (self as i64 + 4294967296) as u32
        } else {
            self as u32
        };
        b.push((u % 256) as u8);
        b.push(((u / 256) % 256) as u8);
        b.push(((u / 65536) % 256) as u8);
        b.push((u / 16777216) as u8);
        assert(b@ =~= before + i32_le(self));
    }
}

/// Appends an integer in little-endian order, in the width of its type.
pub fn le_integer<T: WireInteger>(b: &mut Vec<u8>, i: T)
    ensures
        final(b)@ == old(b)@ + i.le_bytes(),
{
    i.write_le(b);
}

/// The encodings of the values of a list, one after the other.
pub open spec fn concat_map<T>(xs: Seq<T>, f: spec_fn(T) -> Seq<u8>) -> Seq<u8>
    decreases xs.len(),
{
    if xs.len() == 0 {
        Seq::empty()
    } else {
        concat_map(xs.drop_last(), f) + f(xs.last())
    }
}

/// The encoding of one value more is appended to the encoding of those before it.
pub proof fn lemma_concat_map_step<T>(xs: Seq<T>, f: spec_fn(T) -> Seq<u8>, k: int)
    requires
        0 <= k < xs.len(),
    ensures
        concat_map(xs.take(k + 1), f) == concat_map(xs.take(k), f) + f(xs[k]),
{
    assert(xs.take(k + 1).drop_last() =~= xs.take(k));
}

/// The first error among the values of a list, in their order.
pub open spec fn first_error_in<T>(xs: Seq<T>, f: spec_fn(T) -> Option<WriteErrorView>) -> Option<
    WriteErrorView,
>
    decreases xs.len(),
{
    if xs.len() == 0 {
        None
    } else {
        earlier(first_error_in(xs.drop_last(), f), f(xs.last()))
    }
}

/// With no error among the first values, the first error is that of the next value.
pub proof fn lemma_first_error_step<T>(
    xs: Seq<T>,
    f: spec_fn(T) -> Option<WriteErrorView>,
    k: int,
)
    requires
        0 <= k < xs.len(),
    ensures
        first_error_in(xs.take(k + 1), f) == earlier(first_error_in(xs.take(k), f), f(xs[k])),
{
    assert(xs.take(k + 1).drop_last() =~= xs.take(k));
}

/// An error among the first values is the first error of the whole list.
pub proof fn lemma_first_error_prefix<T>(
    xs: Seq<T>,
    f: spec_fn(T) -> Option<WriteErrorView>,
    k: int,
)
    requires
        0 <= k <= xs.len(),
        first_error_in(xs.take(k), f) is Some,
    ensures
        first_error_in(xs, f) == first_error_in(xs.take(k), f),
    decreases xs.len() - k,
{
    if k == xs.len() {
        assert(xs.take(k) =~= xs);
    } else {
        lemma_first_error_step(xs, f, k);
        lemma_first_error_prefix(xs, f, k + 1);
    }
}

/// The encoder of a signed 16-bit integer, as a value.
pub open spec fn i16_le_fn() -> spec_fn(i16) -> Seq<u8> {
    |x: i16| x.le_bytes()
}

/// The encoder of a signed 32-bit integer, as a value.
pub open spec fn i32_le_fn() -> spec_fn(i32) -> Seq<u8> {
    |x: i32| x.le_bytes()
}

/// The encoder of an unsigned 16-bit integer, as a value.
pub open spec fn u16_le_fn() -> spec_fn(u16) -> Seq<u8> {
    |x: u16| x.le_bytes()
}

/// Appends signed 16-bit integers, one after the other.
fn le_i16s(b: &mut Vec<u8>, xs: &Vec<i16>)
    ensures
        final(b)@ == old(b)@ + concat_map(xs@, i16_le_fn()),
{
    let ghost before = b@;
    let mut k: usize = 0;
    assert(b@ =~= before + concat_map(xs@.take(0), i16_le_fn()));
    while k < xs.len()
        invariant
            k <= xs@.len(),
            b@ == before + concat_map(xs@.take(k as int), i16_le_fn()),
        decreases xs@.len() - k,
    {
        proof {
            lemma_concat_map_step(xs@, i16_le_fn(), k as int);
        }
        le_integer(b, xs[k]);
        k += 1;
        assert(b@ =~= before + concat_map(xs@.take(k as int), i16_le_fn()));
    }
    assert(xs@.take(k as int) =~= xs@);
}

/// Appends signed 32-bit integers, one after the other.
fn le_i32s(b: &mut Vec<u8>, xs: &Vec<i32>)
    ensures
        final(b)@ == old(b)@ + concat_map(xs@, i32_le_fn()),
{
    let ghost before = b@;
    let mut k: usize = 0;
    assert(b@ =~= before + concat_map(xs@.take(0), i32_le_fn()));
    while k < xs.len()
        invariant
            k <= xs@.len(),
            b@ == before + concat_map(xs@.take(k as int), i32_le_fn()),
        decreases xs@.len() - k,
    {
        proof {
            lemma_concat_map_step(xs@, i32_le_fn(), k as int);
        }
        le_integer(b, xs[k]);
        k += 1;
        assert(b@ =~= before + concat_map(xs@.take(k as int), i32_le_fn()));
    }
    assert(xs@.take(k as int) =~= xs@);
}

/// Appends unsigned 16-bit integers, one after the other.
fn le_u16s(b: &mut Vec<u8>, xs: &Vec<u16>)
    ensures
        final(b)@ == old(b)@ + concat_map(xs@, u16_le_fn()),
{
    let ghost before = b@;
    let mut k: usize = 0;
    assert(b@ =~= before + concat_map(xs@.take(0), u16_le_fn()));
    while k < xs.len()
        invariant
            k <= xs@.len(),
            b@ == before + concat_map(xs@.take(k as int), u16_le_fn()),
        decreases xs@.len() - k,
    {
        proof {
            lemma_concat_map_step(xs@, u16_le_fn(), k as int);
        }
        le_integer(b, xs[k]);
        k += 1;
        assert(b@ =~= before + concat_map(xs@.take(k as int), u16_le_fn()));
    }
    assert(xs@.take(k as int) =~= xs@);
}

/// The names of the standard blocks are ASCII, and no two of them are the same.
pub proof fn lemma_block_ids()
    ensures
        is_ascii_chars(BLOCK_ID_MAP@),
        is_ascii_chars(BLOCK_ID_GENPARAMS@),
        is_ascii_chars(BLOCK_ID_SUPPARAMS@),
        is_ascii_chars(BLOCK_ID_FXDPARAMS@),
        is_ascii_chars(BLOCK_ID_KEYEVENTS@),
        is_ascii_chars(BLOCK_ID_LNKPARAMS@),
        is_ascii_chars(BLOCK_ID_DATAPTS@),
        is_ascii_chars(BLOCK_ID_CHECKSUM@),
        no_nul(BLOCK_ID_MAP@),
        no_nul(BLOCK_ID_GENPARAMS@),
        no_nul(BLOCK_ID_SUPPARAMS@),
        no_nul(BLOCK_ID_FXDPARAMS@),
        no_nul(BLOCK_ID_KEYEVENTS@),
        no_nul(BLOCK_ID_LNKPARAMS@),
        no_nul(BLOCK_ID_DATAPTS@),
        no_nul(BLOCK_ID_CHECKSUM@),
        BLOCK_ID_MAP@.len() == 3,
        BLOCK_ID_GENPARAMS@.len() == 9,
        BLOCK_ID_SUPPARAMS@.len() == 9,
        BLOCK_ID_FXDPARAMS@.len() == 9,
        BLOCK_ID_KEYEVENTS@.len() == 9,
        BLOCK_ID_LNKPARAMS@.len() == 9,
        BLOCK_ID_DATAPTS@.len() == 7,
        BLOCK_ID_CHECKSUM@.len() == 5,
        BLOCK_ID_GENPARAMS@ != BLOCK_ID_SUPPARAMS@,
        BLOCK_ID_GENPARAMS@ != BLOCK_ID_FXDPARAMS@,
        BLOCK_ID_GENPARAMS@ != BLOCK_ID_KEYEVENTS@,
        BLOCK_ID_GENPARAMS@ != BLOCK_ID_LNKPARAMS@,
        BLOCK_ID_SUPPARAMS@ != BLOCK_ID_FXDPARAMS@,
        BLOCK_ID_SUPPARAMS@ != BLOCK_ID_KEYEVENTS@,
        BLOCK_ID_SUPPARAMS@ != BLOCK_ID_LNKPARAMS@,
        BLOCK_ID_FXDPARAMS@ != BLOCK_ID_KEYEVENTS@,
        BLOCK_ID_FXDPARAMS@ != BLOCK_ID_LNKPARAMS@,
        BLOCK_ID_KEYEVENTS@ != BLOCK_ID_LNKPARAMS@,
{
    reveal_strlit("Map");
    reveal_strlit("GenParams");
    reveal_strlit("SupParams");
    reveal_strlit("FxdParams");
    reveal_strlit("KeyEvents");
    reveal_strlit("LnkParams");
    reveal_strlit("DataPts");
    reveal_strlit("Cksum");
    assert(BLOCK_ID_GENPARAMS@[0] != BLOCK_ID_SUPPARAMS@[0]);
    assert(BLOCK_ID_GENPARAMS@[0] != BLOCK_ID_FXDPARAMS@[0]);
    assert(BLOCK_ID_GENPARAMS@[0] != BLOCK_ID_KEYEVENTS@[0]);
    assert(BLOCK_ID_GENPARAMS@[0] != BLOCK_ID_LNKPARAMS@[0]);
    assert(BLOCK_ID_SUPPARAMS@[0] != BLOCK_ID_FXDPARAMS@[0]);
    assert(BLOCK_ID_SUPPARAMS@[0] != BLOCK_ID_KEYEVENTS@[0]);
    assert(BLOCK_ID_SUPPARAMS@[0] != BLOCK_ID_LNKPARAMS@[0]);
    assert(BLOCK_ID_FXDPARAMS@[0] != BLOCK_ID_KEYEVENTS@[0]);
    assert(BLOCK_ID_FXDPARAMS@[0] != BLOCK_ID_LNKPARAMS@[0]);
    assert(BLOCK_ID_KEYEVENTS@[0] != BLOCK_ID_LNKPARAMS@[0]);
}

/// The bytes of a block, unless one of its strings cannot be written.
pub open spec fn block_result(error: Option<WriteErrorView>, bytes: Seq<u8>) -> Result<
    Seq<u8>,
    WriteErrorView,
> {
    match error {
        Some(e) => Err(e),
        None => Ok(bytes),
    }
}

/// The bytes of a general parameters block.
#[verifier::opaque]
pub open spec fn general_parameters_bytes(b: GeneralParametersBlockView) -> Seq<u8> {
    nts_bytes(BLOCK_ID_GENPARAMS@)
        + fixed_bytes(b.language_code, 2)
        + nts_bytes(b.cable_id)
        + nts_bytes(b.fiber_id)
        + i16_le(b.fiber_type)
        + i16_le(b.nominal_wavelength)
        + nts_bytes(b.originating_location)
        + nts_bytes(b.terminating_location)
        + nts_bytes(b.cable_code)
        + fixed_bytes(b.current_data_flag, 2)
        + i32_le(b.user_offset)
        + i32_le(b.user_offset_distance)
        + nts_bytes(b.operator)
        + nts_bytes(b.comment)
}

/// The first string of a general parameters block that cannot be written, with the reason.
#[verifier::opaque]
pub open spec fn general_parameters_error(b: GeneralParametersBlockView) -> Option<WriteErrorView> {
    earlier(fixed_error(b.language_code, 2),
    earlier(nts_error(b.cable_id),
    earlier(nts_error(b.fiber_id),
    earlier(nts_error(b.originating_location),
    earlier(nts_error(b.terminating_location),
    earlier(nts_error(b.cable_code),
    earlier(fixed_error(b.current_data_flag, 2),
    earlier(nts_error(b.operator),
    nts_error(b.comment)))))))))
}

/// The bytes of a supplier parameters block.
#[verifier::opaque]
pub open spec fn supplier_parameters_bytes(b: SupplierParametersBlockView) -> Seq<u8> {
    nts_bytes(BLOCK_ID_SUPPARAMS@)
        + nts_bytes(b.supplier_name)
        + nts_bytes(b.otdr_mainframe_id)
        + nts_bytes(b.otdr_mainframe_sn)
        + nts_bytes(b.optical_module_id)
        + nts_bytes(b.optical_module_sn)
        + nts_bytes(b.software_revision)
        + nts_bytes(b.other)
}

/// The first string of a supplier parameters block that cannot be written, with the reason.
#[verifier::opaque]
pub open spec fn supplier_parameters_error(b: SupplierParametersBlockView) -> Option<WriteErrorView> {
    earlier(nts_error(b.supplier_name),
    earlier(nts_error(b.otdr_mainframe_id),
    earlier(nts_error(b.otdr_mainframe_sn),
    earlier(nts_error(b.optical_module_id),
    earlier(nts_error(b.optical_module_sn),
    earlier(nts_error(b.software_revision),
    nts_error(b.other)))))))
}

/// The bytes of a fixed parameters block. The lists are written as they are, whatever the
/// declared number says.
#[verifier::opaque]
pub open spec fn fixed_parameters_bytes(b: FixedParametersBlockView) -> Seq<u8> {
    nts_bytes(BLOCK_ID_FXDPARAMS@)
        + u32_le(b.date_time_stamp)
        + fixed_bytes(b.units_of_distance, 2)
        + i16_le(b.actual_wavelength)
        + i32_le(b.acquisition_offset)
        + i32_le(b.acquisition_offset_distance)
        + i16_le(b.total_n_pulse_widths_used)
        + concat_map(b.pulse_widths_used, i16_le_fn())
        + concat_map(b.data_spacing, i32_le_fn())
        + concat_map(b.n_data_points_for_pulse_widths_used, i32_le_fn())
        + i32_le(b.group_index)
        + i16_le(b.backscatter_coefficient)
        + i32_le(b.number_of_averages)
        + u16_le(b.averaging_time)
        + i32_le(b.acquisition_range)
        + i32_le(b.acquisition_range_distance)
        + i32_le(b.front_panel_offset)
        + u16_le(b.noise_floor_level)
        + i16_le(b.noise_floor_scale_factor)
        + u16_le(b.power_offset_first_point)
        + u16_le(b.loss_threshold)
        + u16_le(b.reflectance_threshold)
        + u16_le(b.end_of_fibre_threshold)
        + fixed_bytes(b.trace_type, 2)
        + i32_le(b.window_coordinate_1)
        + i32_le(b.window_coordinate_2)
        + i32_le(b.window_coordinate_3)
        + i32_le(b.window_coordinate_4)
}

/// The first string of a fixed parameters block that cannot be written, with the reason.
#[verifier::opaque]
pub open spec fn fixed_parameters_error(b: FixedParametersBlockView) -> Option<WriteErrorView> {
    earlier(fixed_error(b.units_of_distance, 2),
    fixed_error(b.trace_type, 2))
}

/// The bytes of a key event other than the last.
#[verifier::opaque]
pub open spec fn key_event_bytes(e: KeyEventView) -> Seq<u8> {
    i16_le(e.event_number)
        + i32_le(e.event_propogation_time)
        + i16_le(e.attenuation_coefficient_lead_in_fiber)
        + i16_le(e.event_loss)
        + i32_le(e.event_reflectance)
        + fixed_bytes(e.event_code, 6)
        + fixed_bytes(e.loss_measurement_technique, 2)
        + i32_le(e.marker_location_1)
        + i32_le(e.marker_location_2)
        + i32_le(e.marker_location_3)
        + i32_le(e.marker_location_4)
        + i32_le(e.marker_location_5)
        + nts_bytes(e.comment)
}

/// The first string of a key event that cannot be written, with the reason.
#[verifier::opaque]
pub open spec fn key_event_error(e: KeyEventView) -> Option<WriteErrorView> {
    earlier(fixed_error(e.event_code, 6),
    earlier(fixed_error(e.loss_measurement_technique, 2),
    nts_error(e.comment)))
}

/// The bytes of the samples of one scale factor.
#[verifier::opaque]
pub open spec fn scale_factor_bytes(b: DataPointsAtScaleFactorView) -> Seq<u8> {
    i32_le(b.n_points)
        + i16_le(b.scale_factor)
        + concat_map(b.data, u16_le_fn())
}

/// The bytes of one entry of the map.
#[verifier::opaque]
pub open spec fn block_info_bytes(b: BlockInfoView) -> Seq<u8> {
    nts_bytes(b.identifier)
        + u16_le(b.revision_number)
        + i32_le(b.size)
}

/// Why an entry of the map cannot be written.
#[verifier::opaque]
pub open spec fn block_info_error(b: BlockInfoView) -> Option<WriteErrorView> {
    nts_error(b.identifier)
}
/// What the general parameters block of a file is written as.
pub open spec fn spec_gen_general_parameters(f: SORFileView) -> Result<Seq<u8>, WriteErrorView> {
    match f.general_parameters {
        None => Err(WriteErrorView::MissingMandatoryBlock(BLOCK_ID_GENPARAMS@)),
        Some(b) => block_result(general_parameters_error(b), general_parameters_bytes(b)),
    }
}

/// What the supplier parameters block of a file is written as, where it has one.
pub open spec fn spec_gen_supplier_parameters(f: SORFileView) -> Result<Seq<u8>, WriteErrorView>
    recommends
        f.supplier_parameters is Some,
{
    let b = f.supplier_parameters->Some_0;
    block_result(supplier_parameters_error(b), supplier_parameters_bytes(b))
}

/// What the fixed parameters block of a file is written as.
pub open spec fn spec_gen_fixed_parameters(f: SORFileView) -> Result<Seq<u8>, WriteErrorView> {
    match f.fixed_parameters {
        None => Err(WriteErrorView::MissingMandatoryBlock(BLOCK_ID_FXDPARAMS@)),
        Some(b) => block_result(fixed_parameters_error(b), fixed_parameters_bytes(b)),
    }
}

/// The fields that the last key event shares with the others.
pub open spec fn last_key_event_common(e: LastKeyEventView) -> KeyEventView {
    KeyEventView {
        event_number: e.event_number,
        event_propogation_time: e.event_propogation_time,
        attenuation_coefficient_lead_in_fiber: e.attenuation_coefficient_lead_in_fiber,
        event_loss: e.event_loss,
        event_reflectance: e.event_reflectance,
        event_code: e.event_code,
        loss_measurement_technique: e.loss_measurement_technique,
        marker_location_1: e.marker_location_1,
        marker_location_2: e.marker_location_2,
        marker_location_3: e.marker_location_3,
        marker_location_4: e.marker_location_4,
        marker_location_5: e.marker_location_5,
        comment: e.comment,
    }
}

/// The bytes of the last key event.
#[verifier::opaque]
pub open spec fn last_key_event_bytes(e: LastKeyEventView) -> Seq<u8> {
    key_event_bytes(last_key_event_common(e))
        + i32_le(e.end_to_end_loss)
        + i32_le(e.end_to_end_marker_position_1)
        + i32_le(e.end_to_end_marker_position_2)
        + u16_le(e.optical_return_loss)
        + i32_le(e.optical_return_loss_marker_position_1)
        + i32_le(e.optical_return_loss_marker_position_2)
}

/// The encoder of a key event, as a value.
pub open spec fn key_event_bytes_fn() -> spec_fn(KeyEventView) -> Seq<u8> {
    |e: KeyEventView| key_event_bytes(e)
}

/// What stops a key event from being written, as a value.
pub open spec fn key_event_error_fn() -> spec_fn(KeyEventView) -> Option<WriteErrorView> {
    |e: KeyEventView| key_event_error(e)
}

/// The bytes of a key events block. The events are written as they are,
/// whatever the declared number says.
#[verifier::opaque]
pub open spec fn key_events_bytes(b: KeyEventsView) -> Seq<u8> {
    nts_bytes(BLOCK_ID_KEYEVENTS@)
        + i16_le(b.number_of_key_events)
        + concat_map(b.key_events, key_event_bytes_fn())
        + last_key_event_bytes(b.last_key_event)
}

/// The first string of a key events block that cannot be written, with the reason.
#[verifier::opaque]
pub open spec fn key_events_error(b: KeyEventsView) -> Option<WriteErrorView> {
    earlier(
        first_error_in(b.key_events, key_event_error_fn()),
        key_event_error(last_key_event_common(b.last_key_event)),
    )
}

/// What the key events block of a file is written as.
pub open spec fn spec_gen_key_events(f: SORFileView) -> Result<Seq<u8>, WriteErrorView> {
    match f.key_events {
        None => Err(WriteErrorView::MissingMandatoryBlock(BLOCK_ID_KEYEVENTS@)),
        Some(b) => block_result(key_events_error(b), key_events_bytes(b)),
    }
}

/// The encoder of the samples of one scale factor, as a value.
pub open spec fn scale_factor_bytes_fn() -> spec_fn(DataPointsAtScaleFactorView) -> Seq<u8> {
    |g: DataPointsAtScaleFactorView| scale_factor_bytes(g)
}

/// The bytes of a data points block.
#[verifier::opaque]
pub open spec fn data_points_bytes(b: DataPointsView) -> Seq<u8> {
    nts_bytes(BLOCK_ID_DATAPTS@)
        + i32_le(b.number_of_data_points)
        + i16_le(b.total_number_scale_factors_used)
        + concat_map(b.scale_factors, scale_factor_bytes_fn())
}

/// What the data points block of a file is written as.
pub open spec fn spec_gen_data_points(f: SORFileView) -> Result<Seq<u8>, WriteErrorView> {
    match f.data_points {
        None => Err(WriteErrorView::MissingMandatoryBlock(BLOCK_ID_DATAPTS@)),
        Some(b) => Ok(data_points_bytes(b)),
    }
}

/// The bytes of a proprietary block: its name, then its data.
pub open spec fn proprietary_bytes(b: ProprietaryBlockView) -> Seq<u8> {
    nts_bytes(b.header) + b.data
}

/// What a proprietary block is written as.
pub open spec fn spec_gen_proprietary_block(b: ProprietaryBlockView) -> Result<
    Seq<u8>,
    WriteErrorView,
> {
    block_result(nts_error(b.header), proprietary_bytes(b))
}

/// The bytes of a checksum block that stores `value`.
pub open spec fn checksum_block_bytes(value: u16) -> Seq<u8> {
    nts_bytes(BLOCK_ID_CHECKSUM@) + u16_le(value)
}

/// The encoder of an entry of the map, as a value.
pub open spec fn block_info_bytes_fn() -> spec_fn(BlockInfoView) -> Seq<u8> {
    |e: BlockInfoView| block_info_bytes(e)
}

/// What stops an entry of the map from being written, as a value.
pub open spec fn block_info_error_fn() -> spec_fn(BlockInfoView) -> Option<WriteErrorView> {
    |e: BlockInfoView| block_info_error(e)
}

/// The bytes of a map block, with its size and count as they stand.
#[verifier::opaque]
pub open spec fn map_block_bytes(m: MapBlockView) -> Seq<u8> {
    nts_bytes(BLOCK_ID_MAP@)
        + u16_le(m.revision_number)
        + i32_le(m.block_size)
        + i16_le(m.block_count)
        + concat_map(m.block_info, block_info_bytes_fn())
}

/// The bytes that the map block takes besides its entries: its name with the
/// zero byte, its revision, its size and its count.
pub open spec fn map_overhead() -> int {
    12
}

/// What a map is written as whose size and count do not yet count the map
/// itself: its own twelve bytes and its own entry are added.
pub open spec fn spec_gen_map(m: MapBlockView) -> Result<Seq<u8>, WriteErrorView> {
    block_result(
        first_error_in(m.block_info, block_info_error_fn()),
        map_block_bytes(
            MapBlockView {
                block_size: (m.block_size + map_overhead()) as i32,
                block_count: (m.block_count + 1) as i16,
                ..m
            },
        ),
    )
}

/// Appends the fields that every key event has.
fn key_event_fields(
    bytes: &mut Vec<u8>,
    event_number: i16,
    event_propogation_time: i32,
    attenuation_coefficient_lead_in_fiber: i16,
    event_loss: i16,
    event_reflectance: i32,
    event_code: &str,
    loss_measurement_technique: &str,
    marker_location_1: i32,
    marker_location_2: i32,
    marker_location_3: i32,
    marker_location_4: i32,
    marker_location_5: i32,
    comment: &str,
) -> (r: Result<(), WriteError>)
    ensures
        ({
            let e = KeyEventView {
                event_number,
                event_propogation_time,
                attenuation_coefficient_lead_in_fiber,
                event_loss,
                event_reflectance,
                event_code: event_code@,
                loss_measurement_technique: loss_measurement_technique@,
                marker_location_1,
                marker_location_2,
                marker_location_3,
                marker_location_4,
                marker_location_5,
                comment: comment@,
            };
            match r {
                Ok(_) => key_event_error(e) is None && final(bytes)@ == old(bytes)@
                    + key_event_bytes(e),
                Err(err) => key_event_error(e) == Some(err@),
            }
        }),
{
    proof {
        reveal(key_event_bytes);
        reveal(key_event_error);
    }
    let ghost before = bytes@;
    le_integer(bytes, event_number);
    le_integer(bytes, event_propogation_time);
    le_integer(bytes, attenuation_coefficient_lead_in_fiber);
    le_integer(bytes, event_loss);
    le_integer(bytes, event_reflectance);
    fixed_length_str(bytes, event_code, 6)?;
    fixed_length_str(bytes, loss_measurement_technique, 2)?;
    le_integer(bytes, marker_location_1);
    le_integer(bytes, marker_location_2);
    le_integer(bytes, marker_location_3);
    le_integer(bytes, marker_location_4);
    le_integer(bytes, marker_location_5);
    null_terminated_str(bytes, comment)?;
    proof {
        let e = KeyEventView {
            event_number,
            event_propogation_time,
            attenuation_coefficient_lead_in_fiber,
            event_loss,
            event_reflectance,
            event_code: event_code@,
            loss_measurement_technique: loss_measurement_technique@,
            marker_location_1,
            marker_location_2,
            marker_location_3,
            marker_location_4,
            marker_location_5,
            comment: comment@,
        };
        assert(bytes@ =~= before + key_event_bytes(e));
    }
    Ok(())
}

/// Appends a key event other than the last.
fn append_key_event(bytes: &mut Vec<u8>, ke: &KeyEvent) -> (r: Result<(), WriteError>)
    ensures
        match r {
            Ok(_) => key_event_error(ke@) is None && final(bytes)@ == old(bytes)@
                + key_event_bytes(ke@),
            Err(err) => key_event_error(ke@) == Some(err@),
        },
{
    key_event_fields(
        bytes,
        ke.event_number,
        ke.event_propogation_time,
        ke.attenuation_coefficient_lead_in_fiber,
        ke.event_loss,
        ke.event_reflectance,
        ke.event_code.as_str(),
        ke.loss_measurement_technique.as_str(),
        ke.marker_location_1,
        ke.marker_location_2,
        ke.marker_location_3,
        ke.marker_location_4,
        ke.marker_location_5,
        ke.comment.as_str(),
    )
}

impl SORFile {
    /// The bytes of the general parameters block. Fails where the file has none, or where one
    /// of its strings cannot be written.
    pub fn gen_general_parameters(&self) -> (r: Result<Vec<u8>, WriteError>)
        ensures
            written(r) == spec_gen_general_parameters(self@),
    {
        let mut bytes: Vec<u8> = Vec::new();
        let b = match &self.general_parameters {
            Some(b) => b,
            None => {
                return Err(WriteError::MissingMandatoryBlock(BLOCK_ID_GENPARAMS.to_owned()));
            },
        };
        proof {
            reveal(general_parameters_bytes);
            reveal(general_parameters_error);
            lemma_block_ids();
        }
        null_terminated_str(&mut bytes, BLOCK_ID_GENPARAMS)?;
        assert(bytes@ =~= nts_bytes(BLOCK_ID_GENPARAMS@));
        fixed_length_str(&mut bytes, b.language_code.as_str(), 2)?;
        null_terminated_str(&mut bytes, b.cable_id.as_str())?;
        null_terminated_str(&mut bytes, b.fiber_id.as_str())?;
        le_integer(&mut bytes, b.fiber_type);
        le_integer(&mut bytes, b.nominal_wavelength);
        null_terminated_str(&mut bytes, b.originating_location.as_str())?;
        null_terminated_str(&mut bytes, b.terminating_location.as_str())?;
        null_terminated_str(&mut bytes, b.cable_code.as_str())?;
        fixed_length_str(&mut bytes, b.current_data_flag.as_str(), 2)?;
        le_integer(&mut bytes, b.user_offset);
        le_integer(&mut bytes, b.user_offset_distance);
        null_terminated_str(&mut bytes, b.operator.as_str())?;
        null_terminated_str(&mut bytes, b.comment.as_str())?;
        Ok(bytes)
    }

    /// The bytes of the supplier parameters block, which the file must have. Fails where one of
    /// its strings cannot be written.
    pub fn gen_supplier_parameters(&self) -> (r: Result<Vec<u8>, WriteError>)
        requires
            self.supplier_parameters is Some,
        ensures
            written(r) == spec_gen_supplier_parameters(self@),
    {
        let mut bytes: Vec<u8> = Vec::new();
        let b = self.supplier_parameters.as_ref().unwrap();
        proof {
            reveal(supplier_parameters_bytes);
            reveal(supplier_parameters_error);
            lemma_block_ids();
        }
        null_terminated_str(&mut bytes, BLOCK_ID_SUPPARAMS)?;
        assert(bytes@ =~= nts_bytes(BLOCK_ID_SUPPARAMS@));
        null_terminated_str(&mut bytes, b.supplier_name.as_str())?;
        null_terminated_str(&mut bytes, b.otdr_mainframe_id.as_str())?;
        null_terminated_str(&mut bytes, b.otdr_mainframe_sn.as_str())?;
        null_terminated_str(&mut bytes, b.optical_module_id.as_str())?;
        null_terminated_str(&mut bytes, b.optical_module_sn.as_str())?;
        null_terminated_str(&mut bytes, b.software_revision.as_str())?;
        null_terminated_str(&mut bytes, b.other.as_str())?;
        Ok(bytes)
    }

    /// The bytes of the fixed parameters block. Fails where the file has none, or where one of
    /// its strings cannot be written.
    pub fn gen_fixed_parameters(&self) -> (r: Result<Vec<u8>, WriteError>)
        ensures
            written(r) == spec_gen_fixed_parameters(self@),
    {
        let mut bytes: Vec<u8> = Vec::new();
        let b = match &self.fixed_parameters {
            Some(b) => b,
            None => {
                return Err(WriteError::MissingMandatoryBlock(BLOCK_ID_FXDPARAMS.to_owned()));
            },
        };
        proof {
            reveal(fixed_parameters_bytes);
            reveal(fixed_parameters_error);
            lemma_block_ids();
        }
        null_terminated_str(&mut bytes, BLOCK_ID_FXDPARAMS)?;
        assert(bytes@ =~= nts_bytes(BLOCK_ID_FXDPARAMS@));
        le_integer(&mut bytes, b.date_time_stamp);
        fixed_length_str(&mut bytes, b.units_of_distance.as_str(), 2)?;
        le_integer(&mut bytes, b.actual_wavelength);
        le_integer(&mut bytes, b.acquisition_offset);
        le_integer(&mut bytes, b.acquisition_offset_distance);
        le_integer(&mut bytes, b.total_n_pulse_widths_used);
        le_i16s(&mut bytes, &b.pulse_widths_used);
        le_i32s(&mut bytes, &b.data_spacing);
        le_i32s(&mut bytes, &b.n_data_points_for_pulse_widths_used);
        le_integer(&mut bytes, b.group_index);
        le_integer(&mut bytes, b.backscatter_coefficient);
        le_integer(&mut bytes, b.number_of_averages);
        le_integer(&mut bytes, b.averaging_time);
        le_integer(&mut bytes, b.acquisition_range);
        le_integer(&mut bytes, b.acquisition_range_distance);
        le_integer(&mut bytes, b.front_panel_offset);
        le_integer(&mut bytes, b.noise_floor_level);
        le_integer(&mut bytes, b.noise_floor_scale_factor);
        le_integer(&mut bytes, b.power_offset_first_point);
        le_integer(&mut bytes, b.loss_threshold);
        le_integer(&mut bytes, b.reflectance_threshold);
        le_integer(&mut bytes, b.end_of_fibre_threshold);
        fixed_length_str(&mut bytes, b.trace_type.as_str(), 2)?;
        le_integer(&mut bytes, b.window_coordinate_1);
        le_integer(&mut bytes, b.window_coordinate_2);
        le_integer(&mut bytes, b.window_coordinate_3);
        le_integer(&mut bytes, b.window_coordinate_4);
        Ok(bytes)
    }
    /// The bytes of the key events block. Fails where the file has none, or
    /// where one of its strings cannot be written.
    pub fn gen_key_events(&self) -> (r: Result<Vec<u8>, WriteError>)
        ensures
            written(r) == spec_gen_key_events(self@),
    {
        let mut bytes: Vec<u8> = Vec::new();
        let events = match &self.key_events {
            Some(b) => b,
            None => {
                return Err(WriteError::MissingMandatoryBlock(BLOCK_ID_KEYEVENTS.to_owned()));
            },
        };
        proof {
            reveal(key_events_bytes);
            reveal(key_events_error);
            reveal(last_key_event_bytes);
            lemma_block_ids();
        }
        null_terminated_str(&mut bytes, BLOCK_ID_KEYEVENTS)?;
        le_integer(&mut bytes, events.number_of_key_events);
        let ghost head = nts_bytes(BLOCK_ID_KEYEVENTS@) + i16_le(events.number_of_key_events);
        let ghost all = events.key_events.deep_view();
        assert(bytes@ =~= head + concat_map(all.take(0), key_event_bytes_fn()));
        let mut k: usize = 0;
        while k < events.key_events.len()
            invariant
                k <= events.key_events@.len(),
                all == events.key_events.deep_view(),
                all == events@.key_events,
                self@.key_events == Some(events@),
                first_error_in(all.take(k as int), key_event_error_fn()) is None,
                bytes@ == head + concat_map(all.take(k as int), key_event_bytes_fn()),
            decreases events.key_events@.len() - k,
        {
            let ke = &events.key_events[k];
            proof {
                reveal(key_events_error);
                lemma_concat_map_step(all, key_event_bytes_fn(), k as int);
                lemma_first_error_step(all, key_event_error_fn(), k as int);
                assert(all[k as int] == ke@);
            }
            match append_key_event(&mut bytes, ke) {
                Ok(_) => {},
                Err(e) => {
                    proof {
                        lemma_first_error_prefix(all, key_event_error_fn(), k as int + 1);
                    }
                    return Err(e);
                },
            }
            k += 1;
            assert(bytes@ =~= head + concat_map(all.take(k as int), key_event_bytes_fn()));
        }
        assert(all.take(k as int) =~= all);
        let last = &events.last_key_event;
        let ghost before = bytes@;
        key_event_fields(
            &mut bytes,
            last.event_number,
            last.event_propogation_time,
            last.attenuation_coefficient_lead_in_fiber,
            last.event_loss,
            last.event_reflectance,
            last.event_code.as_str(),
            last.loss_measurement_technique.as_str(),
            last.marker_location_1,
            last.marker_location_2,
            last.marker_location_3,
            last.marker_location_4,
            last.marker_location_5,
            last.comment.as_str(),
        )?;
        le_integer(&mut bytes, last.end_to_end_loss);
        le_integer(&mut bytes, last.end_to_end_marker_position_1);
        le_integer(&mut bytes, last.end_to_end_marker_position_2);
        le_integer(&mut bytes, last.optical_return_loss);
        le_integer(&mut bytes, last.optical_return_loss_marker_position_1);
        le_integer(&mut bytes, last.optical_return_loss_marker_position_2);
        assert(bytes@ =~= before + last_key_event_bytes(last@));
        Ok(bytes)
    }

    /// The bytes of the data points block. Fails where the file has none.
    pub fn gen_data_points(&self) -> (r: Result<Vec<u8>, WriteError>)
        ensures
            written(r) == spec_gen_data_points(self@),
    {
        let mut bytes: Vec<u8> = Vec::new();
        let dp = match &self.data_points {
            Some(b) => b,
            None => {
                return Err(WriteError::MissingMandatoryBlock(BLOCK_ID_DATAPTS.to_owned()));
            },
        };
        proof {
            reveal(data_points_bytes);
            reveal(scale_factor_bytes);
            lemma_block_ids();
        }
        null_terminated_str(&mut bytes, BLOCK_ID_DATAPTS)?;
        le_integer(&mut bytes, dp.number_of_data_points);
        le_integer(&mut bytes, dp.total_number_scale_factors_used);
        let ghost head = nts_bytes(BLOCK_ID_DATAPTS@) + i32_le(dp.number_of_data_points) + i16_le(
            dp.total_number_scale_factors_used,
        );
        let ghost all = dp.scale_factors.deep_view();
        assert(bytes@ =~= head + concat_map(all.take(0), scale_factor_bytes_fn()));
        let mut k: usize = 0;
        while k < dp.scale_factors.len()
            invariant
                k <= dp.scale_factors@.len(),
                all == dp.scale_factors.deep_view(),
                bytes@ == head + concat_map(all.take(k as int), scale_factor_bytes_fn()),
            decreases dp.scale_factors@.len() - k,
        {
            let sf = &dp.scale_factors[k];
            proof {
                reveal(scale_factor_bytes);
                lemma_concat_map_step(all, scale_factor_bytes_fn(), k as int);
                assert(all[k as int] == sf@);
            }
            le_integer(&mut bytes, sf.n_points);
            le_integer(&mut bytes, sf.scale_factor);
            le_u16s(&mut bytes, &sf.data);
            k += 1;
            assert(bytes@ =~= head + concat_map(all.take(k as int), scale_factor_bytes_fn()));
        }
        assert(all.take(k as int) =~= all);
        Ok(bytes)
    }

    /// The bytes of a proprietary block. Fails where its name cannot be written.
    pub fn gen_proprietary_block(&self, pb: &ProprietaryBlock) -> (r: Result<
        Vec<u8>,
        WriteError,
    >)
        ensures
            written(r) == spec_gen_proprietary_block(pb@),
    {
        let mut bytes: Vec<u8> = Vec::new();
        null_terminated_str(&mut bytes, pb.header.as_str())?;
        bytes.extend_from_slice(pb.data.as_slice());
        assert(bytes@ =~= proprietary_bytes(pb@));
        Ok(bytes)
    }

    /// The bytes of a checksum block for a file whose bytes up to that block are `data`.
    pub fn gen_checksum_block(&self, data: &Vec<u8>) -> (r: Result<Vec<u8>, WriteError>)
        ensures
            written(r) == Ok::<Seq<u8>, WriteErrorView>(
                checksum_block_bytes(crc16_ibm_3740(data@)),
            ),
    {
        let mut bytes: Vec<u8> = Vec::new();
        proof {
            lemma_block_ids();
        }
        null_terminated_str(&mut bytes, BLOCK_ID_CHECKSUM)?;
        le_integer(&mut bytes, checksums(data.as_slice()).0);
        assert(bytes@ =~= checksum_block_bytes(crc16_ibm_3740(data@)));
        Ok(bytes)
    }

    /// The bytes of the map block for a map whose size and count do not yet
    /// count the map itself. Fails where the name of an entry cannot be written.
    pub fn gen_map(&self, map: MapBlock) -> (r: Result<Vec<u8>, WriteError>)
        requires
            map.block_size + map_overhead() <= i32::MAX,
            map.block_count + 1 <= i16::MAX,
        ensures
            written(r) == spec_gen_map(map@),
    {
        let mut bytes: Vec<u8> = Vec::new();
        proof {
            reveal(map_block_bytes);
            reveal(block_info_bytes);
            reveal(block_info_error);
            lemma_block_ids();
        }
        null_terminated_str(&mut bytes, BLOCK_ID_MAP)?;
        le_integer(&mut bytes, map.revision_number);
        le_integer(&mut bytes, map.block_size + 12);
        le_integer(&mut bytes, map.block_count + 1);
        let ghost head = nts_bytes(BLOCK_ID_MAP@) + u16_le(map.revision_number) + i32_le(
            (map.block_size + 12) as i32,
        ) + i16_le((map.block_count + 1) as i16);
        let ghost all = map.block_info.deep_view();
        assert(bytes@ =~= head + concat_map(all.take(0), block_info_bytes_fn()));
        let mut k: usize = 0;
        while k < map.block_info.len()
            invariant
                k <= map.block_info@.len(),
                all == map.block_info.deep_view(),
                first_error_in(all.take(k as int), block_info_error_fn()) is None,
                bytes@ == head + concat_map(all.take(k as int), block_info_bytes_fn()),
            decreases map.block_info@.len() - k,
        {
            let bi = &map.block_info[k];
            proof {
                reveal(block_info_bytes);
                reveal(block_info_error);
                lemma_concat_map_step(all, block_info_bytes_fn(), k as int);
                lemma_first_error_step(all, block_info_error_fn(), k as int);
                assert(all[k as int] == bi@);
            }
            match null_terminated_str(&mut bytes, bi.identifier.as_str()) {
                Ok(_) => {},
                Err(e) => {
                    proof {
                        lemma_first_error_prefix(all, block_info_error_fn(), k as int + 1);
                    }
                    return Err(e);
                },
            }
            le_integer(&mut bytes, bi.revision_number);
            le_integer(&mut bytes, bi.size);
            k += 1;
            assert(bytes@ =~= head + concat_map(all.take(k as int), block_info_bytes_fn()));
        }
        assert(all.take(k as int) =~= all);
        Ok(bytes)
    }
}

/// What was written so far: the entries of the new map, and the bytes of the blocks.
pub struct Emitted {
    pub entries: Seq<BlockInfoView>,
    pub data: Seq<u8>,
}

/// The state after one more block was written under `name`. The block's
/// revision is that of the first entry with this name in `map`, the map that
/// the file came with; its size is the number of its bytes. Fails with the
/// block's own error, or else where `map` has no entry with this name.
pub open spec fn spec_emit(
    map: MapBlockView,
    st: Emitted,
    name: Seq<char>,
    block: Result<Seq<u8>, WriteErrorView>,
) -> Result<Emitted, WriteErrorView> {
    match block {
        Err(e) => Err(e),
        Ok(bytes) => {
            let k = block_position(map.block_info, name);
            if k >= map.block_info.len() {
                Err(WriteErrorView::MissingBlockInfo(name))
            } else {
                Ok(
                    Emitted {
                        entries: st.entries.push(
                            BlockInfoView {
                                identifier: name,
                                revision_number: map.block_info[k].revision_number,
                                size: bytes.len() as i32,
                            },
                        ),
                        data: st.data + bytes,
                    },
                )
            }
        },
    }
}

/// The state after the standard blocks were written: general parameters,
/// fixed parameters, key events and data points, which a file must have, and
/// then the supplier parameters, where it has them.
pub open spec fn spec_emit_standard(f: SORFileView) -> Result<Emitted, WriteErrorView> {
    let st = Emitted { entries: Seq::empty(), data: Seq::empty() };
    match spec_emit(f.map, st, BLOCK_ID_GENPARAMS@, spec_gen_general_parameters(f)) { Err(e) => Err(e), Ok(st) =>
    match spec_emit(f.map, st, BLOCK_ID_FXDPARAMS@, spec_gen_fixed_parameters(f)) { Err(e) => Err(e), Ok(st) =>
    match spec_emit(f.map, st, BLOCK_ID_KEYEVENTS@, spec_gen_key_events(f)) { Err(e) => Err(e), Ok(st) =>
    match spec_emit(f.map, st, BLOCK_ID_DATAPTS@, spec_gen_data_points(f)) { Err(e) => Err(e), Ok(st) =>
    if f.supplier_parameters is Some {
        spec_emit(f.map, st, BLOCK_ID_SUPPARAMS@, spec_gen_supplier_parameters(f))
    } else {
        Ok(st)
    }
    }}}}
}

/// The state after proprietary blocks were written, in their order, each
/// under the name that it carries.
pub open spec fn spec_emit_proprietary(
    map: MapBlockView,
    st: Emitted,
    blocks: Seq<ProprietaryBlockView>,
) -> Result<Emitted, WriteErrorView>
    decreases blocks.len(),
{
    if blocks.len() == 0 {
        Ok(st)
    } else {
        match spec_emit_proprietary(map, st, blocks.drop_last()) {
            Err(e) => Err(e),
            Ok(st) => spec_emit(
                map,
                st,
                blocks.last().header,
                spec_gen_proprietary_block(blocks.last()),
            ),
        }
    }
}

/// The state after every block but the checksum was written.
pub open spec fn spec_emitted(f: SORFileView) -> Result<Emitted, WriteErrorView> {
    match spec_emit_standard(f) {
        Err(e) => Err(e),
        Ok(st) => spec_emit_proprietary(f.map, st, f.proprietary_blocks),
    }
}

/// The bytes that the entries take in the map: for each its name, a zero
/// byte, two bytes of revision and four of size.
pub open spec fn table_size(entries: Seq<BlockInfoView>) -> int
    decreases entries.len(),
{
    if entries.len() == 0 {
        0
    } else {
        table_size(entries.drop_last()) + entries.last().identifier.len() + 7
    }
}

/// The entry of the checksum block in a map that is written: revision 200, eight bytes.
pub open spec fn checksum_entry() -> BlockInfoView {
    BlockInfoView { identifier: BLOCK_ID_CHECKSUM@, revision_number: 200, size: 8 }
}

/// The map of the file that is written: the entries of the blocks and that
/// of the checksum block, the map's own length as its size, and a count that
/// includes the map.
pub open spec fn spec_new_map(revision: u16, st: Emitted) -> MapBlockView {
    let entries = st.entries.push(checksum_entry());
    MapBlockView {
        revision_number: revision,
        block_size: (table_size(entries) + map_overhead()) as i32,
        block_count: (entries.len() + 1) as i16,
        block_info: entries,
    }
}

/// The whole file: the map, the blocks, and a checksum block that holds the
/// IBM-3740 check value of all the bytes before it.
pub open spec fn spec_assemble(revision: u16, st: Emitted) -> Seq<u8> {
    let head = map_block_bytes(spec_new_map(revision, st)) + st.data;
    head + checksum_block_bytes(crc16_ibm_3740(head))
}

/// The bytes of a file, or the reason for which it cannot be written.
///
/// The blocks come in a fixed order, whatever the order of the file's own
/// map: general parameters, fixed parameters, key events, data points,
/// supplier parameters if present, the proprietary blocks, the checksum.
/// Link parameters are left out. The first block that is missing, cannot be
/// written or has no entry in the file's map decides the error.
pub open spec fn spec_to_bytes(f: SORFileView) -> Result<Seq<u8>, WriteErrorView> {
    match spec_emitted(f) {
        Err(e) => Err(e),
        Ok(st) => Ok(spec_assemble(f.map.revision_number, st)),
    }
}

/// The bytes that the names of proprietary blocks take in the map: for each
/// block its name, a zero byte, two bytes of revision and four of size.
pub open spec fn names_size(blocks: Seq<ProprietaryBlockView>) -> int
    decreases blocks.len(),
{
    if blocks.len() == 0 {
        0
    } else {
        names_size(blocks.drop_last()) + blocks.last().header.len() + 7
    }
}

/// The bytes that the map of a written file takes at most besides the
/// entries of the proprietary blocks: its own twelve bytes and the entries
/// of the five standard blocks and of the checksum block.
pub open spec fn standard_table_size() -> int {
    102
}

/// The file fits the format's fields. Every block that can be written has a
/// length that the signed 32-bit size of its entry can hold; so has the map;
/// and the number of blocks fits the map's signed 16-bit count.
pub open spec fn fits_format(f: SORFileView) -> bool {
    &&& f.proprietary_blocks.len() <= 32760
    &&& (spec_gen_general_parameters(f) matches Ok(b) ==> b.len() <= i32::MAX)
    &&& (spec_gen_fixed_parameters(f) matches Ok(b) ==> b.len() <= i32::MAX)
    &&& (spec_gen_key_events(f) matches Ok(b) ==> b.len() <= i32::MAX)
    &&& (spec_gen_data_points(f) matches Ok(b) ==> b.len() <= i32::MAX)
    &&& (f.supplier_parameters is Some ==> (spec_gen_supplier_parameters(f) matches Ok(b)
        ==> b.len() <= i32::MAX))
    &&& forall|k: int|
        0 <= k < f.proprietary_blocks.len() ==> (spec_gen_proprietary_block(
            #[trigger] f.proprietary_blocks[k],
        ) matches Ok(b) ==> b.len() <= i32::MAX)
    &&& names_size(f.proprietary_blocks) + standard_table_size() <= i32::MAX
}

/// The names of one block more take that block's name and seven bytes more.
pub proof fn lemma_names_size_step(blocks: Seq<ProprietaryBlockView>, k: int)
    requires
        0 <= k < blocks.len(),
    ensures
        names_size(blocks.take(k + 1)) == names_size(blocks.take(k)) + blocks[k].header.len()
            + 7,
        0 <= names_size(blocks.take(k)) <= names_size(blocks.take(k + 1)),
    decreases k,
{
    assert(blocks.take(k + 1).drop_last() =~= blocks.take(k));
    if k > 0 {
        lemma_names_size_step(blocks, k - 1);
    }
}

/// The names of the first blocks take no more than the names of all.
pub proof fn lemma_names_size_prefix(blocks: Seq<ProprietaryBlockView>, k: int)
    requires
        0 <= k <= blocks.len(),
    ensures
        0 <= names_size(blocks.take(k)) <= names_size(blocks),
    decreases blocks.len() - k,
{
    if k == blocks.len() {
        assert(blocks.take(k) =~= blocks);
        if k > 0 {
            lemma_names_size_step(blocks, k - 1);
        }
    } else {
        lemma_names_size_step(blocks, k);
        lemma_names_size_prefix(blocks, k + 1);
    }
}

/// The table of the entries with one more is longer by that entry.
pub proof fn lemma_table_size_push(entries: Seq<BlockInfoView>, e: BlockInfoView)
    ensures
        table_size(entries.push(e)) == table_size(entries) + e.identifier.len() + 7,
{
    assert(entries.push(e).drop_last() =~= entries);
}

/// Every entry has an ASCII name.
pub open spec fn names_ascii(entries: Seq<BlockInfoView>) -> bool {
    forall|k: int| 0 <= k < entries.len() ==> is_ascii_chars((#[trigger] entries[k]).identifier)
}

/// Entries with ASCII names can all be written.
pub proof fn lemma_names_ascii_no_error(entries: Seq<BlockInfoView>)
    requires
        names_ascii(entries),
    ensures
        first_error_in(entries, block_info_error_fn()) is None,
    decreases entries.len(),
{
    reveal(block_info_error);
    if entries.len() > 0 {
        lemma_names_ascii_no_error(entries.drop_last());
    }
}

/// The table of one entry more is longer by that entry.
pub proof fn lemma_table_size_step(entries: Seq<BlockInfoView>, k: int)
    requires
        0 <= k < entries.len(),
    ensures
        table_size(entries.take(k + 1)) == table_size(entries.take(k)) + entries[k].identifier.len()
            + 7,
        0 <= table_size(entries.take(k)) <= table_size(entries.take(k + 1)),
    decreases k,
{
    assert(entries.take(k + 1).drop_last() =~= entries.take(k));
    if k > 0 {
        lemma_table_size_step(entries, k - 1);
    }
}

/// The table of the first entries is no longer than the whole table.
pub proof fn lemma_table_size_prefix(entries: Seq<BlockInfoView>, k: int)
    requires
        0 <= k <= entries.len(),
    ensures
        0 <= table_size(entries.take(k)) <= table_size(entries),
    decreases entries.len() - k,
{
    if k == entries.len() {
        assert(entries.take(k) =~= entries);
        if k > 0 {
            lemma_table_size_step(entries, k - 1);
        }
    } else {
        lemma_table_size_step(entries, k);
        lemma_table_size_prefix(entries, k + 1);
    }
}

/// Once a proprietary block fails, so does the whole list.
pub proof fn lemma_emit_proprietary_prefix(
    map: MapBlockView,
    st: Emitted,
    blocks: Seq<ProprietaryBlockView>,
    k: int,
)
    requires
        0 <= k <= blocks.len(),
        spec_emit_proprietary(map, st, blocks.take(k)) is Err,
    ensures
        spec_emit_proprietary(map, st, blocks) == spec_emit_proprietary(map, st, blocks.take(k)),
    decreases blocks.len() - k,
{
    if k == blocks.len() {
        assert(blocks.take(k) =~= blocks);
    } else {
        assert(blocks.take(k + 1).drop_last() =~= blocks.take(k));
        lemma_emit_proprietary_prefix(map, st, blocks, k + 1);
    }
}

/// Whether the bytes of a block, where it can be written, are few enough for a signed 32-bit size.
fn fits_size(block: &Result<Vec<u8>, WriteError>) -> (r: bool)
    ensures
        r == (written(*block) matches Ok(b) ==> b.len() <= i32::MAX),
{
    match block {
        Ok(bytes) => bytes.len() <= 2147483647,
        Err(_) => true,
    }
}

/// Writes one block: appends its bytes to `data` and its entry to `entries`.
fn emit(
    map: &MapBlock,
    entries: &mut Vec<BlockInfo>,
    data: &mut Vec<u8>,
    name: &str,
    block: Result<Vec<u8>, WriteError>,
) -> (r: Result<(), WriteError>)
    requires
        block matches Ok(bytes) ==> bytes@.len() <= i32::MAX && is_ascii_chars(name@),
        names_ascii(old(entries).deep_view()),
    ensures
        match r {
            Ok(_) => spec_emit(
                map@,
                Emitted { entries: old(entries).deep_view(), data: old(data)@ },
                name@,
                written(block),
            ) == Ok::<Emitted, WriteErrorView>(
                Emitted { entries: final(entries).deep_view(), data: final(data)@ },
            ),
            Err(e) => spec_emit(
                map@,
                Emitted { entries: old(entries).deep_view(), data: old(data)@ },
                name@,
                written(block),
            ) == Err::<Emitted, WriteErrorView>(e@),
        },
        r is Ok ==> final(entries)@.len() == old(entries)@.len() + 1,
        r is Ok ==> names_ascii(final(entries).deep_view()),
        r is Ok ==> table_size(final(entries).deep_view()) == table_size(
            old(entries).deep_view(),
        ) + name@.len() + 7,
{
    let bytes = block?;
    let k = find_block(&map.block_info, name);
    if k >= map.block_info.len() {
        return Err(WriteError::MissingBlockInfo(name.to_owned()));
    }
    let ghost before = entries.deep_view();
    assert(map@.block_info[k as int] == map.block_info@[k as int]@);
    let entry = BlockInfo {
        identifier: name.to_owned(),
        revision_number: map.block_info[k].revision_number,
        size: bytes.len() as i32,
    };
    entries.push(entry);
    assert(entries.deep_view() =~= before.push(entry@));
    data.extend_from_slice(bytes.as_slice());
    proof {
        lemma_table_size_push(before, entry@);
        let st = Emitted { entries: old(entries).deep_view(), data: old(data)@ };
        let kk = block_position(map@.block_info, name@);
        assert(kk == k);
        assert(written(block) == Ok::<Seq<u8>, WriteErrorView>(bytes@));
        assert(entry@.identifier == name@);
        assert(entry@.size == bytes@.len() as i32);
        assert(entry@.revision_number == map@.block_info[kk].revision_number);
        assert(data@ == st.data + bytes@);
        assert(entries.deep_view() == st.entries.push(entry@));
    }
    Ok(())
}

/// The number of bytes that the entries take in the map.
fn table_bytes(entries: &Vec<BlockInfo>) -> (n: usize)
    requires
        names_ascii(entries.deep_view()),
        table_size(entries.deep_view()) <= i32::MAX,
    ensures
        n == table_size(entries.deep_view()),
{
    let ghost all = entries.deep_view();
    let mut n: usize = 0;
    let mut k: usize = 0;
    while k < entries.len()
        invariant
            k <= entries@.len(),
            all == entries.deep_view(),
            names_ascii(all),
            table_size(all) <= i32::MAX,
            n == table_size(all.take(k as int)),
        decreases entries@.len() - k,
    {
        proof {
            lemma_table_size_step(all, k as int);
            lemma_table_size_prefix(all, k as int + 1);
            assert(is_ascii_chars(all[k as int].identifier));
            lemma_ascii_chars_utf8(all[k as int].identifier);
            assert(all[k as int].identifier == entries@[k as int].identifier@);
        }
        n = n + entries[k].identifier.as_str().as_bytes().len() + 7;
        k += 1;
    }
    assert(all.take(k as int) =~= all);
    n
}

impl SORFile {
    /// Whether the file fits the format's fields, as writing it demands.
    pub fn fits_format(&self) -> (r: bool)
        ensures
            r == fits_format(self@),
    {
        if self.proprietary_blocks.len() > 32760 {
            return false;
        }
        if !fits_size(&self.gen_general_parameters()) || !fits_size(&self.gen_fixed_parameters())
            || !fits_size(&self.gen_key_events()) || !fits_size(&self.gen_data_points()) {
            return false;
        }
        if self.supplier_parameters.is_some() && !fits_size(&self.gen_supplier_parameters()) {
            return false;
        }
        let ghost blocks = self.proprietary_blocks.deep_view();
        let limit: usize = 2147483647 - 102;
        let mut names: usize = 0;
        let mut k: usize = 0;
        while k < self.proprietary_blocks.len()
            invariant
                k <= self.proprietary_blocks@.len(),
                blocks == self.proprietary_blocks.deep_view(),
                blocks == self@.proprietary_blocks,
                limit == 2147483647 - 102,
                names == names_size(blocks.take(k as int)),
                names <= limit,
                forall|j: int|
                    0 <= j < k ==> (spec_gen_proprietary_block(#[trigger] blocks[j]) matches Ok(b)
                        ==> b.len() <= i32::MAX),
            decreases self.proprietary_blocks@.len() - k,
        {
            let pb = &self.proprietary_blocks[k];
            proof {
                assert(blocks[k as int] == pb@);
                lemma_names_size_step(blocks, k as int);
                lemma_names_size_prefix(blocks, k as int + 1);
            }
            if !fits_size(&self.gen_proprietary_block(pb)) {
                return false;
            }
            let n = pb.header.as_str().unicode_len();
            if n > limit - names || 7 > limit - names - n {
                return false;
            }
            names = names + n + 7;
            k += 1;
        }
        assert(blocks.take(k as int) =~= blocks);
        true
    }

    /// The bytes of the file, where the file fits the format's fields, and
    /// otherwise nothing.
    pub fn checked_to_bytes(&self) -> (r: Option<Result<Vec<u8>, WriteError>>)
        ensures
            match r {
                Some(w) => fits_format(self@) && written(w) == spec_to_bytes(self@),
                None => !fits_format(self@),
            },
    {
        if self.fits_format() {
            Some(self.to_bytes())
        } else {
            None
        }
    }

    /// The bytes of the file.
    ///
    /// Writes the blocks in the format's order with a new map and a new
    /// checksum, as [`spec_to_bytes`] describes. The map that the file came
    /// with is read for the revisions of the blocks and is not itself written.
    pub fn to_bytes(&self) -> (r: Result<Vec<u8>, WriteError>)
        requires
            fits_format(self@),
        ensures
            written(r) == spec_to_bytes(self@),
            self.general_parameters is None ==> written(r) == Err::<Seq<u8>, WriteErrorView>(
                WriteErrorView::MissingMandatoryBlock(BLOCK_ID_GENPARAMS@),
            ),
    {
        proof {
            lemma_block_ids();
        }
        let mut entries: Vec<BlockInfo> = Vec::new();
        let mut data: Vec<u8> = Vec::new();
        assert(entries.deep_view() =~= Seq::<BlockInfoView>::empty());
        assert(table_size(entries.deep_view()) == 0);
        emit(&self.map, &mut entries, &mut data, BLOCK_ID_GENPARAMS, self.gen_general_parameters())?;
        emit(&self.map, &mut entries, &mut data, BLOCK_ID_FXDPARAMS, self.gen_fixed_parameters())?;
        emit(&self.map, &mut entries, &mut data, BLOCK_ID_KEYEVENTS, self.gen_key_events())?;
        emit(&self.map, &mut entries, &mut data, BLOCK_ID_DATAPTS, self.gen_data_points())?;
        if self.supplier_parameters.is_some() {
            emit(
                &self.map,
                &mut entries,
                &mut data,
                BLOCK_ID_SUPPARAMS,
                self.gen_supplier_parameters(),
            )?;
        }
        let ghost standard = Emitted { entries: entries.deep_view(), data: data@ };
        let ghost blocks = self.proprietary_blocks.deep_view();
        assert(spec_emit_standard(self@) == Ok::<Emitted, WriteErrorView>(standard));
        assert(blocks.take(0) =~= Seq::<ProprietaryBlockView>::empty());
        let mut k: usize = 0;
        while k < self.proprietary_blocks.len()
            invariant
                k <= self.proprietary_blocks@.len() <= 32760,
                blocks == self.proprietary_blocks.deep_view(),
                blocks == self@.proprietary_blocks,
                fits_format(self@),
                spec_emit_standard(self@) == Ok::<Emitted, WriteErrorView>(standard),
                spec_emit_proprietary(self@.map, standard, blocks.take(k as int)) == Ok::<
                    Emitted,
                    WriteErrorView,
                >(Emitted { entries: entries.deep_view(), data: data@ }),
                entries@.len() <= 5 + k,
                names_ascii(entries.deep_view()),
                table_size(entries.deep_view()) <= 78 + names_size(blocks.take(k as int)),
            decreases self.proprietary_blocks@.len() - k,
        {
            let pb = &self.proprietary_blocks[k];
            proof {
                assert(blocks.take(k as int + 1).drop_last() =~= blocks.take(k as int));
                assert(blocks[k as int] == pb@);
                lemma_names_size_step(blocks, k as int);
            }
            match emit(
                &self.map,
                &mut entries,
                &mut data,
                pb.header.as_str(),
                self.gen_proprietary_block(pb),
            ) {
                Ok(_) => {},
                Err(e) => {
                    proof {
                        lemma_emit_proprietary_prefix(self@.map, standard, blocks, k as int + 1);
                    }
                    return Err(e);
                },
            }
            k += 1;
        }
        assert(blocks.take(k as int) =~= blocks);
        let ghost st = Emitted { entries: entries.deep_view(), data: data@ };
        assert(spec_emitted(self@) == Ok::<Emitted, WriteErrorView>(st));
        let ghost before = entries.deep_view();
        let entry = BlockInfo {
            identifier: BLOCK_ID_CHECKSUM.to_owned(),
            revision_number: 200,
            size: 8,
        };
        entries.push(entry);
        assert(entries.deep_view() =~= before.push(checksum_entry()));
        assert(names_ascii(entries.deep_view()));
        proof {
            lemma_table_size_push(before, checksum_entry());
        }
        let table = table_bytes(&entries);
        let new_map = MapBlock {
            revision_number: self.map.revision_number,
            block_size: table as i32,
            block_count: entries.len() as i16,
            block_info: entries,
        };
        proof {
            lemma_names_ascii_no_error(new_map@.block_info);
            assert(new_map@.block_info == st.entries.push(checksum_entry()));
            assert(MapBlockView {
                block_size: (new_map@.block_size + map_overhead()) as i32,
                block_count: (new_map@.block_count + 1) as i16,
                ..new_map@
            } == spec_new_map(self@.map.revision_number, st));
        }
        let mut out = self.gen_map(new_map)?;
        out.extend_from_slice(data.as_slice());
        let ghost head = out@;
        assert(head == map_block_bytes(spec_new_map(self@.map.revision_number, st)) + st.data);
        let checksum = self.gen_checksum_block(&out)?;
        out.extend_from_slice(checksum.as_slice());
        assert(out@ == head + checksum_block_bytes(crc16_ibm_3740(head)));
        assert(out@ == spec_assemble(self@.map.revision_number, st));
        Ok(out)
    }
}

} // verus!
