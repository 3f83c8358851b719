//! What holds of reading and writing whole files.
//!
//! A file that is written and read again has the blocks it had, and its
//! checksum is found valid. The lemmas on the way follow the writer block by
//! block and the reader entry by entry.
use crate::crc16::crc16_ibm_3740;
use crate::parser::{
    lemma_block_position, sizes_non_negative, spec_block_kind, spec_blocks, spec_map_block,
    spec_only_map, spec_parse_file, spec_take, spec_validate_checksum, spec_with_block, total_size,
    ParseError, BLOCK_ID_CHECKSUM, BLOCK_ID_DATAPTS, BLOCK_ID_FXDPARAMS, BLOCK_ID_GENPARAMS,
    BLOCK_ID_KEYEVENTS, BLOCK_ID_SUPPARAMS,
};
use crate::roundtrip::{
    all_wf, block_info_wf, data_points_wf, fixed_parameters_wf, general_parameters_wf,
    key_events_wf, lemma_append_empty, lemma_assoc, lemma_checksum_block_roundtrip,
    lemma_concat_map_front, lemma_data_points_parsed, lemma_data_points_roundtrip,
    lemma_fixed_parameters_parsed, lemma_fixed_parameters_roundtrip,
    lemma_general_parameters_parsed, lemma_general_parameters_roundtrip, lemma_key_events_parsed,
    lemma_key_events_roundtrip, lemma_map_block_parsed, lemma_map_block_roundtrip,
    lemma_proprietary_parsed, lemma_proprietary_roundtrip, lemma_supplier_parameters_parsed,
    lemma_supplier_parameters_roundtrip, map_block_wf, nts_ok, supplier_parameters_wf,
};
use crate::types::{
    BlockInfoView, ChecksumBlockView, ChecksumStatus, ChecksumStrategy, ChecksumValidationResult,
    GeneralParametersBlockView, KeyEventView, MapBlockView, ProprietaryBlockView, SORFileView,
};
use crate::wire::signed16;
use crate::writer::{
    block_info_bytes, block_info_bytes_fn, checksum_block_bytes, checksum_entry, concat_map,
    data_points_bytes, first_error_in, fits_format, fixed_parameters_bytes, fixed_parameters_error,
    general_parameters_bytes, general_parameters_error, key_event_error, key_event_error_fn,
    key_events_bytes, key_events_error, lemma_block_ids, lemma_table_size_push, map_block_bytes,
    map_overhead, names_size, proprietary_bytes, spec_emit, spec_emit_proprietary,
    spec_emit_standard, spec_emitted, spec_gen_data_points, spec_gen_fixed_parameters,
    spec_gen_general_parameters, spec_gen_key_events, spec_gen_supplier_parameters, spec_new_map,
    spec_to_bytes, supplier_parameters_bytes, supplier_parameters_error, table_size, Emitted,
    WriteErrorView,
};
use vstd::prelude::*;
use vstd::utf8::*;

verus! {

/// A block as it lies in a file: the name that the map gives it, and its bytes.
pub struct NamedBlock {
    pub name: Seq<char>,
    pub bytes: Seq<u8>,
}

/// The bytes of a named block, as a function.
pub open spec fn bytes_of() -> spec_fn(NamedBlock) -> Seq<u8> {
    |b: NamedBlock| b.bytes
}

/// The entries describe the blocks: each entry has the name and the length
/// of its block.
pub open spec fn describes(entries: Seq<BlockInfoView>, blocks: Seq<NamedBlock>) -> bool {
    &&& entries.len() == blocks.len()
    &&& forall|k: int|
        0 <= k < blocks.len() ==> (#[trigger] entries[k]).identifier == blocks[k].name
            && entries[k].size == blocks[k].bytes.len()
}

/// What was written so far are these blocks, one after the other, and the
/// entries describe them.
pub open spec fn laid_out(st: Emitted, blocks: Seq<NamedBlock>) -> bool {
    &&& describes(st.entries, blocks)
    &&& st.data == concat_map(blocks, bytes_of())
}

/// The file after the blocks were read into it, in their order.
pub open spec fn read_all(f: SORFileView, blocks: Seq<NamedBlock>) -> Result<
    SORFileView,
    ParseError,
>
    decreases blocks.len(),
{
    if blocks.len() == 0 {
        Ok(f)
    } else {
        match read_all(f, blocks.drop_last()) {
            Err(e) => Err(e),
            Ok(g) => spec_with_block(g, blocks.last().name, blocks.last().bytes),
        }
    }
}

/// Once reading fails on the first blocks, it fails on the whole list in the same way.
pub proof fn lemma_read_all_prefix(f: SORFileView, blocks: Seq<NamedBlock>, k: int)
    requires
        0 <= k <= blocks.len(),
        read_all(f, blocks.take(k)) is Err,
    ensures
        read_all(f, blocks) == read_all(f, blocks.take(k)),
    decreases blocks.len() - k,
{
    if k == blocks.len() {
        assert(blocks.take(k) =~= blocks);
    } else {
        assert(blocks.take(k + 1).drop_last() =~= blocks.take(k));
        lemma_read_all_prefix(f, blocks, k + 1);
    }
}

/// The sizes of entries that describe blocks add up to the length of the blocks.
pub proof fn lemma_described_size(entries: Seq<BlockInfoView>, blocks: Seq<NamedBlock>)
    requires
        describes(entries, blocks),
    ensures
        total_size(entries) == concat_map(blocks, bytes_of()).len(),
        sizes_non_negative(entries),
    decreases blocks.len(),
{
    if blocks.len() > 0 {
        let e = entries.drop_last();
        let b = blocks.drop_last();
        assert forall|k: int| 0 <= k < b.len() implies (#[trigger] e[k]).identifier == b[k].name
            && e[k].size == b[k].bytes.len() by {
            assert(e[k] == entries[k]);
        }
        lemma_described_size(e, b);
        assert(entries.last() == entries[entries.len() - 1]);
    }
}

/// Reading by the map is reading the blocks one after the other: where the
/// entries describe the blocks, each block can be read, and the first `k`
/// blocks were read into `g`, the reader goes on from entry `k` through the
/// bytes of the other blocks and ends as reading all the blocks does. Bytes
/// after the last block are left alone.
pub proof fn lemma_blocks_read(
    f: SORFileView,
    entries: Seq<BlockInfoView>,
    blocks: Seq<NamedBlock>,
    k: int,
    g: SORFileView,
    tail: Seq<u8>,
)
    requires
        describes(entries, blocks),
        0 <= k <= blocks.len(),
        read_all(f, blocks.take(k)) == Ok::<SORFileView, ParseError>(g),
        read_all(f, blocks) is Ok,
    ensures
        spec_blocks(g, entries, k, concat_map(blocks.skip(k), bytes_of()) + tail) == read_all(
            f,
            blocks,
        ),
    decreases blocks.len() - k,
{
    if k == blocks.len() {
        assert(blocks.take(k) =~= blocks);
    } else {
        let b = blocks[k];
        let after = concat_map(blocks.skip(k + 1), bytes_of()) + tail;
        let s = concat_map(blocks.skip(k), bytes_of()) + tail;
        lemma_concat_map_front(blocks.skip(k), bytes_of());
        assert(blocks.skip(k).skip(1) =~= blocks.skip(k + 1));
        assert(blocks.skip(k)[0] == b);
        lemma_assoc(b.bytes, concat_map(blocks.skip(k + 1), bytes_of()), tail);
        assert(s == b.bytes + after);
        assert(entries[k].size == b.bytes.len());
        assert(s.take(b.bytes.len() as int) =~= b.bytes);
        assert(s.skip(b.bytes.len() as int) =~= after);
        assert(blocks.take(k + 1).drop_last() =~= blocks.take(k));
        assert(blocks.take(k + 1).last() == b);
        let r = spec_with_block(g, b.name, b.bytes);
        assert(read_all(f, blocks.take(k + 1)) == r);
        match r {
            Err(e) => {
                lemma_read_all_prefix(f, blocks, k + 1);
            },
            Ok(g2) => {
                lemma_blocks_read(f, entries, blocks, k + 1, g2, tail);
            },
        }
    }
}

/// Writing one more block keeps the layout.
pub proof fn lemma_emit_laid_out(
    map: MapBlockView,
    st: Emitted,
    blocks: Seq<NamedBlock>,
    name: Seq<char>,
    bytes: Seq<u8>,
    st2: Emitted,
)
    requires
        laid_out(st, blocks),
        bytes.len() <= i32::MAX,
        spec_emit(map, st, name, Ok(bytes)) == Ok::<Emitted, WriteErrorView>(st2),
    ensures
        laid_out(st2, blocks.push(NamedBlock { name, bytes })),
        table_size(st2.entries) == table_size(st.entries) + name.len() + 7,
{
    lemma_table_size_push(st.entries, st2.entries.last());
    assert(st2.entries.drop_last() =~= st.entries);
    let b2 = blocks.push(NamedBlock { name, bytes });
    assert(b2.drop_last() =~= blocks);
    assert forall|k: int| 0 <= k < b2.len() implies (#[trigger] st2.entries[k]).identifier
        == b2[k].name && st2.entries[k].size == b2[k].bytes.len() by {
        if k < blocks.len() {
            assert(st2.entries[k] == st.entries[k]);
        }
    }
}

/// A name that the reader does not take for a proprietary block's: it gives
/// the block to a decoder of its own or passes over it.
pub open spec fn is_standard_name(name: Seq<char>) -> bool {
    !(spec_block_kind(name) is Proprietary)
}

/// The name that a proprietary block carries can be written and read back,
/// and is none of the standard names.
pub open spec fn proprietary_wf(b: ProprietaryBlockView) -> bool {
    nts_ok(b.header) && !is_standard_name(b.header)
}

/// Every block of the file can be written and read back. Of the proprietary
/// blocks this asks that their names can be.
pub open spec fn blocks_wf(f: SORFileView) -> bool {
    &&& (f.general_parameters matches Some(b) ==> general_parameters_wf(b))
    &&& (f.supplier_parameters matches Some(b) ==> supplier_parameters_wf(b))
    &&& (f.fixed_parameters matches Some(b) ==> fixed_parameters_wf(b))
    &&& (f.key_events matches Some(b) ==> key_events_wf(b))
    &&& (f.data_points matches Some(b) ==> data_points_wf(b))
    &&& all_wf(f.proprietary_blocks, |b: ProprietaryBlockView| nts_ok(b.header))
}

/// No proprietary block carries a standard name.
pub open spec fn proprietary_names_free(f: SORFileView) -> bool {
    forall|k: int|
        0 <= k < f.proprietary_blocks.len() ==> !is_standard_name(
            (#[trigger] f.proprietary_blocks[k]).header,
        )
}

/// Reading a general parameters block that was written sets the file's general parameters.
pub proof fn lemma_read_general_parameters(g: SORFileView, f: SORFileView)
    requires
        f.general_parameters is Some,
        general_parameters_wf(f.general_parameters->Some_0),
    ensures
        spec_with_block(
            g,
            BLOCK_ID_GENPARAMS@,
            general_parameters_bytes(f.general_parameters->Some_0),
        ) == Ok::<SORFileView, ParseError>(
            SORFileView { general_parameters: f.general_parameters, ..g },
        ),
{
    reveal(spec_with_block);
    lemma_block_ids();
    let b = f.general_parameters->Some_0;
    lemma_general_parameters_roundtrip(b, Seq::empty());
    lemma_append_empty(general_parameters_bytes(b));
}

/// Reading a fixed parameters block that was written sets the file's fixed parameters.
pub proof fn lemma_read_fixed_parameters(g: SORFileView, f: SORFileView)
    requires
        f.fixed_parameters is Some,
        fixed_parameters_wf(f.fixed_parameters->Some_0),
    ensures
        spec_with_block(
            g,
            BLOCK_ID_FXDPARAMS@,
            fixed_parameters_bytes(f.fixed_parameters->Some_0),
        ) == Ok::<SORFileView, ParseError>(
            SORFileView { fixed_parameters: f.fixed_parameters, ..g },
        ),
{
    reveal(spec_with_block);
    lemma_block_ids();
    let b = f.fixed_parameters->Some_0;
    lemma_fixed_parameters_roundtrip(b, Seq::empty());
    lemma_append_empty(fixed_parameters_bytes(b));
}

/// Reading a key events block that was written sets the file's key events.
pub proof fn lemma_read_key_events(g: SORFileView, f: SORFileView)
    requires
        f.key_events is Some,
        key_events_wf(f.key_events->Some_0),
    ensures
        spec_with_block(g, BLOCK_ID_KEYEVENTS@, key_events_bytes(f.key_events->Some_0)) == Ok::<
            SORFileView,
            ParseError,
        >(SORFileView { key_events: f.key_events, ..g }),
{
    reveal(spec_with_block);
    lemma_block_ids();
    let b = f.key_events->Some_0;
    lemma_key_events_roundtrip(b, Seq::empty());
    lemma_append_empty(key_events_bytes(b));
}

/// Reading a data points block that was written sets the file's data points.
pub proof fn lemma_read_data_points(g: SORFileView, f: SORFileView)
    requires
        f.data_points is Some,
        data_points_wf(f.data_points->Some_0),
    ensures
        spec_with_block(g, BLOCK_ID_DATAPTS@, data_points_bytes(f.data_points->Some_0)) == Ok::<
            SORFileView,
            ParseError,
        >(SORFileView { data_points: f.data_points, ..g }),
{
    reveal(spec_with_block);
    lemma_block_ids();
    let b = f.data_points->Some_0;
    lemma_data_points_roundtrip(b, Seq::empty());
    lemma_append_empty(data_points_bytes(b));
}

/// Reading a supplier parameters block that was written sets the file's supplier parameters.
pub proof fn lemma_read_supplier_parameters(g: SORFileView, f: SORFileView)
    requires
        f.supplier_parameters is Some,
        supplier_parameters_wf(f.supplier_parameters->Some_0),
    ensures
        spec_with_block(
            g,
            BLOCK_ID_SUPPARAMS@,
            supplier_parameters_bytes(f.supplier_parameters->Some_0),
        ) == Ok::<SORFileView, ParseError>(
            SORFileView { supplier_parameters: f.supplier_parameters, ..g },
        ),
{
    reveal(spec_with_block);
    lemma_block_ids();
    let b = f.supplier_parameters->Some_0;
    lemma_supplier_parameters_roundtrip(b, Seq::empty());
    lemma_append_empty(supplier_parameters_bytes(b));
}

/// Reading a checksum block that was written sets the file's checksum.
pub proof fn lemma_read_checksum(g: SORFileView, value: u16)
    ensures
        spec_with_block(g, BLOCK_ID_CHECKSUM@, checksum_block_bytes(value)) == Ok::<
            SORFileView,
            ParseError,
        >(
            SORFileView {
                checksum: Some(ChecksumBlockView { checksum: signed16(value as int) as i16 }),
                ..g
            },
        ),
{
    reveal(spec_with_block);
    lemma_block_ids();
    lemma_checksum_block_roundtrip(value, Seq::empty());
    lemma_append_empty(checksum_block_bytes(value));
}

/// Reading a proprietary block that was written adds it to the file's proprietary blocks.
pub proof fn lemma_read_proprietary(g: SORFileView, b: ProprietaryBlockView)
    requires
        proprietary_wf(b),
    ensures
        spec_with_block(g, b.header, proprietary_bytes(b)) == Ok::<SORFileView, ParseError>(
            SORFileView { proprietary_blocks: g.proprietary_blocks.push(b), ..g },
        ),
{
    reveal(spec_with_block);
    lemma_proprietary_roundtrip(b);
}

/// The standard blocks of a file as they are written, in the writer's order.
pub open spec fn standard_blocks(f: SORFileView) -> Seq<NamedBlock> {
    let four = Seq::<NamedBlock>::empty().push(
        NamedBlock {
            name: BLOCK_ID_GENPARAMS@,
            bytes: general_parameters_bytes(f.general_parameters->Some_0),
        },
    ).push(
        NamedBlock {
            name: BLOCK_ID_FXDPARAMS@,
            bytes: fixed_parameters_bytes(f.fixed_parameters->Some_0),
        },
    ).push(
        NamedBlock { name: BLOCK_ID_KEYEVENTS@, bytes: key_events_bytes(f.key_events->Some_0) },
    ).push(
        NamedBlock { name: BLOCK_ID_DATAPTS@, bytes: data_points_bytes(f.data_points->Some_0) },
    );
    if f.supplier_parameters is Some {
        four.push(
            NamedBlock {
                name: BLOCK_ID_SUPPARAMS@,
                bytes: supplier_parameters_bytes(f.supplier_parameters->Some_0),
            },
        )
    } else {
        four
    }
}

/// The file `g` with the standard blocks of `f` in it.
pub open spec fn with_standard(g: SORFileView, f: SORFileView) -> SORFileView {
    SORFileView {
        general_parameters: f.general_parameters,
        fixed_parameters: f.fixed_parameters,
        key_events: f.key_events,
        data_points: f.data_points,
        supplier_parameters: if f.supplier_parameters is Some {
            f.supplier_parameters
        } else {
            g.supplier_parameters
        },
        ..g
    }
}

/// Every block has a name that can be written and read back and is not the
/// checksum block's.
pub open spec fn names_ok(blocks: Seq<NamedBlock>) -> bool {
    forall|k: int|
        0 <= k < blocks.len() ==> nts_ok((#[trigger] blocks[k]).name) && blocks[k].name
            != BLOCK_ID_CHECKSUM@
}

/// The standard blocks are written as `standard_blocks` lists them, and
/// reading them back into a file puts them there.
pub proof fn lemma_standard(f: SORFileView, g: SORFileView, st: Emitted)
    requires
        blocks_wf(f),
        fits_format(f),
        spec_emit_standard(f) == Ok::<Emitted, WriteErrorView>(st),
    ensures
        laid_out(st, standard_blocks(f)),
        read_all(g, standard_blocks(f)) == Ok::<SORFileView, ParseError>(with_standard(g, f)),
        names_ok(standard_blocks(f)),
        4 <= standard_blocks(f).len() <= 5,
        table_size(st.entries) <= 78,
{
    lemma_block_ids();
    let st0 = Emitted { entries: Seq::empty(), data: Seq::empty() };
    let b0 = Seq::<NamedBlock>::empty();
    assert(laid_out(st0, b0));
    assert(read_all(g, b0) == Ok::<SORFileView, ParseError>(g));
    let x1 = NamedBlock {
        name: BLOCK_ID_GENPARAMS@,
        bytes: general_parameters_bytes(f.general_parameters->Some_0),
    };
    let st1 = spec_emit(f.map, st0, x1.name, spec_gen_general_parameters(f))->Ok_0;
    lemma_emit_laid_out(f.map, st0, b0, x1.name, x1.bytes, st1);
    let b1 = b0.push(x1);
    assert(b1.drop_last() =~= b0);
    assert(b1.last() == x1);
    lemma_read_general_parameters(g, f);
    let g1 = SORFileView { general_parameters: f.general_parameters, ..g };
    assert(read_all(g, b1) == Ok::<SORFileView, ParseError>(g1));

    let x2 = NamedBlock {
        name: BLOCK_ID_FXDPARAMS@,
        bytes: fixed_parameters_bytes(f.fixed_parameters->Some_0),
    };
    let st2 = spec_emit(f.map, st1, x2.name, spec_gen_fixed_parameters(f))->Ok_0;
    lemma_emit_laid_out(f.map, st1, b1, x2.name, x2.bytes, st2);
    let b2 = b1.push(x2);
    assert(b2.drop_last() =~= b1);
    assert(b2.last() == x2);
    lemma_read_fixed_parameters(g1, f);
    let g2 = SORFileView { fixed_parameters: f.fixed_parameters, ..g1 };
    assert(read_all(g, b2) == Ok::<SORFileView, ParseError>(g2));

    let x3 = NamedBlock { name: BLOCK_ID_KEYEVENTS@, bytes: key_events_bytes(f.key_events->Some_0) };
    let st3 = spec_emit(f.map, st2, x3.name, spec_gen_key_events(f))->Ok_0;
    lemma_emit_laid_out(f.map, st2, b2, x3.name, x3.bytes, st3);
    let b3 = b2.push(x3);
    assert(b3.drop_last() =~= b2);
    assert(b3.last() == x3);
    lemma_read_key_events(g2, f);
    let g3 = SORFileView { key_events: f.key_events, ..g2 };
    assert(read_all(g, b3) == Ok::<SORFileView, ParseError>(g3));

    let x4 = NamedBlock { name: BLOCK_ID_DATAPTS@, bytes: data_points_bytes(f.data_points->Some_0) };
    let st4 = spec_emit(f.map, st3, x4.name, spec_gen_data_points(f))->Ok_0;
    lemma_emit_laid_out(f.map, st3, b3, x4.name, x4.bytes, st4);
    let b4 = b3.push(x4);
    assert(b4.drop_last() =~= b3);
    assert(b4.last() == x4);
    lemma_read_data_points(g3, f);
    let g4 = SORFileView { data_points: f.data_points, ..g3 };
    assert(read_all(g, b4) == Ok::<SORFileView, ParseError>(g4));

    if f.supplier_parameters is Some {
        let x5 = NamedBlock {
            name: BLOCK_ID_SUPPARAMS@,
            bytes: supplier_parameters_bytes(f.supplier_parameters->Some_0),
        };
        lemma_emit_laid_out(f.map, st4, b4, x5.name, x5.bytes, st);
        let b5 = b4.push(x5);
        assert(b5.drop_last() =~= b4);
        assert(b5.last() == x5);
    assert(b5.last() == x5);
        lemma_read_supplier_parameters(g4, f);
        assert(read_all(g, b5) == Ok::<SORFileView, ParseError>(with_standard(g, f)));
        assert(standard_blocks(f) == b5);
    } else {
        assert(g4 == with_standard(g, f));
        assert(standard_blocks(f) == b4);
    }
}

/// A proprietary block as it lies in a file.
pub open spec fn named(b: ProprietaryBlockView) -> NamedBlock {
    NamedBlock { name: b.header, bytes: proprietary_bytes(b) }
}

/// Proprietary blocks as they lie in a file.
pub open spec fn named_all(blocks: Seq<ProprietaryBlockView>) -> Seq<NamedBlock> {
    Seq::new(blocks.len(), |i: int| named(blocks[i]))
}

/// The proprietary blocks are written one after the other behind what was
/// written before, and reading them back adds them to the file's
/// proprietary blocks.
pub proof fn lemma_proprietary(
    map: MapBlockView,
    st0: Emitted,
    base: Seq<NamedBlock>,
    f: SORFileView,
    g: SORFileView,
    blocks: Seq<ProprietaryBlockView>,
    k: int,
    st: Emitted,
)
    requires
        0 <= k <= blocks.len(),
        laid_out(st0, base),
        read_all(f, base) == Ok::<SORFileView, ParseError>(g),
        names_ok(base),
        forall|i: int|
            0 <= i < blocks.len() ==> proprietary_wf(#[trigger] blocks[i]) && proprietary_bytes(
                blocks[i],
            ).len() <= i32::MAX,
        spec_emit_proprietary(map, st0, blocks.take(k)) == Ok::<Emitted, WriteErrorView>(st),
    ensures
        laid_out(st, base + named_all(blocks.take(k))),
        read_all(f, base + named_all(blocks.take(k))) == Ok::<SORFileView, ParseError>(
            SORFileView { proprietary_blocks: g.proprietary_blocks + blocks.take(k), ..g },
        ),
        names_ok(base + named_all(blocks.take(k))),
        table_size(st.entries) == table_size(st0.entries) + names_size(blocks.take(k)),
    decreases k,
{
    lemma_block_ids();
    if k == 0 {
        assert(blocks.take(0) =~= Seq::<ProprietaryBlockView>::empty());
        assert(base + named_all(blocks.take(0)) =~= base);
        assert(g.proprietary_blocks + blocks.take(0) =~= g.proprietary_blocks);
    } else {
        let b = blocks[k - 1];
        assert(blocks.take(k).drop_last() =~= blocks.take(k - 1));
        assert(blocks.take(k).last() == b);
        let st1 = spec_emit_proprietary(map, st0, blocks.take(k - 1))->Ok_0;
        lemma_proprietary(map, st0, base, f, g, blocks, k - 1, st1);
        let before = base + named_all(blocks.take(k - 1));
        let all = base + named_all(blocks.take(k));
        assert(proprietary_wf(b));
        lemma_emit_laid_out(map, st1, before, b.header, proprietary_bytes(b), st);
        assert(all =~= before.push(named(b)));
        assert(all.drop_last() =~= before);
        assert(all.last() == named(b));
        let g1 = SORFileView { proprietary_blocks: g.proprietary_blocks + blocks.take(k - 1), ..g };
        lemma_read_proprietary(g1, b);
        assert((g.proprietary_blocks + blocks.take(k - 1)).push(b) =~= g.proprietary_blocks
            + blocks.take(k));
        assert forall|i: int| 0 <= i < all.len() implies nts_ok((#[trigger] all[i]).name)
            && all[i].name != BLOCK_ID_CHECKSUM@ by {
            if i < before.len() {
                assert(all[i] == before[i]);
            }
        }
    }
}

/// The bytes that the entries take in a map are as many as `table_size` says.
pub proof fn lemma_table_bytes_len(entries: Seq<BlockInfoView>)
    ensures
        concat_map(entries, block_info_bytes_fn()).len() == table_size(entries),
        table_size(entries) >= 0,
    decreases entries.len(),
{
    reveal(block_info_bytes);
    if entries.len() > 0 {
        lemma_table_bytes_len(entries.drop_last());
    }
}

/// A map block is twelve bytes longer than its entries.
pub proof fn lemma_map_bytes_len(m: MapBlockView)
    ensures
        map_block_bytes(m).len() == map_overhead() + table_size(m.block_info),
{
    reveal(map_block_bytes);
    lemma_block_ids();
    lemma_table_bytes_len(m.block_info);
}

/// The file that is read from the bytes that a file is written as: the
/// blocks of the file that was written, without its link parameters; the
/// map that the writer made; the checksum that the writer computed.
pub open spec fn reread(f: SORFileView) -> SORFileView {
    let st = spec_emitted(f)->Ok_0;
    let map = spec_new_map(f.map.revision_number, st);
    let head = map_block_bytes(map) + st.data;
    SORFileView {
        map,
        general_parameters: f.general_parameters,
        supplier_parameters: f.supplier_parameters,
        fixed_parameters: f.fixed_parameters,
        key_events: f.key_events,
        link_parameters: None,
        data_points: f.data_points,
        proprietary_blocks: f.proprietary_blocks,
        checksum: Some(
            ChecksumBlockView { checksum: signed16(crc16_ibm_3740(head) as int) as i16 },
        ),
    }
}

/// The layout of the bytes that a file is written as: the map, then the
/// blocks that the map's entries describe.
proof fn lemma_written_layout(f: SORFileView, out: Seq<u8>) -> (blocks: Seq<NamedBlock>)
    requires
        blocks_wf(f),
        proprietary_names_free(f),
        fits_format(f),
        spec_to_bytes(f) == Ok::<Seq<u8>, WriteErrorView>(out),
    ensures
        ({
            let st = spec_emitted(f)->Ok_0;
            let map = spec_new_map(f.map.revision_number, st);
            let head = map_block_bytes(map) + st.data;
            &&& spec_emitted(f) is Ok
            &&& laid_out(st, blocks.drop_last())
            &&& names_ok(blocks.drop_last())
            &&& blocks.len() == st.entries.len() + 1
            &&& blocks.len() <= 32766
            &&& describes(map.block_info, blocks)
            &&& blocks.last() == (NamedBlock {
                name: BLOCK_ID_CHECKSUM@,
                bytes: checksum_block_bytes(crc16_ibm_3740(head)),
            })
            &&& checksum_block_bytes(crc16_ibm_3740(head)).len() == 8
            &&& out == map_block_bytes(map) + concat_map(blocks, bytes_of())
            &&& out == head + checksum_block_bytes(crc16_ibm_3740(head))
            &&& map_block_wf(map)
            &&& table_size(map.block_info) + map_overhead() <= i32::MAX
            &&& read_all(spec_only_map(map), blocks) == Ok::<SORFileView, ParseError>(reread(f))
        }),
{
    lemma_block_ids();
    let st = spec_emitted(f)->Ok_0;
    let standard = spec_emit_standard(f)->Ok_0;
    let map = spec_new_map(f.map.revision_number, st);
    let first = spec_only_map(map);
    let head = map_block_bytes(map) + st.data;
    let ck = checksum_block_bytes(crc16_ibm_3740(head));
    let pbs = f.proprietary_blocks;
    lemma_standard(f, first, standard);
    let base = standard_blocks(f);
    let g0 = with_standard(first, f);
    assert(pbs.take(pbs.len() as int) =~= pbs);
    assert forall|i: int| 0 <= i < pbs.len() implies proprietary_wf(#[trigger] pbs[i])
        && proprietary_bytes(pbs[i]).len() <= i32::MAX by {
        assert(nts_ok(pbs[i].header));
        assert(!is_standard_name(pbs[i].header));
    }
    lemma_proprietary(f.map, standard, base, first, g0, pbs, pbs.len() as int, st);
    let written = base + named_all(pbs);
    let g1 = SORFileView { proprietary_blocks: g0.proprietary_blocks + pbs, ..g0 };
    assert(g0.proprietary_blocks + pbs =~= pbs);
    let last = NamedBlock { name: BLOCK_ID_CHECKSUM@, bytes: ck };
    let blocks = written.push(last);
    assert(blocks.drop_last() =~= written);
    assert(blocks.last() == last);
    assert(ck.len() == 8);
    assert forall|k: int| 0 <= k < blocks.len() implies (#[trigger] map.block_info[k]).identifier
        == blocks[k].name && map.block_info[k].size == blocks[k].bytes.len() by {
        if k < written.len() {
            assert(map.block_info[k] == st.entries[k]);
        }
    }
    lemma_assoc(map_block_bytes(map), st.data, ck);
    assert forall|i: int| 0 <= i < map.block_info.len() implies block_info_wf(
        #[trigger] map.block_info[i],
    ) by {
        assert(map.block_info[i].identifier == blocks[i].name);
        if i < written.len() {
            assert(blocks[i] == written[i]);
        }
    }
    lemma_read_checksum(g1, crc16_ibm_3740(head));
    lemma_table_size_push(st.entries, checksum_entry());
    blocks
}

/// A file that is written is read back as it was.
///
/// For a file whose blocks can be written and read back, whose proprietary
/// blocks carry none of the standard names and which fits the format,
/// reading the bytes it is written as gives `reread`: its general, supplier
/// and fixed parameters, its key events, its data points and its proprietary
/// blocks as they were, under a new map and a new checksum.
pub proof fn lemma_written_file_is_read_back(f: SORFileView, out: Seq<u8>)
    requires
        blocks_wf(f),
        proprietary_names_free(f),
        fits_format(f),
        spec_to_bytes(f) == Ok::<Seq<u8>, WriteErrorView>(out),
    ensures
        spec_parse_file(out) == Ok::<SORFileView, ParseError>(reread(f)),
        reread(f).general_parameters == f.general_parameters,
        reread(f).supplier_parameters == f.supplier_parameters,
        reread(f).fixed_parameters == f.fixed_parameters,
        reread(f).key_events == f.key_events,
        reread(f).data_points == f.data_points,
        reread(f).proprietary_blocks == f.proprietary_blocks,
{
    let blocks = lemma_written_layout(f, out);
    let st = spec_emitted(f)->Ok_0;
    let map = spec_new_map(f.map.revision_number, st);
    let first = spec_only_map(map);
    let rest = concat_map(blocks, bytes_of());
    lemma_map_block_roundtrip(map, rest);
    lemma_described_size(map.block_info, blocks);
    assert(blocks.take(0) =~= Seq::<NamedBlock>::empty());
    assert(read_all(first, blocks.take(0)) == Ok::<SORFileView, ParseError>(first));
    lemma_blocks_read(first, map.block_info, blocks, 0, first, Seq::empty());
    assert(blocks.skip(0) =~= blocks);
    lemma_append_empty(rest);
}

/// The checksum of a file that was written is found valid, by the bytes
/// that precede the checksum block: checking the bytes against the file that
/// is read from them finds the stored value equal to the check value of all
/// bytes but the last eight.
pub proof fn lemma_written_checksum_is_valid(f: SORFileView, out: Seq<u8>)
    requires
        blocks_wf(f),
        proprietary_names_free(f),
        fits_format(f),
        spec_to_bytes(f) == Ok::<Seq<u8>, WriteErrorView>(out),
    ensures
        out.len() >= 8,
        spec_parse_file(out) matches Ok(g) && spec_validate_checksum(out, g) == (
        ChecksumValidationResult {
            status: ChecksumStatus::Valid,
            stored: Some(crc16_ibm_3740(out.take(out.len() - 8))),
            matched: Some(crc16_ibm_3740(out.take(out.len() - 8))),
            matched_by: Some(ChecksumStrategy::PrecedingBytes),
        }),
{
    lemma_written_file_is_read_back(f, out);
    let blocks = lemma_written_layout(f, out);
    let st = spec_emitted(f)->Ok_0;
    let map = spec_new_map(f.map.revision_number, st);
    let head = map_block_bytes(map) + st.data;
    let value = crc16_ibm_3740(head);
    let entries = map.block_info;
    let last = entries.len() - 1;
    let written = blocks.drop_last();
    assert forall|j: int| 0 <= j < last implies (#[trigger] entries[j]).identifier
        != BLOCK_ID_CHECKSUM@ by {
        assert(entries[j].identifier == blocks[j].name);
        assert(blocks[j] == written[j]);
    }
    assert(entries[last].identifier == blocks[last].name);
    lemma_block_position(entries, BLOCK_ID_CHECKSUM@, last);
    lemma_map_bytes_len(map);
    lemma_described_size(entries, blocks);
    assert(entries.take(last + 1) =~= entries);
    assert(entries.take(last) =~= st.entries);
    lemma_described_size(st.entries, written);
    assert(out.take(out.len() - 8) =~= head);
    lemma_checksum_block_roundtrip(value, Seq::empty());
}

/// Reading one more block into a file whose blocks can be written and read
/// back leaves it such a file.
pub proof fn lemma_with_block_wf(g: SORFileView, name: Seq<char>, data: Seq<u8>)
    requires
        blocks_wf(g),
        spec_with_block(g, name, data) is Ok,
    ensures
        blocks_wf(spec_with_block(g, name, data)->Ok_0),
        spec_with_block(g, name, data)->Ok_0.map == g.map,
        spec_with_block(g, name, data)->Ok_0.link_parameters == g.link_parameters,
{
    reveal(spec_with_block);
    lemma_general_parameters_parsed(data);
    lemma_supplier_parameters_parsed(data);
    lemma_fixed_parameters_parsed(data);
    lemma_key_events_parsed(data);
    lemma_data_points_parsed(data);
    lemma_proprietary_parsed(data);
    let g2 = spec_with_block(g, name, data)->Ok_0;
    assert forall|i: int| 0 <= i < g2.proprietary_blocks.len() implies nts_ok(
        (#[trigger] g2.proprietary_blocks[i]).header,
    ) by {
        if i < g.proprietary_blocks.len() {
            assert(g2.proprietary_blocks[i] == g.proprietary_blocks[i]);
        }
    }
}

/// Reading the blocks that a map lists into a file whose blocks can be
/// written and read back leaves it such a file.
pub proof fn lemma_blocks_wf(g: SORFileView, infos: Seq<BlockInfoView>, k: int, s: Seq<u8>)
    requires
        blocks_wf(g),
        spec_blocks(g, infos, k, s) is Ok,
    ensures
        blocks_wf(spec_blocks(g, infos, k, s)->Ok_0),
        spec_blocks(g, infos, k, s)->Ok_0.map == g.map,
        spec_blocks(g, infos, k, s)->Ok_0.link_parameters == g.link_parameters,
    decreases infos.len() - k,
{
    if 0 <= k < infos.len() {
        let (data, rest) = spec_take(s, infos[k].size as nat)->Ok_0;
        lemma_with_block_wf(g, infos[k].identifier, data);
        let g2 = spec_with_block(g, infos[k].identifier, data)->Ok_0;
        lemma_blocks_wf(g2, infos, k + 1, rest);
    }
}

/// What holds of every file that was read. Each of its blocks can be
/// written and read back. Its map counts its entries and itself, and
/// declares no negative size. It has no link parameters.
pub proof fn lemma_parsed_file_wf(bytes: Seq<u8>)
    requires
        spec_parse_file(bytes) is Ok,
    ensures
        blocks_wf(spec_parse_file(bytes)->Ok_0),
        map_block_wf(spec_parse_file(bytes)->Ok_0.map),
        sizes_non_negative(spec_parse_file(bytes)->Ok_0.map.block_info),
        spec_parse_file(bytes)->Ok_0.link_parameters is None,
{
    let (map, rest) = spec_map_block(bytes)->Ok_0;
    lemma_map_block_parsed(bytes);
    lemma_blocks_wf(spec_only_map(map), map.block_info, 0, rest);
}

/// A file that was read, then written and read again, has the blocks it had.
///
/// This holds of every file that was read and can be written, but for one
/// whose proprietary blocks carry a standard name: the second reading would
/// take such a block for the standard one.
pub proof fn lemma_parse_write_parse(bytes: Seq<u8>, f: SORFileView, out: Seq<u8>)
    requires
        spec_parse_file(bytes) == Ok::<SORFileView, ParseError>(f),
        proprietary_names_free(f),
        fits_format(f),
        spec_to_bytes(f) == Ok::<Seq<u8>, WriteErrorView>(out),
    ensures
        spec_parse_file(out) matches Ok(g) && {
            &&& g.general_parameters == f.general_parameters
            &&& g.supplier_parameters == f.supplier_parameters
            &&& g.fixed_parameters == f.fixed_parameters
            &&& g.key_events == f.key_events
            &&& g.data_points == f.data_points
            &&& g.proprietary_blocks == f.proprietary_blocks
        },
{
    lemma_parsed_file_wf(bytes);
    lemma_written_file_is_read_back(f, out);
}

/// A value that was changed between reading and writing is read back as
/// it was changed, and nothing else is.
///
/// Here the general parameters of a file that was read are replaced by
/// others that can be written and read back; the same holds of any other
/// block, by `lemma_written_file_is_read_back`.
pub proof fn lemma_modified_file_is_read_back(
    bytes: Seq<u8>,
    f: SORFileView,
    changed: GeneralParametersBlockView,
    out: Seq<u8>,
)
    requires
        spec_parse_file(bytes) == Ok::<SORFileView, ParseError>(f),
        general_parameters_wf(changed),
        proprietary_names_free(f),
        fits_format(SORFileView { general_parameters: Some(changed), ..f }),
        spec_to_bytes(SORFileView { general_parameters: Some(changed), ..f }) == Ok::<
            Seq<u8>,
            WriteErrorView,
        >(out),
    ensures
        spec_parse_file(out) matches Ok(g) && {
            &&& g.general_parameters == Some(changed)
            &&& g.supplier_parameters == f.supplier_parameters
            &&& g.fixed_parameters == f.fixed_parameters
            &&& g.key_events == f.key_events
            &&& g.data_points == f.data_points
            &&& g.proprietary_blocks == f.proprietary_blocks
        },
{
    lemma_parsed_file_wf(bytes);
    lemma_written_file_is_read_back(SORFileView { general_parameters: Some(changed), ..f }, out);
}

/// An error that says that a string cannot be written.
pub open spec fn is_string_error(e: WriteErrorView) -> bool {
    e is Utf8EncodingError || e is FixedLengthStringMismatchError
}

/// The first error of a list is an error of one of its values.
pub proof fn lemma_first_error_kind<T>(xs: Seq<T>, f: spec_fn(T) -> Option<WriteErrorView>)
    requires
        forall|x: T| (#[trigger] f(x)) matches Some(e) ==> is_string_error(e),
    ensures
        first_error_in(xs, f) matches Some(e) ==> is_string_error(e),
    decreases xs.len(),
{
    if xs.len() > 0 {
        lemma_first_error_kind(xs.drop_last(), f);
    }
}

/// What stops a block from being written, once the file has it, is one of its strings.
pub proof fn lemma_block_error_kinds(f: SORFileView)
    ensures
        f.general_parameters is Some ==> (spec_gen_general_parameters(f) matches Err(e)
            ==> is_string_error(e)),
        f.fixed_parameters is Some ==> (spec_gen_fixed_parameters(f) matches Err(e)
            ==> is_string_error(e)),
        f.key_events is Some ==> (spec_gen_key_events(f) matches Err(e) ==> is_string_error(e)),
        f.data_points is Some ==> spec_gen_data_points(f) is Ok,
        spec_gen_supplier_parameters(f) matches Err(e) ==> is_string_error(e),
{
    reveal(general_parameters_error);
    reveal(fixed_parameters_error);
    reveal(supplier_parameters_error);
    reveal(key_events_error);
    if f.key_events is Some {
        assert forall|x: KeyEventView| (#[trigger] key_event_error_fn()(x)) matches Some(e)
            ==> is_string_error(e) by {
            reveal(key_event_error);
        }
        lemma_first_error_kind(f.key_events->Some_0.key_events, key_event_error_fn());
        reveal(key_event_error);
    }
}

/// Writing proprietary blocks never fails for want of a mandatory block.
pub proof fn lemma_emit_proprietary_error(
    map: MapBlockView,
    st: Emitted,
    blocks: Seq<ProprietaryBlockView>,
)
    ensures
        spec_emit_proprietary(map, st, blocks) matches Err(e) ==> !(e is MissingMandatoryBlock),
    decreases blocks.len(),
{
    if blocks.len() > 0 {
        lemma_emit_proprietary_error(map, st, blocks.drop_last());
    }
}

/// `name` is the name of one of the four blocks that the format demands, and the file lacks it.
pub open spec fn lacks_mandatory(f: SORFileView, name: Seq<char>) -> bool {
    ||| name == BLOCK_ID_GENPARAMS@ && f.general_parameters is None
    ||| name == BLOCK_ID_FXDPARAMS@ && f.fixed_parameters is None
    ||| name == BLOCK_ID_KEYEVENTS@ && f.key_events is None
    ||| name == BLOCK_ID_DATAPTS@ && f.data_points is None
}

/// A file that lacks one of the four blocks that the format demands is not
/// written. Without general parameters the error says so; and whenever the
/// error is that of a missing block, it names a block that the file lacks.
pub proof fn lemma_missing_mandatory_block(f: SORFileView)
    ensures
        f.general_parameters is None ==> spec_to_bytes(f) == Err::<Seq<u8>, WriteErrorView>(
            WriteErrorView::MissingMandatoryBlock(BLOCK_ID_GENPARAMS@),
        ),
        spec_to_bytes(f) is Ok ==> f.general_parameters is Some && f.fixed_parameters is Some
            && f.key_events is Some && f.data_points is Some,
        spec_to_bytes(f) matches Err(WriteErrorView::MissingMandatoryBlock(name))
            ==> lacks_mandatory(f, name),
{
    lemma_block_error_kinds(f);
    if spec_emit_standard(f) is Ok {
        lemma_emit_proprietary_error(f.map, spec_emit_standard(f)->Ok_0, f.proprietary_blocks);
    }
}

} // verus!
