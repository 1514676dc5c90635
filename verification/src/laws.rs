//! What holds across the encoder and the decoder: what one writes, the other reads back.
use vstd::prelude::*;
use crate::wire::{le16, le32, le64, lei32, zeros, get_u32, lemma_le_roundtrip};
use crate::opt::{Compression, Lz4Mode, settings_bytes, parse_settings, stores, restored_body};
use crate::data::{Tilev1, tile_bytes, tile_at, tiles_bytes, map_body_bytes, parse_map, map_has_building,
    id_record_fits, id_record_next};
use crate::dec::{magic, header_bytes, parse_header, first_nonzero, read_frame, decode_body, BodyView,
    check_id_body, check_id_records, next_chunk_spec, shifted, name_byte_ok};
use crate::enc::{start_ops, start_pos, change_record, change_step, lemma_change_record_len, write_chunk_spec, entry_bytes, table_body, validity_step, can_jmp, pos_bound, JmpTableImpl, frame_bytes, EncoderView, encoder_wf, features_check, flush_mod_spec, jmp_step, chunk_step, OpView};
use crate::data::{map_height, kind_byte, ChunkKind, ChangeKind, check_mod_records, mod_record_next};
use crate::io::IoCaps;
use crate::enc::Builder;

verus! {

/// Bytes `b` that stand at `at` of `s` can be read back there.
proof fn lemma_window(s: Seq<u8>, at: int, b: Seq<u8>)
    requires
        0 <= at,
        at + b.len() <= s.len(),
        s.subrange(at, at + b.len()) == b,
    ensures
        forall|i: int, j: int| 0 <= i <= j <= b.len() ==> #[trigger] s.subrange(at + i, at + j) == b.subrange(i, j),
{
    assert forall|i: int, j: int| 0 <= i <= j <= b.len() implies #[trigger] s.subrange(at + i, at + j) == b.subrange(i, j) by {
        assert(s.subrange(at + i, at + j) =~= s.subrange(at, at + b.len()).subrange(i, j));
    }
}

/// The compression settings that the encoder writes are read back by the decoder, whatever
/// follows them.
pub proof fn law_settings_roundtrip(c: Compression, rest: Seq<u8>)
    ensures
        parse_settings(settings_bytes(c) + rest) == Ok::<(Compression, nat), crate::error::DecodeError>((c, settings_bytes(c).len())),
{
    lemma_le_roundtrip();
    let s = settings_bytes(c) + rest;
    match c {
        Compression::Uncompressed => {},
        Compression::Lz4 { mode } => match mode {
            Lz4Mode::Default => {},
            Lz4Mode::Fast(x) => {
                assert(s.subrange(2, 6) =~= lei32(x));
            },
            Lz4Mode::HighCompression(x) => {
                assert(s.subrange(2, 6) =~= lei32(x));
            },
        },
        Compression::Deflate { quality } => {
            assert(s.subrange(1, 5) =~= le32(quality));
        },
        Compression::Zlib { quality } => {
            assert(s.subrange(1, 5) =~= le32(quality));
        },
        Compression::Gzip { quality } => {
            assert(s.subrange(1, 5) =~= le32(quality));
        },
    }
}

/// No byte of a run of zeros is non-zero.
proof fn lemma_zeros_first_nonzero(n: nat)
    ensures
        first_nonzero(zeros(n)) is None,
    decreases n,
{
    if n > 0 {
        assert(zeros(n).skip(1) =~= zeros((n - 1) as nat));
        lemma_zeros_first_nonzero((n - 1) as nat);
    }
}

/// The header that the encoder writes for a compression, followed by the stop block that the
/// encoder's first writes put after it, is accepted by the decoder, which reads that
/// compression back, whatever follows them.
pub proof fn law_header_roundtrip(c: Compression, rest: Seq<u8>)
    ensures
        parse_header(header_bytes(c) + zeros(21) + rest)
            == Ok::<(Compression, nat), crate::error::DecodeError>((c, header_bytes(c).len() + 21)),
{
    lemma_le_roundtrip();
    let set = settings_bytes(c);
    let s = header_bytes(c) + zeros(21) + rest;
    assert(s.subrange(0, 4) =~= magic());
    assert(s.subrange(4, 6) =~= le16(1));
    assert(s.skip(6) =~= set + (zeros(21) + rest));
    law_settings_roundtrip(c, zeros(21) + rest);
    let n = set.len();
    assert(s.subrange(6 + n as int, 6 + n + 21 as int) =~= zeros(21));
    lemma_zeros_first_nonzero(21);
}

/// The bytes of `n` tiles take 14 bytes each, each tile's in its place.
proof fn lemma_tiles_bytes(tiles: Seq<Tilev1>)
    ensures
        tiles_bytes(tiles).len() == 14 * tiles.len(),
        forall|k: int| 0 <= k < tiles.len() ==> #[trigger] tiles_bytes(tiles).subrange(14 * k, 14 * k + 14) == tile_bytes(tiles[k]),
    decreases tiles.len(),
{
    lemma_le_roundtrip();
    if tiles.len() > 0 {
        let init = tiles.drop_last();
        lemma_tiles_bytes(init);
        let b = tiles_bytes(tiles);
        assert(b == tiles_bytes(init) + tile_bytes(tiles.last()));
        assert forall|k: int| 0 <= k < tiles.len() implies #[trigger] tiles_bytes(tiles).subrange(14 * k, 14 * k + 14) == tile_bytes(tiles[k]) by {
            if k < tiles.len() - 1 {
                assert(b.subrange(14 * k, 14 * k + 14) =~= tiles_bytes(init).subrange(14 * k, 14 * k + 14));
                assert(init[k] == tiles[k]);
            } else {
                assert(b.subrange(14 * k, 14 * k + 14) =~= tile_bytes(tiles.last()));
            }
        }
    }
}

/// A tile whose bytes stand at `at` is read back there, and its building marker is zero.
proof fn lemma_tile_at(s: Seq<u8>, at: int, t: Tilev1)
    requires
        0 <= at,
        at + 14 <= s.len(),
        s.subrange(at, at + 14) == tile_bytes(t),
    ensures
        tile_at(s, at) == t,
        s[at + 13] == 0,
{
    lemma_le_roundtrip();
    let b = tile_bytes(t);
    lemma_window(s, at, b);
    assert(s.subrange(at, at + 2) == b.subrange(0, 2));
    assert(b.subrange(0, 2) =~= le16(t.block_id));
    assert(s.subrange(at + 2, at + 4) == b.subrange(2, 4));
    assert(b.subrange(2, 4) =~= le16(t.floor_id));
    assert(s.subrange(at + 4, at + 6) == b.subrange(4, 6));
    assert(b.subrange(4, 6) =~= le16(t.overlay_id));
    assert(s.subrange(at + 9, at + 13) == b.subrange(9, 13));
    assert(b.subrange(9, 13) =~= le32(t.extra_data));
    assert(s[at + 6] == s.subrange(at, at + 14)[6]);
    assert(s[at + 7] == s.subrange(at, at + 14)[7]);
    assert(s[at + 8] == s.subrange(at, at + 14)[8]);
    assert(s[at + 13] == s.subrange(at, at + 14)[13]);
}

/// A map body that the encoder writes is decoded back to its width and tiles, whatever
/// follows it.
pub proof fn law_map_roundtrip(width: u32, height: u32, tiles: Seq<Tilev1>, rest: Seq<u8>)
    requires
        tiles.len() == width as nat * height as nat,
    ensures
        parse_map(map_body_bytes(width, height, tiles) + rest) == Ok::<(u32, Seq<Tilev1>), crate::error::DecodeError>((width, tiles)),
{
    lemma_le_roundtrip();
    lemma_tiles_bytes(tiles);
    let tb = tiles_bytes(tiles);
    let s = map_body_bytes(width, height, tiles) + rest;
    assert(s =~= le32(width) + le32(height) + tb + (le32(0) + rest));
    assert(s.subrange(0, 4) =~= le32(width));
    assert(s.subrange(4, 8) =~= le32(height));
    let n = tiles.len();
    assert forall|k: int| 0 <= k < n implies #[trigger] s.subrange(8 + 14 * k, 8 + 14 * k + 14) == tile_bytes(tiles[k]) by {
        assert(s.subrange(8 + 14 * k, 8 + 14 * k + 14) =~= tb.subrange(14 * k, 14 * k + 14));
    }
    assert forall|k: int| 0 <= k < n implies #[trigger] tile_at(s, 8 + 14 * k) == tiles[k] && s[8 + 14 * k + 13] == 0 by {
        assert(s.subrange(8 + 14 * k, 8 + 14 * k + 14) == tile_bytes(tiles[k]));
        lemma_tile_at(s, 8 + 14 * k, tiles[k]);
    }
    assert forall|k: int| 0 <= k < n implies #[trigger] s[8 + 14 * k + 13] == 0 by {
        assert(tile_at(s, 8 + 14 * k) == tiles[k]);
    }
    assert(!map_has_building(s, n));
    assert(s.len() >= 8 + 14 * n);
    assert(Seq::new(n, |k: int| tile_at(s, 8 + 14 * k)) =~= tiles);
}

/// A chunk frame that the encoder writes is read back by the decoder: its kind, timestamp
/// and stored body, and its whole length, whatever follows it.
pub proof fn law_frame_roundtrip(kind: u8, ts: u64, body: Seq<u8>, prev: u64, rest: Seq<u8>)
    requires
        body.len() <= u32::MAX,
    ensures
        read_frame(frame_bytes(kind, ts, body, prev) + rest) == Ok::<(u8, u64, Seq<u8>, nat), crate::error::DecodeError>(
            (kind, ts, body, frame_bytes(kind, ts, body, prev).len()),
        ),
{
    lemma_le_roundtrip();
    let s = frame_bytes(kind, ts, body, prev) + rest;
    assert(s.subrange(1, 9) =~= le64(ts));
    assert(s.subrange(9, 13) =~= le32(body.len() as u32));
    assert(s.subrange(13, 13 + body.len() as int) =~= body);
}

/// A MAP chunk that the encoder writes, with any bytes that the compression may store the
/// body as and that restore it (as `Compression::write_data` ensures of every output it
/// returns), is decoded back to the
/// width and tiles it was written from.
pub proof fn law_map_chunk_roundtrip(c: Compression, validate: bool, width: u32, height: u32, tiles: Seq<Tilev1>,
    ts: u64, prev: u64, stored: Seq<u8>, rest: Seq<u8>)
    requires
        tiles.len() == width as nat * height as nat,
        stores(c, map_body_bytes(width, height, tiles), Ok::<Seq<u8>, crate::error::EncodeError>(stored)),
        restored_body(c, stored) == Some(map_body_bytes(width, height, tiles)),
    ensures
        read_frame(frame_bytes(2, ts, stored, prev) + rest) matches Ok((k, t, b, _))
            && k == 2 && t == ts && b == stored
            && decode_body(c, validate, k, b) == Ok::<Option<BodyView>, crate::error::DecodeError>(Some(BodyView::MapBody(width, tiles))),
        next_chunk_spec(c, validate, frame_bytes(2, ts, stored, prev) + rest)
            == Ok::<Option<(BodyView, u64, nat)>, crate::error::DecodeError>(
                Some((BodyView::MapBody(width, tiles), ts, frame_bytes(2, ts, stored, prev).len()))),
{
    law_frame_roundtrip(2, ts, stored, prev, rest);
    law_map_roundtrip(width, height, tiles, Seq::empty());
    assert(map_body_bytes(width, height, tiles) + Seq::<u8>::empty() =~= map_body_bytes(width, height, tiles));
}

/// An ID chunk that the encoder writes, with any compression whose output restores the body,
/// is decoded back to that body when it passes validation or validation is skipped, and fails
/// with the validation's error otherwise.
pub proof fn law_id_chunk_roundtrip(c: Compression, validate: bool, body: Seq<u8>, ts: u64, prev: u64,
    stored: Seq<u8>, rest: Seq<u8>)
    requires
        stores(c, body, Ok::<Seq<u8>, crate::error::EncodeError>(stored)),
        restored_body(c, stored) == Some(body),
    ensures
        read_frame(frame_bytes(3, ts, stored, prev) + rest) matches Ok((k, t, b, _))
            && k == 3 && t == ts && b == stored
            && decode_body(c, validate, k, b) == if validate && check_id_body(body) is Err {
                Err::<Option<BodyView>, crate::error::DecodeError>(check_id_body(body)->Err_0)
            } else {
                Ok(Some(BodyView::IdBody(body)))
            },
        next_chunk_spec(c, validate, frame_bytes(3, ts, stored, prev) + rest) == if validate && check_id_body(body) is Err {
            Err::<Option<(BodyView, u64, nat)>, crate::error::DecodeError>(check_id_body(body)->Err_0)
        } else {
            Ok(Some((BodyView::IdBody(body), ts, frame_bytes(3, ts, stored, prev).len())))
        },
{
    law_frame_roundtrip(3, ts, stored, prev, rest);
}

/// A jump table that the encoder writes is skipped by a reader: reading on from it gives
/// what reading on from the frame after it gives, with the jump table's bytes counted.
pub proof fn law_jump_frame_skipped(c: Compression, validate: bool, ts: u64, body: Seq<u8>, prev: u64, rest: Seq<u8>)
    requires
        body.len() <= u32::MAX,
    ensures
        next_chunk_spec(c, validate, frame_bytes(1, ts, body, prev) + rest)
            == shifted(next_chunk_spec(c, validate, rest), frame_bytes(1, ts, body, prev).len()),
{
    let f = frame_bytes(1, ts, body, prev);
    law_frame_roundtrip(1, ts, body, prev, rest);
    assert((f + rest).skip(f.len() as int) =~= rest);
}

/// Records that pass validation can be walked to their end: the next record always fits,
/// and what follows it passes validation too.
pub proof fn law_validated_ids_walkable(s: Seq<u8>)
    requires
        check_id_records(s) is Ok,
    ensures
        id_record_fits(s),
        id_record_next(s) matches Some((_, name, rest)) ==> name.len() >= 1 && check_id_records(rest) is Ok,
        id_record_next(s) is None ==> s.len() == 0,
{
}

/// While a jump table is open, the next entry and its validity byte lie inside the table's
/// body, on a record boundary.
pub proof fn law_entry_within_table(v: EncoderView)
    requires
        encoder_wf(v),
        v.jmp.at is Addr,
    ensures
        (v.jmp.at->Addr_0 - (v.jmp.ptr + 13)) % 18 == 0,
        v.jmp.ptr + 13 <= v.jmp.at->Addr_0,
        v.jmp.at->Addr_0 + 18 <= v.jmp.ptr + 13 + v.zeroes,
{
}

/// The kind of chunk that holds such a body.
pub open spec fn body_kind(b: BodyView) -> ChunkKind {
    match b {
        BodyView::MapBody(_, _) => ChunkKind::MapSnapshot,
        BodyView::IdBody(_) => ChunkKind::Id,
        BodyView::ModBody(_) => ChunkKind::Mod,
    }
}

/// The height of a decoded map with a non-zero width is the height its body declares.
pub proof fn law_parsed_map_height(s: Seq<u8>)
    requires
        parse_map(s) is Ok,
        (parse_map(s)->Ok_0).0 > 0,
    ensures
        map_height(parse_map(s)->Ok_0) == get_u32(s, 4),
{
    let (w, tiles) = parse_map(s)->Ok_0;
    let h = get_u32(s, 4);
    assert(tiles.len() == w as nat * h as nat);
    assert((w as nat * h as nat) / (w as nat) == h as nat) by (nonlinear_arith)
        requires w > 0;
}

/// A chunk that decodes to a body was stored under the kind that the body's chunk reports.
pub proof fn law_decoded_kind(c: Compression, validate: bool, kind: u8, body: Seq<u8>)
    requires
        decode_body(c, validate, kind, body) matches Ok(Some(_)),
    ensures
        decode_body(c, validate, kind, body) matches Ok(Some(b)) && kind == kind_byte(body_kind(b)),
{
}

/// Enabling a capability twice is the same as enabling it once, and enables nothing else.
pub proof fn law_capability_idempotent(c: IoCaps)
    ensures
        (IoCaps { read: true, ..(IoCaps { read: true, ..c }) }) == (IoCaps { read: true, ..c }),
        (IoCaps { write: true, ..(IoCaps { write: true, ..c }) }) == (IoCaps { write: true, ..c }),
        (IoCaps { seek: true, ..(IoCaps { seek: true, ..c }) }) == (IoCaps { seek: true, ..c }),
        (IoCaps { async_seek: true, ..(IoCaps { async_seek: true, ..c }) }) == (IoCaps { async_seek: true, ..c }),
        (IoCaps { async_write: true, ..(IoCaps { async_write: true, ..c }) }) == (IoCaps { async_write: true, ..c }),
        (IoCaps { async_read: true, ..(IoCaps { async_read: true, ..c }) }) == (IoCaps { async_read: true, ..c }),
        (IoCaps { try_clone: true, ..(IoCaps { try_clone: true, ..c }) }) == (IoCaps { try_clone: true, ..c }),
{
}

/// Flushing while modification records wait writes them, as stored in `stored`, in one MOD
/// chunk stamped with their start, and leaves none waiting.
pub proof fn law_flush_writes_waiting_records(v: EncoderView, pos: u64, is_async: bool, stored: Seq<u8>)
    requires
        features_check(v.caps, is_async) is Ok,
        0 < v.mod_data.len() <= i32::MAX,
    ensures
        flush_mod_spec(v, Ok(stored), pos, is_async) is Ok,
        (flush_mod_spec(v, Ok(stored), pos, is_async)->Ok_0).0.mod_data.len() == 0,
        exists|prev: u64| #[trigger] (flush_mod_spec(v, Ok(stored), pos, is_async)->Ok_0).1.contains(
            OpView::Append(frame_bytes(4, v.mod_start, stored, prev))),
{
    let p = start_pos(v, pos);
    let (j1, pre) = jmp_step(v, 4, v.mod_start, p);
    let (j, ops) = chunk_step(v, 4, v.mod_start, stored, p);
    let all = start_ops(v) + ops;
    let op = OpView::Append(frame_bytes(4, v.mod_start, stored, j1.ptr));
    assert(kind_byte(ChunkKind::Mod) == 4);
    assert(ops[pre.len() as int] == op);
    assert(all[start_ops(v).len() + pre.len() as int] == op);
    assert(all.contains(op));
    assert(flush_mod_spec(v, Ok(stored), pos, is_async) == Ok::<(EncoderView, Seq<OpView>), crate::error::EncodeError>(
        (EncoderView { mod_data: Seq::empty(), jmp: j, bound: true, ..v }, all)));
    assert((flush_mod_spec(v, Ok(stored), pos, is_async)->Ok_0).1.contains(op));
}

/// A modification record that the encoder writes is read back by the decoder: its offset
/// and its change, with what follows it left to read; and it passes the decoder's check
/// exactly when what follows it does.
pub proof fn law_mod_record_roundtrip(c: ChangeKind, offset: u32, rest: Seq<u8>)
    ensures
        mod_record_next(change_record(c, offset) + rest) == Some((offset, Some(c), rest)),
        check_mod_records(change_record(c, offset) + rest) == check_mod_records(rest),
{
    lemma_le_roundtrip();
    let r = change_record(c, offset);
    let s = r + rest;
    assert(s.subrange(0, 4) =~= le32(offset));
    assert(s.skip(r.len() as int) =~= rest);
    match c {
        ChangeKind::UnitMoved { unit_id, x_bits, y_bits } => {
            assert(s.subrange(5, 9) =~= lei32(unit_id));
            assert(s.subrange(9, 13) =~= le32(x_bits));
            assert(s.subrange(13, 17) =~= le32(y_bits));
        },
        ChangeKind::UnitRotation { unit_id, rot } => {
            assert(s.subrange(5, 9) =~= lei32(unit_id));
        },
        ChangeKind::UnitDead { unit_id } => {
            assert(s.subrange(5, 9) =~= lei32(unit_id));
        },
        ChangeKind::UnitDespawn { unit_id } => {
            assert(s.subrange(5, 9) =~= lei32(unit_id));
        },
    }
}

/// On a backend that seeks and is not cloned, writing a chunk at stream position `pos` records
/// it in a jump table: either a new table is written whose first record names the chunk's
/// kind, timestamp and the position where its frame starts, right after the table; or the
/// next record of the open table gets that entry. The entry's validity byte is set only after
/// the chunk's frame is written, and every byte patched lies inside the table's body.
pub proof fn law_step_records_chunk(v: EncoderView, kind: u8, ts: u64, stored: Seq<u8>, pos: u64)
    requires
        encoder_wf(v),
        can_jmp(v.caps),
        !v.caps.try_clone,
        pos < pos_bound(),
        v.jmptable_size >= 2 || !(v.jmp.at is NoTable),
    ensures
        ({
            let (j1, pre) = crate::enc::jmp_step(v, kind, ts, pos);
            let (j2, post) = validity_step(j1);
            let table_len = 13 + v.zeroes + 21;
            match v.jmp.at {
                JmpTableImpl::NoTable => {
                    &&& pre == seq![OpView::Append(frame_bytes(1, ts, table_body(v, kind, ts, pos), v.jmp.ptr))]
                    &&& table_body(v, kind, ts, pos).len() == v.zeroes
                    &&& table_body(v, kind, ts, pos).subrange(0, 17) == entry_bytes(kind, ts, (pos + table_len) as u64)
                    &&& post == seq![OpView::Patch((pos + 13 + 17) as u64, seq![1u8])]
                    &&& j2.ptr == pos
                },
                JmpTableImpl::Addr(a) => {
                    &&& pre == seq![OpView::Patch(a, entry_bytes(kind, ts, pos))]
                    &&& post == seq![OpView::Patch((a + 17) as u64, seq![1u8])]
                    &&& v.jmp.ptr + 13 <= a
                    &&& a + 18 <= v.jmp.ptr + 13 + v.zeroes
                    &&& (a - (v.jmp.ptr + 13)) % 18 == 0
                },
                JmpTableImpl::File => false,
            }
        }),
{
    let (j1, pre) = crate::enc::jmp_step(v, kind, ts, pos);
    lemma_le_roundtrip();
    if v.jmp.at is NoTable {
        let b = table_body(v, kind, ts, pos);
        assert(entry_bytes(kind, ts, (pos + 13 + v.zeroes + 21) as u64).len() == 17);
        assert(b.subrange(0, 17) =~= entry_bytes(kind, ts, (pos + 13 + v.zeroes + 21) as u64));
        assert(b.len() == v.zeroes);
        assert(crate::enc::chunk_pos(v, pos) == (pos + 13 + v.zeroes + 21) as u64);
        assert(pre == seq![OpView::Append(frame_bytes(1, ts, b, v.jmp.ptr))]);
        assert(j1.at == JmpTableImpl::Addr((pos + 30) as u64));
        assert(validity_step(j1).1 == seq![OpView::Patch((pos + 13 + 17) as u64, seq![1u8])]);
    } else if v.jmp.at is Addr {
        law_entry_within_table(v);
    }
}

/// Flushing twice is flushing once: after a flush that succeeds nothing waits, and a second
/// flush succeeds without a write and without a change.
pub proof fn law_flush_twice(v: EncoderView, out: Result<Seq<u8>, crate::error::EncodeError>, pos: u64,
    out2: Result<Seq<u8>, crate::error::EncodeError>, pos2: u64, is_async: bool)
    requires
        flush_mod_spec(v, out, pos, is_async) is Ok,
    ensures
        ({
            let v2 = (flush_mod_spec(v, out, pos, is_async)->Ok_0).0;
            flush_mod_spec(v2, out2, pos2, is_async) == Ok::<(EncoderView, Seq<OpView>), crate::error::EncodeError>((v2, Seq::empty()))
        }),
{
    let v2 = (flush_mod_spec(v, out, pos, is_async)->Ok_0).0;
    assert(v2.bound);
    assert(EncoderView { bound: true, ..v2 } == v2);
}

/// Before a MAP chunk, the waiting records are flushed: the MOD chunk with them comes first,
/// the MAP chunk after it, and afterwards nothing waits, so a following flush writes nothing.
pub proof fn law_mod_before_map(v: EncoderView, out1: Result<Seq<u8>, crate::error::EncodeError>, body: Seq<u8>,
    out2: Result<Seq<u8>, crate::error::EncodeError>, ts: u64, pos: u64, pos2: u64,
    out3: Result<Seq<u8>, crate::error::EncodeError>, pos3: u64, is_async: bool)
    requires
        v.mod_data.len() > 0,
        flush_mod_spec(v, out1, pos, is_async) is Ok,
        write_chunk_spec((flush_mod_spec(v, out1, pos, is_async)->Ok_0).0, ChunkKind::MapSnapshot, ts, body, out2, pos2, is_async) is Ok,
    ensures
        ({
            let (v1, ops1) = flush_mod_spec(v, out1, pos, is_async)->Ok_0;
            let (v2, ops2) = write_chunk_spec(v1, ChunkKind::MapSnapshot, ts, body, out2, pos2, is_async)->Ok_0;
            &&& (out1 matches Ok(st)
                && exists|p: u64| #[trigger] ops1.contains(OpView::Append(frame_bytes(4, v.mod_start, st, p))))
            &&& (out2 matches Ok(st)
                && exists|p: u64| #[trigger] ops2.contains(OpView::Append(frame_bytes(2, ts, st, p))))
            &&& v2.mod_data.len() == 0
            &&& flush_mod_spec(v2, out3, pos3, is_async) == Ok::<(EncoderView, Seq<OpView>), crate::error::EncodeError>((v2, Seq::empty()))
        }),
{
    let (v1, ops1) = flush_mod_spec(v, out1, pos, is_async)->Ok_0;
    let st = out1->Ok_0;
    law_flush_writes_waiting_records(v, pos, is_async, st);
    let st2 = out2->Ok_0;
    let p2 = start_pos(v1, pos2);
    let (j1, pre) = jmp_step(v1, 2, ts, p2);
    let (j, ops2) = chunk_step(v1, 2, ts, st2, p2);
    let all = start_ops(v1) + ops2;
    let op = OpView::Append(frame_bytes(2, ts, st2, j1.ptr));
    assert(kind_byte(ChunkKind::MapSnapshot) == 2);
    assert(ops2[pre.len() as int] == op);
    assert(all[start_ops(v1).len() + pre.len() as int] == op);
    assert((write_chunk_spec(v1, ChunkKind::MapSnapshot, ts, body, out2, pos2, is_async)->Ok_0).1 == all);
    assert((write_chunk_spec(v1, ChunkKind::MapSnapshot, ts, body, out2, pos2, is_async)->Ok_0).1.contains(op));
    let v2 = (write_chunk_spec(v1, ChunkKind::MapSnapshot, ts, body, out2, pos2, is_async)->Ok_0).0;
    assert(EncoderView { bound: true, ..v2 } == v2);
}

/// The records of changes made at the given times, counted from `start`, one after the other.
pub open spec fn change_records(cs: Seq<(ChangeKind, u64)>, start: u64) -> Seq<u8>
    decreases cs.len(),
{
    if cs.len() == 0 {
        Seq::empty()
    } else {
        change_record(cs[0].0, #[verifier::truncate] ((cs[0].1 - start) as u32)) + change_records(cs.skip(1), start)
    }
}

/// Appending the changes in order, as `Encoder::write_change` does, while each fits: the
/// encoder after them, and whether all of them fit.
pub open spec fn changes_applied(v: EncoderView, cs: Seq<(ChangeKind, u64)>) -> (EncoderView, bool)
    decreases cs.len(),
{
    if cs.len() == 0 {
        (v, true)
    } else {
        let (v1, ok) = change_step(v, cs[0].0, cs[0].1);
        if !ok {
            (v1, false)
        } else {
            changes_applied(v1, cs.skip(1))
        }
    }
}

/// With records waiting, changes that all fit are appended after them, counted from the same
/// start.
proof fn lemma_changes_appended(v: EncoderView, cs: Seq<(ChangeKind, u64)>)
    requires
        v.mod_data.len() > 0,
        changes_applied(v, cs).1,
    ensures
        changes_applied(v, cs).0 == (EncoderView { mod_data: v.mod_data + change_records(cs, v.mod_start), ..v }),
    decreases cs.len(),
{
    if cs.len() == 0 {
        assert(v.mod_data + Seq::<u8>::empty() =~= v.mod_data);
    } else {
        let (v1, ok) = change_step(v, cs[0].0, cs[0].1);
        lemma_changes_appended(v1, cs.skip(1));
        let rec = change_record(cs[0].0, #[verifier::truncate] ((cs[0].1 - v.mod_start) as u32));
        assert(v1.mod_data == v.mod_data + rec);
        assert(v.mod_data + rec + change_records(cs.skip(1), v.mod_start)
            =~= v.mod_data + change_records(cs, v.mod_start));
    }
}

/// Records that the encoder writes, one after the other, pass the decoder's check.
proof fn lemma_change_records_check(cs: Seq<(ChangeKind, u64)>, start: u64)
    ensures
        check_mod_records(change_records(cs, start)) is Ok,
    decreases cs.len(),
{
    if cs.len() > 0 {
        lemma_change_records_check(cs.skip(1), start);
        law_mod_record_roundtrip(cs[0].0, #[verifier::truncate] ((cs[0].1 - start) as u32), change_records(cs.skip(1), start));
    }
}

/// Changes appended to an empty modifications buffer, all fitting, wait as their records one
/// after the other, counted from the first change's time; the next flush writes exactly them,
/// as whatever `stored` the compression stores them as, in one MOD chunk stamped with that
/// time; and the decoder accepts them.
pub proof fn law_changes_then_flush(v: EncoderView, cs: Seq<(ChangeKind, u64)>, pos: u64, is_async: bool, stored: Seq<u8>)
    requires
        v.mod_data.len() == 0,
        cs.len() > 0,
        changes_applied(v, cs).1,
    ensures
        ({
            let w = changes_applied(v, cs).0;
            &&& w.mod_data == change_records(cs, cs[0].1)
            &&& w.mod_start == cs[0].1
            &&& check_mod_records(w.mod_data) is Ok
            &&& (features_check(v.caps, is_async) is Ok && w.mod_data.len() <= i32::MAX) ==>
                (flush_mod_spec(w, Ok(stored), pos, is_async) matches Ok((w2, ops))
                    && w2.mod_data.len() == 0
                    && exists|p: u64| #[trigger] ops.contains(OpView::Append(frame_bytes(4, cs[0].1, stored, p))))
        }),
{
    let (v1, ok) = change_step(v, cs[0].0, cs[0].1);
    let t0 = cs[0].1;
    let rec = change_record(cs[0].0, #[verifier::truncate] ((cs[0].1 - t0) as u32));
    lemma_change_record_len(cs[0].0, #[verifier::truncate] ((cs[0].1 - t0) as u32));
    assert(v1.mod_data =~= rec);
    assert(v1 == EncoderView { mod_start: t0, mod_data: rec, ..v });
    lemma_changes_appended(v1, cs.skip(1));
    let w = changes_applied(v, cs).0;
    assert(rec + change_records(cs.skip(1), t0) =~= change_records(cs, t0));
    assert(w == EncoderView { mod_start: t0, mod_data: change_records(cs, t0), ..v });
    lemma_change_records_check(cs, t0);
    if features_check(v.caps, is_async) is Ok && w.mod_data.len() <= i32::MAX {
        law_flush_writes_waiting_records(w, pos, is_async, stored);
    }
}

/// While a jump table is open, every chunk written uses up one of its records, whether the
/// entry is patched in by seeking or written through a cloned handle: the records left drop
/// by one, and the table is closed exactly when none is left. A table is opened with one
/// record for the chunk that opens it and `jmptable_size - 2` left after it, so it closes
/// after `jmptable_size - 1` records, all inside its body.
pub proof fn law_each_chunk_uses_a_record(v: EncoderView, kind: u8, ts: u64, stored: Seq<u8>, pos: u64)
    requires
        encoder_wf(v),
        can_jmp(v.caps),
    ensures
        ({
            let j = chunk_step(v, kind, ts, stored, pos).0;
            &&& !(v.jmp.at is NoTable) ==> {
                &&& j.remaining == v.jmp.remaining - 1
                &&& (j.at is NoTable <==> j.remaining == 0)
                &&& j.ptr == v.jmp.ptr
            }
            &&& (v.jmp.at is NoTable && v.jmptable_size >= 2) ==> {
                &&& j.remaining == v.jmptable_size - 2
                &&& (j.at is NoTable <==> j.remaining == 0)
                &&& j.ptr == pos
            }
            &&& (v.jmp.at is NoTable && v.jmptable_size < 2) ==> j.at is NoTable
            &&& 18 * (v.jmptable_size - 1) <= v.zeroes
        }),
{
}

/// A MOD chunk that the encoder writes, with any compression, is decoded back to its
/// records: whatever bytes the compression stored the records as, they are decompressed
/// before the records are read.
pub proof fn law_mod_chunk_roundtrip(c: Compression, validate: bool, recs: Seq<u8>, stored: Seq<u8>)
    requires
        stores(c, recs, Ok::<Seq<u8>, crate::error::EncodeError>(stored)),
        restored_body(c, stored) == Some(recs),
        check_mod_records(recs) is Ok,
    ensures
        decode_body(c, validate, 4, stored) == Ok::<Option<BodyView>, crate::error::DecodeError>(Some(BodyView::ModBody(recs))),
{
}

/// The encoder that a builder builds compresses with the compression that the header it
/// writes declares: the decoder reads that same compression back from the header.
pub proof fn law_built_encoder_matches_header<W>(b: Builder<W>, rest: Seq<u8>)
    ensures
        b.fresh().compression == b.settings().compression,
        parse_header(header_bytes(b.settings().compression) + zeros(21) + rest) matches Ok((c, _))
            && c == b.fresh().compression,
{
    law_header_roundtrip(b.settings().compression, rest);
}

/// A byte that may stand in a content name: an ASCII letter or digit, `_` or `-`.
pub open spec fn content_name_byte(x: u8) -> bool {
    ('a' as u8 <= x && x <= 'z' as u8) || ('A' as u8 <= x && x <= 'Z' as u8) || ('0' as u8 <= x && x <= '9' as u8)
        || x == '_' as u8 || x == '-' as u8
}

/// The decoder accepts exactly the content names of ASCII letters and digits, `_` and `-`:
/// a record whose name is made of them is passed over, and one with any other byte refused.
pub proof fn law_content_names(id: u16, name: Seq<u8>, rest: Seq<u8>)
    requires
        1 <= name.len() <= 255,
    ensures
        forall|x: u8| #[trigger] name_byte_ok(x) <==> content_name_byte(x),
        (forall|k: int| 0 <= k < name.len() ==> #[trigger] content_name_byte(name[k]))
            ==> check_id_records(le16(id) + seq![name.len() as u8] + name + rest) == check_id_records(rest),
        (exists|k: int| 0 <= k < name.len() && !#[trigger] content_name_byte(name[k]))
            ==> check_id_records(le16(id) + seq![name.len() as u8] + name + rest)
                == Err::<(), crate::error::DecodeError>(crate::error::DecodeError::InvalidContentName),
{
    lemma_le_roundtrip();
    let s = le16(id) + seq![name.len() as u8] + name + rest;
    assert(s[2] == name.len() as u8);
    assert forall|k: int| 0 <= k < name.len() implies s[3 + k] == name[k] by {}
    assert(s.skip(3 + name.len() as int) =~= rest);
    if exists|k: int| 0 <= k < name.len() && !content_name_byte(#[trigger] name[k]) {
        let k = choose|k: int| 0 <= k < name.len() && !content_name_byte(#[trigger] name[k]);
        assert(s[3 + k] == name[k]);
        assert(!name_byte_ok(s[3 + k]));
    }
}

/// Each change is written with the format's change id (1 a move, 2 a turn, 3 a death, 4 a
/// despawn) after the four-byte offset, followed by the unit.
pub proof fn law_change_ids(c: ChangeKind, offset: u32)
    ensures
        change_record(c, offset).len() >= 9,
        change_record(c, offset)[4] == match c {
            ChangeKind::UnitMoved { .. } => 1u8,
            ChangeKind::UnitRotation { .. } => 2u8,
            ChangeKind::UnitDead { .. } => 3u8,
            ChangeKind::UnitDespawn { .. } => 4u8,
        },
        change_record(c, offset).subrange(0, 4) == le32(offset),
{
    lemma_le_roundtrip();
    assert(change_record(c, offset).subrange(0, 4) =~= le32(offset));
}

/// The decoder reads records in the format's encoding: an offset, the change id, and the
/// change's data (for a no-op none, for a move the unit and the position, for a turn the unit
/// and the rotation, for a death or a despawn the unit).
pub proof fn law_record_format(offset: u32, unit: i32, x: u32, y: u32, rot: u8, rest: Seq<u8>)
    ensures
        mod_record_next(le32(offset) + seq![0u8] + rest) == Some((offset, None::<ChangeKind>, rest)),
        mod_record_next(le32(offset) + seq![1u8] + lei32(unit) + le32(x) + le32(y) + rest)
            == Some((offset, Some(ChangeKind::UnitMoved { unit_id: unit, x_bits: x, y_bits: y }), rest)),
        mod_record_next(le32(offset) + seq![2u8] + lei32(unit) + seq![rot] + rest)
            == Some((offset, Some(ChangeKind::UnitRotation { unit_id: unit, rot }), rest)),
        mod_record_next(le32(offset) + seq![3u8] + lei32(unit) + rest)
            == Some((offset, Some(ChangeKind::UnitDead { unit_id: unit }), rest)),
        mod_record_next(le32(offset) + seq![4u8] + lei32(unit) + rest)
            == Some((offset, Some(ChangeKind::UnitDespawn { unit_id: unit }), rest)),
        check_mod_records(le32(offset) + seq![4u8] + lei32(unit) + rest) == check_mod_records(rest),
        check_mod_records(le32(offset) + seq![0u8] + rest) == check_mod_records(rest),
{
    lemma_le_roundtrip();
    let s0 = le32(offset) + seq![0u8] + rest;
    assert(s0.subrange(0, 4) =~= le32(offset));
    assert(s0.skip(5) =~= rest);
    law_mod_record_roundtrip(ChangeKind::UnitMoved { unit_id: unit, x_bits: x, y_bits: y }, offset, rest);
    law_mod_record_roundtrip(ChangeKind::UnitRotation { unit_id: unit, rot }, offset, rest);
    law_mod_record_roundtrip(ChangeKind::UnitDead { unit_id: unit }, offset, rest);
    law_mod_record_roundtrip(ChangeKind::UnitDespawn { unit_id: unit }, offset, rest);
    assert(change_record(ChangeKind::UnitMoved { unit_id: unit, x_bits: x, y_bits: y }, offset) + rest
        =~= le32(offset) + seq![1u8] + lei32(unit) + le32(x) + le32(y) + rest);
    assert(change_record(ChangeKind::UnitRotation { unit_id: unit, rot }, offset) + rest
        =~= le32(offset) + seq![2u8] + lei32(unit) + seq![rot] + rest);
    assert(change_record(ChangeKind::UnitDead { unit_id: unit }, offset) + rest
        =~= le32(offset) + seq![3u8] + lei32(unit) + rest);
    assert(change_record(ChangeKind::UnitDespawn { unit_id: unit }, offset) + rest
        =~= le32(offset) + seq![4u8] + lei32(unit) + rest);
}

} // verus!
