//! MDR encoder: the decisions of the encoder, as steps from state to state that name the
//! writes to perform on the backend.
use vstd::prelude::*;
use crate::wire::{le32, le64, lei32, zeros, push_all, lemma_le_roundtrip};
use crate::error::EncodeError;
use crate::opt::{Compression, Lz4Mode, encodable, stores, out_view, restored_body};
use crate::data::{ChangeKind, ChunkKind, kind_byte};
use crate::io::{GenericIo, IoCaps, WriteExactly, no_caps};
use crate::dec::header_bytes;

verus! {

/// A chunk frame: kind, timestamp, stored length, the stored body, then kind, length,
/// timestamp and the position of the previous jump table (0 if none).
pub open spec fn frame_bytes(kind: u8, ts: u64, body: Seq<u8>, prev: u64) -> Seq<u8> {
    seq![kind] + le64(ts) + le32(body.len() as u32) + body + seq![kind] + le32(body.len() as u32) + le64(ts)
        + le64(prev)
}

/// A jump-table entry without its validity byte: chunk kind, timestamp and position.
pub open spec fn entry_bytes(kind: u8, ts: u64, pos: u64) -> Seq<u8> {
    seq![kind] + le64(ts) + le64(pos)
}

/// Bytes of the zero body of a jump table with room for `size` entries.
pub open spec fn jmp_body_len(size: int) -> int {
    18 * (size - 1) + 9
}

/// Where the entries of the current jump table go.
#[derive(Clone, Copy, Debug, PartialEq, Eq, Structural)]
pub enum JmpTableImpl {
    /// No jump table is open.
    NoTable,
    /// Entries are written at this file position, seeking there and back.
    Addr(u64),
    /// Entries are written through a cloned handle.
    File,
}

/// One write that an encoder step asks of the backend, in order.
pub enum WriteOp {
    /// Write the bytes at the current position of the stream.
    Append(Vec<u8>),
    /// Seek to `at`, write the bytes, and seek back to where the stream was.
    Patch { at: u64, bytes: Vec<u8> },
    /// Write the bytes through the cloned handle, then flush it.
    Side(Vec<u8>),
    /// Clone the stream's handle for writing jump-table entries, which then go one after
    /// the other from `at`; a failure ends the step with that error, and
    /// `Encoder::abandon_table` must follow.
    OpenSide { at: u64 },
    /// Flush the stream.
    Flush,
}

/// A write, as a value.
pub enum OpView {
    Append(Seq<u8>),
    Patch(u64, Seq<u8>),
    Side(Seq<u8>),
    OpenSide(u64),
    Flush,
}

/// The value of a write.
pub open spec fn op_view(o: WriteOp) -> OpView {
    match o {
        WriteOp::Append(b) => OpView::Append(b@),
        WriteOp::Patch { at, bytes } => OpView::Patch(at, bytes@),
        WriteOp::Side(b) => OpView::Side(b@),
        WriteOp::OpenSide { at } => OpView::OpenSide(at),
        WriteOp::Flush => OpView::Flush,
    }
}

/// The values of a list of writes.
pub open spec fn ops_view(ops: Seq<WriteOp>) -> Seq<OpView> {
    ops.map_values(|o: WriteOp| op_view(o))
}

/// The jump-table bookkeeping of an encoder, as values.
pub struct JmpView {
    /// Position of the newest jump table, 0 before the first.
    pub ptr: u64,
    /// Entries left in the current jump table.
    pub remaining: usize,
    /// Timestamp of the newest jump table.
    pub last_ts: u64,
    /// Where the entries of the current jump table go.
    pub at: JmpTableImpl,
}

/// The state of an encoder, as values.
pub struct EncoderView {
    pub compression: Compression,
    /// Entries per jump table.
    pub jmptable_size: usize,
    /// Bytes of the zero body of a new jump table.
    pub zeroes: usize,
    pub jmp: JmpView,
    /// Modification records waiting for the next MOD chunk.
    pub mod_data: Seq<u8>,
    /// Capacity of the modifications buffer.
    pub mod_size: usize,
    /// Timestamp that the waiting records count from.
    pub mod_start: u64,
    pub snapshot_rate: u64,
    pub caps: IoCaps,
    /// Whether the stop block that follows the file header was written; it goes out with the
    /// encoder's first writes after the header.
    pub bound: bool,
}

/// File positions stay below this bound, as offsets do that a file can seek to.
pub open spec fn pos_bound() -> int {
    0x8000_0000_0000_0000
}

/// What every encoder keeps: the jump table's bookkeeping agrees with where its entries go,
/// and the modifications buffer stays within its capacity.
pub open spec fn encoder_wf(v: EncoderView) -> bool {
    &&& 1 <= v.jmptable_size <= i32::MAX
    &&& v.zeroes == jmp_body_len(v.jmptable_size as int)
    &&& v.jmp.remaining < v.jmptable_size
    &&& v.jmp.ptr < pos_bound()
    &&& (v.jmp.at matches JmpTableImpl::Addr(a) ==> v.jmp.remaining >= 1
        && a == v.jmp.ptr + 13 + 18 * (v.jmptable_size - 1 - v.jmp.remaining))
    &&& (v.jmp.at is File ==> v.jmp.remaining >= 1 && v.caps.try_clone)
    &&& (v.jmp.at is Addr ==> !v.caps.try_clone)
    &&& (!(v.jmp.at is NoTable) ==> can_jmp(v.caps))
    &&& v.mod_data.len() <= v.mod_size
    &&& v.mod_size >= 1024
}

/// Whether jump tables are written: the backend seeks, in one mode or the other.
pub open spec fn can_jmp(c: IoCaps) -> bool {
    c.seek || c.async_seek
}

/// Whether the backend supports the requested write mode, and seeks alike in both modes when
/// both are enabled.
pub open spec fn features_check(c: IoCaps, is_async: bool) -> Result<(), EncodeError> {
    if !is_async && !c.write {
        Err(EncodeError::NoSyncWriting)
    } else if is_async && !c.async_write {
        Err(EncodeError::NoAsyncWriting)
    } else if c.async_write && c.write && c.async_seek != c.seek {
        if c.seek {
            Err(EncodeError::SeekWithoutAsyncSeek)
        } else {
            Err(EncodeError::AsyncSeekWithoutSeek)
        }
    } else {
        Ok(())
    }
}

/// Where a chunk written at stream position `pos` starts: right there, or after the jump
/// table that is opened for it.
pub open spec fn chunk_pos(v: EncoderView, pos: u64) -> u64 {
    if can_jmp(v.caps) && v.jmp.at is NoTable {
        (pos + 13 + v.zeroes + 21) as u64
    } else {
        pos
    }
}

/// The zero body of a new jump table, whose first record already holds the entry of the
/// chunk that opens it, when there is room for one.
pub open spec fn table_body(v: EncoderView, kind: u8, ts: u64, pos: u64) -> Seq<u8> {
    if v.jmptable_size >= 2 {
        entry_bytes(kind, ts, chunk_pos(v, pos)) + zeros((v.zeroes - 17) as nat)
    } else {
        zeros(v.zeroes as nat)
    }
}

/// The jump-table part of writing a chunk at stream position `pos`. With no table open, a new
/// one is written whose first record points at the chunk that follows it; its records are the
/// `jmptable_size - 1` that the body has room for. With a table open, the chunk's entry goes
/// into its next record. Either way the entry's validity byte is left for after the chunk.
pub open spec fn jmp_step(v: EncoderView, kind: u8, ts: u64, pos: u64) -> (JmpView, Seq<OpView>) {
    let j = v.jmp;
    if !can_jmp(v.caps) {
        (j, Seq::<OpView>::empty())
    } else {
        match j.at {
            JmpTableImpl::NoTable => {
                let table = OpView::Append(frame_bytes(1, ts, table_body(v, kind, ts, pos), j.ptr));
                if v.jmptable_size < 2 {
                    (JmpView { ptr: pos, last_ts: ts, remaining: 0, at: JmpTableImpl::NoTable }, seq![table])
                } else if v.caps.try_clone {
                    (JmpView { ptr: pos, last_ts: ts, remaining: (v.jmptable_size - 2) as usize, at: JmpTableImpl::File },
                        seq![table, OpView::OpenSide((pos + 30) as u64)])
                } else {
                    (JmpView { ptr: pos, last_ts: ts, remaining: (v.jmptable_size - 2) as usize,
                        at: JmpTableImpl::Addr((pos + 30) as u64) }, seq![table])
                }
            },
            JmpTableImpl::Addr(a) => (
                JmpView { remaining: (j.remaining - 1) as usize, at: JmpTableImpl::Addr((a + 17) as u64), ..j },
                seq![OpView::Patch(a, entry_bytes(kind, ts, pos))],
            ),
            JmpTableImpl::File => (
                JmpView { remaining: (j.remaining - 1) as usize, ..j },
                seq![OpView::Side(entry_bytes(kind, ts, pos))],
            ),
        }
    }
}

/// The part of writing a chunk that follows the chunk itself: the entry's validity byte, and
/// closing the jump table once it is full.
pub open spec fn validity_step(j: JmpView) -> (JmpView, Seq<OpView>) {
    let (j2, post) = match j.at {
        JmpTableImpl::NoTable => (j, Seq::<OpView>::empty()),
        JmpTableImpl::Addr(a) => (JmpView { at: JmpTableImpl::Addr((a + 1) as u64), ..j },
            seq![OpView::Patch(a, seq![1u8])]),
        JmpTableImpl::File => (j, seq![OpView::Side(seq![1u8])]),
    };
    if j2.remaining == 0 {
        (JmpView { at: JmpTableImpl::NoTable, ..j2 }, post)
    } else {
        (j2, post)
    }
}

/// Writing a chunk whose stored body is `stored`, at stream position `pos`: the jump table
/// part, the chunk (pointing back at the newest jump table), the validity part, and a flush.
/// Gives the new jump-table state and the writes.
pub open spec fn chunk_step(v: EncoderView, kind: u8, ts: u64, stored: Seq<u8>, pos: u64) -> (JmpView, Seq<OpView>) {
    let (j1, pre) = jmp_step(v, kind, ts, pos);
    let chunk = OpView::Append(frame_bytes(kind, ts, stored, j1.ptr));
    let (j2, post) = validity_step(j1);
    (j2, pre + seq![chunk] + post + seq![OpView::Flush])
}

/// A chunk step keeps the encoder's invariant: a new table's next record follows the one of
/// the chunk that opened it, each entry moves the next one 18 bytes on, and a full table is
/// closed.
pub proof fn lemma_chunk_step_wf(v: EncoderView, kind: u8, ts: u64, stored: Seq<u8>, pos: u64)
    requires
        encoder_wf(v),
        pos < pos_bound(),
    ensures
        encoder_wf(EncoderView { jmp: chunk_step(v, kind, ts, stored, pos).0, ..v }),
{
    let (j1, pre) = jmp_step(v, kind, ts, pos);
    let (j2, post) = validity_step(j1);
    let n = v.jmptable_size as int;
    if can_jmp(v.caps) {
        match v.jmp.at {
            JmpTableImpl::NoTable => {
                assert(j2.ptr == pos);
                if n >= 2 && !v.caps.try_clone {
                    assert(j1.at == JmpTableImpl::Addr((pos + 30) as u64));
                    if j1.remaining > 0 {
                        assert(j2.at == JmpTableImpl::Addr((pos + 31) as u64));
                        assert(pos + 31 == pos + 13 + 18 * (n - 1 - j2.remaining));
                    }
                }
            },
            JmpTableImpl::Addr(a) => {
                assert(a == v.jmp.ptr + 13 + 18 * (n - 1 - v.jmp.remaining));
                assert(j1.remaining == v.jmp.remaining - 1);
                if j1.remaining > 0 {
                    assert(j2.at == JmpTableImpl::Addr((a + 18) as u64));
                    assert(a + 18 == v.jmp.ptr + 13 + 18 * (n - 1 - j1.remaining));
                }
            },
            JmpTableImpl::File => {},
        }
    }
    assert(chunk_step(v, kind, ts, stored, pos).0 == j2);
}

/// The checks that writing a chunk makes, in order, before it compresses the body.
pub open spec fn chunk_checks(v: EncoderView, kind: ChunkKind, data: Seq<u8>, is_async: bool) -> Result<(), EncodeError> {
    if features_check(v.caps, is_async) is Err {
        Err(features_check(v.caps, is_async)->Err_0)
    } else if kind == ChunkKind::Jmp {
        Err(EncodeError::ManualJmp)
    } else if data.len() > i32::MAX {
        Err(EncodeError::ChunkTooLarge)
    } else {
        Ok(())
    }
}

/// The writes that come first in a step: the stop block after the file header, unless it was
/// written already.
pub open spec fn start_ops(v: EncoderView) -> Seq<OpView> {
    if v.bound {
        Seq::empty()
    } else {
        seq![OpView::Append(zeros(21))]
    }
}

/// Where the stream stands after the first writes of a step that starts at `pos`.
pub open spec fn start_pos(v: EncoderView, pos: u64) -> u64 {
    if v.bound {
        pos
    } else {
        (pos + 21) as u64
    }
}

/// Writing a chunk of kind `kind` whose body is stored as `stored`, at stream position `pos`:
/// the stop block if it is due, then `chunk_step`.
pub open spec fn stored_step(v: EncoderView, kind: u8, ts: u64, stored: Seq<u8>, pos: u64) -> (EncoderView, Seq<OpView>) {
    let (j, ops) = chunk_step(v, kind, ts, stored, start_pos(v, pos));
    (EncoderView { jmp: j, bound: true, ..v }, start_ops(v) + ops)
}

/// What writing a chunk does when its body is stored as `out` (what `Compression::write_data`
/// gave): the checks in order, the compressor's failure, or `stored_step`.
pub open spec fn write_chunk_spec(v: EncoderView, kind: ChunkKind, ts: u64, data: Seq<u8>,
    out: Result<Seq<u8>, EncodeError>, pos: u64, is_async: bool) -> Result<(EncoderView, Seq<OpView>), EncodeError> {
    match chunk_checks(v, kind, data, is_async) {
        Err(e) => Err(e),
        Ok(()) => match out {
            Err(e) => Err(e),
            Ok(stored) => Ok(stored_step(v, kind_byte(kind), ts, stored, pos)),
        },
    }
}

/// Whether a call that writes a chunk, with its body stored as `out`, left the encoder at `v2`
/// and returned `res`: where the checks pass, `out` is what the compression may store the body
/// as, and the stored bytes give the body back.
pub open spec fn chunk_written(v: EncoderView, kind: ChunkKind, ts: u64, data: Seq<u8>, out: Result<Seq<u8>, EncodeError>,
    pos: u64, is_async: bool, v2: EncoderView, res: Result<Seq<OpView>, EncodeError>) -> bool {
    &&& chunk_checks(v, kind, data, is_async) is Ok ==> stores(v.compression, data, out)
        && (out matches Ok(st) ==> restored_body(v.compression, st) == Some(data))
    &&& match write_chunk_spec(v, kind, ts, data, out, pos, is_async) {
        Err(e) => res == Err::<Seq<OpView>, EncodeError>(e) && v2 == v,
        Ok((w, ops)) => res == Ok::<Seq<OpView>, EncodeError>(ops) && v2 == w,
    }
}

/// What flushing the waiting modification records does, with their body stored as `out`:
/// only the stop block if it is due and no record waits, else a MOD chunk stamped with their
/// start, after which none wait.
pub open spec fn flush_mod_spec(v: EncoderView, out: Result<Seq<u8>, EncodeError>, pos: u64, is_async: bool)
    -> Result<(EncoderView, Seq<OpView>), EncodeError> {
    if features_check(v.caps, is_async) is Err {
        Err(features_check(v.caps, is_async)->Err_0)
    } else if v.mod_data.len() == 0 {
        Ok((EncoderView { bound: true, ..v }, start_ops(v)))
    } else {
        match write_chunk_spec(v, ChunkKind::Mod, v.mod_start, v.mod_data, out, pos, is_async) {
            Err(e) => Err(e),
            Ok((v1, ops)) => Ok((EncoderView { mod_data: Seq::empty(), ..v1 }, ops)),
        }
    }
}

/// Whether a flush, with the waiting records stored as `out`, left the encoder at `v2` and
/// returned `res`.
pub open spec fn mod_flushed(v: EncoderView, out: Result<Seq<u8>, EncodeError>, pos: u64, is_async: bool,
    v2: EncoderView, res: Result<Seq<OpView>, EncodeError>) -> bool {
    &&& v.mod_data.len() > 0 && chunk_checks(v, ChunkKind::Mod, v.mod_data, is_async) is Ok
        ==> stores(v.compression, v.mod_data, out)
    &&& match flush_mod_spec(v, out, pos, is_async) {
        Err(e) => res == Err::<Seq<OpView>, EncodeError>(e) && v2 == v,
        Ok((w, ops)) => res == Ok::<Seq<OpView>, EncodeError>(ops) && v2 == w,
    }
}

/// The writes a step returned, as values.
pub open spec fn ops_result(r: Result<Vec<WriteOp>, EncodeError>) -> Result<Seq<OpView>, EncodeError> {
    match r {
        Ok(o) => Ok(ops_view(o@)),
        Err(e) => Err(e),
    }
}

/// A modification record: milliseconds since the records' start, the change id, the unit and
/// the change's data.
pub open spec fn change_record(c: ChangeKind, offset: u32) -> Seq<u8> {
    le32(offset) + match c {
        ChangeKind::UnitMoved { unit_id, x_bits, y_bits } => seq![1u8] + lei32(unit_id) + le32(x_bits) + le32(y_bits),
        ChangeKind::UnitRotation { unit_id, rot } => seq![2u8] + lei32(unit_id) + seq![rot],
        ChangeKind::UnitDead { unit_id } => seq![3u8] + lei32(unit_id),
        ChangeKind::UnitDespawn { unit_id } => seq![4u8] + lei32(unit_id),
    }
}

/// What appending a change does: the records' clock starts at `now_ms` if none wait, and the
/// change's record is appended if it fits; the flag says whether it did.
pub open spec fn change_step(v: EncoderView, c: ChangeKind, now_ms: u64) -> (EncoderView, bool) {
    let v1 = if v.mod_data.len() == 0 {
        EncoderView { mod_start: now_ms, ..v }
    } else {
        v
    };
    let rec = change_record(c, #[verifier::truncate] ((now_ms - v1.mod_start) as u32));
    if v1.mod_data.len() + rec.len() <= v1.mod_size {
        (EncoderView { mod_data: v1.mod_data + rec, ..v1 }, true)
    } else {
        (v1, false)
    }
}

/// A modification record takes 9 to 17 bytes.
pub proof fn lemma_change_record_len(c: ChangeKind, offset: u32)
    ensures
        9 <= change_record(c, offset).len() <= 17,
{
    lemma_le_roundtrip();
}

/// Writes `kind`, `ts` and `pos` into exactly 17 bytes.
fn entry_record(kind: u8, ts: u64, pos: u64) -> (r: Vec<u8>)
    ensures
        r@ == entry_bytes(kind, ts, pos),
{
    proof { lemma_le_roundtrip(); }
    let mut w = WriteExactly::<17>::new();
    let _ = w.write_u8(kind);
    let _ = w.write_u64_le(ts);
    let _ = w.write_u64_le(pos);
    proof { assert(w@ =~= entry_bytes(kind, ts, pos)); }
    match w.finalize() {
        Ok(v) => v,
        Err(_) => {
            proof { assert(false); }
            Vec::new()
        },
    }
}

/// The whole frame of a chunk.
fn frame(kind: u8, ts: u64, body: &[u8], prev: u64) -> (r: Vec<u8>)
    ensures
        r@ == frame_bytes(kind, ts, body@, prev),
{
    proof { lemma_le_roundtrip(); }
    let len = #[verifier::truncate] (body.len() as u32);
    let mut head = WriteExactly::<13>::new();
    let _ = head.write_u8(kind);
    let _ = head.write_u64_le(ts);
    let _ = head.write_u32_le(len);
    let mut tail = WriteExactly::<21>::new();
    let _ = tail.write_u8(kind);
    let _ = tail.write_u32_le(len);
    let _ = tail.write_u64_le(ts);
    let _ = tail.write_u64_le(prev);
    let mut out = match head.finalize() {
        Ok(v) => v,
        Err(_) => {
            proof { assert(false); }
            Vec::new()
        },
    };
    push_all(&mut out, body);
    match tail.finalize() {
        Ok(t) => push_all(&mut out, t.as_slice()),
        Err(_) => {
            proof { assert(false); }
        },
    }
    proof { assert(out@ =~= frame_bytes(kind, ts, body@, prev)); }
    out
}

/// `n` zero bytes.
fn zero_bytes(n: usize) -> (r: Vec<u8>)
    ensures
        r@ == zeros(n as nat),
{
    let mut v: Vec<u8> = Vec::new();
    let mut i: usize = 0;
    while i < n
        invariant
            i <= n,
            v@ == zeros(i as nat),
        decreases n - i,
    {
        v.push(0);
        i = i + 1;
        proof { assert(v@ =~= zeros(i as nat)); }
    }
    v
}

/// The bytes of a modification record.
fn record(change: &ChangeKind, offset: u32) -> (r: Vec<u8>)
    ensures
        r@ == change_record(*change, offset),
        r@.len() <= 17,
{
    proof { lemma_le_roundtrip(); }
    match change {
        ChangeKind::UnitMoved { unit_id, x_bits, y_bits } => {
            let mut w = WriteExactly::<17>::new();
            let _ = w.write_u32_le(offset);
            let _ = w.write_u8(1);
            let _ = w.write_i32_le(*unit_id);
            let _ = w.write_u32_le(*x_bits);
            let _ = w.write_u32_le(*y_bits);
            proof { assert(w@ =~= change_record(*change, offset)); }
            match w.finalize() {
                Ok(v) => v,
                Err(_) => {
                    proof { assert(false); }
                    Vec::new()
                },
            }
        },
        ChangeKind::UnitRotation { unit_id, rot } => {
            let mut w = WriteExactly::<10>::new();
            let _ = w.write_u32_le(offset);
            let _ = w.write_u8(2);
            let _ = w.write_i32_le(*unit_id);
            let _ = w.write_u8(*rot);
            proof { assert(w@ =~= change_record(*change, offset)); }
            match w.finalize() {
                Ok(v) => v,
                Err(_) => {
                    proof { assert(false); }
                    Vec::new()
                },
            }
        },
        ChangeKind::UnitDead { unit_id } => {
            let mut w = WriteExactly::<9>::new();
            let _ = w.write_u32_le(offset);
            let _ = w.write_u8(3);
            let _ = w.write_i32_le(*unit_id);
            proof { assert(w@ =~= change_record(*change, offset)); }
            match w.finalize() {
                Ok(v) => v,
                Err(_) => {
                    proof { assert(false); }
                    Vec::new()
                },
            }
        },
        ChangeKind::UnitDespawn { unit_id } => {
            let mut w = WriteExactly::<9>::new();
            let _ = w.write_u32_le(offset);
            let _ = w.write_u8(4);
            let _ = w.write_i32_le(*unit_id);
            proof { assert(w@ =~= change_record(*change, offset)); }
            match w.finalize() {
                Ok(v) => v,
                Err(_) => {
                    proof { assert(false); }
                    Vec::new()
                },
            }
        },
    }
}

/// Encoder builder.
pub struct Builder<W> {
    write: GenericIo<W>,
    snapshot_duration: u64,
    jmptable_size: usize,
    mod_buffer_size: usize,
    compression: Compression,
}

/// The settings of an encoder builder, as values.
pub struct BuilderView {
    pub snapshot_duration: u64,
    pub jmptable_size: usize,
    pub mod_buffer_size: usize,
    pub compression: Compression,
}

impl<W> Builder<W> {
    /// The settings.
    pub closed spec fn settings(&self) -> BuilderView {
        BuilderView {
            snapshot_duration: self.snapshot_duration,
            jmptable_size: self.jmptable_size,
            mod_buffer_size: self.mod_buffer_size,
            compression: self.compression,
        }
    }

    /// The IO object with its capabilities.
    pub closed spec fn io_view(&self) -> GenericIo<W> {
        self.write
    }

    /// Whether the settings are in the ranges that the setters keep them in.
    pub open spec fn wf(&self) -> bool {
        1 <= self.settings().jmptable_size <= i32::MAX && self.settings().mod_buffer_size >= 1024
    }

    /// A builder with 2 minutes between snapshots, 1024 entries per jump table, a 64 KiB
    /// modifications buffer, no compression, and no capability.
    pub fn new(write: W) -> (r: Self)
        ensures
            r.settings() == (BuilderView {
                snapshot_duration: 120000,
                jmptable_size: 1024,
                mod_buffer_size: 65536,
                compression: Compression::Uncompressed,
            }),
            r.io_view().obj() == write,
            r.io_view().caps() == no_caps(),
            r.wf(),
    {
        Builder {
            write: GenericIo::new_empty(write),
            snapshot_duration: 120000,
            jmptable_size: 1024,
            mod_buffer_size: 1024 * 64,
            compression: Compression::Uncompressed,
        }
    }

    /// Entries per jump table.
    pub fn get_jmptable_size(&self) -> (r: usize)
        ensures
            r == self.settings().jmptable_size,
    {
        self.jmptable_size
    }

    /// Sets the time between MAP chunks from a duration of `duration_ms` milliseconds: zero
    /// stays zero, and longer durations are cut to 1000 ms.
    pub fn snapshot_duration(self, duration_ms: u128) -> (r: Self)
        ensures
            r.settings() == (BuilderView {
                snapshot_duration: if duration_ms < 1000 { duration_ms as u64 } else { 1000 },
                ..self.settings()
            }),
            r.io_view() == self.io_view(),
    {
        let d: u64 = if duration_ms < 1000 { duration_ms as u64 } else { 1000 };
        Builder { snapshot_duration: d, ..self }
    }

    /// Amount of entries that one jump table holds: at least 1, at most `i32::MAX`.
    pub fn jmptable_size(self, size: usize) -> (r: Self)
        ensures
            r.settings() == (BuilderView {
                jmptable_size: if size < 1 { 1 } else if size > i32::MAX { i32::MAX as usize } else { size },
                ..self.settings()
            }),
            r.io_view() == self.io_view(),
    {
        let at_least_one = if size < 1 { 1 } else { size };
        let n = if at_least_one > i32::MAX as usize { i32::MAX as usize } else { at_least_one };
        Builder { jmptable_size: n, ..self }
    }

    /// Size of the modifications buffer in bytes: at least 1024.
    pub fn mod_buffer_size(self, size: usize) -> (r: Self)
        ensures
            r.settings() == (BuilderView {
                mod_buffer_size: if size < 1024 { 1024 } else { size },
                ..self.settings()
            }),
            r.io_view() == self.io_view(),
    {
        let n = if size < 1024 { 1024 } else { size };
        Builder { mod_buffer_size: n, ..self }
    }

    /// Set the compression for this encoder.
    pub fn compression(self, compression: Compression) -> (r: Self)
        ensures
            r.settings() == (BuilderView { compression, ..self.settings() }),
            r.io_view() == self.io_view(),
    {
        Builder { compression, ..self }
    }

    /// Enable the use of lz4 compression algorithm.
    pub fn lz4(self, mode: Lz4Mode) -> (r: Self)
        ensures
            r.settings() == (BuilderView { compression: Compression::Lz4 { mode }, ..self.settings() }),
            r.io_view() == self.io_view(),
    {
        Builder { compression: Compression::Lz4 { mode }, ..self }
    }

    /// Enable the use of deflate compression algorithm.
    pub fn deflate(self, quality: u32) -> (r: Self)
        ensures
            r.settings() == (BuilderView { compression: Compression::Deflate { quality }, ..self.settings() }),
            r.io_view() == self.io_view(),
    {
        Builder { compression: Compression::Deflate { quality }, ..self }
    }

    /// Enable the use of zlib compression algorithm.
    pub fn zlib(self, quality: u32) -> (r: Self)
        ensures
            r.settings() == (BuilderView { compression: Compression::Zlib { quality }, ..self.settings() }),
            r.io_view() == self.io_view(),
    {
        Builder { compression: Compression::Zlib { quality }, ..self }
    }

    /// Enable the use of gzip compression algorithm.
    pub fn gzip(self, quality: u32) -> (r: Self)
        ensures
            r.settings() == (BuilderView { compression: Compression::Gzip { quality }, ..self.settings() }),
            r.io_view() == self.io_view(),
    {
        Builder { compression: Compression::Gzip { quality }, ..self }
    }

    /// Make the encoder writeable; required to build it in sync mode.
    pub fn writeable(self) -> (r: Self)
        ensures
            r.settings() == self.settings(),
            r.io_view().caps() == (IoCaps { write: true, ..self.io_view().caps() }),
            r.io_view().obj() == self.io_view().obj(),
    {
        Builder { write: self.write.make_into_writeable(), ..self }
    }

    /// Make the encoder seekable; jump tables will be written.
    pub fn seekable(self) -> (r: Self)
        ensures
            r.settings() == self.settings(),
            r.io_view().caps() == (IoCaps { seek: true, ..self.io_view().caps() }),
            r.io_view().obj() == self.io_view().obj(),
    {
        Builder { write: self.write.make_into_seekable(), ..self }
    }

    /// Make the encoder async-seekable; jump tables will be written.
    pub fn async_seekable(self) -> (r: Self)
        ensures
            r.settings() == self.settings(),
            r.io_view().caps() == (IoCaps { async_seek: true, ..self.io_view().caps() }),
            r.io_view().obj() == self.io_view().obj(),
    {
        Builder { write: self.write.make_into_async_seekable(), ..self }
    }

    /// Make the encoder async-writeable; required to build it in async mode.
    pub fn async_writeable(self) -> (r: Self)
        ensures
            r.settings() == self.settings(),
            r.io_view().caps() == (IoCaps { async_write: true, ..self.io_view().caps() }),
            r.io_view().obj() == self.io_view().obj(),
    {
        Builder { write: self.write.make_into_async_writeable(), ..self }
    }

    /// Make the encoder try-cloneable; jump-table entries go through a cloned handle.
    pub fn try_cloneable(self) -> (r: Self)
        ensures
            r.settings() == self.settings(),
            r.io_view().caps() == (IoCaps { try_clone: true, ..self.io_view().caps() }),
            r.io_view().obj() == self.io_view().obj(),
    {
        Builder { write: self.write.make_into_try_cloneable(), ..self }
    }

    /// The encoder the settings describe, before any chunk.
    pub open spec fn fresh(&self) -> EncoderView {
        EncoderView {
            compression: self.settings().compression,
            jmptable_size: self.settings().jmptable_size,
            zeroes: jmp_body_len(self.settings().jmptable_size as int) as usize,
            jmp: JmpView { ptr: 0, remaining: 0, last_ts: 0, at: JmpTableImpl::NoTable },
            mod_data: Seq::empty(),
            mod_size: self.settings().mod_buffer_size,
            mod_start: self.settings().snapshot_duration,
            snapshot_rate: 0,
            caps: self.io_view().caps(),
            bound: false,
        }
    }

    /// A new encoder over the builder's IO object, and the file header to write and flush.
    fn finish(self) -> (r: (Encoder<W>, Vec<u8>))
        requires
            self.wf(),
            jmp_body_len(self.settings().jmptable_size as int) <= usize::MAX,
        ensures
            r.0@ == self.fresh(),
            r.0.io_view() == self.io_view(),
            r.1@ == header_bytes(self.settings().compression),
            r.0@.compression == self.settings().compression,
            encoder_wf(r.0@),
    {
        let zeroes = 18 * (self.jmptable_size - 1) + 9;
        let mut header: Vec<u8> = Vec::new();
        header.push(0x4d);
        header.push(0x44);
        header.push(0x52);
        header.push(0);
        crate::wire::push_u16(&mut header, 1);
        let mut settings = self.compression.write();
        header.append(&mut settings);
        proof {
            assert(header@ =~= header_bytes(self.compression));
        }
        let enc = Encoder {
            compression: self.compression,
            jmptable_size: self.jmptable_size,
            jmptable_at_ptr: 0,
            jmptable_zeroes: zeroes,
            jmptable_remaining: 0,
            jmptable_last_ts: 0,
            jmptable_at: JmpTableImpl::NoTable,
            mod_act_buffer: Vec::new(),
            mod_buffer_size: self.mod_buffer_size,
            mod_start_ts: self.snapshot_duration,
            snapshot_rate: 0,
            back_bound: false,
            write: self.write,
        };
        proof { assert(enc@.mod_data =~= Seq::<u8>::empty()); }
        (enc, header)
    }

    /// Builds a synchronous encoder: the encoder, and the header bytes to write and flush.
    pub fn build(self) -> (r: Result<(Encoder<W>, Vec<u8>), EncodeError>)
        requires
            self.wf(),
            jmp_body_len(self.settings().jmptable_size as int) <= usize::MAX,
        ensures
            match build_check(self.io_view().caps()) {
                Err(e) => r == Err::<(Encoder<W>, Vec<u8>), EncodeError>(e),
                Ok(()) => r matches Ok((enc, header)) && enc@ == self.fresh() && enc.io_view() == self.io_view()
                    && header@ == header_bytes(self.settings().compression) && encoder_wf(enc@)
                    && enc@.compression == self.settings().compression
                    && enc@.caps == self.io_view().caps()
                    && enc@.jmp.at is NoTable && enc@.mod_data.len() == 0 && !enc@.bound,
            },
    {
        if !self.write.is_writeable() {
            return Err(EncodeError::NoWrite);
        }
        if self.write.is_async_writeable() && (self.write.is_async_seekable() != self.write.is_seekable()) {
            if self.write.is_seekable() {
                return Err(EncodeError::SeekWithoutAsyncSeek);
            } else {
                return Err(EncodeError::AsyncSeekWithoutSeek);
            }
        }
        Ok(self.finish())
    }

    /// Builds an asynchronous encoder: the encoder, and the header bytes to write and flush.
    pub fn build_async(self) -> (r: Result<(Encoder<W>, Vec<u8>), EncodeError>)
        requires
            self.wf(),
            jmp_body_len(self.settings().jmptable_size as int) <= usize::MAX,
        ensures
            match build_async_check(self.io_view().caps()) {
                Err(e) => r == Err::<(Encoder<W>, Vec<u8>), EncodeError>(e),
                Ok(()) => r matches Ok((enc, header)) && enc@ == self.fresh() && enc.io_view() == self.io_view()
                    && header@ == header_bytes(self.settings().compression) && encoder_wf(enc@)
                    && enc@.compression == self.settings().compression
                    && enc@.caps == self.io_view().caps()
                    && enc@.jmp.at is NoTable && enc@.mod_data.len() == 0 && !enc@.bound,
            },
    {
        if !self.write.is_async_writeable() {
            return Err(EncodeError::NoAsyncWrite);
        }
        if self.write.is_writeable() && (self.write.is_async_seekable() != self.write.is_seekable()) {
            if self.write.is_seekable() {
                return Err(EncodeError::SeekWithoutAsyncSeek);
            } else {
                return Err(EncodeError::AsyncSeekWithoutSeek);
            }
        }
        Ok(self.finish())
    }
}

/// Whether a synchronous encoder can be built on these capabilities.
pub open spec fn build_check(c: IoCaps) -> Result<(), EncodeError> {
    if !c.write {
        Err(EncodeError::NoWrite)
    } else if c.async_write && c.async_seek != c.seek {
        if c.seek {
            Err(EncodeError::SeekWithoutAsyncSeek)
        } else {
            Err(EncodeError::AsyncSeekWithoutSeek)
        }
    } else {
        Ok(())
    }
}

/// Whether an asynchronous encoder can be built on these capabilities.
pub open spec fn build_async_check(c: IoCaps) -> Result<(), EncodeError> {
    if !c.async_write {
        Err(EncodeError::NoAsyncWrite)
    } else if c.write && c.async_seek != c.seek {
        if c.seek {
            Err(EncodeError::SeekWithoutAsyncSeek)
        } else {
            Err(EncodeError::AsyncSeekWithoutSeek)
        }
    } else {
        Ok(())
    }
}

/// MDR encoder. It decides what to write; each step names the writes for the caller to
/// perform on the backend, in order.
pub struct Encoder<W> {
    compression: Compression,
    jmptable_size: usize,
    jmptable_at_ptr: u64,
    jmptable_zeroes: usize,
    jmptable_remaining: usize,
    jmptable_last_ts: u64,
    jmptable_at: JmpTableImpl,
    mod_act_buffer: Vec<u8>,
    mod_buffer_size: usize,
    mod_start_ts: u64,
    snapshot_rate: u64,
    back_bound: bool,
    write: GenericIo<W>,
}

impl<W> View for Encoder<W> {
    type V = EncoderView;

    closed spec fn view(&self) -> EncoderView {
        EncoderView {
            compression: self.compression,
            jmptable_size: self.jmptable_size,
            zeroes: self.jmptable_zeroes,
            jmp: JmpView {
                ptr: self.jmptable_at_ptr,
                remaining: self.jmptable_remaining,
                last_ts: self.jmptable_last_ts,
                at: self.jmptable_at,
            },
            mod_data: self.mod_act_buffer@,
            mod_size: self.mod_buffer_size,
            mod_start: self.mod_start_ts,
            snapshot_rate: self.snapshot_rate,
            caps: self.write.caps(),
            bound: self.back_bound,
        }
    }
}

impl<W> Encoder<W> {
    /// The IO object with its capabilities.
    pub closed spec fn io_view(&self) -> GenericIo<W> {
        self.write
    }

    /// Create a new [Builder].
    pub fn builder(write: W) -> (r: Builder<W>)
        ensures
            r.settings() == (BuilderView {
                snapshot_duration: 120000,
                jmptable_size: 1024,
                mod_buffer_size: 65536,
                compression: Compression::Uncompressed,
            }),
            r.io_view().obj() == write,
            r.io_view().caps() == no_caps(),
            r.wf(),
    {
        Builder::new(write)
    }

    /// Create a streaming [Encoder]: the same as `Encoder::builder(write).build()`, which a
    /// builder without the `Write` capability refuses.
    pub fn streaming(write: W) -> (r: Result<(Encoder<W>, Vec<u8>), EncodeError>)
        ensures
            r == Err::<(Encoder<W>, Vec<u8>), EncodeError>(EncodeError::NoWrite),
    {
        Encoder::builder(write).build()
    }

    /// Create a streaming [Encoder] on an async writer: the same as
    /// `Encoder::builder(write).async_writeable().build()`, which is refused as the builder
    /// has no `Write` capability.
    pub fn streaming_async(write: W) -> (r: Result<(Encoder<W>, Vec<u8>), EncodeError>)
        ensures
            r == Err::<(Encoder<W>, Vec<u8>), EncodeError>(EncodeError::NoWrite),
    {
        Encoder::builder(write).async_writeable().build()
    }

    /// Check if this encoder supports synchronous writing.
    pub fn is_sync(&self) -> (r: bool)
        ensures
            r == self@.caps.write,
    {
        self.write.is_writeable()
    }

    /// Check if this encoder supports asynchronous writing.
    pub fn is_async(&self) -> (r: bool)
        ensures
            r == self@.caps.async_write,
    {
        self.write.is_async_writeable()
    }

    /// Maximum duration, in milliseconds, until the modifications buffer is submitted.
    pub fn snapshot_rate(&self) -> (r: u64)
        ensures
            r == self@.snapshot_rate,
    {
        self.snapshot_rate
    }

    /// Whether jump tables are written, so that each chunk step needs the stream position.
    pub fn can_make_jmpt(&self) -> (r: bool)
        ensures
            r == can_jmp(self@.caps),
    {
        self.write.is_seekable() || self.write.is_async_seekable()
    }

    /// Check availability and consistency of features for a synchronous or asynchronous step.
    pub fn expect_features(&self, is_async: bool) -> (r: Result<(), EncodeError>)
        ensures
            r == features_check(self@.caps, is_async),
    {
        if !is_async && !self.is_sync() {
            return Err(EncodeError::NoSyncWriting);
        }
        if is_async && !self.is_async() {
            return Err(EncodeError::NoAsyncWriting);
        }
        if self.is_async() && self.is_sync() && (self.write.is_async_seekable() != self.write.is_seekable()) {
            if self.write.is_seekable() {
                return Err(EncodeError::SeekWithoutAsyncSeek);
            } else {
                return Err(EncodeError::AsyncSeekWithoutSeek);
            }
        }
        Ok(())
    }

    /// The IO object, if synchronous writing was enabled.
    pub fn writeable(&mut self) -> (r: Option<&mut W>)
        ensures
            r is Some <==> old(self)@.caps.write,
            final(self)@ == old(self)@,
            final(self).io_view().caps() == old(self).io_view().caps(),
            r matches Some(o) ==> *o == old(self).io_view().obj() && final(self).io_view().obj() == *final(o),
            r is None ==> final(self).io_view().obj() == old(self).io_view().obj(),
    {
        self.write.writeable()
    }

    /// The IO object, if seeking was enabled.
    pub fn seekable(&mut self) -> (r: Option<&mut W>)
        ensures
            r is Some <==> old(self)@.caps.seek,
            final(self)@ == old(self)@,
            final(self).io_view().caps() == old(self).io_view().caps(),
            r matches Some(o) ==> *o == old(self).io_view().obj() && final(self).io_view().obj() == *final(o),
            r is None ==> final(self).io_view().obj() == old(self).io_view().obj(),
    {
        self.write.seekable()
    }

    /// The IO object, if asynchronous writing was enabled.
    pub fn async_writeable(&mut self) -> (r: Option<&mut W>)
        ensures
            r is Some <==> old(self)@.caps.async_write,
            final(self)@ == old(self)@,
            final(self).io_view().caps() == old(self).io_view().caps(),
            r matches Some(o) ==> *o == old(self).io_view().obj() && final(self).io_view().obj() == *final(o),
            r is None ==> final(self).io_view().obj() == old(self).io_view().obj(),
    {
        self.write.async_writeable()
    }

    /// The IO object, if asynchronous seeking was enabled.
    pub fn async_seekable(&mut self) -> (r: Option<&mut W>)
        ensures
            r is Some <==> old(self)@.caps.async_seek,
            final(self)@ == old(self)@,
            final(self).io_view().caps() == old(self).io_view().caps(),
            r matches Some(o) ==> *o == old(self).io_view().obj() && final(self).io_view().obj() == *final(o),
            r is None ==> final(self).io_view().obj() == old(self).io_view().obj(),
    {
        self.write.async_seekable()
    }

    /// Clones the IO object with `clone`, keeping its capabilities; `None` unless it was made
    /// try-cloneable.
    pub fn try_clone_io<E, F: FnOnce(&W) -> Result<W, E>>(&self, clone: F) -> (r: Option<Result<GenericIo<W>, E>>)
        requires
            self@.caps.try_clone ==> clone.requires((&self.io_view().obj(),)),
        ensures
            r is Some <==> self@.caps.try_clone,
            r matches Some(res) ==> (exists|out: Result<W, E>| clone.ensures((&self.io_view().obj(),), out) && match out {
                Ok(o) => res matches Ok(g) && g.obj() == o && g.caps() == self.io_view().caps(),
                Err(e) => res matches Err(e2) && e2 == e,
            }),
    {
        self.write.try_clone(clone)
    }

    /// The compression of chunk bodies.
    pub fn get_compression(&self) -> (r: Compression)
        ensures
            r == self@.compression,
    {
        self.compression
    }

    /// Whether modification records wait for the next MOD chunk.
    pub fn has_pending_changes(&self) -> (r: bool)
        ensures
            r == (self@.mod_data.len() > 0),
    {
        self.mod_act_buffer.len() > 0
    }

    /// The timestamp that the waiting modification records count from.
    pub fn mod_start_ts(&self) -> (r: u64)
        ensures
            r == self@.mod_start,
    {
        self.mod_start_ts
    }

    /// Closes the jump table whose cloned handle could not be opened.
    pub fn abandon_table(&mut self)
        requires
            encoder_wf(old(self)@),
        ensures
            encoder_wf(final(self)@),
            final(self)@ == (EncoderView { jmp: JmpView { at: JmpTableImpl::NoTable, ..old(self)@.jmp }, ..old(self)@ }),
            final(self).io_view() == old(self).io_view(),
    {
        self.jmptable_at = JmpTableImpl::NoTable;
    }

    /// Writes a chunk of kind `kind`, stamped `timestamp` (milliseconds since the start of the
    /// recording), whose body is `data`, at stream position `pos` (needed when the encoder
    /// writes jump tables). The body is compressed first, so a compression failure leaves the
    /// encoder as it was and asks for no write; then a jump table is created, or an entry is
    /// added to the open one.
    pub fn write_chunk(&mut self, kind: ChunkKind, timestamp: u64, data: &[u8], pos: Option<u64>, is_async: bool) -> (r: Result<Vec<WriteOp>, EncodeError>)
        requires
            encoder_wf(old(self)@),
            encodable(old(self)@.compression),
            can_jmp(old(self)@.caps) ==> pos is Some,
            pos matches Some(p) ==> p + 21 < pos_bound(),
        ensures
            encoder_wf(final(self)@),
            final(self).io_view() == old(self).io_view(),
            exists|out: Result<Seq<u8>, EncodeError>| #[trigger] chunk_written(old(self)@, kind, timestamp, data@, out,
                pos_or_zero(pos), is_async, final(self)@, ops_result(r)),
    {
        let ghost v0 = self@;
        match self.expect_features(is_async) {
            Err(e) => {
                proof { assert(chunk_written(v0, kind, timestamp, data@, Err(EncodeError::Compression), pos_or_zero(pos), is_async, self@, ops_result(Err(e)))); }
                return Err(e);
            },
            Ok(()) => {},
        }
        if kind == ChunkKind::Jmp {
            proof { assert(chunk_written(v0, kind, timestamp, data@, Err(EncodeError::Compression), pos_or_zero(pos), is_async, self@, ops_result(Err(EncodeError::ManualJmp)))); }
            return Err(EncodeError::ManualJmp);
        }
        if data.len() > i32::MAX as usize {
            proof { assert(chunk_written(v0, kind, timestamp, data@, Err(EncodeError::Compression), pos_or_zero(pos), is_async, self@, ops_result(Err(EncodeError::ChunkTooLarge)))); }
            return Err(EncodeError::ChunkTooLarge);
        }
        let out = self.compression.write_data(data);
        let ghost o = out_view(out);
        match out {
            Err(e) => {
                proof { assert(chunk_written(v0, kind, timestamp, data@, o, pos_or_zero(pos), is_async, self@, ops_result(Err(e)))); }
                Err(e)
            },
            Ok(stored) => {
                let ops = self.write_stored_chunk(kind, timestamp, stored.as_slice(), pos);
                proof { assert(chunk_written(v0, kind, timestamp, data@, o, pos_or_zero(pos), is_async, self@, ops_result(Ok(ops)))); }
                Ok(ops)
            },
        }
    }

    /// Writes a chunk of kind `kind`, stamped `timestamp`, whose body is stored as `stored`,
    /// at stream position `pos`: the stop block after the file header if it is still due, the
    /// jump table or its entry, the chunk, the entry's validity byte, and a flush.
    pub fn write_stored_chunk(&mut self, kind: ChunkKind, timestamp: u64, stored: &[u8], pos: Option<u64>) -> (r: Vec<WriteOp>)
        requires
            encoder_wf(old(self)@),
            kind != ChunkKind::Jmp,
            stored@.len() <= u32::MAX,
            can_jmp(old(self)@.caps) ==> pos is Some,
            pos matches Some(p) ==> p + 21 < pos_bound(),
        ensures
            encoder_wf(final(self)@),
            final(self).io_view() == old(self).io_view(),
            (final(self)@, ops_view(r@)) == stored_step(old(self)@, kind_byte(kind), timestamp, stored@, pos_or_zero(pos)),
    {
        let ghost vs = self@;
        let mut start: Vec<WriteOp> = Vec::new();
        let given = match pos {
            Some(x) => x,
            None => 0,
        };
        let this_pos: u64 = if self.back_bound {
            given
        } else {
            start.push(WriteOp::Append(zero_bytes(21)));
            self.back_bound = true;
            given + 21
        };
        proof {
            assert(ops_view(start@) =~= start_ops(vs));
            assert(this_pos == start_pos(vs, pos_or_zero(pos)));
        }
        let k = kind.ordinal();
        let mut ops = self.chunk_ops(k, timestamp, stored, this_pos);
        proof {
            assert(chunk_step(vs, k, timestamp, stored@, this_pos) == chunk_step(EncoderView { bound: true, ..vs }, k, timestamp, stored@, this_pos));
        }
        let ghost rest = ops_view(ops@);
        start.append(&mut ops);
        proof { assert(ops_view(start@) =~= start_ops(vs) + rest); }
        start
    }

    /// The writes of a chunk step at stream position `this_pos`: the jump table or its entry,
    /// the chunk, the entry's validity byte, and a flush.
    fn chunk_ops(&mut self, k: u8, timestamp: u64, stored: &[u8], this_pos: u64) -> (r: Vec<WriteOp>)
        requires
            encoder_wf(old(self)@),
            this_pos < pos_bound(),
        ensures
            final(self)@ == (EncoderView { jmp: chunk_step(old(self)@, k, timestamp, stored@, this_pos).0, ..old(self)@ }),
            ops_view(r@) == chunk_step(old(self)@, k, timestamp, stored@, this_pos).1,
            encoder_wf(final(self)@),
            final(self).io_view() == old(self).io_view(),
    {
        let ghost v0 = self@;
        let ghost p = this_pos;
        let ghost (j1, pre) = jmp_step(v0, k, timestamp, p);
        let mut ops: Vec<WriteOp> = Vec::new();
        if self.can_make_jmpt() {
            match self.jmptable_at {
                JmpTableImpl::NoTable => {
                    let size = self.jmptable_size;
                    let zeroes = self.jmptable_zeroes;
                    let body = if size >= 2 {
                        let cpos = this_pos + 34 + zeroes as u64;
                        let mut b = entry_record(k, timestamp, cpos);
                        let mut z = zero_bytes(zeroes - 17);
                        b.append(&mut z);
                        b
                    } else {
                        zero_bytes(zeroes)
                    };
                    proof { assert(body@ =~= table_body(v0, k, timestamp, p)); }
                    ops.push(WriteOp::Append(frame(1, timestamp, body.as_slice(), self.jmptable_at_ptr)));
                    self.jmptable_at_ptr = this_pos;
                    self.jmptable_last_ts = timestamp;
                    if size < 2 {
                        self.jmptable_remaining = 0;
                        self.jmptable_at = JmpTableImpl::NoTable;
                    } else {
                        self.jmptable_remaining = size - 2;
                        if self.write.can_try_clone() {
                            ops.push(WriteOp::OpenSide { at: this_pos + 30 });
                            self.jmptable_at = JmpTableImpl::File;
                        } else {
                            self.jmptable_at = JmpTableImpl::Addr(this_pos + 30);
                        }
                    }
                },
                JmpTableImpl::Addr(a) => {
                    self.jmptable_remaining = self.jmptable_remaining - 1;
                    ops.push(WriteOp::Patch { at: a, bytes: entry_record(k, timestamp, this_pos) });
                    self.jmptable_at = JmpTableImpl::Addr(a + 17);
                },
                JmpTableImpl::File => {
                    self.jmptable_remaining = self.jmptable_remaining - 1;
                    ops.push(WriteOp::Side(entry_record(k, timestamp, this_pos)));
                },
            }
        }
        proof {
            assert(self@.jmp == j1);
            assert(ops_view(ops@) =~= pre);
        }
        let ghost mid = ops_view(ops@);
        let frame_op = WriteOp::Append(frame(k, timestamp, stored, self.jmptable_at_ptr));
        let ghost chunk_view = op_view(frame_op);
        ops.push(frame_op);
        proof { assert(ops_view(ops@) =~= mid.push(chunk_view)); }
        let ghost mid2 = ops_view(ops@);
        let ghost (j2, post) = validity_step(j1);
        match self.jmptable_at {
            JmpTableImpl::NoTable => {
                proof { assert(ops_view(ops@) =~= mid2 + post); }
            },
            JmpTableImpl::Addr(a) => {
                let one = vec![1u8];
                proof { assert(one@ =~= seq![1u8]); }
                ops.push(WriteOp::Patch { at: a, bytes: one });
                self.jmptable_at = JmpTableImpl::Addr(a + 1);
                proof { assert(ops_view(ops@) =~= mid2 + post); }
            },
            JmpTableImpl::File => {
                let one = vec![1u8];
                proof { assert(one@ =~= seq![1u8]); }
                ops.push(WriteOp::Side(one));
                proof { assert(ops_view(ops@) =~= mid2 + post); }
            },
        }
        if self.jmptable_remaining == 0 {
            self.jmptable_at = JmpTableImpl::NoTable;
        }
        let ghost mid3 = ops_view(ops@);
        ops.push(WriteOp::Flush);
        proof {
            lemma_chunk_step_wf(v0, k, timestamp, stored@, p);
            assert(ops_view(ops@) =~= mid3.push(OpView::Flush));
            assert(self@.jmp == j2);
            assert(ops_view(ops@) =~= pre + seq![OpView::Append(frame_bytes(k, timestamp, stored@, j1.ptr))] + post + seq![OpView::Flush]);
            assert(self@ == EncoderView { jmp: j2, ..v0 });
        }
        ops
    }
}

impl<W> Encoder<W> {
    /// Flushes the waiting modification records into a MOD chunk stamped with their start,
    /// at stream position `pos`; if none wait, only the stop block after the file header is
    /// written, where it is still due.
    pub fn flush_mod(&mut self, pos: Option<u64>, is_async: bool) -> (r: Result<Vec<WriteOp>, EncodeError>)
        requires
            encoder_wf(old(self)@),
            old(self)@.mod_data.len() > 0 ==> encodable(old(self)@.compression),
            old(self)@.mod_data.len() > 0 && can_jmp(old(self)@.caps) ==> pos is Some,
            pos matches Some(p) ==> p + 21 < pos_bound(),
        ensures
            encoder_wf(final(self)@),
            final(self).io_view() == old(self).io_view(),
            exists|out: Result<Seq<u8>, EncodeError>| #[trigger] mod_flushed(old(self)@, out, pos_or_zero(pos), is_async,
                final(self)@, ops_result(r)),
    {
        let ghost v0 = self@;
        let ghost none = Err::<Seq<u8>, EncodeError>(EncodeError::Compression);
        match self.expect_features(is_async) {
            Err(e) => {
                proof { assert(mod_flushed(v0, none, pos_or_zero(pos), is_async, self@, ops_result(Err(e)))); }
                return Err(e);
            },
            Ok(()) => {},
        }
        if self.mod_act_buffer.len() == 0 {
            let mut ops: Vec<WriteOp> = Vec::new();
            if !self.back_bound {
                ops.push(WriteOp::Append(zero_bytes(21)));
                self.back_bound = true;
            }
            proof {
                assert(ops_view(ops@) =~= start_ops(v0));
                assert(mod_flushed(v0, none, pos_or_zero(pos), is_async, self@, ops_result(Ok(ops))));
            }
            return Ok(ops);
        }
        let mut buffer: Vec<u8> = Vec::new();
        std::mem::swap(&mut buffer, &mut self.mod_act_buffer);
        let start = self.mod_start_ts;
        let ghost v1 = self@;
        proof {
            assert(buffer@ == v0.mod_data);
            assert(v1 == EncoderView { mod_data: Seq::empty(), ..v0 });
        }
        let r = self.write_chunk(ChunkKind::Mod, start, buffer.as_slice(), pos, is_async);
        proof {
            let out = choose|out: Result<Seq<u8>, EncodeError>| #[trigger] chunk_written(v1, ChunkKind::Mod, start, buffer@, out,
                pos_or_zero(pos), is_async, self@, ops_result(r));
            assert(chunk_written(v1, ChunkKind::Mod, start, buffer@, out, pos_or_zero(pos), is_async, self@, ops_result(r)));
            assert(chunk_checks(v1, ChunkKind::Mod, buffer@, is_async) == chunk_checks(v0, ChunkKind::Mod, v0.mod_data, is_async));
            assert(write_chunk_spec(v1, ChunkKind::Mod, start, buffer@, out, pos_or_zero(pos), is_async) matches Ok((w, _))
                ==> w == EncoderView { mod_data: Seq::empty(), ..(write_chunk_spec(v0, ChunkKind::Mod, start, buffer@, out, pos_or_zero(pos), is_async)->Ok_0).0 });
        }
        match r {
            Err(e) => {
                self.mod_act_buffer = buffer;
                proof {
                    assert(self@.mod_data =~= v0.mod_data);
                    assert(self@ == v0);
                    let out = choose|out: Result<Seq<u8>, EncodeError>| #[trigger] chunk_written(v1, ChunkKind::Mod, start, buffer@, out,
                        pos_or_zero(pos), is_async, v1, ops_result(Err::<Vec<WriteOp>, EncodeError>(e)));
                    assert(mod_flushed(v0, out, pos_or_zero(pos), is_async, self@, ops_result(Err::<Vec<WriteOp>, EncodeError>(e))));
                }
                Err(e)
            },
            Ok(ops) => {
                proof {
                    let out = choose|out: Result<Seq<u8>, EncodeError>| #[trigger] chunk_written(v1, ChunkKind::Mod, start, buffer@, out,
                        pos_or_zero(pos), is_async, self@, ops_result(Ok::<Vec<WriteOp>, EncodeError>(ops)));
                    assert(mod_flushed(v0, out, pos_or_zero(pos), is_async, self@, ops_result(Ok::<Vec<WriteOp>, EncodeError>(ops))));
                }
                Ok(ops)
            },
        }
    }

    /// Appends the record of `change`, `now_ms` milliseconds into the recording, to the
    /// waiting modification records; `false`, with nothing changed, if it does not fit.
    pub fn write_change_buf(&mut self, change: &ChangeKind, now_ms: u64) -> (r: bool)
        requires
            encoder_wf(old(self)@),
            now_ms >= old(self)@.mod_start,
        ensures
            encoder_wf(final(self)@),
            final(self).io_view() == old(self).io_view(),
            ({
                let rec = change_record(*change, #[verifier::truncate] ((now_ms - old(self)@.mod_start) as u32));
                &&& r == (old(self)@.mod_data.len() + rec.len() <= old(self)@.mod_size)
                &&& final(self)@ == if r {
                    EncoderView { mod_data: old(self)@.mod_data + rec, ..old(self)@ }
                } else {
                    old(self)@
                }
            }),
    {
        let offset = #[verifier::truncate] ((now_ms - self.mod_start_ts) as u32);
        let mut rec = record(change, offset);
        if self.mod_buffer_size - self.mod_act_buffer.len() < rec.len() {
            return false;
        }
        self.mod_act_buffer.append(&mut rec);
        true
    }

    /// Starts the record clock at `now_ms` if no record waits, then appends the record of
    /// `change`; `false` if it does not fit (the waiting records must be flushed first).
    pub fn write_change(&mut self, change: &ChangeKind, now_ms: u64) -> (r: bool)
        requires
            encoder_wf(old(self)@),
            old(self)@.mod_data.len() > 0 ==> now_ms >= old(self)@.mod_start,
        ensures
            encoder_wf(final(self)@),
            final(self).io_view() == old(self).io_view(),
            (final(self)@, r) == change_step(old(self)@, *change, now_ms),
    {
        if self.mod_act_buffer.len() == 0 {
            self.mod_start_ts = now_ms;
        }
        self.write_change_buf(change, now_ms)
    }

    /// Appends the record of `change` again, after the waiting records were flushed; fails if
    /// it still does not fit.
    pub fn retry_change(&mut self, change: &ChangeKind, now_ms: u64) -> (r: Result<(), EncodeError>)
        requires
            encoder_wf(old(self)@),
            now_ms >= old(self)@.mod_start,
        ensures
            encoder_wf(final(self)@),
            final(self).io_view() == old(self).io_view(),
            old(self)@.mod_data.len() == 0 ==> r is Ok,
            ({
                let rec = change_record(*change, #[verifier::truncate] ((now_ms - old(self)@.mod_start) as u32));
                &&& (r is Ok) == (old(self)@.mod_data.len() + rec.len() <= old(self)@.mod_size)
                &&& r is Err ==> r == Err::<(), EncodeError>(EncodeError::ModBufferTooShort)
                &&& final(self)@ == if r is Ok {
                    EncoderView { mod_data: old(self)@.mod_data + rec, ..old(self)@ }
                } else {
                    old(self)@
                }
            }),
    {
        proof { lemma_change_record_len(*change, #[verifier::truncate] ((now_ms - self.mod_start_ts) as u32)); }
        if self.write_change_buf(change, now_ms) {
            Ok(())
        } else {
            Err(EncodeError::ModBufferTooShort)
        }
    }
}

/// The position a chunk step is given, or 0 when none is.
pub open spec fn pos_or_zero(pos: Option<u64>) -> u64 {
    match pos {
        Some(p) => p,
        None => 0,
    }
}

} // verus!
