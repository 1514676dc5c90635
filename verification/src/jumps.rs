//! What a file written by the encoder's steps holds in its jump tables: every record marked
//! valid points at a chunk of its kind and timestamp, and no byte outside table bodies is
//! ever written twice.
use vstd::prelude::*;
use crate::wire::{le64, get_u64, zeros, lemma_le_roundtrip};
use crate::data::{ChunkKind, kind_byte};
use crate::enc::{write_chunk_spec, start_ops, start_pos, EncoderView, JmpTableImpl, OpView, encoder_wf, can_jmp, pos_bound, chunk_step, jmp_step,
    frame_bytes, entry_bytes, table_body, chunk_pos};

verus! {

/// `file` with the bytes `b` written over it from `at`.
pub open spec fn patched(file: Seq<u8>, at: int, b: Seq<u8>) -> Seq<u8> {
    file.subrange(0, at) + b + file.skip(at + b.len())
}

/// What the writes of a step do to a file whose stream stands at its end, on a backend that is
/// not cloned: appends extend it, patches inside it overwrite in place (and seek back to the
/// end), flushes change nothing.
pub open spec fn file_after(file: Seq<u8>, ops: Seq<OpView>) -> Seq<u8>
    decreases ops.len(),
{
    if ops.len() == 0 {
        file
    } else {
        let f1 = match ops[0] {
            OpView::Append(b) => file + b,
            OpView::Patch(a, b) => if a + b.len() <= file.len() { patched(file, a as int, b) } else { file },
            _ => file,
        };
        file_after(f1, ops.skip(1))
    }
}

/// Where record `r` of the `i`-th jump table starts.
pub open spec fn record_at(tabs: Seq<u64>, i: int, r: int) -> int {
    tabs[i] + 13 + 18 * r
}

/// Whether `q` lies, with the 9 bytes of a chunk's kind and timestamp, outside every table body.
pub open spec fn outside_bodies(tabs: Seq<u64>, zeroes: int, q: int) -> bool {
    forall|j: int| 0 <= j < tabs.len() ==> q + 9 <= #[trigger] tabs[j] + 13 || q >= tabs[j] + 13 + zeroes
}

/// The record at `x` is inside the file, and if its validity byte is 1, it points at a chunk
/// that starts with the record's kind and timestamp, outside every table body.
pub open spec fn record_fine(file: Seq<u8>, tabs: Seq<u64>, zeroes: int, x: int) -> bool {
    &&& 0 <= x
    &&& x + 18 <= file.len()
    &&& file[x + 17] == 1 ==> {
        let q = get_u64(file, x + 9) as int;
        &&& q + 9 <= file.len()
        &&& file[q] == file[x]
        &&& get_u64(file, q + 1) == get_u64(file, x + 1)
        &&& outside_bodies(tabs, zeroes, q)
    }
}

/// What holds of a file written by an encoder on a backend that seeks and is not cloned, with
/// its jump tables at the positions `tabs`: the tables lie one after another inside the file,
/// each of their records is fine, and the records of the open table that are still to be
/// filled are not marked valid. Before the stop block after the file header is written, no
/// table is.
pub open spec fn jump_file_inv(file: Seq<u8>, v: EncoderView, tabs: Seq<u64>) -> bool {
    let size = v.jmptable_size as int;
    let zeroes = v.zeroes as int;
    &&& encoder_wf(v)
    &&& can_jmp(v.caps)
    &&& !v.caps.try_clone
    &&& !v.bound ==> tabs.len() == 0
    &&& file.len() < pos_bound()
    &&& forall|i: int| 0 <= i < tabs.len() ==> #[trigger] tabs[i] + 34 + zeroes <= file.len()
    &&& forall|i: int, j: int| 0 <= i < j < tabs.len() ==> #[trigger] tabs[i] + 34 + zeroes <= #[trigger] tabs[j]
    &&& forall|i: int, r: int| 0 <= i < tabs.len() && 0 <= r < size - 1
        ==> #[trigger] record_fine(file, tabs, zeroes, record_at(tabs, i, r))
    &&& (v.jmp.at matches JmpTableImpl::Addr(a) ==> {
        &&& tabs.len() > 0
        &&& tabs.last() == v.jmp.ptr
        &&& forall|r: int| 0 <= r < size - 1 && a <= #[trigger] record_at(tabs, tabs.len() - 1, r)
            ==> file[record_at(tabs, tabs.len() - 1, r) + 17] == 0
    })
}

/// Two files that agree on 8 bytes read the same `u64` there.
proof fn lemma_same_u64(f1: Seq<u8>, f2: Seq<u8>, i: int)
    requires
        0 <= i,
        i + 8 <= f1.len(),
        i + 8 <= f2.len(),
        forall|k: int| i <= k < i + 8 ==> f1[k] == f2[k],
    ensures
        get_u64(f1, i) == get_u64(f2, i),
{
    assert(f1.subrange(i, i + 8) =~= f2.subrange(i, i + 8));
}

/// A record that is fine in `f1` stays fine in `f2` when its bytes, and those of the chunk it
/// points at, are the same in both, and no table is added in front of that chunk.
proof fn lemma_record_kept(f1: Seq<u8>, f2: Seq<u8>, tabs1: Seq<u64>, tabs2: Seq<u64>, zeroes: int, x: int)
    requires
        record_fine(f1, tabs1, zeroes, x),
        f1.len() <= f2.len(),
        forall|k: int| x <= k < x + 18 ==> f1[k] == f2[k],
        f1[x + 17] == 1 ==> (forall|k: int| get_u64(f1, x + 9) <= k < get_u64(f1, x + 9) + 9 ==> f1[k] == f2[k]),
        tabs1.len() <= tabs2.len(),
        forall|j: int| 0 <= j < tabs1.len() ==> tabs1[j] == tabs2[j],
        forall|j: int| tabs1.len() <= j < tabs2.len() ==> tabs2[j] >= f1.len(),
    ensures
        record_fine(f2, tabs2, zeroes, x),
{
    if f1[x + 17] == 1 {
        lemma_same_u64(f1, f2, x + 9);
        lemma_same_u64(f1, f2, x + 1);
        let q = get_u64(f1, x + 9) as int;
        lemma_same_u64(f1, f2, q + 1);
        assert forall|j: int| 0 <= j < tabs2.len() implies q + 9 <= #[trigger] tabs2[j] + 13 || q >= tabs2[j] + 13 + zeroes by {
            if j < tabs1.len() {
                assert(tabs1[j] == tabs2[j]);
            }
        }
    }
}

/// The file that the encoder starts with, the header, holds no jump table.
pub proof fn law_jump_file_start(header: Seq<u8>, v: EncoderView)
    requires
        encoder_wf(v),
        can_jmp(v.caps),
        !v.caps.try_clone,
        v.jmp.at is NoTable,
        header.len() < pos_bound(),
    ensures
        jump_file_inv(header, v, Seq::empty()),
{
}

/// The bytes of a file after an entry is patched in at `a`, a chunk is appended, and the
/// entry's validity byte is set.
proof fn lemma_entry_file(file: Seq<u8>, a: int, ent: Seq<u8>, chunk: Seq<u8>)
    requires
        0 <= a,
        a + 18 <= file.len(),
        ent.len() == 17,
    ensures
        ({
            let f3 = patched(patched(file, a, ent) + chunk, a + 17, seq![1u8]);
            &&& f3.len() == file.len() + chunk.len()
            &&& forall|k: int| 0 <= k < file.len() && !(a <= k < a + 18) ==> f3[k] == file[k]
            &&& forall|k: int| 0 <= k < chunk.len() ==> f3[file.len() + k] == chunk[k]
            &&& forall|k: int| 0 <= k < 17 ==> f3[a + k] == ent[k]
            &&& f3[a + 17] == 1
        }),
{
    let f1 = patched(file, a, ent);
    assert(f1.len() == file.len());
    assert forall|k: int| 0 <= k < file.len() && !(a <= k < a + 17) implies f1[k] == file[k] by {
        if k < a {} else {}
    }
    assert forall|k: int| 0 <= k < 17 implies f1[a + k] == ent[k] by {}
    let f2 = f1 + chunk;
    let f3 = patched(f2, a + 17, seq![1u8]);
    assert(f3.len() == f2.len());
    assert forall|k: int| 0 <= k < f2.len() && k != a + 17 implies f3[k] == f2[k] by {
        if k < a + 17 {} else {}
    }
}

/// The bytes of a file after a table and a chunk are appended, and the validity byte at `v`
/// (inside the table) is set.
proof fn lemma_open_file(file: Seq<u8>, table: Seq<u8>, chunk: Seq<u8>, at: int)
    requires
        0 <= at < table.len(),
    ensures
        ({
            let f3 = patched(file + table + chunk, file.len() + at, seq![1u8]);
            &&& f3.len() == file.len() + table.len() + chunk.len()
            &&& forall|k: int| 0 <= k < file.len() ==> f3[k] == file[k]
            &&& forall|k: int| 0 <= k < table.len() && k != at ==> f3[file.len() + k] == table[k]
            &&& forall|k: int| 0 <= k < chunk.len() ==> f3[file.len() + table.len() + k] == chunk[k]
            &&& f3[file.len() + at] == 1
        }),
{
    let f2 = file + table + chunk;
    let f3 = patched(f2, file.len() + at, seq![1u8]);
    assert forall|k: int| 0 <= k < f2.len() && k != file.len() + at implies f3[k] == f2[k] by {
        if k < file.len() + at {} else {}
    }
}

/// Where `f2` extends `file` and agrees with it outside `[lo, hi)`, a record that points at a
/// chunk outside the table bodies, and does not itself overlap `[lo, hi)`, stays fine.
proof fn lemma_record_kept_outside(file: Seq<u8>, f2: Seq<u8>, tabs: Seq<u64>, zeroes: int, x: int, lo: int, hi: int)
    requires
        record_fine(file, tabs, zeroes, x),
        file.len() <= f2.len(),
        forall|k: int| 0 <= k < file.len() && !(lo <= k < hi) ==> f2[k] == file[k],
        x + 18 <= lo || x >= hi,
        file[x + 17] == 1 ==> {
            let q = get_u64(file, x + 9) as int;
            q + 9 <= lo || q >= hi
        },
    ensures
        record_fine(f2, tabs, zeroes, x),
{
    lemma_record_kept(file, f2, tabs, tabs, zeroes, x);
}

/// Patching the next entry of the open table, appending the chunk and marking the entry valid
/// keeps what holds of the file.
proof fn lemma_entry_inv(file: Seq<u8>, f3: Seq<u8>, v: EncoderView, v2: EncoderView, tabs: Seq<u64>, a: int,
    kind: u8, ts: u64, chunk: Seq<u8>)
    requires
        jump_file_inv(file, v, tabs),
        0 <= a <= u64::MAX,
        v.jmp.at == JmpTableImpl::Addr(a as u64),
        encoder_wf(v2),
        v2 == (EncoderView { jmp: v2.jmp, ..v }),
        v2.jmp.ptr == v.jmp.ptr,
        v2.jmp.at is Addr ==> v2.jmp.at->Addr_0 == a + 18,
        v2.jmp.at is File ==> false,
        chunk.len() >= 34,
        chunk[0] == kind,
        get_u64(chunk, 1) == ts,
        f3.len() == file.len() + chunk.len(),
        f3.len() < pos_bound(),
        forall|k: int| 0 <= k < file.len() && !(a <= k < a + 18) ==> f3[k] == file[k],
        forall|k: int| 0 <= k < chunk.len() ==> f3[file.len() + k] == chunk[k],
        f3[a] == kind,
        get_u64(f3, a + 1) == ts,
        get_u64(f3, a + 9) == file.len(),
        f3[a + 17] == 1,
    ensures
        jump_file_inv(f3, v2, tabs),
        forall|k: int| 0 <= k < file.len() && outside_bodies(tabs, v.zeroes as int, k) ==> f3[k] == file[k],
{
    let size = v.jmptable_size as int;
    let zeroes = v.zeroes as int;
    let ti = tabs.len() - 1;
    let pos = file.len() as int;
    let cur = v.jmptable_size - 1 - v.jmp.remaining;
    assert(a == v.jmp.ptr + 13 + 18 * cur);
    assert(record_at(tabs, ti, cur) == a);
    assert(0 <= cur < size - 1);
    assert(record_fine(file, tabs, zeroes, a));
    assert(tabs[ti] + 34 + zeroes <= pos);
    assert(f3[pos] == kind);
    lemma_same_u64(chunk, f3.subrange(pos, f3.len() as int), 1);
    assert(f3.subrange(pos, f3.len() as int).subrange(1, 9) =~= f3.subrange(pos + 1, pos + 9));
    assert(get_u64(f3, pos + 1) == ts);
    assert forall|i: int| 0 <= i < tabs.len() implies #[trigger] tabs[i] + 34 + zeroes <= f3.len() by {}
    assert forall|i: int, r: int| 0 <= i < tabs.len() && 0 <= r < size - 1
        implies #[trigger] record_fine(f3, tabs, zeroes, record_at(tabs, i, r)) by {
        let x = record_at(tabs, i, r);
        assert(record_fine(file, tabs, zeroes, x));
        if x == a {
            assert forall|jj: int| 0 <= jj < tabs.len() implies pos + 9 <= #[trigger] tabs[jj] + 13 || pos >= tabs[jj] + 13 + zeroes by {
                assert(tabs[jj] + 34 + zeroes <= file.len());
            }
        } else {
            if i < ti {
                assert(tabs[i] + 34 + zeroes <= tabs[ti]);
            } else {
                assert(r != cur);
                if r > cur {
                    assert(a <= record_at(tabs, ti, r));
                }
            }
            if file[x + 17] == 1 {
                let q = get_u64(file, x + 9) as int;
                assert(outside_bodies(tabs, zeroes, q));
                assert(q + 9 <= tabs[ti] + 13 || q >= tabs[ti] + 13 + zeroes);
            }
            lemma_record_kept_outside(file, f3, tabs, zeroes, x, a, a + 18);
        }
    }
    if v2.jmp.at is Addr {
        assert forall|r: int| 0 <= r < size - 1 && v2.jmp.at->Addr_0 <= #[trigger] record_at(tabs, tabs.len() - 1, r)
            implies f3[record_at(tabs, tabs.len() - 1, r) + 17] == 0 by {
            assert(a <= record_at(tabs, tabs.len() - 1, r));
        }
    }
    assert forall|k: int| 0 <= k < file.len() && outside_bodies(tabs, zeroes, k) implies f3[k] == file[k] by {
        assert(k + 9 <= tabs[ti] + 13 || k >= tabs[ti] + 13 + zeroes);
    }
}

/// Opening a table whose first record names the chunk that follows it, appending that chunk,
/// and marking the record valid keeps what holds of the file.
proof fn lemma_open_inv(file: Seq<u8>, f3: Seq<u8>, v: EncoderView, v2: EncoderView, tabs: Seq<u64>,
    kind: u8, ts: u64, table: Seq<u8>, chunk: Seq<u8>)
    requires
        jump_file_inv(file, v, tabs),
        v.bound,
        v.jmp.at is NoTable,
        v.jmptable_size >= 2,
        encoder_wf(v2),
        v2 == (EncoderView { jmp: v2.jmp, ..v }),
        v2.jmp.ptr == file.len(),
        v2.jmp.at is Addr ==> v2.jmp.at->Addr_0 == file.len() + 31,
        v2.jmp.at is File ==> false,
        table.len() == 34 + v.zeroes,
        forall|k: int| 30 < k < 13 + v.zeroes ==> table[k] == 0,
        chunk.len() >= 34,
        chunk[0] == kind,
        get_u64(chunk, 1) == ts,
        f3.len() == file.len() + table.len() + chunk.len(),
        f3.len() < pos_bound(),
        forall|k: int| 0 <= k < file.len() ==> f3[k] == file[k],
        forall|k: int| 0 <= k < table.len() && k != 30 ==> f3[file.len() + k] == table[k],
        forall|k: int| 0 <= k < chunk.len() ==> f3[file.len() + table.len() + k] == chunk[k],
        f3[file.len() + 13int] == kind,
        get_u64(f3, file.len() + 14int) == ts,
        get_u64(f3, file.len() + 22int) == file.len() + table.len(),
        f3[file.len() + 30int] == 1,
    ensures
        jump_file_inv(f3, v2, tabs.push(file.len() as u64)),
        forall|k: int| 0 <= k < file.len() ==> f3[k] == file[k],
{
    let size = v.jmptable_size as int;
    let zeroes = v.zeroes as int;
    let pos = file.len() as int;
    let cpos = pos + table.len();
    let tabs2 = tabs.push(file.len() as u64);
    assert(tabs2[tabs.len() as int] == pos);
    assert(f3[cpos] == kind);
    lemma_same_u64(chunk, f3.subrange(cpos, f3.len() as int), 1);
    assert(f3.subrange(cpos, f3.len() as int).subrange(1, 9) =~= f3.subrange(cpos + 1, cpos + 9));
    assert(get_u64(f3, cpos + 1) == ts);
    assert forall|i: int, r: int| 0 <= i < tabs2.len() && 0 <= r < size - 1
        implies #[trigger] record_fine(f3, tabs2, zeroes, record_at(tabs2, i, r)) by {
        let x = record_at(tabs2, i, r);
        if i < tabs.len() {
            assert(tabs2[i] == tabs[i]);
            assert(record_at(tabs, i, r) == x);
            assert(record_fine(file, tabs, zeroes, x));
            assert forall|k: int| x <= k < x + 18 implies file[k] == f3[k] by {}
            if file[x + 17] == 1 {
                let q = get_u64(file, x + 9);
                assert forall|k: int| q <= k < q + 9 implies file[k] == f3[k] by {}
            }
            assert forall|jj: int| tabs.len() <= jj < tabs2.len() implies tabs2[jj] >= file.len() by {}
            lemma_record_kept(file, f3, tabs, tabs2, zeroes, x);
        } else if r == 0 {
            assert(x == pos + 13);
            assert forall|jj: int| 0 <= jj < tabs2.len() implies cpos + 9 <= #[trigger] tabs2[jj] + 13 || cpos >= tabs2[jj] + 13 + zeroes by {
                if jj < tabs.len() {
                    assert(tabs2[jj] == tabs[jj]);
                    assert(tabs[jj] + 34 + zeroes <= file.len());
                }
            }
        } else {
            assert(f3[x + 17] == table[13 + 18 * r + 17]);
        }
    }
    assert forall|i: int| 0 <= i < tabs2.len() implies #[trigger] tabs2[i] + 34 + zeroes <= f3.len() by {
        if i < tabs.len() { assert(tabs2[i] == tabs[i]); }
    }
    assert forall|i: int, jj: int| 0 <= i < jj < tabs2.len() implies #[trigger] tabs2[i] + 34 + zeroes <= #[trigger] tabs2[jj] by {
        assert(tabs2[i] == tabs[i]);
        if jj < tabs.len() { assert(tabs2[jj] == tabs[jj]); }
    }
    if v2.jmp.at is Addr {
        assert forall|r: int| 0 <= r < size - 1 && v2.jmp.at->Addr_0 <= #[trigger] record_at(tabs2, tabs2.len() - 1, r)
            implies f3[record_at(tabs2, tabs2.len() - 1, r) + 17] == 0 by {
            assert(record_at(tabs2, tabs2.len() - 1, r) == pos + 13 + 18 * r);
            assert(f3[pos + 13 + 18 * r + 17] == table[13 + 18 * r + 17]);
        }
    }
}

/// Writing a chunk keeps what holds of the file: the writes of the step, performed on a file
/// whose stream stands at its end, leave every valid record pointing at a chunk of its kind
/// and timestamp (the chunk just written is recorded), and change no byte of the file outside
/// the table bodies. A new table is added to `tabs` where one is opened. This is the step once
/// the stop block after the file header is written; `law_jump_file_write_chunk` covers the
/// step that writes it.
pub proof fn law_jump_file_step(file: Seq<u8>, v: EncoderView, tabs: Seq<u64>, kind: u8, ts: u64, stored: Seq<u8>)
    requires
        jump_file_inv(file, v, tabs),
        v.bound,
        stored.len() <= u32::MAX,
        file.len() + 34 + v.zeroes + 34 + stored.len() < pos_bound(),
    ensures
        ({
            let (j, ops) = chunk_step(v, kind, ts, stored, file.len() as u64);
            let v2 = EncoderView { jmp: j, ..v };
            let f2 = file_after(file, ops);
            let tabs2 = if v.jmp.at is NoTable { tabs.push(file.len() as u64) } else { tabs };
            &&& jump_file_inv(f2, v2, tabs2)
            &&& file.len() <= f2.len()
            &&& forall|k: int| 0 <= k < file.len() && outside_bodies(tabs, v.zeroes as int, k) ==> f2[k] == file[k]
        }),
{
    lemma_le_roundtrip();
    let pos = file.len() as u64;
    let (j1, pre) = jmp_step(v, kind, ts, pos);
    let (j, ops) = chunk_step(v, kind, ts, stored, pos);
    let v2 = EncoderView { jmp: j, ..v };
    crate::enc::lemma_chunk_step_wf(v, kind, ts, stored, pos);
    let zeroes = v.zeroes as int;
    let chunk = frame_bytes(kind, ts, stored, j1.ptr);
    assert(chunk.len() == 34 + stored.len());
    assert(chunk.subrange(1, 9) =~= le64(ts));
    assert(get_u64(chunk, 1) == ts);
    reveal_with_fuel(file_after, 5);
    match v.jmp.at {
        JmpTableImpl::Addr(a) => {
            let ent = entry_bytes(kind, ts, pos);
            let ti = tabs.len() - 1;
            let cur = v.jmptable_size - 1 - v.jmp.remaining;
            assert(record_at(tabs, ti, cur) == a);
            assert(record_fine(file, tabs, zeroes, record_at(tabs, ti, cur)));
            assert(ops =~= seq![OpView::Patch(a, ent), OpView::Append(chunk), OpView::Patch((a + 17) as u64, seq![1u8]), OpView::Flush]);
            let f3 = patched(patched(file, a as int, ent) + chunk, a + 17, seq![1u8]);
            lemma_entry_file(file, a as int, ent, chunk);
            assert(file_after(file, ops) == f3);
            assert(f3.subrange(a + 9, a + 17) =~= ent.subrange(9, 17));
            assert(ent.subrange(9, 17) =~= le64(pos));
            assert(f3.subrange(a + 1, a + 9) =~= ent.subrange(1, 9));
            assert(ent.subrange(1, 9) =~= le64(ts));
            assert(f3[a as int] == ent[0]);
            lemma_entry_inv(file, f3, v, v2, tabs, a as int, kind, ts, chunk);
        },
        JmpTableImpl::NoTable => {
            let body = table_body(v, kind, ts, pos);
            let table = frame_bytes(1, ts, body, v.jmp.ptr);
            let size = v.jmptable_size as int;
            if size >= 2 {
                let cpos = (pos + 34 + zeroes) as u64;
                let ent = entry_bytes(kind, ts, cpos);
                assert(chunk_pos(v, pos) == cpos);
                assert(body =~= ent + crate::wire::zeros((zeroes - 17) as nat));
                assert(table.len() == 34 + zeroes);
                assert(ops =~= seq![OpView::Append(table), OpView::Append(chunk), OpView::Patch((pos + 30) as u64, seq![1u8]), OpView::Flush]);
                let f3 = patched(file + table + chunk, file.len() + 30int, seq![1u8]);
                lemma_open_file(file, table, chunk, 30);
                assert(file_after(file, ops) == f3);
                assert forall|k: int| 0 <= k < 17 implies table[13 + k] == ent[k] by {}
                assert forall|k: int| 30 < k < 13 + zeroes implies table[k] == 0 by {}
                assert(f3.subrange(pos + 22, pos + 30) =~= ent.subrange(9, 17));
                assert(ent.subrange(9, 17) =~= le64(cpos));
                assert(f3.subrange(pos + 14, pos + 22) =~= ent.subrange(1, 9));
                assert(ent.subrange(1, 9) =~= le64(ts));
                lemma_open_inv(file, f3, v, v2, tabs, kind, ts, table, chunk);
            } else {
                assert(table.len() == 34 + zeroes);
                assert(ops =~= seq![OpView::Append(table), OpView::Append(chunk), OpView::Flush]);
                let f2 = file + table + chunk;
                assert(file_after(file, ops) == f2);
                let tabs2 = tabs.push(pos);
                assert forall|i: int| 0 <= i < tabs2.len() implies #[trigger] tabs2[i] + 34 + zeroes <= f2.len() by {
                    if i < tabs.len() { assert(tabs2[i] == tabs[i]); }
                }
                assert forall|i: int, jj: int| 0 <= i < jj < tabs2.len() implies #[trigger] tabs2[i] + 34 + zeroes <= #[trigger] tabs2[jj] by {
                    assert(tabs2[i] == tabs[i]);
                    if jj < tabs.len() { assert(tabs2[jj] == tabs[jj]); }
                }
            }
        },
        JmpTableImpl::File => {},
    }
}

/// Writes that begin with an append act as that append followed by the rest.
proof fn lemma_file_after_append(file: Seq<u8>, b: Seq<u8>, ops: Seq<OpView>)
    ensures
        file_after(file, seq![OpView::Append(b)] + ops) == file_after(file + b, ops),
{
    let all = seq![OpView::Append(b)] + ops;
    assert(all[0] == OpView::Append(b));
    assert(all.skip(1) =~= ops);
}

/// What `Encoder::write_chunk` writes keeps what holds of the file: on a backend that seeks
/// and is not cloned, with the stream at the file's end, every valid jump record still points
/// at a chunk of its kind and timestamp (the new chunk among them), and no byte outside the
/// table bodies changes. This holds whatever bytes the compression stored the body as.
pub proof fn law_jump_file_write_chunk(file: Seq<u8>, v: EncoderView, tabs: Seq<u64>, kind: ChunkKind, ts: u64,
    data: Seq<u8>, out: Result<Seq<u8>, crate::error::EncodeError>, is_async: bool)
    requires
        jump_file_inv(file, v, tabs),
        write_chunk_spec(v, kind, ts, data, out, file.len() as u64, is_async) is Ok,
        out matches Ok(st) ==> st.len() <= u32::MAX,
        file.len() + 89 + v.zeroes + u32::MAX < pos_bound(),
    ensures
        ({
            let (v2, ops) = write_chunk_spec(v, kind, ts, data, out, file.len() as u64, is_async)->Ok_0;
            let f2 = file_after(file, ops);
            let tabs2 = if v.jmp.at is NoTable { tabs.push(start_pos(v, file.len() as u64)) } else { tabs };
            &&& jump_file_inv(f2, v2, tabs2)
            &&& file.len() <= f2.len()
            &&& forall|k: int| 0 <= k < file.len() && outside_bodies(tabs, v.zeroes as int, k) ==> f2[k] == file[k]
        }),
{
    let stored = out->Ok_0;
    let k = kind_byte(kind);
    let pos = file.len() as u64;
    let vb = EncoderView { bound: true, ..v };
    assert(chunk_step(vb, k, ts, stored, start_pos(v, pos)) == chunk_step(v, k, ts, stored, start_pos(v, pos)));
    if v.bound {
        assert(vb == v);
        assert(start_ops(v) + chunk_step(v, k, ts, stored, pos).1 =~= chunk_step(v, k, ts, stored, pos).1);
        law_jump_file_step(file, v, tabs, k, ts, stored);
    } else {
        let f1 = file + zeros(21);
        assert(tabs.len() == 0);
        assert(jump_file_inv(f1, vb, tabs));
        law_jump_file_step(f1, vb, tabs, k, ts, stored);
        lemma_file_after_append(file, zeros(21), chunk_step(v, k, ts, stored, start_pos(v, pos)).1);
        assert(start_pos(v, pos) == f1.len());
        let f2 = file_after(f1, chunk_step(v, k, ts, stored, start_pos(v, pos)).1);
        assert forall|i: int| 0 <= i < file.len() implies f2[i] == file[i] by {
            assert(outside_bodies(tabs, v.zeroes as int, i));
            assert(f1[i] == file[i]);
        }
    }
}

} // verus!
