use mdrcodec::data::{ChangeKind, ChunkKind, Tilev1, encode_map_body, ChunkBody, ModEntry, validate_mod_body};
use mdrcodec::dec::{parse_header_bytes, parse_chunk_head, Decoder};
use mdrcodec::enc::{Builder, Encoder, WriteOp};
use mdrcodec::error::{DecodeError, EncodeError};
use mdrcodec::io::{GenericIo, WriteExactly, FillError};
use mdrcodec::opt::{Compression, CountingWrite, Lz4Mode};

/// A file in memory that performs the writes of encoder steps.
struct MemFile {
    data: Vec<u8>,
    pos: usize,
    side: Vec<u8>,
}

impl MemFile {
    fn new() -> Self {
        MemFile { data: Vec::new(), pos: 0, side: Vec::new() }
    }

    fn put(&mut self, at: usize, bytes: &[u8]) {
        for (i, b) in bytes.iter().enumerate() {
            if at + i < self.data.len() {
                self.data[at + i] = *b;
            } else {
                self.data.push(*b);
            }
        }
    }

    fn run(&mut self, ops: Vec<WriteOp>) {
        for op in ops {
            match op {
                WriteOp::Append(b) => {
                    let at = self.pos;
                    self.put(at, &b);
                    self.pos += b.len();
                }
                WriteOp::Patch { at, bytes } => self.put(at as usize, &bytes),
                WriteOp::Side(b) => self.side.extend_from_slice(&b),
                WriteOp::OpenSide { .. } | WriteOp::Flush => {}
            }
        }
    }
}

fn frame(kind: u8, ts: u64, body: &[u8], prev: u64) -> Vec<u8> {
    let mut v = vec![kind];
    v.extend_from_slice(&ts.to_le_bytes());
    v.extend_from_slice(&(body.len() as u32).to_le_bytes());
    v.extend_from_slice(body);
    v.push(kind);
    v.extend_from_slice(&(body.len() as u32).to_le_bytes());
    v.extend_from_slice(&ts.to_le_bytes());
    v.extend_from_slice(&prev.to_le_bytes());
    v
}

fn tile(n: u16) -> Tilev1 {
    Tilev1 { block_id: n, floor_id: 0, overlay_id: 1, block_data: 2, floor_data: 3, overlay_data: 4, extra_data: 5 }
}

#[test]
fn streaming_chunk_is_one_frame_then_a_flush() {
    let (mut enc, header) = Builder::new(()).writeable().build().unwrap();
    assert_eq!(header, b"MDR\0\x01\0\0".to_vec());
    assert!(enc.is_sync() && !enc.is_async() && !enc.can_make_jmpt());
    let mut ops = enc.write_chunk(ChunkKind::Id, 9, b"\x01\x02\x00\x01a", None, false).unwrap();
    take_stop_block(&mut ops);
    assert_eq!(ops.len(), 2);
    match &ops[0] {
        WriteOp::Append(b) => assert_eq!(b, &frame(3, 9, b"\x01\x02\x00\x01a", 0)),
        _ => panic!("expected the chunk frame"),
    }
    assert!(matches!(ops[1], WriteOp::Flush));
}

/// Takes the stop block after the file header off the front of an encoder's first writes.
fn take_stop_block(ops: &mut Vec<WriteOp>) {
    match ops.remove(0) {
        WriteOp::Append(b) => assert_eq!(b, vec![0u8; 21]),
        _ => panic!("expected the stop block"),
    }
}

fn entry(kind: u8, ts: u64, pos: u64) -> Vec<u8> {
    let mut e = vec![kind];
    e.extend_from_slice(&ts.to_le_bytes());
    e.extend_from_slice(&pos.to_le_bytes());
    e
}

#[test]
fn seeking_encoder_opens_a_jump_table_then_adds_entries() {
    let (mut enc, header) = Builder::new(()).writeable().seekable().jmptable_size(3).build().unwrap();
    let mut file = MemFile::new();
    file.run(vec![WriteOp::Append(header)]);
    let mut ops = enc.write_chunk(ChunkKind::Id, 5, b"\x00", Some(7), false).unwrap();
    file.run(vec![WriteOp::Append(vec![0; 21])]);
    take_stop_block(&mut ops);
    assert_eq!(ops.len(), 4);
    let mut body = entry(3, 5, 28 + 13 + 45 + 21);
    body.extend_from_slice(&[0; 28]);
    match &ops[0] {
        WriteOp::Append(b) => assert_eq!(b, &frame(1, 5, &body, 0)),
        _ => panic!("expected the jump table"),
    }
    match &ops[1] {
        WriteOp::Append(b) => assert_eq!(b, &frame(3, 5, b"\x00", 28)),
        _ => panic!("expected the chunk"),
    }
    match &ops[2] {
        WriteOp::Patch { at, bytes } => {
            assert_eq!(*at, 28 + 13 + 17);
            assert_eq!(bytes, &vec![1u8]);
        }
        _ => panic!("expected the validity byte"),
    }
    file.run(ops);
    let pos = file.pos as u64;
    let ops = enc.write_chunk(ChunkKind::Id, 6, b"\x00", Some(pos), false).unwrap();
    match &ops[0] {
        WriteOp::Patch { at, bytes } => {
            assert_eq!(*at, 28 + 13 + 18);
            assert_eq!(bytes, &entry(3, 6, pos));
        }
        _ => panic!("expected a jump entry"),
    }
    match &ops[2] {
        WriteOp::Patch { at, .. } => assert_eq!(*at, 28 + 13 + 18 + 17),
        _ => panic!("expected the validity byte"),
    }
    file.run(ops);
    let pos = file.pos as u64;
    let ops = enc.write_chunk(ChunkKind::Id, 7, b"\x00", Some(pos), false).unwrap();
    match &ops[0] {
        WriteOp::Append(b) => assert_eq!(&b[b.len() - 8..], &28u64.to_le_bytes()),
        _ => panic!("the full table is closed, so a new one opens"),
    }
}

#[test]
fn tables_without_room_for_records_stay_zero() {
    let (mut enc, _) = Builder::new(()).writeable().seekable().jmptable_size(1).build().unwrap();
    let mut ops = enc.write_chunk(ChunkKind::Id, 5, b"\x00", Some(7), false).unwrap();
    take_stop_block(&mut ops);
    assert_eq!(ops.len(), 3);
    assert!(matches!(&ops[0], WriteOp::Append(b) if b == &frame(1, 5, &[0; 9], 0)));
    assert!(matches!(&ops[1], WriteOp::Append(b) if b == &frame(3, 5, b"\x00", 28)));
    let ops = enc.write_chunk(ChunkKind::Id, 6, b"\x00", Some(100), false).unwrap();
    assert!(matches!(&ops[0], WriteOp::Append(b) if b == &frame(1, 6, &[0; 9], 28)));
}

/// Reads every jump table of a file as 18-byte records, and checks that each record marked
/// valid points at a chunk of its kind and timestamp; returns how many were valid.
fn check_jump_records(bytes: &[u8]) -> usize {
    let (_, mut at) = parse_header_bytes(bytes).unwrap();
    let mut valid = 0;
    while at < bytes.len() {
        let (kind, _, len) = parse_chunk_head(&bytes[at..at + 13]).unwrap();
        if kind == 1 {
            let body = &bytes[at + 13..at + 13 + len as usize];
            for rec in body.chunks(18).filter(|r| r.len() == 18) {
                if rec[17] == 1 {
                    let ts = u64::from_le_bytes(rec[1..9].try_into().unwrap());
                    let ptr = u64::from_le_bytes(rec[9..17].try_into().unwrap()) as usize;
                    let (k, t, _) = parse_chunk_head(&bytes[ptr..ptr + 13]).unwrap();
                    assert_eq!((k, t), (rec[0], ts));
                    valid += 1;
                }
            }
        }
        at += 13 + len as usize + 21;
    }
    valid
}

#[test]
fn valid_jump_records_point_at_their_chunks() {
    for size in 1..5 {
        let (mut enc, header) = Builder::new(()).writeable().seekable().jmptable_size(size).build().unwrap();
        let mut file = MemFile::new();
        file.run(vec![WriteOp::Append(header)]);
        for ts in 0..7u64 {
            let pos = file.pos as u64;
            let kind = if ts % 2 == 0 { ChunkKind::Id } else { ChunkKind::MapSnapshot };
            let body = if ts % 2 == 0 { b"\x00".to_vec() } else { encode_map_body(1, 1, &[tile(1)]) };
            let ops = enc.write_chunk(kind, ts, &body, Some(pos), false).unwrap();
            file.run(ops);
        }
        assert_eq!(check_jump_records(&file.data), 7 - if size == 1 { 7 } else { 0 });
    }
}

#[test]
fn cloning_encoder_writes_entries_through_the_clone() {
    let (mut enc, _) = Builder::new(()).writeable().seekable().try_cloneable().build().unwrap();
    let mut ops = enc.write_chunk(ChunkKind::Id, 1, b"\x00", Some(7), false).unwrap();
    take_stop_block(&mut ops);
    assert!(matches!(ops[1], WriteOp::OpenSide { at: 58 }));
    assert!(matches!(&ops[3], WriteOp::Side(b) if b == &vec![1u8]));
    let ops = enc.write_chunk(ChunkKind::MapSnapshot, 2, b"\x00", Some(1000), false).unwrap();
    match &ops[0] {
        WriteOp::Side(b) => assert_eq!(b, &entry(2, 2, 1000)),
        _ => panic!("expected an entry through the clone"),
    }
    assert!(enc.try_clone_io(|_| Ok::<(), ()>(())).is_some());
}

#[test]
fn encoded_files_decode_back() {
    let (mut enc, header) = Builder::new(()).writeable().seekable().jmptable_size(2).build().unwrap();
    let mut file = MemFile::new();
    file.run(vec![WriteOp::Append(header)]);
    let tiles: Vec<Tilev1> = (0..4).map(tile).collect();
    let map = encode_map_body(2, 2, &tiles);
    for ts in 0..3u64 {
        let pos = file.pos as u64;
        let ops = enc.write_chunk(ChunkKind::MapSnapshot, ts, &map, Some(pos), false).unwrap();
        file.run(ops);
    }
    let bytes = file.data;
    let b = Decoder::builder(()).readable();
    let (c, mut at) = parse_header_bytes(&bytes).unwrap();
    assert_eq!(c, Compression::Uncompressed);
    let dec = b.build(&bytes[..at]).ok().unwrap();
    let mut maps = 0;
    while at < bytes.len() {
        let (kind, ts, len) = parse_chunk_head(&bytes[at..at + 13]).unwrap();
        let body = &bytes[at + 13..at + 13 + len as usize];
        at += 13 + len as usize + 21;
        match dec.decode_chunk(kind, ts, body).unwrap() {
            None => assert_eq!(kind, 1),
            Some(chunk) => {
                assert_eq!(chunk.timestamp, maps);
                match chunk.body {
                    ChunkBody::Mapv1(m) => assert_eq!(m.tiles(), tiles.as_slice()),
                    _ => panic!("expected a map"),
                }
                maps += 1;
            }
        }
    }
    assert_eq!(maps, 3);
}

#[test]
fn reading_on_skips_jump_tables() {
    let (mut enc, header) = Builder::new(()).writeable().seekable().jmptable_size(2).build().unwrap();
    let mut file = MemFile::new();
    file.run(vec![WriteOp::Append(header)]);
    let ids = b"\x01\x02\x00\x03abc".to_vec();
    for ts in [7u64, 8] {
        let pos = file.pos as u64;
        let ops = enc.write_chunk(ChunkKind::Id, ts, &ids, Some(pos), false).unwrap();
        file.run(ops);
    }
    let bytes = file.data;
    let (_, mut at) = parse_header_bytes(&bytes).unwrap();
    let dec = Decoder::builder(()).readable().build(&bytes[..at]).ok().unwrap();
    let jump_len = 13 + (18 * (2 - 1) + 9) + 21;
    let frame_len = 13 + ids.len() + 21;
    let (chunk, n) = dec.next_chunk(&bytes[at..]).unwrap().unwrap();
    assert_eq!(n, jump_len + frame_len);
    assert_eq!(chunk.timestamp, 7);
    match chunk.body {
        ChunkBody::Idv1(i) => assert_eq!(i.content_type(), 1),
        _ => panic!("expected an ID table"),
    }
    at += n;
    let (chunk, n) = dec.next_chunk(&bytes[at..]).unwrap().unwrap();
    assert_eq!((chunk.timestamp, n), (8, jump_len + frame_len));
    at += n;
    assert!(dec.next_chunk(&bytes[at..]).unwrap().is_none());
    assert_eq!(dec.next_chunk(&frame(9, 0, b"", 0)).err(), Some(mdrcodec::error::DecodeError::InvalidChunk(9)));
    assert_eq!(dec.next_chunk(&frame(3, 0, b"", 0)[..20]).err(), Some(mdrcodec::error::DecodeError::UnexpectedEof));
}

#[test]
fn compressed_chunks_decode_back() {
    let c = Compression::Zlib { quality: 6 };
    let (mut enc, header) = Builder::new(()).writeable().compression(c).build().unwrap();
    let tiles: Vec<Tilev1> = (0..9).map(tile).collect();
    let map = encode_map_body(3, 3, &tiles);
    let ops = enc.write_chunk(ChunkKind::MapSnapshot, 4, &map, None, false).unwrap();
    let mut file = MemFile::new();
    file.run(vec![WriteOp::Append(header)]);
    file.run(ops);
    let (_, at) = parse_header_bytes(&file.data).unwrap();
    let dec = Decoder::builder(()).readable().build(&file.data[..at]).ok().unwrap();
    let (kind, ts, len) = parse_chunk_head(&file.data[at..at + 13]).unwrap();
    assert_ne!(len as usize, map.len());
    let chunk = dec.decode_chunk(kind, ts, &file.data[at + 13..at + 13 + len as usize]).unwrap().unwrap();
    match chunk.body {
        ChunkBody::Mapv1(m) => assert_eq!(m.tiles(), tiles.as_slice()),
        _ => panic!("expected a map"),
    }
}

#[test]
fn step_errors() {
    let (mut enc, _) = Builder::new(()).writeable().build().unwrap();
    assert_eq!(enc.write_chunk(ChunkKind::Jmp, 0, b"", None, false).err(), Some(EncodeError::ManualJmp));
    assert_eq!(enc.write_chunk(ChunkKind::Id, 0, b"", None, true).err(), Some(EncodeError::NoAsyncWriting));
    assert_eq!(Builder::new(()).async_writeable().build().err(), Some(EncodeError::NoWrite));
    assert_eq!(
        Builder::new(()).writeable().async_writeable().seekable().build().err(),
        Some(EncodeError::SeekWithoutAsyncSeek)
    );
    assert_eq!(Builder::new(()).writeable().build_async().err(), Some(EncodeError::NoAsyncWrite));
    assert_eq!(
        Builder::new(()).async_writeable().writeable().async_seekable().build_async().err(),
        Some(EncodeError::AsyncSeekWithoutSeek)
    );
    let (enc, _) = Builder::new(()).async_writeable().build_async().unwrap();
    assert_eq!(enc.expect_features(false), Err(EncodeError::NoSyncWriting));
    assert!(enc.is_async());
    assert!(!enc.is_sync());
}

#[test]
fn streaming_constructors_need_a_capability() {
    assert_eq!(Encoder::streaming(()).err(), Some(EncodeError::NoWrite));
    assert_eq!(Encoder::streaming_async(()).err(), Some(EncodeError::NoWrite));
    assert_eq!(Decoder::streaming(()).err(), Some(mdrcodec::error::DecodeError::NoRead));
}

#[test]
fn builder_settings_are_clamped() {
    let (enc, _) = Builder::new(()).writeable().jmptable_size(0).mod_buffer_size(3).snapshot_duration(5000).build().unwrap();
    assert_eq!(enc.snapshot_rate(), 0);
    assert_eq!(enc.mod_start_ts(), 1000);
    let (enc, _) = Encoder::builder(()).writeable().snapshot_duration(250).build().unwrap();
    assert_eq!(enc.mod_start_ts(), 250);
    assert!(!enc.can_make_jmpt());
}

#[test]
fn modification_records() {
    let (mut enc, _) = Builder::new(()).writeable().mod_buffer_size(1024).build().unwrap();
    assert!(!enc.has_pending_changes());
    assert!(enc.write_change(&ChangeKind::UnitDead { unit_id: -1 }, 100));
    assert!(enc.write_change(&ChangeKind::UnitRotation { unit_id: 2, rot: 9 }, 103));
    assert!(enc.write_change(&ChangeKind::UnitMoved { unit_id: 1, x_bits: 1.5f32.to_bits(), y_bits: 0 }, 105));
    assert_eq!(enc.mod_start_ts(), 100);
    let mut ops = enc.flush_mod(None, false).unwrap();
    take_stop_block(&mut ops);
    let mut records = vec![0, 0, 0, 0, 3, 255, 255, 255, 255];
    records.extend_from_slice(&[3, 0, 0, 0, 2, 2, 0, 0, 0, 9]);
    records.extend_from_slice(&[5, 0, 0, 0, 1, 1, 0, 0, 0]);
    records.extend_from_slice(&1.5f32.to_le_bytes());
    records.extend_from_slice(&0f32.to_le_bytes());
    match &ops[0] {
        WriteOp::Append(b) => assert_eq!(b, &frame(4, 100, &records, 0)),
        _ => panic!("expected the MOD chunk"),
    }
    assert!(!enc.has_pending_changes());
    assert!(enc.flush_mod(None, false).unwrap().is_empty());
}

#[test]
fn full_modification_buffer_asks_for_a_flush() {
    let (mut enc, _) = Builder::new(()).writeable().mod_buffer_size(1024).build().unwrap();
    let change = ChangeKind::UnitMoved { unit_id: 7, x_bits: 0, y_bits: 0 };
    let mut n = 0;
    while enc.write_change(&change, 10) {
        n += 1;
    }
    assert_eq!(n, 1024 / 17);
    assert_eq!(enc.retry_change(&change, 10), Err(EncodeError::ModBufferTooShort));
    enc.flush_mod(None, false).unwrap();
    assert_eq!(enc.retry_change(&change, 10), Ok(()));
}

#[test]
fn generic_io_capabilities() {
    let mut io = GenericIo::new_empty(5u32);
    assert!(!io.is_writeable() && !io.is_readable() && !io.is_seekable());
    assert!(io.writeable().is_none());
    io.make_writeable();
    io.make_writeable();
    assert!(io.is_writeable());
    *io.writeable().unwrap() = 6;
    let io = io.make_into_seekable().make_into_readable().make_into_async_readable();
    assert!(io.is_seekable() && io.is_readable() && io.is_async_readable());
    assert!(!io.is_async_writeable() && !io.is_async_seekable() && !io.can_try_clone());
    assert!(io.try_clone(|x| Ok::<u32, ()>(*x)).is_none());
    let mut io = io.make_into_try_cloneable().make_into_async_writeable().make_into_async_seekable();
    let mut copy = io.try_clone(|x| Ok::<u32, ()>(*x + 1)).unwrap().unwrap();
    assert_eq!(*copy.readable().unwrap(), 7);
    assert!(copy.is_async_seekable() && copy.is_async_writeable() && copy.can_try_clone());
    assert_eq!(*io.seekable().unwrap(), 6);
    assert_eq!(*io.async_readable().unwrap(), 6);
    assert_eq!(*io.async_writeable().unwrap(), 6);
    assert_eq!(*io.async_seekable().unwrap(), 6);
    assert!(matches!(io.try_clone(|_| Err::<u32, &str>("no")), Some(Err("no"))));
}

#[test]
fn write_exactly_fills_a_fixed_buffer() {
    let mut w = WriteExactly::<5>::new();
    assert_eq!(w.write(&[1, 2, 3]), 3);
    assert_eq!(w.write_all(&[4, 5, 6]), Err(FillError::WriteZero));
    assert_eq!(w.finalize(), Ok(vec![1, 2, 3, 4, 5]));
    let mut w = WriteExactly::<8>::new();
    assert_eq!(w.write_u32_le(0x01020304), Ok(()));
    assert_eq!(w.finalize(), Err(FillError::Unfilled));
    let mut w = WriteExactly::<9>::new();
    w.write_u8(9).unwrap();
    w.write_i32_le(-2).unwrap();
    w.write_u64_le(1).unwrap_err();
    assert_eq!(w.finalize(), Ok(vec![9, 254, 255, 255, 255, 1, 0, 0, 0]));
}

#[test]
fn counting_write_counts() {
    let mut c = CountingWrite::new(Vec::<u8>::new());
    assert_eq!(c.write(&[1, 2, 3]), 3);
    assert_eq!(c.write(&[4]), 1);
    assert_eq!(c.finish(), (vec![1u8, 2, 3, 4], 4));
    let mut c = CountingWrite::new(Vec::<u8>::new());
    c.get_mut().extend_from_slice(b"ab");
    c.add_written(2);
    assert_eq!(c.finish(), (b"ab".to_vec(), 2));
}

#[test]
fn lz4_builder_shortcut() {
    let (_, header) = Builder::new(()).writeable().lz4(Lz4Mode::Fast(2)).build().unwrap();
    assert_eq!(&header[6..12], &[1, 1, 2, 0, 0, 0]);
    let (_, header) = Builder::new(()).writeable().gzip(3).build().unwrap();
    assert_eq!(&header[6..11], &[4, 3, 0, 0, 0]);
    let (_, header) = Builder::new(()).writeable().deflate(3).build().unwrap();
    assert_eq!(header[6], 2);
    let (_, header) = Builder::new(()).writeable().zlib(3).build().unwrap();
    assert_eq!(header[6], 3);
}

#[test]
fn mod_chunks_decode_to_their_records() {
    let (mut enc, header) = Builder::new(()).writeable().mod_buffer_size(1024).build().unwrap();
    assert!(enc.write_change(&ChangeKind::UnitDead { unit_id: 7 }, 50));
    assert!(enc.write_change(&ChangeKind::UnitMoved { unit_id: -2, x_bits: 1.5f32.to_bits(), y_bits: 3 }, 52));
    assert!(enc.write_change(&ChangeKind::UnitRotation { unit_id: 1, rot: 200 }, 60));
    let mut file = MemFile::new();
    file.run(vec![WriteOp::Append(header)]);
    file.run(enc.flush_mod(None, false).unwrap());
    let (_, at) = parse_header_bytes(&file.data).unwrap();
    let dec = Decoder::builder(()).readable().build(&file.data[..at]).ok().unwrap();
    let (chunk, n) = dec.next_chunk(&file.data[at..]).unwrap().unwrap();
    assert_eq!(n, file.data.len() - at);
    assert_eq!(chunk.timestamp, 50);
    assert_eq!(chunk.kind(), ChunkKind::Mod);
    let m = match chunk.body {
        ChunkBody::Modv1(m) => m,
        _ => panic!("expected a modifications table"),
    };
    let mut it = m.entries();
    assert_eq!(it.next(), Some(ModEntry { offset: 0, change: Some(ChangeKind::UnitDead { unit_id: 7 }) }));
    assert_eq!(
        it.next(),
        Some(ModEntry { offset: 2, change: Some(ChangeKind::UnitMoved { unit_id: -2, x_bits: 1.5f32.to_bits(), y_bits: 3 }) })
    );
    assert_eq!(it.next(), Some(ModEntry { offset: 10, change: Some(ChangeKind::UnitRotation { unit_id: 1, rot: 200 }) }));
    assert_eq!(it.next(), None);
}

#[test]
fn a_mod_chunk_in_a_file_is_read_not_refused() {
    let mut bytes = b"MDR\0\x01\0\0".to_vec();
    bytes.extend_from_slice(&[0; 21]);
    let records = [0, 0, 0, 0, 3, 7, 0, 0, 0, 4, 0, 0, 0, 0];
    bytes.extend_from_slice(&frame(4, 0, &records, 0));
    let (_, at) = parse_header_bytes(&bytes).unwrap();
    let dec = Decoder::builder(()).readable().build(&bytes[..at]).ok().unwrap();
    let (chunk, _) = dec.next_chunk(&bytes[at..]).unwrap().unwrap();
    let m = match chunk.body {
        ChunkBody::Modv1(m) => m,
        _ => panic!("expected a modifications table"),
    };
    let mut it = m.entries();
    assert_eq!(it.next(), Some(ModEntry { offset: 0, change: Some(ChangeKind::UnitDead { unit_id: 7 }) }));
    assert_eq!(it.next(), Some(ModEntry { offset: 4, change: None }));
    assert_eq!(it.next(), None);
    assert_eq!(validate_mod_body(&[0, 0, 0, 0, 9]), Err(DecodeError::InvalidChange(9)));
    assert_eq!(validate_mod_body(&[0, 0, 0, 0, 3, 1]), Err(DecodeError::UnexpectedEof));
    let bad = frame(4, 0, &[0, 0, 0, 0, 5], 0);
    assert_eq!(dec.next_chunk(&bad).err(), Some(DecodeError::InvalidChange(5)));
}

#[test]
fn waiting_records_are_flushed_before_a_map() {
    let (mut enc, header) = Builder::new(()).writeable().build().unwrap();
    let mut file = MemFile::new();
    file.run(vec![WriteOp::Append(header)]);
    assert!(enc.write_change(&ChangeKind::UnitDespawn { unit_id: 3 }, 10));
    file.run(enc.flush_mod(None, false).unwrap());
    let map = encode_map_body(1, 1, &[tile(4)]);
    file.run(enc.write_chunk(ChunkKind::MapSnapshot, 20, &map, None, false).unwrap());
    assert!(enc.flush_mod(None, false).unwrap().is_empty());
    let (_, at) = parse_header_bytes(&file.data).unwrap();
    assert_eq!(file.data[at], 4);
    let mod_len = 13 + 9 + 21;
    assert_eq!(file.data[at + mod_len], 2);
    assert_eq!(file.data.len(), at + mod_len + 13 + map.len() + 21);
}

#[test]
fn the_stop_block_goes_out_with_the_first_writes() {
    let (mut enc, header) = Builder::new(()).writeable().build().unwrap();
    assert_eq!(header, b"MDR\0\x01\0\0".to_vec());
    let mut ops = enc.flush_mod(None, false).unwrap();
    take_stop_block(&mut ops);
    assert!(ops.is_empty());
    assert!(enc.flush_mod(None, false).unwrap().is_empty());
    let ops = enc.write_stored_chunk(ChunkKind::Id, 3, b"\x05", None);
    assert_eq!(ops.len(), 2);
    assert!(matches!(&ops[0], WriteOp::Append(b) if b == &frame(3, 3, b"\x05", 0)));
    let mut file = MemFile::new();
    file.run(vec![WriteOp::Append(header)]);
    file.run(vec![WriteOp::Append(vec![0; 21])]);
    file.run(ops);
    let (_, at) = parse_header_bytes(&file.data).unwrap();
    assert_eq!(at, 28);
}
