use mdrcodec::data::{ChunkKind, MapChunkv1, Tilev1, IdChunkv1, encode_map_body};
use mdrcodec::dec::{parse_header_bytes, parse_chunk_head, validate_id_body, Decoder};
use mdrcodec::enc::Builder;
use mdrcodec::error::{DecodeError, EncodeError};
use mdrcodec::opt::{Compression, Lz4Mode};

fn header_for(c: Compression) -> Vec<u8> {
    let b = Builder::new(Vec::<u8>::new()).writeable().compression(c);
    let (_, header) = b.build().expect("failed to build encoder");
    header
}

#[test]
fn header_of_uncompressed_file() {
    let header = header_for(Compression::Uncompressed);
    assert_eq!(header, b"MDR\0\x01\0\0".to_vec());
}

#[test]
fn encoder_can_open_file() {
    let (_, header) = Builder::new(Vec::<u8>::new())
        .writeable()
        .seekable()
        .compression(Compression::Uncompressed)
        .build()
        .expect("failed to build encoder");
    assert_eq!(header.as_slice(), b"MDR\0\x01\0\0");
}

#[test]
fn encoder_can_open_file_async() {
    let (_, header) = Builder::new(Vec::<u8>::new())
        .async_writeable()
        .async_seekable()
        .compression(Compression::Uncompressed)
        .build_async()
        .expect("failed to build encoder");
    assert_eq!(header.as_slice(), b"MDR\0\x01\0\0");
}

#[test]
fn header_of_lz4_high_compression_file() {
    let header = header_for(Compression::Lz4 { mode: Lz4Mode::HighCompression(10) });
    assert_eq!(header, b"MDR\0\x01\0\x01\x02\x0a\0\0\0".to_vec());
}

#[test]
fn header_round_trips_for_every_compression() {
    let all = [
        Compression::Uncompressed,
        Compression::Lz4 { mode: Lz4Mode::Default },
        Compression::Lz4 { mode: Lz4Mode::Fast(-3) },
        Compression::Lz4 { mode: Lz4Mode::HighCompression(12) },
        Compression::Deflate { quality: 6 },
        Compression::Zlib { quality: 0 },
        Compression::Gzip { quality: 9 },
    ];
    for c in all {
        let mut header = header_for(c);
        assert_eq!(parse_header_bytes(&header), Err(DecodeError::UnexpectedEof));
        header.extend_from_slice(&[0; 21]);
        let len = header.len();
        header.extend_from_slice(b"trailing chunk bytes");
        assert_eq!(parse_header_bytes(&header), Ok((c, len)));
    }
}

#[test]
fn header_errors_come_in_reading_order() {
    assert_eq!(parse_header_bytes(b"MD"), Err(DecodeError::UnexpectedEof));
    assert_eq!(parse_header_bytes(b"MDX\0\x01\0"), Err(DecodeError::MissingMagic));
    assert_eq!(parse_header_bytes(b"MDR\0\x02\0\0"), Err(DecodeError::UnsupportedVersion(2)));
    assert_eq!(parse_header_bytes(b"MDR\0\x01\0\x09"), Err(DecodeError::UnsupportedCompression(9)));
    assert_eq!(parse_header_bytes(b"MDR\0\x01\0\x01\x07"), Err(DecodeError::UnsupportedLz4Mode(7)));
    assert_eq!(parse_header_bytes(b"MDR\0\x01\0\x02\x01\x02"), Err(DecodeError::UnexpectedEof));
    let mut h = b"MDR\0\x01\0\0".to_vec();
    h.extend_from_slice(&[0; 20]);
    assert_eq!(parse_header_bytes(&h), Err(DecodeError::UnexpectedEof));
    let mut h = b"MDR\0\x01\0\0".to_vec();
    h.extend_from_slice(&[0, 0, 0, 5, 0, 0, 0, 0, 0, 0, 0, 0, 0, 0, 0, 0, 0, 0, 0, 0, 1]);
    assert_eq!(parse_header_bytes(&h), Err(DecodeError::NonZeroStopByte(3)));
}

#[test]
fn compression_settings_bytes() {
    assert_eq!(Compression::Uncompressed.write(), vec![0]);
    assert_eq!(Compression::Lz4 { mode: Lz4Mode::Default }.write(), vec![1, 0]);
    assert_eq!(Compression::Lz4 { mode: Lz4Mode::Fast(1) }.write(), vec![1, 1, 1, 0, 0, 0]);
    assert_eq!(Compression::Lz4 { mode: Lz4Mode::HighCompression(-1) }.write(), vec![1, 2, 255, 255, 255, 255]);
    assert_eq!(Compression::Deflate { quality: 0x01020304 }.write(), vec![2, 4, 3, 2, 1]);
    assert_eq!(Compression::Zlib { quality: 5 }.write(), vec![3, 5, 0, 0, 0]);
    assert_eq!(Compression::Gzip { quality: 5 }.write(), vec![4, 5, 0, 0, 0]);
    assert_eq!(Compression::Gzip { quality: 5 }.ordinal(), 4);
    assert_eq!(Compression::read(&[3, 7, 0, 0, 0, 99]), Ok((Compression::Zlib { quality: 7 }, 5)));
    assert_eq!(Compression::read(&[]), Err(DecodeError::UnexpectedEof));
}

#[test]
fn chunk_kind_ordinals() {
    for k in [ChunkKind::Jmp, ChunkKind::MapSnapshot, ChunkKind::Id, ChunkKind::Mod] {
        assert_eq!(ChunkKind::from_ordinal(k.ordinal()), Ok(k));
    }
    assert_eq!(ChunkKind::MapSnapshot.ordinal(), 2);
    assert_eq!(ChunkKind::from_ordinal(0), Err(0));
    assert_eq!(ChunkKind::from_ordinal(5), Err(5));
    assert_eq!(ChunkKind::Mod.name(), "MOD");
    assert_eq!(ChunkKind::MapSnapshot.name(), "MAP");
}

fn tile(n: u16) -> Tilev1 {
    Tilev1 {
        block_id: n,
        floor_id: n + 1,
        overlay_id: n + 2,
        block_data: 3,
        floor_data: 4,
        overlay_data: 5,
        extra_data: 0x0a0b0c0d,
    }
}

#[test]
fn map_body_encoding() {
    let body = encode_map_body(1, 1, &[tile(0x0102)]);
    assert_eq!(
        body,
        vec![1, 0, 0, 0, 1, 0, 0, 0, 2, 1, 3, 1, 4, 1, 3, 4, 5, 0x0d, 0x0c, 0x0b, 0x0a, 0, 0, 0, 0, 0]
    );
}

#[test]
fn map_round_trip_and_indexing() {
    let tiles: Vec<Tilev1> = (0..6).map(|i| tile(i * 10)).collect();
    let mut body = encode_map_body(3, 2, &tiles);
    body.push(0xff);
    let map = MapChunkv1::parse(&body).expect("map decodes");
    assert_eq!(map.width(), 3);
    assert_eq!(map.height(), 2);
    assert_eq!(map.tiles(), tiles.as_slice());
    assert_eq!(*map.index(2, 1), tile(50));
    assert_eq!(*map.index(0, 1), tile(30));
}

#[test]
fn map_errors() {
    let tiles = vec![tile(1), tile(2)];
    let body = encode_map_body(2, 1, &tiles);
    assert_eq!(MapChunkv1::parse(&body[..body.len() - 5]).err(), Some(DecodeError::UnexpectedEof));
    assert!(MapChunkv1::parse(&body[..body.len() - 4]).is_ok());
    assert_eq!(MapChunkv1::parse(&body[..6]).err(), Some(DecodeError::UnexpectedEof));
    let mut with_building = body.clone();
    with_building[8 + 13] = 1;
    assert_eq!(MapChunkv1::parse(&with_building).err(), Some(DecodeError::BuildingsUnsupported));
}

#[test]
fn tile_read_fills_fields_in_order() {
    let mut t = Tilev1::zeroed();
    let bytes = [1, 0, 2, 0, 3];
    assert_eq!(t.read(&bytes, 0), Err(DecodeError::UnexpectedEof));
    assert_eq!(t.block_id, 1);
    assert_eq!(t.floor_id, 2);
    assert_eq!(t.overlay_id, 0);
    let mut t = Tilev1::zeroed();
    let full = [9, 9, 1, 0, 2, 0, 3, 0, 4, 5, 6, 6, 7, 8, 9, 0];
    assert_eq!(t.read(&full, 2), Ok(()));
    assert_eq!(t, Tilev1 { block_id: 1, floor_id: 2, overlay_id: 3, block_data: 4, floor_data: 5, overlay_data: 6, extra_data: 0x09080706 });
}

#[test]
fn id_tables() {
    let body = b"\x01\x07\x00\x03abc\x08\x00\x02x-".to_vec();
    assert_eq!(validate_id_body(&body), Ok(()));
    let chunk = IdChunkv1::new(body.clone());
    assert_eq!(chunk.content_type(), 1);
    let mut it = chunk.entries();
    assert_eq!(it.next(), Some((7, &b"abc"[..])));
    assert_eq!(it.next(), Some((8, &b"x-"[..])));
    assert_eq!(it.next(), None);
    assert_eq!(it.next(), None);
    assert_eq!(validate_id_body(b""), Err(DecodeError::UnexpectedEof));
    assert_eq!(validate_id_body(b"\x01\x07"), Err(DecodeError::UnexpectedEof));
    assert_eq!(validate_id_body(b"\x01\x07\x00\x00"), Err(DecodeError::EmptyContentName));
    assert_eq!(validate_id_body(b"\x01\x07\x00\x03a!"), Err(DecodeError::InvalidContentName));
    assert_eq!(validate_id_body(b"\x01\x07\x00\x03ab"), Err(DecodeError::UnexpectedEof));
}

#[test]
fn chunk_heads() {
    let head = [2, 1, 0, 0, 0, 0, 0, 0, 0, 5, 0, 0, 0];
    assert_eq!(parse_chunk_head(&head), Ok((2, 1, 5)));
    assert_eq!(parse_chunk_head(&head[..12]), Err(DecodeError::UnexpectedEof));
}

#[test]
fn decoding_chunk_bodies() {
    let b = mdrcodec::dec::Builder::new(Vec::<u8>::new()).readable();
    let mut header = b"MDR\0\x01\0\0".to_vec();
    header.extend_from_slice(&[0; 21]);
    let dec = b.build(&header).ok().expect("decoder builds");
    assert!(dec.decode_chunk(1, 5, &[0; 9]).unwrap().is_none());
    let body = encode_map_body(1, 1, &[tile(3)]);
    let chunk = dec.decode_chunk(2, 77, &body).unwrap().unwrap();
    assert_eq!(chunk.timestamp, 77);
    assert_eq!(chunk.kind(), ChunkKind::MapSnapshot);
    let ids = dec.decode_chunk(3, 78, b"\x06\x01\x00\x01a").unwrap().unwrap();
    assert_eq!(ids.kind(), ChunkKind::Id);
    assert_eq!(dec.decode_chunk(3, 78, b"\x06\x01\x00\x01!").err(), Some(DecodeError::InvalidContentName));
    assert_eq!(dec.decode_chunk(9, 78, b"").err(), Some(DecodeError::InvalidChunk(9)));
}

#[test]
fn decoder_builder_capability_checks() {
    let b = mdrcodec::dec::Builder::new(0u8);
    assert_eq!(b.check(), Err(DecodeError::NoRead));
    let b = mdrcodec::dec::Builder::new(0u8).readable().async_readable().seekable();
    assert_eq!(b.check(), Err(DecodeError::NoAsyncSeek));
    let b = mdrcodec::dec::Builder::new(0u8).readable().async_readable().async_seekable();
    assert_eq!(b.check(), Err(DecodeError::NoSeek));
    let b = Decoder::builder(0u8).readable().seekable();
    assert_eq!(b.check(), Ok(()));
}

#[test]
fn unvalidated_id_tables_pass_through() {
    let b = mdrcodec::dec::Builder::new(0u8).readable().skip_validation();
    let mut header = b"MDR\0\x01\0\0".to_vec();
    header.extend_from_slice(&[0; 21]);
    let dec = b.build(&header).ok().unwrap();
    assert!(dec.decode_chunk(3, 1, b"\x06\x01\x00\x01!").is_ok());
}

#[test]
fn compressed_bodies_round_trip() {
    let data: Vec<u8> = (0..4000u32).map(|i| (i % 7) as u8).collect();
    for c in [
        Compression::Lz4 { mode: Lz4Mode::Default },
        Compression::Lz4 { mode: Lz4Mode::Fast(4) },
        Compression::Lz4 { mode: Lz4Mode::HighCompression(9) },
        Compression::Deflate { quality: 6 },
        Compression::Zlib { quality: 9 },
        Compression::Gzip { quality: 1 },
    ] {
        let stored = c.write_data(&data).expect("compresses");
        assert_ne!(stored, data);
        assert!(stored.len() < data.len());
        assert_eq!(c.read_data(&stored), Ok(data.clone()));
    }
    let plain = Compression::Uncompressed.write_data(&data).unwrap();
    assert_eq!(plain, data);
    assert_eq!(Compression::Deflate { quality: 6 }.read_data(b"\xff\xff\xff"), Err(DecodeError::Decompression));
    assert_eq!(Compression::Lz4 { mode: Lz4Mode::Default }.read_data(b"\x01"), Err(DecodeError::Decompression));
}

#[test]
fn lz4_bodies_carry_their_size() {
    let data = vec![7u8; 300];
    let stored = Compression::Lz4 { mode: Lz4Mode::Default }.write_data(&data).unwrap();
    assert_eq!(&stored[..4], &[44, 1, 0, 0]);
}

#[test]
fn encodable_levels() {
    assert!(Compression::Deflate { quality: 10 }.is_encodable());
    assert!(!Compression::Zlib { quality: 11 }.is_encodable());
    assert!(Compression::Lz4 { mode: Lz4Mode::Fast(1000) }.is_encodable());
    assert_eq!(Builder::new(0u8).build().err(), Some(EncodeError::NoWrite));
}

#[test]
fn compressor_output_is_checked_before_it_is_stored() {
    assert_eq!(Compression::stored_from(Ok(vec![1, 2, 3])), Ok(vec![1, 2, 3]));
    assert_eq!(Compression::stored_from(Err(())), Err(EncodeError::Compression));
}
