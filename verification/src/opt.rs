//! Compression settings and the compression of chunk bodies.
use vstd::prelude::*;
use crate::wire::{le32, lei32, get_u32, get_i32, read_u32, push_u32, push_i32, push_all};
use crate::error::{DecodeError, EncodeError};
use std::io::{Read, Write};

verus! {

/// Counts the bytes written through it.
pub struct CountingWrite<W> {
    write: W,
    counter: usize,
}

impl<W> CountingWrite<W> {
    /// The wrapped writer.
    pub closed spec fn inner(&self) -> W {
        self.write
    }

    /// Bytes counted so far.
    pub closed spec fn count(&self) -> usize {
        self.counter
    }

    /// Starts counting at zero.
    pub fn new(write: W) -> (r: Self)
        ensures
            r.inner() == write,
            r.count() == 0,
    {
        CountingWrite { write, counter: 0 }
    }

    /// Finish counting.
    pub fn finish(self) -> (r: (W, usize))
        ensures
            r == (self.inner(), self.count()),
    {
        (self.write, self.counter)
    }

    /// The wrapped writer, to write through.
    pub fn get_mut(&mut self) -> (r: &mut W)
        ensures
            *r == old(self).inner(),
            final(self).inner() == *final(r),
            final(self).count() == old(self).count(),
    {
        &mut self.write
    }

    /// Adds `len` bytes that the wrapped writer accepted.
    pub fn add_written(&mut self, len: usize)
        requires
            old(self).count() + len <= usize::MAX,
        ensures
            final(self).count() == old(self).count() + len,
            final(self).inner() == old(self).inner(),
    {
        self.counter = self.counter + len;
    }
}

impl CountingWrite<Vec<u8>> {
    /// Writes all of `buf` to the wrapped buffer and counts it; returns how many bytes were
    /// accepted, which is all of them.
    pub fn write(&mut self, buf: &[u8]) -> (r: usize)
        requires
            old(self).count() + buf@.len() <= usize::MAX,
        ensures
            r == buf@.len(),
            final(self).inner()@ == old(self).inner()@ + buf@,
            final(self).count() == old(self).count() + buf@.len(),
    {
        push_all(&mut self.write, buf);
        self.counter = self.counter + buf.len();
        buf.len()
    }
}

/// How lz4 compresses.
#[derive(Clone, Copy, Debug, PartialEq, Eq, Structural)]
pub enum Lz4Mode {
    /// Default compression.
    Default,
    /// Fast compression with an acceleration parameter.
    Fast(i32),
    /// High compression with a compression parameter.
    HighCompression(i32),
}

/// The compression of large chunk bodies.
#[derive(Clone, Copy, Debug, PartialEq, Eq, Structural)]
pub enum Compression {
    /// No compression.
    Uncompressed,
    /// Use lz4 algorithm.
    Lz4 { mode: Lz4Mode },
    /// Use deflate algorithm, with a compression level.
    Deflate { quality: u32 },
    /// Use zlib algorithm, with a compression level.
    Zlib { quality: u32 },
    /// Use gzip algorithm, with a compression level.
    Gzip { quality: u32 },
}

/// The discriminator byte of a compression kind.
pub open spec fn compression_ordinal(c: Compression) -> u8 {
    match c {
        Compression::Uncompressed => 0,
        Compression::Lz4 { .. } => 1,
        Compression::Deflate { .. } => 2,
        Compression::Zlib { .. } => 3,
        Compression::Gzip { .. } => 4,
    }
}

/// The `CompressionSettings` bytes of a file header.
pub open spec fn settings_bytes(c: Compression) -> Seq<u8> {
    match c {
        Compression::Uncompressed => seq![0u8],
        Compression::Lz4 { mode } => seq![1u8] + match mode {
            Lz4Mode::Default => seq![0u8],
            Lz4Mode::Fast(x) => seq![1u8] + lei32(x),
            Lz4Mode::HighCompression(x) => seq![2u8] + lei32(x),
        },
        Compression::Deflate { quality } => seq![2u8] + le32(quality),
        Compression::Zlib { quality } => seq![3u8] + le32(quality),
        Compression::Gzip { quality } => seq![4u8] + le32(quality),
    }
}

/// Reading `CompressionSettings` from the start of `s`: the settings and the bytes they
/// take, or the first failure met.
pub open spec fn parse_settings(s: Seq<u8>) -> Result<(Compression, nat), DecodeError> {
    if s.len() < 1 {
        Err(DecodeError::UnexpectedEof)
    } else if s[0] == 0 {
        Ok((Compression::Uncompressed, 1))
    } else if s[0] == 1 {
        if s.len() < 2 {
            Err(DecodeError::UnexpectedEof)
        } else if s[1] == 0 {
            Ok((Compression::Lz4 { mode: Lz4Mode::Default }, 2))
        } else if s[1] == 1 || s[1] == 2 {
            if s.len() < 6 {
                Err(DecodeError::UnexpectedEof)
            } else if s[1] == 1 {
                Ok((Compression::Lz4 { mode: Lz4Mode::Fast(get_i32(s, 2)) }, 6))
            } else {
                Ok((Compression::Lz4 { mode: Lz4Mode::HighCompression(get_i32(s, 2)) }, 6))
            }
        } else {
            Err(DecodeError::UnsupportedLz4Mode(s[1]))
        }
    } else if s[0] == 2 || s[0] == 3 || s[0] == 4 {
        if s.len() < 5 {
            Err(DecodeError::UnexpectedEof)
        } else if s[0] == 2 {
            Ok((Compression::Deflate { quality: get_u32(s, 1) }, 5))
        } else if s[0] == 3 {
            Ok((Compression::Zlib { quality: get_u32(s, 1) }, 5))
        } else {
            Ok((Compression::Gzip { quality: get_u32(s, 1) }, 5))
        }
    } else {
        Err(DecodeError::UnsupportedCompression(s[0]))
    }
}

/// Whether the compressor accepts the settings: the flate2 levels go up to 10.
pub open spec fn encodable(c: Compression) -> bool {
    match c {
        Compression::Deflate { quality } => quality <= 10,
        Compression::Zlib { quality } => quality <= 10,
        Compression::Gzip { quality } => quality <= 10,
        _ => true,
    }
}

/// Inputs longer than this are refused by lz4 (`LZ4_MAX_INPUT_SIZE`).
pub open spec fn lz4_max_input() -> nat {
    0x7E000000
}

/// Whether `out` is a block that `lz4::block::compress` produces for `data` in `mode`, with the
/// size prepended. lz4's output depends on the machine, so this is a relation, not a function.
pub uninterp spec fn lz4_output_of(mode: Lz4Mode, data: Seq<u8>, out: Seq<u8>) -> bool;

/// What `lz4::block::decompress` returns for data whose size is prepended.
pub uninterp spec fn lz4_block_decompress(data: Seq<u8>) -> Option<Seq<u8>>;

/// What flate2's deflate encoder produces at the given level.
pub uninterp spec fn deflate_compress(level: u32, data: Seq<u8>) -> Option<Seq<u8>>;

/// What flate2's zlib encoder produces at the given level.
pub uninterp spec fn zlib_compress(level: u32, data: Seq<u8>) -> Option<Seq<u8>>;

/// What flate2's gzip encoder produces at the given level.
pub uninterp spec fn gzip_compress(level: u32, data: Seq<u8>) -> Option<Seq<u8>>;

/// What flate2's deflate decoder gives back for the data.
pub uninterp spec fn deflate_decompress(data: Seq<u8>) -> Option<Seq<u8>>;

/// What flate2's zlib decoder gives back for the data.
pub uninterp spec fn zlib_decompress(data: Seq<u8>) -> Option<Seq<u8>>;

/// What flate2's gzip decoder gives back for the data.
pub uninterp spec fn gzip_decompress(data: Seq<u8>) -> Option<Seq<u8>>;

/// Calls `lz4::block::compress(data, Some(mode), true)`. Its output depends on the machine
/// (lz4 hashes differently on 32- and 64-bit targets), so only what holds of every outcome is
/// claimed: an input of at most `LZ4_MAX_INPUT_SIZE` bytes is compressed in the given mode
/// (lz4.h guarantees success into a buffer of `LZ4_compressBound` bytes, which the crate
/// allocates, after the 4-byte size prefix), the output is no longer than that buffer, and
/// `lz4::block::decompress` gives the data back from it; a longer input is refused.
#[verifier::external_body]
fn lz4_compress(mode: Lz4Mode, data: &[u8]) -> (r: Result<Vec<u8>, ()>)
    ensures
        match r {
            Ok(v) => data@.len() <= lz4_max_input() && v@.len() <= i32::MAX + 4
                && lz4_output_of(mode, data@, v@) && lz4_block_decompress(v@) == Some(data@),
            Err(_) => data@.len() > lz4_max_input(),
        },
{
    let mode = match mode {
        Lz4Mode::Default => lz4::block::CompressionMode::DEFAULT,
        Lz4Mode::Fast(x) => lz4::block::CompressionMode::FAST(x),
        Lz4Mode::HighCompression(x) => lz4::block::CompressionMode::HIGHCOMPRESSION(x),
    };
    lz4::block::compress(data, Some(mode), true).map_err(|_| ())
}

/// Calls `lz4::block::decompress(data, None)`, which reads the size from the first four
/// bytes. Claims only that the result is the named one.
#[verifier::external_body]
fn lz4_decompress(data: &[u8]) -> (r: Result<Vec<u8>, ()>)
    ensures
        match r {
            Ok(v) => lz4_block_decompress(data@) == Some(v@),
            Err(_) => lz4_block_decompress(data@) is None,
        },
{
    lz4::block::decompress(data, None).map_err(|_| ())
}

/// Runs flate2's `write::DeflateEncoder` at `level` over the data into a vector. Claims that a
/// success gives the named result, and that flate2's deflate decoder gives the data back.
/// Levels above 10 trip a debug assertion in flate2, hence the bound.
#[verifier::external_body]
fn deflate_encode(level: u32, data: &[u8]) -> (r: Result<Vec<u8>, ()>)
    requires
        level <= 10,
    ensures
        match r {
            Ok(v) => deflate_compress(level, data@) == Some(v@) && deflate_decompress(v@) == Some(data@),
            Err(_) => deflate_compress(level, data@) is None,
        },
{
    let mut w = flate2::write::DeflateEncoder::new(Vec::new(), flate2::Compression::new(level));
    w.write_all(data).map_err(|_| ())?;
    w.finish().map_err(|_| ())
}

/// Runs flate2's `write::ZlibEncoder` at `level` over the data into a vector. Claims that a
/// success gives the named result, and that flate2's zlib decoder gives the data back.
/// Levels above 10 trip a debug assertion in flate2, hence the bound.
#[verifier::external_body]
fn zlib_encode(level: u32, data: &[u8]) -> (r: Result<Vec<u8>, ()>)
    requires
        level <= 10,
    ensures
        match r {
            Ok(v) => zlib_compress(level, data@) == Some(v@) && zlib_decompress(v@) == Some(data@),
            Err(_) => zlib_compress(level, data@) is None,
        },
{
    let mut w = flate2::write::ZlibEncoder::new(Vec::new(), flate2::Compression::new(level));
    w.write_all(data).map_err(|_| ())?;
    w.finish().map_err(|_| ())
}

/// Runs flate2's `write::GzEncoder` at `level` over the data into a vector. Claims that a
/// success gives the named result, and that flate2's gzip decoder gives the data back.
/// Levels above 10 trip a debug assertion in flate2, hence the bound.
#[verifier::external_body]
fn gzip_encode(level: u32, data: &[u8]) -> (r: Result<Vec<u8>, ()>)
    requires
        level <= 10,
    ensures
        match r {
            Ok(v) => gzip_compress(level, data@) == Some(v@) && gzip_decompress(v@) == Some(data@),
            Err(_) => gzip_compress(level, data@) is None,
        },
{
    let mut w = flate2::write::GzEncoder::new(Vec::new(), flate2::Compression::new(level));
    w.write_all(data).map_err(|_| ())?;
    w.finish().map_err(|_| ())
}

/// Reads all of flate2's `read::DeflateDecoder` over the data. Claims only that the result is
/// the named one.
#[verifier::external_body]
fn deflate_decode(data: &[u8]) -> (r: Result<Vec<u8>, ()>)
    ensures
        match r {
            Ok(v) => deflate_decompress(data@) == Some(v@),
            Err(_) => deflate_decompress(data@) is None,
        },
{
    let mut out = Vec::new();
    flate2::read::DeflateDecoder::new(data).read_to_end(&mut out).map_err(|_| ())?;
    Ok(out)
}

/// Reads all of flate2's `read::ZlibDecoder` over the data. Claims only that the result is
/// the named one.
#[verifier::external_body]
fn zlib_decode(data: &[u8]) -> (r: Result<Vec<u8>, ()>)
    ensures
        match r {
            Ok(v) => zlib_decompress(data@) == Some(v@),
            Err(_) => zlib_decompress(data@) is None,
        },
{
    let mut out = Vec::new();
    flate2::read::ZlibDecoder::new(data).read_to_end(&mut out).map_err(|_| ())?;
    Ok(out)
}

/// Reads all of flate2's `read::GzDecoder` over the data. Claims only that the result is the
/// named one.
#[verifier::external_body]
fn gzip_decode(data: &[u8]) -> (r: Result<Vec<u8>, ()>)
    ensures
        match r {
            Ok(v) => gzip_decompress(data@) == Some(v@),
            Err(_) => gzip_decompress(data@) is None,
        },
{
    let mut out = Vec::new();
    flate2::read::GzDecoder::new(data).read_to_end(&mut out).map_err(|_| ())?;
    Ok(out)
}

/// The bytes that a chunk body is stored as, or why it cannot be stored, for the compressions
/// whose output is a function of their input: all but lz4.
pub open spec fn stored_body(c: Compression, data: Seq<u8>) -> Result<Seq<u8>, EncodeError> {
    let out = match c {
        Compression::Deflate { quality } => deflate_compress(quality, data),
        Compression::Zlib { quality } => zlib_compress(quality, data),
        Compression::Gzip { quality } => gzip_compress(quality, data),
        _ => Some(data),
    };
    if data.len() > u32::MAX {
        Err(EncodeError::BufferTooLong(data.len() as usize))
    } else {
        match out {
            None => Err(EncodeError::Compression),
            Some(v) => if v.len() > u32::MAX {
                Err(EncodeError::BufferTooLong(v.len() as usize))
            } else {
                Ok(v)
            },
        }
    }
}

/// Whether `out` is what storing `data` with compression `c` may give. lz4's output depends on
/// the machine, so of it only this is known: an input that lz4 takes is stored as bytes that
/// lz4 produces for it in the configured mode, fit a chunk and decompress to it, and a longer
/// one is refused.
pub open spec fn stores(c: Compression, data: Seq<u8>, out: Result<Seq<u8>, EncodeError>) -> bool {
    match c {
        Compression::Lz4 { mode } => match out {
            Ok(st) => data.len() <= lz4_max_input() && st.len() <= u32::MAX
                && lz4_output_of(mode, data, st) && lz4_block_decompress(st) == Some(data),
            Err(e) => data.len() > lz4_max_input() && e == EncodeError::Compression,
        },
        _ => out == stored_body(c, data),
    }
}

/// A result of stored bytes, as a value.
pub open spec fn out_view(r: Result<Vec<u8>, EncodeError>) -> Result<Seq<u8>, EncodeError> {
    match r {
        Ok(v) => Ok(v@),
        Err(e) => Err(e),
    }
}

/// The data that a stored chunk body stands for, if it can be decompressed.
pub open spec fn restored_body(c: Compression, stored: Seq<u8>) -> Option<Seq<u8>> {
    match c {
        Compression::Uncompressed => Some(stored),
        Compression::Lz4 { .. } => lz4_block_decompress(stored),
        Compression::Deflate { .. } => deflate_decompress(stored),
        Compression::Zlib { .. } => zlib_decompress(stored),
        Compression::Gzip { .. } => gzip_decompress(stored),
    }
}

impl Compression {
    /// The discriminator byte of this compression kind.
    pub fn ordinal(&self) -> (r: u8)
        ensures
            r == compression_ordinal(*self),
    {
        match self {
            Compression::Uncompressed => 0,
            Compression::Lz4 { .. } => 1,
            Compression::Deflate { .. } => 2,
            Compression::Zlib { .. } => 3,
            Compression::Gzip { .. } => 4,
        }
    }

    /// Whether the compressor accepts these settings.
    pub fn is_encodable(&self) -> (r: bool)
        ensures
            r == encodable(*self),
    {
        match self {
            Compression::Deflate { quality } => *quality <= 10,
            Compression::Zlib { quality } => *quality <= 10,
            Compression::Gzip { quality } => *quality <= 10,
            _ => true,
        }
    }

    /// Compresses a chunk body: the bytes to store in the file. With lz4 they depend on the
    /// machine; see `stores`.
    pub fn write_data(&self, buf: &[u8]) -> (r: Result<Vec<u8>, EncodeError>)
        requires
            encodable(*self),
        ensures
            stores(*self, buf@, out_view(r)),
            r matches Ok(o) ==> restored_body(*self, o@) == Some(buf@),
    {
        let too_long = buf.len() > u32::MAX as usize;
        let out = match self {
            Compression::Uncompressed => {
                if too_long {
                    return Err(EncodeError::BufferTooLong(buf.len()));
                }
                let mut v: Vec<u8> = Vec::new();
                push_all(&mut v, buf);
                return Ok(v);
            },
            Compression::Lz4 { mode } => lz4_compress(*mode, buf),
            Compression::Deflate { quality } => {
                if too_long {
                    return Err(EncodeError::BufferTooLong(buf.len()));
                }
                deflate_encode(*quality, buf)
            },
            Compression::Zlib { quality } => {
                if too_long {
                    return Err(EncodeError::BufferTooLong(buf.len()));
                }
                zlib_encode(*quality, buf)
            },
            Compression::Gzip { quality } => {
                if too_long {
                    return Err(EncodeError::BufferTooLong(buf.len()));
                }
                gzip_encode(*quality, buf)
            },
        };
        Compression::stored_from(out)
    }

    /// What the encoder makes of a compressor's output: a failure is a compression error,
    /// and an output longer than `u32::MAX` bytes cannot be stored.
    pub fn stored_from(out: Result<Vec<u8>, ()>) -> (r: Result<Vec<u8>, EncodeError>)
        ensures
            match out {
                Err(_) => r == Err::<Vec<u8>, EncodeError>(EncodeError::Compression),
                Ok(v) => if v@.len() > u32::MAX {
                    r == Err::<Vec<u8>, EncodeError>(EncodeError::BufferTooLong(v@.len() as usize))
                } else {
                    r matches Ok(o) && o@ == v@
                },
            },
    {
        match out {
            Err(_) => Err(EncodeError::Compression),
            Ok(v) => {
                if v.len() > u32::MAX as usize {
                    Err(EncodeError::BufferTooLong(v.len()))
                } else {
                    Ok(v)
                }
            },
        }
    }

    /// Decompresses a stored chunk body.
    pub fn read_data(&self, data: &[u8]) -> (r: Result<Vec<u8>, DecodeError>)
        ensures
            match restored_body(*self, data@) {
                Some(v) => r matches Ok(o) && o@ == v,
                None => r == Err::<Vec<u8>, DecodeError>(DecodeError::Decompression),
            },
    {
        let out = match self {
            Compression::Uncompressed => {
                let mut v: Vec<u8> = Vec::new();
                push_all(&mut v, data);
                return Ok(v);
            },
            Compression::Lz4 { .. } => lz4_decompress(data),
            Compression::Deflate { .. } => deflate_decode(data),
            Compression::Zlib { .. } => zlib_decode(data),
            Compression::Gzip { .. } => gzip_decode(data),
        };
        match out {
            Ok(v) => Ok(v),
            Err(_) => Err(DecodeError::Decompression),
        }
    }

    /// The `CompressionSettings` bytes of a file header.
    pub fn write(&self) -> (r: Vec<u8>)
        ensures
            r@ == settings_bytes(*self),
    {
        let mut out: Vec<u8> = Vec::new();
        out.push(self.ordinal());
        match self {
            Compression::Uncompressed => {},
            Compression::Lz4 { mode } => match mode {
                Lz4Mode::HighCompression(x) => {
                    out.push(2);
                    push_i32(&mut out, *x);
                },
                Lz4Mode::Fast(x) => {
                    out.push(1);
                    push_i32(&mut out, *x);
                },
                Lz4Mode::Default => {
                    out.push(0);
                },
            },
            Compression::Deflate { quality } => push_u32(&mut out, *quality),
            Compression::Zlib { quality } => push_u32(&mut out, *quality),
            Compression::Gzip { quality } => push_u32(&mut out, *quality),
        }
        proof {
            assert(out@ =~= settings_bytes(*self));
        }
        out
    }

    /// Reads `CompressionSettings` from the start of `from`: the settings and the number of
    /// bytes they take.
    pub fn read(from: &[u8]) -> (r: Result<(Compression, usize), DecodeError>)
        ensures
            match parse_settings(from@) {
                Ok((c, n)) => r == Ok::<(Compression, usize), DecodeError>((c, n as usize)),
                Err(e) => r == Err::<(Compression, usize), DecodeError>(e),
            },
    {
        if from.len() < 1 {
            return Err(DecodeError::UnexpectedEof);
        }
        match from[0] {
            0 => Ok((Compression::Uncompressed, 1)),
            1 => {
                if from.len() < 2 {
                    return Err(DecodeError::UnexpectedEof);
                }
                match from[1] {
                    0 => Ok((Compression::Lz4 { mode: Lz4Mode::Default }, 2)),
                    1 => {
                        if from.len() < 6 {
                            return Err(DecodeError::UnexpectedEof);
                        }
                        Ok((Compression::Lz4 { mode: Lz4Mode::Fast(read_u32(from, 2) as i32) }, 6))
                    },
                    2 => {
                        if from.len() < 6 {
                            return Err(DecodeError::UnexpectedEof);
                        }
                        Ok((Compression::Lz4 { mode: Lz4Mode::HighCompression(read_u32(from, 2) as i32) }, 6))
                    },
                    x => Err(DecodeError::UnsupportedLz4Mode(x)),
                }
            },
            2 => {
                if from.len() < 5 {
                    return Err(DecodeError::UnexpectedEof);
                }
                Ok((Compression::Deflate { quality: read_u32(from, 1) }, 5))
            },
            3 => {
                if from.len() < 5 {
                    return Err(DecodeError::UnexpectedEof);
                }
                Ok((Compression::Zlib { quality: read_u32(from, 1) }, 5))
            },
            4 => {
                if from.len() < 5 {
                    return Err(DecodeError::UnexpectedEof);
                }
                Ok((Compression::Gzip { quality: read_u32(from, 1) }, 5))
            },
            x => Err(DecodeError::UnsupportedCompression(x)),
        }
    }
}

} // verus!
