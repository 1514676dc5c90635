//! Errors of the encoder and the decoder.
use vstd::prelude::*;

verus! {

/// Why a file or a part of it could not be decoded.
#[derive(Clone, Copy, Debug, PartialEq, Eq, Structural)]
pub enum DecodeError {
    /// The input ended before the structure being read was complete.
    UnexpectedEof,
    /// The file does not start with `MDR\0`.
    MissingMagic,
    /// The file declares a format version other than 1.
    UnsupportedVersion(u16),
    /// The compression kind byte is not one of 0 to 4.
    UnsupportedCompression(u8),
    /// The lz4 mode byte is not one of 0 to 2.
    UnsupportedLz4Mode(u8),
    /// The stop chunk after the header holds a non-zero byte at this index.
    NonZeroStopByte(usize),
    /// A chunk declares a kind that the decoder does not know.
    InvalidChunk(u8),
    /// A tile declares a building; buildings are not supported yet.
    BuildingsUnsupported,
    /// An ID record has an empty name.
    EmptyContentName,
    /// A modification record holds a change id that is not one of 0 to 4.
    InvalidChange(u8),
    /// An ID record's name holds a byte other than ASCII letters, digits, `_` and `-`.
    InvalidContentName,
    /// The compressed body of a chunk could not be decompressed.
    Decompression,
    /// The backend was not made readable.
    NoRead,
    /// The backend is async-seekable but not seekable.
    NoSeek,
    /// The backend is seekable but not async-seekable.
    NoAsyncSeek,
}

/// Why the encoder refused to go on.
#[derive(Clone, Copy, Debug, PartialEq, Eq, Structural)]
pub enum EncodeError {
    /// The builder was asked for a synchronous encoder without a `Write` backend.
    NoWrite,
    /// The builder was asked for an asynchronous encoder without an `AsyncWrite` backend.
    NoAsyncWrite,
    /// The backend is seekable but not async-seekable, while both write modes are enabled.
    SeekWithoutAsyncSeek,
    /// The backend is async-seekable but not seekable, while both write modes are enabled.
    AsyncSeekWithoutSeek,
    /// A synchronous operation on an encoder without synchronous writing.
    NoSyncWriting,
    /// An asynchronous operation on an encoder without asynchronous writing.
    NoAsyncWriting,
    /// Jump tables are created by the encoder itself, never by a caller.
    ManualJmp,
    /// The chunk body is longer than `i32::MAX` bytes.
    ChunkTooLarge,
    /// The stored chunk body would be longer than `u32::MAX` bytes.
    BufferTooLong(usize),
    /// The compressor refused the data.
    Compression,
    /// A single modification record does not fit into an empty modifications buffer.
    ModBufferTooShort,
}

} // verus!
