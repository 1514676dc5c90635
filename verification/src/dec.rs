//! MDR decoder: the header, the chunk frames and the chunk bodies.
use vstd::prelude::*;
use crate::wire::{le16, get_u16, get_u64, get_u32, read_u16, read_u32, read_u64};
use crate::error::DecodeError;
use crate::opt::{Compression, parse_settings, settings_bytes, restored_body};
use crate::data::{Chunk, ChunkBody, ChunkKind, IdChunkv1, MapChunkv1, ModChunkv1, Tilev1, parse_map,
    check_mod_records, validate_mod_body};
use crate::io::{GenericIo, IoCaps};
use vstd::slice::slice_subrange;

verus! {

/// Bytes of the stop chunk that follows the compression settings, and of the part of a chunk
/// frame that follows its body.
pub const PAST_HEADER: usize = 21;

/// The file magic, `MDR\0`.
pub open spec fn magic() -> Seq<u8> {
    seq![0x4du8, 0x44u8, 0x52u8, 0u8]
}

/// The header of a file written with the given compression: magic, version 1 and the
/// compression settings. The all-zero stop block follows it in a file.
pub open spec fn header_bytes(c: Compression) -> Seq<u8> {
    magic() + le16(1) + settings_bytes(c)
}

/// The index of the first non-zero byte of `t`, if any.
pub open spec fn first_nonzero(t: Seq<u8>) -> Option<nat>
    decreases t.len(),
{
    if t.len() == 0 {
        None
    } else if t[0] != 0 {
        Some(0)
    } else {
        match first_nonzero(t.skip(1)) {
            Some(i) => Some(i + 1),
            None => None,
        }
    }
}

/// Reading a file header from the start of `s`: the compression and the header's length, or
/// the first failure met while reading it in order.
pub open spec fn parse_header(s: Seq<u8>) -> Result<(Compression, nat), DecodeError> {
    if s.len() < 4 {
        Err(DecodeError::UnexpectedEof)
    } else if s.subrange(0, 4) != magic() {
        Err(DecodeError::MissingMagic)
    } else if s.len() < 6 {
        Err(DecodeError::UnexpectedEof)
    } else if get_u16(s, 4) != 1 {
        Err(DecodeError::UnsupportedVersion(get_u16(s, 4)))
    } else {
        match parse_settings(s.skip(6)) {
            Err(e) => Err(e),
            Ok((c, n)) => if s.len() < 6 + n + 21 {
                Err(DecodeError::UnexpectedEof)
            } else {
                match first_nonzero(s.subrange(6 + n as int, 6 + n + 21 as int)) {
                    Some(i) => Err(DecodeError::NonZeroStopByte(i as usize)),
                    None => Ok((c, 6 + n + 21)),
                }
            },
        }
    }
}

/// Whether a byte may stand in a content name: ASCII letters and digits, `_` and `-`.
pub open spec fn name_byte_ok(x: u8) -> bool {
    (0x30 <= x <= 0x39) || (0x41 <= x <= 0x5a) || (0x61 <= x <= 0x7a) || x == 0x5f || x == 0x2d
}

/// Checking the records of an ID table, in order: each is a two-byte id, a non-empty name
/// length and that many name bytes, and the records fill the table exactly.
pub open spec fn check_id_records(s: Seq<u8>) -> Result<(), DecodeError>
    decreases s.len(),
{
    if s.len() == 0 {
        Ok(())
    } else if s.len() < 3 {
        Err(DecodeError::UnexpectedEof)
    } else if s[2] == 0 {
        Err(DecodeError::EmptyContentName)
    } else if exists|j: int| 0 <= j < s[2] && 3 + j < s.len() && !name_byte_ok(#[trigger] s[3 + j]) {
        Err(DecodeError::InvalidContentName)
    } else if s.len() < 3 + s[2] {
        Err(DecodeError::UnexpectedEof)
    } else {
        check_id_records(s.skip(3 + s[2]))
    }
}

/// Checking an ID table body: a content type byte, then the records.
pub open spec fn check_id_body(s: Seq<u8>) -> Result<(), DecodeError> {
    if s.len() == 0 {
        Err(DecodeError::UnexpectedEof)
    } else {
        check_id_records(s.skip(1))
    }
}

/// A decoded chunk body, as a value.
pub enum BodyView {
    MapBody(u32, Seq<Tilev1>),
    IdBody(Seq<u8>),
    ModBody(Seq<u8>),
}

/// The value of a decoded chunk body.
pub open spec fn body_view(b: ChunkBody) -> BodyView {
    match b {
        ChunkBody::Mapv1(m) => BodyView::MapBody(m@.0, m@.1),
        ChunkBody::Idv1(i) => BodyView::IdBody(i@),
        ChunkBody::Modv1(m) => BodyView::ModBody(m@),
    }
}

/// What decoding a chunk of the given kind gives: nothing for a jump table (it is skipped),
/// a map snapshot, an ID table or a modifications table from the decompressed body, or the
/// first failure.
pub open spec fn decode_body(c: Compression, validate: bool, kind: u8, body: Seq<u8>) -> Result<Option<BodyView>, DecodeError> {
    if kind == 1 {
        Ok(None)
    } else if kind == 2 || kind == 3 || kind == 4 {
        match restored_body(c, body) {
            None => Err(DecodeError::Decompression),
            Some(data) => if kind == 2 {
                match parse_map(data) {
                    Ok((w, tiles)) => Ok(Some(BodyView::MapBody(w, tiles))),
                    Err(e) => Err(e),
                }
            } else if kind == 4 {
                match check_mod_records(data) {
                    Ok(()) => Ok(Some(BodyView::ModBody(data))),
                    Err(e) => Err(e),
                }
            } else if validate && check_id_body(data) is Err {
                Err(check_id_body(data)->Err_0)
            } else {
                Ok(Some(BodyView::IdBody(data)))
            },
        }
    } else {
        Err(DecodeError::InvalidChunk(kind))
    }
}

/// Reading one chunk frame from the start of `s`, as the decoder does: the kind, the
/// timestamp, the stored body, and the frame's length. The trailing 21 bytes are skipped
/// unchecked.
pub open spec fn read_frame(s: Seq<u8>) -> Result<(u8, u64, Seq<u8>, nat), DecodeError> {
    if s.len() < 13 {
        Err(DecodeError::UnexpectedEof)
    } else {
        let len = get_u32(s, 9) as nat;
        if s.len() < 13 + len + 21 {
            Err(DecodeError::UnexpectedEof)
        } else {
            Ok((s[0], get_u64(s, 1), s.subrange(13, 13 + len as int), 13 + len + 21))
        }
    }
}

/// What reading on from the start of `s` gives: nothing at the end of the input; else the
/// next chunk that is not a jump table (jump tables are skipped), its timestamp, and the
/// bytes read up to the end of its frame; or the first failure.
pub open spec fn next_chunk_spec(c: Compression, validate: bool, s: Seq<u8>) -> Result<Option<(BodyView, u64, nat)>, DecodeError>
    decreases s.len(),
{
    if s.len() == 0 {
        Ok(None)
    } else {
        match read_frame(s) {
            Err(e) => Err(e),
            Ok((k, t, b, n)) => if k == 1 {
                if 0 < n <= s.len() {
                    shifted(next_chunk_spec(c, validate, s.skip(n as int)), n)
                } else {
                    Ok(None)
                }
            } else {
                match decode_body(c, validate, k, b) {
                    Ok(Some(bv)) => Ok(Some((bv, t, n))),
                    Ok(None) => Ok(None),
                    Err(e) => Err(e),
                }
            },
        }
    }
}

/// A reading result whose count of bytes read is moved on by `off`.
pub open spec fn shifted(r: Result<Option<(BodyView, u64, nat)>, DecodeError>, off: nat) -> Result<Option<(BodyView, u64, nat)>, DecodeError> {
    match r {
        Ok(Some((bv, t, m))) => Ok(Some((bv, t, m + off))),
        other => other,
    }
}

/// Reads a file header from the start of `input`: the compression and the header's length.
pub fn parse_header_bytes(input: &[u8]) -> (r: Result<(Compression, usize), DecodeError>)
    ensures
        match parse_header(input@) {
            Ok((c, n)) => r == Ok::<(Compression, usize), DecodeError>((c, n as usize)),
            Err(e) => r == Err::<(Compression, usize), DecodeError>(e),
        },
{
    let ghost s = input@;
    if input.len() < 4 {
        return Err(DecodeError::UnexpectedEof);
    }
    if input[0] != 0x4d || input[1] != 0x44 || input[2] != 0x52 || input[3] != 0 {
        proof {
            assert(s.subrange(0, 4)[0] == s[0]);
            assert(s.subrange(0, 4)[1] == s[1]);
            assert(s.subrange(0, 4)[2] == s[2]);
            assert(s.subrange(0, 4)[3] == s[3]);
        }
        return Err(DecodeError::MissingMagic);
    }
    proof { assert(s.subrange(0, 4) =~= magic()); }
    if input.len() < 6 {
        return Err(DecodeError::UnexpectedEof);
    }
    let version = read_u16(input, 4);
    if version != 1 {
        return Err(DecodeError::UnsupportedVersion(version));
    }
    let rest = vstd::slice::slice_subrange(input, 6, input.len());
    proof { assert(rest@ =~= s.skip(6)); }
    let (c, n) = match Compression::read(rest) {
        Ok(x) => x,
        Err(e) => return Err(e),
    };
    if input.len() - 6 - n < PAST_HEADER {
        return Err(DecodeError::UnexpectedEof);
    }
    let start = 6 + n;
    let len = input.len();
    proof {
        assert(s.subrange(start as int, start + 21) =~= s.skip(start as int).subrange(0, 21));
    }
    let mut i: usize = 0;
    while i < PAST_HEADER
        invariant
            s == input@,
            len == s.len(),
            start + 21 <= s.len(),
            i <= 21,
            forall|k: int| 0 <= k < i ==> #[trigger] s[start + k] == 0,
            parse_header(s) == match first_nonzero(s.subrange(start as int, start + 21)) {
                Some(j) => Err(DecodeError::NonZeroStopByte(#[verifier::truncate] (j as usize))),
                None => Ok((c, (start + 21) as nat)),
            },
        decreases 21 - i,
    {
        if input[start + i] != 0 {
            proof {
                let t = s.subrange(start as int, start + 21);
                assert forall|k: int| 0 <= k < i implies #[trigger] t[k] == 0 by {
                    assert(t[k] == s[start + k]);
                }
                assert(t[i as int] == s[start + i]);
                lemma_first_nonzero(t, i as nat);
            }
            return Err(DecodeError::NonZeroStopByte(i));
        }
        i = i + 1;
    }
    proof {
        let t = s.subrange(start as int, start + 21);
        assert forall|k: int| 0 <= k < 21 implies #[trigger] t[k] == 0 by {
            assert(t[k] == s[start + k]);
        }
        lemma_first_nonzero(t, 21);
    }
    Ok((c, start + PAST_HEADER))
}

/// `first_nonzero` finds `i` when `t[i]` is the first non-zero byte, and nothing when the
/// first `i` bytes, all of `t`, are zero.
proof fn lemma_first_nonzero(t: Seq<u8>, i: nat)
    requires
        i <= t.len(),
        forall|k: int| 0 <= k < i ==> #[trigger] t[k] == 0,
    ensures
        i < t.len() && t[i as int] != 0 ==> first_nonzero(t) == Some(i),
        i == t.len() ==> first_nonzero(t) is None,
    decreases i,
{
    if i > 0 {
        let u = t.skip(1);
        assert forall|k: int| 0 <= k < i - 1 implies #[trigger] u[k] == 0 by {
            assert(u[k] == t[k + 1]);
        }
        lemma_first_nonzero(u, (i - 1) as nat);
        assert(t[0] == 0);
        if i < t.len() {
            assert(u[i - 1] == t[i as int]);
        }
    }
}

/// Whether a byte may stand in a content name.
fn is_name_byte(x: u8) -> (r: bool)
    ensures
        r == name_byte_ok(x),
{
    (0x30 <= x && x <= 0x39) || (0x41 <= x && x <= 0x5a) || (0x61 <= x && x <= 0x7a) || x == 0x5f || x == 0x2d
}

/// Checks the `len` name bytes at `start`, in order: fails with `InvalidContentName` at the
/// first disallowed byte, or with `UnexpectedEof` where the bytes run out first.
fn check_name(body: &[u8], start: usize, len: usize) -> (r: Result<(), DecodeError>)
    requires
        start <= body@.len(),
    ensures
        (exists|k: int| 0 <= k < len && start + k < body@.len() && !name_byte_ok(#[trigger] body@[start + k]))
            ==> r == Err::<(), DecodeError>(DecodeError::InvalidContentName),
        !(exists|k: int| 0 <= k < len && start + k < body@.len() && !name_byte_ok(#[trigger] body@[start + k]))
            ==> r == (if start + len <= body@.len() { Ok::<(), DecodeError>(()) } else { Err(DecodeError::UnexpectedEof) }),
{
    let mut j: usize = 0;
    while j < len
        invariant
            start <= body@.len(),
            j <= len,
            start + j <= body@.len(),
            forall|k: int| 0 <= k < j ==> name_byte_ok(#[trigger] body@[start + k]),
        decreases len - j,
    {
        if body.len() - start <= j {
            return Err(DecodeError::UnexpectedEof);
        }
        if !is_name_byte(body[start + j]) {
            return Err(DecodeError::InvalidContentName);
        }
        j = j + 1;
    }
    Ok(())
}

/// Checks the body of an ID table, as the decoder does unless validation is skipped.
pub fn validate_id_body(body: &[u8]) -> (r: Result<(), DecodeError>)
    ensures
        r == check_id_body(body@),
{
    let ghost s = body@;
    if body.len() == 0 {
        return Err(DecodeError::UnexpectedEof);
    }
    proof { reveal_with_fuel(check_id_records, 1); }
    let blen = body.len();
    let mut pos: usize = 1;
    while pos < body.len()
        invariant
            s == body@,
            blen == s.len(),
            1 <= pos <= s.len(),
            check_id_body(s) == check_id_records(s.skip(pos as int)),
        decreases s.len() - pos,
    {
        let ghost t = s.skip(pos as int);
        if body.len() - pos < 3 {
            return Err(DecodeError::UnexpectedEof);
        }
        let len = body[pos + 2];
        assert(len == t[2]);
        if len == 0 {
            return Err(DecodeError::EmptyContentName);
        }
        match check_name(body, pos + 3, len as usize) {
            Err(e) => {
                proof {
                    if exists|k: int| 0 <= k < len && pos + 3 + k < s.len() && !name_byte_ok(#[trigger] s[pos + 3 + k]) {
                        let k = choose|k: int| 0 <= k < len && pos + 3 + k < s.len() && !name_byte_ok(#[trigger] s[pos + 3 + k]);
                        assert(t[3 + k] == s[pos + 3 + k]);
                        assert(exists|j: int| 0 <= j < t[2] && 3 + j < t.len() && !name_byte_ok(#[trigger] t[3 + j]));
                    } else {
                        assert forall|j: int| 0 <= j < t[2] && 3 + j < t.len() implies name_byte_ok(#[trigger] t[3 + j]) by {
                            assert(t[3 + j] == s[pos + 3 + j]);
                        }
                    }
                }
                return Err(e);
            },
            Ok(()) => {},
        }
        proof {
            assert forall|k: int| 0 <= k < t[2] && 3 + k < t.len() implies name_byte_ok(#[trigger] t[3 + k]) by {
                assert(t[3 + k] == s[pos + 3 + k]);
            }
            assert(t.skip(3 + len as int) =~= s.skip(pos + 3 + len));
        }
        pos = pos + 3 + len as usize;
    }
    proof { assert(s.skip(pos as int).len() == 0); }
    Ok(())
}

/// Reads the part of a chunk frame that precedes the body: kind, timestamp and stored length.
pub fn parse_chunk_head(head: &[u8]) -> (r: Result<(u8, u64, u32), DecodeError>)
    ensures
        head@.len() < 13 ==> r == Err::<(u8, u64, u32), DecodeError>(DecodeError::UnexpectedEof),
        head@.len() >= 13 ==> r == Ok::<(u8, u64, u32), DecodeError>((head@[0], get_u64(head@, 1), get_u32(head@, 9))),
{
    if head.len() < 13 {
        return Err(DecodeError::UnexpectedEof);
    }
    Ok((head[0], read_u64(head, 1), read_u32(head, 9)))
}

/// Decoder builder.
pub struct Builder<R> {
    read: GenericIo<R>,
    validate: bool,
}

impl<R> Builder<R> {
    /// The IO object with its capabilities.
    pub closed spec fn io_view(&self) -> GenericIo<R> {
        self.read
    }

    /// Whether the decoder will validate chunks.
    pub closed spec fn validates(&self) -> bool {
        self.validate
    }

    /// A builder for a decoder that reads from `read`, with no capability yet, validating.
    pub fn new(read: R) -> (r: Self)
        ensures
            r.io_view().obj() == read,
            r.io_view().caps() == crate::io::no_caps(),
            r.validates(),
    {
        Builder { read: GenericIo::new_empty(read), validate: true }
    }

    /// Skip chunk validation.
    pub fn skip_validation(self) -> (r: Self)
        ensures
            r.io_view() == self.io_view(),
            !r.validates(),
    {
        Builder { read: self.read, validate: false }
    }

    /// Make the decoder try-cloneable.
    pub fn try_cloneable(self) -> (r: Self)
        ensures
            r.io_view().caps() == (IoCaps { try_clone: true, ..self.io_view().caps() }),
            r.io_view().obj() == self.io_view().obj(),
            r.validates() == self.validates(),
    {
        Builder { read: self.read.make_into_try_cloneable(), validate: self.validate }
    }

    /// Make the decoder readable.
    pub fn readable(self) -> (r: Self)
        ensures
            r.io_view().caps() == (IoCaps { read: true, ..self.io_view().caps() }),
            r.io_view().obj() == self.io_view().obj(),
            r.validates() == self.validates(),
    {
        Builder { read: self.read.make_into_readable(), validate: self.validate }
    }

    /// Make the decoder seekable.
    pub fn seekable(self) -> (r: Self)
        ensures
            r.io_view().caps() == (IoCaps { seek: true, ..self.io_view().caps() }),
            r.io_view().obj() == self.io_view().obj(),
            r.validates() == self.validates(),
    {
        Builder { read: self.read.make_into_seekable(), validate: self.validate }
    }

    /// Make the decoder async-readable.
    pub fn async_readable(self) -> (r: Self)
        ensures
            r.io_view().caps() == (IoCaps { async_read: true, ..self.io_view().caps() }),
            r.io_view().obj() == self.io_view().obj(),
            r.validates() == self.validates(),
    {
        Builder { read: self.read.make_into_async_readable(), validate: self.validate }
    }

    /// Make the decoder async-seekable.
    pub fn async_seekable(self) -> (r: Self)
        ensures
            r.io_view().caps() == (IoCaps { async_seek: true, ..self.io_view().caps() }),
            r.io_view().obj() == self.io_view().obj(),
            r.validates() == self.validates(),
    {
        Builder { read: self.read.make_into_async_seekable(), validate: self.validate }
    }

    /// The IO object, to read the header through.
    pub fn io(&mut self) -> (r: &mut GenericIo<R>)
        ensures
            *r == old(self).io_view(),
            final(self).io_view() == *final(r),
            final(self).validates() == old(self).validates(),
    {
        &mut self.read
    }

    /// Checks that the capabilities allow decoding.
    pub fn check(&self) -> (r: Result<(), DecodeError>)
        ensures
            r == caps_check(self.io_view().caps()),
    {
        if !self.read.is_readable() {
            return Err(DecodeError::NoRead);
        }
        if self.read.is_readable() && self.read.is_async_readable() && (self.read.is_seekable() != self.read.is_async_seekable()) {
            if self.read.is_seekable() {
                return Err(DecodeError::NoAsyncSeek);
            } else {
                return Err(DecodeError::NoSeek);
            }
        }
        Ok(())
    }

    /// Builds the decoder from the file header `header` that was read through the IO object.
    pub fn build(self, header: &[u8]) -> (r: Result<Decoder<R>, DecodeError>)
        ensures
            caps_check(self.io_view().caps()) is Err ==> r == Err::<Decoder<R>, DecodeError>(caps_check(self.io_view().caps())->Err_0),
            caps_check(self.io_view().caps()) is Ok ==> match parse_header(header@) {
                Ok((c, _)) => r matches Ok(d) && d.io_view() == self.io_view() && d.compression() == c
                    && d.validates() == self.validates(),
                Err(e) => r == Err::<Decoder<R>, DecodeError>(e),
            },
    {
        match self.check() {
            Err(e) => return Err(e),
            Ok(()) => {},
        }
        match parse_header_bytes(header) {
            Err(e) => Err(e),
            Ok((compression, _)) => Ok(Decoder { read: self.read, validate: self.validate, compression }),
        }
    }
}

/// Whether the capabilities allow decoding: readable, and if also async-readable then
/// seekable exactly when async-seekable.
pub open spec fn caps_check(c: IoCaps) -> Result<(), DecodeError> {
    if !c.read {
        Err(DecodeError::NoRead)
    } else if c.async_read && c.seek != c.async_seek {
        if c.seek {
            Err(DecodeError::NoAsyncSeek)
        } else {
            Err(DecodeError::NoSeek)
        }
    } else {
        Ok(())
    }
}

/// Filter options.
pub trait Filter {
    fn chunk_kind(&self) -> Option<ChunkKind>;
}

impl Filter for ChunkKind {
    fn chunk_kind(&self) -> (r: Option<ChunkKind>)
        ensures
            r == Some(*self),
    {
        Some(*self)
    }
}

/// MDR decoder.
pub struct Decoder<R> {
    read: GenericIo<R>,
    validate: bool,
    compression: Compression,
}

impl<R> Decoder<R> {
    /// The IO object with its capabilities.
    pub closed spec fn io_view(&self) -> GenericIo<R> {
        self.read
    }

    /// Whether chunks are validated.
    pub closed spec fn validates(&self) -> bool {
        self.validate
    }

    /// The compression that the file header declares.
    pub closed spec fn compression(&self) -> Compression {
        self.compression
    }

    /// Create a new [Builder].
    pub fn builder(read: R) -> (r: Builder<R>)
        ensures
            r.io_view().obj() == read,
            r.io_view().caps() == crate::io::no_caps(),
            r.validates(),
    {
        Builder::new(read)
    }

    /// Create a streaming decoder: the same as `Decoder::builder(read).build(..)`, which a
    /// builder without the `Read` capability refuses before any header is read.
    pub fn streaming(read: R) -> (r: Result<Decoder<R>, DecodeError>)
        ensures
            r == Err::<Decoder<R>, DecodeError>(DecodeError::NoRead),
    {
        Decoder::builder(read).build(&[])
    }

    /// The IO object, to read chunks through.
    pub fn io(&mut self) -> (r: &mut GenericIo<R>)
        ensures
            *r == old(self).io_view(),
            final(self).io_view() == *final(r),
            final(self).validates() == old(self).validates(),
            final(self).compression() == old(self).compression(),
    {
        &mut self.read
    }

    /// The compression that the file header declares.
    pub fn get_compression(&self) -> (r: Compression)
        ensures
            r == self.compression(),
    {
        self.compression
    }

    /// Decodes a chunk of kind `kind`, stamped `timestamp`, whose stored body is `body`:
    /// `None` for a jump table, which readers skip.
    pub fn decode_chunk(&self, kind: u8, timestamp: u64, body: &[u8]) -> (r: Result<Option<Chunk>, DecodeError>)
        ensures
            match decode_body(self.compression(), self.validates(), kind, body@) {
                Ok(None) => r matches Ok(None),
                Ok(Some(b)) => r matches Ok(Some(ch)) && ch.timestamp == timestamp && body_view(ch.body) == b,
                Err(e) => r == Err::<Option<Chunk>, DecodeError>(e),
            },
    {
        if kind == 1 {
            return Ok(None);
        }
        if kind != 2 && kind != 3 && kind != 4 {
            return Err(DecodeError::InvalidChunk(kind));
        }
        let data = match self.compression.read_data(body) {
            Ok(d) => d,
            Err(e) => return Err(e),
        };
        if kind == 2 {
            match MapChunkv1::parse(data.as_slice()) {
                Ok(m) => Ok(Some(Chunk { timestamp, body: ChunkBody::Mapv1(m) })),
                Err(e) => Err(e),
            }
        } else if kind == 4 {
            match validate_mod_body(data.as_slice()) {
                Err(e) => Err(e),
                Ok(()) => Ok(Some(Chunk { timestamp, body: ChunkBody::Modv1(ModChunkv1::new(data)) })),
            }
        } else {
            if self.validate {
                match validate_id_body(data.as_slice()) {
                    Err(e) => return Err(e),
                    Ok(()) => {},
                }
            }
            Ok(Some(Chunk { timestamp, body: ChunkBody::Idv1(IdChunkv1::new(data)) }))
        }
    }

    /// Reads on from the start of `input`, the bytes that follow the header or the last frame
    /// read: the next chunk that is not a jump table and the bytes read up to the end of its
    /// frame, or `None` at the end of the input.
    pub fn next_chunk(&self, input: &[u8]) -> (r: Result<Option<(Chunk, usize)>, DecodeError>)
        ensures
            match next_chunk_spec(self.compression(), self.validates(), input@) {
                Ok(None) => r matches Ok(None),
                Ok(Some((b, t, n))) => r matches Ok(Some((ch, m)))
                    && ch.timestamp == t && body_view(ch.body) == b && m == n,
                Err(e) => r == Err::<Option<(Chunk, usize)>, DecodeError>(e),
            },
    {
        let ghost c = self.compression();
        let ghost v = self.validates();
        let len = input.len();
        let mut pos: usize = 0;
        proof { assert(input@.skip(0) =~= input@); }
        while pos < len
            invariant
                len == input@.len(),
                pos <= len,
                c == self.compression(),
                v == self.validates(),
                next_chunk_spec(c, v, input@) == shifted(next_chunk_spec(c, v, input@.skip(pos as int)), pos as nat),
            decreases len - pos,
        {
            let rest = slice_subrange(input, pos, len);
            let ghost s = rest@;
            proof { assert(s =~= input@.skip(pos as int)); }
            let (kind, timestamp, blen) = match parse_chunk_head(rest) {
                Ok(x) => x,
                Err(e) => return Err(e),
            };
            if rest.len() - 13 < blen as usize || rest.len() - 13 - (blen as usize) < PAST_HEADER {
                return Err(DecodeError::UnexpectedEof);
            }
            let n = 13 + blen as usize + PAST_HEADER;
            if kind == 1 {
                proof {
                    assert(s.skip(n as int) =~= input@.skip(pos + n));
                    let x = next_chunk_spec(c, v, input@.skip(pos + n));
                    assert(shifted(shifted(x, n as nat), pos as nat) == shifted(x, (pos + n) as nat));
                }
                pos = pos + n;
            } else {
                let body = slice_subrange(rest, 13, 13 + blen as usize);
                proof { assert(body@ =~= s.subrange(13, 13 + blen as int)); }
                return match self.decode_chunk(kind, timestamp, body) {
                    Ok(Some(ch)) => Ok(Some((ch, pos + n))),
                    Ok(None) => Ok(None),
                    Err(e) => Err(e),
                };
            }
        }
        proof { assert(input@.skip(pos as int).len() == 0); }
        Ok(None)
    }
}

} // verus!
