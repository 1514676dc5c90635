//! Decoded chunk contents and the kinds of chunks.
use vstd::prelude::*;
use vstd::slice::slice_subrange;
use crate::wire::{le16, le32, get_u16, get_u32, get_i32, read_u16, read_u32, push_u16, push_u32};
use crate::error::DecodeError;

verus! {

/// The kind of a chunk, as stored in its first byte.
#[derive(Clone, Copy, Debug, PartialEq, Eq, Structural)]
pub enum ChunkKind {
    /// A jump table.
    Jmp,
    /// A map snapshot table.
    MapSnapshot,
    /// An ID table.
    Id,
    /// A modifications table chunk.
    Mod,
}

/// The byte that stands for a chunk kind.
pub open spec fn kind_byte(k: ChunkKind) -> u8 {
    match k {
        ChunkKind::Jmp => 1,
        ChunkKind::MapSnapshot => 2,
        ChunkKind::Id => 3,
        ChunkKind::Mod => 4,
    }
}

/// The chunk kind that a byte stands for, if any.
pub open spec fn kind_of_byte(b: u8) -> Option<ChunkKind> {
    if b == 1 {
        Some(ChunkKind::Jmp)
    } else if b == 2 {
        Some(ChunkKind::MapSnapshot)
    } else if b == 3 {
        Some(ChunkKind::Id)
    } else if b == 4 {
        Some(ChunkKind::Mod)
    } else {
        None
    }
}

impl ChunkKind {
    /// Get a numeric name of the chunk.
    pub fn ordinal(&self) -> (r: u8)
        ensures
            r == kind_byte(*self),
    {
        match self {
            ChunkKind::Jmp => 1,
            ChunkKind::MapSnapshot => 2,
            ChunkKind::Id => 3,
            ChunkKind::Mod => 4,
        }
    }

    /// Obtain a chunk kind from its numeric name.
    ///
    /// Returns the input on failure.
    pub fn from_ordinal(value: u8) -> (r: Result<ChunkKind, u8>)
        ensures
            match kind_of_byte(value) {
                Some(k) => r == Ok::<ChunkKind, u8>(k),
                None => r == Err::<ChunkKind, u8>(value),
            },
    {
        match value {
            1 => Ok(ChunkKind::Jmp),
            2 => Ok(ChunkKind::MapSnapshot),
            3 => Ok(ChunkKind::Id),
            4 => Ok(ChunkKind::Mod),
            x => Err(x),
        }
    }

    /// The short upper-case name of the kind, as shown to people.
    pub fn name(&self) -> (r: &'static str)
        ensures
            r@ == kind_name(*self),
    {
        match self {
            ChunkKind::Jmp => "JMP",
            ChunkKind::MapSnapshot => "MAP",
            ChunkKind::Id => "ID",
            ChunkKind::Mod => "MOD",
        }
    }
}

/// The name shown for a chunk kind.
pub open spec fn kind_name(k: ChunkKind) -> Seq<char> {
    match k {
        ChunkKind::Jmp => "JMP"@,
        ChunkKind::MapSnapshot => "MAP"@,
        ChunkKind::Id => "ID"@,
        ChunkKind::Mod => "MOD"@,
    }
}

/// A kind survives the trip to its byte and back, and the bytes that stand for no kind are
/// exactly those outside 1 to 4.
pub proof fn lemma_kind_byte_roundtrip(k: ChunkKind, b: u8)
    ensures
        kind_of_byte(kind_byte(k)) == Some(k),
        kind_of_byte(b) is None <==> (b < 1 || b > 4),
        kind_of_byte(b) matches Some(k2) ==> kind_byte(k2) == b,
{
}

/// One tile of a map snapshot.
#[derive(Clone, Copy, Debug, PartialEq, Eq, Structural)]
pub struct Tilev1 {
    pub block_id: u16,
    pub floor_id: u16,
    pub overlay_id: u16,
    pub block_data: u8,
    pub floor_data: u8,
    pub overlay_data: u8,
    pub extra_data: u32,
}

/// The 14 bytes that a tile occupies in a map body; the last one is the (always zero)
/// building marker.
pub open spec fn tile_bytes(t: Tilev1) -> Seq<u8> {
    le16(t.block_id) + le16(t.floor_id) + le16(t.overlay_id) + seq![t.block_data, t.floor_data, t.overlay_data]
        + le32(t.extra_data) + seq![0u8]
}

/// The tile whose fields are stored at `at` in `s`.
pub open spec fn tile_at(s: Seq<u8>, at: int) -> Tilev1 {
    Tilev1 {
        block_id: get_u16(s, at),
        floor_id: get_u16(s, at + 2),
        overlay_id: get_u16(s, at + 4),
        block_data: s[at + 6],
        floor_data: s[at + 7],
        overlay_data: s[at + 8],
        extra_data: get_u32(s, at + 9),
    }
}

/// What `Tilev1::read` leaves in the tile and returns when `s` holds the bytes that are left to
/// read: the fields are filled in order, each as soon as its bytes are there.
pub open spec fn tile_read(old: Tilev1, s: Seq<u8>) -> (Tilev1, Result<(), DecodeError>) {
    let eof = Err::<(), DecodeError>(DecodeError::UnexpectedEof);
    let t1 = Tilev1 { block_id: get_u16(s, 0), ..old };
    let t2 = Tilev1 { floor_id: get_u16(s, 2), ..t1 };
    let t3 = Tilev1 { overlay_id: get_u16(s, 4), ..t2 };
    let t4 = Tilev1 { block_data: s[6], ..t3 };
    let t5 = Tilev1 { floor_data: s[7], ..t4 };
    let t6 = Tilev1 { overlay_data: s[8], ..t5 };
    let t7 = Tilev1 { extra_data: get_u32(s, 9), ..t6 };
    if s.len() < 2 {
        (old, eof)
    } else if s.len() < 4 {
        (t1, eof)
    } else if s.len() < 6 {
        (t2, eof)
    } else if s.len() < 7 {
        (t3, eof)
    } else if s.len() < 8 {
        (t4, eof)
    } else if s.len() < 9 {
        (t5, eof)
    } else if s.len() < 13 {
        (t6, eof)
    } else if s.len() < 14 {
        (t7, eof)
    } else if s[13] != 0 {
        (t7, Err(DecodeError::BuildingsUnsupported))
    } else {
        (t7, Ok(()))
    }
}

impl Tilev1 {
    /// A tile with every field zero.
    pub fn zeroed() -> (r: Self)
        ensures
            r == (Tilev1 {
                block_id: 0,
                floor_id: 0,
                overlay_id: 0,
                block_data: 0,
                floor_data: 0,
                overlay_data: 0,
                extra_data: 0,
            }),
    {
        Tilev1 {
            block_id: 0,
            floor_id: 0,
            overlay_id: 0,
            block_data: 0,
            floor_data: 0,
            overlay_data: 0,
            extra_data: 0,
        }
    }

    /// Reads a tile from the bytes `input[at..]`, field by field.
    ///
    /// Fails with `UnexpectedEof` where the bytes run out (the fields read so far stay
    /// assigned) and with `BuildingsUnsupported` where the building marker is not zero.
    pub fn read(&mut self, input: &[u8], at: usize) -> (r: Result<(), DecodeError>)
        requires
            at <= input@.len(),
        ensures
            (*final(self), r) == tile_read(*old(self), input@.skip(at as int)),
    {
        let ghost s = input@.skip(at as int);
        let avail = input.len() - at;
        if avail < 2 {
            return Err(DecodeError::UnexpectedEof);
        }
        proof { assert(s.subrange(0, 2) =~= input@.subrange(at as int, at + 2)); }
        self.block_id = read_u16(input, at);
        if avail < 4 {
            return Err(DecodeError::UnexpectedEof);
        }
        proof { assert(s.subrange(2, 4) =~= input@.subrange(at + 2, at + 4)); }
        self.floor_id = read_u16(input, at + 2);
        if avail < 6 {
            return Err(DecodeError::UnexpectedEof);
        }
        proof { assert(s.subrange(4, 6) =~= input@.subrange(at + 4, at + 6)); }
        self.overlay_id = read_u16(input, at + 4);
        if avail < 7 {
            return Err(DecodeError::UnexpectedEof);
        }
        self.block_data = input[at + 6];
        if avail < 8 {
            return Err(DecodeError::UnexpectedEof);
        }
        self.floor_data = input[at + 7];
        if avail < 9 {
            return Err(DecodeError::UnexpectedEof);
        }
        self.overlay_data = input[at + 8];
        if avail < 13 {
            return Err(DecodeError::UnexpectedEof);
        }
        proof { assert(s.subrange(9, 13) =~= input@.subrange(at + 9, at + 13)); }
        self.extra_data = read_u32(input, at + 9);
        if avail < 14 {
            return Err(DecodeError::UnexpectedEof);
        }
        if input[at + 13] != 0 {
            return Err(DecodeError::BuildingsUnsupported);
        }
        Ok(())
    }
}

/// The bytes of a sequence of tiles, one after the other.
pub open spec fn tiles_bytes(tiles: Seq<Tilev1>) -> Seq<u8>
    decreases tiles.len(),
{
    if tiles.len() == 0 {
        Seq::empty()
    } else {
        tiles_bytes(tiles.drop_last()) + tile_bytes(tiles.last())
    }
}

/// The body of a MAP chunk: width, height, the tiles row by row, then the unit count, which is
/// zero as no units are recorded.
pub open spec fn map_body_bytes(width: u32, height: u32, tiles: Seq<Tilev1>) -> Seq<u8> {
    le32(width) + le32(height) + tiles_bytes(tiles) + le32(0)
}

/// Whether some tile that `s` holds completely, among the first `n`, declares a building.
pub open spec fn map_has_building(s: Seq<u8>, n: nat) -> bool {
    exists|k: int| 0 <= k < n && 8 + 14 * k + 14 <= s.len() && #[trigger] s[8 + 14 * k + 13] != 0
}

/// What decoding a MAP body gives: the width and the `width * height` tiles, or the first
/// failure met on the way. Bytes after the last tile (the unit count and the units) are
/// ignored.
pub open spec fn parse_map(s: Seq<u8>) -> Result<(u32, Seq<Tilev1>), DecodeError> {
    if s.len() < 8 {
        Err(DecodeError::UnexpectedEof)
    } else {
        let w = get_u32(s, 0);
        let n = w as nat * get_u32(s, 4) as nat;
        if map_has_building(s, n) {
            Err(DecodeError::BuildingsUnsupported)
        } else if s.len() < 8 + 14 * n {
            Err(DecodeError::UnexpectedEof)
        } else {
            Ok((w, Seq::new(n, |k: int| tile_at(s, 8 + 14 * k))))
        }
    }
}

/// Appends the bytes of `t` to `out`.
pub fn push_tile(out: &mut Vec<u8>, t: &Tilev1)
    ensures
        final(out)@ == old(out)@ + tile_bytes(*t),
{
    push_u16(out, t.block_id);
    push_u16(out, t.floor_id);
    push_u16(out, t.overlay_id);
    out.push(t.block_data);
    out.push(t.floor_data);
    out.push(t.overlay_data);
    push_u32(out, t.extra_data);
    out.push(0);
    proof {
        assert(final(out)@ =~= old(out)@ + tile_bytes(*t));
    }
}

/// Encodes a map snapshot of `width` by `height` tiles, given row by row, with no units.
pub fn encode_map_body(width: u32, height: u32, tiles: &[Tilev1]) -> (r: Vec<u8>)
    requires
        tiles@.len() == width as nat * height as nat,
    ensures
        r@ == map_body_bytes(width, height, tiles@),
{
    let mut out: Vec<u8> = Vec::new();
    push_u32(&mut out, width);
    push_u32(&mut out, height);
    let ghost head = out@;
    let mut i: usize = 0;
    while i < tiles.len()
        invariant
            i <= tiles@.len(),
            out@ == head + tiles_bytes(tiles@.subrange(0, i as int)),
        decreases tiles.len() - i,
    {
        push_tile(&mut out, &tiles[i]);
        proof {
            let pre = tiles@.subrange(0, i as int + 1);
            assert(pre.drop_last() =~= tiles@.subrange(0, i as int));
            assert(pre.last() == tiles@[i as int]);
        }
        i = i + 1;
    }
    proof {
        assert(tiles@.subrange(0, tiles@.len() as int) =~= tiles@);
        assert(head =~= le32(width) + le32(height));
    }
    push_u32(&mut out, 0);
    out
}

/// A decoded map snapshot.
pub struct MapChunkv1 {
    width: u32,
    body: Vec<Tilev1>,
}

impl View for MapChunkv1 {
    type V = (u32, Seq<Tilev1>);

    closed spec fn view(&self) -> (u32, Seq<Tilev1>) {
        (self.width, self.body@)
    }
}

/// Tiles of a map whose rows hold `width` tiles: the row count, as `MapChunkv1::height`
/// computes it.
pub open spec fn map_height(m: (u32, Seq<Tilev1>)) -> u32 {
    (m.1.len() / m.0 as nat) as u32
}

impl MapChunkv1 {
    /// Decodes a MAP chunk body.
    pub fn parse(body: &[u8]) -> (r: Result<MapChunkv1, DecodeError>)
        ensures
            match parse_map(body@) {
                Ok(m) => r matches Ok(c) && c@ == m,
                Err(e) => r == Err::<MapChunkv1, DecodeError>(e),
            },
    {
        let ghost s = body@;
        if body.len() < 4 {
            return Err(DecodeError::UnexpectedEof);
        }
        let width = read_u32(body, 0);
        if body.len() < 8 {
            return Err(DecodeError::UnexpectedEof);
        }
        let height = read_u32(body, 4);
        assert(width as u64 * height as u64 <= u64::MAX) by (nonlinear_arith)
            requires width <= u32::MAX, height <= u32::MAX;
        let n: u64 = width as u64 * height as u64;
        let ghost nn: nat = width as nat * height as nat;
        assert(n == nn) by (nonlinear_arith)
            requires n == width as u64 * height as u64, nn == width as nat * height as nat;
        let mut tiles: Vec<Tilev1> = Vec::new();
        let mut i: u64 = 0;
        let mut pos: usize = 8;
        while i < n
            invariant
                s == body@,
                n == nn,
                nn == get_u32(s, 0) as nat * get_u32(s, 4) as nat,
                width == get_u32(s, 0),
                s.len() >= 8,
                i <= n,
                pos == 8 + 14 * i,
                pos <= s.len(),
                tiles@ == Seq::new(i as nat, |k: int| tile_at(s, 8 + 14 * k)),
                forall|k: int| 0 <= k < i ==> #[trigger] s[8 + 14 * k + 13] == 0,
            decreases n - i,
        {
            if body.len() - pos < 14 {
                proof {
                    assert forall|k: int| 0 <= k < nn && 8 + 14 * k + 14 <= s.len() implies #[trigger] s[8 + 14 * k + 13] == 0 by {
                        if k >= i {
                            assert(14 * k >= 14 * i) by (nonlinear_arith) requires k >= i;
                        }
                    }
                    assert(s.len() < 8 + 14 * nn) by (nonlinear_arith)
                        requires s.len() < pos + 14, pos == 8 + 14 * i, i < nn;
                }
                return Err(DecodeError::UnexpectedEof);
            }
            let mut t = Tilev1::zeroed();
            proof {
                assert(s.skip(pos as int).subrange(0, 2) =~= s.subrange(pos as int, pos + 2));
                assert(s.skip(pos as int).subrange(2, 4) =~= s.subrange(pos + 2, pos + 4));
                assert(s.skip(pos as int).subrange(4, 6) =~= s.subrange(pos + 4, pos + 6));
                assert(s.skip(pos as int).subrange(9, 13) =~= s.subrange(pos + 9, pos + 13));
            }
            match t.read(body, pos) {
                Err(e) => {
                    proof {
                        assert(s[8 + 14 * (i as int) + 13] != 0);
                        assert(map_has_building(s, nn));
                    }
                    return Err(e);
                },
                Ok(()) => {},
            }
            assert(t == tile_at(s, 8 + 14 * i));
            tiles.push(t);
            proof {
                assert(tiles@ =~= Seq::new((i + 1) as nat, |k: int| tile_at(s, 8 + 14 * k)));
                assert(s[8 + 14 * (i as int) + 13] == 0);
                assert forall|k: int| 0 <= k < i + 1 implies #[trigger] s[8 + 14 * k + 13] == 0 by {
                    if k == i {} 
                }
            }
            pos = pos + 14;
            i = i + 1;
        }
        proof {
            assert(!map_has_building(s, nn));
        }
        Ok(MapChunkv1 { width, body: tiles })
    }

    /// Width of the map in tiles.
    pub fn width(&self) -> (r: u32)
        ensures
            r == self@.0,
    {
        self.width
    }

    /// Height of the map in tiles.
    pub fn height(&self) -> (r: u32)
        requires
            self@.0 > 0,
        ensures
            r == map_height(self@),
    {
        (self.body.len() / self.width as usize) as u32
    }

    /// All tiles, row by row.
    pub fn tiles(&self) -> (r: &[Tilev1])
        ensures
            r@ == self@.1,
    {
        self.body.as_slice()
    }

    /// The tile at column `x` of row `y`.
    pub fn index(&self, x: u32, y: u32) -> (r: &Tilev1)
        requires
            x < self@.0,
            y < map_height(self@),
        ensures
            (x + y * self@.0) < self@.1.len(),
            *r == self@.1[x + y * self@.0],
    {
        let w = self.width as usize;
        let len = self.body.len();
        proof {
            let q = len as nat / w as nat;
            assert((y as nat) < q) by {
                assert((q as u32) as nat <= q);
            }
            assert((x as nat + y as nat * w as nat) < (len as nat)) by (nonlinear_arith)
                requires (y as nat) < q, q == len as nat / w as nat, (x as nat) < (w as nat), w > 0;
        }
        &self.body[x as usize + y as usize * w]
    }
}

/// An ID table: a content type byte, then records of an id and a name.
pub struct IdChunkv1 {
    body: Vec<u8>,
}

impl View for IdChunkv1 {
    type V = Seq<u8>;

    closed spec fn view(&self) -> Seq<u8> {
        self.body@
    }
}

/// The next record of the records in `s`, and what follows it; `None` where fewer than three
/// bytes are left.
pub open spec fn id_record_next(s: Seq<u8>) -> Option<(u16, Seq<u8>, Seq<u8>)> {
    if s.len() < 3 {
        None
    } else {
        let len = s[2] as int;
        Some((get_u16(s, 0), s.subrange(3, 3 + len), s.skip(3 + len)))
    }
}

/// Whether the next record of `s`, if there is one, fits into `s`.
pub open spec fn id_record_fits(s: Seq<u8>) -> bool {
    s.len() >= 3 ==> 3 + s[2] <= s.len()
}

impl IdChunkv1 {
    /// Wraps the (decompressed) body of an ID chunk.
    pub fn new(body: Vec<u8>) -> (r: Self)
        ensures
            r@ == body@,
    {
        IdChunkv1 { body }
    }

    /// The content type that the records name, see the format's content types.
    pub fn content_type(&self) -> (r: u8)
        requires
            self@.len() >= 1,
        ensures
            r == self@[0],
    {
        self.body[0]
    }

    /// The records of the table.
    pub fn entries(&self) -> (r: IdChunkv1Iter<'_>)
        requires
            self@.len() >= 1,
        ensures
            r@ == self@.skip(1),
    {
        IdChunkv1Iter { body: slice_subrange(self.body.as_slice(), 1, self.body.len()) }
    }
}

/// Walks over the records of an ID table.
pub struct IdChunkv1Iter<'a> {
    body: &'a [u8],
}

impl<'a> View for IdChunkv1Iter<'a> {
    type V = Seq<u8>;

    closed spec fn view(&self) -> Seq<u8> {
        self.body@
    }
}

impl<'a> IdChunkv1Iter<'a> {
    /// The bytes of the records that are left.
    pub fn remaining(&self) -> (r: &'a [u8])
        ensures
            r@ == self@,
    {
        self.body
    }

    /// The next record: its id and the bytes of its name. Once fewer than three bytes are
    /// left, there is none, and nothing is left after that.
    pub fn next(&mut self) -> (r: Option<(u16, &'a [u8])>)
        requires
            id_record_fits(old(self)@),
        ensures
            match id_record_next(old(self)@) {
                None => r is None && final(self)@ == Seq::<u8>::empty(),
                Some((id, name, rest)) => r matches Some((i, n)) && i == id && n@ == name
                    && final(self)@ == rest,
            },
    {
        let body = self.body;
        if body.len() < 3 {
            self.body = slice_subrange(body, body.len(), body.len());
            proof { assert(self.body@ =~= Seq::<u8>::empty()); }
            return None;
        }
        let id = read_u16(body, 0);
        let len = body[2] as usize;
        let name = slice_subrange(body, 3, 3 + len);
        self.body = slice_subrange(body, 3 + len, body.len());
        proof { assert(self.body@ =~= body@.skip(3 + len)); }
        Some((id, name))
    }
}

/// How many data bytes follow a change id in a modification record, for the known ids: none
/// for a no-op, unit, position x and y for a move, unit and rotation for a turn, the unit for
/// a death or a despawn.
pub open spec fn change_data_len(kind: u8) -> Option<nat> {
    if kind == 0 {
        Some(0)
    } else if kind == 1 {
        Some(12)
    } else if kind == 2 {
        Some(5)
    } else if kind == 3 || kind == 4 {
        Some(4)
    } else {
        None
    }
}

/// Checking the records of a modifications table, in order: each is a four-byte offset, a
/// known change id and that change's data, and the records fill the table exactly.
pub open spec fn check_mod_records(s: Seq<u8>) -> Result<(), DecodeError>
    decreases s.len(),
{
    if s.len() == 0 {
        Ok(())
    } else if s.len() < 5 {
        Err(DecodeError::UnexpectedEof)
    } else {
        match change_data_len(s[4]) {
            None => Err(DecodeError::InvalidChange(s[4])),
            Some(n) => if s.len() < 5 + n {
                Err(DecodeError::UnexpectedEof)
            } else {
                check_mod_records(s.skip(5 + n as int))
            },
        }
    }
}

/// The change that a record starting at the start of `s` holds; `None` for a no-op.
pub open spec fn change_of_record(s: Seq<u8>) -> Option<ChangeKind> {
    if s[4] == 1 {
        Some(ChangeKind::UnitMoved { unit_id: get_i32(s, 5), x_bits: get_u32(s, 9), y_bits: get_u32(s, 13) })
    } else if s[4] == 2 {
        Some(ChangeKind::UnitRotation { unit_id: get_i32(s, 5), rot: s[9] })
    } else if s[4] == 3 {
        Some(ChangeKind::UnitDead { unit_id: get_i32(s, 5) })
    } else if s[4] == 4 {
        Some(ChangeKind::UnitDespawn { unit_id: get_i32(s, 5) })
    } else {
        None
    }
}

/// The next record of the records in `s`: its offset, its change, and what follows it;
/// `None` where no well-formed record starts `s`.
pub open spec fn mod_record_next(s: Seq<u8>) -> Option<(u32, Option<ChangeKind>, Seq<u8>)> {
    if s.len() < 5 {
        None
    } else {
        match change_data_len(s[4]) {
            None => None,
            Some(n) => if s.len() < 5 + n {
                None
            } else {
                Some((get_u32(s, 0), change_of_record(s), s.skip(5 + n as int)))
            },
        }
    }
}

/// Checks the body of a modifications table.
pub fn validate_mod_body(body: &[u8]) -> (r: Result<(), DecodeError>)
    ensures
        r == check_mod_records(body@),
{
    let ghost s = body@;
    let len = body.len();
    let mut pos: usize = 0;
    proof { assert(s.skip(0) =~= s); }
    while pos < len
        invariant
            s == body@,
            len == s.len(),
            pos <= len,
            check_mod_records(s) == check_mod_records(s.skip(pos as int)),
        decreases len - pos,
    {
        let ghost t = s.skip(pos as int);
        if len - pos < 5 {
            return Err(DecodeError::UnexpectedEof);
        }
        let kind = body[pos + 4];
        assert(kind == t[4]);
        let n: usize = if kind == 0 {
            0
        } else if kind == 1 {
            12
        } else if kind == 2 {
            5
        } else if kind == 3 || kind == 4 {
            4
        } else {
            return Err(DecodeError::InvalidChange(kind));
        };
        if len - pos - 5 < n {
            return Err(DecodeError::UnexpectedEof);
        }
        proof { assert(t.skip(5 + n as int) =~= s.skip(pos + 5 + n)); }
        pos = pos + 5 + n;
    }
    proof { assert(s.skip(pos as int).len() == 0); }
    Ok(())
}

/// A modifications table: records of a change, each stamped with the milliseconds since the
/// table's timestamp.
pub struct ModChunkv1 {
    body: Vec<u8>,
}

impl View for ModChunkv1 {
    type V = Seq<u8>;

    closed spec fn view(&self) -> Seq<u8> {
        self.body@
    }
}

impl ModChunkv1 {
    /// Wraps the (decompressed) body of a MOD chunk.
    pub fn new(body: Vec<u8>) -> (r: Self)
        ensures
            r@ == body@,
    {
        ModChunkv1 { body }
    }

    /// The records of the table.
    pub fn entries(&self) -> (r: ModChunkv1Iter<'_>)
        ensures
            r@ == self@,
    {
        ModChunkv1Iter { body: self.body.as_slice() }
    }
}

/// One record of a modifications table: milliseconds since the table's timestamp, and the
/// change (`None` for a no-op).
#[derive(Clone, Copy, Debug, PartialEq, Eq, Structural)]
pub struct ModEntry {
    pub offset: u32,
    pub change: Option<ChangeKind>,
}

/// Walks over the records of a modifications table.
pub struct ModChunkv1Iter<'a> {
    body: &'a [u8],
}

impl<'a> View for ModChunkv1Iter<'a> {
    type V = Seq<u8>;

    closed spec fn view(&self) -> Seq<u8> {
        self.body@
    }
}

impl<'a> ModChunkv1Iter<'a> {
    /// The next record. Where no well-formed record is left there is none, and nothing is
    /// left after that.
    pub fn next(&mut self) -> (r: Option<ModEntry>)
        ensures
            match mod_record_next(old(self)@) {
                None => r is None && final(self)@ == Seq::<u8>::empty(),
                Some((offset, change, rest)) => r == Some(ModEntry { offset, change })
                    && final(self)@ == rest,
            },
    {
        let body = self.body;
        let len = body.len();
        let ghost s = body@;
        let n: usize = if len < 5 {
            0
        } else if body[4] == 0 {
            0
        } else if body[4] == 1 {
            12
        } else if body[4] == 2 {
            5
        } else if body[4] == 3 || body[4] == 4 {
            4
        } else {
            0
        };
        if len < 5 || body[4] > 4 || len - 5 < n {
            self.body = slice_subrange(body, len, len);
            proof { assert(self.body@ =~= Seq::<u8>::empty()); }
            return None;
        }
        let offset = read_u32(body, 0);
        let change = if body[4] == 1 {
            Some(ChangeKind::UnitMoved {
                unit_id: read_u32(body, 5) as i32,
                x_bits: read_u32(body, 9),
                y_bits: read_u32(body, 13),
            })
        } else if body[4] == 2 {
            Some(ChangeKind::UnitRotation { unit_id: read_u32(body, 5) as i32, rot: body[9] })
        } else if body[4] == 3 {
            Some(ChangeKind::UnitDead { unit_id: read_u32(body, 5) as i32 })
        } else if body[4] == 4 {
            Some(ChangeKind::UnitDespawn { unit_id: read_u32(body, 5) as i32 })
        } else {
            None
        };
        self.body = slice_subrange(body, 5 + n, len);
        proof { assert(self.body@ =~= s.skip(5 + n as int)); }
        Some(ModEntry { offset, change })
    }
}

/// The body of a decoded chunk.
pub enum ChunkBody {
    Mapv1(MapChunkv1),
    Idv1(IdChunkv1),
    Modv1(ModChunkv1),
}

impl ChunkBody {
    /// The kind of chunk that holds such a body.
    pub fn kind(&self) -> (r: ChunkKind)
        ensures
            r == (match self {
                ChunkBody::Mapv1(_) => ChunkKind::MapSnapshot,
                ChunkBody::Idv1(_) => ChunkKind::Id,
                ChunkBody::Modv1(_) => ChunkKind::Mod,
            }),
    {
        match self {
            ChunkBody::Mapv1(_) => ChunkKind::MapSnapshot,
            ChunkBody::Idv1(_) => ChunkKind::Id,
            ChunkBody::Modv1(_) => ChunkKind::Mod,
        }
    }
}

/// A decoded chunk.
pub struct Chunk {
    /// Milliseconds since the start of the recording.
    pub timestamp: u64,
    pub body: ChunkBody,
}

impl Chunk {
    /// The kind of this chunk.
    pub fn kind(&self) -> (r: ChunkKind)
        ensures
            r == (match self.body {
                ChunkBody::Mapv1(_) => ChunkKind::MapSnapshot,
                ChunkBody::Idv1(_) => ChunkKind::Id,
                ChunkBody::Modv1(_) => ChunkKind::Mod,
            }),
    {
        self.body.kind()
    }
}

/// A stack of items, as a building holds it.
#[derive(Clone, Copy, Debug, PartialEq, Eq, Structural)]
pub struct ItemStack {
    pub id: u16,
    pub count: i32,
}

/// What a building holds.
pub trait BuildingAccess {
    fn item_count(&self) -> usize;
    fn item(&self, idx: usize) -> Option<ItemStack>;
}

/// A tile of a world that is being recorded.
pub trait TileAccess {
    type BA<'a>: BuildingAccess + 'a where Self: 'a;

    fn building(&self) -> Option<Self::BA<'_>>;
    fn block(&self) -> u16;
    fn floor(&self) -> u16;
    fn overlay(&self) -> u16;
    fn data_block(&self) -> u8;
    fn data_floor(&self) -> u8;
    fn data_overlay(&self) -> u8;
    fn data_extra(&self) -> u32;
}

/// A world that is being recorded.
pub trait WorldAccess {
    type BA<'a>: BuildingAccess + 'a where Self: 'a;
    type TA<'a>: TileAccess<BA<'a> = Self::BA<'a>> + 'a where Self: 'a;

    fn width(&self) -> u32;
    fn height(&self) -> u32;
    fn tile(&self, x: u32, y: u32) -> Option<Self::TA<'_>>;
}

/// One change recorded into a MOD chunk. Coordinates are carried as the bit patterns of
/// their `f32` values.
#[derive(Clone, Copy, Debug, PartialEq, Eq, Structural)]
pub enum ChangeKind {
    UnitMoved { unit_id: i32, x_bits: u32, y_bits: u32 },
    UnitRotation { unit_id: i32, rot: u8 },
    UnitDead { unit_id: i32 },
    UnitDespawn { unit_id: i32 },
}

} // verus!
