//! Generic IO: an object together with the capabilities that were enabled on it.
use vstd::prelude::*;
use vstd::slice::slice_subrange;
use crate::wire::{le32, le64, lei32, push_all};
use vstd::bytes::{u32_to_le_bytes, u64_to_le_bytes};

verus! {

/// Which kinds of IO a `GenericIo` was made capable of.
#[derive(Clone, Copy, Debug, PartialEq, Eq, Structural)]
pub struct IoCaps {
    pub write: bool,
    pub read: bool,
    pub seek: bool,
    pub async_seek: bool,
    pub async_write: bool,
    pub async_read: bool,
    pub try_clone: bool,
}

/// No capability at all.
pub open spec fn no_caps() -> IoCaps {
    IoCaps {
        write: false,
        read: false,
        seek: false,
        async_seek: false,
        async_write: false,
        async_read: false,
        try_clone: false,
    }
}

/// A generic wrapper over IO operations: the object, and the capabilities that were enabled
/// on it. Only enabled capabilities hand the object out.
pub struct GenericIo<W> {
    obj: W,
    write: bool,
    read: bool,
    seek: bool,
    async_seek: bool,
    async_write: bool,
    async_read: bool,
    try_clone: bool,
}

impl<W> GenericIo<W> {
    /// The wrapped object.
    pub closed spec fn obj(&self) -> W {
        self.obj
    }

    /// The enabled capabilities.
    pub closed spec fn caps(&self) -> IoCaps {
        IoCaps {
            write: self.write,
            read: self.read,
            seek: self.seek,
            async_seek: self.async_seek,
            async_write: self.async_write,
            async_read: self.async_read,
            try_clone: self.try_clone,
        }
    }

    /// Create a new [GenericIo] that doesn't have support for anything.
    pub fn new_empty(obj: W) -> (r: Self)
        ensures
            r.obj() == obj,
            r.caps() == no_caps(),
    {
        GenericIo {
            obj,
            write: false,
            read: false,
            seek: false,
            async_seek: false,
            async_write: false,
            async_read: false,
            try_clone: false,
        }
    }

    /// The object, to write to, if this [GenericIo] was made writeable.
    pub fn writeable(&mut self) -> (r: Option<&mut W>)
        ensures
            r is Some <==> old(self).caps().write,
            final(self).caps() == old(self).caps(),
            r matches Some(o) ==> *o == old(self).obj() && final(self).obj() == *final(o),
            r is None ==> final(self).obj() == old(self).obj(),
    {
        if self.write {
            Some(&mut self.obj)
        } else {
            None
        }
    }

    /// Check if this [GenericIo] is writeable.
    pub fn is_writeable(&self) -> (r: bool)
        ensures
            r == self.caps().write,
    {
        self.write
    }

    /// The object, to read from, if this [GenericIo] was made readable.
    pub fn readable(&mut self) -> (r: Option<&mut W>)
        ensures
            r is Some <==> old(self).caps().read,
            final(self).caps() == old(self).caps(),
            r matches Some(o) ==> *o == old(self).obj() && final(self).obj() == *final(o),
            r is None ==> final(self).obj() == old(self).obj(),
    {
        if self.read {
            Some(&mut self.obj)
        } else {
            None
        }
    }

    /// Check if this [GenericIo] is readable.
    pub fn is_readable(&self) -> (r: bool)
        ensures
            r == self.caps().read,
    {
        self.read
    }

    /// The object, to seek in, if this [GenericIo] was made seekable.
    pub fn seekable(&mut self) -> (r: Option<&mut W>)
        ensures
            r is Some <==> old(self).caps().seek,
            final(self).caps() == old(self).caps(),
            r matches Some(o) ==> *o == old(self).obj() && final(self).obj() == *final(o),
            r is None ==> final(self).obj() == old(self).obj(),
    {
        if self.seek {
            Some(&mut self.obj)
        } else {
            None
        }
    }

    /// Check if this [GenericIo] is seekable.
    pub fn is_seekable(&self) -> (r: bool)
        ensures
            r == self.caps().seek,
    {
        self.seek
    }

    /// The object, to seek in asynchronously, if this [GenericIo] was made async-seekable.
    pub fn async_seekable(&mut self) -> (r: Option<&mut W>)
        ensures
            r is Some <==> old(self).caps().async_seek,
            final(self).caps() == old(self).caps(),
            r matches Some(o) ==> *o == old(self).obj() && final(self).obj() == *final(o),
            r is None ==> final(self).obj() == old(self).obj(),
    {
        if self.async_seek {
            Some(&mut self.obj)
        } else {
            None
        }
    }

    /// Check if this [GenericIo] is async-seekable.
    pub fn is_async_seekable(&self) -> (r: bool)
        ensures
            r == self.caps().async_seek,
    {
        self.async_seek
    }

    /// The object, to write to asynchronously, if this [GenericIo] was made async-writeable.
    pub fn async_writeable(&mut self) -> (r: Option<&mut W>)
        ensures
            r is Some <==> old(self).caps().async_write,
            final(self).caps() == old(self).caps(),
            r matches Some(o) ==> *o == old(self).obj() && final(self).obj() == *final(o),
            r is None ==> final(self).obj() == old(self).obj(),
    {
        if self.async_write {
            Some(&mut self.obj)
        } else {
            None
        }
    }

    /// Check if this [GenericIo] is async-writeable.
    pub fn is_async_writeable(&self) -> (r: bool)
        ensures
            r == self.caps().async_write,
    {
        self.async_write
    }

    /// The object, to read from asynchronously, if this [GenericIo] was made async-readable.
    pub fn async_readable(&mut self) -> (r: Option<&mut W>)
        ensures
            r is Some <==> old(self).caps().async_read,
            final(self).caps() == old(self).caps(),
            r matches Some(o) ==> *o == old(self).obj() && final(self).obj() == *final(o),
            r is None ==> final(self).obj() == old(self).obj(),
    {
        if self.async_read {
            Some(&mut self.obj)
        } else {
            None
        }
    }

    /// Check if this [GenericIo] is async-readable.
    pub fn is_async_readable(&self) -> (r: bool)
        ensures
            r == self.caps().async_read,
    {
        self.async_read
    }

    /// Try to clone this [GenericIo], cloning the object with `clone`.
    ///
    /// `None` unless it was made try-cloneable; a clone keeps every capability.
    pub fn try_clone<E, F: FnOnce(&W) -> Result<W, E>>(&self, clone: F) -> (r: Option<Result<GenericIo<W>, E>>)
        requires
            self.caps().try_clone ==> clone.requires((&self.obj(),)),
        ensures
            r is Some <==> self.caps().try_clone,
            r matches Some(res) ==> (exists|out: Result<W, E>| clone.ensures((&self.obj(),), out) && match out {
                Ok(o) => res matches Ok(g) && g.obj() == o && g.caps() == self.caps(),
                Err(e) => res matches Err(e2) && e2 == e,
            }),
    {
        if self.try_clone {
            let out = clone(&self.obj);
            match out {
                Ok(obj) => Some(Ok(GenericIo {
                    obj,
                    write: self.write,
                    read: self.read,
                    seek: self.seek,
                    async_seek: self.async_seek,
                    async_write: self.async_write,
                    async_read: self.async_read,
                    try_clone: self.try_clone,
                })),
                Err(e) => Some(Err(e)),
            }
        } else {
            None
        }
    }

    /// Check if this [GenericIo] can be cloned.
    pub fn can_try_clone(&self) -> (r: bool)
        ensures
            r == self.caps().try_clone,
    {
        self.try_clone
    }

    /// Make this [GenericIo] readable. Calling it again changes nothing.
    pub fn make_readable(&mut self)
        ensures
            final(self).caps() == (IoCaps { read: true, ..old(self).caps() }),
            final(self).obj() == old(self).obj(),
    {
        self.read = true;
    }

    /// Make this [GenericIo] readable, taking it by value.
    pub fn make_into_readable(self) -> (r: Self)
        ensures
            r.caps() == (IoCaps { read: true, ..self.caps() }),
            r.obj() == self.obj(),
    {
        let mut io = self;
        io.make_readable();
        io
    }

    /// Make this [GenericIo] writeable. Calling it again changes nothing.
    pub fn make_writeable(&mut self)
        ensures
            final(self).caps() == (IoCaps { write: true, ..old(self).caps() }),
            final(self).obj() == old(self).obj(),
    {
        self.write = true;
    }

    /// Make this [GenericIo] writeable, taking it by value.
    pub fn make_into_writeable(self) -> (r: Self)
        ensures
            r.caps() == (IoCaps { write: true, ..self.caps() }),
            r.obj() == self.obj(),
    {
        let mut io = self;
        io.make_writeable();
        io
    }

    /// Make this [GenericIo] seekable. Calling it again changes nothing.
    pub fn make_seekable(&mut self)
        ensures
            final(self).caps() == (IoCaps { seek: true, ..old(self).caps() }),
            final(self).obj() == old(self).obj(),
    {
        self.seek = true;
    }

    /// Make this [GenericIo] seekable, taking it by value.
    pub fn make_into_seekable(self) -> (r: Self)
        ensures
            r.caps() == (IoCaps { seek: true, ..self.caps() }),
            r.obj() == self.obj(),
    {
        let mut io = self;
        io.make_seekable();
        io
    }

    /// Make this [GenericIo] async-seekable. Calling it again changes nothing.
    pub fn make_async_seekable(&mut self)
        ensures
            final(self).caps() == (IoCaps { async_seek: true, ..old(self).caps() }),
            final(self).obj() == old(self).obj(),
    {
        self.async_seek = true;
    }

    /// Make this [GenericIo] async-seekable, taking it by value.
    pub fn make_into_async_seekable(self) -> (r: Self)
        ensures
            r.caps() == (IoCaps { async_seek: true, ..self.caps() }),
            r.obj() == self.obj(),
    {
        let mut io = self;
        io.make_async_seekable();
        io
    }

    /// Make this [GenericIo] async-writeable. Calling it again changes nothing.
    pub fn make_async_writeable(&mut self)
        ensures
            final(self).caps() == (IoCaps { async_write: true, ..old(self).caps() }),
            final(self).obj() == old(self).obj(),
    {
        self.async_write = true;
    }

    /// Make this [GenericIo] async-writeable, taking it by value.
    pub fn make_into_async_writeable(self) -> (r: Self)
        ensures
            r.caps() == (IoCaps { async_write: true, ..self.caps() }),
            r.obj() == self.obj(),
    {
        let mut io = self;
        io.make_async_writeable();
        io
    }

    /// Make this [GenericIo] async-readable. Calling it again changes nothing.
    pub fn make_async_readable(&mut self)
        ensures
            final(self).caps() == (IoCaps { async_read: true, ..old(self).caps() }),
            final(self).obj() == old(self).obj(),
    {
        self.async_read = true;
    }

    /// Make this [GenericIo] async-readable, taking it by value.
    pub fn make_into_async_readable(self) -> (r: Self)
        ensures
            r.caps() == (IoCaps { async_read: true, ..self.caps() }),
            r.obj() == self.obj(),
    {
        let mut io = self;
        io.make_async_readable();
        io
    }

    /// Make this [GenericIo] try-cloneable. Calling it again changes nothing.
    pub fn make_try_cloneable(&mut self)
        ensures
            final(self).caps() == (IoCaps { try_clone: true, ..old(self).caps() }),
            final(self).obj() == old(self).obj(),
    {
        self.try_clone = true;
    }

    /// Make this [GenericIo] try-cloneable, taking it by value.
    pub fn make_into_try_cloneable(self) -> (r: Self)
        ensures
            r.caps() == (IoCaps { try_clone: true, ..self.caps() }),
            r.obj() == self.obj(),
    {
        let mut io = self;
        io.make_try_cloneable();
        io
    }
}

/// Why a fixed-size buffer could not take what was written to it.
#[derive(Clone, Copy, Debug, PartialEq, Eq, Structural)]
pub enum FillError {
    /// The buffer is full; the write stopped after the bytes that fit.
    WriteZero,
    /// The buffer was finalized before it was full.
    Unfilled,
}

/// Write exactly `LEN` bytes into a buffer, then take the buffer out.
pub struct WriteExactly<const LEN: usize> {
    buf: Vec<u8>,
}

impl<const LEN: usize> View for WriteExactly<LEN> {
    type V = Seq<u8>;

    closed spec fn view(&self) -> Seq<u8> {
        self.buf@
    }
}

/// What writing `data` into a buffer of capacity `cap` that holds `held` leaves in it, and
/// whether all of `data` fit.
pub open spec fn fill(held: Seq<u8>, cap: nat, data: Seq<u8>) -> (Seq<u8>, bool) {
    if held.len() + data.len() <= cap {
        (held + data, true)
    } else {
        (held + data.subrange(0, cap - held.len()), false)
    }
}

impl<const LEN: usize> WriteExactly<LEN> {
    /// Whether the buffer holds at most `LEN` bytes.
    pub closed spec fn wf(&self) -> bool {
        self.buf@.len() <= LEN
    }

    /// Create a new, empty [WriteExactly].
    pub fn new() -> (r: Self)
        ensures
            r@ == Seq::<u8>::empty(),
            r.wf(),
    {
        WriteExactly { buf: Vec::new() }
    }

    /// Writes as many bytes of `data` as fit; returns how many.
    pub fn write(&mut self, data: &[u8]) -> (r: usize)
        requires
            old(self).wf(),
        ensures
            final(self).wf(),
            r == fill(old(self)@, LEN as nat, data@).0.len() - old(self)@.len(),
            final(self)@ == fill(old(self)@, LEN as nat, data@).0,
    {
        let room = LEN - self.buf.len();
        let n = if data.len() <= room { data.len() } else { room };
        let part = slice_subrange(data, 0, n);
        push_all(&mut self.buf, part);
        proof {
            if data@.len() <= room {
                assert(data@.subrange(0, n as int) =~= data@);
            }
        }
        n
    }

    /// Writes all of `data`; fails with `WriteZero` when it does not fit, after writing what fits.
    pub fn write_all(&mut self, data: &[u8]) -> (r: Result<(), FillError>)
        requires
            old(self).wf(),
        ensures
            final(self).wf(),
            final(self)@ == fill(old(self)@, LEN as nat, data@).0,
            r is Ok <==> fill(old(self)@, LEN as nat, data@).1,
            r is Err ==> r == Err::<(), FillError>(FillError::WriteZero),
    {
        let n = self.write(data);
        if n < data.len() {
            Err(FillError::WriteZero)
        } else {
            Ok(())
        }
    }

    /// Writes one byte.
    pub fn write_u8(&mut self, x: u8) -> (r: Result<(), FillError>)
        requires
            old(self).wf(),
        ensures
            final(self).wf(),
            final(self)@ == fill(old(self)@, LEN as nat, seq![x]).0,
            r is Ok <==> fill(old(self)@, LEN as nat, seq![x]).1,
    {
        let b: [u8; 1] = [x];
        proof { assert(b@ =~= seq![x]); }
        self.write_all(&b)
    }

    /// Writes a `u32`, little-endian.
    pub fn write_u32_le(&mut self, x: u32) -> (r: Result<(), FillError>)
        requires
            old(self).wf(),
        ensures
            final(self).wf(),
            final(self)@ == fill(old(self)@, LEN as nat, le32(x)).0,
            r is Ok <==> fill(old(self)@, LEN as nat, le32(x)).1,
    {
        let b = u32_to_le_bytes(x);
        self.write_all(b.as_slice())
    }

    /// Writes an `i32`, little-endian.
    pub fn write_i32_le(&mut self, x: i32) -> (r: Result<(), FillError>)
        requires
            old(self).wf(),
        ensures
            final(self).wf(),
            final(self)@ == fill(old(self)@, LEN as nat, lei32(x)).0,
            r is Ok <==> fill(old(self)@, LEN as nat, lei32(x)).1,
    {
        let b = u32_to_le_bytes(x as u32);
        self.write_all(b.as_slice())
    }

    /// Writes a `u64`, little-endian.
    pub fn write_u64_le(&mut self, x: u64) -> (r: Result<(), FillError>)
        requires
            old(self).wf(),
        ensures
            final(self).wf(),
            final(self)@ == fill(old(self)@, LEN as nat, le64(x)).0,
            r is Ok <==> fill(old(self)@, LEN as nat, le64(x)).1,
    {
        let b = u64_to_le_bytes(x);
        self.write_all(b.as_slice())
    }

    /// The `LEN` bytes written; fails with `Unfilled` if fewer were written.
    pub fn finalize(self) -> (r: Result<Vec<u8>, FillError>)
        ensures
            self@.len() == LEN ==> (r matches Ok(v) && v@ == self@),
            self@.len() != LEN ==> r == Err::<Vec<u8>, FillError>(FillError::Unfilled),
    {
        if self.buf.len() != LEN {
            return Err(FillError::Unfilled);
        }
        Ok(self.buf)
    }
}

} // verus!
