//! I/O layer: a cursor over an in-memory byte buffer that the demuxers read
//! from and the muxers write into.
//!
//! Reads take bytes at the cursor and advance it; a read that runs past the
//! end fails with `Eof` after consuming what was left. Writes overwrite the
//! bytes at the cursor and extend the buffer past its end. Seeking may place
//! the cursor beyond the end of the data.

use vstd::prelude::*;
use crate::error::{TaoError, TaoResult, io_error};
use crate::endian::{
    le16, be16, be24, le32, be32, u16_from_le, u16_from_be, u24_from_be, u32_from_le, u32_from_be,
    i16_of, i32_of, u16_to_le, u16_to_be, u32_to_le, u32_to_be, u64_to_be, le16_bytes, be16_bytes,
    le32_bytes, be32_bytes, be64_bytes,
};

verus! {

/// Where a seek is measured from.
#[derive(Debug, Clone, Copy, PartialEq, Eq)]
pub enum SeekFrom {
    /// Offset from the start of the data.
    Start(u64),
    /// Offset from the end of the data.
    End(i64),
    /// Offset from the current position.
    Current(i64),
}

/// Memory buffer backend: the data and a cursor into it.
pub struct MemoryBackend {
    data: Vec<u8>,
    pos: usize,
}

/// Contents of a buffer after writing `b` at cursor `p`: the bytes under the
/// written range are replaced, and the buffer grows where the write passes its
/// end. A cursor past the end appends at the end.
pub open spec fn written(d: Seq<u8>, p: nat, b: Seq<u8>) -> Seq<u8> {
    if p >= d.len() {
        d + b
    } else if p + b.len() < d.len() {
        d.subrange(0, p as int) + b + d.subrange((p + b.len()) as int, d.len() as int)
    } else {
        d.subrange(0, p as int) + b
    }
}

/// The `n` bytes of `d` starting at `p`.
pub open spec fn bytes_at(d: Seq<u8>, p: nat, n: nat) -> Seq<u8> {
    Seq::new(n, |k: int| d[p + k])
}

/// Two writes in a row, the second where the first ended, write the two
/// byte strings one after the other.
pub proof fn lemma_written_concat(d: Seq<u8>, p: nat, a: Seq<u8>, b: Seq<u8>)
    ensures
        written(written(d, p, a), p + a.len(), b) == written(d, p, a + b),
{
    let w1 = written(d, p, a);
    if p >= d.len() {
        assert(w1 =~= d + a);
        assert(written(w1, p + a.len(), b) =~= d + a + b);
        assert(d + a + b =~= d + (a + b));
    } else {
        assert(w1.len() >= p + a.len());
        assert(w1.subrange(0, (p + a.len()) as int) =~= d.subrange(0, p as int) + a);
        if p + a.len() + b.len() < d.len() {
            assert(written(w1, p + a.len(), b) =~= written(d, p, a + b));
        } else if p + a.len() < d.len() {
            assert(written(w1, p + a.len(), b) =~= written(d, p, a + b));
        } else {
            assert(written(w1, p + a.len(), b) =~= written(d, p, a + b));
        }
    }
}

/// The bytes at `p` are a subrange when they lie inside the data.
pub proof fn lemma_bytes_at_subrange(d: Seq<u8>, p: nat, n: nat)
    requires
        p + n <= d.len(),
    ensures
        bytes_at(d, p, n) == d.subrange(p as int, (p + n) as int),
{
    assert(bytes_at(d, p, n) =~= d.subrange(p as int, (p + n) as int));
}

/// Whether a read of `n` bytes at cursor `p` succeeds.
pub open spec fn readable(d: Seq<u8>, p: nat, n: nat) -> bool {
    n == 0 || p + n <= d.len()
}

/// Cursor after a read that ran out of data.
pub open spec fn exhausted_cursor(d: Seq<u8>, p: nat) -> nat {
    if p >= d.len() {
        p
    } else {
        d.len()
    }
}

/// Position a seek asks for, before it is checked for being negative.
pub open spec fn seek_target(d: Seq<u8>, p: nat, from: SeekFrom) -> int {
    match from {
        SeekFrom::Start(o) => if o <= i64::MAX { o as int } else { o - 0x1_0000_0000_0000_0000 },
        SeekFrom::End(o) => d.len() + o,
        SeekFrom::Current(o) => p + o,
    }
}

impl Default for MemoryBackend {
    /// An empty backend, as `new` gives.
    fn default() -> (r: Self)
        ensures
            r.contents() == Seq::<u8>::empty(),
            r.cursor() == 0,
    {
        MemoryBackend::new()
    }
}

impl MemoryBackend {
    /// The bytes held.
    pub closed spec fn contents(&self) -> Seq<u8> {
        self.data@
    }

    /// The cursor.
    pub closed spec fn cursor(&self) -> nat {
        self.pos as nat
    }

    /// Creates a backend over existing data, for reading.
    pub fn from_data(data: Vec<u8>) -> (r: Self)
        ensures
            r.contents() == data@,
            r.cursor() == 0,
    {
        MemoryBackend { data, pos: 0 }
    }

    /// Creates an empty backend, for writing.
    pub fn new() -> (r: Self)
        ensures
            r.contents() == Seq::<u8>::empty(),
            r.cursor() == 0,
    {
        MemoryBackend { data: Vec::new(), pos: 0 }
    }

    /// The bytes held.
    pub fn data(&self) -> (r: &[u8])
        ensures
            r@ == self.contents(),
    {
        self.data.as_slice()
    }

    /// Consumes the backend and returns its bytes.
    pub fn into_data(self) -> (r: Vec<u8>)
        ensures
            r@ == self.contents(),
    {
        self.data
    }

    /// Copies up to `buf.len()` bytes at the cursor into `buf`; returns the count.
    fn read_into(&mut self, buf: &mut [u8]) -> (n: usize)
        ensures
            final(self).contents() == old(self).contents(),
            n == (if old(self).cursor() >= old(self).contents().len() {
                0
            } else if old(self).cursor() + old(buf)@.len() <= old(self).contents().len() {
                old(buf)@.len() as int
            } else {
                old(self).contents().len() - old(self).cursor()
            }),
            final(self).cursor() == old(self).cursor() + n,
            final(buf)@.len() == old(buf)@.len(),
            final(buf)@.subrange(0, n as int) == bytes_at(old(self).contents(), old(self).cursor(), n as nat),
            final(buf)@.subrange(n as int, old(buf)@.len() as int) == old(buf)@.subrange(
                n as int,
                old(buf)@.len() as int,
            ),
    {
        let available = if self.pos >= self.data.len() {
            0
        } else {
            self.data.len() - self.pos
        };
        let to_read = if buf.len() < available {
            buf.len()
        } else {
            available
        };
        let mut i: usize = 0;
        while i < to_read
            invariant
                i <= to_read,
                to_read <= buf.len(),
                to_read > 0 ==> self.pos + to_read <= self.data@.len(),
                self.data@ == old(self).data@,
                self.pos == old(self).pos,
                self.data@.len() <= usize::MAX,
                buf@.len() == old(buf)@.len(),
                forall|k: int| 0 <= k < i ==> buf@[k] == self.data@[self.pos + k],
                forall|k: int| i <= k < buf@.len() ==> buf@[k] == old(buf)@[k],
            decreases to_read - i,
        {
            buf[i] = self.data[self.pos + i];
            i = i + 1;
        }
        self.pos = self.pos + to_read;
        assert(buf@.subrange(0, to_read as int) =~= bytes_at(old(self).data@, old(self).pos as nat, to_read as nat));
        assert(buf@.subrange(to_read as int, buf@.len() as int) =~= old(buf)@.subrange(
            to_read as int,
            old(buf)@.len() as int,
        ));
        to_read
    }

    /// Writes all of `buf` at the cursor and advances it.
    fn write_bytes(&mut self, buf: &[u8])
        requires
            old(self).cursor() + buf@.len() <= usize::MAX,
            old(self).contents().len() + buf@.len() <= usize::MAX,
        ensures
            final(self).contents() == written(old(self).contents(), old(self).cursor(), buf@),
            final(self).cursor() == old(self).cursor() + buf@.len(),
    {
        if self.pos >= self.data.len() {
            let mut i: usize = 0;
            while i < buf.len()
                invariant
                    i <= buf@.len(),
                    self.pos == old(self).pos,
                    old(self).data@.len() + buf@.len() <= usize::MAX,
                    self.data@ == old(self).data@ + buf@.subrange(0, i as int),
                decreases buf.len() - i,
            {
                self.data.push(buf[i]);
                i = i + 1;
                assert(self.data@ =~= old(self).data@ + buf@.subrange(0, i as int));
            }
            assert(buf@.subrange(0, buf@.len() as int) =~= buf@);
        } else {
            let len = self.data.len();
            let mut i: usize = 0;
            while i < buf.len()
                invariant
                    i <= buf@.len(),
                    self.pos == old(self).pos,
                    self.pos < len,
                    len == old(self).data@.len(),
                    old(self).data@.len() + buf@.len() <= usize::MAX,
                    self.pos + buf@.len() <= usize::MAX,
                    self.data@ == written(old(self).data@, self.pos as nat, buf@.subrange(0, i as int)),
                decreases buf.len() - i,
            {
                let ghost before = self.data@;
                let at = self.pos + i;
                if at < self.data.len() {
                    self.data.set(at, buf[i]);
                } else {
                    self.data.push(buf[i]);
                }
                i = i + 1;
                assert(self.data@ =~= written(old(self).data@, self.pos as nat, buf@.subrange(0, i as int)));
            }
            assert(buf@.subrange(0, buf@.len() as int) =~= buf@);
        }
        self.pos = self.pos + buf.len();
    }
}

/// A source and sink of bytes with a cursor, as an I/O context uses it.
/// Its state is a byte string and a cursor into it (or past it).
pub trait IoBackend {
    /// The bytes held.
    spec fn held(&self) -> Seq<u8>;

    /// The cursor.
    spec fn at(&self) -> nat;

    /// Reads at most `buf.len()` bytes at the cursor into the front of
    /// `buf`, and moves the cursor past them; 0 at the end.
    fn read(&mut self, buf: &mut [u8]) -> (r: TaoResult<usize>)
        ensures
            final(self).held() == old(self).held(),
            r matches Ok(n) ==> n <= old(buf)@.len() && final(self).at() == old(self).at() + n
                && final(buf)@.len() == old(buf)@.len()
                && final(buf)@.subrange(0, n as int) == bytes_at(old(self).held(), old(self).at(), n as nat)
                && (n > 0 ==> old(self).at() + n <= old(self).held().len()),
    ;

    /// Writes `buf` at the cursor; returns how many bytes were written.
    fn write(&mut self, buf: &[u8]) -> (r: TaoResult<usize>)
        requires
            old(self).at() + buf@.len() <= usize::MAX,
            old(self).held().len() + buf@.len() <= usize::MAX,
        ensures
            r matches Ok(n) ==> n <= buf@.len() && final(self).held() == written(
                old(self).held(),
                old(self).at(),
                buf@.subrange(0, n as int),
            ) && final(self).at() == old(self).at() + n,
    ;

    /// Writes all of `buf` at the cursor.
    fn write_all(&mut self, buf: &[u8]) -> (r: TaoResult<()>)
        requires
            old(self).at() + buf@.len() <= usize::MAX,
            old(self).held().len() + buf@.len() <= usize::MAX,
        ensures
            r is Ok ==> final(self).held() == written(old(self).held(), old(self).at(), buf@) && final(self).at()
                == old(self).at() + buf@.len(),
    ;

    /// Moves the cursor; returns the new position. A position before the
    /// start is an error.
    fn seek(&mut self, pos: SeekFrom) -> (r: TaoResult<u64>)
        requires
            old(self).held().len() <= i64::MAX,
            old(self).at() <= i64::MAX,
            i64::MIN <= seek_target(old(self).held(), old(self).at(), pos) <= i64::MAX,
            seek_target(old(self).held(), old(self).at(), pos) <= usize::MAX,
        ensures
            final(self).held() == old(self).held(),
            r matches Ok(q) ==> q == final(self).at() && final(self).at() == seek_target(
                old(self).held(),
                old(self).at(),
                pos,
            ),
            seek_target(old(self).held(), old(self).at(), pos) < 0 ==> r is Err,
    ;

    /// The cursor.
    fn position(&mut self) -> (r: TaoResult<u64>)
        ensures
            final(self).held() == old(self).held(),
            final(self).at() == old(self).at(),
            r matches Ok(q) ==> q == old(self).at(),
    ;

    /// The total size, when known.
    fn size(&self) -> (r: Option<u64>)
        ensures
            r matches Some(n) ==> n == self.held().len(),
    ;

    /// Whether the cursor can be moved backwards.
    fn is_seekable(&self) -> bool;
}

impl IoBackend for MemoryBackend {
    open spec fn held(&self) -> Seq<u8> {
        self.contents()
    }

    open spec fn at(&self) -> nat {
        self.cursor()
    }

    /// Copies what is left, up to `buf.len()` bytes; `Ok(0)` once the
    /// cursor is at or past the end.
    fn read(&mut self, buf: &mut [u8]) -> (r: TaoResult<usize>)
        ensures
            r == Ok::<usize, TaoError>(
                if old(self).cursor() >= old(self).contents().len() {
                    0
                } else if old(self).cursor() + old(buf)@.len() <= old(self).contents().len() {
                    old(buf)@.len() as usize
                } else {
                    (old(self).contents().len() - old(self).cursor()) as usize
                },
            ),
    {
        Ok(self.read_into(buf))
    }

    /// Writes all of `buf`.
    fn write(&mut self, buf: &[u8]) -> (r: TaoResult<usize>)
        ensures
            r == Ok::<usize, TaoError>(buf@.len() as usize),
    {
        self.write_bytes(buf);
        assert(buf@.subrange(0, buf@.len() as int) =~= buf@);
        Ok(buf.len())
    }

    fn write_all(&mut self, buf: &[u8]) -> (r: TaoResult<()>)
        ensures
            r is Ok,
    {
        self.write_bytes(buf);
        Ok(())
    }

    /// A position before the start is refused with an `Io` error and
    /// leaves the cursor where it was.
    fn seek(&mut self, pos: SeekFrom) -> (r: TaoResult<u64>)
        ensures
            seek_target(old(self).contents(), old(self).cursor(), pos) < 0 ==> (r matches Err(e) && e is Io
                && final(self).cursor() == old(self).cursor()),
            seek_target(old(self).contents(), old(self).cursor(), pos) >= 0 ==> r is Ok,
    {
        let new_pos: i64 = match pos {
            SeekFrom::Start(o) => #[verifier::truncate] (o as i64),
            SeekFrom::End(o) => self.data.len() as i64 + o,
            SeekFrom::Current(o) => self.pos as i64 + o,
        };
        proof {
            match pos {
                SeekFrom::Start(o) => {
                    assert(o as i64 == (if o <= i64::MAX { o as int } else { o
                        - 0x1_0000_0000_0000_0000 })) by (bit_vector);
                },
                _ => {},
            }
        }
        if new_pos < 0 {
            return Err(io_error("seek position is negative"));
        }
        self.pos = new_pos as usize;
        Ok(self.pos as u64)
    }

    fn position(&mut self) -> (r: TaoResult<u64>)
        ensures
            r is Ok,
    {
        Ok(self.pos as u64)
    }

    /// Always known: the length of the bytes held.
    fn size(&self) -> (r: Option<u64>)
        ensures
            r is Some,
    {
        Some(self.data.len() as u64)
    }

    /// A memory buffer always is.
    fn is_seekable(&self) -> (r: bool)
        ensures
            r,
    {
        true
    }
}

/// I/O context: the cursor through which demuxers read and muxers write.
pub struct IoContext {
    inner: MemoryBackend,
}

impl IoContext {
    /// The bytes of the underlying buffer.
    pub closed spec fn contents(&self) -> Seq<u8> {
        self.inner.contents()
    }

    /// The current position.
    pub closed spec fn cursor(&self) -> nat {
        self.inner.cursor()
    }

    /// Whether `n` bytes can be read at the current position.
    pub open spec fn can_read(&self, n: nat) -> bool {
        readable(self.contents(), self.cursor(), n)
    }

    /// Byte `k` after the cursor.
    pub open spec fn ahead(&self, k: int) -> u8 {
        self.contents()[self.cursor() + k]
    }

    /// Common postcondition of a read of `n` bytes that yields `ok`.
    pub open spec fn read_post(old_io: IoContext, new_io: IoContext, n: nat, ok: bool) -> bool {
        &&& new_io.contents() == old_io.contents()
        &&& ok == old_io.can_read(n)
        &&& ok ==> new_io.cursor() == old_io.cursor() + n
        &&& !ok ==> new_io.cursor() == exhausted_cursor(old_io.contents(), old_io.cursor())
    }

    /// Creates a context over a memory backend.
    pub fn new(backend: MemoryBackend) -> (r: Self)
        ensures
            r.contents() == backend.contents(),
            r.cursor() == backend.cursor(),
    {
        IoContext { inner: backend }
    }

    /// Returns the backend, with its data and cursor.
    pub fn into_backend(self) -> (r: MemoryBackend)
        ensures
            r.contents() == self.contents(),
            r.cursor() == self.cursor(),
    {
        self.inner
    }

    /// The bytes of the underlying buffer.
    pub fn data(&self) -> (r: &[u8])
        ensures
            r@ == self.contents(),
    {
        self.inner.data()
    }

    /// Fills `buf` with the next `buf.len()` bytes. When fewer remain, the
    /// remaining bytes are copied to the front of `buf` and `Eof` is returned.
    pub fn read_exact(&mut self, buf: &mut [u8]) -> (r: TaoResult<()>)
        ensures
            Self::read_post(*old(self), *final(self), old(buf)@.len(), r is Ok),
            r is Err ==> r == Err::<(), TaoError>(TaoError::Eof),
            final(buf)@.len() == old(buf)@.len(),
            r is Ok ==> final(buf)@ == bytes_at(old(self).contents(), old(self).cursor(), old(buf)@.len()),
            r is Err ==> ({
                let rest: nat = if old(self).cursor() >= old(self).contents().len() {
                    0
                } else {
                    (old(self).contents().len() - old(self).cursor()) as nat
                };
                &&& final(buf)@.subrange(0, rest as int) == bytes_at(old(self).contents(), old(self).cursor(), rest)
                &&& final(buf)@.subrange(rest as int, old(buf)@.len() as int) == old(buf)@.subrange(
                    rest as int,
                    old(buf)@.len() as int,
                )
            }),
    {
        let n = self.inner.read_into(buf);
        if n < buf.len() {
            Err(TaoError::Eof)
        } else {
            assert(buf@.subrange(0, n as int) =~= buf@);
            Ok(())
        }
    }

    /// Reads `count` bytes.
    pub fn read_bytes(&mut self, count: usize) -> (r: TaoResult<Vec<u8>>)
        ensures
            Self::read_post(*old(self), *final(self), count as nat, r is Ok),
            r is Err ==> r == Err::<Vec<u8>, TaoError>(TaoError::Eof),
            r matches Ok(v) ==> v@ == bytes_at(old(self).contents(), old(self).cursor(), count as nat),
    {
        let len = self.inner.data.len();
        let pos = self.inner.pos;
        if count > 0 && (pos >= len || count > len - pos) {
            if pos < len {
                self.inner.pos = len;
            }
            return Err(TaoError::Eof);
        }
        let mut buf: Vec<u8> = Vec::new();
        let mut i: usize = 0;
        while i < count
            invariant
                i <= count,
                buf@.len() == i,
                forall|k: int| 0 <= k < i ==> buf@[k] == 0u8,
            decreases count - i,
        {
            buf.push(0u8);
            i = i + 1;
        }
        let r = self.read_exact(buf.as_mut_slice());
        match r {
            Ok(()) => Ok(buf),
            Err(e) => Err(e),
        }
    }

    /// Reads one byte.
    pub fn read_u8(&mut self) -> (r: TaoResult<u8>)
        ensures
            Self::read_post(*old(self), *final(self), 1, r is Ok),
            r is Err ==> r == Err::<u8, TaoError>(TaoError::Eof),
            r matches Ok(v) ==> v == old(self).ahead(0),
    {
        let v = self.read_bytes(1)?;
        Ok(v[0])
    }

    /// Reads a little-endian `u16`.
    pub fn read_u16_le(&mut self) -> (r: TaoResult<u16>)
        ensures
            Self::read_post(*old(self), *final(self), 2, r is Ok),
            r is Err ==> r == Err::<u16, TaoError>(TaoError::Eof),
            r matches Ok(v) ==> v == le16(old(self).ahead(0), old(self).ahead(1)),
    {
        let v = self.read_bytes(2)?;
        Ok(u16_from_le(v[0], v[1]))
    }

    /// Reads a little-endian `u32`.
    pub fn read_u32_le(&mut self) -> (r: TaoResult<u32>)
        ensures
            Self::read_post(*old(self), *final(self), 4, r is Ok),
            r is Err ==> r == Err::<u32, TaoError>(TaoError::Eof),
            r matches Ok(v) ==> v == le32(
                old(self).ahead(0),
                old(self).ahead(1),
                old(self).ahead(2),
                old(self).ahead(3),
            ),
    {
        let v = self.read_bytes(4)?;
        Ok(u32_from_le(v[0], v[1], v[2], v[3]))
    }

    /// Reads a little-endian `i32`.
    pub fn read_i32_le(&mut self) -> (r: TaoResult<i32>)
        ensures
            Self::read_post(*old(self), *final(self), 4, r is Ok),
            r is Err ==> r == Err::<i32, TaoError>(TaoError::Eof),
            r matches Ok(v) ==> v == ({
                let u = le32(
                    old(self).ahead(0),
                    old(self).ahead(1),
                    old(self).ahead(2),
                    old(self).ahead(3),
                );
                if u >= 0x8000_0000 { u - 0x1_0000_0000 } else { u }
            }),
    {
        let u = self.read_u32_le()?;
        Ok(i32_of(u))
    }

    /// Reads a big-endian `u16`.
    pub fn read_u16_be(&mut self) -> (r: TaoResult<u16>)
        ensures
            Self::read_post(*old(self), *final(self), 2, r is Ok),
            r is Err ==> r == Err::<u16, TaoError>(TaoError::Eof),
            r matches Ok(v) ==> v == be16(old(self).ahead(0), old(self).ahead(1)),
    {
        let v = self.read_bytes(2)?;
        Ok(u16_from_be(v[0], v[1]))
    }

    /// Reads a big-endian 3-byte unsigned integer.
    pub fn read_u24_be(&mut self) -> (r: TaoResult<u32>)
        ensures
            Self::read_post(*old(self), *final(self), 3, r is Ok),
            r is Err ==> r == Err::<u32, TaoError>(TaoError::Eof),
            r matches Ok(v) ==> v == be24(old(self).ahead(0), old(self).ahead(1), old(self).ahead(2)),
    {
        let v = self.read_bytes(3)?;
        Ok(u24_from_be(v[0], v[1], v[2]))
    }

    /// Reads a big-endian `u32`.
    pub fn read_u32_be(&mut self) -> (r: TaoResult<u32>)
        ensures
            Self::read_post(*old(self), *final(self), 4, r is Ok),
            r is Err ==> r == Err::<u32, TaoError>(TaoError::Eof),
            r matches Ok(v) ==> v == be32(
                old(self).ahead(0),
                old(self).ahead(1),
                old(self).ahead(2),
                old(self).ahead(3),
            ),
    {
        let v = self.read_bytes(4)?;
        Ok(u32_from_be(v[0], v[1], v[2], v[3]))
    }

    /// Reads a big-endian `i16`.
    pub fn read_i16_be(&mut self) -> (r: TaoResult<i16>)
        ensures
            Self::read_post(*old(self), *final(self), 2, r is Ok),
            r is Err ==> r == Err::<i16, TaoError>(TaoError::Eof),
            r matches Ok(v) ==> v == ({
                let u = be16(old(self).ahead(0), old(self).ahead(1));
                if u >= 0x8000 { u - 0x10000 } else { u }
            }),
    {
        let u = self.read_u16_be()?;
        Ok(i16_of(u))
    }

    /// Reads a big-endian `i32`.
    pub fn read_i32_be(&mut self) -> (r: TaoResult<i32>)
        ensures
            Self::read_post(*old(self), *final(self), 4, r is Ok),
            r is Err ==> r == Err::<i32, TaoError>(TaoError::Eof),
            r matches Ok(v) ==> v == ({
                let u = be32(
                    old(self).ahead(0),
                    old(self).ahead(1),
                    old(self).ahead(2),
                    old(self).ahead(3),
                );
                if u >= 0x8000_0000 { u - 0x1_0000_0000 } else { u }
            }),
    {
        let u = self.read_u32_be()?;
        Ok(i32_of(u))
    }

    /// Reads a four-byte tag (FourCC).
    pub fn read_tag(&mut self) -> (r: TaoResult<[u8; 4]>)
        ensures
            Self::read_post(*old(self), *final(self), 4, r is Ok),
            r is Err ==> r == Err::<[u8; 4], TaoError>(TaoError::Eof),
            r matches Ok(t) ==> t@ == bytes_at(old(self).contents(), old(self).cursor(), 4),
    {
        let v = self.read_bytes(4)?;
        let t = [v[0], v[1], v[2], v[3]];
        assert(t@ =~= v@);
        Ok(t)
    }

    /// Advances the cursor by `count` bytes. The cursor may pass the end of
    /// the data; a later read there fails.
    pub fn skip(&mut self, count: usize) -> (r: TaoResult<()>)
        requires
            old(self).cursor() + count <= i64::MAX,
            old(self).cursor() + count <= usize::MAX,
        ensures
            r is Ok,
            final(self).contents() == old(self).contents(),
            final(self).cursor() == old(self).cursor() + count,
    {
        self.inner.pos = self.inner.pos + count;
        Ok(())
    }

    /// Writes all of `buf` at the cursor.
    pub fn write_all(&mut self, buf: &[u8]) -> (r: TaoResult<()>)
        requires
            old(self).cursor() + buf@.len() <= usize::MAX,
            old(self).contents().len() + buf@.len() <= usize::MAX,
        ensures
            r is Ok,
            final(self).contents() == written(old(self).contents(), old(self).cursor(), buf@),
            final(self).cursor() == old(self).cursor() + buf@.len(),
    {
        self.inner.write_bytes(buf);
        Ok(())
    }

    /// Writes one byte.
    pub fn write_u8(&mut self, v: u8) -> (r: TaoResult<()>)
        requires
            old(self).cursor() + 1 <= usize::MAX,
            old(self).contents().len() + 1 <= usize::MAX,
        ensures
            r is Ok,
            final(self).contents() == written(old(self).contents(), old(self).cursor(), seq![v]),
            final(self).cursor() == old(self).cursor() + 1,
    {
        let b = [v];
        assert(b@ =~= seq![v]);
        self.write_all(&b)
    }

    /// Writes a little-endian `u16`.
    pub fn write_u16_le(&mut self, v: u16) -> (r: TaoResult<()>)
        requires
            old(self).cursor() + 2 <= usize::MAX,
            old(self).contents().len() + 2 <= usize::MAX,
        ensures
            r is Ok,
            final(self).contents() == written(old(self).contents(), old(self).cursor(), le16_bytes(v)),
            final(self).cursor() == old(self).cursor() + 2,
    {
        let b = u16_to_le(v);
        self.write_all(&b)
    }

    /// Writes a little-endian `u32`.
    pub fn write_u32_le(&mut self, v: u32) -> (r: TaoResult<()>)
        requires
            old(self).cursor() + 4 <= usize::MAX,
            old(self).contents().len() + 4 <= usize::MAX,
        ensures
            r is Ok,
            final(self).contents() == written(old(self).contents(), old(self).cursor(), le32_bytes(v)),
            final(self).cursor() == old(self).cursor() + 4,
    {
        let b = u32_to_le(v);
        self.write_all(&b)
    }

    /// Writes a little-endian `i32`.
    pub fn write_i32_le(&mut self, v: i32) -> (r: TaoResult<()>)
        requires
            old(self).cursor() + 4 <= usize::MAX,
            old(self).contents().len() + 4 <= usize::MAX,
        ensures
            r is Ok,
            final(self).contents() == written(old(self).contents(), old(self).cursor(), le32_bytes(v as u32)),
            final(self).cursor() == old(self).cursor() + 4,
    {
        self.write_u32_le(v as u32)
    }

    /// Writes a big-endian `u16`.
    pub fn write_u16_be(&mut self, v: u16) -> (r: TaoResult<()>)
        requires
            old(self).cursor() + 2 <= usize::MAX,
            old(self).contents().len() + 2 <= usize::MAX,
        ensures
            r is Ok,
            final(self).contents() == written(old(self).contents(), old(self).cursor(), be16_bytes(v)),
            final(self).cursor() == old(self).cursor() + 2,
    {
        let b = u16_to_be(v);
        self.write_all(&b)
    }

    /// Writes a big-endian `u32`.
    pub fn write_u32_be(&mut self, v: u32) -> (r: TaoResult<()>)
        requires
            old(self).cursor() + 4 <= usize::MAX,
            old(self).contents().len() + 4 <= usize::MAX,
        ensures
            r is Ok,
            final(self).contents() == written(old(self).contents(), old(self).cursor(), be32_bytes(v)),
            final(self).cursor() == old(self).cursor() + 4,
    {
        let b = u32_to_be(v);
        self.write_all(&b)
    }

    /// Writes a big-endian `u64`.
    pub fn write_u64_be(&mut self, v: u64) -> (r: TaoResult<()>)
        requires
            old(self).cursor() + 8 <= usize::MAX,
            old(self).contents().len() + 8 <= usize::MAX,
        ensures
            r is Ok,
            final(self).contents() == written(old(self).contents(), old(self).cursor(), be64_bytes(v)),
            final(self).cursor() == old(self).cursor() + 8,
    {
        let b = u64_to_be(v);
        self.write_all(&b)
    }

    /// Writes a big-endian `i16`.
    pub fn write_i16_be(&mut self, v: i16) -> (r: TaoResult<()>)
        requires
            old(self).cursor() + 2 <= usize::MAX,
            old(self).contents().len() + 2 <= usize::MAX,
        ensures
            r is Ok,
            final(self).contents() == written(old(self).contents(), old(self).cursor(), be16_bytes(v as u16)),
            final(self).cursor() == old(self).cursor() + 2,
    {
        self.write_u16_be(v as u16)
    }

    /// Writes a big-endian `i32`.
    pub fn write_i32_be(&mut self, v: i32) -> (r: TaoResult<()>)
        requires
            old(self).cursor() + 4 <= usize::MAX,
            old(self).contents().len() + 4 <= usize::MAX,
        ensures
            r is Ok,
            final(self).contents() == written(old(self).contents(), old(self).cursor(), be32_bytes(v as u32)),
            final(self).cursor() == old(self).cursor() + 4,
    {
        self.write_u32_be(v as u32)
    }

    /// Writes a four-byte tag (FourCC).
    pub fn write_tag(&mut self, tag: &[u8; 4]) -> (r: TaoResult<()>)
        requires
            old(self).cursor() + 4 <= usize::MAX,
            old(self).contents().len() + 4 <= usize::MAX,
        ensures
            r is Ok,
            final(self).contents() == written(old(self).contents(), old(self).cursor(), tag@),
            final(self).cursor() == old(self).cursor() + 4,
    {
        self.write_all(tag.as_slice())
    }

    /// Moves the cursor. A position before the start is refused with an `Io`
    /// error and leaves the cursor where it was.
    pub fn seek(&mut self, from: SeekFrom) -> (r: TaoResult<u64>)
        requires
            old(self).contents().len() <= i64::MAX,
            old(self).cursor() <= i64::MAX,
            i64::MIN <= seek_target(old(self).contents(), old(self).cursor(), from) <= i64::MAX,
            seek_target(old(self).contents(), old(self).cursor(), from) <= usize::MAX,
        ensures
            final(self).contents() == old(self).contents(),
            seek_target(old(self).contents(), old(self).cursor(), from) < 0 ==> (r is Err
                && r->Err_0 is Io && final(self).cursor() == old(self).cursor()),
            seek_target(old(self).contents(), old(self).cursor(), from) >= 0 ==> (r == Ok::<
                u64,
                TaoError,
            >(final(self).cursor() as u64) && final(self).cursor() == seek_target(
                old(self).contents(),
                old(self).cursor(),
                from,
            )),
    {
        let new_pos: i64 = match from {
            SeekFrom::Start(o) => #[verifier::truncate] (o as i64),
            SeekFrom::End(o) => self.inner.data.len() as i64 + o,
            SeekFrom::Current(o) => self.inner.pos as i64 + o,
        };
        proof {
            match from {
                SeekFrom::Start(o) => {
                    assert(o as i64 == (if o <= i64::MAX { o as int } else { o
                        - 0x1_0000_0000_0000_0000 })) by (bit_vector);
                },
                _ => {},
            }
        }
        if new_pos < 0 {
            return Err(io_error("seek position is negative"));
        }
        self.inner.pos = new_pos as usize;
        Ok(self.inner.pos as u64)
    }

    /// The current position.
    pub fn position(&mut self) -> (r: TaoResult<u64>)
        ensures
            *final(self) == *old(self),
            r == Ok::<u64, TaoError>(old(self).cursor() as u64),
    {
        Ok(self.inner.pos as u64)
    }

    /// The cursor.
    pub fn tell(&self) -> (r: usize)
        ensures
            r == self.cursor(),
    {
        self.inner.pos
    }

    /// Whether the context supports random access; a memory buffer always does.
    pub fn is_seekable(&self) -> (r: bool)
        ensures
            r,
    {
        true
    }

    /// Total size of the data.
    pub fn size(&self) -> (r: Option<u64>)
        ensures
            r == Some(self.contents().len() as u64),
    {
        Some(self.inner.data.len() as u64)
    }
}

/// Reads, skips and seeks leave the data as it is, so along any run of
/// them the data, and the size a context reports, stay those it started
/// with.
pub proof fn law_reads_keep_size(run: Seq<IoContext>)
    requires
        forall|i: int| 0 <= i < run.len() - 1 ==> (#[trigger] run[i + 1]).contents() == run[i].contents(),
    ensures
        forall|i: int| 0 <= i < run.len() ==> (#[trigger] run[i]).contents() == run[0].contents(),
    decreases run.len(),
{
    if run.len() > 1 {
        let front = run.drop_last();
        assert forall|i: int| 0 <= i < front.len() - 1 implies (#[trigger] front[i + 1]).contents()
            == front[i].contents() by {
            assert(front[i + 1] == run[i + 1] && front[i] == run[i]);
        }
        law_reads_keep_size(front);
        assert forall|i: int| 0 <= i < run.len() implies (#[trigger] run[i]).contents() == run[0].contents() by {
            if i < run.len() - 1 {
                assert(front[i] == run[i]);
            } else {
                let k = i - 1;
                assert(front[k] == run[k]);
                assert(run[k + 1].contents() == run[k].contents());
            }
        }
    }
}

} // verus!
