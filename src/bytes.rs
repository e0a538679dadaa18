use vstd::prelude::*;

verus! {

/// Byte order in which the fixed-width fields of a file were written.
#[derive(Clone, Copy, Debug, PartialEq, Eq, Structural)]
pub enum ByteOrder {
    Little,
    Big,
}

/// Failures of a [`ByteCursor`].
#[derive(Clone, Copy, Debug, PartialEq, Eq, Structural)]
pub enum CursorError {
    /// Fewer bytes remain before the read limit than were requested.
    Exhausted,
    /// A seek target lies outside the valid byte range.
    OutOfBounds,
}

/// The unsigned value of the four bytes at `p`, in the given byte order.
pub open spec fn word32(s: Seq<u8>, p: int, order: ByteOrder) -> u32 {
    let (b0, b1, b2, b3) = match order {
        ByteOrder::Little => (s[p], s[p + 1], s[p + 2], s[p + 3]),
        ByteOrder::Big => (s[p + 3], s[p + 2], s[p + 1], s[p]),
    };
    (b0 as int + b1 as int * 0x100 + b2 as int * 0x1_0000 + b3 as int * 0x100_0000) as u32
}

/// The unsigned value of the eight bytes at `p`, in the given byte order.
pub open spec fn word64(s: Seq<u8>, p: int, order: ByteOrder) -> u64 {
    let (lo, hi) = match order {
        ByteOrder::Little => (word32(s, p, order), word32(s, p + 4, order)),
        ByteOrder::Big => (word32(s, p + 4, order), word32(s, p, order)),
    };
    (lo as int + hi as int * 0x1_0000_0000) as u64
}

fn word32_at(s: &Vec<u8>, p: usize, order: ByteOrder) -> (r: u32)
    requires
        p + 4 <= s@.len(),
    ensures
        r == word32(s@, p as int, order),
{
    let len = s.len();
    assert(p + 3 < len);
    let (b0, b1, b2, b3) = match order {
        ByteOrder::Little => (s[p], s[p + 1], s[p + 2], s[p + 3]),
        ByteOrder::Big => (s[p + 3], s[p + 2], s[p + 1], s[p]),
    };
    (b0 as u32) + (b1 as u32) * 0x100 + (b2 as u32) * 0x1_0000 + (b3 as u32) * 0x100_0000
}

fn word64_at(s: &Vec<u8>, p: usize, order: ByteOrder) -> (r: u64)
    requires
        p + 8 <= s@.len(),
    ensures
        r == word64(s@, p as int, order),
{
    let len = s.len();
    assert(p + 4 < len);
    let a = word32_at(s, p, order);
    let b = word32_at(s, p + 4, order);
    let (lo, hi) = match order {
        ByteOrder::Little => (a, b),
        ByteOrder::Big => (b, a),
    };
    (lo as u64) + (hi as u64) * 0x1_0000_0000
}

/// A read position over an owned byte buffer, with a limit past which no
/// read may go.
pub struct ByteCursor {
    data: Vec<u8>,
    pos: usize,
    limit: usize,
}

impl ByteCursor {
    /// The bytes of the source.
    pub closed spec fn data(&self) -> Seq<u8> {
        self.data@
    }

    /// Where the next read starts.
    pub closed spec fn pos(&self) -> int {
        self.pos as int
    }

    /// The end of the readable region.
    pub closed spec fn limit(&self) -> int {
        self.limit as int
    }

    pub open spec fn wf(&self) -> bool {
        0 <= self.pos() <= self.limit() <= self.data().len()
    }

    /// A cursor at the start of `data`, able to read all of it.
    pub fn new(data: Vec<u8>) -> (r: ByteCursor)
        ensures
            r.wf(),
            r.data() == data@,
            r.pos() == 0,
            r.limit() == data@.len(),
    {
        let limit = data.len();
        ByteCursor { data, pos: 0, limit }
    }

    pub fn len(&self) -> (r: usize)
        ensures
            r == self.data().len(),
    {
        self.data.len()
    }

    pub fn position(&self) -> (r: usize)
        ensures
            r == self.pos(),
    {
        self.pos
    }

    pub fn read_limit(&self) -> (r: usize)
        ensures
            r == self.limit(),
    {
        self.limit
    }

    /// Moves the read limit; fails with `OutOfBounds` where `limit` lies
    /// before the position or past the end of the data.
    pub fn set_limit(&mut self, limit: usize) -> (r: Result<(), CursorError>)
        requires
            old(self).wf(),
        ensures
            final(self).wf(),
            final(self).data() == old(self).data(),
            final(self).pos() == old(self).pos(),
            r is Ok <==> old(self).pos() <= limit <= old(self).data().len(),
            r is Ok ==> final(self).limit() == limit,
            r is Err ==> final(self).limit() == old(self).limit() && r == Err::<(), CursorError>(
                CursorError::OutOfBounds,
            ),
    {
        if limit < self.pos || limit > self.data.len() {
            return Err(CursorError::OutOfBounds);
        }
        self.limit = limit;
        Ok(())
    }

    /// Moves to byte `off` of the source; fails with `OutOfBounds` where
    /// `off` lies past the read limit.
    pub fn seek_from_start(&mut self, off: usize) -> (r: Result<(), CursorError>)
        requires
            old(self).wf(),
        ensures
            final(self).wf(),
            final(self).data() == old(self).data(),
            final(self).limit() == old(self).limit(),
            r is Ok <==> off <= old(self).limit(),
            r is Ok ==> final(self).pos() == off,
            r is Err ==> final(self).pos() == old(self).pos() && r == Err::<(), CursorError>(
                CursorError::OutOfBounds,
            ),
    {
        if off > self.limit {
            return Err(CursorError::OutOfBounds);
        }
        self.pos = off;
        Ok(())
    }

    /// Moves to `back` bytes before the end of the read region; fails with
    /// `OutOfBounds` where that lies before the first byte.
    pub fn seek_from_end(&mut self, back: usize) -> (r: Result<(), CursorError>)
        requires
            old(self).wf(),
        ensures
            final(self).wf(),
            final(self).data() == old(self).data(),
            final(self).limit() == old(self).limit(),
            r is Ok <==> back <= old(self).limit(),
            r is Ok ==> final(self).pos() == old(self).limit() - back,
            r is Err ==> final(self).pos() == old(self).pos() && r == Err::<(), CursorError>(
                CursorError::OutOfBounds,
            ),
    {
        if back > self.limit {
            return Err(CursorError::OutOfBounds);
        }
        self.pos = self.limit - back;
        Ok(())
    }

    /// Exactly `n` bytes from the position on, or `Exhausted` where fewer
    /// remain before the limit; the position moves only on success.
    pub fn read_exact(&mut self, n: usize) -> (r: Result<Vec<u8>, CursorError>)
        requires
            old(self).wf(),
        ensures
            final(self).wf(),
            final(self).data() == old(self).data(),
            final(self).limit() == old(self).limit(),
            match r {
                Ok(v) => old(self).pos() + n <= old(self).limit() && v@ == old(self).data().subrange(
                    old(self).pos(),
                    old(self).pos() + n,
                ) && final(self).pos() == old(self).pos() + n,
                Err(e) => e == CursorError::Exhausted && old(self).pos() + n > old(self).limit()
                    && final(self).pos() == old(self).pos(),
            },
    {
        if n > self.limit - self.pos {
            return Err(CursorError::Exhausted);
        }
        let mut v: Vec<u8> = Vec::new();
        let mut i: usize = 0;
        while i < n
            invariant
                self.wf(),
                self.pos + n <= self.limit,
                i <= n,
                v@ == self.data@.subrange(self.pos as int, self.pos + i),
            decreases n - i,
        {
            v.push(self.data[self.pos + i]);
            i = i + 1;
            assert(v@ =~= self.data@.subrange(self.pos as int, self.pos + i));
        }
        self.pos = self.pos + n;
        Ok(v)
    }

    /// The byte at the position, or `Exhausted` at the limit.
    pub fn read_u8(&mut self) -> (r: Result<u8, CursorError>)
        requires
            old(self).wf(),
        ensures
            final(self).wf(),
            final(self).data() == old(self).data(),
            final(self).limit() == old(self).limit(),
            match r {
                Ok(b) => old(self).pos() + 1 <= old(self).limit() && b == old(self).data()[old(
                    self,
                ).pos()] && final(self).pos() == old(self).pos() + 1,
                Err(e) => e == CursorError::Exhausted && old(self).pos() + 1 > old(self).limit()
                    && final(self).pos() == old(self).pos(),
            },
    {
        if self.pos >= self.limit {
            return Err(CursorError::Exhausted);
        }
        let b = self.data[self.pos];
        self.pos = self.pos + 1;
        Ok(b)
    }

    /// The four bytes at the position as one word, or `Exhausted`.
    pub fn read_u32(&mut self, order: ByteOrder) -> (r: Result<u32, CursorError>)
        requires
            old(self).wf(),
        ensures
            final(self).wf(),
            final(self).data() == old(self).data(),
            final(self).limit() == old(self).limit(),
            match r {
                Ok(w) => old(self).pos() + 4 <= old(self).limit() && w == word32(
                    old(self).data(),
                    old(self).pos(),
                    order,
                ) && final(self).pos() == old(self).pos() + 4,
                Err(e) => e == CursorError::Exhausted && old(self).pos() + 4 > old(self).limit()
                    && final(self).pos() == old(self).pos(),
            },
    {
        if self.limit - self.pos < 4 {
            return Err(CursorError::Exhausted);
        }
        let w = word32_at(&self.data, self.pos, order);
        self.pos = self.pos + 4;
        Ok(w)
    }

    /// The eight bytes at the position as one word, or `Exhausted`.
    pub fn read_u64(&mut self, order: ByteOrder) -> (r: Result<u64, CursorError>)
        requires
            old(self).wf(),
        ensures
            final(self).wf(),
            final(self).data() == old(self).data(),
            final(self).limit() == old(self).limit(),
            match r {
                Ok(w) => old(self).pos() + 8 <= old(self).limit() && w == word64(
                    old(self).data(),
                    old(self).pos(),
                    order,
                ) && final(self).pos() == old(self).pos() + 8,
                Err(e) => e == CursorError::Exhausted && old(self).pos() + 8 > old(self).limit()
                    && final(self).pos() == old(self).pos(),
            },
    {
        if self.limit - self.pos < 8 {
            return Err(CursorError::Exhausted);
        }
        let w = word64_at(&self.data, self.pos, order);
        self.pos = self.pos + 8;
        Ok(w)
    }
}

} // verus!
