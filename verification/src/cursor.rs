//! Bounds-checked little-endian byte reader.
//!
//! Mach-O input is untrusted, so every read here is fallible: a read that
//! would run past the end of the buffer reports [`OutOfBounds`] and leaves
//! the cursor where it was.
use vstd::prelude::*;
use vstd::slice::slice_subrange;

verus! {

/// The little-endian `u16` stored in `b` at offset `at`.
pub open spec fn le_u16(b: Seq<u8>, at: int) -> u16 {
    (b[at] as int + 0x100 * b[at + 1]) as u16
}

/// The little-endian `u32` stored in `b` at offset `at`.
pub open spec fn le_u32(b: Seq<u8>, at: int) -> u32 {
    (b[at] as int + 0x100 * b[at + 1] + 0x1_0000 * b[at + 2] + 0x100_0000 * b[at + 3]) as u32
}

/// The little-endian `u64` stored in `b` at offset `at`.
pub open spec fn le_u64(b: Seq<u8>, at: int) -> u64 {
    (le_u32(b, at) as int + 0x1_0000_0000 * le_u32(b, at + 4)) as u64
}

/// The index of the first zero byte of `b` in `[from, limit)`, if any.
pub open spec fn first_nul_in(b: Seq<u8>, from: int, limit: int) -> Option<int>
    decreases limit - from,
{
    if from >= limit || from < 0 || from >= b.len() {
        None
    } else if b[from] == 0 {
        Some(from)
    } else {
        first_nul_in(b, from + 1, limit)
    }
}

/// The NUL-terminated byte string of `b` starting at `start` and ending
/// before `limit`: `None` when the range is out of bounds or holds no NUL.
pub open spec fn c_string_at(b: Seq<u8>, start: int, limit: int) -> Option<Seq<u8>> {
    if start > limit || limit > b.len() || start < 0 {
        None
    } else {
        match first_nul_in(b, start, limit) {
            Some(nul) => Some(b.subrange(start, nul)),
            None => None,
        }
    }
}

/// Every byte of `b` in `[from, to)` is nonzero.
pub open spec fn no_nul_in(b: Seq<u8>, from: int, to: int) -> bool {
    forall|j: int| from <= j < to ==> b[j] != 0
}

/// Reading past a run of nonzero bytes does not change where the first
/// NUL is.
pub proof fn lemma_first_nul_skip(b: Seq<u8>, from: int, mid: int, limit: int)
    requires
        0 <= from <= mid <= limit <= b.len(),
        no_nul_in(b, from, mid),
    ensures
        first_nul_in(b, from, limit) == first_nul_in(b, mid, limit),
    decreases mid - from,
{
    if from < mid {
        lemma_first_nul_skip(b, from + 1, mid, limit);
    }
}

/// A read past the end of the buffer.
#[derive(Debug, PartialEq, Eq)]
pub struct OutOfBounds;

/// A read position over a borrowed byte buffer.
#[derive(Debug, Clone, Copy)]
pub struct Cursor<'a> {
    bytes: &'a [u8],
    pos: usize,
}

impl<'a> Cursor<'a> {
    #[verifier::type_invariant]
    spec fn within_bounds(self) -> bool {
        self.pos <= self.bytes@.len()
    }

    /// The bytes this cursor reads.
    pub closed spec fn data(self) -> Seq<u8> {
        self.bytes@
    }

    /// The offset of the next read.
    pub closed spec fn position(self) -> int {
        self.pos as int
    }

    /// A position is an offset, never negative.
    pub broadcast proof fn lemma_position_nonnegative(self)
        ensures
            #[trigger] self.position() >= 0,
    {
    }

    pub fn new(bytes: &'a [u8]) -> (c: Self)
        ensures
            c.data() == bytes@,
            c.position() == 0,
    {
        Cursor { bytes, pos: 0 }
    }

    pub fn pos(&self) -> (p: usize)
        ensures
            p == self.position(),
            p <= self.data().len(),
    {
        proof {
            use_type_invariant(self);
        }
        self.pos
    }

    fn take(&mut self, n: usize) -> (r: Result<&'a [u8], OutOfBounds>)
        ensures
            final(self).data() == old(self).data(),
            r is Ok <==> old(self).position() + n <= old(self).data().len(),
            r matches Ok(s) ==> {
                &&& s@ == old(self).data().subrange(
                    old(self).position(),
                    old(self).position() + n,
                )
                &&& final(self).position() == old(self).position() + n
            },
            r is Err ==> final(self).position() == old(self).position(),
    {
        proof {
            use_type_invariant(&*self);
        }
        let len = self.bytes.len();
        let end = match self.pos.checked_add(n) {
            Some(e) => e,
            None => return Err(OutOfBounds),
        };
        if end > len {
            return Err(OutOfBounds);
        }
        let slice = slice_subrange(self.bytes, self.pos, end);
        self.pos = end;
        Ok(slice)
    }

    pub fn u8(&mut self) -> (r: Result<u8, OutOfBounds>)
        ensures
            final(self).data() == old(self).data(),
            r is Ok <==> old(self).position() + 1 <= old(self).data().len(),
            r matches Ok(v) ==> {
                &&& v == old(self).data()[old(self).position()]
                &&& final(self).position() == old(self).position() + 1
            },
            r is Err ==> final(self).position() == old(self).position(),
    {
        let b = self.take(1)?;
        Ok(b[0])
    }

    pub fn u16(&mut self) -> (r: Result<u16, OutOfBounds>)
        ensures
            final(self).data() == old(self).data(),
            r is Ok <==> old(self).position() + 2 <= old(self).data().len(),
            r matches Ok(v) ==> {
                &&& v == le_u16(old(self).data(), old(self).position())
                &&& final(self).position() == old(self).position() + 2
            },
            r is Err ==> final(self).position() == old(self).position(),
    {
        let b = self.take(2)?;
        Ok(b[0] as u16 + (b[1] as u16) * 0x100)
    }

    pub fn u32(&mut self) -> (r: Result<u32, OutOfBounds>)
        ensures
            final(self).data() == old(self).data(),
            r is Ok <==> old(self).position() + 4 <= old(self).data().len(),
            r matches Ok(v) ==> {
                &&& v == le_u32(old(self).data(), old(self).position())
                &&& final(self).position() == old(self).position() + 4
            },
            r is Err ==> final(self).position() == old(self).position(),
    {
        let b = self.take(4)?;
        Ok(b[0] as u32 + (b[1] as u32) * 0x100 + (b[2] as u32) * 0x1_0000 + (b[3] as u32)
            * 0x100_0000)
    }

    pub fn u64(&mut self) -> (r: Result<u64, OutOfBounds>)
        ensures
            final(self).data() == old(self).data(),
            r is Ok <==> old(self).position() + 8 <= old(self).data().len(),
            r matches Ok(v) ==> {
                &&& v == le_u64(old(self).data(), old(self).position())
                &&& final(self).position() == old(self).position() + 8
            },
            r is Err ==> final(self).position() == old(self).position(),
    {
        let b = self.take(8)?;
        let lo: u64 = b[0] as u64 + (b[1] as u64) * 0x100 + (b[2] as u64) * 0x1_0000 + (b[3] as u64)
            * 0x100_0000;
        let hi: u64 = b[4] as u64 + (b[5] as u64) * 0x100 + (b[6] as u64) * 0x1_0000 + (b[7] as u64)
            * 0x100_0000;
        Ok(lo + hi * 0x1_0000_0000)
    }

    pub fn bytes(&mut self, n: usize) -> (r: Result<&'a [u8], OutOfBounds>)
        ensures
            final(self).data() == old(self).data(),
            r is Ok <==> old(self).position() + n <= old(self).data().len(),
            r matches Ok(s) ==> {
                &&& s@ == old(self).data().subrange(
                    old(self).position(),
                    old(self).position() + n,
                )
                &&& final(self).position() == old(self).position() + n
            },
            r is Err ==> final(self).position() == old(self).position(),
    {
        self.take(n)
    }

    pub fn seek(&mut self, pos: usize) -> (r: Result<(), OutOfBounds>)
        ensures
            final(self).data() == old(self).data(),
            r is Ok <==> pos <= old(self).data().len(),
            r is Ok ==> final(self).position() == pos,
            r is Err ==> final(self).position() == old(self).position(),
    {
        if pos > self.bytes.len() {
            return Err(OutOfBounds);
        }
        self.pos = pos;
        Ok(())
    }

    /// Reads a NUL-terminated byte string starting at `start`, without
    /// disturbing this cursor's own position. Errors (rather than reading
    /// past `limit`/end-of-buffer) if no NUL terminator is found in range.
    pub fn cstr_bytes_at(&self, start: usize, limit: usize) -> (r: Result<&'a [u8], OutOfBounds>)
        ensures
            match r {
                Ok(s) => c_string_at(self.data(), start as int, limit as int) == Some(s@),
                Err(_) => c_string_at(self.data(), start as int, limit as int) is None,
            },
    {
        if start > limit || limit > self.bytes.len() {
            return Err(OutOfBounds);
        }
        let ghost b = self.bytes@;
        let mut i = start;
        while i < limit
            invariant
                start <= i <= limit <= b.len(),
                b == self.bytes@,
                no_nul_in(b, start as int, i as int),
            decreases limit - i,
        {
            if self.bytes[i] == 0 {
                proof {
                    lemma_first_nul_skip(b, start as int, i as int, limit as int);
                }
                return Ok(slice_subrange(self.bytes, start, i));
            }
            i = i + 1;
        }
        proof {
            lemma_first_nul_skip(b, start as int, limit as int, limit as int);
        }
        Err(OutOfBounds)
    }
}

} // verus!
