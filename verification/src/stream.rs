//! An in-memory seekable byte stream with a cursor, plus the little-endian
//! integer and NUL-terminated string primitives that the chunk grammar is
//! built from.

use vstd::prelude::*;

verus! {

/// Little-endian value of the two bytes of `s` starting at `i`.
pub open spec fn le16(s: Seq<u8>, i: int) -> u16 {
    (s[i] + s[i + 1] * 0x100) as u16
}

/// Little-endian value of the four bytes of `s` starting at `i`.
pub open spec fn le32(s: Seq<u8>, i: int) -> u32 {
    (s[i] + s[i + 1] * 0x100 + s[i + 2] * 0x10000 + s[i + 3] * 0x1000000) as u32
}

/// Little-endian value of the eight bytes of `s` starting at `i`.
pub open spec fn le64(s: Seq<u8>, i: int) -> u64 {
    (s[i] + s[i + 1] * 0x100 + s[i + 2] * 0x10000 + s[i + 3] * 0x1000000 + s[i + 4] * 0x100000000
        + s[i + 5] * 0x10000000000 + s[i + 6] * 0x1000000000000 + s[i + 7]
        * 0x100000000000000) as u64
}

/// Position of the first NUL byte of `s` at or after `i`, if any.
pub open spec fn find_nul(s: Seq<u8>, i: int) -> Option<int>
    decreases s.len() - i when 0 <= i
{
    if i >= s.len() {
        None
    } else if s[i] == 0 {
        Some(i)
    } else {
        find_nul(s, i + 1)
    }
}

/// The NUL-terminated byte string of `s` starting at `i` (terminator
/// excluded), or `None` if no NUL byte follows position `i`.
pub open spec fn spec_cstr(s: Seq<u8>, i: int) -> Option<Seq<u8>> {
    match find_nul(s, i) {
        None => None,
        Some(j) => Some(s.subrange(i, j)),
    }
}

/// A byte source with a seekable cursor. The cursor may point past the end of
/// the data; every read checks its own bounds.
pub struct Stream {
    pub data: Vec<u8>,
    pub pos: u64,
}

impl Stream {
    /// A stream over `data`, positioned at offset 0.
    pub fn new(data: Vec<u8>) -> (s: Stream)
        ensures
            s.data == data,
            s.pos == 0,
    {
        Stream { data, pos: 0 }
    }

    /// Move the cursor to the absolute position `p`.
    pub fn seek(&mut self, p: u64)
        ensures
            final(self).data == old(self).data,
            final(self).pos == p,
    {
        self.pos = p;
    }

    /// Read one byte and advance; on insufficient bytes, leave the cursor
    /// unmoved and return `None`.
    pub fn byte(&mut self) -> (r: Option<u8>)
        ensures
            final(self).data == old(self).data,
            old(self).pos + 1 <= old(self).data@.len() ==> (r matches Some(b) && b
                == old(self).data@[old(self).pos as int] && final(self).pos == old(self).pos + 1),
            old(self).pos + 1 > old(self).data@.len() ==> r is None && final(self).pos == old(
                self,
            ).pos,
    {
        let len: u64 = self.data.len() as u64;
        if len >= 1 && self.pos <= len - 1 {
            let b = self.data[self.pos as usize];
            self.pos = self.pos + 1;
            Some(b)
        } else {
            None
        }
    }

    /// Read a little-endian `u16` and advance; on insufficient bytes, leave
    /// the cursor unmoved and return `None`.
    pub fn u16_le(&mut self) -> (r: Option<u16>)
        ensures
            final(self).data == old(self).data,
            old(self).pos + 2 <= old(self).data@.len() ==> (r matches Some(v) && v == le16(
                old(self).data@,
                old(self).pos as int,
            ) && final(self).pos == old(self).pos + 2),
            old(self).pos + 2 > old(self).data@.len() ==> r is None && final(self).pos == old(
                self,
            ).pos,
    {
        let len: u64 = self.data.len() as u64;
        if len >= 2 && self.pos <= len - 2 {
            let i = self.pos as usize;
            let b0 = self.data[i] as u16;
            let b1 = self.data[i + 1] as u16;
            self.pos = self.pos + 2;
            Some(b0 + b1 * 0x100)
        } else {
            None
        }
    }

    /// Read a little-endian `u32` and advance; on insufficient bytes, leave
    /// the cursor unmoved and return `None`.
    pub fn u32_le(&mut self) -> (r: Option<u32>)
        ensures
            final(self).data == old(self).data,
            old(self).pos + 4 <= old(self).data@.len() ==> (r matches Some(v) && v == le32(
                old(self).data@,
                old(self).pos as int,
            ) && final(self).pos == old(self).pos + 4),
            old(self).pos + 4 > old(self).data@.len() ==> r is None && final(self).pos == old(
                self,
            ).pos,
    {
        let len: u64 = self.data.len() as u64;
        if len >= 4 && self.pos <= len - 4 {
            let i = self.pos as usize;
            let b0 = self.data[i] as u32;
            let b1 = self.data[i + 1] as u32;
            let b2 = self.data[i + 2] as u32;
            let b3 = self.data[i + 3] as u32;
            self.pos = self.pos + 4;
            Some(b0 + b1 * 0x100 + b2 * 0x10000 + b3 * 0x1000000)
        } else {
            None
        }
    }

    /// Read a little-endian `u64` and advance; on insufficient bytes, leave
    /// the cursor unmoved and return `None`.
    pub fn u64_le(&mut self) -> (r: Option<u64>)
        ensures
            final(self).data == old(self).data,
            old(self).pos + 8 <= old(self).data@.len() ==> (r matches Some(v) && v == le64(
                old(self).data@,
                old(self).pos as int,
            ) && final(self).pos == old(self).pos + 8),
            old(self).pos + 8 > old(self).data@.len() ==> r is None && final(self).pos == old(
                self,
            ).pos,
    {
        let len: u64 = self.data.len() as u64;
        if len >= 8 && self.pos <= len - 8 {
            let i = self.pos as usize;
            let b0 = self.data[i] as u64;
            let b1 = self.data[i + 1] as u64;
            let b2 = self.data[i + 2] as u64;
            let b3 = self.data[i + 3] as u64;
            let b4 = self.data[i + 4] as u64;
            let b5 = self.data[i + 5] as u64;
            let b6 = self.data[i + 6] as u64;
            let b7 = self.data[i + 7] as u64;
            self.pos = self.pos + 8;
            Some(
                b0 + b1 * 0x100 + b2 * 0x10000 + b3 * 0x1000000 + b4 * 0x100000000 + b5
                    * 0x10000000000 + b6 * 0x1000000000000 + b7 * 0x100000000000000,
            )
        } else {
            None
        }
    }

    /// Read exactly `n` bytes and advance; on insufficient bytes, leave the
    /// cursor unmoved and return `None`.
    pub fn bytes(&mut self, n: u64) -> (r: Option<Vec<u8>>)
        ensures
            final(self).data == old(self).data,
            old(self).pos + n <= old(self).data@.len() ==> (r matches Some(v) && v@ == old(
                self,
            ).data@.subrange(old(self).pos as int, old(self).pos + n) && final(self).pos == old(
                self,
            ).pos + n),
            old(self).pos + n > old(self).data@.len() ==> r is None && final(self).pos == old(
                self,
            ).pos,
    {
        let len: u64 = self.data.len() as u64;
        if n <= len && self.pos <= len - n {
            let ghost start = self.pos as int;
            let mut v: Vec<u8> = Vec::new();
            let mut k: u64 = 0;
            while k < n
                invariant
                    k <= n,
                    self.data@.len() <= usize::MAX,
                    self.pos + n <= self.data@.len(),
                    self.pos == old(self).pos,
                    self.data == old(self).data,
                    v@ =~= self.data@.subrange(start, start + k),
                    start == self.pos as int,
                decreases n - k,
            {
                v.push(self.data[(self.pos + k) as usize]);
                k = k + 1;
            }
            self.pos = self.pos + n;
            assert(v@ =~= old(self).data@.subrange(start, start + n));
            Some(v)
        } else {
            None
        }
    }

    /// Skip `n` bytes; on insufficient bytes, leave the cursor unmoved and
    /// return `false`.
    pub fn skip(&mut self, n: u64) -> (r: bool)
        ensures
            final(self).data == old(self).data,
            old(self).pos + n <= old(self).data@.len() ==> r && final(self).pos == old(self).pos
                + n,
            old(self).pos + n > old(self).data@.len() ==> !r && final(self).pos == old(self).pos,
    {
        let len: u64 = self.data.len() as u64;
        if n <= len && self.pos <= len - n {
            self.pos = self.pos + n;
            true
        } else {
            false
        }
    }

    /// Read the NUL-terminated byte string stored at absolute position `p`,
    /// through a bounded excursion of the cursor: the cursor is saved, moved
    /// to `p`, and restored on every exit path, so that the caller's
    /// sequential decoding is unaffected.
    pub fn cstr_at(&mut self, p: u64) -> (r: Option<Vec<u8>>)
        ensures
            final(self).data == old(self).data,
            final(self).pos == old(self).pos,
            match spec_cstr(old(self).data@, p as int) {
                Some(b) => r matches Some(v) && v@ == b,
                None => r is None,
            },
    {
        let saved = self.pos;
        self.seek(p);
        let mut v: Vec<u8> = Vec::new();
        let mut found = false;
        let len: u64 = self.data.len() as u64;
        while self.pos < len && !found
            invariant
                len == self.data@.len(),
                len <= usize::MAX,
                self.data == old(self).data,
                p <= self.pos,
                !found ==> {
                    &&& find_nul(self.data@, p as int) == find_nul(self.data@, self.pos as int)
                    &&& (self.pos <= len ==> v@ =~= self.data@.subrange(
                        p as int,
                        self.pos as int,
                    ))
                },
                found ==> {
                    &&& self.pos <= len
                    &&& find_nul(self.data@, p as int) == Some((self.pos - 1) as int)
                    &&& v@ =~= self.data@.subrange(p as int, self.pos - 1)
                },
            decreases len - self.pos,
        {
            let b = self.data[self.pos as usize];
            self.pos = self.pos + 1;
            if b == 0 {
                found = true;
            } else {
                v.push(b);
            }
        }
        proof {
            if !found {
                assert(find_nul(self.data@, self.pos as int) is None);
            }
        }
        self.seek(saved);
        if found {
            Some(v)
        } else {
            None
        }
    }
}

} // verus!
