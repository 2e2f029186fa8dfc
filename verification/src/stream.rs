use vstd::prelude::*;
use vstd::slice::slice_subrange;
use crate::error::DecodeError;

verus! {

/// A byte source held in memory, read through a position of its own.
///
/// The position may stand anywhere, also beyond the last byte: reading there
/// yields nothing.
#[derive(Clone, Copy, Debug)]
pub struct ByteStream<'a> {
    data: &'a [u8],
    pos: u64,
}

/// How many bytes lie at or after `pos` in a source of `len` bytes.
pub open spec fn bytes_left(len: int, pos: int) -> int {
    if pos >= len {
        0
    } else {
        len - pos
    }
}

/// The least of three numbers.
pub open spec fn smallest(a: int, b: int, c: int) -> int {
    if a <= b && a <= c {
        a
    } else if b <= c {
        b
    } else {
        c
    }
}

/// The `n` bytes of `bytes` that start at `pos`.
pub open spec fn span(bytes: Seq<u8>, pos: int, n: int) -> Seq<u8> {
    Seq::new(n as nat, |j: int| bytes[pos + j])
}

impl<'a> ByteStream<'a> {
    /// The bytes of the source.
    pub closed spec fn bytes(&self) -> Seq<u8> {
        self.data@
    }

    /// The position of the next byte to read.
    pub closed spec fn pos(&self) -> u64 {
        self.pos
    }

    /// How many bytes lie at or after the position.
    pub open spec fn available(&self) -> int {
        bytes_left(self.bytes().len() as int, self.pos() as int)
    }

    /// A stream over `data`, positioned at its first byte.
    pub fn new(data: &'a [u8]) -> (s: Self)
        ensures
            s.bytes() == data@,
            s.pos() == 0,
    {
        ByteStream { data, pos: 0 }
    }

    /// The position of the next byte to read.
    pub fn position(&self) -> (p: u64)
        ensures
            p == self.pos(),
    {
        self.pos
    }

    /// The number of bytes in the source.
    pub fn len(&self) -> (n: usize)
        ensures
            n == self.bytes().len(),
    {
        self.data.len()
    }

    /// Moves the position to `pos`, which may lie beyond the last byte.
    pub fn seek_to(&mut self, pos: u64)
        ensures
            final(self).bytes() == old(self).bytes(),
            final(self).pos() == pos,
    {
        self.pos = pos;
    }

    /// Copies into the front of `buf` as many bytes as the buffer, `limit`
    /// and the source all allow, and moves the position past them. The rest
    /// of `buf` is left as it was.
    pub fn read_at_most(&mut self, buf: &mut [u8], limit: usize) -> (n: usize)
        ensures
            final(self).bytes() == old(self).bytes(),
            n as int == smallest(old(buf)@.len() as int, limit as int, old(self).available()),
            final(self).pos() == old(self).pos() + n,
            final(buf)@ == span(old(self).bytes(), old(self).pos() as int, n as int) + old(
                buf,
            )@.subrange(n as int, old(buf)@.len() as int),
    {
        let total: usize = self.data.len();
        if self.pos >= total as u64 {
            assert(buf@ =~= span(self.data@, self.pos as int, 0) + buf@.subrange(
                0,
                buf@.len() as int,
            ));
            return 0;
        }
        let start: usize = self.pos as usize;
        let left: usize = total - start;
        let room: usize = if buf.len() <= limit {
            buf.len()
        } else {
            limit
        };
        let n: usize = if room <= left {
            room
        } else {
            left
        };
        let ghost before = buf@;
        let mut i: usize = 0;
        while i < n
            invariant
                i <= n,
                start + n <= total,
                total == self.data@.len(),
                n <= before.len(),
                buf@.len() == before.len(),
                forall|j: int| 0 <= j < i ==> buf@[j] == self.data@[start + j],
                forall|j: int| i <= j < before.len() ==> buf@[j] == before[j],
            decreases n - i,
        {
            buf[i] = self.data[start + i];
            i += 1;
        }
        self.pos = self.pos + n as u64;
        assert(buf@ =~= span(self.data@, start as int, n as int) + before.subrange(
            n as int,
            before.len() as int,
        ));
        n
    }

    /// Fills `buf` from its front as far as the source allows, and moves the
    /// position past what was copied.
    pub fn read(&mut self, buf: &mut [u8]) -> (n: usize)
        ensures
            final(self).bytes() == old(self).bytes(),
            n as int == smallest(
                old(buf)@.len() as int,
                old(buf)@.len() as int,
                old(self).available(),
            ),
            final(self).pos() == old(self).pos() + n,
            final(buf)@ == span(old(self).bytes(), old(self).pos() as int, n as int) + old(
                buf,
            )@.subrange(n as int, old(buf)@.len() as int),
    {
        let limit: usize = buf.len();
        self.read_at_most(buf, limit)
    }

    /// Hands out the next byte and moves the position past it, or hands out
    /// nothing where no byte is left.
    pub fn next_byte(&mut self) -> (r: Option<u8>)
        ensures
            final(self).bytes() == old(self).bytes(),
            match r {
                Some(b) => old(self).pos() < old(self).bytes().len()
                    && b == old(self).bytes()[old(self).pos() as int]
                    && final(self).pos() == old(self).pos() + 1,
                None => old(self).pos() >= old(self).bytes().len()
                    && final(self).pos() == old(self).pos(),
            },
    {
        let total: usize = self.data.len();
        if self.pos >= total as u64 {
            return None;
        }
        let b: u8 = self.data[self.pos as usize];
        self.pos = self.pos + 1;
        Some(b)
    }

    /// Hands out the next `n` bytes and moves the position past them, or
    /// reports `Truncated` and leaves the position where it was.
    pub fn take(&mut self, n: usize) -> (r: Result<&'a [u8], DecodeError>)
        ensures
            final(self).bytes() == old(self).bytes(),
            match r {
                Ok(chunk) => n <= old(self).available()
                    && chunk@ == span(old(self).bytes(), old(self).pos() as int, n as int)
                    && final(self).pos() == old(self).pos() + n,
                Err(e) => n > old(self).available() && e == DecodeError::Truncated
                    && final(self).pos() == old(self).pos(),
            },
    {
        let total: usize = self.data.len();
        if n == 0 {
            let chunk: &'a [u8] = slice_subrange(self.data, 0, 0);
            assert(chunk@ =~= span(self.data@, self.pos as int, 0));
            return Ok(chunk);
        }
        if self.pos >= total as u64 {
            return Err(DecodeError::Truncated);
        }
        let start: usize = self.pos as usize;
        if n > total - start {
            return Err(DecodeError::Truncated);
        }
        let chunk: &'a [u8] = slice_subrange(self.data, start, start + n);
        assert(chunk@ =~= span(self.data@, start as int, n as int));
        self.pos = self.pos + n as u64;
        Ok(chunk)
    }
}

} // verus!
