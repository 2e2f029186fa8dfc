use vstd::prelude::*;
use crate::entry::TableEntry;
use crate::error::DecodeError;
use crate::stream::{bytes_left, smallest};

verus! {

/// The largest position a view can stand at: positions are signed 64-bit
/// offsets, and none is negative.
pub const MAX_POSITION: u64 = 0x7fff_ffff_ffff_ffff;

/// Where a seek starts counting from.
#[derive(Clone, Copy, Debug, PartialEq, Eq, Structural)]
pub enum SeekFrom {
    /// From the first byte of the window.
    Start(u64),
    /// From the end of the window.
    End(i64),
    /// From the cursor.
    Current(i64),
}

/// A window onto a stream: the bytes from `start` up to `start + len`, and
/// a cursor that counts from the window's first byte.
///
/// The window holds no stream. It decides where in a stream a read has to
/// start and how far it may go, and where a seek leaves the cursor; whoever
/// holds the stream does the reading and reports how much was read.
#[derive(Clone, Copy, Debug, PartialEq, Eq, Structural)]
pub struct Window {
    /// Where the window starts in the stream.
    pub start: u64,
    /// How many bytes the window spans.
    pub len: u64,
    /// The next position in the window that a read starts at.
    pub cursor: u64,
}

impl Window {
    /// No part of the window reaches beyond what a position can name.
    pub open spec fn wf(self) -> bool {
        &&& self.start <= MAX_POSITION
        &&& self.len <= MAX_POSITION
        &&& self.cursor <= MAX_POSITION
    }

    /// How many bytes of the window lie at or after the cursor.
    pub open spec fn remaining(self) -> int {
        bytes_left(self.len as int, self.cursor as int)
    }

    /// The place in the stream where the cursor stands.
    pub open spec fn absolute(self) -> int {
        self.start + self.cursor
    }

    /// How many bytes a read of `requested` bytes may ask of the stream:
    /// never more than the window has left.
    pub open spec fn read_limit(self, requested: int) -> int {
        if requested <= self.remaining() {
            requested
        } else {
            self.remaining()
        }
    }

    /// How many bytes a read of `requested` bytes transfers from a stream
    /// of `stream_len` bytes: never more than the window has left, nor
    /// more than the stream has from the cursor's place on.
    pub open spec fn read_len(self, requested: int, stream_len: int) -> int {
        smallest(requested, self.remaining(), bytes_left(stream_len, self.absolute()))
    }

    /// The position that a seek asks for, which may be negative.
    pub open spec fn target(self, pos: SeekFrom) -> int {
        match pos {
            SeekFrom::Start(p) => p as int,
            SeekFrom::End(d) => self.len + d,
            SeekFrom::Current(d) => self.cursor + d,
        }
    }

    /// Whether a seek is granted: its target is a position.
    pub open spec fn can_seek(self, pos: SeekFrom) -> bool {
        0 <= self.target(pos) <= MAX_POSITION
    }

    /// The window with its cursor at `cursor`.
    pub open spec fn at(self, cursor: int) -> Window {
        Window { start: self.start, len: self.len, cursor: cursor as u64 }
    }

    /// The window of `len` bytes at `start`, with its cursor at 0.
    pub fn new(start: u64, len: u64) -> (w: Window)
        requires
            start <= MAX_POSITION,
            len <= MAX_POSITION,
        ensures
            w.wf(),
            w == (Window { start, len, cursor: 0 }),
    {
        Window { start, len, cursor: 0 }
    }

    /// The window that `entry` describes, with its cursor at 0.
    pub fn for_entry(entry: &TableEntry) -> (w: Window)
        ensures
            w.wf(),
            w == (Window { start: entry.pos as u64, len: entry.size as u64, cursor: 0 }),
    {
        Window::new(entry.pos as u64, entry.size as u64)
    }

    /// What a read into a buffer of `requested` bytes has to do: move the
    /// stream to `at`, then read no more than `limit` bytes.
    pub fn plan_read(&self, requested: usize) -> (plan: (u64, usize))
        requires
            self.wf(),
        ensures
            plan.0 == self.absolute(),
            plan.1 == self.read_limit(requested as int),
    {
        let left: u64 = if self.cursor >= self.len {
            0
        } else {
            self.len - self.cursor
        };
        let limit: usize = if requested as u64 <= left {
            requested
        } else {
            left as usize
        };
        (self.start + self.cursor, limit)
    }

    /// Moves the cursor past the `n` bytes that a read transferred.
    pub fn advance(&mut self, n: usize)
        requires
            old(self).wf(),
            n <= old(self).remaining(),
        ensures
            final(self).wf(),
            *final(self) == old(self).at(old(self).cursor + n),
    {
        self.cursor = self.cursor + n as u64;
    }

    /// Moves the cursor to the position that `pos` names and hands it out.
    ///
    /// A position beyond the end of the window is granted. One before its
    /// start, or too large for a signed 64-bit offset, is refused with
    /// `InvalidSeek`, and the cursor stays where it was.
    pub fn seek(&mut self, pos: SeekFrom) -> (r: Result<u64, DecodeError>)
        requires
            old(self).wf(),
        ensures
            final(self).wf(),
            match r {
                Ok(p) => old(self).can_seek(pos) && p == old(self).target(pos) && *final(self)
                    == old(self).at(p as int),
                Err(e) => !old(self).can_seek(pos) && e == DecodeError::InvalidSeek
                    && *final(self) == *old(self),
            },
    {
        let target: i128 = match pos {
            SeekFrom::Start(p) => p as i128,
            SeekFrom::End(d) => self.len as i128 + d as i128,
            SeekFrom::Current(d) => self.cursor as i128 + d as i128,
        };
        if target < 0 || target > MAX_POSITION as i128 {
            return Err(DecodeError::InvalidSeek);
        }
        self.cursor = target as u64;
        Ok(self.cursor)
    }
}

/// The sum of a run of request lengths.
pub open spec fn requests_total(requests: Seq<nat>) -> int
    decreases requests.len(),
{
    if requests.len() == 0 {
        0
    } else {
        requests[0] + requests_total(requests.drop_first())
    }
}

/// How many bytes a run of reads transfers in all, each read starting where
/// the one before it left the cursor.
pub open spec fn reads_total(w: Window, stream_len: int, requests: Seq<nat>) -> int
    decreases requests.len(),
{
    if requests.len() == 0 {
        0
    } else {
        let n = w.read_len(requests[0] as int, stream_len);
        n + reads_total(w.at(w.cursor + n), stream_len, requests.drop_first())
    }
}

/// Over a window that lies within its stream, reads transfer what was asked
/// for until the window is used up, and nothing from then on: in all, the
/// lesser of what was asked for and what the window had left. Reads that
/// ask for at least the rest of the window so transfer exactly the rest.
pub proof fn lemma_reads_fill_window(w: Window, stream_len: int, requests: Seq<nat>)
    requires
        w.wf(),
        w.start + w.len <= stream_len,
    ensures
        reads_total(w, stream_len, requests) == if requests_total(requests) <= w.remaining() {
            requests_total(requests)
        } else {
            w.remaining()
        },
        requests_total(requests) >= 0,
    decreases requests.len(),
{
    if requests.len() > 0 {
        let n = w.read_len(requests[0] as int, stream_len);
        let next = w.at(w.cursor + n);
        assert(next.remaining() == w.remaining() - n);
        lemma_reads_fill_window(next, stream_len, requests.drop_first());
    }
}

/// A read at or past the end of the window transfers nothing, whatever is
/// asked for and whatever the stream holds.
pub proof fn lemma_read_at_end(w: Window, requested: nat, stream_len: nat)
    requires
        w.cursor >= w.len,
    ensures
        w.read_len(requested as int, stream_len as int) == 0,
{
}

/// A seek that aims before the start of the window is refused. One that
/// aims at or past its end is granted, and reads from there transfer
/// nothing; a seek back into the window is granted again.
pub proof fn lemma_seek_bounds(w: Window, pos: SeekFrom, requested: nat, stream_len: nat)
    requires
        w.wf(),
    ensures
        w.target(pos) < 0 ==> !w.can_seek(pos),
        w.len <= w.target(pos) <= MAX_POSITION ==> w.can_seek(pos) && w.at(w.target(pos)).read_len(
            requested as int,
            stream_len as int,
        ) == 0,
        0 <= w.target(pos) < w.len ==> w.can_seek(pos) && w.at(w.target(pos)).remaining()
            == w.len - w.target(pos),
{
}

} // verus!
