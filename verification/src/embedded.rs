use vstd::prelude::*;
use crate::entry::TableEntry;
use crate::error::DecodeError;
use crate::stream::{span, ByteStream};
use crate::window::{SeekFrom, Window, MAX_POSITION};

verus! {

/// A read/seek view onto one embedded file: a stream, and the window of it
/// that the file takes up, with a cursor of its own that begins at 0.
pub struct EmbeddedFile<'a> {
    reader: ByteStream<'a>,
    window: Window,
}

impl<'a> EmbeddedFile<'a> {
    /// The window of the view.
    pub closed spec fn window(&self) -> Window {
        self.window
    }

    /// The stream under the view.
    pub closed spec fn source(&self) -> ByteStream<'a> {
        self.reader
    }

    /// The view is well formed when its window is.
    pub open spec fn wf(&self) -> bool {
        self.window().wf()
    }

    /// A view onto the `size` bytes of `reader` that start at `offset`, with
    /// its cursor at 0. Nothing is read.
    pub fn new(reader: ByteStream<'a>, offset: u64, size: u64) -> (view: Self)
        requires
            offset <= MAX_POSITION,
            size <= MAX_POSITION,
        ensures
            view.wf(),
            view.window() == (Window { start: offset, len: size, cursor: 0 }),
            view.source() == reader,
    {
        EmbeddedFile { reader, window: Window::new(offset, size) }
    }

    /// The cursor: the next position in the window that a read starts at.
    pub fn position(&self) -> (p: u64)
        ensures
            p == self.window().cursor,
    {
        self.window.cursor
    }

    /// The length of the window in bytes.
    pub fn size(&self) -> (n: u64)
        ensures
            n == self.window().len,
    {
        self.window.len
    }

    /// Reads from the cursor on into the front of `buf`, never beyond the
    /// end of the window, and moves the cursor past what was read.
    ///
    /// The stream is first moved to the cursor's place, wherever it stood.
    /// At or past the end of the window nothing is read, which is no error.
    pub fn read(&mut self, buf: &mut [u8]) -> (r: Result<usize, DecodeError>)
        requires
            old(self).wf(),
        ensures
            final(self).wf(),
            final(self).source().bytes() == old(self).source().bytes(),
            match r {
                Ok(n) => n as int == old(self).window().read_len(
                    old(buf)@.len() as int,
                    old(self).source().bytes().len() as int,
                ) && final(self).window() == old(self).window().at(old(self).window().cursor + n)
                    && final(self).source().pos() == old(self).window().absolute() + n
                    && final(buf)@ == span(
                    old(self).source().bytes(),
                    old(self).window().absolute(),
                    n as int,
                ) + old(buf)@.subrange(n as int, old(buf)@.len() as int),
                Err(_) => false,
            },
    {
        let (at, limit) = self.window.plan_read(buf.len());
        self.reader.seek_to(at);
        let n: usize = self.reader.read_at_most(buf, limit);
        self.window.advance(n);
        Ok(n)
    }

    /// Moves the cursor to the position that `pos` names and hands it out.
    ///
    /// A position beyond the end of the window is granted. One before its
    /// start, or too large for a signed 64-bit offset, is refused with
    /// `InvalidSeek`, and the cursor stays where it was. The stream is not
    /// touched.
    pub fn seek(&mut self, pos: SeekFrom) -> (r: Result<u64, DecodeError>)
        requires
            old(self).wf(),
        ensures
            final(self).wf(),
            final(self).source() == old(self).source(),
            match r {
                Ok(p) => old(self).window().can_seek(pos) && p == old(self).window().target(pos)
                    && final(self).window() == old(self).window().at(p as int),
                Err(e) => !old(self).window().can_seek(pos) && e == DecodeError::InvalidSeek
                    && final(self).window() == old(self).window(),
            },
    {
        self.window.seek(pos)
    }
}

/// A view onto the embedded file that `entry` describes, with its cursor at
/// 0. Nothing is read, and nothing checks that the entry lies within the
/// stream.
pub fn open_file<'a>(reader: ByteStream<'a>, entry: &TableEntry) -> (view: EmbeddedFile<'a>)
    ensures
        view.wf(),
        view.window() == (Window { start: entry.pos as u64, len: entry.size as u64, cursor: 0 }),
        view.source() == reader,
{
    EmbeddedFile::new(reader, entry.pos as u64, entry.size as u64)
}

} // verus!
