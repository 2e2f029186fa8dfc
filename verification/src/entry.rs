use vstd::prelude::*;
use vstd::slice::slice_subrange;
use vstd::utf8::{decode_utf8, valid_utf8};
use crate::endian::{be_u32, decode_be_u32};
use crate::error::DecodeError;
use crate::stream::{bytes_left, span, ByteStream};
use crate::text::{lenient_text, lossy_text};

verus! {

/// One entry of the table: where an embedded file lies, and its name.
#[derive(Debug, Clone)]
pub struct TableEntry {
    /// The offset in the archive at which the embedded file begins.
    pub pos: u32,
    /// The length of the embedded file in bytes.
    pub size: u32,
    /// The name of the embedded file.
    pub name: String,
}

/// A table entry as plain values.
pub struct TableEntryView {
    pub pos: u32,
    pub size: u32,
    pub name: Seq<char>,
}

impl View for TableEntry {
    type V = TableEntryView;

    open spec fn view(&self) -> TableEntryView {
        TableEntryView { pos: self.pos, size: self.size, name: self.name@ }
    }
}

/// The views of a run of entries, in their order.
pub open spec fn entry_views(entries: Seq<TableEntry>) -> Seq<TableEntryView> {
    entries.map_values(|e: TableEntry| e@)
}

/// The index of the first zero byte of `data` at or after `from`, or the
/// length of `data` where there is none.
pub open spec fn name_end(data: Seq<u8>, from: int) -> int
    decreases data.len() - from,
{
    if from < 0 || from >= data.len() {
        data.len() as int
    } else if data[from] == 0 {
        from
    } else {
        name_end(data, from + 1)
    }
}

/// The text of an entry's name: its bytes decoded leniently, so that
/// well-formed UTF-8 reads as itself and nothing is ever refused.
pub open spec fn name_text(bytes: Seq<u8>) -> Seq<char> {
    if valid_utf8(bytes) {
        decode_utf8(bytes)
    } else {
        lossy_text(bytes)
    }
}

/// The entry that `data` holds at `pos` together with the position just
/// past its terminator, or why it holds none.
pub open spec fn entry_at(data: Seq<u8>, pos: int) -> Result<(TableEntryView, int), DecodeError> {
    let end = name_end(data, pos + 8);
    if bytes_left(data.len() as int, pos) < 8 {
        Err(DecodeError::Truncated)
    } else if end >= data.len() {
        Err(DecodeError::Truncated)
    } else {
        Ok(
            (
                TableEntryView {
                    pos: be_u32(span(data, pos, 4)),
                    size: be_u32(span(data, pos + 4, 4)),
                    name: name_text(span(data, pos + 8, end - (pos + 8))),
                },
                end + 1,
            ),
        )
    }
}

/// `name_end` is the terminator's place: the zero byte with none before
/// it, or the end of the data where no zero byte follows `from`.
pub proof fn lemma_name_end_is(data: Seq<u8>, from: int, end: int)
    requires
        0 <= from <= end <= data.len(),
        end < data.len() ==> data[end] == 0,
        forall|j: int| from <= j < end ==> data[j] != 0,
    ensures
        name_end(data, from) == end,
    decreases end - from,
{
    if from < end {
        lemma_name_end_is(data, from + 1, end);
    }
}

/// An entry whose name runs to the end of the data without a zero byte is
/// truncated.
pub proof fn lemma_unterminated_name(data: Seq<u8>, pos: int)
    requires
        0 <= pos,
        forall|j: int| pos + 8 <= j < data.len() ==> data[j] != 0,
    ensures
        entry_at(data, pos) == Err::<(TableEntryView, int), DecodeError>(DecodeError::Truncated),
{
    if pos + 8 <= data.len() {
        lemma_name_end_is(data, pos + 8, data.len() as int);
    }
}

impl TableEntry {
    /// Decodes the entry that starts at the stream's position: two numbers,
    /// then a name that runs up to a zero byte.
    ///
    /// On success the position is just past the terminator; on failure it is
    /// where it was.
    pub fn from_reader(reader: &mut ByteStream<'_>) -> (r: Result<TableEntry, DecodeError>)
        ensures
            final(reader).bytes() == old(reader).bytes(),
            match r {
                Ok(entry) => entry_at(old(reader).bytes(), old(reader).pos() as int) == Ok::<
                    (TableEntryView, int),
                    DecodeError,
                >((entry@, final(reader).pos() as int)),
                Err(e) => entry_at(old(reader).bytes(), old(reader).pos() as int) == Err::<
                    (TableEntryView, int),
                    DecodeError,
                >(e) && final(reader).pos() == old(reader).pos(),
            },
    {
        let start: u64 = reader.position();
        let ghost data = reader.bytes();
        let fixed = match reader.take(8) {
            Ok(chunk) => chunk,
            Err(e) => {
                return Err(e);
            },
        };
        let pos_bytes = slice_subrange(fixed, 0, 4);
        let size_bytes = slice_subrange(fixed, 4, 8);
        assert(pos_bytes@ =~= span(data, start as int, 4));
        assert(size_bytes@ =~= span(data, start + 4, 4));
        let pos: u32 = decode_be_u32(pos_bytes);
        let size: u32 = decode_be_u32(size_bytes);

        let mut raw: Vec<u8> = Vec::new();
        let mut found: bool = false;
        while !found
            invariant
                data == old(reader).bytes(),
                start == old(reader).pos(),
                reader.bytes() == data,
                start + 8 <= data.len(),
                !found ==> start + 8 <= reader.pos() <= data.len(),
                !found ==> raw@ =~= span(data, start + 8, reader.pos() - (start + 8)),
                !found ==> name_end(data, start + 8) == name_end(data, reader.pos() as int),
                found ==> name_end(data, start + 8) < data.len(),
                found ==> reader.pos() == name_end(data, start + 8) + 1,
                found ==> raw@ =~= span(
                    data,
                    start + 8,
                    name_end(data, start + 8) - (start + 8),
                ),
            decreases data.len() - reader.pos() + (if found { 0int } else { 1int }),
        {
            match reader.next_byte() {
                None => {
                    reader.seek_to(start);
                    return Err(DecodeError::Truncated);
                },
                Some(b) => {
                    if b == 0 {
                        found = true;
                    } else {
                        raw.push(b);
                    }
                },
            }
        }
        let name = lenient_text(raw.as_slice());
        Ok(TableEntry { pos, size, name })
    }
}

} // verus!
