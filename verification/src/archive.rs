use vstd::prelude::*;
use vstd::utf8::valid_utf8;
use crate::entry::{entry_at, entry_views, TableEntry, TableEntryView};
use crate::error::DecodeError;
use crate::header::{header_at, Header, HeaderView};
use crate::stream::{bytes_left, span, ByteStream};

verus! {

/// The first `n` entries that `data` holds from `pos` on, in table order,
/// together with the position just past the last of them; or the first
/// failure met on the way.
pub open spec fn entries_at(data: Seq<u8>, pos: int, n: nat) -> Result<
    (Seq<TableEntryView>, int),
    DecodeError,
>
    decreases n,
{
    if n == 0 {
        Ok((Seq::empty(), pos))
    } else {
        match entries_at(data, pos, (n - 1) as nat) {
            Err(e) => Err(e),
            Ok((front, next)) => match entry_at(data, next) {
                Err(e) => Err(e),
                Ok((entry, after)) => Ok((front.push(entry), after)),
            },
        }
    }
}

/// The header and the table that `data` holds at `pos`, with the position
/// just past the table: the header says how many entries there are.
pub open spec fn archive_at(data: Seq<u8>, pos: int) -> Result<
    (HeaderView, Seq<TableEntryView>, int),
    DecodeError,
> {
    match header_at(data, pos) {
        Err(e) => Err(e),
        Ok(header) => match entries_at(data, pos + 16, header.files as nat) {
            Err(e) => Err(e),
            Ok((entries, after)) => Ok((header, entries, after)),
        },
    }
}

/// Decodes the header and then as many table entries as it announces.
///
/// On success the position is just past the last entry; on failure nothing
/// is handed out and the position is where it was.
pub fn from_reader(reader: &mut ByteStream<'_>) -> (r: Result<
    (Header, Vec<TableEntry>),
    DecodeError,
>)
    ensures
        final(reader).bytes() == old(reader).bytes(),
        match r {
            Ok((header, entries)) => archive_at(old(reader).bytes(), old(reader).pos() as int)
                == Ok::<(HeaderView, Seq<TableEntryView>, int), DecodeError>(
                (header@, entry_views(entries@), final(reader).pos() as int),
            ),
            Err(e) => archive_at(old(reader).bytes(), old(reader).pos() as int) == Err::<
                (HeaderView, Seq<TableEntryView>, int),
                DecodeError,
            >(e) && final(reader).pos() == old(reader).pos(),
        },
{
    let start: u64 = reader.position();
    let ghost data = reader.bytes();
    let header = match Header::from_reader(reader) {
        Ok(h) => h,
        Err(e) => {
            return Err(e);
        },
    };
    let mut entries: Vec<TableEntry> = Vec::new();
    let mut i: u32 = 0;
    assert(entry_views(entries@) =~= Seq::<TableEntryView>::empty());
    while i < header.files
        invariant
            data == old(reader).bytes(),
            start == old(reader).pos(),
            header_at(data, start as int) == Ok::<HeaderView, DecodeError>(header@),
            reader.bytes() == data,
            i <= header.files,
            entries@.len() == i,
            entries_at(data, start + 16, i as nat) == Ok::<
                (Seq<TableEntryView>, int),
                DecodeError,
            >((entry_views(entries@), reader.pos() as int)),
        decreases header.files - i,
    {
        let ghost front = entries@;
        match TableEntry::from_reader(reader) {
            Ok(entry) => {
                entries.push(entry);
                assert(entry_views(entries@) =~= entry_views(front).push(entry@));
            },
            Err(e) => {
                proof {
                    lemma_entries_fail(data, start + 16, i as nat + 1, header.files as nat);
                }
                reader.seek_to(start);
                return Err(e);
            },
        }
        i += 1;
    }
    Ok((header, entries))
}

/// A header that announces no entries decodes to an empty table, and the
/// table ends where the header does.
pub proof fn lemma_no_files(data: Seq<u8>, pos: int, header: HeaderView)
    requires
        header_at(data, pos) == Ok::<HeaderView, DecodeError>(header),
        header.files == 0,
    ensures
        archive_at(data, pos) == Ok::<(HeaderView, Seq<TableEntryView>, int), DecodeError>(
            (header, Seq::empty(), pos + 16),
        ),
{
}

/// Whatever fails in the header fails the archive in the same way: among
/// them a tag that is not text, which is `InvalidEncoding`.
pub proof fn lemma_header_failure(data: Seq<u8>, pos: int)
    requires
        header_at(data, pos) is Err,
    ensures
        archive_at(data, pos) is Err,
        archive_at(data, pos)->Err_0 == header_at(data, pos)->Err_0,
        bytes_left(data.len() as int, pos) >= 4 && !valid_utf8(span(data, pos, 4)) ==> archive_at(
            data,
            pos,
        ) == Err::<(HeaderView, Seq<TableEntryView>, int), DecodeError>(
            DecodeError::InvalidEncoding,
        ),
{
}

/// Once the table fails within its first `n` entries, it fails in the same
/// way however many more are asked for.
pub proof fn lemma_entries_fail(data: Seq<u8>, pos: int, n: nat, m: nat)
    requires
        n <= m,
        entries_at(data, pos, n) is Err,
    ensures
        entries_at(data, pos, m) == entries_at(data, pos, n),
    decreases m,
{
    if n < m {
        lemma_entries_fail(data, pos, n, (m - 1) as nat);
    }
}

} // verus!
