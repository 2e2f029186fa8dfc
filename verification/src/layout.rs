use vstd::prelude::*;
use vstd::utf8::{encode_utf8, encode_utf8_decode_utf8, encode_utf8_valid_utf8};
use crate::archive::{archive_at, entries_at};
use crate::endian::{be_bytes, le_bytes, lemma_bytes_round_trip};
use crate::entry::{entry_at, lemma_name_end_is, name_text, TableEntryView};
use crate::error::DecodeError;
use crate::header::{header_at, HeaderView};
use crate::stream::span;

verus! {

/// The sixteen bytes that spell a header: the tag, `size` least significant
/// byte first, then `files` and `indices` most significant byte first.
pub open spec fn header_bytes(header: HeaderView) -> Seq<u8> {
    encode_utf8(header.name) + le_bytes(header.size) + be_bytes(header.files) + be_bytes(
        header.indices,
    )
}

/// The bytes that spell one entry: two numbers, the name, a zero byte.
pub open spec fn entry_bytes(entry: TableEntryView) -> Seq<u8> {
    be_bytes(entry.pos) + be_bytes(entry.size) + encode_utf8(entry.name) + seq![0u8]
}

/// The bytes that spell a table: its entries one after the other.
pub open spec fn table_bytes(entries: Seq<TableEntryView>) -> Seq<u8>
    decreases entries.len(),
{
    if entries.len() == 0 {
        Seq::empty()
    } else {
        table_bytes(entries.drop_last()) + entry_bytes(entries.last())
    }
}

/// A name that can be written down: its encoding holds no zero byte, which
/// would end it early.
pub open spec fn writable_name(name: Seq<char>) -> bool {
    forall|j: int| 0 <= j < encode_utf8(name).len() ==> #[trigger] encode_utf8(name)[j] != 0
}

/// A header and a table that can be written down: the tag takes four
/// bytes, the header counts the entries, and every name is writable.
pub open spec fn writable(header: HeaderView, entries: Seq<TableEntryView>) -> bool {
    &&& encode_utf8(header.name).len() == 4
    &&& header.files == entries.len()
    &&& forall|i: int| 0 <= i < entries.len() ==> writable_name((#[trigger] entries[i]).name)
}

/// A header that was written down is read back as it was, wherever it
/// stands in the data.
pub proof fn lemma_header_round_trip(prefix: Seq<u8>, header: HeaderView, suffix: Seq<u8>)
    requires
        encode_utf8(header.name).len() == 4,
    ensures
        header_bytes(header).len() == 16,
        header_at(prefix + header_bytes(header) + suffix, prefix.len() as int) == Ok::<
            HeaderView,
            DecodeError,
        >(header),
{
    let data = prefix + header_bytes(header) + suffix;
    let at = prefix.len() as int;
    lemma_bytes_round_trip(header.size);
    lemma_bytes_round_trip(header.files);
    lemma_bytes_round_trip(header.indices);
    encode_utf8_valid_utf8(header.name);
    encode_utf8_decode_utf8(header.name);
    assert(span(data, at, 4) =~= encode_utf8(header.name));
    assert(span(data, at + 4, 4) =~= le_bytes(header.size));
    assert(span(data, at + 8, 4) =~= be_bytes(header.files));
    assert(span(data, at + 12, 4) =~= be_bytes(header.indices));
}

/// An entry that was written down is read back as it was, and the reader
/// stops just past its terminator.
pub proof fn lemma_entry_round_trip(prefix: Seq<u8>, entry: TableEntryView, suffix: Seq<u8>)
    requires
        writable_name(entry.name),
    ensures
        entry_at(prefix + entry_bytes(entry) + suffix, prefix.len() as int) == Ok::<
            (TableEntryView, int),
            DecodeError,
        >((entry, (prefix.len() + entry_bytes(entry).len()) as int)),
{
    let data = prefix + entry_bytes(entry) + suffix;
    let at = prefix.len() as int;
    let name = encode_utf8(entry.name);
    let end = at + 8 + name.len();
    lemma_bytes_round_trip(entry.pos);
    lemma_bytes_round_trip(entry.size);
    encode_utf8_valid_utf8(entry.name);
    encode_utf8_decode_utf8(entry.name);
    assert(entry_bytes(entry).len() == 9 + name.len());
    assert(data[end] == 0);
    assert forall|j: int| at + 8 <= j < end implies data[j] != 0 by {
        assert(data[j] == name[j - (at + 8)]);
    }
    lemma_name_end_is(data, at + 8, end);
    assert(span(data, at, 4) =~= be_bytes(entry.pos));
    assert(span(data, at + 4, 4) =~= be_bytes(entry.size));
    assert(span(data, at + 8, end - (at + 8)) =~= name);
    assert(name_text(name) == entry.name);
}

/// A table that was written down is read back entry by entry, in order.
pub proof fn lemma_table_round_trip(
    prefix: Seq<u8>,
    entries: Seq<TableEntryView>,
    suffix: Seq<u8>,
)
    requires
        forall|i: int| 0 <= i < entries.len() ==> writable_name((#[trigger] entries[i]).name),
    ensures
        entries_at(prefix + table_bytes(entries) + suffix, prefix.len() as int, entries.len())
            == Ok::<(Seq<TableEntryView>, int), DecodeError>(
            (entries, (prefix.len() + table_bytes(entries).len()) as int),
        ),
    decreases entries.len(),
{
    let data = prefix + table_bytes(entries) + suffix;
    if entries.len() == 0 {
        assert(entries =~= Seq::empty());
    } else {
        let front = entries.drop_last();
        let last = entries.last();
        let tail = entry_bytes(last) + suffix;
        assert(data =~= prefix + table_bytes(front) + tail);
        lemma_table_round_trip(prefix, front, tail);
        assert(data =~= (prefix + table_bytes(front)) + entry_bytes(last) + suffix);
        lemma_entry_round_trip(prefix + table_bytes(front), last, suffix);
        assert(front.push(last) =~= entries);
    }
}

/// Writing down a header and its table, with anything at all behind them,
/// and decoding the bytes gives back the same header and the same entries
/// in the same order.
pub proof fn lemma_archive_round_trip(
    header: HeaderView,
    entries: Seq<TableEntryView>,
    content: Seq<u8>,
)
    requires
        writable(header, entries),
    ensures
        archive_at(header_bytes(header) + table_bytes(entries) + content, 0) == Ok::<
            (HeaderView, Seq<TableEntryView>, int),
            DecodeError,
        >((header, entries, (16 + table_bytes(entries).len()) as int)),
{
    let data = header_bytes(header) + table_bytes(entries) + content;
    let none = Seq::<u8>::empty();
    assert(data =~= none + header_bytes(header) + (table_bytes(entries) + content));
    lemma_header_round_trip(none, header, table_bytes(entries) + content);
    lemma_table_round_trip(header_bytes(header), entries, content);
}

} // verus!
