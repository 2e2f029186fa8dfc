use vstd::prelude::*;
use vstd::slice::{slice_subrange, slice_to_vec};
use vstd::utf8::{decode_utf8, valid_utf8};
use crate::endian::{be_u32, decode_be_u32, decode_le_u32, le_u32};
use crate::error::DecodeError;
use crate::stream::{bytes_left, span, ByteStream};
use crate::text::strict_text;

verus! {

/// The fixed sixteen-byte header of an archive.
#[derive(Debug, Clone)]
pub struct Header {
    /// The four-byte tag that names the format.
    pub name: String,
    /// The archive's size in bytes, as the header declares it.
    pub size: u32,
    /// The number of table entries that follow the header.
    pub files: u32,
    /// The size in bytes of the table, as the header declares it.
    pub indices: u32,
}

/// A header as plain values.
pub struct HeaderView {
    pub name: Seq<char>,
    pub size: u32,
    pub files: u32,
    pub indices: u32,
}

impl View for Header {
    type V = HeaderView;

    open spec fn view(&self) -> HeaderView {
        HeaderView { name: self.name@, size: self.size, files: self.files, indices: self.indices }
    }
}

/// The header that `data` holds at `pos`, or why it holds none.
///
/// The tag is judged as soon as its four bytes are there; the three numbers
/// follow it. `size` alone is stored least significant byte first.
pub open spec fn header_at(data: Seq<u8>, pos: int) -> Result<HeaderView, DecodeError> {
    if bytes_left(data.len() as int, pos) < 4 {
        Err(DecodeError::Truncated)
    } else if !valid_utf8(span(data, pos, 4)) {
        Err(DecodeError::InvalidEncoding)
    } else if bytes_left(data.len() as int, pos) < 16 {
        Err(DecodeError::Truncated)
    } else {
        Ok(
            HeaderView {
                name: decode_utf8(span(data, pos, 4)),
                size: le_u32(span(data, pos + 4, 4)),
                files: be_u32(span(data, pos + 8, 4)),
                indices: be_u32(span(data, pos + 12, 4)),
            },
        )
    }
}

impl Header {
    /// Decodes the header that starts at the stream's position.
    ///
    /// On success the position has moved past the header's sixteen bytes; on
    /// failure it is where it was.
    pub fn from_reader(reader: &mut ByteStream<'_>) -> (r: Result<Header, DecodeError>)
        ensures
            final(reader).bytes() == old(reader).bytes(),
            match r {
                Ok(h) => header_at(old(reader).bytes(), old(reader).pos() as int) == Ok::<
                    HeaderView,
                    DecodeError,
                >(h@) && final(reader).pos() == old(reader).pos() + 16,
                Err(e) => header_at(old(reader).bytes(), old(reader).pos() as int) == Err::<
                    HeaderView,
                    DecodeError,
                >(e) && final(reader).pos() == old(reader).pos(),
            },
    {
        let start: u64 = reader.position();
        let ghost data = reader.bytes();
        let tag = match reader.take(4) {
            Ok(chunk) => chunk,
            Err(e) => {
                return Err(e);
            },
        };
        let name = match strict_text(slice_to_vec(tag)) {
            Some(s) => s,
            None => {
                reader.seek_to(start);
                return Err(DecodeError::InvalidEncoding);
            },
        };
        let rest = match reader.take(12) {
            Ok(chunk) => chunk,
            Err(e) => {
                reader.seek_to(start);
                return Err(e);
            },
        };
        let size_bytes = slice_subrange(rest, 0, 4);
        let files_bytes = slice_subrange(rest, 4, 8);
        let indices_bytes = slice_subrange(rest, 8, 12);
        assert(size_bytes@ =~= span(data, start + 4, 4));
        assert(files_bytes@ =~= span(data, start + 8, 4));
        assert(indices_bytes@ =~= span(data, start + 12, 4));
        let size: u32 = decode_le_u32(size_bytes);
        let files: u32 = decode_be_u32(files_bytes);
        let indices: u32 = decode_be_u32(indices_bytes);
        Ok(Header { name, size, files, indices })
    }
}

} // verus!
