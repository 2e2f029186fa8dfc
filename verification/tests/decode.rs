use ea_big::{from_reader, ByteStream, DecodeError, Header, TableEntry};

fn sample_archive() -> Vec<u8> {
    let mut bytes: Vec<u8> = Vec::new();
    bytes.extend_from_slice(b"BIG4");
    bytes.extend_from_slice(&[0x00, 0x00, 0x00, 0x00]);
    bytes.extend_from_slice(&[0x00, 0x00, 0x00, 0x01]);
    bytes.extend_from_slice(&[0x00, 0x00, 0x00, 0x00]);
    bytes.extend_from_slice(&[0x00, 0x00, 0x00, 0x10]);
    bytes.extend_from_slice(&[0x00, 0x00, 0x00, 0x04]);
    bytes.extend_from_slice(b"a.txt\0");
    bytes
}

#[test]
fn header_fields_are_decoded_in_their_byte_orders() {
    let bytes = [
        b'B', b'I', b'G', b'F', 0x78, 0x56, 0x34, 0x12, 0x00, 0x00, 0x01, 0x02, 0xde, 0xad, 0xbe,
        0xef,
    ];
    let mut stream = ByteStream::new(&bytes);
    let header = Header::from_reader(&mut stream).unwrap();
    assert_eq!(header.name, "BIGF");
    assert_eq!(header.size, 0x1234_5678);
    assert_eq!(header.files, 0x0000_0102);
    assert_eq!(header.indices, 0xdead_beef);
    assert_eq!(stream.position(), 16);
}

#[test]
fn header_size_is_little_endian_and_files_big_endian() {
    let bytes = [
        b'B', b'I', b'G', b'4', 0x01, 0x00, 0x00, 0x00, 0x01, 0x00, 0x00, 0x00, 0x00, 0x00, 0x00,
        0x01,
    ];
    let mut stream = ByteStream::new(&bytes);
    let header = Header::from_reader(&mut stream).unwrap();
    assert_eq!(header.size, 1);
    assert_eq!(header.files, 0x0100_0000);
    assert_eq!(header.indices, 1);
}

#[test]
fn header_with_largest_numbers() {
    let mut bytes = b"BIG4".to_vec();
    bytes.extend_from_slice(&[0xff; 12]);
    let mut stream = ByteStream::new(&bytes);
    let header = Header::from_reader(&mut stream).unwrap();
    assert_eq!(header.size, u32::MAX);
    assert_eq!(header.files, u32::MAX);
    assert_eq!(header.indices, u32::MAX);
}

#[test]
fn header_shorter_than_sixteen_bytes_is_truncated() {
    let bytes = b"BIG4\0\0\0\0\0\0\0\0\0\0\0";
    assert_eq!(bytes.len(), 15);
    let mut stream = ByteStream::new(bytes);
    assert_eq!(Header::from_reader(&mut stream).unwrap_err(), DecodeError::Truncated);
    assert_eq!(stream.position(), 0);
}

#[test]
fn empty_input_is_truncated() {
    let mut stream = ByteStream::new(&[]);
    assert_eq!(Header::from_reader(&mut stream).unwrap_err(), DecodeError::Truncated);
    let mut stream = ByteStream::new(&[]);
    assert_eq!(TableEntry::from_reader(&mut stream).unwrap_err(), DecodeError::Truncated);
    let mut stream = ByteStream::new(&[]);
    assert_eq!(from_reader(&mut stream).unwrap_err(), DecodeError::Truncated);
}

#[test]
fn header_tag_that_is_not_text_is_invalid_encoding() {
    let mut bytes = vec![0xff, 0xff, 0xff, 0xff];
    bytes.extend_from_slice(&[0; 12]);
    let mut stream = ByteStream::new(&bytes);
    assert_eq!(Header::from_reader(&mut stream).unwrap_err(), DecodeError::InvalidEncoding);
    assert_eq!(stream.position(), 0);
    let mut stream = ByteStream::new(&bytes);
    assert_eq!(from_reader(&mut stream).unwrap_err(), DecodeError::InvalidEncoding);
}

#[test]
fn bad_tag_is_reported_before_missing_numbers() {
    let bytes = [0xff, 0xfe, 0xfd, 0xfc, 0x00];
    let mut stream = ByteStream::new(&bytes);
    assert_eq!(Header::from_reader(&mut stream).unwrap_err(), DecodeError::InvalidEncoding);
}

#[test]
fn header_tag_keeps_multibyte_text() {
    let mut bytes = "h\u{e9}!".as_bytes().to_vec();
    assert_eq!(bytes.len(), 4);
    bytes.extend_from_slice(&[0; 12]);
    let mut stream = ByteStream::new(&bytes);
    let header = Header::from_reader(&mut stream).unwrap();
    assert_eq!(header.name, "h\u{e9}!");
}

#[test]
fn entry_is_decoded_and_terminator_consumed() {
    let bytes = [0x00, 0x00, 0x01, 0x00, 0x00, 0x00, 0x00, 0x2a, b'd', b'i', b'r', b'\\', b'f', 0x00, 0x99];
    let mut stream = ByteStream::new(&bytes);
    let entry = TableEntry::from_reader(&mut stream).unwrap();
    assert_eq!(entry.pos, 256);
    assert_eq!(entry.size, 42);
    assert_eq!(entry.name, "dir\\f");
    assert_eq!(stream.position(), 14);
}

#[test]
fn entry_with_empty_name() {
    let bytes = [0x00, 0x00, 0x00, 0x01, 0x00, 0x00, 0x00, 0x02, 0x00];
    let mut stream = ByteStream::new(&bytes);
    let entry = TableEntry::from_reader(&mut stream).unwrap();
    assert_eq!(entry.pos, 1);
    assert_eq!(entry.size, 2);
    assert_eq!(entry.name, "");
    assert_eq!(stream.position(), 9);
}

#[test]
fn entry_name_is_decoded_leniently() {
    let bytes = [0, 0, 0, 0, 0, 0, 0, 0, b'a', 0xff, b'b', 0x00];
    let mut stream = ByteStream::new(&bytes);
    let entry = TableEntry::from_reader(&mut stream).unwrap();
    assert_eq!(entry.name, "a\u{fffd}b");
}

#[test]
fn entry_truncated_in_fixed_fields() {
    let bytes = [0x00, 0x00, 0x00, 0x01, 0x00, 0x00, 0x00];
    let mut stream = ByteStream::new(&bytes);
    assert_eq!(TableEntry::from_reader(&mut stream).unwrap_err(), DecodeError::Truncated);
    assert_eq!(stream.position(), 0);
}

#[test]
fn entry_truncated_mid_name() {
    let bytes = [0x00, 0x00, 0x00, 0x10, 0x00, 0x00, 0x00, 0x04, b'a', b'.', b't'];
    let mut stream = ByteStream::new(&bytes);
    assert_eq!(TableEntry::from_reader(&mut stream).unwrap_err(), DecodeError::Truncated);
    assert_eq!(stream.position(), 0);
}

#[test]
fn archive_truncated_mid_entry_name() {
    let mut bytes = sample_archive();
    bytes.pop();
    let mut stream = ByteStream::new(&bytes);
    assert_eq!(from_reader(&mut stream).unwrap_err(), DecodeError::Truncated);
    assert_eq!(stream.position(), 0);
}

#[test]
fn archive_with_no_files_has_no_entries() {
    let mut bytes = b"BIGF".to_vec();
    bytes.extend_from_slice(&[0x10, 0x00, 0x00, 0x00]);
    bytes.extend_from_slice(&[0x00, 0x00, 0x00, 0x00]);
    bytes.extend_from_slice(&[0x00, 0x00, 0x00, 0x07]);
    let mut stream = ByteStream::new(&bytes);
    let (header, entries) = from_reader(&mut stream).unwrap();
    assert_eq!(header.name, "BIGF");
    assert_eq!(header.size, 16);
    assert_eq!(header.files, 0);
    assert_eq!(header.indices, 7);
    assert!(entries.is_empty());
    assert_eq!(stream.position(), 16);
}

#[test]
fn archive_announcing_more_entries_than_it_holds_is_truncated() {
    let mut bytes = sample_archive();
    bytes[11] = 2;
    let mut stream = ByteStream::new(&bytes);
    assert_eq!(from_reader(&mut stream).unwrap_err(), DecodeError::Truncated);
    assert_eq!(stream.position(), 0);
}

#[test]
fn archive_entries_keep_table_order() {
    let names = ["zeta", "alpha", "mid/dle"];
    let mut bytes = b"BIGF".to_vec();
    bytes.extend_from_slice(&500u32.to_le_bytes());
    bytes.extend_from_slice(&3u32.to_be_bytes());
    bytes.extend_from_slice(&40u32.to_be_bytes());
    for (i, name) in names.iter().enumerate() {
        bytes.extend_from_slice(&(100 * (i as u32 + 1)).to_be_bytes());
        bytes.extend_from_slice(&(7 + i as u32).to_be_bytes());
        bytes.extend_from_slice(name.as_bytes());
        bytes.push(0);
    }
    let table_end = bytes.len() as u64;
    bytes.extend_from_slice(&[0xaa; 32]);
    let mut stream = ByteStream::new(&bytes);
    let (header, entries) = from_reader(&mut stream).unwrap();
    assert_eq!(header.name, "BIGF");
    assert_eq!(header.size, 500);
    assert_eq!(header.files, 3);
    assert_eq!(header.indices, 40);
    assert_eq!(entries.len(), 3);
    for (i, name) in names.iter().enumerate() {
        assert_eq!(entries[i].pos, 100 * (i as u32 + 1));
        assert_eq!(entries[i].size, 7 + i as u32);
        assert_eq!(entries[i].name, *name);
    }
    assert_eq!(stream.position(), table_end);
}

#[test]
fn decoding_starts_at_the_stream_position() {
    let mut bytes = vec![0x55; 3];
    bytes.extend_from_slice(&sample_archive());
    let mut stream = ByteStream::new(&bytes);
    stream.seek_to(3);
    let (header, entries) = from_reader(&mut stream).unwrap();
    assert_eq!(header.files, 1);
    assert_eq!(entries[0].name, "a.txt");
    assert_eq!(stream.position(), bytes.len() as u64);
}

#[test]
fn error_messages() {
    assert_eq!(DecodeError::Truncated.message(), "unexpected end of input");
    assert_eq!(DecodeError::InvalidEncoding.message(), "archive tag is not valid UTF-8");
    assert_eq!(DecodeError::InvalidSeek.message(), "cannot seek to that position");
}
