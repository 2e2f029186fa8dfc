//! Decoder for the EA "BIG" archive container: a fixed header, a table of
//! named entries, and a windowed read/seek view onto one embedded file.
//!
//! Every function is stated over a byte sequence and proved against it.

pub mod archive;
pub mod embedded;
pub mod endian;
pub mod entry;
pub mod error;
pub mod header;
pub mod layout;
pub mod stream;
pub mod text;
pub mod window;

pub use crate::archive::from_reader;
pub use crate::embedded::{open_file, EmbeddedFile};
pub use crate::entry::TableEntry;
pub use crate::error::DecodeError;
pub use crate::header::Header;
pub use crate::stream::ByteStream;
pub use crate::window::{SeekFrom, Window};
