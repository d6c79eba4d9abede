//! Decoding of the binary patch resources of a legacy game engine: string
//! tables, name tables and file-name tables.
//!
//! A resource opens with an eight-byte marker, a count and a field of
//! unknown meaning, and goes on with as many items as the count says. An
//! item holds a text in Shift_JIS behind a length field, in some tables
//! behind an id as well, and is padded to a multiple of two or four bytes.
//! The text of most tables is stored with every bit flipped.
//!
//! [`decode`] finds the resource of a requested kind in a buffer and decodes
//! it. What it yields on every buffer is laid down in [`format`], and what
//! follows from that in [`laws`].

pub mod codec;
pub mod cursor;
pub mod dispatch;
pub mod error;
pub mod format;
pub mod items;
pub mod laws;
pub mod locator;
pub mod patch;
pub mod tables;

pub use cursor::ByteCursor;
pub use dispatch::{decode, DataDispatcher};
pub use error::{DecodeError, SeekFrom};
pub use format::ResourceKind;
pub use items::{FileNameTableItem, LegacyStringTableItem, NameTableItem, StringTableItem};
pub use locator::find_marker;
pub use patch::{DataDispatcherHeader, DeserializePatch};
pub use tables::{FileNameTable, LegacyStringTable, NameTable, StringTable};
