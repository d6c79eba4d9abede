//! Decoding a resource of a requested kind out of a buffer.

use vstd::prelude::*;
use crate::cursor::{decodes_as, failed, yields, ByteCursor, Parsed};
use crate::error::{DecodeError, SeekFrom};
use crate::format::{
    table_at, ResourceKind, TableModel, FILE_NAME_TABLE_MARKER, NAME_TABLE_MARKER,
    STRING_TABLE_MARKER,
};
use crate::laws::lemma_table_extent;
use crate::locator::{find_marker, first_occurrence};
use crate::patch::{DataDispatcherHeader, DeserializePatch};
use crate::tables::{FileNameTable, LegacyStringTable, NameTable, StringTable};

verus! {

impl DataDispatcherHeader for StringTable {
    const MAGIC_HEADER: [u8; 8] = STRING_TABLE_MARKER;
}

impl DataDispatcherHeader for NameTable {
    const MAGIC_HEADER: [u8; 8] = NAME_TABLE_MARKER;
}

impl DataDispatcherHeader for FileNameTable {
    const MAGIC_HEADER: [u8; 8] = FILE_NAME_TABLE_MARKER;
}

/// A table of one of the kinds.
#[derive(Debug, Clone, PartialEq, Eq)]
pub enum DataDispatcher {
    StringTable(StringTable),
    NameTable(NameTable),
    FileNameTable(FileNameTable),
    LegacyStringTable(LegacyStringTable),
}

/// A decoded table and its kind.
pub struct DispatchModel {
    pub kind: ResourceKind,
    pub table: TableModel,
}

impl View for DataDispatcher {
    type V = DispatchModel;

    open spec fn view(&self) -> DispatchModel {
        match self {
            DataDispatcher::StringTable(table) => DispatchModel {
                kind: ResourceKind::StringTable,
                table: table@,
            },
            DataDispatcher::NameTable(table) => DispatchModel {
                kind: ResourceKind::NameTable,
                table: table@,
            },
            DataDispatcher::FileNameTable(table) => DispatchModel {
                kind: ResourceKind::FileNameTable,
                table: table@,
            },
            DataDispatcher::LegacyStringTable(table) => DispatchModel {
                kind: ResourceKind::LegacyStringTable,
                table: table@,
            },
        }
    }
}

/// The table of kind `kind` at offset `at`, together with its kind.
pub open spec fn dispatched_at(kind: ResourceKind, buf: Seq<u8>, at: int) -> Parsed<
    DispatchModel,
> {
    let table = table_at(kind, buf, at);
    match table.value {
        Ok(t) => Parsed { value: Ok(DispatchModel { kind, table: t }), end: table.end },
        Err(_) => failed(table),
    }
}

impl DataDispatcher {
    /// The kind of the table.
    pub fn kind(&self) -> (kind: ResourceKind)
        ensures
            kind == self@.kind,
    {
        match self {
            DataDispatcher::StringTable(_) => ResourceKind::StringTable,
            DataDispatcher::NameTable(_) => ResourceKind::NameTable,
            DataDispatcher::FileNameTable(_) => ResourceKind::FileNameTable,
            DataDispatcher::LegacyStringTable(_) => ResourceKind::LegacyStringTable,
        }
    }

    /// The marker by which a table of this kind is found in a buffer. The
    /// legacy kind is read from the start of the buffer and has none.
    pub fn magic_header(&self) -> (marker: Option<[u8; 8]>)
        ensures
            match marker {
                Some(bytes) => self@.kind.marker_bytes() == Some(bytes@),
                None => self@.kind.marker_bytes() is None,
            },
    {
        match self {
            DataDispatcher::StringTable(_) => Some(StringTable::MAGIC_HEADER),
            DataDispatcher::NameTable(_) => Some(NameTable::MAGIC_HEADER),
            DataDispatcher::FileNameTable(_) => Some(FileNameTable::MAGIC_HEADER),
            DataDispatcher::LegacyStringTable(_) => None,
        }
    }

    /// An empty table of kind `kind`, from which a table of that kind can
    /// be decoded.
    pub fn empty(kind: ResourceKind) -> (table: DataDispatcher)
        ensures
            table@ == (DispatchModel {
                kind,
                table: TableModel { item_count: 0, unknown: 0, items: Seq::empty() },
            }),
    {
        match kind {
            ResourceKind::StringTable => DataDispatcher::StringTable(StringTable::default()),
            ResourceKind::NameTable => DataDispatcher::NameTable(NameTable::default()),
            ResourceKind::FileNameTable => DataDispatcher::FileNameTable(FileNameTable::default()),
            ResourceKind::LegacyStringTable => DataDispatcher::LegacyStringTable(
                LegacyStringTable::default(),
            ),
        }
    }
}

impl DeserializePatch for DataDispatcher {
    open spec fn parse(&self, buf: Seq<u8>, at: int) -> Parsed<DispatchModel> {
        dispatched_at(self@.kind, buf, at)
    }

    /// Decodes a table of the kind that `self` is of.
    fn deserialize_patch(&self, cursor: &mut ByteCursor) -> (r: Result<Self, DecodeError>)
        ensures
            final(cursor).bytes() == old(cursor).bytes(),
            decodes_as(
                r,
                final(cursor).offset() as int,
                dispatched_at(self@.kind, old(cursor).bytes(), old(cursor).offset() as int),
            ),
    {
        Ok(
            match self {
                DataDispatcher::StringTable(string_table) => DataDispatcher::StringTable(
                    string_table.deserialize_patch(cursor)?,
                ),
                DataDispatcher::NameTable(name_table) => DataDispatcher::NameTable(
                    name_table.deserialize_patch(cursor)?,
                ),
                DataDispatcher::FileNameTable(fname_table) => DataDispatcher::FileNameTable(
                    fname_table.deserialize_patch(cursor)?,
                ),
                DataDispatcher::LegacyStringTable(legacy_table) => {
                    DataDispatcher::LegacyStringTable(legacy_table.deserialize_patch(cursor)?)
                },
            },
        )
    }
}

/// The offset at which a resource of kind `kind` begins in `buf`: that of
/// the first occurrence of its marker, or the start of the buffer for the
/// kind that has no marker.
pub open spec fn resource_start(buf: Seq<u8>, kind: ResourceKind) -> Option<int> {
    match kind.marker_bytes() {
        Some(marker) => first_occurrence(buf, marker),
        None => Some(0),
    }
}

/// What decoding a resource of kind `kind` out of `buf` gives.
pub open spec fn decoded(buf: Seq<u8>, kind: ResourceKind) -> Result<DispatchModel, DecodeError> {
    match resource_start(buf, kind) {
        Some(at) => dispatched_at(kind, buf, at).value,
        None => Err(DecodeError::MarkerNotFound),
    }
}

/// Decodes the resource of kind `kind` that `buffer` holds: finds where it
/// begins and decodes the table there. The table that comes back is of the
/// kind asked for and holds as many items as its header counts.
pub fn decode(buffer: Vec<u8>, kind: ResourceKind) -> (r: Result<DataDispatcher, DecodeError>)
    ensures
        yields(r, decoded(buffer@, kind)),
        r matches Ok(data) ==> data@.kind == kind && data@.table.items.len()
            == data@.table.item_count,
{
    proof {
        if let Some(at) = resource_start(buffer@, kind) {
            if table_at(kind, buffer@, at).value is Ok {
                lemma_table_extent(kind, buffer@, at);
            }
        }
    }
    let data_patcher = DataDispatcher::empty(kind);
    let start_pos = match data_patcher.magic_header() {
        Some(header) => find_marker(buffer.as_slice(), header.as_slice())?,
        None => 0,
    };
    let mut cursor = ByteCursor::new(buffer);
    cursor.seek(SeekFrom::Start(start_pos))?;
    data_patcher.deserialize_patch(&mut cursor)
}

} // verus!
