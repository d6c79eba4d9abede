//! The tables, and the decoder of each.

use vstd::prelude::*;
use crate::codec::{read_u16_le, read_u32_le};
use crate::cursor::{decodes_as, ByteCursor, Parsed};
use crate::error::DecodeError;
use crate::format::{table_at, ResourceKind, TableModel, MARKER_LEN};
use crate::items::{FileNameTableItem, LegacyStringTableItem, NameTableItem, StringTableItem};
use crate::patch::{models, read_items, DeserializePatch};

verus! {

/// A string table in its current form.
#[derive(Debug, Clone, PartialEq, Eq)]
pub struct StringTable {
    item_count: u32,
    assume_magic_number: u32,
    items: Vec<StringTableItem>,
}

impl View for StringTable {
    type V = TableModel;

    closed spec fn view(&self) -> TableModel {
        TableModel {
            item_count: self.item_count as nat,
            unknown: self.assume_magic_number as nat,
            items: models(self.items@),
        }
    }
}

impl DeserializePatch for StringTable {
    open spec fn parse(&self, buf: Seq<u8>, at: int) -> Parsed<TableModel> {
        table_at(ResourceKind::StringTable, buf, at)
    }

    /// Passes over the marker, reads the 32-bit count and the 32-bit unknown
    /// field, then as many items as the count says.
    fn deserialize_patch(&self, cursor: &mut ByteCursor) -> (r: Result<Self, DecodeError>)
        ensures
            final(cursor).bytes() == old(cursor).bytes(),
            decodes_as(
                r,
                final(cursor).offset() as int,
                table_at(
                    ResourceKind::StringTable,
                    old(cursor).bytes(),
                    old(cursor).offset() as int,
                ),
            ),
    {
        cursor.skip(MARKER_LEN)?;
        let item_count = read_u32_le(cursor)?;
        let assume_magic_number = read_u32_le(cursor)?;
        let items = read_items(
            &StringTableItem::default(),
            cursor,
            item_count,
            Ghost(ResourceKind::StringTable.item_layout()),
        )?;
        Ok(StringTable::new(item_count, assume_magic_number, items))
    }
}

/// A name table.
#[derive(Debug, Clone, PartialEq, Eq)]
pub struct NameTable {
    assume_padding: u16,
    item_count: u16,
    items: Vec<NameTableItem>,
}

impl View for NameTable {
    type V = TableModel;

    closed spec fn view(&self) -> TableModel {
        TableModel {
            item_count: self.item_count as nat,
            unknown: self.assume_padding as nat,
            items: models(self.items@),
        }
    }
}

impl DeserializePatch for NameTable {
    open spec fn parse(&self, buf: Seq<u8>, at: int) -> Parsed<TableModel> {
        table_at(ResourceKind::NameTable, buf, at)
    }

    /// Passes over the marker, reads the 16-bit unknown field and the 16-bit
    /// count, then as many items as the count says.
    fn deserialize_patch(&self, cursor: &mut ByteCursor) -> (r: Result<Self, DecodeError>)
        ensures
            final(cursor).bytes() == old(cursor).bytes(),
            decodes_as(
                r,
                final(cursor).offset() as int,
                table_at(
                    ResourceKind::NameTable,
                    old(cursor).bytes(),
                    old(cursor).offset() as int,
                ),
            ),
    {
        cursor.skip(MARKER_LEN)?;
        let assume_padding = read_u16_le(cursor)?;
        let item_count = read_u16_le(cursor)?;
        let items = read_items(
            &NameTableItem::default(),
            cursor,
            item_count as u32,
            Ghost(ResourceKind::NameTable.item_layout()),
        )?;
        Ok(NameTable::new(assume_padding, item_count, items))
    }
}

/// A file-name table.
#[derive(Debug, Clone, PartialEq, Eq)]
pub struct FileNameTable {
    item_count: u32,
    assume_magic_number: u32,
    items: Vec<FileNameTableItem>,
}

impl View for FileNameTable {
    type V = TableModel;

    closed spec fn view(&self) -> TableModel {
        TableModel {
            item_count: self.item_count as nat,
            unknown: self.assume_magic_number as nat,
            items: models(self.items@),
        }
    }
}

impl DeserializePatch for FileNameTable {
    open spec fn parse(&self, buf: Seq<u8>, at: int) -> Parsed<TableModel> {
        table_at(ResourceKind::FileNameTable, buf, at)
    }

    /// Passes over the marker, reads the 32-bit count and the 32-bit unknown
    /// field, then as many items as the count says.
    fn deserialize_patch(&self, cursor: &mut ByteCursor) -> (r: Result<Self, DecodeError>)
        ensures
            final(cursor).bytes() == old(cursor).bytes(),
            decodes_as(
                r,
                final(cursor).offset() as int,
                table_at(
                    ResourceKind::FileNameTable,
                    old(cursor).bytes(),
                    old(cursor).offset() as int,
                ),
            ),
    {
        cursor.skip(MARKER_LEN)?;
        let item_count = read_u32_le(cursor)?;
        let assume_magic_number = read_u32_le(cursor)?;
        let items = read_items(
            &FileNameTableItem::default(),
            cursor,
            item_count,
            Ghost(ResourceKind::FileNameTable.item_layout()),
        )?;
        Ok(FileNameTable::new(item_count, assume_magic_number, items))
    }
}

/// A string table in its legacy form.
#[derive(Debug, Clone, PartialEq, Eq)]
pub struct LegacyStringTable {
    item_count: u32,
    assume_magic_number: u32,
    items: Vec<LegacyStringTableItem>,
}

impl View for LegacyStringTable {
    type V = TableModel;

    closed spec fn view(&self) -> TableModel {
        TableModel {
            item_count: self.item_count as nat,
            unknown: self.assume_magic_number as nat,
            items: models(self.items@),
        }
    }
}

impl DeserializePatch for LegacyStringTable {
    open spec fn parse(&self, buf: Seq<u8>, at: int) -> Parsed<TableModel> {
        table_at(ResourceKind::LegacyStringTable, buf, at)
    }

    /// Passes over the eight bytes where a marker would stand, reads the
    /// 32-bit count and the 32-bit unknown field, then as many items as the
    /// count says.
    fn deserialize_patch(&self, cursor: &mut ByteCursor) -> (r: Result<Self, DecodeError>)
        ensures
            final(cursor).bytes() == old(cursor).bytes(),
            decodes_as(
                r,
                final(cursor).offset() as int,
                table_at(
                    ResourceKind::LegacyStringTable,
                    old(cursor).bytes(),
                    old(cursor).offset() as int,
                ),
            ),
    {
        cursor.skip(MARKER_LEN)?;
        let item_count = read_u32_le(cursor)?;
        let assume_magic_number = read_u32_le(cursor)?;
        let items = read_items(
            &LegacyStringTableItem::default(),
            cursor,
            item_count,
            Ghost(ResourceKind::LegacyStringTable.item_layout()),
        )?;
        Ok(LegacyStringTable::new(item_count, assume_magic_number, items))
    }
}

impl StringTable {
    /// A table with the given header fields and items.
    pub fn new(item_count: u32, assume_magic_number: u32, items: Vec<StringTableItem>) -> (table:
        StringTable)
        ensures
            table@ == (TableModel {
                item_count: item_count as nat,
                unknown: assume_magic_number as nat,
                items: models(items@),
            }),
    {
        StringTable { item_count, assume_magic_number, items }
    }

    /// The number of items that the header declares.
    pub fn item_count(&self) -> (count: u32)
        ensures
            count == self@.item_count,
    {
        self.item_count
    }

    /// The header field of unknown meaning, as the buffer holds it.
    pub fn assume_magic_number(&self) -> (unknown: u32)
        ensures
            unknown == self@.unknown,
    {
        self.assume_magic_number
    }

    /// The items, in the order in which the buffer holds them.
    pub fn items(&self) -> (items: &Vec<StringTableItem>)
        ensures
            models(items@) == self@.items,
    {
        &self.items
    }
}

impl Default for StringTable {
    fn default() -> (table: StringTable)
        ensures
            table@ == (TableModel { item_count: 0, unknown: 0, items: Seq::empty() }),
    {
        let items: Vec<StringTableItem> = Vec::new();
        assert(models(items@) =~= Seq::empty());
        StringTable { item_count: 0, assume_magic_number: 0, items }
    }
}

impl NameTable {
    /// A table with the given header fields and items.
    pub fn new(assume_padding: u16, item_count: u16, items: Vec<NameTableItem>) -> (table:
        NameTable)
        ensures
            table@ == (TableModel {
                item_count: item_count as nat,
                unknown: assume_padding as nat,
                items: models(items@),
            }),
    {
        NameTable { assume_padding, item_count, items }
    }

    /// The header field of unknown meaning, as the buffer holds it.
    pub fn assume_padding(&self) -> (unknown: u16)
        ensures
            unknown == self@.unknown,
    {
        self.assume_padding
    }

    /// The number of items that the header declares.
    pub fn item_count(&self) -> (count: u16)
        ensures
            count == self@.item_count,
    {
        self.item_count
    }

    /// The items, in the order in which the buffer holds them.
    pub fn items(&self) -> (items: &Vec<NameTableItem>)
        ensures
            models(items@) == self@.items,
    {
        &self.items
    }
}

impl Default for NameTable {
    fn default() -> (table: NameTable)
        ensures
            table@ == (TableModel { item_count: 0, unknown: 0, items: Seq::empty() }),
    {
        let items: Vec<NameTableItem> = Vec::new();
        assert(models(items@) =~= Seq::empty());
        NameTable { assume_padding: 0, item_count: 0, items }
    }
}

impl FileNameTable {
    /// A table with the given header fields and items.
    pub fn new(item_count: u32, assume_magic_number: u32, items: Vec<FileNameTableItem>) -> (table:
        FileNameTable)
        ensures
            table@ == (TableModel {
                item_count: item_count as nat,
                unknown: assume_magic_number as nat,
                items: models(items@),
            }),
    {
        FileNameTable { item_count, assume_magic_number, items }
    }

    /// The number of items that the header declares.
    pub fn item_count(&self) -> (count: u32)
        ensures
            count == self@.item_count,
    {
        self.item_count
    }

    /// The header field of unknown meaning, as the buffer holds it.
    pub fn assume_magic_number(&self) -> (unknown: u32)
        ensures
            unknown == self@.unknown,
    {
        self.assume_magic_number
    }

    /// The items, in the order in which the buffer holds them.
    pub fn items(&self) -> (items: &Vec<FileNameTableItem>)
        ensures
            models(items@) == self@.items,
    {
        &self.items
    }
}

impl Default for FileNameTable {
    fn default() -> (table: FileNameTable)
        ensures
            table@ == (TableModel { item_count: 0, unknown: 0, items: Seq::empty() }),
    {
        let items: Vec<FileNameTableItem> = Vec::new();
        assert(models(items@) =~= Seq::empty());
        FileNameTable { item_count: 0, assume_magic_number: 0, items }
    }
}

impl LegacyStringTable {
    /// A table with the given header fields and items.
    pub fn new(
        item_count: u32,
        assume_magic_number: u32,
        items: Vec<LegacyStringTableItem>,
    ) -> (table: LegacyStringTable)
        ensures
            table@ == (TableModel {
                item_count: item_count as nat,
                unknown: assume_magic_number as nat,
                items: models(items@),
            }),
    {
        LegacyStringTable { item_count, assume_magic_number, items }
    }

    /// The number of items that the header declares.
    pub fn item_count(&self) -> (count: u32)
        ensures
            count == self@.item_count,
    {
        self.item_count
    }

    /// The header field of unknown meaning, as the buffer holds it.
    pub fn assume_magic_number(&self) -> (unknown: u32)
        ensures
            unknown == self@.unknown,
    {
        self.assume_magic_number
    }

    /// The items, in the order in which the buffer holds them.
    pub fn items(&self) -> (items: &Vec<LegacyStringTableItem>)
        ensures
            models(items@) == self@.items,
    {
        &self.items
    }
}

impl Default for LegacyStringTable {
    fn default() -> (table: LegacyStringTable)
        ensures
            table@ == (TableModel { item_count: 0, unknown: 0, items: Seq::empty() }),
    {
        let items: Vec<LegacyStringTableItem> = Vec::new();
        assert(models(items@) =~= Seq::empty());
        LegacyStringTable { item_count: 0, assume_magic_number: 0, items }
    }
}

} // verus!
