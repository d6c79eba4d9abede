//! The items of the tables, and the decoder of each.

use vstd::prelude::*;
use crate::codec::{aligned_item_size, decode_text, read_u16_le, read_u32_le, read_u8};
use crate::cursor::{decodes_as, ByteCursor, Parsed};
use crate::error::DecodeError;
use crate::format::{item_model_at, ItemModel, ResourceKind};
use crate::patch::DeserializePatch;

verus! {

/// An item of a string table: an id and a text.
#[derive(Debug, Clone, PartialEq, Eq)]
pub struct StringTableItem {
    id: u32,
    length: u16,
    data: String,
}

impl View for StringTableItem {
    type V = ItemModel;

    closed spec fn view(&self) -> ItemModel {
        ItemModel { id: Some(self.id), length: self.length as nat, data: self.data@ }
    }
}

impl DeserializePatch for StringTableItem {
    open spec fn parse(&self, buf: Seq<u8>, at: int) -> Parsed<ItemModel> {
        item_model_at(ResourceKind::StringTable.item_layout(), buf, at)
    }

    /// Reads the id, the 16-bit length and as many bytes of obfuscated text,
    /// and passes over the filler that makes the item's size even.
    fn deserialize_patch(&self, cursor: &mut ByteCursor) -> (r: Result<Self, DecodeError>)
        ensures
            final(cursor).bytes() == old(cursor).bytes(),
            decodes_as(
                r,
                final(cursor).offset() as int,
                item_model_at(
                    ResourceKind::StringTable.item_layout(),
                    old(cursor).bytes(),
                    old(cursor).offset() as int,
                ),
            ),
    {
        let id = read_u32_le(cursor)?;
        let length = read_u16_le(cursor)?;
        let raw = cursor.read_bytes(length as usize)?;
        let size = 6 + length as usize;
        cursor.skip(aligned_item_size(size, 2) - size)?;
        Ok(StringTableItem::new(id, length, decode_text(raw, true)))
    }
}

/// An item of a name table: a text.
#[derive(Debug, Clone, PartialEq, Eq)]
pub struct NameTableItem {
    length: u16,
    data: String,
}

impl View for NameTableItem {
    type V = ItemModel;

    closed spec fn view(&self) -> ItemModel {
        ItemModel { id: None, length: self.length as nat, data: self.data@ }
    }
}

impl DeserializePatch for NameTableItem {
    open spec fn parse(&self, buf: Seq<u8>, at: int) -> Parsed<ItemModel> {
        item_model_at(ResourceKind::NameTable.item_layout(), buf, at)
    }

    /// Reads the 16-bit length and as many bytes of plain text, and passes
    /// over the filler that makes the item's size even.
    fn deserialize_patch(&self, cursor: &mut ByteCursor) -> (r: Result<Self, DecodeError>)
        ensures
            final(cursor).bytes() == old(cursor).bytes(),
            decodes_as(
                r,
                final(cursor).offset() as int,
                item_model_at(
                    ResourceKind::NameTable.item_layout(),
                    old(cursor).bytes(),
                    old(cursor).offset() as int,
                ),
            ),
    {
        let length = read_u16_le(cursor)?;
        let raw = cursor.read_bytes(length as usize)?;
        let size = 2 + length as usize;
        cursor.skip(aligned_item_size(size, 2) - size)?;
        Ok(NameTableItem::new(length, decode_text(raw, false)))
    }
}

/// An item of a file-name table: a text.
#[derive(Debug, Clone, PartialEq, Eq)]
pub struct FileNameTableItem {
    length: u16,
    data: String,
}

impl View for FileNameTableItem {
    type V = ItemModel;

    closed spec fn view(&self) -> ItemModel {
        ItemModel { id: None, length: self.length as nat, data: self.data@ }
    }
}

impl DeserializePatch for FileNameTableItem {
    open spec fn parse(&self, buf: Seq<u8>, at: int) -> Parsed<ItemModel> {
        item_model_at(ResourceKind::FileNameTable.item_layout(), buf, at)
    }

    /// Reads the 16-bit length and as many bytes of obfuscated text, and
    /// passes over the filler that makes the item's size even.
    fn deserialize_patch(&self, cursor: &mut ByteCursor) -> (r: Result<Self, DecodeError>)
        ensures
            final(cursor).bytes() == old(cursor).bytes(),
            decodes_as(
                r,
                final(cursor).offset() as int,
                item_model_at(
                    ResourceKind::FileNameTable.item_layout(),
                    old(cursor).bytes(),
                    old(cursor).offset() as int,
                ),
            ),
    {
        let length = read_u16_le(cursor)?;
        let raw = cursor.read_bytes(length as usize)?;
        let size = 2 + length as usize;
        cursor.skip(aligned_item_size(size, 2) - size)?;
        Ok(FileNameTableItem::new(length, decode_text(raw, true)))
    }
}

/// An item of a string table in its legacy form: an id and a text of at
/// most 255 bytes.
#[derive(Debug, Clone, PartialEq, Eq)]
pub struct LegacyStringTableItem {
    id: u32,
    length: u8,
    data: String,
}

impl View for LegacyStringTableItem {
    type V = ItemModel;

    closed spec fn view(&self) -> ItemModel {
        ItemModel { id: Some(self.id), length: self.length as nat, data: self.data@ }
    }
}

impl DeserializePatch for LegacyStringTableItem {
    open spec fn parse(&self, buf: Seq<u8>, at: int) -> Parsed<ItemModel> {
        item_model_at(ResourceKind::LegacyStringTable.item_layout(), buf, at)
    }

    /// Reads the id, the length byte and the reserved byte, which must hold
    /// zero, then as many bytes of obfuscated text, and passes over the
    /// filler that makes the item's size a multiple of four.
    fn deserialize_patch(&self, cursor: &mut ByteCursor) -> (r: Result<Self, DecodeError>)
        ensures
            final(cursor).bytes() == old(cursor).bytes(),
            decodes_as(
                r,
                final(cursor).offset() as int,
                item_model_at(
                    ResourceKind::LegacyStringTable.item_layout(),
                    old(cursor).bytes(),
                    old(cursor).offset() as int,
                ),
            ),
    {
        let id = read_u32_le(cursor)?;
        let length = read_u8(cursor)?;
        let offset = cursor.position();
        let reserved = read_u8(cursor)?;
        if reserved != 0 {
            return Err(DecodeError::InvalidReservedField { offset, value: reserved });
        }
        let raw = cursor.read_bytes(length as usize)?;
        let size = 6 + length as usize;
        cursor.skip(aligned_item_size(size, 4) - size)?;
        Ok(LegacyStringTableItem::new(id, length, decode_text(raw, true)))
    }
}

impl StringTableItem {
    /// An item of the given id whose text took `length` bytes in the buffer
    /// and reads `data`.
    pub fn new(id: u32, length: u16, data: String) -> (item: StringTableItem)
        ensures
            item@ == (ItemModel { id: Some(id), length: length as nat, data: data@ }),
    {
        StringTableItem { id, length, data }
    }

    /// The id.
    pub fn id(&self) -> (id: u32)
        ensures
            self@.id == Some(id),
    {
        self.id
    }

    /// The number of bytes that the text took in the buffer.
    pub fn length(&self) -> (length: u16)
        ensures
            length == self@.length,
    {
        self.length
    }

    /// The text.
    pub fn data(&self) -> (data: &String)
        ensures
            data@ == self@.data,
    {
        &self.data
    }
}

impl Default for StringTableItem {
    fn default() -> (item: StringTableItem)
        ensures
            item@ == (ItemModel { id: Some(0u32), length: 0, data: Seq::empty() }),
    {
        StringTableItem { id: 0, length: 0, data: String::new() }
    }
}

impl NameTableItem {
    /// An item whose text took `length` bytes in the buffer and reads
    /// `data`.
    pub fn new(length: u16, data: String) -> (item: NameTableItem)
        ensures
            item@ == (ItemModel { id: None, length: length as nat, data: data@ }),
    {
        NameTableItem { length, data }
    }

    /// The number of bytes that the text took in the buffer.
    pub fn length(&self) -> (length: u16)
        ensures
            length == self@.length,
    {
        self.length
    }

    /// The text.
    pub fn data(&self) -> (data: &String)
        ensures
            data@ == self@.data,
    {
        &self.data
    }
}

impl Default for NameTableItem {
    fn default() -> (item: NameTableItem)
        ensures
            item@ == (ItemModel { id: None, length: 0, data: Seq::empty() }),
    {
        NameTableItem { length: 0, data: String::new() }
    }
}

impl FileNameTableItem {
    /// An item whose text took `length` bytes in the buffer and reads
    /// `data`.
    pub fn new(length: u16, data: String) -> (item: FileNameTableItem)
        ensures
            item@ == (ItemModel { id: None, length: length as nat, data: data@ }),
    {
        FileNameTableItem { length, data }
    }

    /// The number of bytes that the text took in the buffer.
    pub fn length(&self) -> (length: u16)
        ensures
            length == self@.length,
    {
        self.length
    }

    /// The text.
    pub fn data(&self) -> (data: &String)
        ensures
            data@ == self@.data,
    {
        &self.data
    }
}

impl Default for FileNameTableItem {
    fn default() -> (item: FileNameTableItem)
        ensures
            item@ == (ItemModel { id: None, length: 0, data: Seq::empty() }),
    {
        FileNameTableItem { length: 0, data: String::new() }
    }
}

impl LegacyStringTableItem {
    /// An item of the given id whose text took `length` bytes in the buffer
    /// and reads `data`.
    pub fn new(id: u32, length: u8, data: String) -> (item: LegacyStringTableItem)
        ensures
            item@ == (ItemModel { id: Some(id), length: length as nat, data: data@ }),
    {
        LegacyStringTableItem { id, length, data }
    }

    /// The id.
    pub fn id(&self) -> (id: u32)
        ensures
            self@.id == Some(id),
    {
        self.id
    }

    /// The number of bytes that the text took in the buffer.
    pub fn length(&self) -> (length: u8)
        ensures
            length == self@.length,
    {
        self.length
    }

    /// The text.
    pub fn data(&self) -> (data: &String)
        ensures
            data@ == self@.data,
    {
        &self.data
    }
}

impl Default for LegacyStringTableItem {
    fn default() -> (item: LegacyStringTableItem)
        ensures
            item@ == (ItemModel { id: Some(0u32), length: 0, data: Seq::empty() }),
    {
        LegacyStringTableItem { id: 0, length: 0, data: String::new() }
    }
}

} // verus!
