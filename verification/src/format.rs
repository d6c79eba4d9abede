//! The layout of the resources, as functions from the bytes of a buffer to
//! the values that decoding yields.

use vstd::prelude::*;
use crate::codec::{aligned, clear, text_of, u16_le_at, u32_le_at, u8_at};
use crate::cursor::{bytes_at, failed, skip_at, Parsed};
use crate::error::DecodeError;

verus! {

/// The length in bytes of the marker that opens a resource.
pub const MARKER_LEN: usize = 8;

/// The marker of a string table, `[STRTBL]`.
pub const STRING_TABLE_MARKER: [u8; 8] = [0x5B, 0x53, 0x54, 0x52, 0x54, 0x42, 0x4C, 0x5D];

/// The marker of a name table, `[MESNAM]`.
pub const NAME_TABLE_MARKER: [u8; 8] = [0x5B, 0x4D, 0x45, 0x53, 0x4E, 0x41, 0x4D, 0x5D];

/// The marker of a file-name table, `[F-NAME]`.
pub const FILE_NAME_TABLE_MARKER: [u8; 8] = [0x5B, 0x46, 0x2D, 0x4E, 0x41, 0x4D, 0x45, 0x5D];

/// The kinds of resource that can be decoded.
#[derive(Debug, Clone, Copy, PartialEq, Eq, Structural)]
pub enum ResourceKind {
    /// A string table in its current form, found by its marker.
    StringTable,
    /// A name table, found by its marker.
    NameTable,
    /// A file-name table, found by its marker.
    FileNameTable,
    /// A string table in its legacy form, which fills the buffer from its
    /// first byte.
    LegacyStringTable,
}

/// How the items of one kind of table are laid out.
pub struct ItemLayout {
    /// A 32-bit id opens the item.
    pub has_id: bool,
    /// The length is a single byte followed by a reserved byte that must be
    /// zero; otherwise it is a 16-bit integer.
    pub short_length: bool,
    /// Items are padded to a multiple of this many bytes.
    pub unit: nat,
    /// The text is stored complemented.
    pub obfuscated: bool,
}

impl ItemLayout {
    /// The number of bytes that the fields before the text take.
    pub open spec fn fixed_size(self) -> int {
        if self.has_id {
            6
        } else {
            2
        }
    }
}

impl ResourceKind {
    /// The layout of the items of a table of this kind.
    pub open spec fn item_layout(self) -> ItemLayout {
        match self {
            ResourceKind::StringTable => ItemLayout {
                has_id: true,
                short_length: false,
                unit: 2,
                obfuscated: true,
            },
            ResourceKind::NameTable => ItemLayout {
                has_id: false,
                short_length: false,
                unit: 2,
                obfuscated: false,
            },
            ResourceKind::FileNameTable => ItemLayout {
                has_id: false,
                short_length: false,
                unit: 2,
                obfuscated: true,
            },
            ResourceKind::LegacyStringTable => ItemLayout {
                has_id: true,
                short_length: true,
                unit: 4,
                obfuscated: true,
            },
        }
    }

    /// The header holds a 32-bit count and then a 32-bit unknown field;
    /// otherwise a 16-bit unknown field and then a 16-bit count.
    pub open spec fn wide_header(self) -> bool {
        !(self is NameTable)
    }

    /// The marker by which a resource of this kind is found in a buffer. The
    /// legacy kind is not searched for and has none.
    pub open spec fn marker_bytes(self) -> Option<Seq<u8>> {
        match self {
            ResourceKind::StringTable => Some(STRING_TABLE_MARKER@),
            ResourceKind::NameTable => Some(NAME_TABLE_MARKER@),
            ResourceKind::FileNameTable => Some(FILE_NAME_TABLE_MARKER@),
            ResourceKind::LegacyStringTable => None,
        }
    }
}

/// An item as it is framed in the buffer: its id, where the layout has one,
/// and the bytes of its text with the obfuscation undone.
pub struct RawItem {
    pub id: Option<u32>,
    pub text: Seq<u8>,
}

/// A decoded item.
pub struct ItemModel {
    pub id: Option<u32>,
    /// The number of bytes that the text took in the buffer.
    pub length: nat,
    pub data: Seq<char>,
}

/// The counts that open a table.
pub struct HeaderModel {
    pub item_count: nat,
    pub unknown: nat,
}

/// A decoded table: the two fields of its header and its items in the order
/// in which the buffer holds them.
pub struct TableModel {
    pub item_count: nat,
    pub unknown: nat,
    pub items: Seq<ItemModel>,
}

/// A framed item with its text decoded.
pub open spec fn decoded_item(raw: RawItem) -> ItemModel {
    ItemModel { id: raw.id, length: raw.text.len(), data: text_of(raw.text) }
}

/// The id that opens an item at offset `at`, in a layout that has one.
pub open spec fn id_at(layout: ItemLayout, buf: Seq<u8>, at: int) -> Parsed<Option<u32>> {
    if layout.has_id {
        let id = u32_le_at(buf, at);
        match id.value {
            Ok(v) => Parsed { value: Ok(Some(v)), end: id.end },
            Err(_) => failed(id),
        }
    } else {
        Parsed { value: Ok(None), end: at }
    }
}

/// The length field at offset `at`: sixteen bits, or a length byte and a
/// reserved byte that must hold zero.
pub open spec fn length_at(layout: ItemLayout, buf: Seq<u8>, at: int) -> Parsed<nat> {
    if layout.short_length {
        let length = u8_at(buf, at);
        let reserved = u8_at(buf, length.end);
        if length.value is Err {
            failed(length)
        } else if reserved.value is Err {
            failed(reserved)
        } else if reserved.value->Ok_0 != 0 {
            Parsed {
                value: Err(
                    DecodeError::InvalidReservedField {
                        offset: length.end as usize,
                        value: reserved.value->Ok_0,
                    },
                ),
                end: reserved.end,
            }
        } else {
            Parsed { value: Ok(length.value->Ok_0 as nat), end: reserved.end }
        }
    } else {
        let length = u16_le_at(buf, at);
        match length.value {
            Ok(v) => Parsed { value: Ok(v as nat), end: length.end },
            Err(_) => failed(length),
        }
    }
}

/// The number of filler bytes after `size` bytes of an item, which bring it
/// to a multiple of `unit`.
pub open spec fn padding_after(size: int, unit: int) -> int {
    aligned(size, unit) - size
}

/// The item at offset `at`: its id, its length field, as many bytes of text
/// as the length says, and the filler that pads the item. The first of these
/// that the buffer is too short for, or a reserved byte that is not zero,
/// makes the item fail.
pub open spec fn item_at(layout: ItemLayout, buf: Seq<u8>, at: int) -> Parsed<RawItem> {
    let id = id_at(layout, buf, at);
    let length = length_at(layout, buf, id.end);
    let stored = bytes_at(buf, length.end, length.value->Ok_0 as int);
    let filler = skip_at(buf, stored.end, padding_after(stored.end - at, layout.unit as int));
    if id.value is Err {
        failed(id)
    } else if length.value is Err {
        failed(length)
    } else if stored.value is Err {
        failed(stored)
    } else if filler.value is Err {
        failed(filler)
    } else {
        Parsed {
            value: Ok(
                RawItem { id: id.value->Ok_0, text: clear(stored.value->Ok_0, layout.obfuscated) },
            ),
            end: filler.end,
        }
    }
}

/// The item at offset `at` with its text decoded.
pub open spec fn item_model_at(layout: ItemLayout, buf: Seq<u8>, at: int) -> Parsed<ItemModel> {
    let raw = item_at(layout, buf, at);
    match raw.value {
        Ok(item) => Parsed { value: Ok(decoded_item(item)), end: raw.end },
        Err(_) => failed(raw),
    }
}

/// The first `n` items from offset `at` on, each starting where the one
/// before it ends. The first item that fails makes the sequence fail.
pub open spec fn items_at(layout: ItemLayout, buf: Seq<u8>, at: int, n: nat) -> Parsed<
    Seq<ItemModel>,
>
    decreases n,
{
    if n == 0 {
        Parsed { value: Ok(Seq::empty()), end: at }
    } else {
        let before = items_at(layout, buf, at, (n - 1) as nat);
        let last = item_model_at(layout, buf, before.end);
        if before.value is Err {
            before
        } else if last.value is Err {
            failed(last)
        } else {
            Parsed { value: Ok(before.value->Ok_0.push(last.value->Ok_0)), end: last.end }
        }
    }
}

/// The header of a table of kind `kind` at offset `at`: the marker, which
/// is passed over unread, and the count and the unknown field in the order
/// and width of the kind.
pub open spec fn header_at(kind: ResourceKind, buf: Seq<u8>, at: int) -> Parsed<HeaderModel> {
    let marker = skip_at(buf, at, MARKER_LEN as int);
    if kind.wide_header() {
        let count = u32_le_at(buf, marker.end);
        let unknown = u32_le_at(buf, count.end);
        if marker.value is Err {
            failed(marker)
        } else if count.value is Err {
            failed(count)
        } else if unknown.value is Err {
            failed(unknown)
        } else {
            Parsed {
                value: Ok(
                    HeaderModel {
                        item_count: count.value->Ok_0 as nat,
                        unknown: unknown.value->Ok_0 as nat,
                    },
                ),
                end: unknown.end,
            }
        }
    } else {
        let unknown = u16_le_at(buf, marker.end);
        let count = u16_le_at(buf, unknown.end);
        if marker.value is Err {
            failed(marker)
        } else if unknown.value is Err {
            failed(unknown)
        } else if count.value is Err {
            failed(count)
        } else {
            Parsed {
                value: Ok(
                    HeaderModel {
                        item_count: count.value->Ok_0 as nat,
                        unknown: unknown.value->Ok_0 as nat,
                    },
                ),
                end: count.end,
            }
        }
    }
}

/// The table of kind `kind` at offset `at`: its header, then as many items
/// as the header counts.
pub open spec fn table_at(kind: ResourceKind, buf: Seq<u8>, at: int) -> Parsed<TableModel> {
    let header = header_at(kind, buf, at);
    let items = items_at(kind.item_layout(), buf, header.end, header.value->Ok_0.item_count);
    if header.value is Err {
        failed(header)
    } else if items.value is Err {
        failed(items)
    } else {
        Parsed {
            value: Ok(
                TableModel {
                    item_count: header.value->Ok_0.item_count,
                    unknown: header.value->Ok_0.unknown,
                    items: items.value->Ok_0,
                },
            ),
            end: items.end,
        }
    }
}

} // verus!
