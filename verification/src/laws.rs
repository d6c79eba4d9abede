//! What holds of the format as a whole: framing that can be undone, items
//! without text, buffers cut short, and decoding as a function of its input.

use vstd::prelude::*;
use crate::codec::{
    aligned, clear, lemma_aligned, lemma_complement_involution, lemma_u16_bytes_round_trip,
    lemma_u16_value_round_trip, lemma_u32_bytes_round_trip, lemma_u32_value_round_trip, u16_to_le,
    u32_to_le, u8_at,
};
use crate::cursor::{bytes_at, skip_at, yields};
use crate::dispatch::{decoded, resource_start, DataDispatcher};
use crate::error::DecodeError;
use crate::format::{
    header_at, id_at, item_at, item_model_at, items_at, length_at, padding_after, table_at,
    ItemLayout, RawItem, ResourceKind,
};
use crate::locator::{first_occurrence, is_first_occurrence, lemma_first_occurrence, occurs_at};

verus! {

/// The length of the marker by which a resource of kind `kind` is found,
/// and zero for the kind that is not searched for.
pub open spec fn marker_len(kind: ResourceKind) -> int {
    match kind.marker_bytes() {
        Some(marker) => marker.len() as int,
        None => 0,
    }
}

/// The bytes that frame `item` in a buffer: its id, where the layout has
/// one, its length field, its text as it is stored, and `filler` as padding.
pub open spec fn item_bytes(layout: ItemLayout, item: RawItem, filler: Seq<u8>) -> Seq<u8> {
    let id = if layout.has_id {
        u32_to_le(item.id->Some_0)
    } else {
        Seq::empty()
    };
    let length = if layout.short_length {
        seq![item.text.len() as u8, 0u8]
    } else {
        u16_to_le(item.text.len() as u16)
    };
    id + length + clear(item.text, layout.obfuscated) + filler
}

/// The bytes that pad the item at offset `at`.
pub open spec fn filler_at(layout: ItemLayout, buf: Seq<u8>, at: int) -> Seq<u8> {
    let item = item_at(layout, buf, at);
    buf.subrange(at + layout.fixed_size() + item.value->Ok_0.text.len(), item.end)
}

/// `item` can be framed in `layout`: it has an id exactly where the layout
/// has one, and its text is no longer than the length field can say.
pub open spec fn fits(layout: ItemLayout, item: RawItem) -> bool {
    &&& item.id is Some <==> layout.has_id
    &&& item.text.len() <= if layout.short_length {
        0xFFnat
    } else {
        0xFFFFnat
    }
}

/// An item that decodes takes up its fixed fields, its text and less than
/// one unit of padding, all of them within the buffer.
pub proof fn lemma_item_extent(layout: ItemLayout, buf: Seq<u8>, at: int)
    requires
        layout.unit > 0,
        0 <= at,
        item_at(layout, buf, at).value is Ok,
    ensures
        fits(layout, item_at(layout, buf, at).value->Ok_0),
        item_at(layout, buf, at).end == at + aligned(
            layout.fixed_size() + item_at(layout, buf, at).value->Ok_0.text.len(),
            layout.unit as int,
        ),
        item_at(layout, buf, at).end <= buf.len(),
{
    let id = id_at(layout, buf, at);
    let length = length_at(layout, buf, id.end);
    let stored = bytes_at(buf, length.end, length.value->Ok_0 as int);
    assert(stored.end - at == layout.fixed_size() + stored.value->Ok_0.len());
    lemma_aligned(stored.end - at, layout.unit as int);
}

/// Decoding an item and framing it again, with the same padding, gives back
/// the bytes that it was decoded from.
pub proof fn lemma_item_reencodes(layout: ItemLayout, buf: Seq<u8>, at: int)
    requires
        layout.unit > 0,
        0 <= at,
        item_at(layout, buf, at).value is Ok,
    ensures
        item_bytes(layout, item_at(layout, buf, at).value->Ok_0, filler_at(layout, buf, at))
            == buf.subrange(at, item_at(layout, buf, at).end),
{
    let item = item_at(layout, buf, at);
    let id = id_at(layout, buf, at);
    let length = length_at(layout, buf, id.end);
    let stored = bytes_at(buf, length.end, length.value->Ok_0 as int);
    let text = item.value->Ok_0.text;
    lemma_item_extent(layout, buf, at);
    lemma_complement_involution(stored.value->Ok_0);
    assert(clear(text, layout.obfuscated) == stored.value->Ok_0);
    let id_bytes = if layout.has_id {
        u32_to_le(item.value->Ok_0.id->Some_0)
    } else {
        Seq::<u8>::empty()
    };
    assert(id_bytes =~= buf.subrange(at, id.end)) by {
        if layout.has_id {
            lemma_u32_bytes_round_trip(buf.subrange(at, at + 4));
        }
    }
    let length_bytes = if layout.short_length {
        seq![text.len() as u8, 0u8]
    } else {
        u16_to_le(text.len() as u16)
    };
    assert(length_bytes =~= buf.subrange(id.end, length.end)) by {
        if layout.short_length {
            assert(u8_at(buf, id.end).value->Ok_0 == buf[id.end]);
            assert(u8_at(buf, id.end + 1).value->Ok_0 == buf[id.end + 1]);
        } else {
            lemma_u16_bytes_round_trip(buf.subrange(id.end, id.end + 2));
        }
    }
    assert(item_bytes(layout, item.value->Ok_0, filler_at(layout, buf, at)) =~= buf.subrange(
        at,
        item.end,
    ));
}

/// Framing an item and decoding the frame gives back the item, and nothing
/// of the frame is left over.
pub proof fn lemma_item_bytes_decode(layout: ItemLayout, item: RawItem, filler: Seq<u8>)
    requires
        layout.unit > 0,
        fits(layout, item),
        filler.len() == padding_after(
            layout.fixed_size() + item.text.len(),
            layout.unit as int,
        ),
    ensures
        item_at(layout, item_bytes(layout, item, filler), 0).value == Ok::<RawItem, DecodeError>(
            item,
        ),
        item_at(layout, item_bytes(layout, item, filler), 0).end == item_bytes(
            layout,
            item,
            filler,
        ).len(),
{
    let buf = item_bytes(layout, item, filler);
    let stored_text = clear(item.text, layout.obfuscated);
    lemma_aligned(layout.fixed_size() + item.text.len(), layout.unit as int);
    lemma_complement_involution(item.text);
    let id = id_at(layout, buf, 0);
    if layout.has_id {
        lemma_u32_value_round_trip(item.id->Some_0);
        assert(buf.subrange(0, 4) =~= u32_to_le(item.id->Some_0));
    }
    assert(id.value == Ok::<Option<u32>, DecodeError>(item.id));
    let length = length_at(layout, buf, id.end);
    if layout.short_length {
        assert(buf.subrange(id.end, id.end + 1)[0] == item.text.len() as u8);
        assert(buf.subrange(id.end + 1, id.end + 2)[0] == 0u8);
    } else {
        lemma_u16_value_round_trip(item.text.len() as u16);
        assert(buf.subrange(id.end, id.end + 2) =~= u16_to_le(item.text.len() as u16));
    }
    assert(length.value == Ok::<nat, DecodeError>(item.text.len()));
    let stored = bytes_at(buf, length.end, item.text.len() as int);
    assert(stored.value->Ok_0 =~= stored_text);
    assert(clear(stored_text, layout.obfuscated) =~= item.text);
}

/// An item whose length field holds zero decodes to the empty text, and
/// takes up its fixed fields and less than one unit of padding.
pub proof fn lemma_empty_item(layout: ItemLayout, buf: Seq<u8>, at: int)
    requires
        layout.unit > 0,
        0 <= at,
        item_model_at(layout, buf, at).value is Ok,
        item_model_at(layout, buf, at).value->Ok_0.length == 0,
    ensures
        item_model_at(layout, buf, at).value->Ok_0.data == Seq::<char>::empty(),
        item_model_at(layout, buf, at).end == at + aligned(
            layout.fixed_size() as int,
            layout.unit as int,
        ),
        at + layout.fixed_size() <= item_model_at(layout, buf, at).end < at + layout.fixed_size()
            + layout.unit,
{
    lemma_item_extent(layout, buf, at);
    lemma_aligned(layout.fixed_size() as int, layout.unit as int);
    let text = item_at(layout, buf, at).value->Ok_0.text;
    assert(text.len() == 0);
    assert(item_model_at(layout, buf, at).value->Ok_0.data =~= Seq::<char>::empty());
}

/// A read that fits in the first `cut` bytes of a buffer does not depend on
/// the bytes after them, and one that does not fit fails for want of bytes.
proof fn lemma_bytes_at_cut(buf: Seq<u8>, cut: int, at: int, n: int)
    requires
        0 <= at <= cut <= buf.len(),
        0 <= n,
        bytes_at(buf, at, n).value is Ok,
    ensures
        at + n <= cut ==> bytes_at(buf.take(cut), at, n) == bytes_at(buf, at, n),
        at + n > cut ==> bytes_at(buf.take(cut), at, n).value is Err
            && bytes_at(buf.take(cut), at, n).value->Err_0 is UnexpectedEof,
{
    if at + n <= cut {
        assert(buf.take(cut).subrange(at, at + n) =~= buf.subrange(at, at + n));
    }
}

/// An item that ends within the first `cut` bytes of a buffer does not
/// depend on the bytes after them, and one that does not fails for want of
/// bytes.
pub proof fn lemma_item_cut(layout: ItemLayout, buf: Seq<u8>, at: int, cut: int)
    requires
        layout.unit > 0,
        0 <= at <= cut <= buf.len(),
        item_at(layout, buf, at).value is Ok,
    ensures
        item_at(layout, buf, at).end <= cut ==> item_at(layout, buf.take(cut), at) == item_at(
            layout,
            buf,
            at,
        ),
        item_at(layout, buf, at).end > cut ==> item_at(layout, buf.take(cut), at).value is Err
            && item_at(layout, buf.take(cut), at).value->Err_0 is UnexpectedEof,
{
    let short = buf.take(cut);
    let id = id_at(layout, buf, at);
    let length = length_at(layout, buf, id.end);
    let n = length.value->Ok_0 as int;
    let stored = bytes_at(buf, length.end, n);
    lemma_item_extent(layout, buf, at);
    lemma_aligned(stored.end - at, layout.unit as int);
    if layout.has_id {
        lemma_bytes_at_cut(buf, cut, at, 4);
    }
    if id.end <= cut {
        assert(id_at(layout, short, at) == id);
        if layout.short_length {
            lemma_bytes_at_cut(buf, cut, id.end, 1);
            if id.end + 1 <= cut {
                lemma_bytes_at_cut(buf, cut, id.end + 1, 1);
            }
        } else {
            lemma_bytes_at_cut(buf, cut, id.end, 2);
        }
        if length.end <= cut {
            assert(length_at(layout, short, id.end) == length);
            lemma_bytes_at_cut(buf, cut, length.end, n);
        }
    }
}

/// The same of the item with its text decoded.
pub proof fn lemma_item_model_cut(layout: ItemLayout, buf: Seq<u8>, at: int, cut: int)
    requires
        layout.unit > 0,
        0 <= at <= cut <= buf.len(),
        item_model_at(layout, buf, at).value is Ok,
    ensures
        item_model_at(layout, buf, at).end <= buf.len(),
        item_model_at(layout, buf, at).end <= cut ==> item_model_at(layout, buf.take(cut), at)
            == item_model_at(layout, buf, at),
        item_model_at(layout, buf, at).end > cut ==> item_model_at(
            layout,
            buf.take(cut),
            at,
        ).value is Err && item_model_at(layout, buf.take(cut), at).value->Err_0 is UnexpectedEof,
{
    lemma_item_extent(layout, buf, at);
    lemma_item_cut(layout, buf, at, cut);
}

/// A sequence of items that decodes holds as many items as were asked for,
/// and ends within the buffer and not before it began.
pub proof fn lemma_items_extent(layout: ItemLayout, buf: Seq<u8>, at: int, n: nat)
    requires
        layout.unit > 0,
        0 <= at <= buf.len(),
        items_at(layout, buf, at, n).value is Ok,
    ensures
        items_at(layout, buf, at, n).value->Ok_0.len() == n,
        at <= items_at(layout, buf, at, n).end <= buf.len(),
    decreases n,
{
    if n > 0 {
        let before = items_at(layout, buf, at, (n - 1) as nat);
        lemma_items_extent(layout, buf, at, (n - 1) as nat);
        lemma_item_extent(layout, buf, before.end);
        lemma_aligned(
            layout.fixed_size() + item_at(layout, buf, before.end).value->Ok_0.text.len(),
            layout.unit as int,
        );
    }
}

/// Items that end within the first `cut` bytes of a buffer do not depend on
/// the bytes after them, and items that do not fail for want of bytes.
pub proof fn lemma_items_cut(layout: ItemLayout, buf: Seq<u8>, at: int, n: nat, cut: int)
    requires
        layout.unit > 0,
        0 <= at <= cut <= buf.len(),
        items_at(layout, buf, at, n).value is Ok,
    ensures
        items_at(layout, buf, at, n).end <= cut ==> items_at(layout, buf.take(cut), at, n)
            == items_at(layout, buf, at, n),
        items_at(layout, buf, at, n).end > cut ==> items_at(
            layout,
            buf.take(cut),
            at,
            n,
        ).value is Err && items_at(layout, buf.take(cut), at, n).value->Err_0 is UnexpectedEof,
    decreases n,
{
    if n > 0 {
        let before = items_at(layout, buf, at, (n - 1) as nat);
        lemma_items_cut(layout, buf, at, (n - 1) as nat, cut);
        lemma_items_extent(layout, buf, at, (n - 1) as nat);
        if before.end <= cut {
            lemma_item_model_cut(layout, buf, before.end, cut);
        } else {
            lemma_item_extent(layout, buf, before.end);
            lemma_aligned(
                layout.fixed_size() + item_at(layout, buf, before.end).value->Ok_0.text.len(),
                layout.unit as int,
            );
        }
    }
}

/// A table that decodes holds as many items as its header counts, and ends
/// within the buffer.
pub proof fn lemma_table_extent(kind: ResourceKind, buf: Seq<u8>, at: int)
    requires
        0 <= at,
        table_at(kind, buf, at).value is Ok,
    ensures
        table_at(kind, buf, at).value->Ok_0.items.len() == table_at(
            kind,
            buf,
            at,
        ).value->Ok_0.item_count,
        at < table_at(kind, buf, at).end <= buf.len(),
{
    let header = header_at(kind, buf, at);
    lemma_items_extent(kind.item_layout(), buf, header.end, header.value->Ok_0.item_count);
}

/// A buffer cut short within a table that it held whole fails to decode for
/// want of bytes, wherever the cut falls.
pub proof fn lemma_truncated_table(kind: ResourceKind, buf: Seq<u8>, at: int, cut: int)
    requires
        0 <= at <= cut,
        table_at(kind, buf, at).value is Ok,
        cut < table_at(kind, buf, at).end,
    ensures
        table_at(kind, buf.take(cut), at).value is Err,
        table_at(kind, buf.take(cut), at).value->Err_0 is UnexpectedEof,
{
    let short = buf.take(cut);
    let header = header_at(kind, buf, at);
    let count = header.value->Ok_0.item_count;
    lemma_table_extent(kind, buf, at);
    let marker = skip_at(buf, at, 8);
    let width: int = if kind.wide_header() {
        4
    } else {
        2
    };
    if marker.end <= cut {
        lemma_bytes_at_cut(buf, cut, marker.end, width);
        if marker.end + width <= cut {
            lemma_bytes_at_cut(buf, cut, marker.end + width, width);
        }
    }
    if header.end <= cut {
        assert(header_at(kind, short, at) == header);
        lemma_items_cut(kind.item_layout(), buf, header.end, count, cut);
    }
}

/// A marker that occurs first at offset `at` occurs first there in every
/// cut of the buffer that still holds that occurrence.
pub proof fn lemma_first_occurrence_cut(buf: Seq<u8>, marker: Seq<u8>, at: int, cut: int)
    requires
        is_first_occurrence(buf, marker, at),
        at + marker.len() <= cut <= buf.len(),
    ensures
        first_occurrence(buf.take(cut), marker) == Some(at),
{
    let short = buf.take(cut);
    assert(short.subrange(at, at + marker.len()) =~= buf.subrange(at, at + marker.len()));
    assert forall|before: int| 0 <= before < at implies !occurs_at(short, marker, before) by {
        assert(!occurs_at(buf, marker, before));
        assert(short.subrange(before, before + marker.len()) =~= buf.subrange(
            before,
            before + marker.len(),
        ));
    }
    lemma_first_occurrence(short, marker, at);
}

/// A buffer cut short within a resource that it held whole, behind the
/// marker where the kind has one, fails to decode for want of bytes.
pub proof fn lemma_truncated_decode(kind: ResourceKind, buf: Seq<u8>, cut: int)
    requires
        decoded(buf, kind) is Ok,
        resource_start(buf, kind).unwrap() + marker_len(kind) <= cut,
        cut < table_at(kind, buf, resource_start(buf, kind).unwrap()).end,
    ensures
        decoded(buf.take(cut), kind) is Err,
        decoded(buf.take(cut), kind)->Err_0 is UnexpectedEof,
{
    let at = resource_start(buf, kind).unwrap();
    lemma_table_extent(kind, buf, at);
    lemma_truncated_table(kind, buf, at, cut);
    match kind.marker_bytes() {
        Some(marker) => {
            lemma_first_occurrence_cut(buf, marker, at, cut);
        },
        None => {},
    }
    assert(resource_start(buf.take(cut), kind) == Some(at));
}

/// Decoding is a function of the buffer and the kind: two results of
/// decoding the same bytes as the same kind are the same error, or tables
/// with the same model.
pub proof fn lemma_decode_deterministic(
    buf: Seq<u8>,
    kind: ResourceKind,
    first: Result<DataDispatcher, DecodeError>,
    second: Result<DataDispatcher, DecodeError>,
)
    requires
        yields(first, decoded(buf, kind)),
        yields(second, decoded(buf, kind)),
    ensures
        match (first, second) {
            (Ok(a), Ok(b)) => a@ == b@,
            (Err(a), Err(b)) => a == b,
            _ => false,
        },
{
}

} // verus!
