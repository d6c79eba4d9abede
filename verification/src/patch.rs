//! What the decoders of items and tables have in common.

use vstd::prelude::*;
use crate::cursor::{decodes_as, ByteCursor, Parsed};
use crate::error::DecodeError;
use crate::format::{item_model_at, items_at, ItemLayout, ItemModel};

verus! {

/// A value that can be decoded from a buffer at the offset of a cursor.
pub trait DeserializePatch: View + Sized {
    /// What decoding makes of `buf` from offset `at`. `self` chooses among
    /// the forms that the type can decode, where it has more than one.
    spec fn parse(&self, buf: Seq<u8>, at: int) -> Parsed<Self::V>;

    /// Decodes one value at the cursor and leaves the cursor behind it, or
    /// where decoding stopped.
    fn deserialize_patch(&self, cursor: &mut ByteCursor) -> (r: Result<Self, DecodeError>)
        ensures
            final(cursor).bytes() == old(cursor).bytes(),
            decodes_as(
                r,
                final(cursor).offset() as int,
                self.parse(old(cursor).bytes(), old(cursor).offset() as int),
            ),
    ;
}

/// A table that is found in a buffer by the marker it opens with.
pub trait DataDispatcherHeader: DeserializePatch {
    /// The eight bytes that open a table of this type.
    const MAGIC_HEADER: [u8; 8];
}

/// The models of decoded values, in their order.
pub open spec fn models<T: View>(values: Seq<T>) -> Seq<T::V> {
    values.map_values(|v: T| v@)
}

/// Once a sequence of items has failed, asking for more items fails alike.
pub proof fn lemma_items_failure_lasts(layout: ItemLayout, buf: Seq<u8>, at: int, n: nat, m: nat)
    requires
        n <= m,
        items_at(layout, buf, at, n).value is Err,
    ensures
        items_at(layout, buf, at, m) == items_at(layout, buf, at, n),
    decreases m,
{
    if n < m {
        lemma_items_failure_lasts(layout, buf, at, n, (m - 1) as nat);
    }
}

/// Decodes `count` items in a row, each as `proto` decodes one, and stops
/// at the first that fails.
pub(crate) fn read_items<T: DeserializePatch<V = ItemModel>>(
    proto: &T,
    cursor: &mut ByteCursor,
    count: u32,
    Ghost(layout): Ghost<ItemLayout>,
) -> (r: Result<Vec<T>, DecodeError>)
    requires
        forall|buf: Seq<u8>, at: int| #[trigger]
            proto.parse(buf, at) == item_model_at(layout, buf, at),
    ensures
        final(cursor).bytes() == old(cursor).bytes(),
        final(cursor).offset() == items_at(
            layout,
            old(cursor).bytes(),
            old(cursor).offset() as int,
            count as nat,
        ).end,
        match r {
            Ok(items) => items_at(
                layout,
                old(cursor).bytes(),
                old(cursor).offset() as int,
                count as nat,
            ).value == Ok::<Seq<ItemModel>, DecodeError>(models(items@)),
            Err(e) => items_at(
                layout,
                old(cursor).bytes(),
                old(cursor).offset() as int,
                count as nat,
            ).value == Err::<Seq<ItemModel>, DecodeError>(e),
        },
{
    let ghost buf = cursor.bytes();
    let ghost first = cursor.offset() as int;
    let mut items: Vec<T> = Vec::new();
    let mut i: u32 = 0;
    assert(models(items@) =~= Seq::<ItemModel>::empty());
    while i < count
        invariant
            i <= count,
            buf == old(cursor).bytes(),
            first == old(cursor).offset(),
            cursor.bytes() == buf,
            forall|buf: Seq<u8>, at: int| #[trigger]
                proto.parse(buf, at) == item_model_at(layout, buf, at),
            items_at(layout, buf, first, i as nat) == (Parsed {
                value: Ok::<Seq<ItemModel>, DecodeError>(models(items@)),
                end: cursor.offset() as int,
            }),
        decreases count - i,
    {
        let ghost before = models(items@);
        proof {
            if items_at(layout, buf, first, (i + 1) as nat).value is Err {
                lemma_items_failure_lasts(layout, buf, first, (i + 1) as nat, count as nat);
            }
        }
        let item = proto.deserialize_patch(cursor)?;
        items.push(item);
        assert(models(items@) =~= before.push(item@));
        i = i + 1;
    }
    Ok(items)
}

} // verus!
