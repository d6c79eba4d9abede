use data_dispatcher::{
    ByteCursor, DecodeError, DeserializePatch, FileNameTableItem, LegacyStringTableItem,
    NameTableItem, StringTableItem,
};

#[test]
fn string_table_item_decodes_id_length_and_text() {
    let mut cursor = ByteCursor::new(vec![0x01, 0x00, 0x00, 0x00, 0x02, 0x00, 0xBE, 0xBD]);
    let item = StringTableItem::default().deserialize_patch(&mut cursor).unwrap();
    assert_eq!(item.id(), 1);
    assert_eq!(item.length(), 2);
    assert_eq!(item.data(), "AB");
    assert_eq!(item, StringTableItem::new(1, 2, String::from("AB")));
    assert_eq!(cursor.position(), 8);
}

#[test]
fn string_table_item_of_odd_length_is_padded_to_even_size() {
    let mut cursor =
        ByteCursor::new(vec![0x2A, 0x00, 0x00, 0x00, 0x03, 0x00, 0xBE, 0xBD, 0xBC, 0xEE, 0x99]);
    let item = StringTableItem::default().deserialize_patch(&mut cursor).unwrap();
    assert_eq!(item, StringTableItem::new(42, 3, String::from("ABC")));
    assert_eq!(cursor.position(), 10);
}

#[test]
fn string_table_item_without_text() {
    let mut cursor = ByteCursor::new(vec![0x07, 0x00, 0x00, 0x80, 0x00, 0x00, 0xAA]);
    let item = StringTableItem::default().deserialize_patch(&mut cursor).unwrap();
    assert_eq!(item, StringTableItem::new(0x8000_0007, 0, String::new()));
    assert_eq!(cursor.position(), 6);
}

#[test]
fn string_table_item_cut_short_in_each_field() {
    let whole = vec![0x01, 0x00, 0x00, 0x00, 0x03, 0x00, 0xBE, 0xBD, 0xBC, 0x00];
    let expected = [
        (0, DecodeError::UnexpectedEof { offset: 0, needed: 4, available: 0 }),
        (3, DecodeError::UnexpectedEof { offset: 0, needed: 4, available: 3 }),
        (4, DecodeError::UnexpectedEof { offset: 4, needed: 2, available: 0 }),
        (5, DecodeError::UnexpectedEof { offset: 4, needed: 2, available: 1 }),
        (6, DecodeError::UnexpectedEof { offset: 6, needed: 3, available: 0 }),
        (8, DecodeError::UnexpectedEof { offset: 6, needed: 3, available: 2 }),
        (9, DecodeError::UnexpectedEof { offset: 9, needed: 1, available: 0 }),
    ];
    for (cut, error) in expected {
        let mut cursor = ByteCursor::new(whole[..cut].to_vec());
        assert_eq!(StringTableItem::default().deserialize_patch(&mut cursor), Err(error));
    }
    let mut cursor = ByteCursor::new(whole);
    assert!(StringTableItem::default().deserialize_patch(&mut cursor).is_ok());
}

#[test]
fn name_table_item_without_text_takes_two_bytes() {
    let mut cursor = ByteCursor::new(vec![0x00, 0x00]);
    let item = NameTableItem::default().deserialize_patch(&mut cursor).unwrap();
    assert_eq!(item.length(), 0);
    assert_eq!(item.data(), "");
    assert_eq!(cursor.position(), 2);
    assert_eq!(cursor.remaining(), 0);
}

#[test]
fn name_table_item_is_read_as_it_stands() {
    let mut cursor = ByteCursor::new(vec![0x04, 0x00, 0x41, 0x42, 0x82, 0xA0, 0x55]);
    let item = NameTableItem::default().deserialize_patch(&mut cursor).unwrap();
    assert_eq!(item, NameTableItem::new(4, String::from("AB\u{3042}")));
    assert_eq!(cursor.position(), 6);
}

#[test]
fn name_table_item_of_odd_length_needs_its_padding() {
    let mut cursor = ByteCursor::new(vec![0x03, 0x00, 0x41, 0x42, 0x43, 0x00]);
    let item = NameTableItem::default().deserialize_patch(&mut cursor).unwrap();
    assert_eq!(item, NameTableItem::new(3, String::from("ABC")));
    assert_eq!(cursor.position(), 6);

    let mut cursor = ByteCursor::new(vec![0x03, 0x00, 0x41, 0x42, 0x43]);
    assert_eq!(
        NameTableItem::default().deserialize_patch(&mut cursor),
        Err(DecodeError::UnexpectedEof { offset: 5, needed: 1, available: 0 })
    );
    assert_eq!(cursor.position(), 5);
}

#[test]
fn file_name_table_item_is_complemented() {
    let stored: Vec<u8> = b"DATA\\A.BIN".iter().map(|b| !b).collect();
    let mut bytes = vec![stored.len() as u8, 0x00];
    bytes.extend_from_slice(&stored);
    let mut cursor = ByteCursor::new(bytes);
    let item = FileNameTableItem::default().deserialize_patch(&mut cursor).unwrap();
    assert_eq!(item.length(), 10);
    assert_eq!(item.data(), "DATA\\A.BIN");
    assert_eq!(cursor.position(), 12);
}

#[test]
fn file_name_table_item_without_text() {
    let mut cursor = ByteCursor::new(vec![0x00, 0x00, 0x01, 0x00]);
    let item = FileNameTableItem::default().deserialize_patch(&mut cursor).unwrap();
    assert_eq!(item, FileNameTableItem::new(0, String::new()));
    assert_eq!(cursor.position(), 2);
}

#[test]
fn length_field_of_sixteen_bits_is_honoured() {
    let mut bytes = vec![0x2C, 0x01];
    bytes.extend(std::iter::repeat(0x41).take(300));
    let mut cursor = ByteCursor::new(bytes);
    let item = NameTableItem::default().deserialize_patch(&mut cursor).unwrap();
    assert_eq!(item.length(), 300);
    assert_eq!(item.data().len(), 300);
    assert_eq!(cursor.position(), 302);
}

#[test]
fn legacy_item_is_padded_to_a_multiple_of_four() {
    let mut cursor =
        ByteCursor::new(vec![0x09, 0x00, 0x00, 0x00, 0x01, 0x00, 0xBE, 0x77, 0x01, 0x02]);
    let item = LegacyStringTableItem::default().deserialize_patch(&mut cursor).unwrap();
    assert_eq!(item.id(), 9);
    assert_eq!(item.length(), 1);
    assert_eq!(item.data(), "A");
    assert_eq!(cursor.position(), 8);
}

#[test]
fn legacy_item_sizes() {
    for (length, size) in [(0usize, 8usize), (1, 8), (2, 8), (3, 12), (6, 12), (7, 16), (255, 264)] {
        let mut bytes = vec![0x01, 0x00, 0x00, 0x00, length as u8, 0x00];
        bytes.extend(std::iter::repeat(0xBE).take(length));
        bytes.extend(std::iter::repeat(0x00).take(size - 6 - length + 3));
        let mut cursor = ByteCursor::new(bytes);
        let item = LegacyStringTableItem::default().deserialize_patch(&mut cursor).unwrap();
        assert_eq!(item.length() as usize, length);
        assert_eq!(item.data(), &"A".repeat(length));
        assert_eq!(cursor.position(), size);
    }
}

#[test]
fn legacy_item_with_reserved_byte_set_is_refused() {
    let mut cursor =
        ByteCursor::new(vec![0x09, 0x00, 0x00, 0x00, 0x01, 0x02, 0xBE, 0x00, 0x00, 0x00]);
    assert_eq!(
        LegacyStringTableItem::default().deserialize_patch(&mut cursor),
        Err(DecodeError::InvalidReservedField { offset: 5, value: 2 })
    );
    assert_eq!(cursor.position(), 6);
}

#[test]
fn legacy_item_cut_short() {
    let whole = vec![0x09, 0x00, 0x00, 0x00, 0x01, 0x00, 0xBE, 0x00];
    let expected = [
        (2, DecodeError::UnexpectedEof { offset: 0, needed: 4, available: 2 }),
        (4, DecodeError::UnexpectedEof { offset: 4, needed: 1, available: 0 }),
        (5, DecodeError::UnexpectedEof { offset: 5, needed: 1, available: 0 }),
        (6, DecodeError::UnexpectedEof { offset: 6, needed: 1, available: 0 }),
        (7, DecodeError::UnexpectedEof { offset: 7, needed: 1, available: 0 }),
    ];
    for (cut, error) in expected {
        let mut cursor = ByteCursor::new(whole[..cut].to_vec());
        assert_eq!(LegacyStringTableItem::default().deserialize_patch(&mut cursor), Err(error));
    }
}

#[test]
fn item_is_decoded_where_the_cursor_stands() {
    let mut cursor = ByteCursor::new(vec![0xFF, 0xFF, 0xFF, 0x02, 0x00, 0x4F, 0x4B]);
    cursor.skip(3).unwrap();
    let item = NameTableItem::default().deserialize_patch(&mut cursor).unwrap();
    assert_eq!(item, NameTableItem::new(2, String::from("OK")));
    assert_eq!(cursor.position(), 7);
}

#[test]
fn decoding_an_item_and_framing_it_again_restores_the_bytes() {
    let source = vec![0x44, 0x33, 0x22, 0x11, 0x05, 0x00, 0xB7, 0x9A, 0x93, 0x93, 0x90, 0x5A];
    let mut cursor = ByteCursor::new(source.clone());
    let item = StringTableItem::default().deserialize_patch(&mut cursor).unwrap();
    assert_eq!(item.data(), "Hello");

    let mut framed = Vec::new();
    framed.extend_from_slice(&item.id().to_le_bytes());
    framed.extend_from_slice(&item.length().to_le_bytes());
    let mut text = item.data().as_bytes().to_vec();
    data_dispatcher::codec::apply_complement(&mut text);
    framed.extend_from_slice(&text);
    framed.extend_from_slice(&source[framed.len()..cursor.position()]);
    assert_eq!(framed, source);
}

#[test]
fn default_items_are_empty() {
    assert_eq!(StringTableItem::default(), StringTableItem::new(0, 0, String::new()));
    assert_eq!(NameTableItem::default(), NameTableItem::new(0, String::new()));
    assert_eq!(FileNameTableItem::default(), FileNameTableItem::new(0, String::new()));
    assert_eq!(LegacyStringTableItem::default(), LegacyStringTableItem::new(0, 0, String::new()));
}
