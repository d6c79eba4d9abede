use data_dispatcher::{ByteCursor, DecodeError, SeekFrom};

#[test]
fn new_cursor_starts_at_zero() {
    let cursor = ByteCursor::new(vec![1, 2, 3]);
    assert_eq!(cursor.position(), 0);
    assert_eq!(cursor.len(), 3);
    assert_eq!(cursor.remaining(), 3);
}

#[test]
fn read_bytes_returns_the_bytes_and_advances() {
    let mut cursor = ByteCursor::new(vec![10, 20, 30, 40, 50]);
    assert_eq!(cursor.read_bytes(2), Ok(vec![10, 20]));
    assert_eq!(cursor.position(), 2);
    assert_eq!(cursor.remaining(), 3);
    assert_eq!(cursor.read_bytes(3), Ok(vec![30, 40, 50]));
    assert_eq!(cursor.position(), 5);
    assert_eq!(cursor.remaining(), 0);
}

#[test]
fn read_of_no_bytes_succeeds_at_the_end() {
    let mut cursor = ByteCursor::new(vec![7]);
    assert_eq!(cursor.read_bytes(1), Ok(vec![7]));
    assert_eq!(cursor.read_bytes(0), Ok(vec![]));
    assert_eq!(cursor.position(), 1);
}

#[test]
fn read_bytes_past_the_end_fails_and_keeps_the_offset() {
    let mut cursor = ByteCursor::new(vec![10, 20, 30]);
    assert_eq!(cursor.read_bytes(1), Ok(vec![10]));
    assert_eq!(
        cursor.read_bytes(3),
        Err(DecodeError::UnexpectedEof { offset: 1, needed: 3, available: 2 })
    );
    assert_eq!(cursor.position(), 1);
    assert_eq!(cursor.read_bytes(2), Ok(vec![20, 30]));
}

#[test]
fn read_from_an_empty_buffer_fails() {
    let mut cursor = ByteCursor::new(Vec::new());
    assert_eq!(
        cursor.read_bytes(1),
        Err(DecodeError::UnexpectedEof { offset: 0, needed: 1, available: 0 })
    );
    assert_eq!(cursor.position(), 0);
}

#[test]
fn skip_moves_without_reading() {
    let mut cursor = ByteCursor::new(vec![1, 2, 3, 4]);
    assert_eq!(cursor.skip(3), Ok(()));
    assert_eq!(cursor.position(), 3);
    assert_eq!(cursor.read_bytes(1), Ok(vec![4]));
}

#[test]
fn skip_past_the_end_fails_and_keeps_the_offset() {
    let mut cursor = ByteCursor::new(vec![1, 2, 3, 4]);
    assert_eq!(cursor.skip(2), Ok(()));
    assert_eq!(
        cursor.skip(3),
        Err(DecodeError::UnexpectedEof { offset: 2, needed: 3, available: 2 })
    );
    assert_eq!(cursor.position(), 2);
}

#[test]
fn seek_from_start_moves_to_the_offset() {
    let mut cursor = ByteCursor::new(vec![1, 2, 3, 4]);
    assert_eq!(cursor.seek(SeekFrom::Start(3)), Ok(3));
    assert_eq!(cursor.position(), 3);
    assert_eq!(cursor.seek(SeekFrom::Start(4)), Ok(4));
    assert_eq!(cursor.remaining(), 0);
    assert_eq!(cursor.seek(SeekFrom::Start(0)), Ok(0));
    assert_eq!(cursor.remaining(), 4);
}

#[test]
fn seek_from_current_moves_both_ways() {
    let mut cursor = ByteCursor::new(vec![1, 2, 3, 4]);
    assert_eq!(cursor.seek(SeekFrom::Current(3)), Ok(3));
    assert_eq!(cursor.seek(SeekFrom::Current(-2)), Ok(1));
    assert_eq!(cursor.seek(SeekFrom::Current(0)), Ok(1));
    assert_eq!(cursor.read_bytes(1), Ok(vec![2]));
}

#[test]
fn seek_past_the_end_is_out_of_bounds() {
    let mut cursor = ByteCursor::new(vec![1, 2, 3, 4]);
    assert_eq!(cursor.seek(SeekFrom::Start(1)), Ok(1));
    assert_eq!(
        cursor.seek(SeekFrom::Start(5)),
        Err(DecodeError::OutOfBounds { request: SeekFrom::Start(5), position: 1, length: 4 })
    );
    assert_eq!(cursor.position(), 1);
    assert_eq!(
        cursor.seek(SeekFrom::Current(4)),
        Err(DecodeError::OutOfBounds { request: SeekFrom::Current(4), position: 1, length: 4 })
    );
    assert_eq!(cursor.position(), 1);
}

#[test]
fn seek_before_the_start_is_out_of_bounds() {
    let mut cursor = ByteCursor::new(vec![1, 2, 3, 4]);
    assert_eq!(cursor.seek(SeekFrom::Start(2)), Ok(2));
    assert_eq!(
        cursor.seek(SeekFrom::Current(-3)),
        Err(DecodeError::OutOfBounds { request: SeekFrom::Current(-3), position: 2, length: 4 })
    );
    assert_eq!(cursor.position(), 2);
    assert_eq!(
        cursor.seek(SeekFrom::Current(i64::MIN)),
        Err(DecodeError::OutOfBounds {
            request: SeekFrom::Current(i64::MIN),
            position: 2,
            length: 4
        })
    );
    assert_eq!(
        cursor.seek(SeekFrom::Current(i64::MAX)),
        Err(DecodeError::OutOfBounds {
            request: SeekFrom::Current(i64::MAX),
            position: 2,
            length: 4
        })
    );
    assert_eq!(cursor.seek(SeekFrom::Current(-2)), Ok(0));
}
