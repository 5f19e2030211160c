use ipfi::integer::{get_as_smallest_int, get_as_smallest_int_from_usize, Integer};
use ipfi::{Error, IoErrorKind, Reader};

#[test]
fn smallest_int_should_fit() {
    assert_eq!(get_as_smallest_int(0), Integer::U8(0));
    assert_eq!(get_as_smallest_int(255), Integer::U8(255));
    assert_eq!(get_as_smallest_int(256), Integer::U16(256));
    assert_eq!(get_as_smallest_int(65535), Integer::U16(65535));
    assert_eq!(get_as_smallest_int(65536), Integer::U32(65536));
    assert_eq!(get_as_smallest_int(u32::MAX), Integer::U32(u32::MAX));
    assert_eq!(get_as_smallest_int_from_usize(255), Integer::U8(255));
    assert_eq!(get_as_smallest_int_from_usize(256), Integer::U16(256));
    assert_eq!(get_as_smallest_int_from_usize(65536), Integer::U32(65536));
    assert_eq!(
        get_as_smallest_int_from_usize(4294967296),
        Integer::U64(4294967296)
    );
}

#[test]
fn flags_should_round_trip() {
    for flag in [(false, false), (false, true), (true, false), (true, true)] {
        assert_eq!(Integer::from_flag(flag).to_flag(), flag);
    }
    assert_eq!(Integer::U8(1).to_flag(), (false, false));
    assert_eq!(Integer::U16(1).to_flag(), (false, true));
    assert_eq!(Integer::U32(1).to_flag(), (true, false));
    assert_eq!(Integer::U64(1).to_flag(), (true, true));
}

#[test]
fn integers_should_be_little_endian() {
    assert_eq!(Integer::U8(7).to_le_bytes(), [7]);
    assert_eq!(Integer::U16(0x0102).to_le_bytes(), [2, 1]);
    assert_eq!(Integer::U32(0x01020304).to_le_bytes(), [4, 3, 2, 1]);
    assert_eq!(
        Integer::U64(0x0102030405060708).to_le_bytes(),
        [8, 7, 6, 5, 4, 3, 2, 1]
    );
}

#[test]
fn integers_should_be_read_back() {
    for integer in [
        Integer::U8(200),
        Integer::U16(60000),
        Integer::U32(4000000000),
        Integer::U64(u64::MAX),
    ] {
        let mut bytes = integer.to_le_bytes();
        bytes.push(42);
        let mut reader = Reader::new(bytes);
        let read = Integer::from_flag(integer.to_flag()).populate_from_reader(&mut reader);
        assert_eq!(read, Ok(integer));
        assert_eq!(reader.remaining(), 1);
    }
}

#[test]
fn truncated_integer_should_fail() {
    let mut reader = Reader::new(vec![1, 2, 3]);
    let read = Integer::U32(0).populate_from_reader(&mut reader);
    assert_eq!(read, Err(Error::IoError(IoErrorKind::UnexpectedEof)));
    assert_eq!(reader.remaining(), 0);
}

#[test]
fn conversion_should_only_fail_if_too_big() {
    assert_eq!(Integer::U8(1).into_int(), Some(1));
    assert_eq!(Integer::U16(1).into_int(), Some(1));
    assert_eq!(Integer::U32(u32::MAX).into_int(), Some(u32::MAX));
    assert_eq!(Integer::U64(4294967295).into_int(), Some(u32::MAX));
    assert_eq!(Integer::U64(4294967296).into_int(), None);
    assert_eq!(Integer::U8(1).into_usize(), Some(1));
    assert_eq!(Integer::U64(4294967295).into_usize(), Some(4294967295));
}
