use ipfi::pack::frame_args;
use ipfi::{Error, Pack, Packed, ProcedureArgs, Tuple, Unpack};

#[test]
fn unsigned_integers_should_be_packed() {
    assert_eq!(0u8.pack(), Ok(vec![0]));
    assert_eq!(127u16.pack(), Ok(vec![127]));
    assert_eq!(128u8.pack(), Ok(vec![0xcc, 128]));
    assert_eq!(256u32.pack(), Ok(vec![0xcd, 1, 0]));
    assert_eq!(65536u32.pack(), Ok(vec![0xce, 0, 1, 0, 0]));
    assert_eq!(
        4294967296u64.pack(),
        Ok(vec![0xcf, 0, 0, 0, 1, 0, 0, 0, 0])
    );
}

#[test]
fn signed_integers_should_be_packed() {
    assert_eq!(5i8.pack(), Ok(vec![5]));
    assert_eq!((-1i16).pack(), Ok(vec![0xff]));
    assert_eq!((-32i32).pack(), Ok(vec![0xe0]));
    assert_eq!((-33i32).pack(), Ok(vec![0xd0, 0xdf]));
    assert_eq!((-129i32).pack(), Ok(vec![0xd1, 0xff, 0x7f]));
    assert_eq!((-32769i32).pack(), Ok(vec![0xd2, 0xff, 0xff, 0x7f, 0xff]));
    assert_eq!(
        i64::MIN.pack(),
        Ok(vec![0xd3, 0x80, 0, 0, 0, 0, 0, 0, 0])
    );
    assert_eq!(200i64.pack(), Ok(vec![0xcc, 200]));
}

#[test]
fn other_values_should_be_packed() {
    assert_eq!(true.pack(), Ok(vec![0xc3]));
    assert_eq!(false.pack(), Ok(vec![0xc2]));
    assert_eq!(().pack(), Ok(vec![0xc0]));
    assert_eq!("hi".pack(), Ok(vec![0xa2, b'h', b'i']));
    let long = "x".repeat(40);
    let packed = long.pack().unwrap();
    assert_eq!(packed[..2], [0xd9, 40]);
    assert_eq!(packed.len(), 42);
    let longer = "x".repeat(300).pack().unwrap();
    assert_eq!(longer[..3], [0xda, 1, 44]);
    let longest = "x".repeat(70000).pack().unwrap();
    assert_eq!(longest[..5], [0xdb, 0, 1, 0x11, 0x70]);
}

#[test]
fn values_should_survive_packing() {
    for value in [0u64, 127, 128, 255, 256, 65535, 65536, 4294967295, 4294967296] {
        assert_eq!(u64::unpack(&value.pack().unwrap()), Ok(value));
        if value <= 255 {
            assert_eq!(u8::unpack(&value.pack().unwrap()), Ok(value as u8));
        } else {
            assert_eq!(u8::unpack(&value.pack().unwrap()), Err(Error::Decode));
        }
        if value <= 4294967295 {
            assert_eq!(u32::unpack(&value.pack().unwrap()), Ok(value as u32));
        } else {
            assert_eq!(u32::unpack(&value.pack().unwrap()), Err(Error::Decode));
        }
    }
    for value in [i64::MIN, -32769, -129, -33, -1, 0, 1, 300, i64::MAX] {
        assert_eq!(i64::unpack(&value.pack().unwrap()), Ok(value));
    }
    assert_eq!(bool::unpack(&true.pack().unwrap()), Ok(true));
    assert_eq!(bool::unpack(&false.pack().unwrap()), Ok(false));
    assert_eq!(
        String::unpack(&"h\u{e4}llo".pack().unwrap()),
        Ok(String::from("h\u{e4}llo"))
    );
    assert_eq!(<() as Unpack>::unpack(&().pack().unwrap()), Ok(()));
}

#[test]
fn wrong_types_should_not_be_unpacked() {
    assert_eq!(String::unpack(&[42]), Err(Error::Decode));
    assert_eq!(bool::unpack(&[42]), Err(Error::Decode));
    assert_eq!(u64::unpack(&[0xff]), Err(Error::Decode));
    assert_eq!(i64::unpack(&[0xc0]), Err(Error::Decode));
    assert_eq!(u8::unpack(&[]), Err(Error::Decode));
    assert_eq!(<() as Unpack>::unpack(&[1]), Err(Error::Decode));
    assert_eq!(bool::unpack(&[]), Err(Error::Decode));
    assert_eq!(bool::unpack(&[0xc0]), Err(Error::Decode));
    assert_eq!(bool::unpack(&[0xcc, 1]), Err(Error::Decode));
    assert_eq!(<() as Unpack>::unpack(&[]), Err(Error::Decode));
    for first in 0..=255u8 {
        let bytes = [first, 0, 0, 0, 0, 0, 0, 0, 0, 0];
        let expected = match first {
            0xc2 => Ok(false),
            0xc3 => Ok(true),
            _ => Err(Error::Decode),
        };
        assert_eq!(bool::unpack(&bytes), expected);
        assert_eq!(<() as Unpack>::unpack(&bytes).is_ok(), first == 0xc0);
    }
}

#[test]
fn arguments_should_be_flattened() {
    assert_eq!(("John", "Doe").into_bytes().unwrap(), b"\xa4John\xa3Doe");
    assert_eq!(vec![1u8, 2].into_bytes(), Ok(vec![1, 2]));
    assert_eq!([true, false, true].into_bytes(), Ok(vec![0xc3, 0xc2, 0xc3]));
    assert_eq!((true, false, true).into_bytes(), Ok(vec![0xc3, 0xc2, 0xc3]));
    assert_eq!(vec![true, false, true].into_bytes(), Ok(vec![0xc3, 0xc2, 0xc3]));
    assert_eq!(().into_bytes(), Ok(vec![]));
    assert_eq!((1u8,).into_bytes(), Ok(vec![1]));
    assert_eq!((Packed(vec![7, 8]), 9u8).into_bytes(), Ok(vec![7, 8, 9]));
    let many = (
        1u8, 2u8, 3u8, 4u8, 5u8, 6u8, 7u8, 8u8, 9u8, 10u8, 11u8, 12u8, 13u8, 14u8, 15u8, 16u8, 17u8,
        18u8, 19u8, "x",
    );
    let bytes = many.into_bytes().unwrap();
    assert_eq!(bytes.len(), 21);
    assert_eq!(bytes[18..], [19, 0xa1, b'x']);
}

#[test]
fn tuples_should_know_their_lengths() {
    assert_eq!(<() as Tuple>::len(), 0);
    assert_eq!(<(u8,) as Tuple>::len(), 1);
    assert_eq!(<(u8, String) as Tuple>::len(), 2);
    assert_eq!(<(u8, u8, u8, u8, u8, u8, u8) as Tuple>::len(), 7);
    assert_eq!(
        <(u8, u8, u8, u8, u8, u8, u8, u8, u8, u8, u8, u8, u8, u8, u8, u8, u8, u8, u8, u8) as Tuple>::len(),
        20
    );
}

#[test]
fn arguments_should_be_framed() {
    assert_eq!(frame_args(2, &[1, 2]), Ok(vec![0x92, 1, 2]));
    assert_eq!(frame_args(0, &[1, 2]), Ok(vec![0xc0]));
    assert_eq!(frame_args(15, &[]), Ok(vec![0x9f]));
    assert_eq!(frame_args(16, &[]), Ok(vec![0xdc, 0, 16]));
    assert_eq!(frame_args(65536, &[7]), Ok(vec![0xdd, 0, 1, 0, 0, 7]));
    let args = ("John", 42u8).into_bytes().unwrap();
    let framed = frame_args(<(String, u8) as Tuple>::len(), &args).unwrap();
    let decoded: (String, u8) = rmp_serde::from_slice(&framed).unwrap();
    assert_eq!(decoded, (String::from("John"), 42));
}
