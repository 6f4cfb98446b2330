use sp1_sdk::error::DecodeError;
use sp1_sdk::serialize::SerializeProof;

fn encode<T: SerializeProof>(value: T) -> Vec<u8> {
    let mut w = Vec::new();
    let written = value.to_bytes(&mut w);
    assert_eq!(written, w.len());
    w
}

#[test]
fn u8_is_written_as_itself() {
    assert_eq!(encode(7u8), vec![7]);
    assert_eq!(u8::from_bytes(&[9, 8], 1).unwrap(), (8, 1));
    assert_eq!(u8::from_bytes(&[], 0).unwrap_err(), DecodeError::UnexpectedEnd);
}

#[test]
fn u32_is_little_endian() {
    assert_eq!(encode(0x0102_0304u32), vec![4, 3, 2, 1]);
    assert_eq!(u32::from_bytes(&[0xff, 4, 3, 2, 1], 1).unwrap(), (0x0102_0304, 4));
    assert_eq!(u32::from_bytes(&[1, 2, 3], 0).unwrap_err(), DecodeError::UnexpectedEnd);
}

#[test]
fn u64_is_little_endian() {
    assert_eq!(encode(0x0102_0304_0506_0708u64), vec![8, 7, 6, 5, 4, 3, 2, 1]);
    assert_eq!(
        u64::from_bytes(&[8, 7, 6, 5, 4, 3, 2, 1], 0).unwrap(),
        (0x0102_0304_0506_0708, 8)
    );
    assert_eq!(u64::from_bytes(&[0; 7], 0).unwrap_err(), DecodeError::UnexpectedEnd);
}

#[test]
fn usize_is_written_as_u64() {
    assert_eq!(encode(258usize), vec![2, 1, 0, 0, 0, 0, 0, 0]);
    assert_eq!(usize::from_bytes(&[2, 1, 0, 0, 0, 0, 0, 0], 0).unwrap(), (258, 8));
}

#[test]
fn bool_is_one_or_zero() {
    assert_eq!(encode(true), vec![1]);
    assert_eq!(encode(false), vec![0]);
    assert_eq!(bool::from_bytes(&[1], 0).unwrap(), (true, 1));
    assert_eq!(bool::from_bytes(&[0], 0).unwrap(), (false, 1));
    assert_eq!(bool::from_bytes(&[2], 0).unwrap_err(), DecodeError::InvalidBool);
    assert_eq!(bool::from_bytes(&[], 0).unwrap_err(), DecodeError::UnexpectedEnd);
}

#[test]
fn unit_takes_no_bytes() {
    assert_eq!(encode(()), Vec::<u8>::new());
    assert_eq!(<()>::from_bytes(&[], 0).unwrap(), ((), 0));
}

#[test]
fn string_is_its_utf8_bytes_with_length() {
    assert_eq!(encode(String::from("ab")), vec![2, 0, 0, 0, b'a', b'b']);
    assert_eq!(encode(String::from("é")), vec![2, 0, 0, 0, 0xc3, 0xa9]);
    let (s, n) = String::from_bytes(&[2, 0, 0, 0, 0xc3, 0xa9, 7], 0).unwrap();
    assert_eq!((s.as_str(), n), ("é", 6));
}

#[test]
fn string_rejects_invalid_utf8() {
    assert_eq!(String::from_bytes(&[1, 0, 0, 0, 0xff], 0).unwrap_err(), DecodeError::InvalidUtf8);
    assert_eq!(String::from_bytes(&[2, 0, 0, 0, b'a'], 0).unwrap_err(), DecodeError::UnexpectedEnd);
}

#[test]
fn vec_is_length_then_elements() {
    assert_eq!(encode(vec![1u32, 2u32]), vec![2, 0, 0, 0, 1, 0, 0, 0, 2, 0, 0, 0]);
    assert_eq!(encode(Vec::<u32>::new()), vec![0, 0, 0, 0]);
    let (v, n) = Vec::<u32>::from_bytes(&[2, 0, 0, 0, 1, 0, 0, 0, 2, 0, 0, 0], 0).unwrap();
    assert_eq!((v, n), (vec![1, 2], 12));
    assert_eq!(
        Vec::<u32>::from_bytes(&[2, 0, 0, 0, 1, 0, 0, 0, 2, 0], 0).unwrap_err(),
        DecodeError::UnexpectedEnd
    );
    assert_eq!(
        Vec::<bool>::from_bytes(&[2, 0, 0, 0, 1, 5], 0).unwrap_err(),
        DecodeError::InvalidBool
    );
}

#[test]
fn array_is_elements_without_length() {
    assert_eq!(encode([1u8, 2, 3]), vec![1, 2, 3]);
    assert_eq!(encode([1u32, 2]), vec![1, 0, 0, 0, 2, 0, 0, 0]);
    assert_eq!(<[u8; 3]>::from_bytes(&[0, 1, 2, 3], 1).unwrap(), ([1, 2, 3], 3));
    assert_eq!(<[u8; 3]>::from_bytes(&[1, 2], 0).unwrap_err(), DecodeError::UnexpectedEnd);
    assert_eq!(<[u8; 0]>::from_bytes(&[], 0).unwrap(), ([], 0));
}

#[test]
fn tuples_are_their_components_in_order() {
    assert_eq!(encode((1u8, 2u32)), vec![1, 2, 0, 0, 0]);
    assert_eq!(encode((1u8, true, 3u8)), vec![1, 1, 3]);
    assert_eq!(encode((1u8, 2u8, 3u8, 4u8)), vec![1, 2, 3, 4]);
    assert_eq!(encode((1u8, 2u8, (), 4u8, false)), vec![1, 2, 4, 0]);
    assert_eq!(<(u8, u32)>::from_bytes(&[1, 2, 0, 0, 0], 0).unwrap(), ((1, 2), 5));
    assert_eq!(
        <(u8, bool, u8)>::from_bytes(&[1, 3, 3], 0).unwrap_err(),
        DecodeError::InvalidBool
    );
    assert_eq!(<(u8, u8, u8, u8, u8)>::from_bytes(&[1, 2, 3, 4, 5], 0).unwrap(), ((1, 2, 3, 4, 5), 5));
}

#[test]
fn read_back_gives_what_was_written() {
    let mut w = vec![0xaa];
    let value = (vec![String::from("chip"), String::from("ü")], (7u64, [true, false], 9usize));
    let written = value.clone().to_bytes(&mut w);
    w.push(0xbb);
    let (back, n) = <(Vec<String>, (u64, [bool; 2], usize))>::from_bytes(&w, 1).unwrap();
    assert_eq!(n, written);
    assert_eq!(back, value);
}
