use serde_repr_base64::base64;
use serde_repr_base64::base64_if_readable::{self, Portable};
use serde_repr_base64::base64_string;
use serde_repr_base64::error::ReprError;

fn is_url_safe_text(s: &str) -> bool {
    s.chars()
        .all(|c| c.is_ascii_alphanumeric() || c == '-' || c == '_' || c == '=')
}

fn text_round_trip_u8(v: &[u8]) {
    let text = base64::serialize(v);
    assert_eq!(base64::deserialize::<u8>(&text).unwrap(), v.to_vec());
}

#[test]
pub fn test() {
    let text = base64_string::serialize("Hello, World");
    assert_eq!(base64_string::deserialize(&text).unwrap(), "Hello, World");

    text_round_trip_u8(&[123, 74]);
    text_round_trip_u8(&[1, 23, 14, 51, 125]);
    for readable in [true, false] {
        for v in [vec![123u8, 12], vec![123, 12, 84, 2]] {
            let field = base64_if_readable::serialize(&v, readable);
            assert_eq!(base64_if_readable::deserialize(field).unwrap(), v);
        }
    }

    let text = base64::serialize(&[123usize, 74]);
    assert_eq!(base64::deserialize::<usize>(&text).unwrap(), vec![123, 74]);
    let text = base64::serialize(&[1i64, 23, 14, 51, 125]);
    assert_eq!(base64::deserialize::<i64>(&text).unwrap(), vec![1, 23, 14, 51, 125]);
    for readable in [true, false] {
        let field = base64_if_readable::serialize(&[123usize, 12], readable);
        assert_eq!(base64_if_readable::deserialize(field).unwrap(), vec![123, 12]);
        let field = base64_if_readable::serialize(&[123i64, 12, 84, 2], readable);
        assert_eq!(base64_if_readable::deserialize(field).unwrap(), vec![123, 12, 84, 2]);
    }
}

#[test]
fn byte_array_round_trip() {
    let text = base64::serialize(&[123u8, 74]);
    assert_eq!(text, "e0o=");
    assert_eq!(base64::deserialize::<u8>(&text).unwrap(), vec![123, 74]);
}

#[test]
fn i64_vector_round_trip() {
    let v: Vec<i64> = vec![1, 23, 14, 51, 125];
    let text = base64::serialize(&v);
    assert_eq!(text, "AQAAAAAAAAAXAAAAAAAAAA4AAAAAAAAAMwAAAAAAAAB9AAAAAAAAAA==");
    assert_eq!(base64::deserialize::<i64>(&text).unwrap(), v);
}

#[test]
fn negative_elements_round_trip() {
    let v: Vec<i16> = vec![-2, i16::MIN, i16::MAX, 0];
    let text = base64::serialize(&v);
    assert_eq!(&text[..4], "_v8A");
    assert_eq!(base64::deserialize::<i16>(&text).unwrap(), v);
    let w: Vec<i8> = vec![-1, -128, 127];
    assert_eq!(base64::deserialize::<i8>(&base64::serialize(&w)).unwrap(), w);
    let x: Vec<i32> = vec![-1, i32::MIN, 7];
    assert_eq!(base64::deserialize::<i32>(&base64::serialize(&x)).unwrap(), x);
    let y: Vec<u32> = vec![u32::MAX, 1];
    assert_eq!(base64::deserialize::<u32>(&base64::serialize(&y)).unwrap(), y);
    let z: Vec<u16> = vec![513];
    assert_eq!(base64::serialize(&z), "AQI=");
}

#[test]
fn string_round_trip() {
    let text = base64_string::serialize("Hello, World");
    assert_eq!(text, "SGVsbG8sIFdvcmxk");
    assert_eq!(base64_string::deserialize(&text).unwrap(), "Hello, World");
    let text = base64_string::serialize("grüße, 世界");
    assert_eq!(base64_string::deserialize(&text).unwrap(), "grüße, 世界");
}

#[test]
fn empty_sequences() {
    let text = base64::serialize::<u8>(&[]);
    assert_eq!(text, "");
    assert_eq!(base64::deserialize::<u8>(&text).unwrap(), Vec::<u8>::new());
    let text = base64::serialize::<i64>(&[]);
    assert_eq!(text, "");
    assert_eq!(base64::deserialize::<i64>(&text).unwrap(), Vec::<i64>::new());
    assert_eq!(base64_string::serialize(""), "");
    assert_eq!(base64_string::deserialize("").unwrap(), "");
}

#[test]
fn alphabet_conformance() {
    let text = base64::serialize(&[255u8, 254, 253]);
    assert_eq!(text, "__79");
    assert!(is_url_safe_text(&text));
    assert!(!text.contains('+') && !text.contains('/'));
    let text = base64::serialize(&[255u8, 254]);
    assert_eq!(text, "__4=");
    let all: Vec<u8> = (0..=255).collect();
    assert!(is_url_safe_text(&base64::serialize(&all)));
    assert!(is_url_safe_text(&base64_string::serialize("?>?>~~")));
}

#[test]
fn length_mismatch_rejected() {
    // five bytes are not a whole number of 8-byte or 2-byte elements
    let text = base64::serialize(&[1u8, 23, 14, 51, 125]);
    assert_eq!(text, "ARcOM30=");
    match base64::deserialize::<i64>(&text) {
        Err(ReprError::LengthMismatch { len, width }) => {
            assert_eq!(len, 5);
            assert_eq!(width, 8);
        }
        other => panic!("unexpected {:?}", other),
    }
    assert!(matches!(
        base64::deserialize::<u16>(&text),
        Err(ReprError::LengthMismatch { len: 5, width: 2 })
    ));
    assert!(matches!(
        base64_if_readable::deserialize::<u32>(Portable::Text(text)),
        Err(ReprError::LengthMismatch { len: 5, width: 4 })
    ));
}

#[test]
fn malformed_text_rejected() {
    let bad = "!!!not-base64!!!";
    match base64::deserialize::<u8>(bad) {
        Err(ReprError::MalformedText(t)) => assert_eq!(t, bad),
        other => panic!("unexpected {:?}", other),
    }
    match base64_if_readable::deserialize::<u8>(Portable::Text(bad.to_string())) {
        Err(ReprError::MalformedText(t)) => assert_eq!(t, bad),
        other => panic!("unexpected {:?}", other),
    }
    match base64_string::deserialize(bad) {
        Err(ReprError::MalformedText(t)) => assert_eq!(t, bad),
        other => panic!("unexpected {:?}", other),
    }
    // the standard alphabet's `+` and `/` are not URL-safe symbols
    assert!(matches!(base64::deserialize::<u8>("+/+/"), Err(ReprError::MalformedText(_))));
}

#[test]
fn invalid_utf8_rejected() {
    let text = base64::serialize(&[0xffu8, 0xfe]);
    assert!(matches!(base64_string::deserialize(&text), Err(ReprError::InvalidUtf8)));
}

#[test]
fn decoded_results_taken_as_given() {
    assert_eq!(
        base64::elements_from_decoded::<u16>("AQI=", Some(vec![1, 2, 3, 4])).unwrap(),
        vec![513, 1027]
    );
    assert!(matches!(
        base64::elements_from_decoded::<u16>("x", Some(vec![1, 2, 3])),
        Err(ReprError::LengthMismatch { len: 3, width: 2 })
    ));
    assert!(matches!(
        base64::elements_from_decoded::<u8>("x", None),
        Err(ReprError::MalformedText(t)) if t == "x"
    ));
    assert_eq!(base64_string::string_from_decoded("t", Some(b"abc".to_vec())).unwrap(), "abc");
    assert!(matches!(
        base64_string::string_from_decoded("t", Some(vec![0xc3])),
        Err(ReprError::InvalidUtf8)
    ));
    assert!(matches!(
        base64_string::string_from_decoded("t", None),
        Err(ReprError::MalformedText(t)) if t == "t"
    ));
}

#[test]
fn readable_adaptor_discriminates_formats() {
    let v: Vec<u8> = vec![123, 12, 84, 2];
    match base64_if_readable::serialize(&v, true) {
        Portable::Text(s) => {
            assert_eq!(s, base64::serialize(&v));
            assert_eq!(s, "ewxUAg==");
        }
        Portable::Native(_) => panic!("textual format must carry text"),
    }
    match base64_if_readable::serialize(&v, false) {
        Portable::Native(w) => {
            assert_eq!(w, v);
            // the binary format sees the value itself: no base64 framing
            assert_eq!(postcard::to_allocvec(&w).unwrap(), postcard::to_allocvec(&v).unwrap());
            assert_eq!(postcard::to_allocvec(&w).unwrap(), vec![4, 123, 12, 84, 2]);
        }
        Portable::Text(_) => panic!("binary format must carry the value"),
    }
    let text = base64_if_readable::serialize(&v, true);
    let native = base64_if_readable::serialize(&v, false);
    assert_eq!(base64_if_readable::deserialize(text).unwrap(), v);
    assert_eq!(base64_if_readable::deserialize(native).unwrap(), v);
}

#[test]
fn text_travels_through_json() {
    let text = base64::serialize(&[123u8, 74]);
    let json = serde_json::to_string(&text).unwrap();
    assert_eq!(json, "\"e0o=\"");
    let back: String = serde_json::from_str(&json).unwrap();
    assert_eq!(base64::deserialize::<u8>(&back).unwrap(), vec![123, 74]);
}

#[test]
fn usize_elements_take_the_target_width() {
    let v: Vec<usize> = vec![123, 74];
    let text = base64::serialize(&v);
    if std::mem::size_of::<usize>() == 8 {
        assert_eq!(text, "ewAAAAAAAABKAAAAAAAAAA==");
    } else {
        assert_eq!(text, "ewAAAEoAAAA=");
    }
    assert_eq!(base64::deserialize::<usize>(&text).unwrap(), v);
    assert!(matches!(
        base64::deserialize::<usize>("ewAA"),
        Err(ReprError::LengthMismatch { len: 3, .. })
    ));
}

#[test]
fn u64_elements_are_little_endian() {
    let text = base64::serialize(&[123u64, 74]);
    assert_eq!(text, "ewAAAAAAAABKAAAAAAAAAA==");
    assert_eq!(base64::deserialize::<u64>(&text).unwrap(), vec![123, 74]);
}

#[test]
fn wide_elements_round_trip() {
    let v: Vec<u128> = vec![u128::MAX, 1 << 100, 0];
    assert_eq!(base64::deserialize::<u128>(&base64::serialize(&v)).unwrap(), v);
    let w: Vec<i128> = vec![i128::MIN, -1, 5];
    let text = base64::serialize(&w);
    assert_eq!(&text[..24], "AAAAAAAAAAAAAAAAAAAAgP__");
    assert_eq!(base64::deserialize::<i128>(&text).unwrap(), w);
}
