use matter::tlv::{decode, encode, Element, Tag, TlvError, Value};

fn refused(offset: usize, reason: &str) -> TlvError {
    TlvError {
        offset,
        reason: reason.to_string(),
    }
}

#[test]
fn numbers_take_the_narrowest_width_and_read_back() {
    let cases: Vec<(Value, Vec<u8>)> = vec![
        (Value::Signed(-2), vec![0x00, 0xFE]),
        (Value::Signed(127), vec![0x00, 0x7F]),
        (Value::Signed(128), vec![0x01, 0x80, 0x00]),
        (Value::Signed(-129), vec![0x01, 0x7F, 0xFF]),
        (Value::Signed(i32::MIN as i64), vec![0x02, 0x00, 0x00, 0x00, 0x80]),
        (
            Value::Signed(i32::MAX as i64 + 1),
            vec![0x03, 0x00, 0x00, 0x00, 0x80, 0x00, 0x00, 0x00, 0x00],
        ),
        (Value::Unsigned(255), vec![0x04, 0xFF]),
        (Value::Unsigned(256), vec![0x05, 0x00, 0x01]),
        (Value::Unsigned(65_536), vec![0x06, 0x00, 0x00, 0x01, 0x00]),
        (
            Value::Unsigned(1 << 32),
            vec![0x07, 0x00, 0x00, 0x00, 0x00, 0x01, 0x00, 0x00, 0x00],
        ),
    ];
    for (value, bytes) in cases {
        let element = Element::new(Tag::Anonymous, value);
        assert_eq!(encode(&element), bytes);
        assert_eq!(decode(&bytes), Ok(element));
    }
}

#[test]
fn tags_are_written_in_their_narrowest_form() {
    assert_eq!(
        encode(&Element::new(Tag::Common(0x1234), Value::Null)),
        vec![0x54, 0x34, 0x12]
    );
    assert_eq!(
        encode(&Element::new(Tag::Common(0x0001_0000), Value::Null)),
        vec![0x74, 0x00, 0x00, 0x01, 0x00]
    );
    assert_eq!(
        encode(&Element::new(Tag::Implicit(7), Value::Null)),
        vec![0x94, 0x07, 0x00]
    );
    let qualified = Element::new(
        Tag::FullyQualified {
            vendor: 0xFFF1,
            profile: 0xDEED,
            number: 0x1234_5678,
        },
        Value::Bool(false),
    );
    let bytes = encode(&qualified);
    assert_eq!(
        bytes,
        vec![0xE8, 0xF1, 0xFF, 0xED, 0xDE, 0x78, 0x56, 0x34, 0x12]
    );
    assert_eq!(decode(&bytes), Ok(qualified));
}

#[test]
fn wider_than_needed_numbers_are_read_too() {
    assert_eq!(
        decode(&[0x05, 0x2A, 0x00]),
        Ok(Element::new(Tag::Anonymous, Value::Unsigned(42)))
    );
    assert_eq!(
        decode(&[0x01, 0xFE, 0xFF]),
        Ok(Element::new(Tag::Anonymous, Value::Signed(-2)))
    );
    assert_eq!(
        encode(&decode(&[0x05, 0x2A, 0x00]).expect("decode")),
        vec![0x04, 0x2A]
    );
}

#[test]
fn floating_point_bits_come_back_bit_for_bit() {
    let nan = f32::NAN.to_bits() | 1;
    let element = Element::new(
        Tag::Anonymous,
        Value::Structure(vec![
            Element::context(0, Value::Float(nan)),
            Element::context(1, Value::Double((-0.0f64).to_bits())),
        ]),
    );
    let bytes = encode(&element);
    assert_eq!(&bytes[..3], &[0x15, 0x2A, 0x00]);
    assert_eq!(decode(&bytes), Ok(element));
}

#[test]
fn nested_containers_survive_encoding_and_decoding() {
    let element = Element::new(
        Tag::Anonymous,
        Value::List(vec![
            Element::new(
                Tag::Anonymous,
                Value::Structure(vec![Element::context(
                    0,
                    Value::Array(vec![Element::new(Tag::Anonymous, Value::Octets(vec![1, 2]))]),
                )]),
            ),
            Element::new(Tag::Anonymous, Value::Array(vec![])),
        ]),
    );
    let bytes = encode(&element);
    assert_eq!(
        bytes,
        vec![0x17, 0x15, 0x36, 0x00, 0x10, 0x02, 0x01, 0x02, 0x18, 0x18, 0x16, 0x18, 0x18]
    );
    assert_eq!(decode(&bytes), Ok(element));
}

#[test]
fn every_refusal_names_its_offset() {
    assert_eq!(
        decode(&[]),
        Err(refused(0, "a field of 1 bytes runs past the end, 0 remain"))
    );
    assert_eq!(
        decode(&[0x0C, 0x01, 0xFF]),
        Err(refused(1, "the string is not UTF-8"))
    );
    assert_eq!(
        decode(&[0x25, 0x01, 0x00]),
        Err(refused(2, "a field of 2 bytes runs past the end, 1 remain"))
    );
    assert_eq!(
        decode(&[0xC4, 0xF1, 0xFF, 0xED]),
        Err(refused(3, "a field of 2 bytes runs past the end, 1 remain"))
    );
    assert_eq!(
        decode(&[0x38]),
        Err(refused(1, "a field of 1 bytes runs past the end, 0 remain"))
    );
    assert_eq!(
        decode(&[0x18, 0x18]),
        Err(refused(0, "an end-of-container opens the bytes"))
    );
    assert_eq!(
        decode(&[0x1A]),
        Err(refused(0, "element type 0x1A is not defined"))
    );
    assert_eq!(
        decode(&[0x16]),
        Err(refused(0, "the container opened here is never closed"))
    );
    assert_eq!(
        decode(&[0x16, 0x04, 0x01, 0x18, 0x00]).expect_err("trailing").to_string(),
        "bytes continue past the element at offset 4"
    );
}

#[test]
fn members_and_numbers_are_read_only_where_they_are() {
    let number = Element::new(Tag::Anonymous, Value::Signed(-1));
    assert!(number.members().is_none());
    assert!(number.member(0).is_none());
    assert_eq!(number.as_unsigned(), None);
    assert_eq!(Element::context(1, Value::Signed(5)).as_unsigned(), Some(5));
    assert_eq!(Element::context(1, Value::Null).as_bool(), None);
    let array = Element::new(
        Tag::Anonymous,
        Value::Array(vec![
            Element::context(3, Value::Unsigned(1)),
            Element::context(3, Value::Unsigned(2)),
        ]),
    );
    assert_eq!(array.members().map(|m| m.len()), Some(2));
    assert_eq!(array.member(3).and_then(Element::as_unsigned), Some(1));
    let copy = array.clone();
    assert_eq!(copy, array);
}
