use matter::tlv::{decode, encode, Element, Tag, TlvError, Value};

fn round_trip(element: &Element) -> Vec<u8> {
    let bytes = encode(element);
    assert_eq!(&decode(&bytes).expect("decode"), element, "{bytes:02X?}");
    bytes
}

fn refused(offset: usize, reason: &str) -> TlvError {
    TlvError {
        offset,
        reason: reason.to_string(),
    }
}

#[test]
fn every_value_kind_survives_encoding_and_decoding() {
    let members = vec![
        Element::context(0, Value::Signed(-2)),
        Element::context(1, Value::Signed(-40_000)),
        Element::context(2, Value::Signed(i64::MIN)),
        Element::context(3, Value::Unsigned(200)),
        Element::context(4, Value::Unsigned(70_000)),
        Element::context(5, Value::Unsigned(u64::MAX)),
        Element::context(6, Value::Bool(true)),
        Element::context(7, Value::Bool(false)),
        Element::context(8, Value::Float(1.5f32.to_bits())),
        Element::context(9, Value::Double((-0.25f64).to_bits())),
        Element::context(10, Value::Utf8("Käkkirurgi".into())),
        Element::context(11, Value::Octets(vec![0; 300])),
        Element::context(12, Value::Null),
        Element::context(
            13,
            Value::Array(vec![
                Element::new(Tag::Anonymous, Value::Unsigned(1)),
                Element::new(Tag::Anonymous, Value::Unsigned(2)),
            ]),
        ),
        Element::new(Tag::Common(0x1234), Value::List(vec![])),
        Element::new(Tag::Common(0x0001_0000), Value::Null),
        Element::new(Tag::Implicit(7), Value::Null),
        Element::new(
            Tag::FullyQualified {
                vendor: 0xFFF1,
                profile: 0xDEED,
                number: 0x1234_5678,
            },
            Value::Utf8(String::new()),
        ),
    ];
    round_trip(&Element::new(Tag::Anonymous, Value::Structure(members)));
}

#[test]
fn the_control_byte_is_type_low_and_tag_control_high() {
    let bytes = round_trip(&Element::context(5, Value::Unsigned(0x2A)));
    assert_eq!(bytes, [0x24, 0x05, 0x2A]);
    let bytes = round_trip(&Element::new(
        Tag::Anonymous,
        Value::Structure(vec![Element::context(1, Value::Bool(true))]),
    ));
    assert_eq!(bytes, [0x15, 0x29, 0x01, 0x18]);
    let bytes = round_trip(&Element::context(2, Value::Utf8("ab".into())));
    assert_eq!(bytes, [0x2C, 0x02, 0x02, b'a', b'b']);
}

#[test]
fn a_container_that_never_closes_is_refused_where_it_opened() {
    let refusal = decode(&[0x15, 0x24, 0x01, 0x07, 0x15, 0x24, 0x02, 0x08]);
    assert_eq!(
        refusal,
        Err(refused(4, "the container opened here is never closed"))
    );
}

#[test]
fn an_undefined_element_type_is_refused_at_its_control_byte() {
    let refusal = decode(&[0x15, 0x24, 0x01, 0x07, 0x3F, 0x02, 0x18]);
    assert_eq!(refusal, Err(refused(4, "element type 0x1F is not defined")));
}

#[test]
fn a_length_past_the_end_is_refused_where_the_bytes_run_out() {
    let refusal = decode(&[0x30, 0x01, 0x09, 0xAA, 0xBB]);
    assert_eq!(
        refusal,
        Err(refused(3, "a field of 9 bytes runs past the end, 2 remain"))
    );
    assert_eq!(
        decode(&[0x04, 0x01, 0x04, 0x02]),
        Err(refused(2, "bytes continue past the element"))
    );
    assert_eq!(
        decode(&[0x18]).expect_err("an end").to_string(),
        "an end-of-container opens the bytes at offset 0"
    );
}

#[test]
fn a_member_is_found_by_its_context_tag() {
    let structure = Element::new(
        Tag::Anonymous,
        Value::Structure(vec![
            Element::context(0, Value::Unsigned(6)),
            Element::context(1, Value::Bool(true)),
        ]),
    );
    assert_eq!(structure.member(0).and_then(Element::as_unsigned), Some(6));
    assert_eq!(structure.member(1).and_then(Element::as_bool), Some(true));
    assert!(structure.member(2).is_none());
    assert!(structure.member(0).and_then(Element::as_bool).is_none());
}
