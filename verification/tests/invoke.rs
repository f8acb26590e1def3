use matter::invoke::{
    Answer, CommandData, CommandPath, InvokeError, InvokeRequest, InvokeResponse, Status,
    INTERACTION_MODEL_REVISION, REVISION_TAG,
};
use matter::tlv::{self, Element, Tag, TlvError, Value};

const TOGGLE: CommandPath = CommandPath {
    endpoint: 1,
    cluster: 0x0006,
    command: 0x02,
};

fn level_fields() -> Element {
    Element::new(
        Tag::Anonymous,
        Value::Structure(vec![
            Element::context(0, Value::Unsigned(128)),
            Element::context(1, Value::Unsigned(10)),
        ]),
    )
}

#[test]
fn a_request_built_encoded_and_decoded_is_equal() {
    let request = InvokeRequest {
        suppress_response: false,
        timed_request: true,
        commands: vec![CommandData {
            path: CommandPath {
                endpoint: 2,
                cluster: 0x0008,
                command: 0x00,
            },
            fields: Some(level_fields()),
            command_ref: Some(7),
        }],
        revision: INTERACTION_MODEL_REVISION,
    };
    let bytes = request.encode();
    assert_eq!(InvokeRequest::decode(&bytes).expect("decode"), request);
    let bare = InvokeRequest::of(CommandData {
        path: TOGGLE,
        fields: None,
        command_ref: None,
    });
    assert_eq!(InvokeRequest::decode(&bare.encode()).expect("decode"), bare);
}

#[test]
fn a_request_is_laid_out_with_the_specifications_tags() {
    let bytes = InvokeRequest::of(CommandData {
        path: TOGGLE,
        fields: None,
        command_ref: None,
    })
    .encode();
    let expected: &[u8] = &[
        0x15, 0x28, 0x00, 0x28, 0x01, 0x36, 0x02, 0x15, 0x37, 0x00, 0x24, 0x00, 0x01, 0x24, 0x01,
        0x06, 0x24, 0x02, 0x02, 0x18, 0x18, 0x18, 0x24, 0xFF, 0x0B, 0x18,
    ];
    assert_eq!(bytes, expected, "{bytes:02X?}");
}

#[test]
fn a_status_response_and_a_command_response_round_trip() {
    let status = InvokeResponse::of(Answer::Status {
        path: TOGGLE,
        status: Status {
            general: 0x81,
            cluster: Some(0x02),
        },
        command_ref: Some(1),
    });
    assert_eq!(
        InvokeResponse::decode(&status.encode()).expect("decode"),
        status
    );
    let command = InvokeResponse::of(Answer::Command(CommandData {
        path: TOGGLE,
        fields: Some(level_fields()),
        command_ref: None,
    }));
    assert_eq!(
        InvokeResponse::decode(&command.encode()).expect("decode"),
        command
    );
}

#[test]
fn what_is_not_an_invoke_message_is_refused_with_the_reason() {
    assert!(matches!(
        InvokeRequest::decode(&[0x15]),
        Err(InvokeError::Tlv(_))
    ));
    assert!(matches!(
        InvokeResponse::decode(&[0x04, 0x01]),
        Err(InvokeError::Shape(_))
    ));
    let no_path = tlv::encode(&Element::new(
        Tag::Anonymous,
        Value::Structure(vec![
            Element::context(
                2,
                Value::Array(vec![Element::new(Tag::Anonymous, Value::Structure(vec![]))]),
            ),
            Element::context(REVISION_TAG, Value::Unsigned(11)),
        ]),
    ));
    assert_eq!(
        InvokeRequest::decode(&no_path),
        Err(InvokeError::Shape("a CommandPath is missing".into()))
    );
    assert_eq!(
        InvokeError::Tlv(TlvError {
            offset: 0,
            reason: "x".into()
        })
        .to_string(),
        "not TLV: x at offset 0"
    );
}
