use matter::invoke::{
    Answer, CommandData, CommandPath, InvokeError, InvokeRequest, InvokeResponse, Status,
    REVISION_TAG,
};
use matter::tlv::{encode, Element, Tag, TlvError, Value};

fn message(members: Vec<Element>) -> Vec<u8> {
    encode(&Element::new(Tag::Anonymous, Value::Structure(members)))
}

fn path(endpoint: u64, cluster: u64, command: u64) -> Element {
    Element::context(
        0,
        Value::List(vec![
            Element::context(0, Value::Unsigned(endpoint)),
            Element::context(1, Value::Unsigned(cluster)),
            Element::context(2, Value::Unsigned(command)),
        ]),
    )
}

fn request_with(command: Vec<Element>, revision: Value) -> Vec<u8> {
    message(vec![
        Element::context(
            2,
            Value::Array(vec![Element::new(Tag::Anonymous, Value::Structure(command))]),
        ),
        Element::context(REVISION_TAG, revision),
    ])
}

fn shape(reason: &str) -> Result<InvokeRequest, InvokeError> {
    Err(InvokeError::Shape(reason.to_string()))
}

#[test]
fn each_shape_refusal_names_what_is_wrong() {
    assert_eq!(
        InvokeRequest::decode(&message(vec![])),
        shape("the invoke request has no InvokeRequests")
    );
    assert_eq!(
        InvokeRequest::decode(&request_with(vec![path(1, 6, 2)], Value::Null)),
        shape("the message carries no InteractionModelRevision")
    );
    assert_eq!(
        InvokeRequest::decode(&request_with(vec![path(1, 6, 2)], Value::Unsigned(300))),
        shape("revision 300 is not a byte")
    );
    assert_eq!(
        InvokeRequest::decode(&request_with(vec![path(70_000, 6, 2)], Value::Unsigned(11))),
        shape("EndpointId 70000 is out of range")
    );
    let no_cluster = Element::context(
        0,
        Value::List(vec![Element::context(0, Value::Unsigned(1))]),
    );
    assert_eq!(
        InvokeRequest::decode(&request_with(vec![no_cluster], Value::Unsigned(11))),
        shape("ClusterId is missing or not an unsigned integer")
    );
    assert_eq!(
        InvokeRequest::decode(&request_with(
            vec![path(1, 6, 2), Element::context(1, Value::Unsigned(4))],
            Value::Unsigned(11)
        )),
        shape("CommandFields is not a structure")
    );
    assert_eq!(
        InvokeRequest::decode(&request_with(
            vec![path(1, 6, 2), Element::context(2, Value::Unsigned(1 << 16))],
            Value::Unsigned(11)
        )),
        shape("CommandRef 65536 is out of range")
    );
    assert_eq!(
        InvokeResponse::decode(&message(vec![])),
        Err(InvokeError::Shape(
            "the invoke response has no InvokeResponses".to_string()
        ))
    );
    let answers = |answer: Vec<Element>| {
        message(vec![
            Element::context(
                1,
                Value::Array(vec![Element::new(Tag::Anonymous, Value::Structure(answer))]),
            ),
            Element::context(REVISION_TAG, Value::Unsigned(11)),
        ])
    };
    assert_eq!(
        InvokeResponse::decode(&answers(vec![])),
        Err(InvokeError::Shape(
            "an InvokeResponse is neither a Command nor a Status".to_string()
        ))
    );
    assert_eq!(
        InvokeResponse::decode(&answers(vec![Element::context(
            1,
            Value::Structure(vec![path(1, 6, 2)])
        )])),
        Err(InvokeError::Shape("a CommandStatus has no Status".to_string()))
    );
}

#[test]
fn absent_flags_read_as_false_and_signed_numbers_as_unsigned() {
    let bytes = request_with(
        vec![Element::context(
            0,
            Value::List(vec![
                Element::context(0, Value::Signed(1)),
                Element::context(1, Value::Signed(6)),
                Element::context(2, Value::Signed(2)),
            ]),
        )],
        Value::Signed(11),
    );
    let request = InvokeRequest::decode(&bytes).expect("decode");
    assert!(!request.suppress_response && !request.timed_request);
    assert_eq!(request.revision, 11);
    assert_eq!(
        request.commands,
        vec![CommandData {
            path: CommandPath {
                endpoint: 1,
                cluster: 6,
                command: 2,
            },
            fields: None,
            command_ref: None,
        }]
    );
}

#[test]
fn a_tlv_error_becomes_an_invoke_error() {
    let error = TlvError {
        offset: 3,
        reason: "why".to_string(),
    };
    assert_eq!(InvokeError::from(error.clone()), InvokeError::Tlv(error));
    assert_eq!(
        InvokeRequest::decode(&[0x15]).expect_err("open").to_string(),
        "not TLV: the container opened here is never closed at offset 0"
    );
    assert_eq!(InvokeError::Shape("x".to_string()).to_string(), "x");
}

#[test]
fn several_answers_and_statuses_round_trip() {
    let response = InvokeResponse {
        suppress_response: true,
        answers: vec![
            Answer::Status {
                path: CommandPath {
                    endpoint: 0,
                    cluster: 0xFFFF_FFFF,
                    command: 0x42,
                },
                status: Status::general(Status::SUCCESS),
                command_ref: None,
            },
            Answer::Status {
                path: CommandPath {
                    endpoint: 0xFFFF,
                    cluster: 1,
                    command: 0,
                },
                status: Status {
                    general: Status::FAILURE,
                    cluster: None,
                },
                command_ref: Some(0xFFFF),
            },
        ],
        revision: 12,
    };
    assert_eq!(InvokeResponse::decode(&response.encode()), Ok(response));
    assert!(Status::general(0).is_success());
    assert!(!Status::general(Status::FAILURE).is_success());
}
