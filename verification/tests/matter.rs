use matter::invoke::{Answer, CommandData, CommandPath, InvokeRequest, InvokeResponse, Status};
use matter::tlv::{self, Element, Tag, Value};
use matter::{
    Arrival, Fault, Header, Invocation, Matter, OperationName, Outcome, Reply, Stream, MEDIA_TYPE,
    OPCODE_HEADER,
};

const MOVE_TO_LEVEL: CommandPath = CommandPath {
    endpoint: 1,
    cluster: 0x0008,
    command: 0x00,
};

fn stream(bytes: Vec<u8>) -> Stream<u64> {
    Stream::new(1, bytes, Some(MEDIA_TYPE.to_string()))
}

fn level() -> Element {
    Element::new(
        Tag::Anonymous,
        Value::Structure(vec![Element::context(0, Value::Unsigned(128))]),
    )
}

fn invocation_of(body: &Stream<u64>) -> Invocation<u64> {
    let arrival = Arrival {
        target: "",
        method: "",
        headers: &[],
        body,
    };
    Matter.invocation(&arrival).expect("invocation")
}

#[test]
fn an_invoke_request_becomes_endpoint_cluster_and_command_with_tlv_arguments() {
    let mut request = InvokeRequest::of(CommandData {
        path: MOVE_TO_LEVEL,
        fields: Some(level()),
        command_ref: Some(3),
    });
    request.timed_request = true;
    let invocation = invocation_of(&stream(request.encode()));
    assert_eq!(
        invocation.operation,
        OperationName::new("LevelControl", "MoveToLevel")
    );
    assert_eq!(invocation.arguments.bytes(), tlv::encode(&level()));
    assert_eq!(invocation.arguments.media_type(), Some(MEDIA_TYPE));
    assert_eq!(
        invocation.parameters,
        vec![
            Header::new("endpoint", "1"),
            Header::new("command-ref", "3"),
            Header::new("timed-request", "true"),
        ]
    );
    let unknown = InvokeRequest::of(CommandData {
        path: CommandPath {
            endpoint: 0,
            cluster: 0xFC01,
            command: 0x11,
        },
        fields: None,
        command_ref: None,
    });
    let invocation = invocation_of(&stream(unknown.encode()));
    assert_eq!(invocation.operation, OperationName::new("0xFC01", "0x11"));
    assert!(invocation.arguments.is_empty());
}

#[test]
fn a_result_goes_back_as_a_command_or_a_success_and_a_fault_as_a_status() {
    let request = InvokeRequest::of(CommandData {
        path: MOVE_TO_LEVEL,
        fields: Some(level()),
        command_ref: None,
    });
    let invocation = invocation_of(&stream(request.encode()));
    let answered = |outcome: &Outcome<u64>| {
        let reply = Matter.reply(&invocation, outcome).expect("reply");
        assert!(reply.headers.contains(&Header::new(OPCODE_HEADER, "9")));
        let response = InvokeResponse::decode(reply.body.bytes()).expect("decode");
        response.answers.into_iter().next().expect("one answer")
    };
    let fields = answered(&Outcome::Result(stream(tlv::encode(&level()))));
    assert_eq!(
        fields,
        Answer::Command(CommandData {
            path: MOVE_TO_LEVEL,
            fields: Some(level()),
            command_ref: None,
        })
    );
    let success = answered(&Outcome::Result(stream(Vec::new())));
    assert!(matches!(success, Answer::Status { status, .. } if status.is_success()));
    let general = answered(&Outcome::Fault(Fault {
        code: "UNSUPPORTED_COMMAND".into(),
        message: String::new(),
    }));
    assert!(matches!(general, Answer::Status { status, .. } if status.general == 0x81));
    let specific = answered(&Outcome::Fault(Fault {
        code: "FAILURE/0x02".into(),
        message: String::new(),
    }));
    let expected = Status {
        general: Status::FAILURE,
        cluster: Some(2),
    };
    assert!(matches!(specific, Answer::Status { status, .. } if status == expected));
    let unknown = Outcome::Fault(Fault {
        code: "TEAPOT".into(),
        message: String::new(),
    });
    assert!(Matter.reply(&invocation, &unknown).is_err());
}

#[test]
fn a_request_and_its_outcome_round_trip_on_the_send_side() {
    let invocation = Invocation {
        operation: OperationName::new("0x0006", "Toggle"),
        arguments: stream(Vec::new()),
        parameters: vec![Header::new("endpoint", "2")],
    };
    let request = Matter.request(&invocation).expect("request");
    assert_eq!(request.target, "2/OnOff/Toggle");
    assert_eq!(request.method, "invoke");
    assert!(request.headers.contains(&Header::new(OPCODE_HEADER, "8")));
    let decoded = InvokeRequest::decode(request.body.bytes()).expect("decode");
    assert_eq!(
        decoded.commands,
        vec![CommandData {
            path: CommandPath {
                endpoint: 2,
                cluster: 0x0006,
                command: 0x02,
            },
            fields: None,
            command_ref: None,
        }]
    );
    let reply_of = |answer: Answer| Reply {
        headers: Vec::new(),
        body: stream(InvokeResponse::of(answer).encode()),
    };
    let succeeded = reply_of(Answer::Status {
        path: decoded.commands[0].path,
        status: Status::general(Status::SUCCESS),
        command_ref: None,
    });
    match Matter.outcome(&invocation, &succeeded).expect("outcome") {
        Outcome::Result(result) => assert!(result.is_empty()),
        Outcome::Fault(fault) => panic!("unexpected {fault:?}"),
    }
    let answered = reply_of(Answer::Command(CommandData {
        path: decoded.commands[0].path,
        fields: Some(level()),
        command_ref: None,
    }));
    match Matter.outcome(&invocation, &answered).expect("outcome") {
        Outcome::Result(result) => assert_eq!(result.bytes(), tlv::encode(&level())),
        Outcome::Fault(fault) => panic!("unexpected {fault:?}"),
    }
    let refused = reply_of(Answer::Status {
        path: decoded.commands[0].path,
        status: Status {
            general: Status::FAILURE,
            cluster: Some(0x02),
        },
        command_ref: None,
    });
    match Matter.outcome(&invocation, &refused).expect("outcome") {
        Outcome::Fault(fault) => assert_eq!(fault.code, "FAILURE/0x02"),
        Outcome::Result(_) => panic!("expected a fault"),
    }
}

#[test]
fn what_is_not_one_command_in_an_invoke_request_is_refused() {
    let garbage = stream(vec![0x15, 0x24]);
    let arrival = Arrival {
        target: "",
        method: "",
        headers: &[],
        body: &garbage,
    };
    let refused = Matter.invocation(&arrival).expect_err("garbage");
    assert!(refused.to_string().starts_with("not an invoke request"));
    let mut two = InvokeRequest::of(CommandData {
        path: MOVE_TO_LEVEL,
        fields: None,
        command_ref: None,
    });
    two.commands.push(two.commands[0].clone());
    let two = stream(two.encode());
    let arrival = Arrival {
        target: "",
        method: "",
        headers: &[],
        body: &two,
    };
    assert!(Matter.invocation(&arrival).is_err());
    let nameless = Invocation {
        operation: OperationName::new("Kettle", "Boil"),
        arguments: stream(Vec::new()),
        parameters: vec![Header::new("endpoint", "1")],
    };
    assert!(Matter.request(&nameless).is_err());
    let no_endpoint = Invocation {
        parameters: Vec::new(),
        ..nameless
    };
    assert!(Matter.request(&no_endpoint).is_err());
}
