use matter::invoke::{Answer, CommandData, CommandPath, InvokeRequest, InvokeResponse, Status};
use matter::naming::{cluster_name, command_name, parse_id};
use matter::tlv::{encode, Element, Tag, Value};
use matter::{
    fault_of, status_of, Arrival, Fault, Header, Invocation, Matter, OperationName, Outcome,
    Reply, Stream, MEDIA_TYPE,
};

fn tlv(bytes: Vec<u8>) -> Stream<u64> {
    Stream::new(1, bytes, Some(MEDIA_TYPE.to_string()))
}

fn fault(code: &str) -> Fault {
    Fault {
        message: String::new(),
        code: code.to_string(),
    }
}

fn invocation(service: &str, name: &str, parameters: Vec<Header>) -> Invocation<u64> {
    Invocation {
        operation: OperationName::new(service, name),
        arguments: tlv(Vec::new()),
        parameters,
    }
}

fn arrive(bytes: Vec<u8>) -> Result<Invocation<u64>, String> {
    let body = tlv(bytes);
    let arrival = Arrival {
        target: "",
        method: "",
        headers: &[],
        body: &body,
    };
    Matter.invocation(&arrival).map_err(|e| e.to_string())
}

#[test]
fn ids_are_read_in_hex_or_decimal() {
    assert_eq!(parse_id("0x1F"), Some(31));
    assert_eq!(parse_id("31"), Some(31));
    assert_eq!(parse_id("+31"), Some(31));
    assert_eq!(parse_id("0xffffffff"), Some(u32::MAX));
    assert_eq!(parse_id("0x"), None);
    assert_eq!(parse_id("-1"), None);
    assert_eq!(parse_id("4294967296"), None);
    assert_eq!(parse_id(""), None);
    assert_eq!(parse_id("0X1F"), None);
}

#[test]
fn names_are_the_tables_or_hex() {
    assert_eq!(cluster_name(0x0102), "WindowCovering");
    assert_eq!(cluster_name(0x0005), "0x0005");
    assert_eq!(cluster_name(0x1_0000), "0x10000");
    assert_eq!(command_name(0x0006, 0x42), "OnWithTimedOff");
    assert_eq!(command_name(0x0006, 0x99), "0x99");
    assert_eq!(command_name(0xFC01, 0x5), "0x05");
    assert_eq!(Matter.technology(), "matter");
}

#[test]
fn a_status_becomes_a_fault_and_back() {
    let named = fault_of(Status::general(0x81));
    assert_eq!(named.code, "UNSUPPORTED_COMMAND");
    assert_eq!(named.message, "Matter status UNSUPPORTED_COMMAND");
    let unnamed = fault_of(Status {
        general: 0x42,
        cluster: Some(0x0A),
    });
    assert_eq!(unnamed.code, "0x42/0x0A");
    for status in [
        Status::general(0),
        Status::general(0x42),
        Status {
            general: 0xCC,
            cluster: Some(0xFF),
        },
    ] {
        assert_eq!(status_of(&fault_of(status)), Ok(status));
    }
    assert_eq!(status_of(&fault("129")), Ok(Status::general(0x81)));
    assert_eq!(
        status_of(&fault("FAILURE/2")),
        Ok(Status {
            general: 1,
            cluster: Some(2)
        })
    );
    assert_eq!(
        status_of(&fault("FAILURE/0x100")).map_err(|e| e.to_string()),
        Err("\"0x100\" is not a cluster status".to_string())
    );
    assert_eq!(
        status_of(&fault("0x1FF")).map_err(|e| e.to_string()),
        Err("\"0x1FF\" is not a Matter status".to_string())
    );
    assert_eq!(
        status_of(&fault("TEA\"POT/1")).map_err(|e| e.to_string()),
        Err("\"TEA\\\"POT\" is not a Matter status".to_string())
    );
}

#[test]
fn an_invocation_that_names_no_path_is_refused_with_the_reason() {
    let refused = |i: Invocation<u64>| Matter.request(&i).expect_err("refused").to_string();
    assert_eq!(
        refused(invocation("OnOff", "Toggle", vec![])),
        "the invocation names no endpoint"
    );
    assert_eq!(
        refused(invocation("OnOff", "Toggle", vec![Header::new("endpoint", "x")])),
        "endpoint \"x\" is not a number"
    );
    assert_eq!(
        refused(invocation("Kettle", "Boil", vec![Header::new("endpoint", "1")])),
        "\"Kettle\" is not a cluster this node knows"
    );
    assert_eq!(
        refused(invocation("OnOff", "Boil", vec![Header::new("endpoint", "1")])),
        "\"Boil\" is not a command of cluster OnOff"
    );
    let mut fielded = invocation("OnOff", "Toggle", vec![Header::new("endpoint", "1")]);
    fielded.arguments = tlv(encode(&Element::new(Tag::Anonymous, Value::Unsigned(3))));
    assert_eq!(refused(fielded), "the fields are not a TLV structure");
    let mut broken = invocation("OnOff", "Toggle", vec![Header::new("endpoint", "1")]);
    broken.arguments = tlv(vec![0x15]);
    assert_eq!(
        refused(broken),
        "the fields are not TLV: the container opened here is never closed at offset 0"
    );
}

#[test]
fn a_request_carries_the_invocations_flags_and_reference() {
    let send = invocation(
        "LevelControl",
        "0x04",
        vec![
            Header::new("endpoint", "0x1"),
            Header::new("endpoint", "7"),
            Header::new("command-ref", "9"),
            Header::new("timed-request", "true"),
            Header::new("suppress-response", "yes"),
        ],
    );
    let refused = Matter.request(&send).expect_err("hex endpoint");
    assert_eq!(refused.to_string(), "endpoint \"0x1\" is not a number");
    let send = invocation(
        "LevelControl",
        "0x04",
        vec![
            Header::new("endpoint", "7"),
            Header::new("command-ref", "9"),
            Header::new("timed-request", "true"),
            Header::new("suppress-response", "yes"),
        ],
    );
    let request = Matter.request(&send).expect("request");
    assert_eq!(request.target, "7/LevelControl/MoveToLevelWithOnOff");
    assert_eq!(request.body.media_type(), Some(MEDIA_TYPE));
    let decoded = InvokeRequest::decode(request.body.bytes()).expect("decode");
    assert!(decoded.timed_request);
    assert!(!decoded.suppress_response);
    assert_eq!(decoded.commands[0].command_ref, Some(9));
    let arrived = arrive(request.body.bytes().to_vec()).expect("arrives");
    assert_eq!(
        arrived.operation,
        OperationName::new("LevelControl", "MoveToLevelWithOnOff")
    );
    assert_eq!(
        arrived.parameters,
        vec![
            Header::new("endpoint", "7"),
            Header::new("command-ref", "9"),
            Header::new("timed-request", "true"),
        ]
    );
}

#[test]
fn a_reply_keeps_the_command_reference_and_an_outcome_reads_it_back() {
    let mut request = InvokeRequest::of(CommandData {
        path: CommandPath {
            endpoint: 3,
            cluster: 0xFC01,
            command: 0x11,
        },
        fields: None,
        command_ref: Some(5),
    });
    request.suppress_response = true;
    let arrived = arrive(request.encode()).expect("arrives");
    assert_eq!(
        arrived.parameters,
        vec![
            Header::new("endpoint", "3"),
            Header::new("command-ref", "5"),
            Header::new("suppress-response", "true"),
        ]
    );
    let reply = Matter
        .reply(&arrived, &Outcome::Fault(fault("0x81")))
        .expect("reply");
    assert_eq!(reply.body.media_type(), Some(MEDIA_TYPE));
    let response = InvokeResponse::decode(reply.body.bytes()).expect("decode");
    assert_eq!(
        response.answers,
        vec![Answer::Status {
            path: CommandPath {
                endpoint: 3,
                cluster: 0xFC01,
                command: 0x11,
            },
            status: Status::general(0x81),
            command_ref: Some(5),
        }]
    );
    match Matter.outcome(&arrived, &reply).expect("outcome") {
        Outcome::Fault(f) => {
            assert_eq!(f.code, "UNSUPPORTED_COMMAND");
            assert_eq!(f.message, "Matter status UNSUPPORTED_COMMAND");
        }
        Outcome::Result(_) => panic!("expected a fault"),
    }
    let success = Matter
        .reply(&arrived, &Outcome::Fault(fault("SUCCESS")))
        .expect("reply");
    assert!(matches!(
        Matter.outcome(&arrived, &success).expect("outcome"),
        Outcome::Result(r) if r.is_empty()
    ));
}

#[test]
fn what_is_not_one_answered_command_is_refused_with_the_reason() {
    let mut two = InvokeRequest::of(CommandData {
        path: CommandPath {
            endpoint: 1,
            cluster: 6,
            command: 1,
        },
        fields: None,
        command_ref: None,
    });
    two.commands.push(two.commands[0].clone());
    assert_eq!(
        arrive(two.encode()),
        Err("the invoke request names 2 commands; one invocation is one command".to_string())
    );
    let none = InvokeRequest {
        suppress_response: false,
        timed_request: false,
        commands: vec![],
        revision: 11,
    };
    assert_eq!(
        arrive(none.encode()),
        Err("the invoke request names 0 commands; one invocation is one command".to_string())
    );
    assert_eq!(
        arrive(vec![]),
        Err("not an invoke request: not TLV: a field of 1 bytes runs past the end, 0 remain at offset 0".to_string())
    );
    let silent = InvokeResponse {
        suppress_response: false,
        answers: vec![],
        revision: 11,
    };
    let anyone = invocation("OnOff", "On", vec![Header::new("endpoint", "1")]);
    let reply = Reply {
        headers: Vec::new(),
        body: tlv(silent.encode()),
    };
    assert_eq!(
        Matter.outcome(&anyone, &reply).expect_err("silent").to_string(),
        "the invoke response answers nothing"
    );
    let garbage = Reply {
        headers: Vec::new(),
        body: tlv(vec![0x04, 0x01]),
    };
    assert_eq!(
        Matter.outcome(&anyone, &garbage).expect_err("garbage").to_string(),
        "not an invoke response: the invoke response has no InvokeResponses"
    );
}
