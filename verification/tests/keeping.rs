use matter::invoke::{Answer, CommandData, CommandPath, InvokeRequest, InvokeResponse, Status};
use matter::naming::{cluster_name, command_name};
use matter::tlv::{decode, encode, write_container, Element, Tag, TlvError, Value};
use matter::{
    cluster_id, command_id, Arrival, Fault, Header, Invocation, Matter, OperationName, Outcome,
    Reply, Stream, MEDIA_TYPE,
};

fn tlv(id: u64, bytes: Vec<u8>) -> Stream<u64> {
    Stream::new(id, bytes, Some(MEDIA_TYPE.to_string()))
}

fn on_off(id: u64) -> Invocation<u64> {
    Invocation {
        operation: OperationName::new("OnOff", "On"),
        arguments: tlv(id, Vec::new()),
        parameters: vec![Header::new("endpoint", "1")],
    }
}

fn level() -> Element {
    Element::new(
        Tag::Anonymous,
        Value::Structure(vec![Element::context(0, Value::Unsigned(128))]),
    )
}

#[test]
fn the_arguments_keep_the_id_of_the_body_they_came_in() {
    let request = InvokeRequest::of(CommandData {
        path: CommandPath {
            endpoint: 1,
            cluster: 0x0006,
            command: 0x01,
        },
        fields: Some(level()),
        command_ref: None,
    });
    let body = tlv(7, request.encode());
    let arrival = Arrival {
        target: "",
        method: "",
        headers: &[],
        body: &body,
    };
    let invocation = Matter.invocation(&arrival).expect("invocation");
    assert_eq!(invocation.arguments.id(), 7);
}

#[test]
fn what_goes_out_for_an_invocation_carries_the_id_of_its_arguments() {
    let invocation = on_off(9);
    let reply = Matter
        .reply(&invocation, &Outcome::Result(tlv(3, Vec::new())))
        .expect("reply");
    assert_eq!(reply.body.id(), 9);
    let faulted = Matter
        .reply(
            &invocation,
            &Outcome::Fault(Fault {
                message: String::new(),
                code: "BUSY".to_string(),
            }),
        )
        .expect("reply");
    assert_eq!(faulted.body.id(), 9);
    let request = Matter.request(&invocation).expect("request");
    assert_eq!(request.body.id(), 9);
}

#[test]
fn a_result_read_from_a_reply_carries_the_id_of_the_arguments() {
    let invocation = on_off(9);
    let answered = Reply {
        headers: Vec::new(),
        body: tlv(
            4,
            InvokeResponse::of(Answer::Command(CommandData {
                path: CommandPath {
                    endpoint: 1,
                    cluster: 0x0006,
                    command: 0x01,
                },
                fields: Some(level()),
                command_ref: None,
            }))
            .encode(),
        ),
    };
    match Matter.outcome(&invocation, &answered).expect("outcome") {
        Outcome::Result(result) => {
            assert_eq!(result.id(), 9);
            assert_eq!(result.bytes(), encode(&level()));
        }
        Outcome::Fault(fault) => panic!("unexpected {fault:?}"),
    }
}

#[test]
fn a_cluster_name_reads_back_as_its_cluster() {
    for id in [0x0003u32, 0x0006, 0x0008, 0x0101, 0x0102, 0x0005, 0xFC01, 0x1_0000, u32::MAX] {
        assert_eq!(cluster_id(&cluster_name(id)), Ok(id));
    }
    assert_eq!(cluster_id("OnOff"), Ok(0x0006));
    assert_eq!(cluster_id("31"), Ok(31));
    assert_eq!(
        cluster_id("Lamp").expect_err("unknown").to_string(),
        "\"Lamp\" is not a cluster this node knows"
    );
}

#[test]
fn a_command_name_reads_back_as_its_command() {
    for (cluster, id) in [(0x0006u32, 0x42u32), (0x0006, 0x99), (0x0008, 0x00), (0xFC01, 0x05)] {
        assert_eq!(command_id(cluster, &command_name(cluster, id)), Ok(id));
    }
    assert_eq!(
        command_id(0x0006, "Dim").expect_err("unknown").to_string(),
        "\"Dim\" is not a command of cluster OnOff"
    );
}

#[test]
fn writing_an_element_appends_its_bytes() {
    let mut out = vec![0xAA, 0xBB];
    matter::tlv::write(&level(), &mut out);
    let mut expected = vec![0xAA, 0xBB];
    expected.extend(encode(&level()));
    assert_eq!(out, expected);
    assert_eq!(encode(&level()), vec![0x15, 0x24, 0x00, 0x80, 0x18]);
}

#[test]
fn writing_a_container_appends_its_members_and_its_end() {
    let members = vec![
        Element::context(0, Value::Unsigned(1)),
        Element::context(1, Value::Bool(true)),
    ];
    let mut out = vec![0x01];
    assert_eq!(write_container(&members, &mut out, 0x16), 0x16);
    assert_eq!(out, vec![0x01, 0x24, 0x00, 0x01, 0x29, 0x01, 0x18]);
    let mut empty = Vec::new();
    assert_eq!(write_container(&Vec::new(), &mut empty, 0x15), 0x15);
    assert_eq!(empty, vec![0x18]);
}

#[test]
fn bytes_after_a_whole_element_are_refused_where_it_ends() {
    let whole = encode(&level());
    for rest in [vec![0x00], vec![0x18, 0x18], encode(&level())] {
        let bytes = [whole.clone(), rest].concat();
        assert_eq!(
            decode(&bytes),
            Err(TlvError {
                offset: whole.len(),
                reason: "bytes continue past the element".to_string(),
            })
        );
    }
}

#[test]
fn a_refusal_points_inside_the_bytes() {
    let cases: Vec<Vec<u8>> = vec![
        vec![],
        vec![0x18],
        vec![0x15],
        vec![0x15, 0x24],
        vec![0x25, 0x00],
        vec![0x0C, 0x05, 0x61],
        vec![0x1F],
        vec![0x0C, 0x01, 0xFF],
        vec![0x24, 0x00, 0x01, 0x02],
    ];
    for bytes in cases {
        let error = decode(&bytes).expect_err("refused");
        assert!(error.offset <= bytes.len(), "{error:?} for {bytes:?}");
    }
}

#[test]
fn a_cloned_message_is_the_same_message() {
    let command = CommandData {
        path: CommandPath {
            endpoint: 1,
            cluster: 0x0008,
            command: 0x00,
        },
        fields: Some(level()),
        command_ref: Some(2),
    };
    let request = InvokeRequest::of(command.clone());
    assert_eq!(request.clone(), request);
    let answer = Answer::Status {
        path: command.path,
        status: Status::general(Status::SUCCESS),
        command_ref: None,
    };
    assert_eq!(answer.clone(), answer);
    let response = InvokeResponse {
        suppress_response: false,
        answers: vec![Answer::Command(command), answer],
        revision: 11,
    };
    assert_eq!(response.clone(), response);
}
