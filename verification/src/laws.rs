//! What the technology keeps across its decisions: a reply goes back on the
//! path the request came on, a status survives being a fault, and what one
//! side writes the other reads back.

use vstd::prelude::*;
use vstd::string::*;
use crate::text::{hex, decimal};
use crate::tlv::{ElementView, Tag};
use crate::tlv::layout::encoding;
use crate::invoke::{CommandPath, Status};
use crate::invoke::messages::{
    AnswerView,
    CommandDataView,
    RequestView,
    ResponseView,
    response_message,
    request_message,
};
use crate::invoke::laws::{
    decoded_request_is_the_encoded_one,
    decoded_response_is_the_encoded_one,
    carries_fields,
};
use crate::naming::{
    cluster_text,
    command_text,
    status_text,
    lemma_parse_decimal,
    lemma_cluster_text_reads_back,
    lemma_command_text_reads_back,
    lemma_status_text_reads_back,
    lemma_hex_digits,
    lemma_id_of_hex,
};
use crate::{
    InvocationView,
    cluster_id_of,
    command_id_of,
    OutcomeView,
    first_parameter,
    path_of_invocation,
    command_ref_of,
    parameters_of_command,
    arriving_invocation,
    invocation_of_request,
    fault_code,
    status_of_code,
    lemma_first_slash,
    answer_of_outcome,
    response_of,
    outcome_of_response,
    fields_from_bytes,
    request_of_invocation,
};

verus! {

/// A parameter is read as the value of its first occurrence: where the
/// parameter at `k` has the name and none before it has, that is the value.
pub proof fn a_parameter_is_its_first_occurrence(parameters: Seq<(Seq<char>, Seq<char>)>, name: Seq<char>, k: int)
    requires
        0 <= k < parameters.len(),
        parameters[k].0 == name,
        forall|i: int| 0 <= i < k ==> parameters[i].0 != name,
    ensures
        first_parameter(parameters, name) == Some(parameters[k].1),
    decreases k,
{
    if k > 0 {
        a_parameter_is_its_first_occurrence(parameters.drop_first(), name, k - 1);
    }
}

/// A parameter no entry names is absent.
pub proof fn a_parameter_no_entry_names_is_absent(parameters: Seq<(Seq<char>, Seq<char>)>, name: Seq<char>)
    requires
        forall|i: int| 0 <= i < parameters.len() ==> parameters[i].0 != name,
    ensures
        first_parameter(parameters, name) is None,
    decreases parameters.len(),
{
    if parameters.len() > 0 {
        a_parameter_no_entry_names_is_absent(parameters.drop_first(), name);
    }
}

/// The request an invocation goes out as asks for no response exactly when
/// the invocation's first `suppress-response` parameter is `true`, and is a
/// timed request exactly when its first `timed-request` parameter is `true`;
/// it carries one command, on the path the invocation names, with the
/// reference the invocation carries, at this revision.
pub proof fn a_request_carries_the_invocations_flags(invocation: InvocationView)
    requires
        request_of_invocation(invocation) is Ok,
    ensures
        request_of_invocation(invocation)->Ok_0.suppress_response == (first_parameter(
            invocation.parameters,
            "suppress-response"@,
        ) == Some("true"@)),
        request_of_invocation(invocation)->Ok_0.timed_request == (first_parameter(
            invocation.parameters,
            "timed-request"@,
        ) == Some("true"@)),
        request_of_invocation(invocation)->Ok_0.commands.len() == 1,
        path_of_invocation(invocation) == Ok::<CommandPath, Seq<char>>(
            request_of_invocation(invocation)->Ok_0.commands[0].path,
        ),
        request_of_invocation(invocation)->Ok_0.commands[0].command_ref == command_ref_of(invocation),
        request_of_invocation(invocation)->Ok_0.revision == 11,
{
}

/// An invocation whose service is a cluster's text, whose name is the text of
/// a command of that cluster and whose first `endpoint` parameter is a number
/// in decimal names that command path. Its first `command-ref` parameter,
/// where it is a number in decimal, is its reference; where there is none, it
/// has none.
pub proof fn an_invocation_names_the_path_its_texts_name(
    invocation: InvocationView,
    endpoint: u16,
    cluster: u32,
    command: u32,
)
    requires
        invocation.service == cluster_text(cluster),
        invocation.name == command_text(cluster, command),
        first_parameter(invocation.parameters, "endpoint"@) == Some(decimal(endpoint as nat)),
    ensures
        path_of_invocation(invocation) == Ok::<CommandPath, Seq<char>>(
            CommandPath { endpoint, cluster, command },
        ),
        forall|r: u16|
            first_parameter(invocation.parameters, "command-ref"@) == Some(decimal(r as nat))
                ==> #[trigger] command_ref_of(invocation) == Some(r),
        first_parameter(invocation.parameters, "command-ref"@) is None ==> command_ref_of(invocation) is None,
{
    lemma_parse_decimal(endpoint as nat, 0xFFFF);
    cluster_name_reads_back(cluster);
    command_name_reads_back(cluster, command);
    assert forall|r: u16|
        first_parameter(invocation.parameters, "command-ref"@) == Some(decimal(r as nat))
            implies #[trigger] command_ref_of(invocation) == Some(r) by {
        lemma_parse_decimal(r as nat, 0xFFFF);
    }
}

/// The invocation a one-command request arrives as carries the command's
/// endpoint in decimal, its reference where it has one, and
/// `suppress-response` and `timed-request` as `true` exactly where the
/// request sets them; it names no such flag the request does not set.
pub proof fn an_arriving_invocation_carries_the_requests_flags(request: RequestView)
    requires
        request.commands.len() == 1,
    ensures
        first_parameter(arriving_invocation(request).parameters, "endpoint"@) == Some(
            decimal(request.commands[0].path.endpoint as nat),
        ),
        first_parameter(arriving_invocation(request).parameters, "command-ref"@) == match request.commands[0].command_ref {
            Some(r) => Some(decimal(r as nat)),
            None => None::<Seq<char>>,
        },
        first_parameter(arriving_invocation(request).parameters, "suppress-response"@) == if request.suppress_response {
            Some("true"@)
        } else {
            None::<Seq<char>>
        },
        first_parameter(arriving_invocation(request).parameters, "timed-request"@) == if request.timed_request {
            Some("true"@)
        } else {
            None::<Seq<char>>
        },
{
    let command = request.commands[0];
    let ps = arriving_invocation(request).parameters;
    reveal_strlit("endpoint");
    reveal_strlit("command-ref");
    reveal_strlit("timed-request");
    reveal_strlit("suppress-response");
    assert("endpoint"@.len() == 8);
    assert("command-ref"@.len() == 11);
    assert("timed-request"@.len() == 13);
    assert("suppress-response"@.len() == 17);
    assert(ps[0].0 == "endpoint"@);
    a_parameter_is_its_first_occurrence(ps, "endpoint"@, 0);
    let r_at: int = if command.command_ref is Some { 1 } else { 0 };
    let t_at: int = r_at + 1;
    let s_at: int = if request.timed_request { t_at + 1 } else { t_at };
    assert(ps.len() == s_at + if request.suppress_response { 1int } else { 0 });
    match command.command_ref {
        Some(r) => {
            assert(ps[1].0 == "command-ref"@);
            a_parameter_is_its_first_occurrence(ps, "command-ref"@, 1);
        },
        None => {
            a_parameter_no_entry_names_is_absent(ps, "command-ref"@);
        },
    }
    if request.timed_request {
        assert(ps[t_at] == ("timed-request"@, "true"@));
        a_parameter_is_its_first_occurrence(ps, "timed-request"@, t_at);
    } else {
        a_parameter_no_entry_names_is_absent(ps, "timed-request"@);
    }
    if request.suppress_response {
        assert(ps[s_at] == ("suppress-response"@, "true"@));
        a_parameter_is_its_first_occurrence(ps, "suppress-response"@, s_at);
    } else {
        a_parameter_no_entry_names_is_absent(ps, "suppress-response"@);
    }
}

/// The invocation a one-command request arrives as names that command's
/// path again, and carries its reference: the reply goes back on the path
/// the request came on.
pub proof fn reply_path_is_the_request_path(request: RequestView)
    requires
        request.commands.len() == 1,
    ensures
        path_of_invocation(arriving_invocation(request)) == Ok::<CommandPath, Seq<char>>(
            request.commands[0].path,
        ),
        command_ref_of(arriving_invocation(request)) == request.commands[0].command_ref,
{
    let command = request.commands[0];
    let invocation = arriving_invocation(request);
    let parameters = parameters_of_command(command, request);
    reveal_strlit("endpoint");
    reveal_strlit("command-ref");
    reveal_strlit("timed-request");
    reveal_strlit("suppress-response");
    assert("endpoint"@.len() == 8);
    assert("command-ref"@.len() == 11);
    assert("timed-request"@.len() == 13);
    assert("suppress-response"@.len() == 17);
    a_parameter_is_its_first_occurrence(parameters, "endpoint"@, 0);
    lemma_parse_decimal(command.path.endpoint as nat, 0xFFFF);
    lemma_cluster_text_reads_back(command.path.cluster);
    lemma_command_text_reads_back(command.path.cluster, command.path.command);
    match command.command_ref {
        Some(r) => {
            a_parameter_is_its_first_occurrence(parameters, "command-ref"@, 1);
            lemma_parse_decimal(r as nat, 0xFFFF);
        },
        None => {
            a_parameter_no_entry_names_is_absent(parameters, "command-ref"@);
        },
    }
}

/// A cluster's name, or its hex id where it has none, reads back as the
/// cluster.
pub proof fn cluster_name_reads_back(id: u32)
    ensures
        cluster_id_of(cluster_text(id)) == Ok::<u32, Seq<char>>(id),
{
    lemma_cluster_text_reads_back(id);
}

/// A command's name, or its hex id where it has none, reads back as the
/// command of its cluster.
pub proof fn command_name_reads_back(cluster: u32, id: u32)
    ensures
        command_id_of(cluster, command_text(cluster, id)) == Ok::<u32, Seq<char>>(id),
{
    lemma_command_text_reads_back(cluster, id);
}

proof fn lemma_no_slash_in_status_text(code: u8)
    ensures
        forall|j: int| 0 <= j < status_text(code).len() ==> status_text(code)[j] != '/',
{
    reveal_strlit("0x");
    lemma_hex_digits(code as nat, 2);
    reveal_strlit("SUCCESS");
    assert(forall|j: int| 0 <= j < "SUCCESS"@.len() ==> "SUCCESS"@[j] != '/');
    reveal_strlit("FAILURE");
    assert(forall|j: int| 0 <= j < "FAILURE"@.len() ==> "FAILURE"@[j] != '/');
    reveal_strlit("INVALID_SUBSCRIPTION");
    assert(forall|j: int| 0 <= j < "INVALID_SUBSCRIPTION"@.len() ==> "INVALID_SUBSCRIPTION"@[j] != '/');
    reveal_strlit("UNSUPPORTED_ACCESS");
    assert(forall|j: int| 0 <= j < "UNSUPPORTED_ACCESS"@.len() ==> "UNSUPPORTED_ACCESS"@[j] != '/');
    reveal_strlit("UNSUPPORTED_ENDPOINT");
    assert(forall|j: int| 0 <= j < "UNSUPPORTED_ENDPOINT"@.len() ==> "UNSUPPORTED_ENDPOINT"@[j] != '/');
    reveal_strlit("INVALID_ACTION");
    assert(forall|j: int| 0 <= j < "INVALID_ACTION"@.len() ==> "INVALID_ACTION"@[j] != '/');
    reveal_strlit("UNSUPPORTED_COMMAND");
    assert(forall|j: int| 0 <= j < "UNSUPPORTED_COMMAND"@.len() ==> "UNSUPPORTED_COMMAND"@[j] != '/');
    reveal_strlit("INVALID_COMMAND");
    assert(forall|j: int| 0 <= j < "INVALID_COMMAND"@.len() ==> "INVALID_COMMAND"@[j] != '/');
    reveal_strlit("UNSUPPORTED_ATTRIBUTE");
    assert(forall|j: int| 0 <= j < "UNSUPPORTED_ATTRIBUTE"@.len() ==> "UNSUPPORTED_ATTRIBUTE"@[j] != '/');
    reveal_strlit("CONSTRAINT_ERROR");
    assert(forall|j: int| 0 <= j < "CONSTRAINT_ERROR"@.len() ==> "CONSTRAINT_ERROR"@[j] != '/');
    reveal_strlit("UNSUPPORTED_WRITE");
    assert(forall|j: int| 0 <= j < "UNSUPPORTED_WRITE"@.len() ==> "UNSUPPORTED_WRITE"@[j] != '/');
    reveal_strlit("RESOURCE_EXHAUSTED");
    assert(forall|j: int| 0 <= j < "RESOURCE_EXHAUSTED"@.len() ==> "RESOURCE_EXHAUSTED"@[j] != '/');
    reveal_strlit("NOT_FOUND");
    assert(forall|j: int| 0 <= j < "NOT_FOUND"@.len() ==> "NOT_FOUND"@[j] != '/');
    reveal_strlit("UNREPORTABLE_ATTRIBUTE");
    assert(forall|j: int| 0 <= j < "UNREPORTABLE_ATTRIBUTE"@.len() ==> "UNREPORTABLE_ATTRIBUTE"@[j] != '/');
    reveal_strlit("INVALID_DATA_TYPE");
    assert(forall|j: int| 0 <= j < "INVALID_DATA_TYPE"@.len() ==> "INVALID_DATA_TYPE"@[j] != '/');
    reveal_strlit("UNSUPPORTED_READ");
    assert(forall|j: int| 0 <= j < "UNSUPPORTED_READ"@.len() ==> "UNSUPPORTED_READ"@[j] != '/');
    reveal_strlit("DATA_VERSION_MISMATCH");
    assert(forall|j: int| 0 <= j < "DATA_VERSION_MISMATCH"@.len() ==> "DATA_VERSION_MISMATCH"@[j] != '/');
    reveal_strlit("TIMEOUT");
    assert(forall|j: int| 0 <= j < "TIMEOUT"@.len() ==> "TIMEOUT"@[j] != '/');
    reveal_strlit("BUSY");
    assert(forall|j: int| 0 <= j < "BUSY"@.len() ==> "BUSY"@[j] != '/');
    reveal_strlit("UNSUPPORTED_CLUSTER");
    assert(forall|j: int| 0 <= j < "UNSUPPORTED_CLUSTER"@.len() ==> "UNSUPPORTED_CLUSTER"@[j] != '/');
    reveal_strlit("NO_UPSTREAM_SUBSCRIPTION");
    assert(forall|j: int| 0 <= j < "NO_UPSTREAM_SUBSCRIPTION"@.len() ==> "NO_UPSTREAM_SUBSCRIPTION"@[j] != '/');
    reveal_strlit("NEEDS_TIMED_INTERACTION");
    assert(forall|j: int| 0 <= j < "NEEDS_TIMED_INTERACTION"@.len() ==> "NEEDS_TIMED_INTERACTION"@[j] != '/');
    reveal_strlit("UNSUPPORTED_EVENT");
    assert(forall|j: int| 0 <= j < "UNSUPPORTED_EVENT"@.len() ==> "UNSUPPORTED_EVENT"@[j] != '/');
    reveal_strlit("PATHS_EXHAUSTED");
    assert(forall|j: int| 0 <= j < "PATHS_EXHAUSTED"@.len() ==> "PATHS_EXHAUSTED"@[j] != '/');
    reveal_strlit("TIMED_REQUEST_MISMATCH");
    assert(forall|j: int| 0 <= j < "TIMED_REQUEST_MISMATCH"@.len() ==> "TIMED_REQUEST_MISMATCH"@[j] != '/');
    reveal_strlit("FAILSAFE_REQUIRED");
    assert(forall|j: int| 0 <= j < "FAILSAFE_REQUIRED"@.len() ==> "FAILSAFE_REQUIRED"@[j] != '/');
    reveal_strlit("INVALID_IN_STATE");
    assert(forall|j: int| 0 <= j < "INVALID_IN_STATE"@.len() ==> "INVALID_IN_STATE"@[j] != '/');
    reveal_strlit("NO_COMMAND_RESPONSE");
    assert(forall|j: int| 0 <= j < "NO_COMMAND_RESPONSE"@.len() ==> "NO_COMMAND_RESPONSE"@[j] != '/');
    let h = hex(code as nat, 2);
    assert(forall|j: int| 0 <= j < ("0x"@ + h).len() ==> ("0x"@ + h)[j] != '/');
}

/// The fault a status becomes reads back as that status.
pub proof fn status_survives_its_fault(status: Status)
    ensures
        status_of_code(fault_code(status)) == Ok::<Status, Seq<char>>(status),
{
    let general = status_text(status.general);
    let code = fault_code(status);
    lemma_status_text_reads_back(status.general);
    lemma_no_slash_in_status_text(status.general);
    lemma_hex_digits(status.general as nat, 2);
    reveal_strlit("0x");
    reveal_strlit("/0x");
    match status.cluster {
        None => {
            assert(code =~= general);
            lemma_first_slash(code, code.len() as int);
        },
        Some(c) => {
            let tail = "/0x"@ + hex(c as nat, 2);
            assert(code =~= general + tail);
            assert(code[general.len() as int] == '/');
            lemma_first_slash(code, general.len() as int);
            assert(code.take(general.len() as int) =~= general);
            assert(code.skip(general.len() as int + 1) =~= "0x"@ + hex(c as nat, 2));
            lemma_id_of_hex(c as u32, 2);
        },
    }
}

/// Bytes that are the encoding of an untagged structure, or no bytes.
pub open spec fn canonical_fields(bytes: Seq<u8>) -> bool {
    bytes.len() == 0 || exists|e: ElementView|
        #![trigger encoding(e)]
        e.tag == Tag::Anonymous && e.value is Structure && encoding(e) == bytes
}

/// What an outcome reads back as once replied: a result as the same bytes,
/// a fault as the status its code names, where that status is not success.
pub open spec fn outcome_read_back(outcome: OutcomeView) -> OutcomeView {
    match outcome {
        OutcomeView::Result(bytes) => OutcomeView::Result(bytes),
        OutcomeView::Fault { code, .. } => match status_of_code(code) {
            Ok(status) => if status.general == 0 {
                OutcomeView::Result(seq![])
            } else {
                OutcomeView::Fault { message: "Matter status "@ + fault_code(status), code: fault_code(status) }
            },
            Err(_) => outcome,
        },
    }
}

proof fn lemma_canonical_fields(bytes: Seq<u8>)
    requires
        canonical_fields(bytes),
        bytes.len() > 0,
        bytes.len() <= usize::MAX,
    ensures
        fields_from_bytes(bytes) matches Ok(Some(e)) && e.tag == Tag::Anonymous && e.value is Structure
            && encoding(e) == bytes,
{
    let e = choose|e: ElementView|
        #![trigger encoding(e)]
        e.tag == Tag::Anonymous && e.value is Structure && encoding(e) == bytes;
    crate::tlv::proofs::decoding_reads_back_the_encoding(e);
}

/// What `Matter::reply` writes, `Matter::outcome` reads back: a result as
/// its bytes, where they are an encoded untagged structure or none; a fault
/// as the status its code names (by `status_survives_its_fault`, the same
/// code wherever the code is one a status becomes), or as an empty result
/// where that status is success. The bytes must fit this machine's memory.
pub proof fn outcome_reads_back_the_reply(invocation: InvocationView, outcome: OutcomeView)
    requires
        answer_of_outcome(invocation, outcome) is Ok,
        encoding(response_message(response_of(answer_of_outcome(invocation, outcome)->Ok_0))).len()
            <= usize::MAX,
        outcome matches OutcomeView::Result(bytes) ==> canonical_fields(bytes) && bytes.len() <= usize::MAX,
    ensures
        outcome_of_response(
            encoding(response_message(response_of(answer_of_outcome(invocation, outcome)->Ok_0))),
        ) == Ok::<OutcomeView, Seq<char>>(outcome_read_back(outcome)),
{
    let answer = answer_of_outcome(invocation, outcome)->Ok_0;
    let response = response_of(answer);
    match outcome {
        OutcomeView::Result(bytes) => {
            if bytes.len() > 0 {
                lemma_canonical_fields(bytes);
            } else {
                assert(bytes =~= Seq::<u8>::empty());
            }
        },
        OutcomeView::Fault { .. } => {},
    }
    assert(response_well_formed_answer(answer));
    assert(crate::invoke::laws::response_well_formed(response));
    decoded_response_is_the_encoded_one(response);
}

/// An outcome goes back on the invocation's path with its reference: a
/// result with no bytes as a success status, a result that is the encoding
/// of an untagged structure as a command carrying that structure, a fault
/// whose code a status becomes as that status, whatever its message.
pub proof fn an_outcome_is_answered_on_the_invocations_path(
    invocation: InvocationView,
    fields: ElementView,
    status: Status,
)
    requires
        path_of_invocation(invocation) is Ok,
        fields.tag == Tag::Anonymous,
        fields.value is Structure,
        encoding(fields).len() <= usize::MAX,
    ensures
        answer_of_outcome(invocation, OutcomeView::Result(seq![])) == Ok::<AnswerView, Seq<char>>(
            AnswerView::Status {
                path: path_of_invocation(invocation)->Ok_0,
                status: Status { general: 0, cluster: None },
                command_ref: command_ref_of(invocation),
            },
        ),
        answer_of_outcome(invocation, OutcomeView::Result(encoding(fields))) == Ok::<AnswerView, Seq<char>>(
            AnswerView::Command(
                CommandDataView {
                    path: path_of_invocation(invocation)->Ok_0,
                    fields: Some(fields),
                    command_ref: command_ref_of(invocation),
                },
            ),
        ),
        forall|message: Seq<char>|
            #[trigger] answer_of_outcome(invocation, OutcomeView::Fault { message, code: fault_code(status) })
                == Ok::<AnswerView, Seq<char>>(
                AnswerView::Status {
                    path: path_of_invocation(invocation)->Ok_0,
                    status,
                    command_ref: command_ref_of(invocation),
                },
            ),
{
    crate::tlv::proofs::decoding_reads_back_the_encoding(fields);
    crate::tlv::proofs::lemma_encoding_len(fields);
    status_survives_its_fault(status);
}

/// A response whose first answer is a status comes to an empty result where
/// the status is success (general status 0), and otherwise to a fault whose
/// code is the status's and whose message names it; a response whose first
/// answer is a command comes to the bytes of its fields.
pub proof fn a_response_comes_to_its_first_answer(
    path: CommandPath,
    status: Status,
    fields: Option<ElementView>,
    command_ref: Option<u16>,
    suppress: bool,
    revision: u8,
)
    requires
        fields matches Some(f) ==> f.tag == Tag::Anonymous && f.value is Structure,
        encoding(
            response_message(
                ResponseView {
                    suppress_response: suppress,
                    answers: seq![AnswerView::Status { path, status, command_ref }],
                    revision,
                },
            ),
        ).len() <= usize::MAX,
        encoding(
            response_message(
                ResponseView {
                    suppress_response: suppress,
                    answers: seq![AnswerView::Command(CommandDataView { path, fields, command_ref })],
                    revision,
                },
            ),
        ).len() <= usize::MAX,
    ensures
        outcome_of_response(
            encoding(
                response_message(
                    ResponseView {
                        suppress_response: suppress,
                        answers: seq![AnswerView::Status { path, status, command_ref }],
                        revision,
                    },
                ),
            ),
        ) == Ok::<OutcomeView, Seq<char>>(
            if status.general == 0 {
                OutcomeView::Result(seq![])
            } else {
                OutcomeView::Fault { message: "Matter status "@ + fault_code(status), code: fault_code(status) }
            },
        ),
        outcome_of_response(
            encoding(
                response_message(
                    ResponseView {
                        suppress_response: suppress,
                        answers: seq![AnswerView::Command(CommandDataView { path, fields, command_ref })],
                        revision,
                    },
                ),
            ),
        ) == Ok::<OutcomeView, Seq<char>>(
            OutcomeView::Result(
                match fields {
                    Some(f) => encoding(f),
                    None => seq![],
                },
            ),
        ),
{
    let by_status = ResponseView {
        suppress_response: suppress,
        answers: seq![AnswerView::Status { path, status, command_ref }],
        revision,
    };
    let by_command = ResponseView {
        suppress_response: suppress,
        answers: seq![AnswerView::Command(CommandDataView { path, fields, command_ref })],
        revision,
    };
    assert(response_well_formed_answer(by_status.answers[0]));
    assert(crate::invoke::laws::response_well_formed(by_status));
    decoded_response_is_the_encoded_one(by_status);
    assert(response_well_formed_answer(by_command.answers[0]));
    assert(crate::invoke::laws::response_well_formed(by_command));
    decoded_response_is_the_encoded_one(by_command);
}

pub open spec fn response_well_formed_answer(answer: AnswerView) -> bool {
    match answer {
        AnswerView::Command(c) => carries_fields(c),
        AnswerView::Status { .. } => true,
    }
}

/// What `Matter::request` writes arrives, through `Matter::invocation`, as an
/// invocation on the same command path, with the same arguments where they
/// are an encoded untagged structure or none. The bytes must fit this
/// machine's memory.
pub proof fn the_request_arrives_as_its_invocation(invocation: InvocationView)
    requires
        request_of_invocation(invocation) is Ok,
        canonical_fields(invocation.arguments),
        invocation.arguments.len() <= usize::MAX,
        encoding(request_message(request_of_invocation(invocation)->Ok_0)).len() <= usize::MAX,
    ensures
        invocation_of_request(encoding(request_message(request_of_invocation(invocation)->Ok_0)))
            == Ok::<InvocationView, Seq<char>>(arriving_invocation(request_of_invocation(invocation)->Ok_0)),
        path_of_invocation(arriving_invocation(request_of_invocation(invocation)->Ok_0))
            == path_of_invocation(invocation),
        arriving_invocation(request_of_invocation(invocation)->Ok_0).arguments == invocation.arguments,
{
    let request = request_of_invocation(invocation)->Ok_0;
    if invocation.arguments.len() > 0 {
        lemma_canonical_fields(invocation.arguments);
    } else {
        assert(invocation.arguments =~= Seq::<u8>::empty());
    }
    assert(carries_fields(request.commands[0]));
    assert(crate::invoke::laws::request_well_formed(request));
    decoded_request_is_the_encoded_one(request);
    reply_path_is_the_request_path(request);
}

} // verus!
