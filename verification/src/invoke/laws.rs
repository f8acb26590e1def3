//! Reading back what was written: an invoke message decodes to the message
//! that was encoded.

use vstd::prelude::*;
use crate::tlv::{ElementView, Tag, ValueView, member_of};
use crate::tlv::layout::{encoding, decoding, Refused};
use crate::tlv::proofs::{lemma_first_found, lemma_first_absent, decoding_reads_back_the_encoding};
use crate::invoke::{CommandPath, Status, REVISION_TAG};
use crate::invoke::messages::{
    CommandDataView,
    AnswerView,
    RequestView,
    ResponseView,
    context,
    anonymous,
    path_value,
    command_members,
    command_value,
    status_members,
    status_answer_members,
    answer_value,
    command_items,
    answer_items,
    request_message,
    response_message,
};
use crate::invoke::reading::{
    path_from,
    command_from,
    answer_from,
    commands_from,
    answers_from,
    request_from,
    response_from,
};

verus! {

/// A command's fields can be carried: where there are fields, they are an
/// untagged structure.
pub open spec fn carries_fields(command: CommandDataView) -> bool {
    match command.fields {
        Some(f) => f.tag == Tag::Anonymous && f.value is Structure,
        None => true,
    }
}

/// Every command of a request can carry its fields.
pub open spec fn request_well_formed(request: RequestView) -> bool {
    forall|i: int| 0 <= i < request.commands.len() ==> carries_fields(#[trigger] request.commands[i])
}

/// Every command answer of a response can carry its fields.
pub open spec fn response_well_formed(response: ResponseView) -> bool {
    forall|i: int|
        0 <= i < response.answers.len() ==> match #[trigger] response.answers[i] {
            AnswerView::Command(c) => carries_fields(c),
            AnswerView::Status { .. } => true,
        }
}

proof fn lemma_path_reads_back(parent: ElementView, path: CommandPath)
    requires
        member_of(parent, 0) == Some(context(0, path_value(path))),
    ensures
        path_from(parent) == Ok::<CommandPath, Seq<char>>(path),
{
    let p = context(0, path_value(path));
    let ms = seq![
        context(0, ValueView::Unsigned(path.endpoint as u64)),
        context(1, ValueView::Unsigned(path.cluster as u64)),
        context(2, ValueView::Unsigned(path.command as u64)),
    ];
    lemma_first_found(ms, 0, 0);
    lemma_first_found(ms, 1, 1);
    lemma_first_found(ms, 2, 2);
}

proof fn lemma_command_reads_back(element: ElementView, command: CommandDataView)
    requires
        element.value == command_value(command),
        carries_fields(command),
    ensures
        command_from(element) == Ok::<CommandDataView, Seq<char>>(command),
{
    let ms = command_members(command);
    lemma_first_found(ms, 0, 0);
    lemma_path_reads_back(element, command.path);
    match command.fields {
        Some(f) => {
            lemma_first_found(ms, 1, 1);
            assert(anonymous(f.value) == f);
        },
        None => {
            lemma_first_absent(ms, 1);
        },
    }
    match command.command_ref {
        Some(r) => {
            lemma_first_found(ms, 2, ms.len() - 1);
        },
        None => {
            lemma_first_absent(ms, 2);
        },
    }
}

proof fn lemma_answer_reads_back(answer: AnswerView)
    requires
        match answer {
            AnswerView::Command(c) => carries_fields(c),
            AnswerView::Status { .. } => true,
        },
    ensures
        answer_from(anonymous(answer_value(answer))) == Ok::<AnswerView, Seq<char>>(answer),
{
    let element = anonymous(answer_value(answer));
    match answer {
        AnswerView::Command(c) => {
            let ms = seq![context(0, command_value(c))];
            lemma_first_found(ms, 0, 0);
            lemma_command_reads_back(context(0, command_value(c)), c);
        },
        AnswerView::Status { path, status, command_ref } => {
            let outer = seq![context(1, ValueView::Structure(status_answer_members(path, status, command_ref)))];
            lemma_first_absent(outer, 0);
            lemma_first_found(outer, 1, 0);
            let status_ib = context(1, ValueView::Structure(status_answer_members(path, status, command_ref)));
            let ib = status_answer_members(path, status, command_ref);
            lemma_first_found(ib, 0, 0);
            lemma_first_found(ib, 1, 1);
            lemma_path_reads_back(status_ib, path);
            let st = status_members(status);
            lemma_first_found(st, 0, 0);
            match status.cluster {
                Some(c) => lemma_first_found(st, 1, 1),
                None => lemma_first_absent(st, 1),
            }
            match command_ref {
                Some(r) => lemma_first_found(ib, 2, 2),
                None => lemma_first_absent(ib, 2),
            }
        },
    }
}

proof fn lemma_commands_read_back(commands: Seq<CommandDataView>)
    requires
        forall|i: int| 0 <= i < commands.len() ==> carries_fields(#[trigger] commands[i]),
    ensures
        commands_from(command_items(commands)) == Ok::<Seq<CommandDataView>, Seq<char>>(commands),
    decreases commands.len(),
{
    if commands.len() > 0 {
        let init = commands.drop_last();
        assert(command_items(commands).drop_last() =~= command_items(init));
        lemma_commands_read_back(init);
        lemma_command_reads_back(command_items(commands).last(), commands.last());
        assert(init.push(commands.last()) =~= commands);
    } else {
        assert(command_items(commands) =~= Seq::<ElementView>::empty());
        assert(commands =~= Seq::<CommandDataView>::empty());
    }
}

proof fn lemma_answers_read_back(answers: Seq<AnswerView>)
    requires
        forall|i: int|
            0 <= i < answers.len() ==> match #[trigger] answers[i] {
                AnswerView::Command(c) => carries_fields(c),
                AnswerView::Status { .. } => true,
            },
    ensures
        answers_from(answer_items(answers)) == Ok::<Seq<AnswerView>, Seq<char>>(answers),
    decreases answers.len(),
{
    if answers.len() > 0 {
        let init = answers.drop_last();
        assert(answer_items(answers).drop_last() =~= answer_items(init));
        lemma_answers_read_back(init);
        lemma_answer_reads_back(answers.last());
        assert(init.push(answers.last()) =~= answers);
    } else {
        assert(answer_items(answers) =~= Seq::<ElementView>::empty());
        assert(answers =~= Seq::<AnswerView>::empty());
    }
}

/// A request, laid out as a structure, reads back as itself.
pub proof fn request_layout_reads_back(request: RequestView)
    requires
        request_well_formed(request),
    ensures
        request_from(request_message(request)) == Ok::<RequestView, Seq<char>>(request),
{
    let message = request_message(request);
    let ms = seq![
        context(0, ValueView::Bool(request.suppress_response)),
        context(1, ValueView::Bool(request.timed_request)),
        context(2, ValueView::Array(command_items(request.commands))),
        context(REVISION_TAG, ValueView::Unsigned(request.revision as u64)),
    ];
    lemma_first_found(ms, 0, 0);
    lemma_first_found(ms, 1, 1);
    lemma_first_found(ms, 2, 2);
    lemma_first_found(ms, REVISION_TAG, 3);
    lemma_commands_read_back(request.commands);
}

/// A response, laid out as a structure, reads back as itself.
pub proof fn response_layout_reads_back(response: ResponseView)
    requires
        response_well_formed(response),
    ensures
        response_from(response_message(response)) == Ok::<ResponseView, Seq<char>>(response),
{
    let message = response_message(response);
    let ms = seq![
        context(0, ValueView::Bool(response.suppress_response)),
        context(1, ValueView::Array(answer_items(response.answers))),
        context(REVISION_TAG, ValueView::Unsigned(response.revision as u64)),
    ];
    lemma_first_found(ms, 0, 0);
    lemma_first_found(ms, 1, 1);
    lemma_first_found(ms, REVISION_TAG, 2);
    lemma_answers_read_back(response.answers);
}

/// What `InvokeRequest::encode` writes, `InvokeRequest::decode` reads back as
/// the same request, where each command's fields are an untagged structure
/// and the bytes fit in this machine's memory.
pub proof fn decoded_request_is_the_encoded_one(request: RequestView)
    requires
        request_well_formed(request),
        encoding(request_message(request)).len() <= usize::MAX,
    ensures
        decoding(encoding(request_message(request))) == Ok::<ElementView, Refused>(request_message(request)),
        request_from(request_message(request)) == Ok::<RequestView, Seq<char>>(request),
{
    decoding_reads_back_the_encoding(request_message(request));
    request_layout_reads_back(request);
}

/// What `InvokeResponse::encode` writes, `InvokeResponse::decode` reads back
/// as the same response, where each command answer's fields are an untagged
/// structure and the bytes fit in this machine's memory.
pub proof fn decoded_response_is_the_encoded_one(response: ResponseView)
    requires
        response_well_formed(response),
        encoding(response_message(response)).len() <= usize::MAX,
    ensures
        decoding(encoding(response_message(response))) == Ok::<ElementView, Refused>(response_message(response)),
        response_from(response_message(response)) == Ok::<ResponseView, Seq<char>>(response),
{
    decoding_reads_back_the_encoding(response_message(response));
    response_layout_reads_back(response);
}

} // verus!
