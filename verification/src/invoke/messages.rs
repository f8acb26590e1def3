//! The invoke messages as values, and the TLV structure each is written as.

use vstd::prelude::*;
use crate::tlv::{ElementView, Tag, ValueView};
use crate::invoke::{CommandPath, Status, REVISION_TAG};

verus! {

/// A command with its fields, as a value.
pub struct CommandDataView {
    pub path: CommandPath,
    pub fields: Option<ElementView>,
    pub command_ref: Option<u16>,
}

/// An answer, as a value.
pub enum AnswerView {
    Command(CommandDataView),
    Status { path: CommandPath, status: Status, command_ref: Option<u16> },
}

/// An invoke request, as a value.
pub struct RequestView {
    pub suppress_response: bool,
    pub timed_request: bool,
    pub commands: Seq<CommandDataView>,
    pub revision: u8,
}

/// An invoke response, as a value.
pub struct ResponseView {
    pub suppress_response: bool,
    pub answers: Seq<AnswerView>,
    pub revision: u8,
}

/// A member carrying context tag `number`.
pub open spec fn context(number: u8, value: ValueView) -> ElementView {
    ElementView { tag: Tag::Context(number), value }
}

/// An element with no tag.
pub open spec fn anonymous(value: ValueView) -> ElementView {
    ElementView { tag: Tag::Anonymous, value }
}

/// A command path: endpoint, cluster and command under tags 0, 1 and 2.
pub open spec fn path_value(path: CommandPath) -> ValueView {
    ValueView::List(
        seq![
            context(0, ValueView::Unsigned(path.endpoint as u64)),
            context(1, ValueView::Unsigned(path.cluster as u64)),
            context(2, ValueView::Unsigned(path.command as u64)),
        ],
    )
}

/// The members of a command: its path under tag 0, its fields' value under
/// tag 1 where it has fields, its reference under tag 2 where it has one.
pub open spec fn command_members(command: CommandDataView) -> Seq<ElementView> {
    seq![context(0, path_value(command.path))] + match command.fields {
        Some(fields) => seq![context(1, fields.value)],
        None => seq![],
    } + match command.command_ref {
        Some(r) => seq![context(2, ValueView::Unsigned(r as u64))],
        None => seq![],
    }
}

pub open spec fn command_value(command: CommandDataView) -> ValueView {
    ValueView::Structure(command_members(command))
}

/// A status: the general status under tag 0, the cluster's under tag 1
/// where there is one.
pub open spec fn status_members(status: Status) -> Seq<ElementView> {
    seq![context(0, ValueView::Unsigned(status.general as u64))] + match status.cluster {
        Some(c) => seq![context(1, ValueView::Unsigned(c as u64))],
        None => seq![],
    }
}

/// A command status: path under tag 0, status under tag 1, reference under
/// tag 2 where there is one.
pub open spec fn status_answer_members(path: CommandPath, status: Status, command_ref: Option<u16>) -> Seq<ElementView> {
    seq![
        context(0, path_value(path)),
        context(1, ValueView::Structure(status_members(status))),
    ] + match command_ref {
        Some(r) => seq![context(2, ValueView::Unsigned(r as u64))],
        None => seq![],
    }
}

/// An answer: a command under tag 0, or a command status under tag 1.
pub open spec fn answer_value(answer: AnswerView) -> ValueView {
    match answer {
        AnswerView::Command(command) => ValueView::Structure(seq![context(0, command_value(command))]),
        AnswerView::Status { path, status, command_ref } => ValueView::Structure(
            seq![context(1, ValueView::Structure(status_answer_members(path, status, command_ref)))],
        ),
    }
}

/// The commands of a request, each an anonymous structure.
pub open spec fn command_items(commands: Seq<CommandDataView>) -> Seq<ElementView> {
    commands.map_values(|c: CommandDataView| anonymous(command_value(c)))
}

/// The answers of a response, each an anonymous structure.
pub open spec fn answer_items(answers: Seq<AnswerView>) -> Seq<ElementView> {
    answers.map_values(|a: AnswerView| anonymous(answer_value(a)))
}

/// The structure an invoke request is written as.
pub open spec fn request_message(request: RequestView) -> ElementView {
    anonymous(
        ValueView::Structure(
            seq![
                context(0, ValueView::Bool(request.suppress_response)),
                context(1, ValueView::Bool(request.timed_request)),
                context(2, ValueView::Array(command_items(request.commands))),
                context(REVISION_TAG, ValueView::Unsigned(request.revision as u64)),
            ],
        ),
    )
}

/// The structure an invoke response is written as.
pub open spec fn response_message(response: ResponseView) -> ElementView {
    anonymous(
        ValueView::Structure(
            seq![
                context(0, ValueView::Bool(response.suppress_response)),
                context(1, ValueView::Array(answer_items(response.answers))),
                context(REVISION_TAG, ValueView::Unsigned(response.revision as u64)),
            ],
        ),
    )
}

} // verus!
