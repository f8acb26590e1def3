//! What a TLV element reads as when read as an invoke message, or the reason
//! it is not one.

use vstd::prelude::*;
use crate::text::decimal;
use crate::tlv::{ElementView, ValueView, member_of, members_of, unsigned_of, bool_of};
use crate::invoke::{CommandPath, Status, REVISION_TAG};
use crate::invoke::messages::{CommandDataView, AnswerView, RequestView, ResponseView, anonymous};

verus! {

/// The reason a member named `what` is missing or not an unsigned integer.
pub open spec fn missing(what: Seq<char>) -> Seq<char> {
    what + " is missing or not an unsigned integer"@
}

/// The reason a member named `what` holds `value`, beyond its type.
pub open spec fn out_of_range(what: Seq<char>, value: u64) -> Seq<char> {
    what + " "@ + decimal(value as nat) + " is out of range"@
}

/// The unsigned member under context tag `tag`, no more than `max`.
pub open spec fn bounded(parent: ElementView, tag: u8, what: Seq<char>, max: u64) -> Result<u64, Seq<char>> {
    match member_of(parent, tag) {
        None => Err(missing(what)),
        Some(m) => match unsigned_of(m) {
            None => Err(missing(what)),
            Some(v) => if v <= max {
                Ok(v)
            } else {
                Err(out_of_range(what, v))
            },
        },
    }
}

/// The command path under tag 0.
pub open spec fn path_from(parent: ElementView) -> Result<CommandPath, Seq<char>> {
    match member_of(parent, 0) {
        None => Err("a CommandPath is missing"@),
        Some(p) => match bounded(p, 0, "EndpointId"@, 0xFFFF) {
            Err(e) => Err(e),
            Ok(endpoint) => match bounded(p, 1, "ClusterId"@, 0xFFFF_FFFF) {
                Err(e) => Err(e),
                Ok(cluster) => match bounded(p, 2, "CommandId"@, 0xFFFF_FFFF) {
                    Err(e) => Err(e),
                    Ok(command) => Ok(
                        CommandPath {
                            endpoint: endpoint as u16,
                            cluster: cluster as u32,
                            command: command as u32,
                        },
                    ),
                },
            },
        },
    }
}

/// The command reference under tag 2, where there is one.
pub open spec fn reference_from(parent: ElementView) -> Result<Option<u16>, Seq<char>> {
    match member_of(parent, 2) {
        None => Ok(None),
        Some(_) => match bounded(parent, 2, "CommandRef"@, 0xFFFF) {
            Err(e) => Err(e),
            Ok(r) => Ok(Some(r as u16)),
        },
    }
}

/// The command fields under tag 1, where there are some: a structure.
pub open spec fn fields_from(element: ElementView) -> Result<Option<ElementView>, Seq<char>> {
    match member_of(element, 1) {
        None => Ok(None),
        Some(f) => match f.value {
            ValueView::Structure(_) => Ok(Some(anonymous(f.value))),
            _ => Err("CommandFields is not a structure"@),
        },
    }
}

/// A command: fields, then path, then reference.
pub open spec fn command_from(element: ElementView) -> Result<CommandDataView, Seq<char>> {
    match fields_from(element) {
        Err(e) => Err(e),
        Ok(fields) => match path_from(element) {
            Err(e) => Err(e),
            Ok(path) => match reference_from(element) {
                Err(e) => Err(e),
                Ok(command_ref) => Ok(CommandDataView { path, fields, command_ref }),
            },
        },
    }
}

/// The cluster status under tag 1, where there is one.
pub open spec fn cluster_status_from(status: ElementView) -> Result<Option<u8>, Seq<char>> {
    match member_of(status, 1) {
        None => Ok(None),
        Some(_) => match bounded(status, 1, "ClusterStatus"@, 0xFF) {
            Err(e) => Err(e),
            Ok(c) => Ok(Some(c as u8)),
        },
    }
}

/// An answer: a command under tag 0, else a command status under tag 1.
pub open spec fn answer_from(element: ElementView) -> Result<AnswerView, Seq<char>> {
    match member_of(element, 0) {
        Some(command) => match command_from(command) {
            Err(e) => Err(e),
            Ok(c) => Ok(AnswerView::Command(c)),
        },
        None => match member_of(element, 1) {
            None => Err("an InvokeResponse is neither a Command nor a Status"@),
            Some(status_ib) => match member_of(status_ib, 1) {
                None => Err("a CommandStatus has no Status"@),
                Some(status) => match path_from(status_ib) {
                    Err(e) => Err(e),
                    Ok(path) => match bounded(status, 0, "Status"@, 0xFF) {
                        Err(e) => Err(e),
                        Ok(general) => match cluster_status_from(status) {
                            Err(e) => Err(e),
                            Ok(cluster) => match reference_from(status_ib) {
                                Err(e) => Err(e),
                                Ok(command_ref) => Ok(
                                    AnswerView::Status {
                                        path,
                                        status: Status { general: general as u8, cluster },
                                        command_ref,
                                    },
                                ),
                            },
                        },
                    },
                },
            },
        },
    }
}

/// Each of `items` as a command, or the first reason one is not.
pub open spec fn commands_from(items: Seq<ElementView>) -> Result<Seq<CommandDataView>, Seq<char>>
    decreases items.len(),
{
    if items.len() == 0 {
        Ok(seq![])
    } else {
        match commands_from(items.drop_last()) {
            Err(e) => Err(e),
            Ok(commands) => match command_from(items.last()) {
                Err(e) => Err(e),
                Ok(c) => Ok(commands.push(c)),
            },
        }
    }
}

/// Each of `items` as an answer, or the first reason one is not.
pub open spec fn answers_from(items: Seq<ElementView>) -> Result<Seq<AnswerView>, Seq<char>>
    decreases items.len(),
{
    if items.len() == 0 {
        Ok(seq![])
    } else {
        match answers_from(items.drop_last()) {
            Err(e) => Err(e),
            Ok(answers) => match answer_from(items.last()) {
                Err(e) => Err(e),
                Ok(a) => Ok(answers.push(a)),
            },
        }
    }
}

/// The boolean under tag `tag`; false where there is none.
pub open spec fn flag_of(message: ElementView, tag: u8) -> bool {
    match member_of(message, tag) {
        Some(m) => match bool_of(m) {
            Some(b) => b,
            None => false,
        },
        None => false,
    }
}

/// The InteractionModelRevision, a byte.
pub open spec fn revision_from(message: ElementView) -> Result<u8, Seq<char>> {
    match member_of(message, REVISION_TAG) {
        None => Err("the message carries no InteractionModelRevision"@),
        Some(m) => match unsigned_of(m) {
            None => Err("the message carries no InteractionModelRevision"@),
            Some(v) => if v <= 0xFF {
                Ok(v as u8)
            } else {
                Err("revision "@ + decimal(v as nat) + " is not a byte"@)
            },
        },
    }
}

/// The members of the container under tag `tag`, where there is one.
pub open spec fn container_under(message: ElementView, tag: u8) -> Option<Seq<ElementView>> {
    match member_of(message, tag) {
        Some(m) => members_of(m.value),
        None => None,
    }
}

/// An invoke request: its commands, its flags, its revision.
pub open spec fn request_from(message: ElementView) -> Result<RequestView, Seq<char>> {
    match container_under(message, 2) {
        None => Err("the invoke request has no InvokeRequests"@),
        Some(items) => match commands_from(items) {
            Err(e) => Err(e),
            Ok(commands) => match revision_from(message) {
                Err(e) => Err(e),
                Ok(revision) => Ok(
                    RequestView {
                        suppress_response: flag_of(message, 0),
                        timed_request: flag_of(message, 1),
                        commands,
                        revision,
                    },
                ),
            },
        },
    }
}

/// An invoke response: its answers, its flag, its revision.
pub open spec fn response_from(message: ElementView) -> Result<ResponseView, Seq<char>> {
    match container_under(message, 1) {
        None => Err("the invoke response has no InvokeResponses"@),
        Some(items) => match answers_from(items) {
            Err(e) => Err(e),
            Ok(answers) => match revision_from(message) {
                Err(e) => Err(e),
                Ok(revision) => Ok(
                    ResponseView { suppress_response: flag_of(message, 0), answers, revision },
                ),
            },
        },
    }
}

} // verus!
