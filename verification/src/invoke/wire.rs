//! How the invoke messages stand in TLV: each member under the context tag
//! the Interaction Model gives it, and what such a structure reads as.

use vstd::prelude::*;
use crate::tlv::{ElementView, Tag, ValueView};
use crate::invoke::{CommandPath, Status};
use crate::invoke::messages::{
    CommandDataView,
    AnswerView,
    RequestView,
    ResponseView,
    answer_items,
    command_items,
    request_message,
    response_message,
};
use crate::invoke::laws::{request_layout_reads_back, response_layout_reads_back};
use crate::invoke::reading::{request_from, response_from};

verus! {

/// A member under context tag `number`.
pub open spec fn tagged(number: u8, value: ValueView) -> ElementView {
    ElementView { tag: Tag::Context(number), value }
}

/// An unsigned integer.
pub open spec fn unsigned(n: int) -> ValueView {
    ValueView::Unsigned(n as u64)
}

/// A CommandPathIB: a list of the endpoint, the cluster and the command
/// under tags 0, 1 and 2.
pub open spec fn command_path_list(path: CommandPath) -> ValueView {
    ValueView::List(
        seq![
            tagged(0, unsigned(path.endpoint as int)),
            tagged(1, unsigned(path.cluster as int)),
            tagged(2, unsigned(path.command as int)),
        ],
    )
}

/// A CommandRef under tag 2, where there is one.
pub open spec fn reference_member(command_ref: Option<u16>) -> Seq<ElementView> {
    match command_ref {
        Some(r) => seq![tagged(2, unsigned(r as int))],
        None => seq![],
    }
}

/// A ClusterStatus under tag 1, where there is one.
pub open spec fn cluster_member(cluster: Option<u8>) -> Seq<ElementView> {
    match cluster {
        Some(c) => seq![tagged(1, unsigned(c as int))],
        None => seq![],
    }
}

/// CommandFields under tag 1, the members of the command's structure, where
/// it has fields.
pub open spec fn fields_member(fields: Option<Seq<ElementView>>) -> Seq<ElementView> {
    match fields {
        Some(members) => seq![tagged(1, ValueView::Structure(members))],
        None => seq![],
    }
}

/// Command fields as the untagged structure of those members.
pub open spec fn fields_element(fields: Option<Seq<ElementView>>) -> Option<ElementView> {
    match fields {
        Some(members) => Some(ElementView { tag: Tag::Anonymous, value: ValueView::Structure(members) }),
        None => None,
    }
}

/// A response answering with a status is a structure of SuppressResponse
/// under tag 0, InvokeResponses under tag 1 and the revision under tag 0xFF.
/// The answer is an InvokeResponseIB holding, under tag 1, a
/// CommandStatusIB: the command path under tag 0, the StatusIB under tag 1
/// (the general status under tag 0, the cluster status under tag 1 where
/// there is one), the reference under tag 2 where there is one. Such a
/// structure reads as that response.
pub proof fn a_status_answer_is_a_command_status(
    path: CommandPath,
    general: u8,
    cluster: Option<u8>,
    command_ref: Option<u16>,
    suppress: bool,
    revision: u8,
)
    ensures
        response_message(
            ResponseView {
                suppress_response: suppress,
                answers: seq![AnswerView::Status { path, status: Status { general, cluster }, command_ref }],
                revision,
            },
        ) == (ElementView {
            tag: Tag::Anonymous,
            value: ValueView::Structure(
                seq![
                    tagged(0, ValueView::Bool(suppress)),
                    tagged(
                        1,
                        ValueView::Array(
                            seq![
                                ElementView {
                                    tag: Tag::Anonymous,
                                    value: ValueView::Structure(
                                        seq![
                                            tagged(
                                                1,
                                                ValueView::Structure(
                                                    seq![
                                                        tagged(0, command_path_list(path)),
                                                        tagged(
                                                            1,
                                                            ValueView::Structure(
                                                                seq![tagged(0, unsigned(general as int))]
                                                                    + cluster_member(cluster),
                                                            ),
                                                        ),
                                                    ] + reference_member(command_ref),
                                                ),
                                            ),
                                        ],
                                    ),
                                },
                            ],
                        ),
                    ),
                    tagged(0xFF, unsigned(revision as int)),
                ],
            ),
        }),
        response_from(
            response_message(
                ResponseView {
                    suppress_response: suppress,
                    answers: seq![AnswerView::Status { path, status: Status { general, cluster }, command_ref }],
                    revision,
                },
            ),
        ) == Ok::<ResponseView, Seq<char>>(
            ResponseView {
                suppress_response: suppress,
                answers: seq![AnswerView::Status { path, status: Status { general, cluster }, command_ref }],
                revision,
            },
        ),
{
    let answer = AnswerView::Status { path, status: Status { general, cluster }, command_ref };
    let response = ResponseView { suppress_response: suppress, answers: seq![answer], revision };
    assert(answer_items(seq![answer]) =~= seq![
        ElementView { tag: Tag::Anonymous, value: crate::invoke::messages::answer_value(answer) },
    ]);
    let status_ib = seq![tagged(0, unsigned(general as int))] + cluster_member(cluster);
    assert(crate::invoke::messages::status_members(Status { general, cluster }) =~= status_ib);
    assert(crate::invoke::messages::status_answer_members(path, Status { general, cluster }, command_ref)
        =~= seq![
        tagged(0, command_path_list(path)),
        tagged(1, ValueView::Structure(status_ib)),
    ] + reference_member(command_ref));
    let ib = ElementView {
        tag: Tag::Anonymous,
        value: ValueView::Structure(
            seq![
                tagged(
                    1,
                    ValueView::Structure(
                        seq![tagged(0, command_path_list(path)), tagged(1, ValueView::Structure(status_ib))]
                            + reference_member(command_ref),
                    ),
                ),
            ],
        ),
    };
    assert(answer_items(seq![answer]) =~= seq![ib]);
    response_layout_reads_back(response);
}

/// A response answering with a command is the same structure, its
/// InvokeResponseIB holding, under tag 0, a CommandDataIB: the command path
/// under tag 0, the fields under tag 1 where there are fields, the reference
/// under tag 2 where there is one. Such a structure reads as that response.
pub proof fn a_command_answer_is_command_data(
    path: CommandPath,
    fields: Option<Seq<ElementView>>,
    command_ref: Option<u16>,
    suppress: bool,
    revision: u8,
)
    ensures
        response_message(
            ResponseView {
                suppress_response: suppress,
                answers: seq![
                    AnswerView::Command(CommandDataView { path, fields: fields_element(fields), command_ref }),
                ],
                revision,
            },
        ) == (ElementView {
            tag: Tag::Anonymous,
            value: ValueView::Structure(
                seq![
                    tagged(0, ValueView::Bool(suppress)),
                    tagged(
                        1,
                        ValueView::Array(
                            seq![
                                ElementView {
                                    tag: Tag::Anonymous,
                                    value: ValueView::Structure(
                                        seq![
                                            tagged(
                                                0,
                                                ValueView::Structure(
                                                    seq![tagged(0, command_path_list(path))] + fields_member(
                                                        fields,
                                                    ) + reference_member(command_ref),
                                                ),
                                            ),
                                        ],
                                    ),
                                },
                            ],
                        ),
                    ),
                    tagged(0xFF, unsigned(revision as int)),
                ],
            ),
        }),
        response_from(
            response_message(
                ResponseView {
                    suppress_response: suppress,
                    answers: seq![
                        AnswerView::Command(CommandDataView { path, fields: fields_element(fields), command_ref }),
                    ],
                    revision,
                },
            ),
        ) == Ok::<ResponseView, Seq<char>>(
            ResponseView {
                suppress_response: suppress,
                answers: seq![
                    AnswerView::Command(CommandDataView { path, fields: fields_element(fields), command_ref }),
                ],
                revision,
            },
        ),
{
    let command = CommandDataView { path, fields: fields_element(fields), command_ref };
    let answer = AnswerView::Command(command);
    let response = ResponseView { suppress_response: suppress, answers: seq![answer], revision };
    assert(answer_items(seq![answer]) =~= seq![
        ElementView { tag: Tag::Anonymous, value: crate::invoke::messages::answer_value(answer) },
    ]);
    assert(crate::invoke::messages::command_members(command) =~= seq![tagged(0, command_path_list(path))]
        + fields_member(fields) + reference_member(command_ref));
    assert(crate::invoke::laws::carries_fields(command));
    response_layout_reads_back(response);
}

/// A request of one command is a structure of SuppressResponse under tag 0,
/// TimedRequest under tag 1, InvokeRequests under tag 2 and the revision
/// under tag 0xFF. The command is an untagged CommandDataIB: the command path
/// under tag 0, the fields under tag 1 where there are fields, the reference
/// under tag 2 where there is one. Such a structure reads as that request.
pub proof fn a_request_is_laid_out_by_its_tags(
    path: CommandPath,
    fields: Option<Seq<ElementView>>,
    command_ref: Option<u16>,
    suppress: bool,
    timed: bool,
    revision: u8,
)
    ensures
        request_message(
            RequestView {
                suppress_response: suppress,
                timed_request: timed,
                commands: seq![CommandDataView { path, fields: fields_element(fields), command_ref }],
                revision,
            },
        ) == (ElementView {
            tag: Tag::Anonymous,
            value: ValueView::Structure(
                seq![
                    tagged(0, ValueView::Bool(suppress)),
                    tagged(1, ValueView::Bool(timed)),
                    tagged(
                        2,
                        ValueView::Array(
                            seq![
                                ElementView {
                                    tag: Tag::Anonymous,
                                    value: ValueView::Structure(
                                        seq![tagged(0, command_path_list(path))] + fields_member(fields)
                                            + reference_member(command_ref),
                                    ),
                                },
                            ],
                        ),
                    ),
                    tagged(0xFF, unsigned(revision as int)),
                ],
            ),
        }),
        request_from(
            request_message(
                RequestView {
                    suppress_response: suppress,
                    timed_request: timed,
                    commands: seq![CommandDataView { path, fields: fields_element(fields), command_ref }],
                    revision,
                },
            ),
        ) == Ok::<RequestView, Seq<char>>(
            RequestView {
                suppress_response: suppress,
                timed_request: timed,
                commands: seq![CommandDataView { path, fields: fields_element(fields), command_ref }],
                revision,
            },
        ),
{
    let command = CommandDataView { path, fields: fields_element(fields), command_ref };
    let request = RequestView {
        suppress_response: suppress,
        timed_request: timed,
        commands: seq![command],
        revision,
    };
    assert(command_items(seq![command]) =~= seq![
        ElementView { tag: Tag::Anonymous, value: crate::invoke::messages::command_value(command) },
    ]);
    assert(crate::invoke::messages::command_members(command) =~= seq![tagged(0, command_path_list(path))]
        + fields_member(fields) + reference_member(command_ref));
    assert(crate::invoke::laws::request_well_formed(request));
    request_layout_reads_back(request);
}

} // verus!
