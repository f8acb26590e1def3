//! The Interaction Model's invoke action: a request names an endpoint, a
//! cluster and a command and carries the command's fields; a response carries
//! either a response command with its fields or a status. Both are TLV
//! structures whose members carry context tags, exactly as the specification
//! lays them out: this file knows those tags, and [`crate::tlv`] the bytes.

pub mod messages;
pub mod reading;
pub mod laws;
pub mod wire;
use vstd::prelude::*;
use crate::tlv::{
    Element,
    ElementView,
    Tag,
    TlvError,
    Value,
    ValueView,
    element_view,
    copy_element,
    copy_value,
    members_view,
    encode,
};
use crate::tlv::layout::{encoding, decoding, Refused};
use crate::tlv::{members_of, decode};
use crate::text::{push_decimal, joined};
use reading::{
    bounded,
    path_from,
    reference_from,
    fields_from,
    command_from,
    cluster_status_from,
    answer_from,
    commands_from,
    answers_from,
    flag_of,
    revision_from,
    container_under,
    request_from,
    response_from,
    missing,
};
use messages::{
    CommandDataView,
    AnswerView,
    RequestView,
    ResponseView,
    request_message,
    response_message,
    command_value,
    answer_value,
    path_value,
    context,
};

verus! {

/// The Interaction Model revision these messages are written at.
pub const INTERACTION_MODEL_REVISION: u8 = 11;

/// The context tag of the InteractionModelRevision member.
pub const REVISION_TAG: u8 = 0xFF;

/// Which command on which cluster on which endpoint.
#[derive(Clone, Copy, Debug, PartialEq, Eq, Structural)]
pub struct CommandPath {
    pub endpoint: u16,
    pub cluster: u32,
    pub command: u32,
}

/// A command with its fields, on the way in or as a response command on the
/// way back. `fields` is the command's structure when the command has fields.
#[derive(Debug, PartialEq)]
pub struct CommandData {
    pub path: CommandPath,
    pub fields: Option<Element>,
    pub command_ref: Option<u16>,
}

/// A general status, and a cluster's own where the cluster has one.
#[derive(Clone, Copy, Debug, PartialEq, Eq)]
pub struct Status {
    pub general: u8,
    pub cluster: Option<u8>,
}

impl Status {
    /// The general status of a command that did what it was asked.
    pub const SUCCESS: u8 = 0x00;
    /// The general status a cluster-specific status travels under.
    pub const FAILURE: u8 = 0x01;

    /// A general status with no cluster status.
    pub fn general(code: u8) -> (s: Status)
        ensures
            s.general == code,
            s.cluster is None,
    {
        Status { general: code, cluster: None }
    }

    /// Whether the command succeeded.
    pub fn is_success(self) -> (r: bool)
        ensures
            r == (self.general == 0),
    {
        self.general == Self::SUCCESS
    }
}

/// What a command was answered with.
#[derive(Debug, PartialEq)]
pub enum Answer {
    Command(CommandData),
    Status { path: CommandPath, status: Status, command_ref: Option<u16> },
}

/// An invoke request message.
#[derive(Debug, PartialEq)]
pub struct InvokeRequest {
    pub suppress_response: bool,
    pub timed_request: bool,
    pub commands: Vec<CommandData>,
    pub revision: u8,
}

/// An invoke response message.
#[derive(Debug, PartialEq)]
pub struct InvokeResponse {
    pub suppress_response: bool,
    pub answers: Vec<Answer>,
    pub revision: u8,
}

/// Why bytes are not the invoke message they were read as.
#[derive(Clone, Debug, PartialEq, Eq)]
pub enum InvokeError {
    /// The bytes are not TLV.
    Tlv(TlvError),
    /// The TLV is not laid out as the message requires.
    Shape(String),
}

impl From<TlvError> for InvokeError {
    fn from(error: TlvError) -> (e: InvokeError) {
        InvokeError::Tlv(error)
    }
}

impl vstd::std_specs::convert::FromSpecImpl<TlvError> for InvokeError {
    open spec fn obeys_from_spec() -> bool {
        true
    }

    open spec fn from_spec(error: TlvError) -> InvokeError {
        InvokeError::Tlv(error)
    }
}

impl View for CommandData {
    type V = CommandDataView;

    open spec fn view(&self) -> CommandDataView {
        CommandDataView {
            path: self.path,
            fields: match self.fields {
                Some(f) => Some(element_view(f)),
                None => None,
            },
            command_ref: self.command_ref,
        }
    }
}

impl View for Answer {
    type V = AnswerView;

    open spec fn view(&self) -> AnswerView {
        match self {
            Answer::Command(command) => AnswerView::Command(command@),
            Answer::Status { path, status, command_ref } => AnswerView::Status {
                path: *path,
                status: *status,
                command_ref: *command_ref,
            },
        }
    }
}

impl View for InvokeRequest {
    type V = RequestView;

    open spec fn view(&self) -> RequestView {
        RequestView {
            suppress_response: self.suppress_response,
            timed_request: self.timed_request,
            commands: self.commands@.map_values(|c: CommandData| c@),
            revision: self.revision,
        }
    }
}

impl View for InvokeResponse {
    type V = ResponseView;

    open spec fn view(&self) -> ResponseView {
        ResponseView {
            suppress_response: self.suppress_response,
            answers: self.answers@.map_values(|a: Answer| a@),
            revision: self.revision,
        }
    }
}

impl Clone for CommandData {
    fn clone(&self) -> (r: Self)
        ensures
            r@ == self@,
    {
        CommandData {
            path: self.path,
            fields: match &self.fields {
                Some(f) => Some(copy_element(f)),
                None => None,
            },
            command_ref: self.command_ref,
        }
    }
}

impl Clone for Answer {
    fn clone(&self) -> (r: Self)
        ensures
            r@ == self@,
    {
        match self {
            Answer::Command(command) => Answer::Command(command.clone()),
            Answer::Status { path, status, command_ref } => Answer::Status {
                path: *path,
                status: *status,
                command_ref: *command_ref,
            },
        }
    }
}

impl Clone for InvokeRequest {
    fn clone(&self) -> (r: Self)
        ensures
            r@ == self@,
    {
        let mut commands: Vec<CommandData> = Vec::new();
        let mut i: usize = 0;
        while i < self.commands.len()
            invariant
                i <= self.commands@.len(),
                commands@.len() == i,
                forall|k: int| 0 <= k < i ==> (#[trigger] commands@[k])@ == self.commands@[k]@,
            decreases self.commands@.len() - i,
        {
            commands.push(self.commands[i].clone());
            i = i + 1;
        }
        let r = InvokeRequest {
            suppress_response: self.suppress_response,
            timed_request: self.timed_request,
            commands,
            revision: self.revision,
        };
        assert(r@.commands =~= self@.commands);
        r
    }
}

impl Clone for InvokeResponse {
    fn clone(&self) -> (r: Self)
        ensures
            r@ == self@,
    {
        let mut answers: Vec<Answer> = Vec::new();
        let mut i: usize = 0;
        while i < self.answers.len()
            invariant
                i <= self.answers@.len(),
                answers@.len() == i,
                forall|k: int| 0 <= k < i ==> (#[trigger] answers@[k])@ == self.answers@[k]@,
            decreases self.answers@.len() - i,
        {
            answers.push(self.answers[i].clone());
            i = i + 1;
        }
        let r = InvokeResponse { suppress_response: self.suppress_response, answers, revision: self.revision };
        assert(r@.answers =~= self@.answers);
        r
    }
}

/// The element a command path is written as.
fn command_path(path: CommandPath) -> (v: Value)
    ensures
        v@ == path_value(path),
{
    let members = vec![
        Element::context(0, Value::Unsigned(path.endpoint as u64)),
        Element::context(1, Value::Unsigned(path.cluster as u64)),
        Element::context(2, Value::Unsigned(path.command as u64)),
    ];
    assert(members_view(members) =~= seq![
        context(0, ValueView::Unsigned(path.endpoint as u64)),
        context(1, ValueView::Unsigned(path.cluster as u64)),
        context(2, ValueView::Unsigned(path.command as u64)),
    ]);
    Value::List(members)
}

/// The structure a command is written as: its path, its fields where it has
/// some, its reference where it has one.
fn command_data(command: &CommandData) -> (v: Value)
    ensures
        v@ == command_value(command@),
{
    let mut members: Vec<Element> = Vec::new();
    members.push(Element::context(0, command_path(command.path)));
    if let Some(fields) = &command.fields {
        members.push(Element::context(1, copy_value(&fields.value)));
    }
    if let Some(command_ref) = command.command_ref {
        members.push(Element::context(2, Value::Unsigned(command_ref as u64)));
    }
    assert(members_view(members) =~= messages::command_members(command@));
    Value::Structure(members)
}

/// The structure an answer is written as.
fn answer_data(answer: &Answer) -> (v: Value)
    ensures
        v@ == answer_value(answer@),
{
    match answer {
        Answer::Command(command) => {
            let members = vec![Element::context(0, command_data(command))];
            assert(members_view(members) =~= seq![context(0, command_value(command@))]);
            Value::Structure(members)
        },
        Answer::Status { path, status, command_ref } => {
            let mut status_ib: Vec<Element> = Vec::new();
            status_ib.push(Element::context(0, Value::Unsigned(status.general as u64)));
            if let Some(cluster) = status.cluster {
                status_ib.push(Element::context(1, Value::Unsigned(cluster as u64)));
            }
            assert(members_view(status_ib) =~= messages::status_members(*status));
            let mut members: Vec<Element> = Vec::new();
            members.push(Element::context(0, command_path(*path)));
            members.push(Element::context(1, Value::Structure(status_ib)));
            if let Some(command_ref) = command_ref {
                members.push(Element::context(2, Value::Unsigned(*command_ref as u64)));
            }
            assert(members_view(members) =~= messages::status_answer_members(
                *path,
                *status,
                *command_ref,
            ));
            let outer = vec![Element::context(1, Value::Structure(members))];
            assert(members_view(outer) =~= seq![
                context(1, ValueView::Structure(messages::status_answer_members(*path, *status, *command_ref))),
            ]);
            Value::Structure(outer)
        },
    }
}

impl InvokeRequest {
    /// One command, answered, untimed.
    pub fn of(command: CommandData) -> (r: InvokeRequest)
        ensures
            r@ == (RequestView {
                suppress_response: false,
                timed_request: false,
                commands: seq![command@],
                revision: INTERACTION_MODEL_REVISION,
            }),
    {
        let r = InvokeRequest {
            suppress_response: false,
            timed_request: false,
            commands: vec![command],
            revision: INTERACTION_MODEL_REVISION,
        };
        assert(r@.commands =~= seq![command@]);
        r
    }

    /// The message as bytes.
    pub fn encode(&self) -> (bytes: Vec<u8>)
        ensures
            bytes@ == encoding(request_message(self@)),
    {
        let mut commands: Vec<Element> = Vec::new();
        let mut i: usize = 0;
        while i < self.commands.len()
            invariant
                i <= self.commands@.len(),
                members_view(commands) == messages::command_items(self@.commands.take(i as int)),
            decreases self.commands@.len() - i,
        {
            let ghost before = commands;
            commands.push(Element::new(Tag::Anonymous, command_data(&self.commands[i])));
            proof {
                crate::tlv::lemma_members_view_push(commands, before, commands@.last());
                assert(self@.commands.take(i + 1) =~= self@.commands.take(i as int).push(
                    self.commands@[i as int]@,
                ));
                assert(members_view(commands) =~= messages::command_items(self@.commands.take(i + 1)));
            }
            i = i + 1;
        }
        assert(self@.commands.take(i as int) =~= self@.commands);
        let ghost items = members_view(commands);
        let members = vec![
            Element::context(0, Value::Bool(self.suppress_response)),
            Element::context(1, Value::Bool(self.timed_request)),
            Element::context(2, Value::Array(commands)),
            Element::context(REVISION_TAG, Value::Unsigned(self.revision as u64)),
        ];
        assert(members_view(members) =~= seq![
            context(0, ValueView::Bool(self.suppress_response)),
            context(1, ValueView::Bool(self.timed_request)),
            context(2, ValueView::Array(items)),
            context(REVISION_TAG, ValueView::Unsigned(self.revision as u64)),
        ]);
        let message = Element::new(Tag::Anonymous, Value::Structure(members));
        assert(message@ =~= request_message(self@));
        encode(&message)
    }
}

impl InvokeResponse {
    /// One answer.
    pub fn of(answer: Answer) -> (r: InvokeResponse)
        ensures
            r@ == (ResponseView {
                suppress_response: false,
                answers: seq![answer@],
                revision: INTERACTION_MODEL_REVISION,
            }),
    {
        let r = InvokeResponse {
            suppress_response: false,
            answers: vec![answer],
            revision: INTERACTION_MODEL_REVISION,
        };
        assert(r@.answers =~= seq![answer@]);
        r
    }

    /// The message as bytes.
    pub fn encode(&self) -> (bytes: Vec<u8>)
        ensures
            bytes@ == encoding(response_message(self@)),
    {
        let mut answers: Vec<Element> = Vec::new();
        let mut i: usize = 0;
        while i < self.answers.len()
            invariant
                i <= self.answers@.len(),
                members_view(answers) == messages::answer_items(self@.answers.take(i as int)),
            decreases self.answers@.len() - i,
        {
            let ghost before = answers;
            answers.push(Element::new(Tag::Anonymous, answer_data(&self.answers[i])));
            proof {
                crate::tlv::lemma_members_view_push(answers, before, answers@.last());
                assert(self@.answers.take(i + 1) =~= self@.answers.take(i as int).push(
                    self.answers@[i as int]@,
                ));
                assert(members_view(answers) =~= messages::answer_items(self@.answers.take(i + 1)));
            }
            i = i + 1;
        }
        assert(self@.answers.take(i as int) =~= self@.answers);
        let ghost items = members_view(answers);
        let members = vec![
            Element::context(0, Value::Bool(self.suppress_response)),
            Element::context(1, Value::Array(answers)),
            Element::context(REVISION_TAG, Value::Unsigned(self.revision as u64)),
        ];
        assert(members_view(members) =~= seq![
            context(0, ValueView::Bool(self.suppress_response)),
            context(1, ValueView::Array(items)),
            context(REVISION_TAG, ValueView::Unsigned(self.revision as u64)),
        ]);
        let message = Element::new(Tag::Anonymous, Value::Structure(members));
        assert(message@ =~= response_message(self@));
        encode(&message)
    }
}

/// The exec result `r` is the read `s`: the same value, or the same reason.
pub open spec fn same_shape<T, U>(r: Result<T, String>, s: Result<U, Seq<char>>, view: spec_fn(T) -> U) -> bool {
    match (r, s) {
        (Ok(x), Ok(y)) => view(x) == y,
        (Err(e), Err(t)) => e@ == t,
        _ => false,
    }
}

/// The bytes are refused as the message: as TLV where they are not TLV,
/// else with the reason the element is not the message.
pub open spec fn refused_as<T, U>(r: Result<T, InvokeError>, bytes: Seq<u8>, read: spec_fn(ElementView) -> Result<U, Seq<char>>, view: spec_fn(T) -> U) -> bool {
    match decoding(bytes) {
        Err(f) => r matches Err(InvokeError::Tlv(e)) && e.reports(f),
        Ok(message) => match read(message) {
            Ok(v) => r matches Ok(x) && view(x) == v,
            Err(t) => r matches Err(InvokeError::Shape(s)) && s@ == t,
        },
    }
}

/// A refusal for the layout of the message.
fn shape(reason: String) -> (e: InvokeError)
    ensures
        e matches InvokeError::Shape(s) && s@ == reason@,
{
    InvokeError::Shape(reason)
}

/// The unsigned member under context tag `tag`, no more than `max`.
fn bounded_member(parent: &Element, tag: u8, what: &str, max: u64) -> (r: Result<u64, String>)
    ensures
        same_shape(r, bounded(parent@, tag, what@, max), |v: u64| v),
{
    let value = match parent.member(tag) {
        Some(m) => m.as_unsigned(),
        None => None,
    };
    match value {
        None => Err(joined(what, " is missing or not an unsigned integer")),
        Some(v) => if v <= max {
            Ok(v)
        } else {
            let mut reason = joined(what, " ");
            push_decimal(&mut reason, v);
            reason.append(" is out of range");
            Err(reason)
        },
    }
}

/// The command path under tag 0.
fn read_command_path(parent: &Element) -> (r: Result<CommandPath, String>)
    ensures
        same_shape(r, path_from(parent@), |p: CommandPath| p),
{
    let path = match parent.member(0) {
        Some(p) => p,
        None => return Err(String::from_str("a CommandPath is missing")),
    };
    let endpoint = match bounded_member(path, 0, "EndpointId", 0xFFFF) {
        Ok(v) => v,
        Err(e) => return Err(e),
    };
    let cluster = match bounded_member(path, 1, "ClusterId", 0xFFFF_FFFF) {
        Ok(v) => v,
        Err(e) => return Err(e),
    };
    let command = match bounded_member(path, 2, "CommandId", 0xFFFF_FFFF) {
        Ok(v) => v,
        Err(e) => return Err(e),
    };
    Ok(CommandPath { endpoint: endpoint as u16, cluster: cluster as u32, command: command as u32 })
}

/// The command reference under tag 2, where there is one.
fn optional_ref(parent: &Element) -> (r: Result<Option<u16>, String>)
    ensures
        same_shape(r, reference_from(parent@), |c: Option<u16>| c),
{
    match parent.member(2) {
        None => Ok(None),
        Some(_) => match bounded_member(parent, 2, "CommandRef", 0xFFFF) {
            Ok(v) => Ok(Some(v as u16)),
            Err(e) => Err(e),
        },
    }
}

/// A command: its fields, its path, its reference.
fn read_command_data(element: &Element) -> (r: Result<CommandData, String>)
    ensures
        same_shape(r, command_from(element@), |c: CommandData| c@),
{
    let fields = match element.member(1) {
        Some(f) => match &f.value {
            Value::Structure(_) => Some(Element::new(Tag::Anonymous, copy_value(&f.value))),
            _ => return Err(String::from_str("CommandFields is not a structure")),
        },
        None => None,
    };
    assert(fields_from(element@) == Ok::<Option<ElementView>, Seq<char>>(
        match fields {
            Some(f) => Some(element_view(f)),
            None => None,
        },
    ));
    let path = match read_command_path(element) {
        Ok(p) => p,
        Err(e) => return Err(e),
    };
    let command_ref = match optional_ref(element) {
        Ok(c) => c,
        Err(e) => return Err(e),
    };
    Ok(CommandData { path, fields, command_ref })
}

/// The cluster status under tag 1, where there is one.
fn cluster_status(status: &Element) -> (r: Result<Option<u8>, String>)
    ensures
        same_shape(r, cluster_status_from(status@), |c: Option<u8>| c),
{
    match status.member(1) {
        None => Ok(None),
        Some(_) => match bounded_member(status, 1, "ClusterStatus", 0xFF) {
            Ok(v) => Ok(Some(v as u8)),
            Err(e) => Err(e),
        },
    }
}

/// An answer: a command under tag 0, else a command status under tag 1.
fn read_answer(element: &Element) -> (r: Result<Answer, String>)
    ensures
        same_shape(r, answer_from(element@), |a: Answer| a@),
{
    if let Some(command) = element.member(0) {
        return match read_command_data(command) {
            Ok(c) => Ok(Answer::Command(c)),
            Err(e) => Err(e),
        };
    }
    let status_ib = match element.member(1) {
        Some(s) => s,
        None => return Err(String::from_str("an InvokeResponse is neither a Command nor a Status")),
    };
    let status = match status_ib.member(1) {
        Some(s) => s,
        None => return Err(String::from_str("a CommandStatus has no Status")),
    };
    let path = match read_command_path(status_ib) {
        Ok(p) => p,
        Err(e) => return Err(e),
    };
    let general = match bounded_member(status, 0, "Status", 0xFF) {
        Ok(v) => v,
        Err(e) => return Err(e),
    };
    let cluster = match cluster_status(status) {
        Ok(c) => c,
        Err(e) => return Err(e),
    };
    let command_ref = match optional_ref(status_ib) {
        Ok(c) => c,
        Err(e) => return Err(e),
    };
    Ok(Answer::Status { path, status: Status { general: general as u8, cluster }, command_ref })
}

/// The boolean under tag `tag`; false where there is none.
fn flag(message: &Element, tag: u8) -> (b: bool)
    ensures
        b == flag_of(message@, tag),
{
    match message.member(tag) {
        Some(m) => match m.as_bool() {
            Some(b) => b,
            None => false,
        },
        None => false,
    }
}

/// The InteractionModelRevision, a byte.
fn revision(message: &Element) -> (r: Result<u8, String>)
    ensures
        same_shape(r, revision_from(message@), |v: u8| v),
{
    let value = match message.member(REVISION_TAG) {
        Some(m) => m.as_unsigned(),
        None => None,
    };
    match value {
        None => Err(String::from_str("the message carries no InteractionModelRevision")),
        Some(v) => if v <= 0xFF {
            Ok(v as u8)
        } else {
            let mut reason = String::from_str("revision ");
            push_decimal(&mut reason, v);
            reason.append(" is not a byte");
            Err(reason)
        },
    }
}

/// The members of the container under tag `tag`, where there is one.
fn container<'a>(message: &'a Element, tag: u8) -> (r: Option<&'a [Element]>)
    ensures
        match r {
            Some(s) => container_under(message@, tag) == Some(s@.map_values(|e: Element| e@)),
            None => container_under(message@, tag) is None,
        },
{
    match message.member(tag) {
        Some(m) => {
            let r = m.members();
            proof {
                if let Some(s) = r {
                    let held = crate::tlv::held_members(m.value);
                    assert(members_of(m@.value) == Some(s@.map_values(|e: Element| e@))) by {
                        match m.value {
                            Value::Structure(v) => assert(members_view(v) =~= s@.map_values(|e: Element| e@)),
                            Value::Array(v) => assert(members_view(v) =~= s@.map_values(|e: Element| e@)),
                            Value::List(v) => assert(members_view(v) =~= s@.map_values(|e: Element| e@)),
                            _ => {},
                        }
                    }
                }
            }
            r
        },
        None => None,
    }
}

impl InvokeRequest {
    /// The message the bytes hold.
    ///
    /// Refused where the bytes are not TLV, or not an invoke request.
    pub fn decode(bytes: &[u8]) -> (r: Result<InvokeRequest, InvokeError>)
        ensures
            refused_as(r, bytes@, |m: ElementView| request_from(m), |x: InvokeRequest| x@),
    {
        let message = match decode(bytes) {
            Ok(m) => m,
            Err(e) => return Err(InvokeError::from(e)),
        };
        let items = match container(&message, 2) {
            Some(items) => items,
            None => return Err(shape(String::from_str("the invoke request has no InvokeRequests"))),
        };
        let ghost all = items@.map_values(|e: Element| e@);
        let mut commands: Vec<CommandData> = Vec::new();
        let mut i: usize = 0;
        assert(all.take(0) =~= Seq::<ElementView>::empty());
        assert(commands@.map_values(|c: CommandData| c@) =~= Seq::empty());
        while i < items.len()
            invariant
                i <= items@.len(),
                all == items@.map_values(|e: Element| e@),
                decoding(bytes@) == Ok::<ElementView, Refused>(message@),
                container_under(message@, 2) == Some(all),
                commands_from(all.take(i as int)) == Ok::<Seq<CommandDataView>, Seq<char>>(
                    commands@.map_values(|c: CommandData| c@),
                ),
            decreases items@.len() - i,
        {
            assert(all.take(i + 1).drop_last() =~= all.take(i as int));
            assert(all.take(i + 1).last() == items@[i as int]@);
            let command = match read_command_data(&items[i]) {
                Ok(c) => c,
                Err(e) => {
                    proof {
                        lemma_commands_error_stays(all, (i + 1) as int);
                    }
                    return Err(shape(e));
                },
            };
            let ghost before = commands@;
            commands.push(command);
            assert(commands@.map_values(|c: CommandData| c@) =~= before.map_values(|c: CommandData| c@).push(command@));
            i = i + 1;
        }
        assert(all.take(i as int) =~= all);
        let revision = match revision(&message) {
            Ok(r) => r,
            Err(e) => return Err(shape(e)),
        };
        Ok(InvokeRequest {
            suppress_response: flag(&message, 0),
            timed_request: flag(&message, 1),
            commands,
            revision,
        })
    }
}

impl InvokeResponse {
    /// The message the bytes hold.
    ///
    /// Refused where the bytes are not TLV, or not an invoke response.
    pub fn decode(bytes: &[u8]) -> (r: Result<InvokeResponse, InvokeError>)
        ensures
            refused_as(r, bytes@, |m: ElementView| response_from(m), |x: InvokeResponse| x@),
    {
        let message = match decode(bytes) {
            Ok(m) => m,
            Err(e) => return Err(InvokeError::from(e)),
        };
        let items = match container(&message, 1) {
            Some(items) => items,
            None => return Err(shape(String::from_str("the invoke response has no InvokeResponses"))),
        };
        let ghost all = items@.map_values(|e: Element| e@);
        let mut answers: Vec<Answer> = Vec::new();
        let mut i: usize = 0;
        assert(all.take(0) =~= Seq::<ElementView>::empty());
        assert(answers@.map_values(|a: Answer| a@) =~= Seq::empty());
        while i < items.len()
            invariant
                i <= items@.len(),
                all == items@.map_values(|e: Element| e@),
                decoding(bytes@) == Ok::<ElementView, Refused>(message@),
                container_under(message@, 1) == Some(all),
                answers_from(all.take(i as int)) == Ok::<Seq<AnswerView>, Seq<char>>(
                    answers@.map_values(|a: Answer| a@),
                ),
            decreases items@.len() - i,
        {
            assert(all.take(i + 1).drop_last() =~= all.take(i as int));
            assert(all.take(i + 1).last() == items@[i as int]@);
            let answer = match read_answer(&items[i]) {
                Ok(a) => a,
                Err(e) => {
                    proof {
                        lemma_answers_error_stays(all, (i + 1) as int);
                    }
                    return Err(shape(e));
                },
            };
            let ghost before = answers@;
            answers.push(answer);
            assert(answers@.map_values(|a: Answer| a@) =~= before.map_values(|a: Answer| a@).push(answer@));
            i = i + 1;
        }
        assert(all.take(i as int) =~= all);
        let revision = match revision(&message) {
            Ok(r) => r,
            Err(e) => return Err(shape(e)),
        };
        Ok(InvokeResponse { suppress_response: flag(&message, 0), answers, revision })
    }
}

/// Once a prefix of the items is refused, so are all of them, for the same
/// reason.
pub proof fn lemma_commands_error_stays(items: Seq<ElementView>, n: int)
    requires
        0 <= n <= items.len(),
        commands_from(items.take(n)) is Err,
    ensures
        commands_from(items) == commands_from(items.take(n)),
    decreases items.len() - n,
{
    if n < items.len() {
        assert(items.take(n + 1).drop_last() =~= items.take(n));
        lemma_commands_error_stays(items, n + 1);
    } else {
        assert(items.take(n) =~= items);
    }
}

/// Once a prefix of the items is refused, so are all of them, for the same
/// reason.
pub proof fn lemma_answers_error_stays(items: Seq<ElementView>, n: int)
    requires
        0 <= n <= items.len(),
        answers_from(items.take(n)) is Err,
    ensures
        answers_from(items) == answers_from(items.take(n)),
    decreases items.len() - n,
{
    if n < items.len() {
        assert(items.take(n + 1).drop_last() =~= items.take(n));
        lemma_answers_error_stays(items, n + 1);
    } else {
        assert(items.take(n) =~= items);
    }
}

/// How a TLV refusal reads: the reason, then the offset.
pub open spec fn tlv_error_text(refused: Refused) -> Seq<char> {
    crate::tlv::layout::reason(refused.refusal) + " at offset "@ + crate::text::decimal(refused.offset as nat)
}

/// The reason `read` refuses the bytes, where it does: as TLV where they are
/// not TLV, else the reason the element is not the message.
pub open spec fn refusal_text<U>(bytes: Seq<u8>, read: spec_fn(ElementView) -> Result<U, Seq<char>>) -> Option<Seq<char>> {
    match decoding(bytes) {
        Err(f) => Some("not TLV: "@ + tlv_error_text(f)),
        Ok(message) => match read(message) {
            Ok(_) => None,
            Err(t) => Some(t),
        },
    }
}

impl InvokeError {
    /// The error as text.
    pub fn to_string(&self) -> (s: String)
        ensures
            s@ == match self {
                InvokeError::Tlv(e) => "not TLV: "@ + e.reason@ + " at offset "@ + crate::text::decimal(e.offset as nat),
                InvokeError::Shape(reason) => reason@,
            },
    {
        match self {
            InvokeError::Tlv(e) => {
                let mut s = String::from_str("not TLV: ");
                let text = e.to_string();
                s.append(text.as_str());
                s
            },
            InvokeError::Shape(reason) => reason.clone(),
        }
    }
}

} // verus!
