//! The Matter logic technology.
//!
//! Matter's Interaction Model names an operation as an endpoint, a cluster and
//! a command, and types the arguments with the cluster's own data model in
//! TLV. An invoke request arrives as TLV; its command path becomes the
//! operation (the cluster's name or hex id as the service, the command's as
//! the name, the endpoint as a parameter) and its command fields become the
//! arguments, still TLV, under `application/vnd.matter.tlv`. A result goes
//! back as a response command carrying fields, or as a success status when it
//! carries none; a fault goes back as a general status, with the cluster's
//! own status where the cluster has one. One invocation is one command: a
//! request carrying several is refused rather than half-read.
//!
//! [`tlv`] is the codec, [`invoke`] the two messages over it, [`naming`] the
//! names of clusters, commands and statuses. [`Matter`] decides what each
//! message becomes; the transport that carries the bytes (the session, the
//! exchange, the protocol opcode named in a `matter-opcode` header) is the
//! node's to give.

pub mod text;
pub mod tlv;
pub mod invoke;
pub mod naming;
pub mod laws;
pub mod names;

use vstd::prelude::*;
use crate::text::{decimal, same_text, push_decimal};
use crate::tlv::{Element, ElementView, Value, ValueView, encode, decode};
use crate::tlv::layout::{encoding, decoding, Refused};
use crate::invoke::{
    Answer,
    CommandData,
    CommandPath,
    InvokeRequest,
    InvokeResponse,
    Status,
    INTERACTION_MODEL_REVISION,
    tlv_error_text,
};
use crate::invoke::messages::{
    AnswerView,
    CommandDataView,
    RequestView,
    ResponseView,
    request_message,
    response_message,
};
use crate::invoke::reading::{request_from, response_from};
use crate::naming::{
    cluster_text,
    command_text,
    cluster_by_name,
    command_by_name,
    id_of,
    parsed,
    status_by_name,
    cluster_name,
    command_name,
    cluster_named_by,
    command_named_by,
    parse_id,
    parse_number,
    known_status,
    status_named_by,
    status_text,
};

verus! {

/// The media type of TLV bytes: a message, the arguments, a result.
pub const MEDIA_TYPE: &'static str = "application/vnd.matter.tlv";

/// The header naming the Interaction Model opcode a message travels under.
pub const OPCODE_HEADER: &'static str = "matter-opcode";

/// The opcode of an invoke request.
pub const INVOKE_REQUEST_OPCODE: &'static str = "8";

/// The opcode of an invoke response.
pub const INVOKE_RESPONSE_OPCODE: &'static str = "9";

/// The Matter technology.
pub struct Matter;

/// A header or a parameter: a name and its value.
#[derive(Clone, Debug, PartialEq, Eq)]
pub struct Header {
    pub name: String,
    pub value: String,
}

impl View for Header {
    type V = (Seq<char>, Seq<char>);

    open spec fn view(&self) -> (Seq<char>, Seq<char>) {
        (self.name@, self.value@)
    }
}

impl Header {
    pub fn new(name: &str, value: &str) -> (h: Header)
        ensures
            h@ == (name@, value@),
    {
        Header { name: String::from_str(name), value: String::from_str(value) }
    }
}

/// Bytes and the media type they are written in, under the id the node
/// knows the stream by.
#[derive(Clone, Debug, PartialEq, Eq)]
pub struct Stream<I> {
    pub id: I,
    pub bytes: Vec<u8>,
    pub media_type: Option<String>,
}

impl<I: Copy> Stream<I> {
    pub fn new(id: I, bytes: Vec<u8>, media_type: Option<String>) -> (s: Stream<I>)
        ensures
            s.id == id,
            s.bytes == bytes,
            s.media_type == media_type,
    {
        Stream { id, bytes, media_type }
    }

    /// The id the node knows the stream by.
    pub fn id(&self) -> (r: I)
        ensures
            r == self.id,
    {
        self.id
    }

    /// The bytes.
    pub fn bytes(&self) -> (r: &[u8])
        ensures
            r@ == self.bytes@,
    {
        self.bytes.as_slice()
    }

    /// Whether there are no bytes.
    pub fn is_empty(&self) -> (r: bool)
        ensures
            r == (self.bytes@.len() == 0),
    {
        self.bytes.len() == 0
    }

    /// The media type, where there is one.
    pub fn media_type(&self) -> (r: Option<&str>)
        ensures
            match r {
                Some(t) => self.media_type matches Some(m) && t@ == m@,
                None => self.media_type is None,
            },
    {
        match &self.media_type {
            Some(m) => Some(m.as_str()),
            None => None,
        }
    }
}

/// Bytes as TLV: the media type is this technology's.
pub open spec fn is_tlv<I>(stream: Stream<I>) -> bool {
    stream.media_type matches Some(m) && m@ == MEDIA_TYPE@
}

/// TLV bytes under the id `id`.
fn tlv_stream<I: Copy>(id: I, bytes: Vec<u8>) -> (s: Stream<I>)
    ensures
        s.id == id,
        s.bytes == bytes,
        is_tlv(s),
{
    Stream { id, bytes, media_type: Some(String::from_str(MEDIA_TYPE)) }
}

/// An operation: the service that offers it and its name.
#[derive(Clone, Debug, PartialEq, Eq)]
pub struct OperationName {
    pub service: String,
    pub name: String,
}

impl OperationName {
    pub fn new(service: &str, name: &str) -> (o: OperationName)
        ensures
            o.service@ == service@,
            o.name@ == name@,
    {
        OperationName { service: String::from_str(service), name: String::from_str(name) }
    }
}

/// A call of an operation: its arguments and its parameters.
#[derive(Clone, Debug, PartialEq, Eq)]
pub struct Invocation<I> {
    pub operation: OperationName,
    pub arguments: Stream<I>,
    pub parameters: Vec<Header>,
}

/// A message as it arrives: where to, how, its headers and its body.
pub struct Arrival<'a, I> {
    pub target: &'a str,
    pub method: &'a str,
    pub headers: &'a [Header],
    pub body: &'a Stream<I>,
}

/// A failure as the estate reports one.
#[derive(Clone, Debug, PartialEq, Eq)]
pub struct Fault {
    pub message: String,
    pub code: String,
}

/// What an invocation came to: a result, or a fault.
#[derive(Clone, Debug, PartialEq, Eq)]
pub enum Outcome<I> {
    Result(Stream<I>),
    Fault(Fault),
}

/// A message going back: its headers and its body.
#[derive(Clone, Debug, PartialEq, Eq)]
pub struct Reply<I> {
    pub headers: Vec<Header>,
    pub body: Stream<I>,
}

/// A message going out: where to, how, its headers and its body.
#[derive(Clone, Debug, PartialEq, Eq)]
pub struct Request<I> {
    pub target: String,
    pub method: String,
    pub headers: Vec<Header>,
    pub body: Stream<I>,
}

/// Why a message cannot become what it was asked to become.
#[derive(Clone, Debug, PartialEq, Eq)]
pub struct LogicError {
    pub message: String,
}

impl LogicError {
    pub fn new(message: String) -> (e: LogicError)
        ensures
            e.message@ == message@,
    {
        LogicError { message }
    }

    /// The error as text.
    pub fn to_string(&self) -> (s: String)
        ensures
            s@ == self.message@,
    {
        self.message.clone()
    }
}

/// An invocation as a value.
pub struct InvocationView {
    pub service: Seq<char>,
    pub name: Seq<char>,
    pub arguments: Seq<u8>,
    pub parameters: Seq<(Seq<char>, Seq<char>)>,
}

impl<I> View for Invocation<I> {
    type V = InvocationView;

    open spec fn view(&self) -> InvocationView {
        InvocationView {
            service: self.operation.service@,
            name: self.operation.name@,
            arguments: self.arguments.bytes@,
            parameters: self.parameters@.map_values(|h: Header| h@),
        }
    }
}

/// What an invocation came to, as a value.
pub enum OutcomeView {
    Result(Seq<u8>),
    Fault { message: Seq<char>, code: Seq<char> },
}

impl<I> View for Outcome<I> {
    type V = OutcomeView;

    open spec fn view(&self) -> OutcomeView {
        match self {
            Outcome::Result(stream) => OutcomeView::Result(stream.bytes@),
            Outcome::Fault(fault) => OutcomeView::Fault { message: fault.message@, code: fault.code@ },
        }
    }
}

/// The text `format!("{:?}", text)` writes for a `str`: the text quoted, with
/// the characters `Debug` escapes escaped.
pub uninterp spec fn debug_quoted(text: Seq<char>) -> Seq<char>;

/// `<str as Debug>::fmt` through `format!`: the text as `{:?}` writes it.
/// Nothing is claimed of its characters but that they depend on the text
/// alone.
#[verifier::external_body]
fn quoted(text: &str) -> (s: String)
    ensures
        s@ == debug_quoted(text@),
{
    format!("{:?}", text)
}

/// The value of the first parameter named `name`.
pub open spec fn first_parameter(parameters: Seq<(Seq<char>, Seq<char>)>, name: Seq<char>) -> Option<Seq<char>>
    decreases parameters.len(),
{
    if parameters.len() == 0 {
        None
    } else if parameters[0].0 == name {
        Some(parameters[0].1)
    } else {
        first_parameter(parameters.drop_first(), name)
    }
}

/// The value of the invocation's first parameter named `name`.
fn parameter<'a, I>(invocation: &'a Invocation<I>, name: &str) -> (r: Option<&'a str>)
    ensures
        match r {
            Some(v) => first_parameter(invocation@.parameters, name@) == Some(v@),
            None => first_parameter(invocation@.parameters, name@) is None,
        },
{
    let ghost all = invocation@.parameters;
    let mut i: usize = 0;
    assert(all.skip(0) =~= all);
    while i < invocation.parameters.len()
        invariant
            i <= invocation.parameters@.len(),
            all == invocation@.parameters,
            all.len() == invocation.parameters@.len(),
            first_parameter(all, name@) == first_parameter(all.skip(i as int), name@),
        decreases invocation.parameters@.len() - i,
    {
        assert(all.skip(i as int).drop_first() =~= all.skip(i + 1));
        assert(all.skip(i as int)[0] == invocation.parameters@[i as int]@);
        if same_text(invocation.parameters[i].name.as_str(), name) {
            return Some(invocation.parameters[i].value.as_str());
        }
        i = i + 1;
    }
    assert(all.skip(i as int) =~= Seq::<(Seq<char>, Seq<char>)>::empty());
    None
}

/// The cluster a name names: by this technology's name, else as `0x1F` or
/// `31`.
pub open spec fn cluster_id_of(name: Seq<char>) -> Result<u32, Seq<char>> {
    match cluster_by_name(name) {
        Some(id) => Ok(id),
        None => match id_of(name) {
            Some(id) => Ok(id),
            None => Err(debug_quoted(name) + " is not a cluster this node knows"@),
        },
    }
}

/// The command of `cluster` a name names: by this technology's name, else as
/// a number.
pub open spec fn command_id_of(cluster: u32, name: Seq<char>) -> Result<u32, Seq<char>> {
    match command_by_name(cluster, name) {
        Some(id) => Ok(id),
        None => match id_of(name) {
            Some(id) => Ok(id),
            None => Err(debug_quoted(name) + " is not a command of cluster "@ + cluster_text(cluster)),
        },
    }
}

/// The command path an invocation names: the operation and its `endpoint`.
pub open spec fn path_of_invocation(invocation: InvocationView) -> Result<CommandPath, Seq<char>> {
    match first_parameter(invocation.parameters, "endpoint"@) {
        None => Err("the invocation names no endpoint"@),
        Some(text) => match parsed(text, 10, 0xFFFF) {
            None => Err("endpoint "@ + debug_quoted(text) + " is not a number"@),
            Some(endpoint) => match cluster_id_of(invocation.service) {
                Err(e) => Err(e),
                Ok(cluster) => match command_id_of(cluster, invocation.name) {
                    Err(e) => Err(e),
                    Ok(command) => Ok(CommandPath { endpoint: endpoint as u16, cluster, command }),
                },
            },
        },
    }
}

/// The command reference an invocation carries, where it carries a number.
pub open spec fn command_ref_of(invocation: InvocationView) -> Option<u16> {
    match first_parameter(invocation.parameters, "command-ref"@) {
        Some(text) => match parsed(text, 10, 0xFFFF) {
            Some(r) => Some(r as u16),
            None => None,
        },
        None => None,
    }
}

/// Whether the invocation's parameter `name` is `true`.
pub open spec fn switched_on(invocation: InvocationView, name: Seq<char>) -> bool {
    first_parameter(invocation.parameters, name) == Some("true"@)
}

/// The parameters an arriving command carries: its endpoint, its reference
/// where it has one, and the request's timing and answer flags where set.
pub open spec fn parameters_of_command(command: CommandDataView, request: RequestView) -> Seq<(Seq<char>, Seq<char>)> {
    seq![("endpoint"@, decimal(command.path.endpoint as nat))] + match command.command_ref {
        Some(r) => seq![("command-ref"@, decimal(r as nat))],
        None => seq![],
    } + if request.timed_request {
        seq![("timed-request"@, "true"@)]
    } else {
        seq![]
    } + if request.suppress_response {
        seq![("suppress-response"@, "true"@)]
    } else {
        seq![]
    }
}

/// Command fields as bytes: the structure's encoding, or none.
pub open spec fn fields_bytes(fields: Option<ElementView>) -> Seq<u8> {
    match fields {
        Some(f) => encoding(f),
        None => seq![],
    }
}

/// Bytes as command fields: none where there are no bytes, else a TLV
/// structure.
pub open spec fn fields_from_bytes(bytes: Seq<u8>) -> Result<Option<ElementView>, Seq<char>> {
    if bytes.len() == 0 {
        Ok(None)
    } else {
        match decoding(bytes) {
            Err(f) => Err("the fields are not TLV: "@ + tlv_error_text(f)),
            Ok(e) => match e.value {
                ValueView::Structure(_) => Ok(Some(e)),
                _ => Err("the fields are not a TLV structure"@),
            },
        }
    }
}

/// A cluster status after a slash, or nothing.
pub open spec fn cluster_status_text(cluster: Option<u8>) -> Seq<char> {
    match cluster {
        Some(c) => "/0x"@ + crate::text::hex(c as nat, 2),
        None => seq![],
    }
}

/// The code of the fault a status becomes.
pub open spec fn fault_code(status: Status) -> Seq<char> {
    status_text(status.general) + cluster_status_text(status.cluster)
}

/// Where the first `/` stands in `text`.
pub open spec fn first_slash(text: Seq<char>) -> Option<int>
    decreases text.len(),
{
    if text.len() == 0 {
        None
    } else if text[0] == '/' {
        Some(0)
    } else {
        match first_slash(text.drop_first()) {
            Some(k) => Some(k + 1),
            None => None,
        }
    }
}

/// A number no wider than a byte, written as `0x1F` or `31`.
pub open spec fn byte_of(text: Seq<char>) -> Option<u8> {
    match id_of(text) {
        Some(id) => if id <= 0xFF {
            Some(id as u8)
        } else {
            None
        },
        None => None,
    }
}

/// The general status a fault code names: by name, else as a number that
/// fits a byte.
pub open spec fn general_of(text: Seq<char>) -> Result<u8, Seq<char>> {
    match status_by_name(text) {
        Some(g) => Ok(g),
        None => match byte_of(text) {
            Some(g) => Ok(g),
            None => Err(debug_quoted(text) + " is not a Matter status"@),
        },
    }
}

/// The status a fault goes back as: the general status before the first `/`,
/// the cluster status after it.
pub open spec fn status_of_code(code: Seq<char>) -> Result<Status, Seq<char>> {
    match first_slash(code) {
        None => match general_of(code) {
            Err(e) => Err(e),
            Ok(general) => Ok(Status { general, cluster: None }),
        },
        Some(k) => match general_of(code.take(k)) {
            Err(e) => Err(e),
            Ok(general) => match byte_of(code.skip(k + 1)) {
                None => Err(debug_quoted(code.skip(k + 1)) + " is not a cluster status"@),
                Some(cluster) => Ok(Status { general, cluster: Some(cluster) }),
            },
        },
    }
}

/// The headers a message travels under: its media type and its opcode.
pub open spec fn message_headers(opcode: Seq<char>) -> Seq<(Seq<char>, Seq<char>)> {
    seq![("content-type"@, MEDIA_TYPE@), (OPCODE_HEADER@, opcode)]
}

/// The invocation a one-command request becomes: the command's cluster and
/// command as the operation, its fields as the arguments, its endpoint and
/// reference and the request's flags as parameters.
pub open spec fn arriving_invocation(request: RequestView) -> InvocationView {
    let command = request.commands[0];
    InvocationView {
        service: cluster_text(command.path.cluster),
        name: command_text(command.path.cluster, command.path.command),
        arguments: fields_bytes(command.fields),
        parameters: parameters_of_command(command, request),
    }
}

/// The invocation an invoke request becomes.
pub open spec fn invocation_of_request(bytes: Seq<u8>) -> Result<InvocationView, Seq<char>> {
    match decoding(bytes) {
        Err(f) => Err("not an invoke request: "@ + ("not TLV: "@ + tlv_error_text(f))),
        Ok(message) => match request_from(message) {
            Err(t) => Err("not an invoke request: "@ + t),
            Ok(request) => if request.commands.len() != 1 {
                Err(
                    "the invoke request names "@ + decimal(request.commands.len())
                        + " commands; one invocation is one command"@,
                )
            } else {
                Ok(arriving_invocation(request))
            },
        },
    }
}

/// The answer an outcome goes back as.
pub open spec fn answer_of_outcome(invocation: InvocationView, outcome: OutcomeView) -> Result<AnswerView, Seq<char>> {
    match path_of_invocation(invocation) {
        Err(e) => Err(e),
        Ok(path) => match outcome {
            OutcomeView::Result(bytes) => match fields_from_bytes(bytes) {
                Err(e) => Err(e),
                Ok(Some(fields)) => Ok(
                    AnswerView::Command(
                        CommandDataView { path, fields: Some(fields), command_ref: command_ref_of(invocation) },
                    ),
                ),
                Ok(None) => Ok(
                    AnswerView::Status {
                        path,
                        status: Status { general: 0, cluster: None },
                        command_ref: command_ref_of(invocation),
                    },
                ),
            },
            OutcomeView::Fault { code, .. } => match status_of_code(code) {
                Err(e) => Err(e),
                Ok(status) => Ok(AnswerView::Status { path, status, command_ref: command_ref_of(invocation) }),
            },
        },
    }
}

/// The response that carries one answer.
pub open spec fn response_of(answer: AnswerView) -> ResponseView {
    ResponseView { suppress_response: false, answers: seq![answer], revision: INTERACTION_MODEL_REVISION }
}

/// The request an invocation goes out as.
pub open spec fn request_of_invocation(invocation: InvocationView) -> Result<RequestView, Seq<char>> {
    match path_of_invocation(invocation) {
        Err(e) => Err(e),
        Ok(path) => match fields_from_bytes(invocation.arguments) {
            Err(e) => Err(e),
            Ok(fields) => Ok(
                RequestView {
                    suppress_response: switched_on(invocation, "suppress-response"@),
                    timed_request: switched_on(invocation, "timed-request"@),
                    commands: seq![CommandDataView { path, fields, command_ref: command_ref_of(invocation) }],
                    revision: INTERACTION_MODEL_REVISION,
                },
            ),
        },
    }
}

/// Where a request goes: endpoint, cluster and command.
pub open spec fn target_of(path: CommandPath) -> Seq<char> {
    decimal(path.endpoint as nat) + "/"@ + cluster_text(path.cluster) + "/"@ + command_text(
        path.cluster,
        path.command,
    )
}

/// What a reply comes to: the fields of a response command, nothing for a
/// success status, a fault for any other status.
pub open spec fn outcome_of_response(bytes: Seq<u8>) -> Result<OutcomeView, Seq<char>> {
    match decoding(bytes) {
        Err(f) => Err("not an invoke response: "@ + ("not TLV: "@ + tlv_error_text(f))),
        Ok(message) => match response_from(message) {
            Err(t) => Err("not an invoke response: "@ + t),
            Ok(response) => if response.answers.len() == 0 {
                Err("the invoke response answers nothing"@)
            } else {
                match response.answers[0] {
                    AnswerView::Command(command) => Ok(OutcomeView::Result(fields_bytes(command.fields))),
                    AnswerView::Status { status, .. } => if status.general == 0 {
                        Ok(OutcomeView::Result(seq![]))
                    } else {
                        Ok(
                            OutcomeView::Fault {
                                message: "Matter status "@ + fault_code(status),
                                code: fault_code(status),
                            },
                        )
                    },
                }
            },
        },
    }
}

/// The exec result `r` is the decision `s`: the same value, or an error
/// whose message is the reason.
pub open spec fn decided<T, U>(r: Result<T, LogicError>, s: Result<U, Seq<char>>, view: spec_fn(T) -> U) -> bool {
    match (r, s) {
        (Ok(x), Ok(y)) => view(x) == y,
        (Err(e), Err(t)) => e.message@ == t,
        _ => false,
    }
}

/// An error whose message is `first` followed by `rest`.
fn error_of(first: &str, rest: &str) -> (e: LogicError)
    ensures
        e.message@ == first@ + rest@,
{
    LogicError::new(crate::text::joined(first, rest))
}

/// The cluster a name names: by this technology's name, else as `0x1F` or
/// `31`.
pub fn cluster_id(name: &str) -> (r: Result<u32, LogicError>)
    ensures
        decided(r, cluster_id_of(name@), |v: u32| v),
{
    if let Some(id) = cluster_named_by(name) {
        return Ok(id);
    }
    if let Some(id) = parse_id(name) {
        return Ok(id);
    }
    let q = quoted(name);
    Err(error_of(q.as_str(), " is not a cluster this node knows"))
}

/// The command of `cluster` a name names: by this technology's name, else
/// as a number.
pub fn command_id(cluster: u32, name: &str) -> (r: Result<u32, LogicError>)
    ensures
        decided(r, command_id_of(cluster, name@), |v: u32| v),
{
    if let Some(id) = command_named_by(cluster, name) {
        return Ok(id);
    }
    if let Some(id) = parse_id(name) {
        return Ok(id);
    }
    let mut message = quoted(name);
    message.append(" is not a command of cluster ");
    let cluster_text = cluster_name(cluster);
    message.append(cluster_text.as_str());
    Err(LogicError::new(message))
}

/// The command path an invocation names: the operation and its `endpoint`.
fn path_of<I>(invocation: &Invocation<I>) -> (r: Result<CommandPath, LogicError>)
    ensures
        decided(r, path_of_invocation(invocation@), |p: CommandPath| p),
{
    let endpoint = match parameter(invocation, "endpoint") {
        Some(e) => e,
        None => return Err(LogicError::new(String::from_str("the invocation names no endpoint"))),
    };
    assert(endpoint@.skip(0) =~= endpoint@);
    let endpoint = match parse_number(endpoint, 0, 10, 0xFFFF) {
        Some(n) => n as u16,
        None => {
            let mut message = String::from_str("endpoint ");
            let q = quoted(endpoint);
            message.append(q.as_str());
            message.append(" is not a number");
            return Err(LogicError::new(message));
        },
    };
    let cluster = match cluster_id(invocation.operation.service.as_str()) {
        Ok(c) => c,
        Err(e) => return Err(e),
    };
    let command = match command_id(cluster, invocation.operation.name.as_str()) {
        Ok(c) => c,
        Err(e) => return Err(e),
    };
    Ok(CommandPath { endpoint, cluster, command })
}

/// The command reference an invocation carries, where it carries a number.
fn command_ref<I>(invocation: &Invocation<I>) -> (r: Option<u16>)
    ensures
        r == command_ref_of(invocation@),
{
    match parameter(invocation, "command-ref") {
        Some(text) => {
            assert(text@.skip(0) =~= text@);
            match parse_number(text, 0, 10, 0xFFFF) {
                Some(n) => Some(n as u16),
                None => None,
            }
        },
        None => None,
    }
}

/// Whether the invocation's parameter `name` is `true`.
fn switched<I>(invocation: &Invocation<I>, name: &str) -> (b: bool)
    ensures
        b == switched_on(invocation@, name@),
{
    match parameter(invocation, name) {
        Some(v) => same_text(v, "true"),
        None => false,
    }
}

/// `name` and a number in decimal.
fn numbered(name: &str, n: u64) -> (h: Header)
    ensures
        h@ == (name@, decimal(n as nat)),
{
    Header { name: String::from_str(name), value: crate::text::decimal_text(n) }
}

/// The parameters an arriving command carries.
fn parameters_of(command: &CommandData, request: &InvokeRequest) -> (r: Vec<Header>)
    requires
        request@.commands.len() > 0,
        request@.commands[0] == command@,
    ensures
        r@.map_values(|h: Header| h@) == parameters_of_command(command@, request@),
{
    let mut parameters: Vec<Header> = Vec::new();
    parameters.push(numbered("endpoint", command.path.endpoint as u64));
    if let Some(command_ref) = command.command_ref {
        parameters.push(numbered("command-ref", command_ref as u64));
    }
    if request.timed_request {
        parameters.push(Header::new("timed-request", "true"));
    }
    if request.suppress_response {
        parameters.push(Header::new("suppress-response", "true"));
    }
    assert(parameters@.map_values(|h: Header| h@) =~= parameters_of_command(command@, request@));
    parameters
}

/// Command fields as a TLV stream under the id `id`: the structure's bytes,
/// or none.
fn stream_of<I: Copy>(id: I, fields: &Option<Element>) -> (r: Stream<I>)
    ensures
        r.id == id,
        is_tlv(r),
        r.bytes@ == fields_bytes(
            match fields {
                Some(f) => Some(f@),
                None => None,
            },
        ),
{
    let bytes = match fields {
        Some(f) => encode(f),
        None => {
            let v: Vec<u8> = Vec::new();
            assert(v@ =~= Seq::<u8>::empty());
            v
        },
    };
    tlv_stream(id, bytes)
}

/// Bytes as command fields: none when there are none, else a TLV structure.
fn fields_of(bytes: &[u8]) -> (r: Result<Option<Element>, LogicError>)
    ensures
        decided(
            r,
            fields_from_bytes(bytes@),
            |f: Option<Element>|
                match f {
                    Some(e) => Some(e@),
                    None => None,
                },
        ),
{
    if bytes.len() == 0 {
        return Ok(None);
    }
    let fields = match decode(bytes) {
        Ok(f) => f,
        Err(error) => {
            let text = error.to_string();
            return Err(error_of("the fields are not TLV: ", text.as_str()));
        },
    };
    match fields.value {
        Value::Structure(_) => Ok(Some(fields)),
        _ => Err(LogicError::new(String::from_str("the fields are not a TLV structure"))),
    }
}

/// A status as the estate's fault: the general status by name or hex, and
/// the cluster status after a slash where there is one.
pub fn fault_of(status: Status) -> (f: Fault)
    ensures
        f.code@ == fault_code(status),
        f.message@ == "Matter status "@ + fault_code(status),
{
    let mut code = match known_status(status.general) {
        Some(name) => String::from_str(name),
        None => {
            let mut s = String::from_str("0x");
            crate::text::push_hex(&mut s, status.general as u64, 2);
            s
        },
    };
    if let Some(cluster) = status.cluster {
        code.append("/0x");
        crate::text::push_hex(&mut code, cluster as u64, 2);
    }
    assert(code@ =~= fault_code(status));
    let message = crate::text::joined("Matter status ", code.as_str());
    Fault { message, code }
}

proof fn lemma_first_slash(text: Seq<char>, k: int)
    requires
        0 <= k <= text.len(),
        forall|j: int| 0 <= j < k ==> text[j] != '/',
        k < text.len() ==> text[k] == '/',
    ensures
        first_slash(text) == if k < text.len() { Some(k) } else { None::<int> },
    decreases k,
{
    if k > 0 {
        lemma_first_slash(text.drop_first(), k - 1);
    }
}

/// A number no wider than a byte, written as `0x1F` or `31`.
fn byte_from(text: &str) -> (r: Option<u8>)
    ensures
        r == byte_of(text@),
{
    match parse_id(text) {
        Some(id) => if id <= 0xFF {
            Some(id as u8)
        } else {
            None
        },
        None => None,
    }
}

/// The general status a fault code names.
fn general_from(text: &str) -> (r: Result<u8, LogicError>)
    ensures
        decided(r, general_of(text@), |g: u8| g),
{
    if let Some(g) = status_named_by(text) {
        return Ok(g);
    }
    if let Some(g) = byte_from(text) {
        return Ok(g);
    }
    let q = quoted(text);
    Err(error_of(q.as_str(), " is not a Matter status"))
}

/// The status a fault goes back as.
pub fn status_of(fault: &Fault) -> (r: Result<Status, LogicError>)
    ensures
        decided(r, status_of_code(fault.code@), |s: Status| s),
{
    let code = fault.code.as_str();
    let len = code.unicode_len();
    let mut k: usize = 0;
    while k < len && code.get_char(k) != '/'
        invariant
            k <= len,
            len == code@.len(),
            forall|j: int| 0 <= j < k ==> code@[j] != '/',
        decreases len - k,
    {
        k = k + 1;
    }
    proof {
        lemma_first_slash(code@, k as int);
    }
    if k == len {
        let general = match general_from(code) {
            Ok(g) => g,
            Err(e) => return Err(e),
        };
        return Ok(Status { general, cluster: None });
    }
    let general = match general_from(code.substring_char(0, k)) {
        Ok(g) => g,
        Err(e) => return Err(e),
    };
    let rest = code.substring_char(k + 1, len);
    assert(rest@ =~= code@.skip(k + 1));
    assert(code@.subrange(0, k as int) =~= code@.take(k as int));
    match byte_from(rest) {
        Some(cluster) => Ok(Status { general, cluster: Some(cluster) }),
        None => {
            let q = quoted(rest);
            Err(error_of(q.as_str(), " is not a cluster status"))
        },
    }
}

/// The headers a message travels under: its media type and its opcode.
fn headers(opcode: &str) -> (r: Vec<Header>)
    ensures
        r@.map_values(|h: Header| h@) == message_headers(opcode@),
{
    let r = vec![Header::new("content-type", MEDIA_TYPE), Header::new(OPCODE_HEADER, opcode)];
    assert(r@.map_values(|h: Header| h@) =~= message_headers(opcode@));
    r
}

impl Matter {
    /// The technology's name.
    pub fn technology(&self) -> (s: &'static str)
        ensures
            s@ == "matter"@,
    {
        "matter"
    }

    /// The invocation an invoke request's bytes become: the command's
    /// cluster and command as the operation, its fields as the arguments,
    /// its endpoint and reference and the request's flags as parameters.
    /// Refused where the bytes are not an invoke request, or name other than
    /// one command. The arguments keep the id of the body they came in.
    pub fn invocation<I: Copy>(&self, arrival: &Arrival<I>) -> (r: Result<Invocation<I>, LogicError>)
        ensures
            decided(r, invocation_of_request(arrival.body.bytes@), |i: Invocation<I>| i@),
            r matches Ok(i) ==> is_tlv(i.arguments) && i.arguments.id == arrival.body.id,
    {
        let body = arrival.body.bytes();
        let request = match InvokeRequest::decode(body) {
            Ok(request) => request,
            Err(error) => {
                let text = error.to_string();
                proof {
                    match decoding(body@) {
                        Err(f) => {
                            assert(text@ == "not TLV: "@ + tlv_error_text(f));
                        },
                        Ok(message) => {},
                    }
                }
                return Err(error_of("not an invoke request: ", text.as_str()));
            },
        };
        if request.commands.len() != 1 {
            let mut message = String::from_str("the invoke request names ");
            push_decimal(&mut message, request.commands.len() as u64);
            message.append(" commands; one invocation is one command");
            return Err(LogicError::new(message));
        }
        let command = &request.commands[0];
        let invocation = Invocation {
            operation: OperationName {
                service: cluster_name(command.path.cluster),
                name: command_name(command.path.cluster, command.path.command),
            },
            arguments: stream_of(arrival.body.id(), &command.fields),
            parameters: parameters_of(command, &request),
        };
        Ok(invocation)
    }

    /// The reply an outcome goes back as: a result's fields as a response
    /// command, a result without fields as a success status, a fault as its
    /// status, all on the invocation's command path. The reply's body goes
    /// under the id of the invocation's arguments.
    pub fn reply<I: Copy>(&self, invocation: &Invocation<I>, outcome: &Outcome<I>) -> (r: Result<
        Reply<I>,
        LogicError,
    >)
        ensures
            match answer_of_outcome(invocation@, outcome@) {
                Ok(answer) => r matches Ok(reply) && reply.body.bytes@ == encoding(
                    response_message(response_of(answer)),
                ) && reply.headers@.map_values(|h: Header| h@) == message_headers(
                    INVOKE_RESPONSE_OPCODE@,
                ) && is_tlv(reply.body) && reply.body.id == invocation.arguments.id,
                Err(t) => r matches Err(e) && e.message@ == t,
            },
    {
        let path = match path_of(invocation) {
            Ok(p) => p,
            Err(e) => return Err(e),
        };
        let command_ref = command_ref(invocation);
        let answer = match outcome {
            Outcome::Result(result) => match fields_of(result.bytes()) {
                Err(e) => return Err(e),
                Ok(Some(fields)) => Answer::Command(CommandData { path, fields: Some(fields), command_ref }),
                Ok(None) => Answer::Status { path, status: Status::general(Status::SUCCESS), command_ref },
            },
            Outcome::Fault(fault) => match status_of(fault) {
                Err(e) => return Err(e),
                Ok(status) => Answer::Status { path, status, command_ref },
            },
        };
        let response = InvokeResponse::of(answer);
        Ok(
            Reply {
                headers: headers(INVOKE_RESPONSE_OPCODE),
                body: tlv_stream(invocation.arguments.id(), response.encode()),
            },
        )
    }

    /// The request an invocation goes out as: one command on the path the
    /// invocation names, carrying its arguments as fields, to
    /// `endpoint/cluster/command`, its body under the id of the invocation's
    /// arguments.
    pub fn request<I: Copy>(&self, invocation: &Invocation<I>) -> (r: Result<Request<I>, LogicError>)
        ensures
            match request_of_invocation(invocation@) {
                Ok(request) => r matches Ok(out) && out.body.bytes@ == encoding(request_message(request))
                    && out.target@ == target_of(request.commands[0].path) && out.method@ == "invoke"@
                    && out.headers@.map_values(|h: Header| h@) == message_headers(
                    INVOKE_REQUEST_OPCODE@,
                ) && is_tlv(out.body) && out.body.id == invocation.arguments.id,
                Err(t) => r matches Err(e) && e.message@ == t,
            },
    {
        let path = match path_of(invocation) {
            Ok(p) => p,
            Err(e) => return Err(e),
        };
        let fields = match fields_of(invocation.arguments.bytes()) {
            Ok(f) => f,
            Err(e) => return Err(e),
        };
        let mut request = InvokeRequest::of(CommandData { path, fields, command_ref: command_ref(invocation) });
        request.timed_request = switched(invocation, "timed-request");
        request.suppress_response = switched(invocation, "suppress-response");
        let mut target = crate::text::decimal_text(path.endpoint as u64);
        target.append("/");
        let cluster = cluster_name(path.cluster);
        target.append(cluster.as_str());
        target.append("/");
        let command = command_name(path.cluster, path.command);
        target.append(command.as_str());
        Ok(Request {
            target,
            method: String::from_str("invoke"),
            headers: headers(INVOKE_REQUEST_OPCODE),
            body: tlv_stream(invocation.arguments.id(), request.encode()),
        })
    }

    /// What a reply's bytes come to: the fields of a response command, an
    /// empty result for a success status, a fault for any other status. The
    /// reply's bytes alone decide what it comes to; a result goes under the
    /// id of the invocation's arguments.
    pub fn outcome<I: Copy>(&self, invocation: &Invocation<I>, reply: &Reply<I>) -> (r: Result<
        Outcome<I>,
        LogicError,
    >)
        ensures
            decided(r, outcome_of_response(reply.body.bytes@), |o: Outcome<I>| o@),
            r matches Ok(Outcome::Result(s)) ==> is_tlv(s) && s.id == invocation.arguments.id,
    {
        let body = reply.body.bytes();
        let response = match InvokeResponse::decode(body) {
            Ok(response) => response,
            Err(error) => {
                let text = error.to_string();
                proof {
                    match decoding(body@) {
                        Err(f) => {
                            assert(text@ == "not TLV: "@ + tlv_error_text(f));
                        },
                        Ok(message) => {},
                    }
                }
                return Err(error_of("not an invoke response: ", text.as_str()));
            },
        };
        if response.answers.len() == 0 {
            return Err(LogicError::new(String::from_str("the invoke response answers nothing")));
        }
        match &response.answers[0] {
            Answer::Command(command) => Ok(Outcome::Result(stream_of(invocation.arguments.id(), &command.fields))),
            Answer::Status { status, .. } => if status.is_success() {
                Ok(Outcome::Result(stream_of(invocation.arguments.id(), &None)))
            } else {
                Ok(Outcome::Fault(fault_of(*status)))
            },
        }
    }
}

} // verus!
