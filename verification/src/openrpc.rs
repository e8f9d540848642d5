//! The descriptive parts of the OpenRPC document the server publishes: its
//! info, servers, and the table of methods with their parameters, results
//! and errors.

use vstd::prelude::*;

use crate::strings::owned;

verus! {

/// Title, version and contacts of the API.
#[derive(Debug, Clone, PartialEq, Eq)]
pub struct OpenRpcInfo {
    pub title: String,
    pub description: Option<String>,
    pub version: String,
    pub contact: Option<OpenRpcContact>,
    pub license: Option<OpenRpcLicense>,
}

/// Who maintains the API.
#[derive(Debug, Clone, PartialEq, Eq)]
pub struct OpenRpcContact {
    pub name: Option<String>,
    pub url: Option<String>,
    pub email: Option<String>,
}

/// The license the API is published under.
#[derive(Debug, Clone, PartialEq, Eq)]
pub struct OpenRpcLicense {
    pub name: String,
    pub url: Option<String>,
}

/// A server that offers the API.
#[derive(Debug, Clone, PartialEq, Eq)]
pub struct OpenRpcServer {
    pub name: String,
    pub url: String,
    pub summary: Option<String>,
    pub description: Option<String>,
}

/// One parameter of a method. Its JSON schema, derived from the message
/// types, is not part of this table.
#[derive(Debug, Clone, PartialEq, Eq)]
pub struct OpenRpcParam {
    pub name: String,
    pub description: Option<String>,
    pub required: Option<bool>,
}

/// The result of a method. Its JSON schema is not part of this table.
#[derive(Debug, Clone, PartialEq, Eq)]
pub struct OpenRpcResult {
    pub name: String,
    pub description: Option<String>,
}

/// An error a method may return.
#[derive(Debug, Clone, PartialEq, Eq)]
pub struct OpenRpcError {
    pub code: i32,
    pub message: String,
}

/// A method of the API: name, description, summary, parameters, result and
/// the errors it documents.
#[derive(Debug, Clone, PartialEq, Eq)]
pub struct OpenRpcMethod {
    pub name: String,
    pub description: Option<String>,
    pub summary: Option<String>,
    pub params: Vec<OpenRpcParam>,
    pub result: OpenRpcResult,
    pub errors: Option<Vec<OpenRpcError>>,
}

pub type ParamView = (Seq<char>, Option<Seq<char>>, Option<bool>);

pub type MethodView = (
    Seq<char>,
    Option<Seq<char>>,
    Option<Seq<char>>,
    Seq<ParamView>,
    (Seq<char>, Option<Seq<char>>),
    Option<Seq<(i32, Seq<char>)>>,
);

pub open spec fn opt_view(s: Option<String>) -> Option<Seq<char>> {
    match s {
        Some(t) => Some(t@),
        None => None,
    }
}

impl View for OpenRpcParam {
    type V = ParamView;

    open spec fn view(&self) -> ParamView {
        (self.name@, opt_view(self.description), self.required)
    }
}

impl View for OpenRpcError {
    type V = (i32, Seq<char>);

    open spec fn view(&self) -> (i32, Seq<char>) {
        (self.code, self.message@)
    }
}

impl View for OpenRpcMethod {
    type V = MethodView;

    open spec fn view(&self) -> MethodView {
        (
            self.name@,
            opt_view(self.description),
            opt_view(self.summary),
            self.params@.map_values(|p: OpenRpcParam| p@),
            (self.result.name@, opt_view(self.result.description)),
            match self.errors {
                Some(es) => Some(es@.map_values(|e: OpenRpcError| e@)),
                None => None,
            },
        )
    }
}

fn param(name: &str, description: &str, required: bool) -> (p: OpenRpcParam)
    ensures
        p@ == (name@, Some(description@), Some(required)),
{
    OpenRpcParam { name: owned(name), description: Some(owned(description)), required: Some(required) }
}

fn error(code: i32, message: &str) -> (e: OpenRpcError)
    ensures
        e@ == (code, message@),
{
    OpenRpcError { code, message: owned(message) }
}

fn method(
    name: &str,
    description: &str,
    summary: &str,
    params: Vec<OpenRpcParam>,
    result_name: &str,
    result_description: &str,
    errors: Option<Vec<OpenRpcError>>,
) -> (m: OpenRpcMethod)
    ensures
        m@ == (
            name@,
            Some(description@),
            Some(summary@),
            params@.map_values(|p: OpenRpcParam| p@),
            (result_name@, Some(result_description@)),
            match errors {
                Some(es) => Some(es@.map_values(|e: OpenRpcError| e@)),
                None => None::<Seq<(i32, Seq<char>)>>,
            },
        ),
{
    OpenRpcMethod {
        name: owned(name),
        description: Some(owned(description)),
        summary: Some(owned(summary)),
        params,
        result: OpenRpcResult { name: owned(result_name), description: Some(owned(result_description)) },
        errors,
    }
}

/// The methods of the A2A protocol, as plain values.
pub open spec fn openrpc_methods_spec() -> Seq<MethodView> {
    seq![
        (
            "rpc.discover"@,
            Some("Returns OpenRPC schema document"@),
            Some("OpenRPC discovery"@),
            Seq::<ParamView>::empty(),
            ("schema"@, Some("OpenRPC schema document"@)),
            None::<Seq<(i32, Seq<char>)>>,
        ),
        (
            "task_request"@,
            Some("Request a task from another agent"@),
            Some("Task request"@),
            seq![("agent_id"@, Some("The ID of the requesting agent"@), Some(true)), ("task_type"@, Some("The type of task being requested"@), Some(true)), ("payload"@, Some("Additional data for the task request"@), Some(false))],
            ("task_response"@, Some("The task response from the agent"@)),
            Some(seq![(-32601i32, "Method not found"@), (-32602i32, "Invalid params"@)]),
        ),
        (
            "task_declare"@,
            Some("Declare a task capability to other agents"@),
            Some("Task declaration"@),
            seq![("agent_id"@, Some("The ID of the declaring agent"@), Some(true)), ("tasks"@, Some("List of tasks the agent can fulfill"@), Some(true))],
            ("declaration_result"@, Some("Confirmation of task declaration"@)),
            None::<Seq<(i32, Seq<char>)>>,
        ),
        (
            "agent_discover"@,
            Some("Discover available agents in the network"@),
            Some("Agent discovery"@),
            seq![("filter"@, Some("Optional filter criteria for agent discovery"@), Some(false))],
            ("discovered_agents"@, Some("List of discovered agents"@)),
            None::<Seq<(i32, Seq<char>)>>,
        ),
        (
            "message/send"@,
            Some("Send a message synchronously to an agent"@),
            Some("Send message"@),
            seq![("request"@, Some("Message send request"@), Some(true))],
            ("message_response"@, Some("Response containing task ID and status"@)),
            None::<Seq<(i32, Seq<char>)>>,
        ),
        (
            "tasks/get"@,
            Some("Get task status and result"@),
            Some("Get task"@),
            seq![("request"@, Some("Task get request"@), Some(true))],
            ("task_status"@, Some("Current task status and result"@)),
            None::<Seq<(i32, Seq<char>)>>,
        ),
        (
            "tasks/cancel"@,
            Some("Cancel a running task"@),
            Some("Cancel task"@),
            seq![("request"@, Some("Task cancel request"@), Some(true))],
            ("cancel_response"@, Some("Task cancellation result"@)),
            None::<Seq<(i32, Seq<char>)>>,
        ),
        (
            "chat_open"@,
            Some("Open a new chat session with the agent"@),
            Some("Open chat session"@),
            seq![("request"@, Some("Chat open request with optional context and metadata"@), Some(true))],
            ("session"@, Some("Chat session with session ID and capabilities"@)),
            Some(seq![(-32004i32, "Authentication failed"@), (-32003i32, "Rate limit exceeded"@)]),
        ),
        (
            "chat_send"@,
            Some("Send a message within an existing chat session"@),
            Some("Send chat message"@),
            seq![("session_id"@, Some("The session ID from chat_open"@), Some(true)), ("message"@, Some("User message with content and optional attachments"@), Some(true))],
            ("result"@, Some("Empty result on success"@)),
            Some(seq![(-32001i32, "Session not found"@), (-32002i32, "Buffer full"@), (-32003i32, "Rate limit exceeded"@)]),
        ),
        (
            "chat_close"@,
            Some("Close an existing chat session"@),
            Some("Close chat session"@),
            seq![("session_id"@, Some("The session ID to close"@), Some(true))],
            ("result"@, Some("Empty result on success"@)),
            Some(seq![(-32001i32, "Session not found"@)]),
        ),
    ]
}

/// The methods of the A2A protocol, with their parameters, results and
/// errors, in the order the document lists them.
pub fn openrpc_methods() -> (r: Vec<OpenRpcMethod>)
    ensures
        r@.map_values(|m: OpenRpcMethod| m@) == openrpc_methods_spec(),
{
    let mut r: Vec<OpenRpcMethod> = Vec::new();
    let ps: Vec<OpenRpcParam> = Vec::new();
    assert(ps@.map_values(|p: OpenRpcParam| p@) =~= Seq::<ParamView>::empty());
    let es: Option<Vec<OpenRpcError>> = None;
    r.push(method("rpc.discover", "Returns OpenRPC schema document", "OpenRPC discovery", ps, "schema", "OpenRPC schema document", es));
    let mut ps: Vec<OpenRpcParam> = Vec::new();
    ps.push(param("agent_id", "The ID of the requesting agent", true));
    ps.push(param("task_type", "The type of task being requested", true));
    ps.push(param("payload", "Additional data for the task request", false));
    assert(ps@.map_values(|p: OpenRpcParam| p@) =~= seq![("agent_id"@, Some("The ID of the requesting agent"@), Some(true)), ("task_type"@, Some("The type of task being requested"@), Some(true)), ("payload"@, Some("Additional data for the task request"@), Some(false))]);
    let mut ev: Vec<OpenRpcError> = Vec::new();
    ev.push(error(-32601, "Method not found"));
    ev.push(error(-32602, "Invalid params"));
    assert(ev@.map_values(|e: OpenRpcError| e@) =~= seq![(-32601i32, "Method not found"@), (-32602i32, "Invalid params"@)]);
    let es = Some(ev);
    r.push(method("task_request", "Request a task from another agent", "Task request", ps, "task_response", "The task response from the agent", es));
    let mut ps: Vec<OpenRpcParam> = Vec::new();
    ps.push(param("agent_id", "The ID of the declaring agent", true));
    ps.push(param("tasks", "List of tasks the agent can fulfill", true));
    assert(ps@.map_values(|p: OpenRpcParam| p@) =~= seq![("agent_id"@, Some("The ID of the declaring agent"@), Some(true)), ("tasks"@, Some("List of tasks the agent can fulfill"@), Some(true))]);
    let es: Option<Vec<OpenRpcError>> = None;
    r.push(method("task_declare", "Declare a task capability to other agents", "Task declaration", ps, "declaration_result", "Confirmation of task declaration", es));
    let mut ps: Vec<OpenRpcParam> = Vec::new();
    ps.push(param("filter", "Optional filter criteria for agent discovery", false));
    assert(ps@.map_values(|p: OpenRpcParam| p@) =~= seq![("filter"@, Some("Optional filter criteria for agent discovery"@), Some(false))]);
    let es: Option<Vec<OpenRpcError>> = None;
    r.push(method("agent_discover", "Discover available agents in the network", "Agent discovery", ps, "discovered_agents", "List of discovered agents", es));
    let mut ps: Vec<OpenRpcParam> = Vec::new();
    ps.push(param("request", "Message send request", true));
    assert(ps@.map_values(|p: OpenRpcParam| p@) =~= seq![("request"@, Some("Message send request"@), Some(true))]);
    let es: Option<Vec<OpenRpcError>> = None;
    r.push(method("message/send", "Send a message synchronously to an agent", "Send message", ps, "message_response", "Response containing task ID and status", es));
    let mut ps: Vec<OpenRpcParam> = Vec::new();
    ps.push(param("request", "Task get request", true));
    assert(ps@.map_values(|p: OpenRpcParam| p@) =~= seq![("request"@, Some("Task get request"@), Some(true))]);
    let es: Option<Vec<OpenRpcError>> = None;
    r.push(method("tasks/get", "Get task status and result", "Get task", ps, "task_status", "Current task status and result", es));
    let mut ps: Vec<OpenRpcParam> = Vec::new();
    ps.push(param("request", "Task cancel request", true));
    assert(ps@.map_values(|p: OpenRpcParam| p@) =~= seq![("request"@, Some("Task cancel request"@), Some(true))]);
    let es: Option<Vec<OpenRpcError>> = None;
    r.push(method("tasks/cancel", "Cancel a running task", "Cancel task", ps, "cancel_response", "Task cancellation result", es));
    let mut ps: Vec<OpenRpcParam> = Vec::new();
    ps.push(param("request", "Chat open request with optional context and metadata", true));
    assert(ps@.map_values(|p: OpenRpcParam| p@) =~= seq![("request"@, Some("Chat open request with optional context and metadata"@), Some(true))]);
    let mut ev: Vec<OpenRpcError> = Vec::new();
    ev.push(error(-32004, "Authentication failed"));
    ev.push(error(-32003, "Rate limit exceeded"));
    assert(ev@.map_values(|e: OpenRpcError| e@) =~= seq![(-32004i32, "Authentication failed"@), (-32003i32, "Rate limit exceeded"@)]);
    let es = Some(ev);
    r.push(method("chat_open", "Open a new chat session with the agent", "Open chat session", ps, "session", "Chat session with session ID and capabilities", es));
    let mut ps: Vec<OpenRpcParam> = Vec::new();
    ps.push(param("session_id", "The session ID from chat_open", true));
    ps.push(param("message", "User message with content and optional attachments", true));
    assert(ps@.map_values(|p: OpenRpcParam| p@) =~= seq![("session_id"@, Some("The session ID from chat_open"@), Some(true)), ("message"@, Some("User message with content and optional attachments"@), Some(true))]);
    let mut ev: Vec<OpenRpcError> = Vec::new();
    ev.push(error(-32001, "Session not found"));
    ev.push(error(-32002, "Buffer full"));
    ev.push(error(-32003, "Rate limit exceeded"));
    assert(ev@.map_values(|e: OpenRpcError| e@) =~= seq![(-32001i32, "Session not found"@), (-32002i32, "Buffer full"@), (-32003i32, "Rate limit exceeded"@)]);
    let es = Some(ev);
    r.push(method("chat_send", "Send a message within an existing chat session", "Send chat message", ps, "result", "Empty result on success", es));
    let mut ps: Vec<OpenRpcParam> = Vec::new();
    ps.push(param("session_id", "The session ID to close", true));
    assert(ps@.map_values(|p: OpenRpcParam| p@) =~= seq![("session_id"@, Some("The session ID to close"@), Some(true))]);
    let mut ev: Vec<OpenRpcError> = Vec::new();
    ev.push(error(-32001, "Session not found"));
    assert(ev@.map_values(|e: OpenRpcError| e@) =~= seq![(-32001i32, "Session not found"@)]);
    let es = Some(ev);
    r.push(method("chat_close", "Close an existing chat session", "Close chat session", ps, "result", "Empty result on success", es));
    assert(r@.map_values(|m: OpenRpcMethod| m@) =~= openrpc_methods_spec());
    r
}

/// A server as plain values: name, url, summary, description.
pub open spec fn server_view(s: OpenRpcServer) -> (Seq<char>, Seq<char>, Option<Seq<char>>, Option<Seq<char>>) {
    (s.name@, s.url@, opt_view(s.summary), opt_view(s.description))
}

/// The servers the document names: local development, then production.
pub fn openrpc_servers() -> (r: Vec<OpenRpcServer>)
    ensures
        r@.len() == 2,
        server_view(r@[0]) == ("Local Development"@, "http://localhost:8765"@, Some("Local development server"@), Some(
            "Default local development server for testing"@,
        )),
        server_view(r@[1]) == ("Production"@, "https://api.arkavo.io/a2a"@, Some("Production server"@), Some(
            "Production A2A endpoint (example)"@,
        )),
{
    let mut r: Vec<OpenRpcServer> = Vec::new();
    r.push(
        OpenRpcServer {
            name: owned("Local Development"),
            url: owned("http://localhost:8765"),
            summary: Some(owned("Local development server")),
            description: Some(owned("Default local development server for testing")),
        },
    );
    r.push(
        OpenRpcServer {
            name: owned("Production"),
            url: owned("https://api.arkavo.io/a2a"),
            summary: Some(owned("Production server")),
            description: Some(owned("Production A2A endpoint (example)")),
        },
    );
    r
}

} // verus!
