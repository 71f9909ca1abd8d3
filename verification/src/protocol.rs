//! The protocol envelopes, the error taxonomy, and the dispatcher.
//!
//! Every outcome travels in a response envelope that carries either a
//! result or an error, never both. Only authentication failures use
//! HTTP-level signalling; protocol and tool errors ride inside an
//! ordinary response.

use crate::auth::{spec_auth_error_message, AuthError};
use crate::json::{
    entries_view, json_clone, json_view, lemma_entries_view, lemma_seq_view, seq_view, Json, JsonV,
};
use crate::registry::{
    defs_view, lemma_defs_view, spec_tool_index, Registry, ToolDefinition, ToolDefinitionV,
};
use crate::text::{chars_of, contains_chars, seq_contains_sub};
use vstd::prelude::*;
use vstd::string::StringExecFns;

verus! {

/// Authentication failure.
pub const ERROR_AUTH: i32 = -32001;

/// A validator or executor failure classified as parameter-related.
pub const ERROR_INVALID_PARAMS: i32 = -32002;

/// A validator or executor failure not classified as parameter-related.
pub const ERROR_TOOL_EXECUTION: i32 = -32003;

/// A malformed request envelope, refused before dispatch.
pub const ERROR_INVALID_REQUEST: i32 = -32600;

/// An unknown tool name.
pub const ERROR_METHOD_NOT_FOUND: i32 = -32601;

/// A parsed request envelope: list the tools, or invoke one by name.
#[derive(Debug)]
pub enum McpRequest {
    Discover,
    Invoke { tool_name: String, arguments: Option<Json> },
}

/// The error member of a response envelope.
#[derive(Debug, PartialEq)]
pub struct ErrorDetails {
    pub code: i32,
    pub message: String,
    pub data: Option<Json>,
}

/// The value of an `ErrorDetails`.
pub struct ErrorDetailsV {
    pub code: i32,
    pub message: Seq<char>,
    pub data: Option<JsonV>,
}

impl View for ErrorDetails {
    type V = ErrorDetailsV;

    open spec fn view(&self) -> ErrorDetailsV {
        ErrorDetailsV {
            code: self.code,
            message: self.message@,
            data: match self.data {
                Some(d) => Some(json_view(d)),
                None => None,
            },
        }
    }
}

/// A response envelope: exactly one of `result` and `error` is present,
/// and the absent one is omitted from the serialized form entirely.
#[derive(Debug, PartialEq)]
pub struct McpResponse {
    pub result: Option<Json>,
    pub error: Option<ErrorDetails>,
    pub jsonrpc: String,
}

/// The value of an `McpResponse`.
pub struct McpResponseV {
    pub result: Option<JsonV>,
    pub error: Option<ErrorDetailsV>,
    pub jsonrpc: Seq<char>,
}

impl View for McpResponse {
    type V = McpResponseV;

    open spec fn view(&self) -> McpResponseV {
        McpResponseV {
            result: match self.result {
                Some(v) => Some(json_view(v)),
                None => None,
            },
            error: match self.error {
                Some(e) => Some(e@),
                None => None,
            },
            jsonrpc: self.jsonrpc@,
        }
    }
}

/// The envelope for a result.
pub open spec fn spec_success(result: JsonV) -> McpResponseV {
    McpResponseV { result: Some(result), error: None, jsonrpc: "2.0"@ }
}

/// The envelope for an error.
pub open spec fn spec_error(code: i32, message: Seq<char>, data: Option<JsonV>) -> McpResponseV {
    McpResponseV {
        result: None,
        error: Some(ErrorDetailsV { code, message, data }),
        jsonrpc: "2.0"@,
    }
}

impl McpResponse {
    /// A success envelope: `result` present, `error` absent.
    pub fn success(result: Json) -> (r: Self)
        ensures
            r@ == spec_success(result@),
    {
        McpResponse { result: Some(result), error: None, jsonrpc: String::from_str("2.0") }
    }

    /// An error envelope: `error` present, `result` absent.
    pub fn error(code: i32, message: String, data: Option<Json>) -> (r: Self)
        ensures
            r@ == spec_error(
                code,
                message@,
                match data {
                    Some(d) => Some(d@),
                    None => None,
                },
            ),
    {
        McpResponse {
            result: None,
            error: Some(ErrorDetails { code, message, data }),
            jsonrpc: String::from_str("2.0"),
        }
    }
}

/// A response envelope never carries a result and an error at once, and
/// the absent member is absent outright: a success envelope has `result`
/// and no `error`, an error envelope has `error` and no `result`.
pub proof fn lemma_envelope_exclusive(result: JsonV, code: i32, message: Seq<char>, data: Option<
    JsonV,
>)
    ensures
        spec_success(result).result is Some && spec_success(result).error is None,
        spec_error(code, message, data).error is Some && spec_error(code, message, data).result
            is None,
{
}

/// The response envelope for an authentication failure, sent with HTTP
/// status 401: code `ERROR_AUTH` and the failure's fixed message.
pub fn auth_error_envelope(e: AuthError) -> (r: McpResponse)
    ensures
        r@ == spec_error(ERROR_AUTH, spec_auth_error_message(e), None),
{
    let msg = String::from_str(crate::auth::auth_error_message(e));
    McpResponse::error(ERROR_AUTH, msg, None)
}

/// Whether a failure message reads as a parameter-validation complaint:
/// it contains one of the keywords the validator's messages use.
pub open spec fn spec_is_param_error(msg: Seq<char>) -> bool {
    ||| seq_contains_sub(msg, "parameter"@)
    ||| seq_contains_sub(msg, "required"@)
    ||| seq_contains_sub(msg, "Unexpected"@)
    ||| seq_contains_sub(msg, "Missing"@)
    ||| seq_contains_sub(msg, "must be"@)
    ||| seq_contains_sub(msg, "exceeds maximum"@)
    ||| seq_contains_sub(msg, "at least"@)
    ||| seq_contains_sub(msg, "characters long"@)
    ||| seq_contains_sub(msg, "type"@)
}

/// Classifies a failure message: parameter-related, or a tool failure.
pub fn is_param_validation_error(error_msg: &str) -> (r: bool)
    ensures
        r == spec_is_param_error(error_msg@),
{
    let m = chars_of(error_msg);
    let mut found = contains_chars(&m, &chars_of("parameter"));
    found = found || contains_chars(&m, &chars_of("required"));
    found = found || contains_chars(&m, &chars_of("Unexpected"));
    found = found || contains_chars(&m, &chars_of("Missing"));
    found = found || contains_chars(&m, &chars_of("must be"));
    found = found || contains_chars(&m, &chars_of("exceeds maximum"));
    found = found || contains_chars(&m, &chars_of("at least"));
    found = found || contains_chars(&m, &chars_of("characters long"));
    found = found || contains_chars(&m, &chars_of("type"));
    found
}

/// The JSON shape of one tool descriptor in a discovery response.
pub open spec fn spec_def_json(d: ToolDefinitionV) -> JsonV {
    JsonV::Obj(
        seq![
            ("name"@, JsonV::Str(d.name)),
            ("description"@, JsonV::Str(d.description)),
            ("parameters"@, d.parameters),
        ],
    )
}

/// The JSON shapes of all descriptors, in registration order.
pub open spec fn spec_defs_json(defs: Seq<ToolDefinitionV>) -> Seq<JsonV> {
    Seq::new(defs.len(), |i: int| spec_def_json(defs[i]))
}

/// The result member of a discovery response: the full descriptor list.
pub open spec fn spec_discover_result(defs: Seq<ToolDefinitionV>) -> JsonV {
    JsonV::Obj(seq![("tools"@, JsonV::Arr(spec_defs_json(defs)))])
}

/// One descriptor as a JSON object.
pub fn def_to_json(d: &ToolDefinition) -> (r: Json)
    ensures
        r@ == spec_def_json(d@),
{
    let mut entries: Vec<(String, Json)> = Vec::new();
    entries.push((String::from_str("name"), Json::Str(d.name.clone())));
    entries.push((String::from_str("description"), Json::Str(d.description.clone())));
    entries.push((String::from_str("parameters"), json_clone(&d.parameters)));
    proof {
        lemma_entries_view(entries@);
        assert(entries_view(entries@) =~= spec_def_json(d@)->Obj_0);
    }
    Json::Obj(entries)
}

/// Handles `discover`: a success envelope whose result lists every
/// registered tool, in registration order, unfiltered by identity. The
/// outcome is a function of the registry alone.
pub fn handle_discover(registry: &Registry) -> (r: McpResponse)
    ensures
        r@ == spec_success(spec_discover_result(registry@)),
{
    let defs = registry.definitions();
    proof {
        lemma_defs_view(defs@);
    }
    let n: usize = defs.len();
    let mut items: Vec<Json> = Vec::new();
    let mut i: usize = 0;
    while i < n
        invariant
            n == defs@.len(),
            0 <= i <= n,
            defs_view(defs@) == registry@,
            registry@.len() == n,
            forall|m: int| 0 <= m < n ==> registry@[m] == defs@[m]@,
            items@.len() == i,
            forall|m: int| 0 <= m < i ==> json_view(#[trigger] items@[m]) == spec_def_json(
                registry@[m],
            ),
        decreases n - i,
    {
        let item = def_to_json(&defs[i]);
        items.push(item);
        i = i + 1;
    }
    proof {
        lemma_seq_view(items@);
        assert(seq_view(items@) =~= spec_defs_json(registry@));
    }
    let mut entries: Vec<(String, Json)> = Vec::new();
    entries.push((String::from_str("tools"), Json::Arr(items)));
    proof {
        lemma_entries_view(entries@);
        assert(entries_view(entries@) =~= spec_discover_result(registry@)->Obj_0);
    }
    McpResponse::success(Json::Obj(entries))
}

/// Discovery is idempotent: against one registry value, every
/// `discover` call yields the same envelope, descriptor for descriptor.
pub proof fn lemma_discover_idempotent(
    defs: Seq<ToolDefinitionV>,
    r1: McpResponseV,
    r2: McpResponseV,
)
    requires
        r1 == spec_success(spec_discover_result(defs)),
        r2 == spec_success(spec_discover_result(defs)),
    ensures
        r1 == r2,
{
}

/// The names of all registered tools, in registration order.
pub open spec fn spec_tool_names(defs: Seq<ToolDefinitionV>) -> Seq<JsonV> {
    Seq::new(defs.len(), |i: int| JsonV::Str(defs[i].name))
}

/// The error envelope for an unknown tool name: code
/// `ERROR_METHOD_NOT_FOUND`, a message naming the tool, and the list of
/// registered names as data.
pub open spec fn spec_not_found(name: Seq<char>, defs: Seq<ToolDefinitionV>) -> McpResponseV {
    spec_error(
        ERROR_METHOD_NOT_FOUND,
        "Tool '"@ + name + "' not found"@,
        Some(JsonV::Obj(seq![("available_tools"@, JsonV::Arr(spec_tool_names(defs)))])),
    )
}

/// Looks the invoked tool up. A hit yields the dispatch handle for the
/// executor; a miss yields the complete not-found envelope.
pub fn handle_invoke_lookup(registry: &Registry, tool_name: &String) -> (r: Result<
    usize,
    McpResponse,
>)
    ensures
        match r {
            Ok(i) => spec_tool_index(registry@, tool_name@, 0) == Some(i as int) && i
                < registry@.len(),
            Err(resp) => spec_tool_index(registry@, tool_name@, 0) is None && resp@
                == spec_not_found(tool_name@, registry@),
        },
{
    match registry.dispatch(tool_name) {
        Some(i) => Ok(i),
        None => {
            let defs = registry.definitions();
            proof {
                lemma_defs_view(defs@);
            }
            let n: usize = defs.len();
            let mut names: Vec<Json> = Vec::new();
            let mut i: usize = 0;
            while i < n
                invariant
                    n == defs@.len(),
                    0 <= i <= n,
                    defs_view(defs@) == registry@,
                    registry@.len() == n,
                    forall|m: int| 0 <= m < n ==> registry@[m] == defs@[m]@,
                    names@.len() == i,
                    forall|m: int| 0 <= m < i ==> json_view(#[trigger] names@[m]) == JsonV::Str(
                        registry@[m].name,
                    ),
                decreases n - i,
            {
                names.push(Json::Str(defs[i].name.clone()));
                i = i + 1;
            }
            proof {
                lemma_seq_view(names@);
                assert(seq_view(names@) =~= spec_tool_names(registry@));
            }
            let mut data_entries: Vec<(String, Json)> = Vec::new();
            data_entries.push((String::from_str("available_tools"), Json::Arr(names)));
            let mut msg = String::from_str("Tool '");
            msg.append(tool_name.as_str());
            msg.append("' not found");
            proof {
                lemma_entries_view(data_entries@);
                assert(entries_view(data_entries@) =~= seq![
                    ("available_tools"@, JsonV::Arr(spec_tool_names(registry@))),
                ]);
            }
            Err(
                McpResponse::error(
                    ERROR_METHOD_NOT_FOUND,
                    msg,
                    Some(Json::Obj(data_entries)),
                ),
            )
        },
    }
}

/// The dispatcher's decision for a parsed request.
pub enum RouteOutcome {
    /// The response is complete: discovery, or an unknown tool name.
    Done(McpResponse),
    /// The named tool exists: run its executor, then wrap what it
    /// produced with `finish_invoke`.
    RunTool { index: usize },
}

/// Routes a parsed request envelope: `discover` is answered outright
/// with the descriptor list; `invoke` resolves the tool name to the
/// executor's handle, or fails with the complete not-found envelope.
pub fn route_request(registry: &Registry, request: &McpRequest) -> (r: RouteOutcome)
    ensures
        match *request {
            McpRequest::Discover => (match r {
                RouteOutcome::Done(resp) => resp@ == spec_success(
                    spec_discover_result(registry@),
                ),
                _ => false,
            }),
            McpRequest::Invoke { ref tool_name, ref arguments } => (match spec_tool_index(
                registry@,
                tool_name@,
                0,
            ) {
                Some(i) => (match r {
                    RouteOutcome::RunTool { index } => index == i,
                    _ => false,
                }),
                None => (match r {
                    RouteOutcome::Done(resp) => resp@ == spec_not_found(tool_name@, registry@),
                    _ => false,
                }),
            }),
        },
{
    match request {
        McpRequest::Discover => RouteOutcome::Done(handle_discover(registry)),
        McpRequest::Invoke { tool_name, arguments: _ } => {
            match handle_invoke_lookup(registry, tool_name) {
                Ok(index) => RouteOutcome::RunTool { index },
                Err(resp) => RouteOutcome::Done(resp),
            }
        },
    }
}

/// The value of an executor's outcome.
pub open spec fn result_view(r: Result<Json, String>) -> Result<JsonV, Seq<char>> {
    match r {
        Ok(v) => Ok(json_view(v)),
        Err(m) => Err(m@),
    }
}

/// The envelope an invocation outcome becomes: a success envelope for a
/// result; for a failure, the message is classified and wrapped with the
/// matching code and prefix.
pub open spec fn spec_finish_invoke(res: Result<JsonV, Seq<char>>) -> McpResponseV {
    match res {
        Ok(v) => spec_success(v),
        Err(m) => if spec_is_param_error(m) {
            spec_error(ERROR_INVALID_PARAMS, "Invalid parameters: "@ + m, None)
        } else {
            spec_error(ERROR_TOOL_EXECUTION, "Tool execution error: "@ + m, None)
        },
    }
}

/// Wraps what the tool's executor (or its argument validation) produced
/// into the response envelope.
pub fn finish_invoke(exec_result: Result<Json, String>) -> (r: McpResponse)
    ensures
        r@ == spec_finish_invoke(result_view(exec_result)),
{
    match exec_result {
        Ok(v) => McpResponse::success(v),
        Err(m) => {
            if is_param_validation_error(m.as_str()) {
                let mut full = String::from_str("Invalid parameters: ");
                full.append(m.as_str());
                McpResponse::error(ERROR_INVALID_PARAMS, full, None)
            } else {
                let mut full = String::from_str("Tool execution error: ");
                full.append(m.as_str());
                McpResponse::error(ERROR_TOOL_EXECUTION, full, None)
            }
        },
    }
}

/// The health probe: HTTP status 200 with the literal body `OK`; it
/// bypasses authentication.
pub fn health_check() -> (r: (u16, &'static str))
    ensures
        r.0 == 200,
        r.1@ == "OK"@,
{
    (200, "OK")
}

} // verus!
