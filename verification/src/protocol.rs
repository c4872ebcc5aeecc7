//! The JSON-RPC 2.0 envelope and the protocol payload shapes.
//!
//! Serialization of these shapes is pure and total; deserialization fails
//! exactly where a document does not have the stated shape.  Unknown object
//! members are ignored, as the protocol allows.

use vstd::prelude::*;
use crate::error::McpError;
use crate::json::{
    entry_views_of, json_text, parse_doc, parse_json_text, to_json_text, view_of, views_of,
    JsonValue, JsonView,
};

verus! {

/// The views of an optional document.
pub open spec fn opt_view(o: Option<JsonValue>) -> Option<JsonView> {
    match o {
        Some(v) => Some(view_of(v)),
        None => None,
    }
}

/// A JSON-RPC 2.0 request (or, with a null id, a notification).
#[derive(Debug, PartialEq, Eq)]
pub struct JsonRpcRequest {
    pub jsonrpc: String,
    pub method: String,
    pub params: Option<JsonValue>,
    pub id: JsonValue,
}

/// A JSON-RPC 2.0 error object.
#[derive(Debug, PartialEq, Eq)]
pub struct JsonRpcError {
    pub code: i32,
    pub message: String,
    pub data: Option<JsonValue>,
}

/// A JSON-RPC 2.0 response: a result or an error, under the same id as the
/// request it answers.
#[derive(Debug, PartialEq, Eq)]
pub struct JsonRpcResponse {
    pub jsonrpc: String,
    pub result: Option<JsonValue>,
    pub error: Option<JsonRpcError>,
    pub id: JsonValue,
}

/// The mathematical shape of a request.
pub struct RequestView {
    pub jsonrpc: Seq<char>,
    pub method: Seq<char>,
    pub params: Option<JsonView>,
    pub id: JsonView,
}

/// The mathematical shape of an error object.
pub struct ErrorView {
    pub code: int,
    pub message: Seq<char>,
    pub data: Option<JsonView>,
}

/// The mathematical shape of a response.
pub struct ResponseView {
    pub jsonrpc: Seq<char>,
    pub result: Option<JsonView>,
    pub error: Option<ErrorView>,
    pub id: JsonView,
}

impl View for JsonRpcRequest {
    type V = RequestView;

    open spec fn view(&self) -> RequestView {
        RequestView {
            jsonrpc: self.jsonrpc@,
            method: self.method@,
            params: opt_view(self.params),
            id: view_of(self.id),
        }
    }
}

impl View for JsonRpcError {
    type V = ErrorView;

    open spec fn view(&self) -> ErrorView {
        ErrorView {
            code: self.code as int,
            message: self.message@,
            data: opt_view(self.data),
        }
    }
}

impl View for JsonRpcResponse {
    type V = ResponseView;

    open spec fn view(&self) -> ResponseView {
        ResponseView {
            jsonrpc: self.jsonrpc@,
            result: opt_view(self.result),
            error: match self.error {
                Some(e) => Some(e@),
                None => None,
            },
            id: view_of(self.id),
        }
    }
}

impl JsonRpcRequest {
    /// A request under protocol version "2.0".
    pub fn new(method: &str, params: Option<JsonValue>, id: JsonValue) -> (r: Self)
        ensures
            r@.jsonrpc == "2.0"@,
            r@.method == method@,
            r.params == params,
            r.id == id,
    {
        JsonRpcRequest {
            jsonrpc: String::from_str("2.0"),
            method: method.to_owned(),
            params,
            id,
        }
    }
}

/// A copy of a document, by value.
#[verifier::loop_isolation(false)]
pub fn clone_json(v: &JsonValue) -> (r: JsonValue)
    ensures
        r@ == v@,
    decreases *v,
{
    match v {
        JsonValue::Null => JsonValue::Null,
        JsonValue::Bool(b) => JsonValue::Bool(*b),
        JsonValue::Int(i) => JsonValue::Int(*i),
        JsonValue::Num(t) => JsonValue::Num(t.clone()),
        JsonValue::Str(s) => JsonValue::Str(s.clone()),
        JsonValue::Arr(items) => {
            let mut out: Vec<JsonValue> = Vec::new();
            let n = items.len();
            let mut k: usize = 0;
            while k < n
                invariant
                    n == items@.len(),
                    k <= n,
                    out@.len() == k,
                    forall|q: int| 0 <= q < k ==> view_of(#[trigger] out@[q]) == view_of(
                        items@[q],
                    ),
                decreases n - k,
            {
                proof {
                    assert(decreases_to!(*v => *items));
                    assert(decreases_to!(*items => items@));
                    assert(decreases_to!(items@ => items@[k as int]));
                }
                out.push(clone_json(&items[k]));
                k = k + 1;
            }
            proof {
                crate::json::lemma_views_of(out@);
                crate::json::lemma_views_of(items@);
                assert(views_of(out@) =~= views_of(items@));
            }
            JsonValue::Arr(out)
        },
        JsonValue::Obj(entries) => {
            let mut out: Vec<(String, JsonValue)> = Vec::new();
            let n = entries.len();
            let mut k: usize = 0;
            while k < n
                invariant
                    n == entries@.len(),
                    k <= n,
                    out@.len() == k,
                    forall|q: int|
                        0 <= q < k ==> (#[trigger] out@[q]).0@ == entries@[q].0@ && view_of(
                            out@[q].1,
                        ) == view_of(entries@[q].1),
                decreases n - k,
            {
                proof {
                    assert(decreases_to!(*v => *entries));
                    assert(decreases_to!(*entries => entries@));
                    assert(decreases_to!(entries@ => entries@[k as int]));
                    assert(decreases_to!(entries@[k as int] => entries@[k as int].1));
                }
                let key = entries[k].0.clone();
                let val = clone_json(&entries[k].1);
                out.push((key, val));
                k = k + 1;
            }
            proof {
                crate::json::lemma_entry_views_of(out@);
                crate::json::lemma_entry_views_of(entries@);
                assert(entry_views_of(out@) =~= entry_views_of(entries@));
            }
            JsonValue::Obj(out)
        },
    }
}

/// The first value stored under `key`, reading the entries in order.
pub open spec fn obj_lookup(entries: Seq<(Seq<char>, JsonView)>, key: Seq<char>) -> Option<
    JsonView,
>
    decreases entries.len(),
{
    if entries.len() == 0 {
        None
    } else if entries[0].0 == key {
        Some(entries[0].1)
    } else {
        obj_lookup(entries.drop_first(), key)
    }
}

/// Looks a key up among an object's entries.
fn obj_get<'a>(entries: &'a Vec<(String, JsonValue)>, key: &str) -> (r: Option<&'a JsonValue>)
    ensures
        match r {
            Some(v) => obj_lookup(entry_views_of(entries@), key@) == Some(view_of(*v)),
            None => obj_lookup(entry_views_of(entries@), key@) is None,
        },
{
    proof {
        crate::json::lemma_entry_views_of(entries@);
        assert(entry_views_of(entries@).skip(0) =~= entry_views_of(entries@));
    }
    let ks: String = key.to_owned();
    let n = entries.len();
    let mut i: usize = 0;
    while i < n
        invariant
            n == entries@.len(),
            i <= n,
            ks@ == key@,
            entry_views_of(entries@).len() == n,
            forall|q: int|
                0 <= q < n ==> #[trigger] entry_views_of(entries@)[q] == (
                    entries@[q].0@,
                    view_of(entries@[q].1),
                ),
            obj_lookup(entry_views_of(entries@), key@) == obj_lookup(
                entry_views_of(entries@).skip(i as int),
                key@,
            ),
        decreases n - i,
    {
        proof {
            let evs = entry_views_of(entries@);
            assert(evs.skip(i as int)[0] == evs[i as int]);
            assert(evs.skip(i as int).drop_first() =~= evs.skip(i + 1 as int));
        }
        if entries[i].0 == ks {
            return Some(&entries[i].1);
        }
        i = i + 1;
    }
    proof {
        assert(entry_views_of(entries@).skip(n as int) =~= Seq::<(Seq<char>, JsonView)>::empty());
    }
    None
}

/// The wire document of a request: jsonrpc, method, params when present,
/// id, in that order.
pub open spec fn request_doc(r: RequestView) -> JsonView {
    JsonView::Obj(
        seq![("jsonrpc"@, JsonView::Str(r.jsonrpc)), ("method"@, JsonView::Str(r.method))] + (
        match r.params {
            Some(p) => seq![("params"@, p)],
            None => Seq::empty(),
        }) + seq![("id"@, r.id)],
    )
}

/// Renders a request as its one-line wire text.
pub fn encode_request(r: &JsonRpcRequest) -> (line: String)
    ensures
        line@ == json_text(request_doc(r@)),
{
    let mut entries: Vec<(String, JsonValue)> = Vec::new();
    entries.push((String::from_str("jsonrpc"), JsonValue::Str(r.jsonrpc.clone())));
    entries.push((String::from_str("method"), JsonValue::Str(r.method.clone())));
    match &r.params {
        Some(p) => {
            entries.push((String::from_str("params"), clone_json(p)));
        },
        None => {},
    }
    entries.push((String::from_str("id"), clone_json(&r.id)));
    let doc = JsonValue::Obj(entries);
    proof {
        crate::json::lemma_entry_views_of(doc->Obj_0@);
        let dv = entry_views_of(doc->Obj_0@);
        let rv = request_doc(r@)->Obj_0;
        assert(dv =~= rv);
    }
    to_json_text(&doc)
}

/// The error object a well-formed response may carry: integer `code`
/// within i32 range, string `message`, optional `data`.
pub open spec fn error_of(v: JsonView) -> Option<ErrorView> {
    match v {
        JsonView::Obj(es) => match (obj_lookup(es, "code"@), obj_lookup(es, "message"@)) {
            (Some(JsonView::Int(code)), Some(JsonView::Str(msg))) => {
                if -0x80000000 <= code <= 0x7fffffff {
                    Some(ErrorView { code, message: msg, data: obj_lookup(es, "data"@) })
                } else {
                    None
                }
            },
            _ => None,
        },
        _ => None,
    }
}

/// The response a well-formed wire document describes: an object with a
/// string `jsonrpc`, an `id`, and exactly one of a `result` and a
/// well-formed `error` — a document carrying both, or neither, is not a
/// response.
pub open spec fn response_of(doc: JsonView) -> Option<ResponseView> {
    match doc {
        JsonView::Obj(es) => match (obj_lookup(es, "jsonrpc"@), obj_lookup(es, "id"@)) {
            (Some(JsonView::Str(ver)), Some(idv)) => {
                let res = obj_lookup(es, "result"@);
                match obj_lookup(es, "error"@) {
                    None => match res {
                        Some(rv) => Some(
                            ResponseView {
                                jsonrpc: ver,
                                result: Some(rv),
                                error: None,
                                id: idv,
                            },
                        ),
                        None => None,
                    },
                    Some(ev) => {
                        if res is Some {
                            None
                        } else {
                            match error_of(ev) {
                                None => None,
                                Some(e) => Some(
                                    ResponseView {
                                        jsonrpc: ver,
                                        result: None,
                                        error: Some(e),
                                        id: idv,
                                    },
                                ),
                            }
                        }
                    },
                }
            },
            _ => None,
        },
        _ => None,
    }
}

/// A decoded response carries exactly one of `result` and `error`: the
/// decoder admits no other shape.
pub proof fn lemma_decoded_response_exactly_one(s: Seq<char>)
    ensures
        spec_decode_response(s) matches Some(r) ==> ((r.result is Some) != (r.error is Some)),
{
}

/// What one line of wire text decodes to, if anything: a well-formed JSON
/// document of the response shape.
pub open spec fn spec_decode_response(s: Seq<char>) -> Option<ResponseView> {
    match parse_doc(s) {
        None => None,
        Some(doc) => response_of(doc),
    }
}

/// Decodes an error object.
fn decode_error_obj(ev: &JsonValue) -> (r: Option<JsonRpcError>)
    ensures
        match r {
            Some(e) => error_of(view_of(*ev)) == Some(e@),
            None => error_of(view_of(*ev)) is None,
        },
{
    let es = match ev {
        JsonValue::Obj(es) => es,
        _ => {
            return None;
        },
    };
    let code: i32 = match obj_get(es, "code") {
        Some(JsonValue::Int(i)) => {
            if *i >= -2147483648 && *i <= 2147483647 {
                *i as i32
            } else {
                return None;
            }
        },
        _ => {
            return None;
        },
    };
    let message: String = match obj_get(es, "message") {
        Some(JsonValue::Str(s)) => s.clone(),
        _ => {
            return None;
        },
    };
    let data: Option<JsonValue> = match obj_get(es, "data") {
        Some(d) => Some(clone_json(d)),
        None => None,
    };
    Some(JsonRpcError { code, message, data })
}

/// Decodes one line of wire text as a JSON-RPC response.  A line that is
/// not a well-formed response — among them one carrying both a result and
/// an error, or neither — yields `Decode` carrying the offending text.
pub fn decode_response(line: &str) -> (r: Result<JsonRpcResponse, McpError>)
    ensures
        match r {
            Ok(resp) => spec_decode_response(line@) == Some(resp@),
            Err(e) => spec_decode_response(line@) is None && (e matches McpError::Decode(t)
                && t@ == line@),
        },
{
    let doc = match parse_json_text(line) {
        Some(d) => d,
        None => {
            return Err(McpError::Decode(line.to_owned()));
        },
    };
    let es = match &doc {
        JsonValue::Obj(es) => es,
        _ => {
            return Err(McpError::Decode(line.to_owned()));
        },
    };
    let jsonrpc: String = match obj_get(es, "jsonrpc") {
        Some(JsonValue::Str(s)) => s.clone(),
        _ => {
            return Err(McpError::Decode(line.to_owned()));
        },
    };
    let id: JsonValue = match obj_get(es, "id") {
        Some(v) => clone_json(v),
        None => {
            return Err(McpError::Decode(line.to_owned()));
        },
    };
    let result: Option<JsonValue> = match obj_get(es, "result") {
        Some(v) => Some(clone_json(v)),
        None => None,
    };
    match obj_get(es, "error") {
        None => match result {
            Some(rv) => Ok(JsonRpcResponse { jsonrpc, result: Some(rv), error: None, id }),
            None => Err(McpError::Decode(line.to_owned())),
        },
        Some(ev) => {
            if result.is_some() {
                return Err(McpError::Decode(line.to_owned()));
            }
            match decode_error_obj(ev) {
                Some(e) => Ok(JsonRpcResponse { jsonrpc, result: None, error: Some(e), id }),
                None => Err(McpError::Decode(line.to_owned())),
            }
        },
    }
}

/// What a client says it can do during the handshake.
#[derive(Debug, PartialEq, Eq)]
pub struct ClientCapabilities {
    pub experimental: Option<JsonValue>,
    pub sampling: Option<JsonValue>,
}

/// Who the client is.
#[derive(Debug, Clone, PartialEq, Eq)]
pub struct ClientInfo {
    pub name: String,
    pub version: String,
}

/// The handshake request payload.
#[derive(Debug, PartialEq, Eq)]
pub struct InitializeParams {
    pub protocol_version: String,
    pub capabilities: ClientCapabilities,
    pub client_info: ClientInfo,
}

/// What a server says it can do.
#[derive(Debug, PartialEq, Eq)]
pub struct ServerCapabilities {
    pub experimental: Option<JsonValue>,
    pub logging: Option<JsonValue>,
    pub prompts: Option<JsonValue>,
    pub resources: Option<JsonValue>,
    pub tools: Option<JsonValue>,
}

/// Who the server is.
#[derive(Debug, Clone, PartialEq, Eq)]
pub struct ServerInfo {
    pub name: String,
    pub version: String,
}

/// The handshake result: the negotiated protocol version, the server's
/// capabilities, and its identity.
#[derive(Debug, PartialEq, Eq)]
pub struct InitializeResult {
    pub protocol_version: String,
    pub capabilities: ServerCapabilities,
    pub server_info: ServerInfo,
}

/// A tool a server exposes, in the protocol's native shape.
#[derive(Debug, PartialEq, Eq)]
pub struct McpTool {
    pub name: String,
    pub description: String,
    pub input_schema: JsonValue,
}

/// A tool in the function-calling shape some model APIs take.
#[derive(Debug, PartialEq, Eq)]
pub struct OpenAITool {
    pub tool_type: String,
    pub function: OpenAIFunction,
}

/// The function member of the function-calling shape.
#[derive(Debug, PartialEq, Eq)]
pub struct OpenAIFunction {
    pub name: String,
    pub description: String,
    pub parameters: JsonValue,
}

/// The payload of the tool-listing result.
#[derive(Debug, PartialEq, Eq)]
pub struct ListToolsResult {
    pub tools: Vec<McpTool>,
}

/// The payload of a tool-invocation request.
#[derive(Debug, PartialEq, Eq)]
pub struct CallToolParams {
    pub name: String,
    pub arguments: Option<JsonValue>,
}

/// One content block of a tool's result: a type tag and text.
#[derive(Debug, PartialEq, Eq)]
pub struct ToolResultContent {
    pub content_type: String,
    pub text: String,
}

/// A tool's result: ordered content blocks and an optional error flag.
#[derive(Debug, PartialEq, Eq)]
pub struct CallToolResult {
    pub content: Vec<ToolResultContent>,
    pub is_error: Option<bool>,
}

/// How one server is launched: its registry key, a display name, the
/// command, its arguments, and optional environment overrides (added to
/// the inherited environment).  Immutable once the server is started.
#[derive(Debug, Clone, PartialEq, Eq)]
pub struct McpServerConfig {
    pub id: String,
    pub name: String,
    pub command: String,
    pub args: Vec<String>,
    pub env: Option<Vec<(String, String)>>,
}

/// The mathematical shape of the client capabilities.
pub struct ClientCapabilitiesView {
    pub experimental: Option<JsonView>,
    pub sampling: Option<JsonView>,
}

/// The mathematical shape of the handshake request payload.
pub struct InitializeParamsView {
    pub protocol_version: Seq<char>,
    pub capabilities: ClientCapabilitiesView,
    pub client_name: Seq<char>,
    pub client_version: Seq<char>,
}

/// The mathematical shape of the server capabilities.
pub struct ServerCapabilitiesView {
    pub experimental: Option<JsonView>,
    pub logging: Option<JsonView>,
    pub prompts: Option<JsonView>,
    pub resources: Option<JsonView>,
    pub tools: Option<JsonView>,
}

/// The mathematical shape of the handshake result.
pub struct InitializeResultView {
    pub protocol_version: Seq<char>,
    pub capabilities: ServerCapabilitiesView,
    pub server_name: Seq<char>,
    pub server_version: Seq<char>,
}

/// The mathematical shape of one tool.
pub struct McpToolView {
    pub name: Seq<char>,
    pub description: Seq<char>,
    pub input_schema: JsonView,
}

/// The mathematical shape of one content block.
pub struct ToolResultContentView {
    pub content_type: Seq<char>,
    pub text: Seq<char>,
}

/// The mathematical shape of a tool's result.
pub struct CallToolResultView {
    pub content: Seq<ToolResultContentView>,
    pub is_error: Option<bool>,
}

impl View for InitializeParams {
    type V = InitializeParamsView;

    open spec fn view(&self) -> InitializeParamsView {
        InitializeParamsView {
            protocol_version: self.protocol_version@,
            capabilities: ClientCapabilitiesView {
                experimental: opt_view(self.capabilities.experimental),
                sampling: opt_view(self.capabilities.sampling),
            },
            client_name: self.client_info.name@,
            client_version: self.client_info.version@,
        }
    }
}

impl View for InitializeResult {
    type V = InitializeResultView;

    open spec fn view(&self) -> InitializeResultView {
        InitializeResultView {
            protocol_version: self.protocol_version@,
            capabilities: ServerCapabilitiesView {
                experimental: opt_view(self.capabilities.experimental),
                logging: opt_view(self.capabilities.logging),
                prompts: opt_view(self.capabilities.prompts),
                resources: opt_view(self.capabilities.resources),
                tools: opt_view(self.capabilities.tools),
            },
            server_name: self.server_info.name@,
            server_version: self.server_info.version@,
        }
    }
}

impl View for McpTool {
    type V = McpToolView;

    open spec fn view(&self) -> McpToolView {
        McpToolView {
            name: self.name@,
            description: self.description@,
            input_schema: view_of(self.input_schema),
        }
    }
}

impl View for ToolResultContent {
    type V = ToolResultContentView;

    open spec fn view(&self) -> ToolResultContentView {
        ToolResultContentView { content_type: self.content_type@, text: self.text@ }
    }
}

impl View for CallToolResult {
    type V = CallToolResultView;

    open spec fn view(&self) -> CallToolResultView {
        CallToolResultView {
            content: self.content@.map_values(|c: ToolResultContent| c@),
            is_error: self.is_error,
        }
    }
}

impl OpenAITool {
    /// The stateless projection of a native tool into the function-calling
    /// shape: type "function"; name, description and schema carried over
    /// unchanged.
    pub fn from(mcp_tool: McpTool) -> (r: Self)
        ensures
            r.tool_type@ == "function"@,
            r.function.name == mcp_tool.name,
            r.function.description == mcp_tool.description,
            r.function.parameters == mcp_tool.input_schema,
    {
        OpenAITool {
            tool_type: String::from_str("function"),
            function: OpenAIFunction {
                name: mcp_tool.name,
                description: mcp_tool.description,
                parameters: mcp_tool.input_schema,
            },
        }
    }
}

/// Converts a whole tool list into the function-calling shape, in order.
pub fn convert_tools(tools: Vec<McpTool>) -> (r: Vec<OpenAITool>)
    ensures
        r@.len() == tools@.len(),
        forall|i: int|
            0 <= i < tools@.len() ==> {
                &&& (#[trigger] r@[i]).tool_type@ == "function"@
                &&& r@[i].function.name == tools@[i].name
                &&& r@[i].function.description == tools@[i].description
                &&& r@[i].function.parameters == tools@[i].input_schema
            },
{
    let mut out: Vec<OpenAITool> = Vec::new();
    let mut tools = tools;
    let ghost orig = tools@;
    let n = tools.len();
    let mut i: usize = 0;
    while i < n
        invariant
            n == orig.len(),
            i <= n,
            tools@ == orig.skip(i as int),
            out@.len() == i,
            forall|q: int|
                0 <= q < i ==> {
                    &&& (#[trigger] out@[q]).tool_type@ == "function"@
                    &&& out@[q].function.name == orig[q].name
                    &&& out@[q].function.description == orig[q].description
                    &&& out@[q].function.parameters == orig[q].input_schema
                },
        decreases n - i,
    {
        let tool = tools.remove(0);
        proof {
            assert(tool == orig[i as int]);
            assert(orig.skip(i as int).drop_first() =~= orig.skip(i + 1 as int));
            assert(tools@ =~= orig.skip(i + 1 as int));
        }
        out.push(OpenAITool::from(tool));
        i = i + 1;
    }
    out
}

/// The wire document of the client capabilities: only the present members.
pub open spec fn client_caps_doc(c: ClientCapabilitiesView) -> JsonView {
    JsonView::Obj(
        (match c.experimental {
            Some(e) => seq![("experimental"@, e)],
            None => Seq::empty(),
        }) + (match c.sampling {
            Some(s) => seq![("sampling"@, s)],
            None => Seq::empty(),
        }),
    )
}

/// The wire document of the handshake request payload.
pub open spec fn init_params_doc(p: InitializeParamsView) -> JsonView {
    JsonView::Obj(
        seq![
            ("protocolVersion"@, JsonView::Str(p.protocol_version)),
            ("capabilities"@, client_caps_doc(p.capabilities)),
            (
                "clientInfo"@,
                JsonView::Obj(
                    seq![
                        ("name"@, JsonView::Str(p.client_name)),
                        ("version"@, JsonView::Str(p.client_version)),
                    ],
                ),
            ),
        ],
    )
}

/// The wire document of a tool-invocation payload: the tool name, and the
/// arguments only when present.
pub open spec fn call_params_doc(name: Seq<char>, arguments: Option<JsonView>) -> JsonView {
    JsonView::Obj(
        seq![("name"@, JsonView::Str(name))] + (match arguments {
            Some(a) => seq![("arguments"@, a)],
            None => Seq::empty(),
        }),
    )
}

/// Builds the handshake request payload document.
pub fn initialize_params_value(p: &InitializeParams) -> (v: JsonValue)
    ensures
        view_of(v) == init_params_doc(p@),
{
    let mut ce: Vec<(String, JsonValue)> = Vec::new();
    let ghost e_part: Seq<(Seq<char>, JsonView)> = (match p@.capabilities.experimental {
        Some(e) => seq![("experimental"@, e)],
        None => Seq::empty(),
    });
    match &p.capabilities.experimental {
        Some(e) => {
            ce.push((String::from_str("experimental"), clone_json(e)));
            proof {
                crate::json::lemma_entry_views_of(ce@);
                assert(entry_views_of(ce@) =~= e_part);
            }
        },
        None => {
            proof {
                assert(entry_views_of(ce@) =~= e_part);
            }
        },
    }
    let ghost es_part: Seq<(Seq<char>, JsonView)> = e_part + (match p@.capabilities.sampling {
        Some(s) => seq![("sampling"@, s)],
        None => Seq::empty(),
    });
    match &p.capabilities.sampling {
        Some(s) => {
            ce.push((String::from_str("sampling"), clone_json(s)));
            proof {
                crate::json::lemma_entry_views_of(ce@);
                assert(entry_views_of(ce@) =~= es_part);
            }
        },
        None => {
            proof {
                assert(entry_views_of(ce@) =~= es_part);
            }
        },
    }
    let mut ci: Vec<(String, JsonValue)> = Vec::new();
    ci.push((String::from_str("name"), JsonValue::Str(p.client_info.name.clone())));
    ci.push((String::from_str("version"), JsonValue::Str(p.client_info.version.clone())));
    let mut entries: Vec<(String, JsonValue)> = Vec::new();
    entries.push((
        String::from_str("protocolVersion"),
        JsonValue::Str(p.protocol_version.clone()),
    ));
    entries.push((String::from_str("capabilities"), JsonValue::Obj(ce)));
    entries.push((String::from_str("clientInfo"), JsonValue::Obj(ci)));
    let doc = JsonValue::Obj(entries);
    proof {
        crate::json::lemma_entry_views_of(ci@);
        crate::json::lemma_entry_views_of(entries@);
        assert(entry_views_of(ci@) =~= seq![
            ("name"@, JsonView::Str(p@.client_name)),
            ("version"@, JsonView::Str(p@.client_version)),
        ]);
        assert(entry_views_of(entries@) =~= init_params_doc(p@)->Obj_0);
    }
    doc
}

/// Builds a tool-invocation payload document.
pub fn call_tool_params_value(p: &CallToolParams) -> (v: JsonValue)
    ensures
        view_of(v) == call_params_doc(p.name@, opt_view(p.arguments)),
{
    let mut entries: Vec<(String, JsonValue)> = Vec::new();
    entries.push((String::from_str("name"), JsonValue::Str(p.name.clone())));
    match &p.arguments {
        Some(a) => {
            entries.push((String::from_str("arguments"), clone_json(a)));
        },
        None => {},
    }
    let doc = JsonValue::Obj(entries);
    proof {
        crate::json::lemma_entry_views_of(entries@);
        let want = call_params_doc(p.name@, opt_view(p.arguments));
        assert(entry_views_of(entries@) =~= want->Obj_0);
    }
    doc
}

/// The handshake result a well-formed document describes: a string
/// `protocolVersion`, a `capabilities` object, and a `serverInfo` object
/// with string `name` and `version`.
pub open spec fn init_result_of(v: JsonView) -> Option<InitializeResultView> {
    match v {
        JsonView::Obj(es) => match (
            obj_lookup(es, "protocolVersion"@),
            obj_lookup(es, "capabilities"@),
            obj_lookup(es, "serverInfo"@),
        ) {
            (Some(JsonView::Str(pv)), Some(JsonView::Obj(caps)), Some(JsonView::Obj(si))) => {
                match (obj_lookup(si, "name"@), obj_lookup(si, "version"@)) {
                    (Some(JsonView::Str(n)), Some(JsonView::Str(ver))) => Some(
                        InitializeResultView {
                            protocol_version: pv,
                            capabilities: ServerCapabilitiesView {
                                experimental: obj_lookup(caps, "experimental"@),
                                logging: obj_lookup(caps, "logging"@),
                                prompts: obj_lookup(caps, "prompts"@),
                                resources: obj_lookup(caps, "resources"@),
                                tools: obj_lookup(caps, "tools"@),
                            },
                            server_name: n,
                            server_version: ver,
                        },
                    ),
                    _ => None,
                }
            },
            _ => None,
        },
        _ => None,
    }
}

/// Decodes a handshake result document.
pub fn initialize_result_from(v: &JsonValue) -> (r: Option<InitializeResult>)
    ensures
        match r {
            Some(ir) => init_result_of(view_of(*v)) == Some(ir@),
            None => init_result_of(view_of(*v)) is None,
        },
{
    let es = match v {
        JsonValue::Obj(es) => es,
        _ => {
            return None;
        },
    };
    let protocol_version: String = match obj_get(es, "protocolVersion") {
        Some(JsonValue::Str(s)) => s.clone(),
        _ => {
            return None;
        },
    };
    let caps = match obj_get(es, "capabilities") {
        Some(JsonValue::Obj(ces)) => ServerCapabilities {
            experimental: match obj_get(ces, "experimental") {
                Some(x) => Some(clone_json(x)),
                None => None,
            },
            logging: match obj_get(ces, "logging") {
                Some(x) => Some(clone_json(x)),
                None => None,
            },
            prompts: match obj_get(ces, "prompts") {
                Some(x) => Some(clone_json(x)),
                None => None,
            },
            resources: match obj_get(ces, "resources") {
                Some(x) => Some(clone_json(x)),
                None => None,
            },
            tools: match obj_get(ces, "tools") {
                Some(x) => Some(clone_json(x)),
                None => None,
            },
        },
        _ => {
            return None;
        },
    };
    let server_info = match obj_get(es, "serverInfo") {
        Some(JsonValue::Obj(sis)) => {
            let name: String = match obj_get(sis, "name") {
                Some(JsonValue::Str(s)) => s.clone(),
                _ => {
                    return None;
                },
            };
            let version: String = match obj_get(sis, "version") {
                Some(JsonValue::Str(s)) => s.clone(),
                _ => {
                    return None;
                },
            };
            ServerInfo { name, version }
        },
        _ => {
            return None;
        },
    };
    Some(InitializeResult { protocol_version, capabilities: caps, server_info })
}

/// The tool a well-formed document describes: string `name` and
/// `description`, any `inputSchema`.
pub open spec fn tool_of(v: JsonView) -> Option<McpToolView> {
    match v {
        JsonView::Obj(es) => match (
            obj_lookup(es, "name"@),
            obj_lookup(es, "description"@),
            obj_lookup(es, "inputSchema"@),
        ) {
            (Some(JsonView::Str(n)), Some(JsonView::Str(d)), Some(schema)) => Some(
                McpToolView { name: n, description: d, input_schema: schema },
            ),
            _ => None,
        },
        _ => None,
    }
}

/// The tools described by the array elements from index `i` on; nothing if
/// any element is not a well-formed tool.
pub open spec fn tools_seq_of(items: Seq<JsonView>, i: int) -> Option<Seq<McpToolView>>
    decreases items.len() - i,
{
    if i < 0 || i >= items.len() {
        Some(Seq::empty())
    } else {
        match tool_of(items[i]) {
            None => None,
            Some(t) => match tools_seq_of(items, i + 1) {
                None => None,
                Some(rest) => Some(seq![t] + rest),
            },
        }
    }
}

/// The tool list a well-formed tool-listing result describes: a `tools`
/// array of well-formed tools.
pub open spec fn tools_of(v: JsonView) -> Option<Seq<McpToolView>> {
    match v {
        JsonView::Obj(es) => match obj_lookup(es, "tools"@) {
            Some(JsonView::Arr(items)) => tools_seq_of(items, 0),
            _ => None,
        },
        _ => None,
    }
}

/// Decodes one tool document.
fn tool_from(v: &JsonValue) -> (r: Option<McpTool>)
    ensures
        match r {
            Some(t) => tool_of(view_of(*v)) == Some(t@),
            None => tool_of(view_of(*v)) is None,
        },
{
    let es = match v {
        JsonValue::Obj(es) => es,
        _ => {
            return None;
        },
    };
    let name: String = match obj_get(es, "name") {
        Some(JsonValue::Str(s)) => s.clone(),
        _ => {
            return None;
        },
    };
    let description: String = match obj_get(es, "description") {
        Some(JsonValue::Str(s)) => s.clone(),
        _ => {
            return None;
        },
    };
    let input_schema: JsonValue = match obj_get(es, "inputSchema") {
        Some(x) => clone_json(x),
        None => {
            return None;
        },
    };
    Some(McpTool { name, description, input_schema })
}

/// Decodes the array elements from index `i` on as tools.
fn tools_from_items(items: &Vec<JsonValue>, i: usize) -> (r: Option<Vec<McpTool>>)
    requires
        i <= items@.len(),
    ensures
        match r {
            Some(ts) => tools_seq_of(views_of(items@), i as int) == Some(
                ts@.map_values(|t: McpTool| t@),
            ),
            None => tools_seq_of(views_of(items@), i as int) is None,
        },
    decreases items@.len() - i,
{
    proof {
        crate::json::lemma_views_of(items@);
    }
    if i >= items.len() {
        let ts: Vec<McpTool> = Vec::new();
        proof {
            assert(ts@.map_values(|t: McpTool| t@) =~= Seq::<McpToolView>::empty());
        }
        return Some(ts);
    }
    let t = match tool_from(&items[i]) {
        Some(t) => t,
        None => {
            return None;
        },
    };
    match tools_from_items(items, i + 1) {
        None => None,
        Some(mut rest) => {
            let ghost tv = t@;
            let ghost r0 = rest@;
            rest.insert(0, t);
            proof {
                assert(rest@ =~= seq![rest@[0]] + r0);
                assert(rest@.map_values(|t: McpTool| t@) =~= seq![tv] + r0.map_values(
                    |t: McpTool| t@,
                ));
            }
            Some(rest)
        },
    }
}

/// Decodes a tool-listing result document.
pub fn list_tools_from(v: &JsonValue) -> (r: Option<Vec<McpTool>>)
    ensures
        match r {
            Some(ts) => tools_of(view_of(*v)) == Some(ts@.map_values(|t: McpTool| t@)),
            None => tools_of(view_of(*v)) is None,
        },
{
    let es = match v {
        JsonValue::Obj(es) => es,
        _ => {
            return None;
        },
    };
    match obj_get(es, "tools") {
        Some(JsonValue::Arr(items)) => tools_from_items(items, 0),
        _ => None,
    }
}

/// The content block a well-formed document describes: string `type` and
/// `text`.
pub open spec fn content_of(v: JsonView) -> Option<ToolResultContentView> {
    match v {
        JsonView::Obj(es) => match (obj_lookup(es, "type"@), obj_lookup(es, "text"@)) {
            (Some(JsonView::Str(t)), Some(JsonView::Str(x))) => Some(
                ToolResultContentView { content_type: t, text: x },
            ),
            _ => None,
        },
        _ => None,
    }
}

/// The content blocks described by the array elements from index `i` on.
pub open spec fn contents_seq_of(items: Seq<JsonView>, i: int) -> Option<
    Seq<ToolResultContentView>,
>
    decreases items.len() - i,
{
    if i < 0 || i >= items.len() {
        Some(Seq::empty())
    } else {
        match content_of(items[i]) {
            None => None,
            Some(c) => match contents_seq_of(items, i + 1) {
                None => None,
                Some(rest) => Some(seq![c] + rest),
            },
        }
    }
}

/// The tool result a well-formed document describes: a `content` array of
/// well-formed blocks, and an optional boolean `isError` (null counts as
/// absent).
pub open spec fn call_result_of(v: JsonView) -> Option<CallToolResultView> {
    match v {
        JsonView::Obj(es) => match obj_lookup(es, "content"@) {
            Some(JsonView::Arr(items)) => match contents_seq_of(items, 0) {
                None => None,
                Some(cs) => match obj_lookup(es, "isError"@) {
                    None => Some(CallToolResultView { content: cs, is_error: None }),
                    Some(JsonView::Null) => Some(
                        CallToolResultView { content: cs, is_error: None },
                    ),
                    Some(JsonView::Bool(b)) => Some(
                        CallToolResultView { content: cs, is_error: Some(b) },
                    ),
                    _ => None,
                },
            },
            _ => None,
        },
        _ => None,
    }
}

/// Decodes one content block document.
fn content_from(v: &JsonValue) -> (r: Option<ToolResultContent>)
    ensures
        match r {
            Some(c) => content_of(view_of(*v)) == Some(c@),
            None => content_of(view_of(*v)) is None,
        },
{
    let es = match v {
        JsonValue::Obj(es) => es,
        _ => {
            return None;
        },
    };
    let content_type: String = match obj_get(es, "type") {
        Some(JsonValue::Str(s)) => s.clone(),
        _ => {
            return None;
        },
    };
    let text: String = match obj_get(es, "text") {
        Some(JsonValue::Str(s)) => s.clone(),
        _ => {
            return None;
        },
    };
    Some(ToolResultContent { content_type, text })
}

/// Decodes the array elements from index `i` on as content blocks.
fn contents_from_items(items: &Vec<JsonValue>, i: usize) -> (r: Option<Vec<ToolResultContent>>)
    requires
        i <= items@.len(),
    ensures
        match r {
            Some(cs) => contents_seq_of(views_of(items@), i as int) == Some(
                cs@.map_values(|c: ToolResultContent| c@),
            ),
            None => contents_seq_of(views_of(items@), i as int) is None,
        },
    decreases items@.len() - i,
{
    proof {
        crate::json::lemma_views_of(items@);
    }
    if i >= items.len() {
        let cs: Vec<ToolResultContent> = Vec::new();
        proof {
            assert(cs@.map_values(|c: ToolResultContent| c@) =~= Seq::<
                ToolResultContentView,
            >::empty());
        }
        return Some(cs);
    }
    let c = match content_from(&items[i]) {
        Some(c) => c,
        None => {
            return None;
        },
    };
    match contents_from_items(items, i + 1) {
        None => None,
        Some(mut rest) => {
            let ghost cv = c@;
            let ghost r0 = rest@;
            rest.insert(0, c);
            proof {
                assert(rest@ =~= seq![rest@[0]] + r0);
                assert(rest@.map_values(|c: ToolResultContent| c@) =~= seq![cv] + r0.map_values(
                    |c: ToolResultContent| c@,
                ));
            }
            Some(rest)
        },
    }
}

/// Decodes a tool-invocation result document.
pub fn call_tool_result_from(v: &JsonValue) -> (r: Option<CallToolResult>)
    ensures
        match r {
            Some(c) => call_result_of(view_of(*v)) == Some(c@),
            None => call_result_of(view_of(*v)) is None,
        },
{
    let es = match v {
        JsonValue::Obj(es) => es,
        _ => {
            return None;
        },
    };
    let content = match obj_get(es, "content") {
        Some(JsonValue::Arr(items)) => match contents_from_items(items, 0) {
            Some(cs) => cs,
            None => {
                return None;
            },
        },
        _ => {
            return None;
        },
    };
    let is_error: Option<bool> = match obj_get(es, "isError") {
        None => None,
        Some(JsonValue::Null) => None,
        Some(JsonValue::Bool(b)) => Some(*b),
        _ => {
            return None;
        },
    };
    Some(CallToolResult { content, is_error })
}

} // verus!
