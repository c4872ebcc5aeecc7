//! Protocol sessions and the server registry, as deterministic state
//! machines.
//!
//! A session wraps one transport with the protocol state: the strictly
//! increasing request-id counter (starting at 1, never reused or reset) and
//! the negotiated handshake result, absent until the handshake completes.
//! The registry maps caller-assigned server ids to running sessions; its
//! operations are serialized behind one mutual-exclusion boundary, so the
//! existence check and the insertion of `start_server` cannot interleave
//! with another start for the same id.

use vstd::prelude::*;
use crate::error::{McpError, McpErrorView};
use crate::json::{json_text, JsonValue, JsonView};
use crate::protocol::{
    call_params_doc, call_result_of, init_params_doc, init_result_of, initialize_params_value,
    initialize_result_from, call_tool_params_value, call_tool_result_from, list_tools_from,
    opt_view, tools_of, CallToolParams, CallToolResult, CallToolResultView, ClientCapabilities,
    ClientCapabilitiesView, ClientInfo, InitializeParams, InitializeParamsView, InitializeResult,
    InitializeResultView, JsonRpcRequest, McpServerConfig, McpTool, McpToolView, RequestView,
};
use crate::transport::{
    fresh_transport, model_call, model_close, model_deliver, model_send, StdioTransport,
    TransportModel, QUEUE_CAPACITY,
};

verus! {

/// One running server: its launch configuration, its transport, the
/// request-id counter, and the handshake result once negotiated.
pub struct McpServer {
    pub config: McpServerConfig,
    pub transport: StdioTransport,
    pub next_request_id: u64,
    pub server_info: Option<InitializeResult>,
}

/// The mathematical shape of a session.
pub struct SessionModel {
    pub config_id: Seq<char>,
    pub transport: TransportModel,
    pub next_request_id: int,
    pub server_info: Option<InitializeResultView>,
}

impl View for McpServer {
    type V = SessionModel;

    open spec fn view(&self) -> SessionModel {
        SessionModel {
            config_id: self.config.id@,
            transport: self.transport@,
            next_request_id: self.next_request_id as int,
            server_info: match self.server_info {
                Some(ir) => Some(ir@),
                None => None,
            },
        }
    }
}

/// The fixed handshake payload this client sends: its protocol version, no
/// capability flags, and its identity.
pub open spec fn client_params() -> InitializeParamsView {
    InitializeParamsView {
        protocol_version: "2024-11-05"@,
        capabilities: ClientCapabilitiesView { experimental: None, sampling: None },
        client_name: "Orion"@,
        client_version: "0.1.0"@,
    }
}

/// What the handshake does to a session.  The next id is taken, the
/// `initialize` request goes out, and the reply decides: a transport
/// failure or a JSON-RPC error is fatal and leaves the result absent; a
/// well-formed result is stored and the `notifications/initialized`
/// notification goes out, fire and forget, with a null id.
pub open spec fn model_initialize(s: SessionModel) -> (SessionModel, Result<(), McpErrorView>) {
    let id = s.next_request_id;
    let call = model_call(
        s.transport,
        "initialize"@,
        Some(init_params_doc(client_params())),
        JsonView::Int(id),
    );
    let s2 = SessionModel {
        config_id: s.config_id,
        transport: call.0,
        next_request_id: id + 1,
        server_info: s.server_info,
    };
    match call.1 {
        Err(e) => (s2, Err(e)),
        Ok(resp) => match resp.error {
            Some(err) => (
                s2,
                Err(McpErrorView::Protocol { code: err.code, message: err.message }),
            ),
            None => {
                // a decoded response without an error carries a result
                let rv = resp.result->0;
                match init_result_of(rv) {
                    None => (s2, Err(McpErrorView::Decode(json_text(rv)))),
                    Some(ir) => (
                        SessionModel {
                            config_id: s.config_id,
                            transport: model_send(
                                call.0,
                                RequestView {
                                    jsonrpc: "2.0"@,
                                    method: "notifications/initialized"@,
                                    params: None,
                                    id: JsonView::Null,
                                },
                            ),
                            next_request_id: id + 1,
                            server_info: Some(ir),
                        },
                        Ok(()),
                    ),
                }
            },
        },
    }
}

/// What listing tools does to a session.  Before the handshake the session
/// is unusable and nothing is sent; otherwise the next id is taken, the
/// `tools/list` request goes out, and the reply's `tools` member is
/// decoded.
pub open spec fn model_list_tools(s: SessionModel) -> (SessionModel, Result<
    Seq<McpToolView>,
    McpErrorView,
>) {
    if s.server_info is None {
        (s, Err(McpErrorView::NotInitialized))
    } else {
        let id = s.next_request_id;
        let call = model_call(s.transport, "tools/list"@, None, JsonView::Int(id));
        let s2 = SessionModel {
            config_id: s.config_id,
            transport: call.0,
            next_request_id: id + 1,
            server_info: s.server_info,
        };
        match call.1 {
            Err(e) => (s2, Err(e)),
            Ok(resp) => match resp.error {
                Some(err) => (
                    s2,
                    Err(McpErrorView::Protocol { code: err.code, message: err.message }),
                ),
                None => {
                    // a decoded response without an error carries a result
                    let rv = resp.result->0;
                    match tools_of(rv) {
                        None => (s2, Err(McpErrorView::Decode(json_text(rv)))),
                        Some(ts) => (s2, Ok(ts)),
                    }
                },
            },
        }
    }
}

/// What invoking a tool does to a session.  Before the handshake the
/// session is unusable and nothing is sent; otherwise the next id is
/// taken, the `tools/call` request goes out with the tool name and the
/// arguments when present, and the reply's result is decoded.
pub open spec fn model_call_tool(
    s: SessionModel,
    name: Seq<char>,
    arguments: Option<JsonView>,
) -> (SessionModel, Result<CallToolResultView, McpErrorView>) {
    if s.server_info is None {
        (s, Err(McpErrorView::NotInitialized))
    } else {
        let id = s.next_request_id;
        let call = model_call(
            s.transport,
            "tools/call"@,
            Some(call_params_doc(name, arguments)),
            JsonView::Int(id),
        );
        let s2 = SessionModel {
            config_id: s.config_id,
            transport: call.0,
            next_request_id: id + 1,
            server_info: s.server_info,
        };
        match call.1 {
            Err(e) => (s2, Err(e)),
            Ok(resp) => match resp.error {
                Some(err) => (
                    s2,
                    Err(McpErrorView::Protocol { code: err.code, message: err.message }),
                ),
                None => {
                    // a decoded response without an error carries a result
                    let rv = resp.result->0;
                    match call_result_of(rv) {
                        None => (s2, Err(McpErrorView::Decode(json_text(rv)))),
                        Some(cr) => (s2, Ok(cr)),
                    }
                },
            },
        }
    }
}

impl McpServer {
    /// A session over a freshly spawned, not yet handshaken child: counter
    /// at 1, no handshake result.
    pub fn new(config: McpServerConfig) -> (s: Self)
        ensures
            s@ == (SessionModel {
                config_id: config.id@,
                transport: fresh_transport(),
                next_request_id: 1,
                server_info: None,
            }),
            s.config == config,
    {
        McpServer {
            config,
            transport: StdioTransport::new(),
            next_request_id: 1,
            server_info: None,
        }
    }

    /// Takes the next request id: ids start at 1, are unique and strictly
    /// increasing for the session's lifetime, and are never reused or
    /// reset even across failed calls, so after N operations the counter
    /// equals its starting value plus N.
    pub fn next_id(&mut self) -> (id: u64)
        requires
            old(self)@.next_request_id < 0x7fffffffffffffff,
        ensures
            id as int == old(self)@.next_request_id,
            final(self)@ == (SessionModel {
                next_request_id: old(self)@.next_request_id + 1,
                ..old(self)@
            }),
    {
        let current = self.next_request_id;
        self.next_request_id = self.next_request_id + 1;
        current
    }

    /// Performs the handshake, as `model_initialize` states.
    pub fn initialize(&mut self, timed_out: bool) -> (r: Result<(), McpError>)
        requires
            old(self)@.next_request_id < 0x7fffffffffffffff,
            timed_out || old(self)@.transport.queue.len() > 0 || old(self)@.transport.closed,
        ensures
            final(self)@ == model_initialize(old(self)@).0,
            (match r {
                Ok(u) => model_initialize(old(self)@).1 == Ok::<(), McpErrorView>(()),
                Err(e) => model_initialize(old(self)@).1 == Err::<(), McpErrorView>(e@),
            }),
    {
        let id = self.next_id();
        let params = InitializeParams {
            protocol_version: String::from_str("2024-11-05"),
            capabilities: ClientCapabilities { experimental: None, sampling: None },
            client_info: ClientInfo {
                name: String::from_str("Orion"),
                version: String::from_str("0.1.0"),
            },
        };
        proof {
            assert(params@ == client_params());
        }
        let pv = initialize_params_value(&params);
        let response = match self.transport.call(
            "initialize",
            Some(pv),
            JsonValue::Int(id as i64),
            timed_out,
        ) {
            Ok(resp) => resp,
            Err(e) => {
                return Err(e);
            },
        };
        match &response.error {
            Some(err) => {
                return Err(McpError::Protocol { code: err.code, message: err.message.clone() });
            },
            None => {},
        }
        let result_value = response.result.unwrap();
        let ir = match initialize_result_from(&result_value) {
            Some(ir) => ir,
            None => {
                return Err(McpError::Decode(crate::json::to_json_text(&result_value)));
            },
        };
        self.server_info = Some(ir);
        let notification = JsonRpcRequest {
            jsonrpc: String::from_str("2.0"),
            method: String::from_str("notifications/initialized"),
            params: None,
            id: JsonValue::Null,
        };
        self.transport.send_request(&notification);
        Ok(())
    }

    /// Lists the tools the server exposes, as `model_list_tools` states.
    pub fn list_tools(&mut self, timed_out: bool) -> (r: Result<Vec<McpTool>, McpError>)
        requires
            old(self)@.next_request_id < 0x7fffffffffffffff,
            timed_out || old(self)@.transport.queue.len() > 0 || old(self)@.transport.closed,
        ensures
            final(self)@ == model_list_tools(old(self)@).0,
            (match r {
                Ok(ts) => model_list_tools(old(self)@).1 == Ok::<Seq<McpToolView>, McpErrorView>(
                    ts@.map_values(|t: McpTool| t@),
                ),
                Err(e) => model_list_tools(old(self)@).1 == Err::<Seq<McpToolView>, McpErrorView>(
                    e@,
                ),
            }),
    {
        if self.server_info.is_none() {
            return Err(McpError::NotInitialized);
        }
        let id = self.next_id();
        let response = match self.transport.call(
            "tools/list",
            None,
            JsonValue::Int(id as i64),
            timed_out,
        ) {
            Ok(resp) => resp,
            Err(e) => {
                return Err(e);
            },
        };
        match &response.error {
            Some(err) => {
                return Err(McpError::Protocol { code: err.code, message: err.message.clone() });
            },
            None => {},
        }
        let result_value = response.result.unwrap();
        match list_tools_from(&result_value) {
            Some(ts) => Ok(ts),
            None => Err(McpError::Decode(crate::json::to_json_text(&result_value))),
        }
    }

    /// Invokes one tool by name, as `model_call_tool` states.
    pub fn call_tool(
        &mut self,
        tool_name: &str,
        arguments: Option<JsonValue>,
        timed_out: bool,
    ) -> (r: Result<CallToolResult, McpError>)
        requires
            old(self)@.next_request_id < 0x7fffffffffffffff,
            timed_out || old(self)@.transport.queue.len() > 0 || old(self)@.transport.closed,
        ensures
            final(self)@ == model_call_tool(old(self)@, tool_name@, opt_view(arguments)).0,
            (match r {
                Ok(cr) => model_call_tool(old(self)@, tool_name@, opt_view(arguments)).1 == Ok::<
                    CallToolResultView,
                    McpErrorView,
                >(cr@),
                Err(e) => model_call_tool(old(self)@, tool_name@, opt_view(arguments)).1 == Err::<
                    CallToolResultView,
                    McpErrorView,
                >(e@),
            }),
    {
        if self.server_info.is_none() {
            return Err(McpError::NotInitialized);
        }
        let params = CallToolParams { name: tool_name.to_owned(), arguments };
        let pv = call_tool_params_value(&params);
        let id = self.next_id();
        let response = match self.transport.call(
            "tools/call",
            Some(pv),
            JsonValue::Int(id as i64),
            timed_out,
        ) {
            Ok(resp) => resp,
            Err(e) => {
                return Err(e);
            },
        };
        match &response.error {
            Some(err) => {
                return Err(McpError::Protocol { code: err.code, message: err.message.clone() });
            },
            None => {},
        }
        let result_value = response.result.unwrap();
        match call_tool_result_from(&result_value) {
            Some(cr) => Ok(cr),
            None => Err(McpError::Decode(crate::json::to_json_text(&result_value))),
        }
    }

    /// The reader task delivers one output line to this session.
    pub fn deliver_line(&mut self, line: String)
        requires
            old(self)@.transport.queue.len() < QUEUE_CAPACITY as int,
        ensures
            final(self)@ == (SessionModel {
                transport: model_deliver(old(self)@.transport, line@),
                ..old(self)@
            }),
    {
        self.transport.deliver_line(line);
    }

    /// The reader task reports that the child's output stream closed.
    pub fn close_stream(&mut self)
        ensures
            final(self)@ == (SessionModel {
                transport: model_close(old(self)@.transport),
                ..old(self)@
            }),
    {
        self.transport.close();
    }
}

/// A tool operation on a session with no handshake result fails with
/// `NotInitialized` and changes nothing: in particular no request line is
/// written, so no tool call is attempted against an un-initialized
/// session.
pub proof fn lemma_tool_call_needs_handshake(
    s: SessionModel,
    name: Seq<char>,
    arguments: Option<JsonView>,
)
    requires
        s.server_info is None,
    ensures
        model_call_tool(s, name, arguments).0 == s,
        model_call_tool(s, name, arguments).1 == Err::<CallToolResultView, McpErrorView>(
            McpErrorView::NotInitialized,
        ),
        model_list_tools(s).0 == s,
        model_list_tools(s).1 == Err::<Seq<McpToolView>, McpErrorView>(
            McpErrorView::NotInitialized,
        ),
{
}

/// The response a mock child's line answers a tool call with, when the
/// line is a well-formed success response whose result is a well-formed
/// tool result.
pub open spec fn well_formed_reply(line: Seq<char>) -> Option<CallToolResultView> {
    match crate::protocol::spec_decode_response(line) {
        Some(resp) => match (resp.error, resp.result) {
            (None, Some(rv)) => call_result_of(rv),
            _ => None,
        },
        None => None,
    }
}

/// The session after issuing one tool call per name, one at a time, in
/// order, with the matching arguments, and the results of those calls.
pub open spec fn run_tool_calls(
    s: SessionModel,
    names: Seq<Seq<char>>,
    args: Seq<Option<JsonView>>,
) -> (SessionModel, Seq<Result<CallToolResultView, McpErrorView>>)
    decreases names.len(),
{
    if names.len() == 0 {
        (s, Seq::empty())
    } else {
        let first = model_call_tool(s, names[0], if args.len() > 0 {
            args[0]
        } else {
            None
        });
        let rest = run_tool_calls(first.0, names.drop_first(), if args.len() > 0 {
            args.drop_first()
        } else {
            args
        });
        (rest.0, seq![first.1] + rest.1)
    }
}

/// Against a mock child that has echoed one well-formed response per call,
/// in order, a session returns those responses in the same order with
/// their results decoded, and the request-id counter after N calls equals
/// its starting value plus N.
pub proof fn lemma_session_echo(
    s: SessionModel,
    names: Seq<Seq<char>>,
    args: Seq<Option<JsonView>>,
)
    requires
        s.server_info is Some,
        args.len() == names.len(),
        names.len() <= s.transport.queue.len(),
        forall|i: int|
            0 <= i < names.len() ==> well_formed_reply(#[trigger] s.transport.queue[i]) is Some,
    ensures
        run_tool_calls(s, names, args).0.next_request_id == s.next_request_id + names.len(),
        run_tool_calls(s, names, args).0.transport.queue == s.transport.queue.skip(
            names.len() as int,
        ),
        run_tool_calls(s, names, args).0.server_info == s.server_info,
        run_tool_calls(s, names, args).1.len() == names.len(),
        forall|i: int|
            0 <= i < names.len() ==> run_tool_calls(s, names, args).1[i] == Ok::<
                CallToolResultView,
                McpErrorView,
            >(well_formed_reply(s.transport.queue[i])->0),
    decreases names.len(),
{
    if names.len() == 0 {
        assert(s.transport.queue.skip(0) =~= s.transport.queue);
    } else {
        let first = model_call_tool(s, names[0], args[0]);
        assert(well_formed_reply(s.transport.queue[0]) is Some);
        assert(first.0.transport.queue =~= s.transport.queue.drop_first());
        assert(first.1 == Ok::<CallToolResultView, McpErrorView>(
            well_formed_reply(s.transport.queue[0])->0,
        ));
        let s1 = first.0;
        assert forall|i: int|
            0 <= i < names.drop_first().len() implies well_formed_reply(
            #[trigger] s1.transport.queue[i],
        ) is Some by {
            assert(s1.transport.queue[i] == s.transport.queue[i + 1]);
        }
        lemma_session_echo(s1, names.drop_first(), args.drop_first());
        let rest = run_tool_calls(s1, names.drop_first(), args.drop_first());
        assert(rest.0.transport.queue == s1.transport.queue.skip(names.len() - 1));
        assert(s1.transport.queue.skip(names.len() - 1) =~= s.transport.queue.skip(
            names.len() as int,
        ));
        assert forall|i: int|
            0 <= i < names.len() implies run_tool_calls(s, names, args).1[i] == Ok::<
            CallToolResultView,
            McpErrorView,
        >(well_formed_reply(s.transport.queue[i])->0) by {
            if i > 0 {
                assert(run_tool_calls(s, names, args).1[i] == rest.1[i - 1]);
                assert(s1.transport.queue[i - 1] == s.transport.queue[i]);
            }
        }
    }
}

/// What the wait for a starting server's handshake reply observed: a line
/// arrived, the output stream closed first, or the deadline elapsed.
pub enum ReadEvent {
    Line(String),
    Closed,
    TimedOut,
}

/// The mathematical shape of a read event.
pub enum ReadEventView {
    Line(Seq<char>),
    Closed,
    TimedOut,
}

impl View for ReadEvent {
    type V = ReadEventView;

    open spec fn view(&self) -> ReadEventView {
        match self {
            ReadEvent::Line(l) => ReadEventView::Line(l@),
            ReadEvent::Closed => ReadEventView::Closed,
            ReadEvent::TimedOut => ReadEventView::TimedOut,
        }
    }
}

/// How starting a server went outside the registry: the process failed to
/// launch, or it launched and the handshake wait observed this reply.
pub enum StartEvent {
    SpawnFailed(String),
    HandshakeReply(ReadEvent),
}

/// The mathematical shape of a start event.
pub enum StartEventView {
    SpawnFailed(Seq<char>),
    HandshakeReply(ReadEventView),
}

impl View for StartEvent {
    type V = StartEventView;

    open spec fn view(&self) -> StartEventView {
        match self {
            StartEvent::SpawnFailed(m) => StartEventView::SpawnFailed(m@),
            StartEvent::HandshakeReply(ev) => StartEventView::HandshakeReply(ev@),
        }
    }
}

/// The registry: a map from caller-assigned server id to running session,
/// behind one mutual-exclusion boundary.
pub struct McpServerManager {
    pub servers: Vec<(String, McpServer)>,
}

impl View for McpServerManager {
    type V = Seq<(Seq<char>, SessionModel)>;

    open spec fn view(&self) -> Seq<(Seq<char>, SessionModel)> {
        self.servers@.map_values(|p: (String, McpServer)| (p.0@, p.1@))
    }
}

/// The first index holding `id`, or the length when none does.
pub open spec fn reg_find(m: Seq<(Seq<char>, SessionModel)>, id: Seq<char>) -> int
    decreases m.len(),
{
    if m.len() == 0 {
        0
    } else if m[0].0 == id {
        0
    } else {
        1 + reg_find(m.drop_first(), id)
    }
}

/// Whether some entry holds `id`.
pub open spec fn reg_has(m: Seq<(Seq<char>, SessionModel)>, id: Seq<char>) -> bool {
    reg_find(m, id) < m.len()
}

/// The registry's invariant: ids are unique keys.
pub open spec fn reg_wf(m: Seq<(Seq<char>, SessionModel)>) -> bool {
    forall|i: int, j: int| 0 <= i < j < m.len() ==> m[i].0 != m[j].0
}

pub proof fn lemma_reg_find(m: Seq<(Seq<char>, SessionModel)>, id: Seq<char>)
    ensures
        0 <= reg_find(m, id) <= m.len(),
        reg_find(m, id) < m.len() ==> m[reg_find(m, id)].0 == id,
        forall|k: int| 0 <= k < reg_find(m, id) ==> m[k].0 != id,
    decreases m.len(),
{
    if m.len() > 0 && m[0].0 != id {
        lemma_reg_find(m.drop_first(), id);
        assert forall|k: int| 0 <= k < reg_find(m, id) implies m[k].0 != id by {
            if k > 0 {
                assert(m.drop_first()[k - 1] == m[k]);
            }
        }
        if reg_find(m, id) < m.len() {
            assert(m.drop_first()[reg_find(m, id) - 1] == m[reg_find(m, id)]);
        }
    }
}

/// Replacing an entry's session, keeping its key, preserves the unique
/// keys.
proof fn lemma_wf_update(m: Seq<(Seq<char>, SessionModel)>, i: int, e: (Seq<char>, SessionModel))
    requires
        reg_wf(m),
        0 <= i < m.len(),
        e.0 == m[i].0,
    ensures
        reg_wf(m.update(i, e)),
{
    let m2 = m.update(i, e);
    assert forall|p: int, q: int| 0 <= p < q < m2.len() implies m2[p].0 != m2[q].0 by {
        assert(m2[p].0 == m[p].0);
        assert(m2[q].0 == m[q].0);
    }
}

/// What starting a server does to the registry.  An id already present is
/// rejected before anything else happens; a launch failure is surfaced; a
/// reply is fed to a fresh session's handshake, and only on full success
/// is the session inserted under the id — a failed start leaves the
/// registry exactly as it was, and the dropped session's child with it.
pub open spec fn model_start(
    m: Seq<(Seq<char>, SessionModel)>,
    id: Seq<char>,
    ev: StartEventView,
) -> (Seq<(Seq<char>, SessionModel)>, Result<Seq<char>, McpErrorView>) {
    if reg_has(m, id) {
        (m, Err(McpErrorView::AlreadyRunning(id)))
    } else {
        match ev {
            StartEventView::SpawnFailed(msg) => (m, Err(McpErrorView::Spawn(msg))),
            StartEventView::HandshakeReply(rev) => {
                let t0 = match rev {
                    ReadEventView::Line(l) => model_deliver(fresh_transport(), l),
                    ReadEventView::Closed => model_close(fresh_transport()),
                    ReadEventView::TimedOut => fresh_transport(),
                };
                let s0 = SessionModel {
                    config_id: id,
                    transport: t0,
                    next_request_id: 1,
                    server_info: None,
                };
                let hs = model_initialize(s0);
                match hs.1 {
                    Err(e) => (m, Err(e)),
                    Ok(u) => (m.push((id, hs.0)), Ok(id)),
                }
            },
        }
    }
}

/// What stopping a server does to the registry: the entry is removed and
/// the session destroyed (terminating its child and reader), or `NotFound`
/// with no state mutation.
pub open spec fn model_stop(m: Seq<(Seq<char>, SessionModel)>, id: Seq<char>) -> (Seq<
    (Seq<char>, SessionModel),
>, Result<(), McpErrorView>) {
    if reg_has(m, id) {
        (m.remove(reg_find(m, id)), Ok(()))
    } else {
        (m, Err(McpErrorView::NotFound(id)))
    }
}

impl McpServerManager {
    /// An empty registry.
    pub fn new() -> (r: Self)
        ensures
            r@ == Seq::<(Seq<char>, SessionModel)>::empty(),
            reg_wf(r@),
    {
        let r = McpServerManager { servers: Vec::new() };
        proof {
            assert(r@ =~= Seq::<(Seq<char>, SessionModel)>::empty());
        }
        r
    }

    /// The index of the entry holding this id.
    fn find_index(&self, server_id: &str) -> (r: Option<usize>)
        ensures
            match r {
                Some(i) => i as int == reg_find(self@, server_id@) && (i as int) < self@.len(),
                None => !reg_has(self@, server_id@),
            },
    {
        proof {
            lemma_reg_find(self@, server_id@);
        }
        let ks: String = server_id.to_owned();
        let n = self.servers.len();
        let mut i: usize = 0;
        while i < n
            invariant
                n == self.servers@.len(),
                i <= n,
                ks@ == server_id@,
                self@.len() == n,
                forall|q: int| 0 <= q < n ==> #[trigger] self@[q] == (
                    self.servers@[q].0@,
                    self.servers@[q].1@,
                ),
                forall|k: int| 0 <= k < i ==> self@[k].0 != server_id@,
                0 <= reg_find(self@, server_id@) <= n,
                reg_find(self@, server_id@) < n ==> self@[reg_find(self@, server_id@)].0
                    == server_id@,
                forall|k: int| 0 <= k < reg_find(self@, server_id@) ==> self@[k].0 != server_id@,
            decreases n - i,
        {
            if self.servers[i].0 == ks {
                proof {
                    assert(self@[i as int].0 == server_id@);
                    assert(reg_find(self@, server_id@) == i as int);
                }
                return Some(i);
            }
            i = i + 1;
        }
        None
    }

    /// Starts a server, as `model_start` states: reject a duplicate id
    /// first (no second process is spawned), surface a launch failure,
    /// otherwise run the handshake on a fresh session and insert it only
    /// on full success.
    pub fn start_server(&mut self, config: McpServerConfig, outcome: StartEvent) -> (r: Result<
        String,
        McpError,
    >)
        requires
            reg_wf(old(self)@),
        ensures
            reg_wf(final(self)@),
            final(self)@ == model_start(old(self)@, config.id@, outcome@).0,
            (match r {
                Ok(sid) => model_start(old(self)@, config.id@, outcome@).1 == Ok::<
                    Seq<char>,
                    McpErrorView,
                >(sid@),
                Err(e) => model_start(old(self)@, config.id@, outcome@).1 == Err::<
                    Seq<char>,
                    McpErrorView,
                >(e@),
            }),
    {
        let server_id = config.id.clone();
        match self.find_index(server_id.as_str()) {
            Some(_) => {
                return Err(McpError::AlreadyRunning(server_id));
            },
            None => {},
        }
        match outcome {
            StartEvent::SpawnFailed(msg) => Err(McpError::Spawn(msg)),
            StartEvent::HandshakeReply(rev) => {
                let mut server = McpServer::new(config);
                let timed_out = match rev {
                    ReadEvent::Line(l) => {
                        server.deliver_line(l);
                        false
                    },
                    ReadEvent::Closed => {
                        server.close_stream();
                        false
                    },
                    ReadEvent::TimedOut => true,
                };
                match server.initialize(timed_out) {
                    Err(e) => Err(e),
                    Ok(_) => {
                        let ghost m0 = old(self)@;
                        let ghost sv = server@;
                        self.servers.push((server_id.clone(), server));
                        proof {
                            assert(self@ =~= m0.push((server_id@, sv)));
                            lemma_reg_find(m0, server_id@);
                            assert forall|i: int, j: int|
                                0 <= i < j < self@.len() implies self@[i].0 != self@[j].0 by {
                                if j < m0.len() {
                                } else {
                                    assert(self@[j].0 == server_id@);
                                    assert(m0[i].0 != server_id@);
                                }
                            }
                        }
                        Ok(server_id)
                    },
                }
            },
        }
    }

    /// Stops a server, as `model_stop` states: the entry is removed (the
    /// session, its transport, its reader task and its child process go
    /// with it), or `NotFound` with no state mutation.
    pub fn stop_server(&mut self, server_id: &str) -> (r: Result<(), McpError>)
        requires
            reg_wf(old(self)@),
        ensures
            reg_wf(final(self)@),
            final(self)@ == model_stop(old(self)@, server_id@).0,
            (match r {
                Ok(u) => model_stop(old(self)@, server_id@).1 == Ok::<(), McpErrorView>(()),
                Err(e) => model_stop(old(self)@, server_id@).1 == Err::<(), McpErrorView>(e@),
            }),
    {
        match self.find_index(server_id) {
            None => Err(McpError::NotFound(server_id.to_owned())),
            Some(i) => {
                let ghost m0 = self@;
                self.servers.remove(i);
                proof {
                    assert(self@ =~= m0.remove(i as int));
                    m0.remove_ensures(i as int);
                    assert forall|p: int, q: int|
                        0 <= p < q < self@.len() implies self@[p].0 != self@[q].0 by {
                        let pp = if p < i as int { p } else { p + 1 };
                        let qq = if q < i as int { q } else { q + 1 };
                        assert(self@[p] == m0[pp]);
                        assert(self@[q] == m0[qq]);
                    }
                }
                Ok(())
            },
        }
    }

    /// The ids of the currently registered servers, as a snapshot;
    /// insertion order is not part of the contract.
    pub fn list_servers(&self) -> (r: Vec<String>)
        ensures
            r@.map_values(|s: String| s@) == self@.map_values(
                |p: (Seq<char>, SessionModel)| p.0,
            ),
    {
        let mut out: Vec<String> = Vec::new();
        let n = self.servers.len();
        let mut i: usize = 0;
        while i < n
            invariant
                n == self.servers@.len(),
                i <= n,
                self@.len() == n,
                forall|q: int| 0 <= q < n ==> #[trigger] self@[q] == (
                    self.servers@[q].0@,
                    self.servers@[q].1@,
                ),
                out@.len() == i,
                forall|q: int| 0 <= q < i ==> (#[trigger] out@[q])@ == self@[q].0,
            decreases n - i,
        {
            out.push(self.servers[i].0.clone());
            i = i + 1;
        }
        proof {
            assert(out@.map_values(|s: String| s@) =~= self@.map_values(
                |p: (Seq<char>, SessionModel)| p.0,
            ));
        }
        out
    }

    /// The stored handshake result of a server: absent when the handshake
    /// has not completed, `NotFound` when no such server is registered.
    pub fn get_server_info(&self, server_id: &str) -> (r: Result<
        &Option<InitializeResult>,
        McpError,
    >)
        ensures
            (match r {
                Ok(info) => reg_has(self@, server_id@) && (match info {
                    Some(ir) => Some(ir@),
                    None => None,
                }) == self@[reg_find(self@, server_id@)].1.server_info,
                Err(e) => !reg_has(self@, server_id@) && e@ == McpErrorView::NotFound(server_id@),
            }),
    {
        match self.find_index(server_id) {
            None => Err(McpError::NotFound(server_id.to_owned())),
            Some(i) => Ok(&self.servers[i].1.server_info),
        }
    }

    /// Lists the tools of the addressed server: `NotFound` when absent,
    /// otherwise delegated to the session, whose state advances in place.
    pub fn list_tools(&mut self, server_id: &str, timed_out: bool) -> (r: Result<
        Vec<McpTool>,
        McpError,
    >)
        requires
            reg_wf(old(self)@),
            reg_has(old(self)@, server_id@) ==> ({
                let s = old(self)@[reg_find(old(self)@, server_id@)].1;
                s.next_request_id < 0x7fffffffffffffff && (timed_out || s.transport.queue.len() > 0
                    || s.transport.closed)
            }),
        ensures
            reg_wf(final(self)@),
            !reg_has(old(self)@, server_id@) ==> final(self)@ == old(self)@ && (r matches Err(e)
                && e@ == McpErrorView::NotFound(server_id@)),
            reg_has(old(self)@, server_id@) ==> ({
                let i = reg_find(old(self)@, server_id@);
                let step = model_list_tools(old(self)@[i].1);
                &&& final(self)@ == old(self)@.update(i, (old(self)@[i].0, step.0))
                &&& (match r {
                    Ok(ts) => step.1 == Ok::<Seq<McpToolView>, McpErrorView>(
                        ts@.map_values(|t: McpTool| t@),
                    ),
                    Err(e) => step.1 == Err::<Seq<McpToolView>, McpErrorView>(e@),
                })
            }),
    {
        match self.find_index(server_id) {
            None => Err(McpError::NotFound(server_id.to_owned())),
            Some(i) => {
                let ghost m0 = self@;
                let ghost fi = reg_find(m0, server_id@);
                let mut entry = self.servers.remove(i);
                let out = entry.1.list_tools(timed_out);
                self.servers.insert(i, entry);
                proof {
                    assert(self@ =~= m0.update(fi, (m0[fi].0, self@[fi].1)));
                    lemma_wf_update(m0, fi, (m0[fi].0, self@[fi].1));
                }
                out
            },
        }
    }

    /// Invokes a tool on the addressed server: `NotFound` when absent,
    /// otherwise delegated to the session, whose state advances in place.
    pub fn call_tool(
        &mut self,
        server_id: &str,
        tool_name: &str,
        arguments: Option<JsonValue>,
        timed_out: bool,
    ) -> (r: Result<CallToolResult, McpError>)
        requires
            reg_wf(old(self)@),
            reg_has(old(self)@, server_id@) ==> ({
                let s = old(self)@[reg_find(old(self)@, server_id@)].1;
                s.next_request_id < 0x7fffffffffffffff && (timed_out || s.transport.queue.len() > 0
                    || s.transport.closed)
            }),
        ensures
            reg_wf(final(self)@),
            !reg_has(old(self)@, server_id@) ==> final(self)@ == old(self)@ && (r matches Err(e)
                && e@ == McpErrorView::NotFound(server_id@)),
            reg_has(old(self)@, server_id@) ==> ({
                let i = reg_find(old(self)@, server_id@);
                let step = model_call_tool(old(self)@[i].1, tool_name@, opt_view(arguments));
                &&& final(self)@ == old(self)@.update(i, (old(self)@[i].0, step.0))
                &&& (match r {
                    Ok(cr) => step.1 == Ok::<CallToolResultView, McpErrorView>(cr@),
                    Err(e) => step.1 == Err::<CallToolResultView, McpErrorView>(e@),
                })
            }),
    {
        match self.find_index(server_id) {
            None => Err(McpError::NotFound(server_id.to_owned())),
            Some(i) => {
                let ghost m0 = self@;
                let ghost fi = reg_find(m0, server_id@);
                let mut entry = self.servers.remove(i);
                let out = entry.1.call_tool(tool_name, arguments, timed_out);
                self.servers.insert(i, entry);
                proof {
                    assert(self@ =~= m0.update(fi, (m0[fi].0, self@[fi].1)));
                    lemma_wf_update(m0, fi, (m0[fi].0, self@[fi].1));
                }
                out
            },
        }
    }

    /// The reader task reports that the addressed server's output stream
    /// closed; reports whether such a server was registered.
    pub fn close_stream(&mut self, server_id: &str) -> (closed: bool)
        requires
            reg_wf(old(self)@),
        ensures
            reg_wf(final(self)@),
            closed == reg_has(old(self)@, server_id@),
            !closed ==> final(self)@ == old(self)@,
            closed ==> ({
                let i = reg_find(old(self)@, server_id@);
                let s = old(self)@[i].1;
                final(self)@ == old(self)@.update(
                    i,
                    (
                        old(self)@[i].0,
                        SessionModel { transport: model_close(s.transport), ..s },
                    ),
                )
            }),
    {
        match self.find_index(server_id) {
            None => false,
            Some(i) => {
                let ghost m0 = self@;
                let ghost fi = reg_find(m0, server_id@);
                let mut entry = self.servers.remove(i);
                entry.1.close_stream();
                self.servers.insert(i, entry);
                proof {
                    assert(self@ =~= m0.update(fi, (m0[fi].0, self@[fi].1)));
                    lemma_wf_update(m0, fi, (m0[fi].0, self@[fi].1));
                }
                true
            },
        }
    }

    /// The reader task delivers one output line to the addressed server's
    /// session; reports whether such a server was registered.
    pub fn deliver_line(&mut self, server_id: &str, line: String) -> (delivered: bool)
        requires
            reg_wf(old(self)@),
            reg_has(old(self)@, server_id@) ==> old(self)@[reg_find(
                old(self)@,
                server_id@,
            )].1.transport.queue.len() < QUEUE_CAPACITY as int,
        ensures
            reg_wf(final(self)@),
            delivered == reg_has(old(self)@, server_id@),
            !delivered ==> final(self)@ == old(self)@,
            delivered ==> ({
                let i = reg_find(old(self)@, server_id@);
                let s = old(self)@[i].1;
                final(self)@ == old(self)@.update(
                    i,
                    (
                        old(self)@[i].0,
                        SessionModel { transport: model_deliver(s.transport, line@), ..s },
                    ),
                )
            }),
    {
        match self.find_index(server_id) {
            None => false,
            Some(i) => {
                let ghost m0 = self@;
                let ghost fi = reg_find(m0, server_id@);
                let mut entry = self.servers.remove(i);
                entry.1.deliver_line(line);
                self.servers.insert(i, entry);
                proof {
                    assert(self@ =~= m0.update(fi, (m0[fi].0, self@[fi].1)));
                    lemma_wf_update(m0, fi, (m0[fi].0, self@[fi].1));
                }
                true
            },
        }
    }
}

impl Default for McpServerManager {
    /// The empty registry.
    fn default() -> (r: Self)
        ensures
            r@ == Seq::<(Seq<char>, SessionModel)>::empty(),
            reg_wf(r@),
    {
        McpServerManager::new()
    }
}

/// Stopping a stopped server reports `NotFound`: a successful stop removes
/// the only entry under the id, so a second stop of the same id finds
/// nothing and mutates nothing.
pub proof fn lemma_stop_after_stop(m: Seq<(Seq<char>, SessionModel)>, id: Seq<char>)
    requires
        reg_wf(m),
        reg_has(m, id),
    ensures
        model_stop(m, id).1 == Ok::<(), McpErrorView>(()),
        !reg_has(model_stop(m, id).0, id),
        model_stop(model_stop(m, id).0, id).1 == Err::<(), McpErrorView>(
            McpErrorView::NotFound(id),
        ),
        model_stop(model_stop(m, id).0, id).0 == model_stop(m, id).0,
{
    let i = reg_find(m, id);
    lemma_reg_find(m, id);
    let m1 = m.remove(i);
    m.remove_ensures(i);
    lemma_reg_find(m1, id);
    let f = reg_find(m1, id);
    if f < m1.len() {
        if f < i {
            assert(m1[f] == m[f]);
            assert(m[f].0 != id);
        } else {
            assert(m1[f] == m[f + 1]);
            assert(m[i].0 == id);
            assert(m[f + 1].0 != m[i].0);
        }
        assert(false);
    }
}

/// Starting a server whose id is already registered is rejected before any
/// process is spawned: the registry is unchanged whatever the launch or
/// handshake would have reported.
pub proof fn lemma_duplicate_start_rejected(
    m: Seq<(Seq<char>, SessionModel)>,
    id: Seq<char>,
    ev: StartEventView,
)
    requires
        reg_has(m, id),
    ensures
        model_start(m, id, ev).0 == m,
        model_start(m, id, ev).1 == Err::<Seq<char>, McpErrorView>(
            McpErrorView::AlreadyRunning(id),
        ),
{
}

} // verus!
