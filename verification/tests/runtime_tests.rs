use mcp_client::error::McpError;
use mcp_client::json::JsonValue;
use mcp_client::protocol::McpServerConfig;
use mcp_client::server::{McpServer, McpServerManager, ReadEvent, StartEvent};
use mcp_client::transport::StdioTransport;

const INIT_REPLY: &str = "{\"jsonrpc\":\"2.0\",\"result\":{\"protocolVersion\":\"2024-11-05\",\"capabilities\":{},\"serverInfo\":{\"name\":\"fake\",\"version\":\"1.0\"}},\"id\":1}";

fn config(id: &str) -> McpServerConfig {
    McpServerConfig {
        id: id.to_string(),
        name: "a test server".to_string(),
        command: "fake-server".to_string(),
        args: vec!["--stdio".to_string()],
        env: None,
    }
}

fn tool_reply(id: u64, text: &str) -> String {
    format!(
        "{{\"jsonrpc\":\"2.0\",\"result\":{{\"content\":[{{\"type\":\"text\",\"text\":\"{}\"}}],\"isError\":false}},\"id\":{}}}",
        text, id
    )
}

fn handshaken_session(id: &str) -> McpServer {
    let mut server = McpServer::new(config(id));
    server.deliver_line(INIT_REPLY.to_string());
    server.initialize(false).unwrap();
    server
}

#[test]
fn errors_render_as_one_line_messages() {
    assert_eq!(
        McpError::NotFound("a".to_string()).message(),
        "server 'a' not found"
    );
    assert_eq!(
        McpError::AlreadyRunning("a".to_string()).message(),
        "server with ID 'a' already running"
    );
    assert_eq!(
        McpError::Protocol { code: -32601, message: "method not found".to_string() }.message(),
        "JSON-RPC error (code: -32601): method not found"
    );
    assert_eq!(McpError::Timeout.message(), "timeout waiting for response");
    assert_eq!(McpError::Closed.message(), "process stdout closed");
    assert_eq!(
        McpError::Decode("xyz".to_string()).message(),
        "failed to parse JSON-RPC response: xyz"
    );
    assert_eq!(
        McpError::Spawn("no such file".to_string()).message(),
        "failed to spawn process: no such file"
    );
    assert_eq!(
        McpError::Io("broken pipe".to_string()).message(),
        "pipe error: broken pipe"
    );
    assert_eq!(McpError::NotInitialized.message(), "session not initialized");
}

#[test]
fn only_pipe_and_wire_failures_kill_a_transport() {
    assert!(McpError::Io("broken pipe".to_string()).is_fatal_to_transport());
    assert!(McpError::Decode("garbage".to_string()).is_fatal_to_transport());
    assert!(McpError::Closed.is_fatal_to_transport());
    assert!(!McpError::Timeout.is_fatal_to_transport());
    assert!(!McpError::Protocol { code: -1, message: "m".to_string() }.is_fatal_to_transport());
    assert!(!McpError::NotFound("x".to_string()).is_fatal_to_transport());
}

#[test]
fn transport_reports_closed_stream() {
    let mut t = StdioTransport::new();
    t.close();
    assert_eq!(t.receive_response(false), Err(McpError::Closed));
}

#[test]
fn transport_delivers_lines_in_order_past_a_bad_one() {
    let mut t = StdioTransport::new();
    t.deliver_line("this is not json".to_string());
    t.deliver_line("{\"jsonrpc\":\"2.0\",\"result\":null,\"id\":1}".to_string());
    match t.receive_response(false) {
        Err(McpError::Decode(text)) => assert_eq!(text, "this is not json"),
        other => panic!("expected a decode failure, got {:?}", other),
    }
    let resp = t.receive_response(false).unwrap();
    assert_eq!(resp.id, JsonValue::Int(1));
    assert_eq!(resp.result, Some(JsonValue::Null));
}

#[test]
fn handshake_succeeds_and_stores_server_info() {
    let mut server = McpServer::new(config("srv"));
    server.deliver_line(INIT_REPLY.to_string());
    assert_eq!(server.initialize(false), Ok(()));
    let info = server.server_info.as_ref().unwrap();
    assert_eq!(info.server_info.name, "fake");
    assert_eq!(info.server_info.version, "1.0");
    assert_eq!(info.protocol_version, "2024-11-05");
    assert_eq!(
        server.transport.outbox[0],
        "{\"jsonrpc\":\"2.0\",\"method\":\"initialize\",\"params\":{\"protocolVersion\":\"2024-11-05\",\"capabilities\":{},\"clientInfo\":{\"name\":\"Orion\",\"version\":\"0.1.0\"}},\"id\":1}"
    );
    assert_eq!(
        server.transport.outbox[1],
        "{\"jsonrpc\":\"2.0\",\"method\":\"notifications/initialized\",\"id\":null}"
    );
}

#[test]
fn handshake_fails_on_error_response() {
    let mut server = McpServer::new(config("srv"));
    server.deliver_line(
        "{\"jsonrpc\":\"2.0\",\"error\":{\"code\":-32000,\"message\":\"nope\"},\"id\":1}"
            .to_string(),
    );
    assert_eq!(
        server.initialize(false),
        Err(McpError::Protocol { code: -32000, message: "nope".to_string() })
    );
    assert!(server.server_info.is_none());
}

#[test]
fn tool_calls_before_handshake_fail_and_send_nothing() {
    let mut server = McpServer::new(config("srv"));
    assert_eq!(server.call_tool("echo", None, true), Err(McpError::NotInitialized));
    assert_eq!(server.list_tools(true), Err(McpError::NotInitialized));
    assert!(server.transport.outbox.is_empty());
    assert_eq!(server.next_request_id, 1);
}

#[test]
fn session_returns_echoed_responses_in_order_and_counts_ids() {
    let mut server = handshaken_session("srv");
    assert_eq!(server.next_request_id, 2);
    server.deliver_line(tool_reply(2, "first"));
    server.deliver_line(tool_reply(3, "second"));
    server.deliver_line(tool_reply(4, "third"));
    let texts: Vec<String> = (0..3)
        .map(|_| {
            let r = server.call_tool("echo", None, false).unwrap();
            r.content[0].text.clone()
        })
        .collect();
    assert_eq!(texts, vec!["first", "second", "third"]);
    assert_eq!(server.next_request_id, 5);
}

#[test]
fn list_tools_decodes_the_tools_member() {
    let mut server = handshaken_session("srv");
    server.deliver_line(
        "{\"jsonrpc\":\"2.0\",\"result\":{\"tools\":[{\"name\":\"echo\",\"description\":\"repeats\",\"inputSchema\":{\"type\":\"object\"}}]},\"id\":2}"
            .to_string(),
    );
    let tools = server.list_tools(false).unwrap();
    assert_eq!(tools.len(), 1);
    assert_eq!(tools[0].name, "echo");
}

#[test]
fn remote_error_maps_to_protocol_error_and_session_stays_usable() {
    let mut server = handshaken_session("srv");
    server.deliver_line(
        "{\"jsonrpc\":\"2.0\",\"error\":{\"code\":-32601,\"message\":\"method not found\"},\"id\":2}"
            .to_string(),
    );
    assert_eq!(
        server.call_tool("missing", None, false),
        Err(McpError::Protocol { code: -32601, message: "method not found".to_string() })
    );
    server.deliver_line(tool_reply(3, "ok"));
    assert!(server.call_tool("echo", None, false).is_ok());
}

#[test]
fn timed_out_call_leaves_late_response_for_the_next_call() {
    let mut server = handshaken_session("srv");
    assert_eq!(server.call_tool("slow", None, true), Err(McpError::Timeout));
    assert_eq!(server.next_request_id, 3);
    server.deliver_line(tool_reply(2, "late answer to the first call"));
    let stale = server.call_tool("fast", None, false).unwrap();
    assert_eq!(stale.content[0].text, "late answer to the first call");
}

#[test]
fn start_rejects_duplicate_id_without_spawning() {
    let mut manager = McpServerManager::new();
    let first = manager.start_server(
        config("a"),
        StartEvent::HandshakeReply(ReadEvent::Line(INIT_REPLY.to_string())),
    );
    assert_eq!(first, Ok("a".to_string()));
    assert_eq!(manager.list_servers().len(), 1);
    let second = manager.start_server(
        config("a"),
        StartEvent::HandshakeReply(ReadEvent::Line(INIT_REPLY.to_string())),
    );
    assert_eq!(second, Err(McpError::AlreadyRunning("a".to_string())));
    assert_eq!(manager.list_servers().len(), 1);
}

#[test]
fn start_surfaces_spawn_failure_without_registering() {
    let mut manager = McpServerManager::new();
    let r = manager.start_server(
        config("a"),
        StartEvent::SpawnFailed("no such binary".to_string()),
    );
    assert_eq!(r, Err(McpError::Spawn("no such binary".to_string())));
    assert!(manager.list_servers().is_empty());
}

#[test]
fn start_discards_session_when_handshake_fails() {
    let mut manager = McpServerManager::new();
    let r = manager.start_server(
        config("a"),
        StartEvent::HandshakeReply(ReadEvent::TimedOut),
    );
    assert_eq!(r, Err(McpError::Timeout));
    assert!(manager.list_servers().is_empty());
    let r2 = manager.start_server(config("a"), StartEvent::HandshakeReply(ReadEvent::Closed));
    assert_eq!(r2, Err(McpError::Closed));
    assert!(manager.list_servers().is_empty());
}

#[test]
fn stop_of_nonexistent_id_reports_not_found_and_changes_nothing() {
    let mut manager = McpServerManager::new();
    assert_eq!(
        manager.stop_server("ghost"),
        Err(McpError::NotFound("ghost".to_string()))
    );
    assert!(manager.list_servers().is_empty());
}

#[test]
fn stop_then_stop_reports_not_found_the_second_time() {
    let mut manager = McpServerManager::new();
    manager
        .start_server(
            config("a"),
            StartEvent::HandshakeReply(ReadEvent::Line(INIT_REPLY.to_string())),
        )
        .unwrap();
    assert_eq!(manager.stop_server("a"), Ok(()));
    assert_eq!(manager.stop_server("a"), Err(McpError::NotFound("a".to_string())));
    assert!(manager.list_servers().is_empty());
}

#[test]
fn registry_exposes_server_info_after_handshake() {
    let mut manager = McpServerManager::new();
    manager
        .start_server(
            config("a"),
            StartEvent::HandshakeReply(ReadEvent::Line(INIT_REPLY.to_string())),
        )
        .unwrap();
    let info = manager.get_server_info("a").unwrap().as_ref().unwrap();
    assert_eq!(info.server_info.name, "fake");
    assert_eq!(info.server_info.version, "1.0");
    assert_eq!(
        manager.get_server_info("b"),
        Err(McpError::NotFound("b".to_string()))
    );
}

#[test]
fn registry_delegates_tool_calls_to_the_addressed_session() {
    let mut manager = McpServerManager::new();
    manager
        .start_server(
            config("a"),
            StartEvent::HandshakeReply(ReadEvent::Line(INIT_REPLY.to_string())),
        )
        .unwrap();
    assert!(manager.deliver_line("a", tool_reply(2, "from a")));
    assert!(!manager.deliver_line("b", tool_reply(2, "nowhere")));
    let r = manager.call_tool("a", "echo", None, false).unwrap();
    assert_eq!(r.content[0].text, "from a");
    assert_eq!(
        manager.call_tool("b", "echo", None, true),
        Err(McpError::NotFound("b".to_string()))
    );
    assert_eq!(
        manager.list_tools("b", true),
        Err(McpError::NotFound("b".to_string()))
    );
}

#[test]
fn registry_reports_closed_stream_to_later_calls() {
    let mut manager = McpServerManager::new();
    manager
        .start_server(
            config("a"),
            StartEvent::HandshakeReply(ReadEvent::Line(INIT_REPLY.to_string())),
        )
        .unwrap();
    assert!(manager.close_stream("a"));
    assert!(!manager.close_stream("b"));
    assert_eq!(
        manager.call_tool("a", "echo", None, false),
        Err(McpError::Closed)
    );
}
