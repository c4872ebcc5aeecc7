use mcp_client::error::McpError;
use mcp_client::json::JsonValue;
use mcp_client::protocol::{
    call_tool_result_from, convert_tools, decode_response, encode_request,
    initialize_result_from, list_tools_from, JsonRpcRequest, McpTool, OpenAITool,
};

fn obj(entries: Vec<(&str, JsonValue)>) -> JsonValue {
    JsonValue::Obj(entries.into_iter().map(|(k, v)| (k.to_string(), v)).collect())
}

#[test]
fn encodes_request_as_one_line() {
    let req = JsonRpcRequest::new(
        "tools/list",
        None,
        JsonValue::Int(7),
    );
    assert_eq!(
        encode_request(&req),
        "{\"jsonrpc\":\"2.0\",\"method\":\"tools/list\",\"id\":7}"
    );
    let req2 = JsonRpcRequest::new(
        "tools/call",
        Some(obj(vec![("name", JsonValue::Str("x".to_string()))])),
        JsonValue::Int(8),
    );
    assert_eq!(
        encode_request(&req2),
        "{\"jsonrpc\":\"2.0\",\"method\":\"tools/call\",\"params\":{\"name\":\"x\"},\"id\":8}"
    );
}

#[test]
fn decodes_success_response() {
    let line = "{\"jsonrpc\":\"2.0\",\"result\":{\"ok\":true},\"id\":3}";
    let resp = decode_response(line).unwrap();
    assert_eq!(resp.jsonrpc, "2.0");
    assert_eq!(resp.id, JsonValue::Int(3));
    assert_eq!(resp.result, Some(obj(vec![("ok", JsonValue::Bool(true))])));
    assert!(resp.error.is_none());
}

#[test]
fn decodes_error_response() {
    let line =
        "{\"jsonrpc\":\"2.0\",\"error\":{\"code\":-32601,\"message\":\"method not found\"},\"id\":3}";
    let resp = decode_response(line).unwrap();
    let err = resp.error.unwrap();
    assert_eq!(err.code, -32601);
    assert_eq!(err.message, "method not found");
    assert!(err.data.is_none());
    assert!(resp.result.is_none());
}

#[test]
fn rejects_lines_that_are_not_responses() {
    for line in [
        "not json at all",
        "[1,2,3]",
        "{\"jsonrpc\":\"2.0\"}",
        "{\"id\":1}",
        "{\"jsonrpc\":2,\"id\":1}",
        "{\"jsonrpc\":\"2.0\",\"id\":1}",
        "{\"jsonrpc\":\"2.0\",\"result\":1,\"error\":{\"code\":1,\"message\":\"m\"},\"id\":1}",
        "{\"jsonrpc\":\"2.0\",\"id\":1,\"error\":{\"code\":\"x\",\"message\":\"m\"}}",
        "{\"jsonrpc\":\"2.0\",\"id\":1,\"error\":{\"code\":4294967296,\"message\":\"m\"}}",
    ] {
        match decode_response(line) {
            Err(McpError::Decode(t)) => assert_eq!(t, line),
            other => panic!("expected a decode failure, got {:?}", other),
        }
    }
}

#[test]
fn decodes_initialize_result() {
    let doc = obj(vec![
        ("protocolVersion", JsonValue::Str("2024-11-05".to_string())),
        ("capabilities", obj(vec![("tools", obj(vec![]))])),
        (
            "serverInfo",
            obj(vec![
                ("name", JsonValue::Str("fake".to_string())),
                ("version", JsonValue::Str("1.0".to_string())),
            ]),
        ),
    ]);
    let ir = initialize_result_from(&doc).unwrap();
    assert_eq!(ir.protocol_version, "2024-11-05");
    assert_eq!(ir.server_info.name, "fake");
    assert_eq!(ir.server_info.version, "1.0");
    assert!(ir.capabilities.tools.is_some());
    assert!(ir.capabilities.logging.is_none());

    let missing_info = obj(vec![(
        "protocolVersion",
        JsonValue::Str("2024-11-05".to_string()),
    )]);
    assert!(initialize_result_from(&missing_info).is_none());
}

#[test]
fn decodes_tool_list() {
    let doc = obj(vec![(
        "tools",
        JsonValue::Arr(vec![obj(vec![
            ("name", JsonValue::Str("echo".to_string())),
            ("description", JsonValue::Str("repeats".to_string())),
            ("inputSchema", obj(vec![("type", JsonValue::Str("object".to_string()))])),
        ])]),
    )]);
    let tools = list_tools_from(&doc).unwrap();
    assert_eq!(tools.len(), 1);
    assert_eq!(tools[0].name, "echo");
    assert_eq!(tools[0].description, "repeats");

    let bad = obj(vec![(
        "tools",
        JsonValue::Arr(vec![obj(vec![("name", JsonValue::Str("x".to_string()))])]),
    )]);
    assert!(list_tools_from(&bad).is_none());
}

#[test]
fn decodes_call_tool_result() {
    let doc = obj(vec![
        (
            "content",
            JsonValue::Arr(vec![obj(vec![
                ("type", JsonValue::Str("text".to_string())),
                ("text", JsonValue::Str("hello".to_string())),
            ])]),
        ),
        ("isError", JsonValue::Bool(false)),
    ]);
    let cr = call_tool_result_from(&doc).unwrap();
    assert_eq!(cr.content.len(), 1);
    assert_eq!(cr.content[0].content_type, "text");
    assert_eq!(cr.content[0].text, "hello");
    assert_eq!(cr.is_error, Some(false));

    let no_flag = obj(vec![("content", JsonValue::Arr(vec![]))]);
    let cr2 = call_tool_result_from(&no_flag).unwrap();
    assert!(cr2.content.is_empty());
    assert_eq!(cr2.is_error, None);

    assert!(call_tool_result_from(&obj(vec![])).is_none());
}

#[test]
fn converts_tool_to_function_calling_shape() {
    let tool = McpTool {
        name: "x".to_string(),
        description: "d".to_string(),
        input_schema: obj(vec![("type", JsonValue::Str("object".to_string()))]),
    };
    let converted = OpenAITool::from(tool);
    assert_eq!(converted.tool_type, "function");
    assert_eq!(converted.function.name, "x");
    assert_eq!(converted.function.description, "d");
    assert_eq!(
        converted.function.parameters,
        obj(vec![("type", JsonValue::Str("object".to_string()))])
    );
}

#[test]
fn converts_tool_lists_in_order() {
    let tools = vec![
        McpTool {
            name: "first".to_string(),
            description: "a".to_string(),
            input_schema: JsonValue::Null,
        },
        McpTool {
            name: "second".to_string(),
            description: "b".to_string(),
            input_schema: JsonValue::Bool(true),
        },
    ];
    let converted = convert_tools(tools);
    assert_eq!(converted.len(), 2);
    assert_eq!(converted[0].tool_type, "function");
    assert_eq!(converted[0].function.name, "first");
    assert_eq!(converted[1].function.name, "second");
    assert_eq!(converted[1].function.parameters, JsonValue::Bool(true));
}
