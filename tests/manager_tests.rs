use mcp_manager::catalog::aggregate_tools;
use mcp_manager::config::{ConfigError, MCPServerConfig};
use mcp_manager::json::{JsonNumber, JsonValue};
use mcp_manager::manager::{MCPServerManager, McpError, StartAction, ToolCallResult};
use mcp_manager::schema::{MCPTool, MCPToolInputSchema};

fn config(name: &str, transport: &str, command: Option<&str>) -> MCPServerConfig {
    MCPServerConfig {
        name: name.to_string(),
        command: command.map(|c| c.to_string()),
        args: None,
        env: None,
        transport: transport.to_string(),
        url: None,
        port: None,
    }
}

fn tool(name: &str) -> MCPTool {
    MCPTool { name: name.to_string(), description: format!("{} tool", name), input_schema: MCPToolInputSchema::default() }
}

/// Runs one start the way the surrounding application does, with `handle`
/// standing for the spawned process; returns whether a process was spawned.
fn start(m: &mut MCPServerManager<u32>, c: &MCPServerConfig, handle: u32) -> bool {
    match m.start_server(c) {
        Ok(StartAction::Spawn(req)) => {
            m.register(req.name, handle);
            true
        }
        Ok(_) => false,
        Err(_) => false,
    }
}

#[test]
fn start_twice_keeps_one_connection() {
    let mut m = MCPServerManager::<u32>::new();
    let c = config("A", "stdio", Some("cat"));
    assert!(start(&mut m, &c, 1));
    assert!(!start(&mut m, &c, 2));
    assert_eq!(m.get_connected_servers(), vec!["A".to_string()]);
    assert_eq!(m.list_tools("A").ok().copied(), Some(1));
    match m.start_server(&c) {
        Ok(StartAction::AlreadyConnected(msg)) => assert_eq!(msg, "MCP server already connected: A"),
        _ => panic!("expected the existing connection to be kept"),
    }
}

#[test]
fn stop_unknown_server_is_harmless() {
    let mut m = MCPServerManager::<u32>::new();
    assert!(m.stop_server("ghost").is_none());
    m.register("B".to_string(), 5);
    assert!(m.stop_server("ghost").is_none());
    assert_eq!(m.get_connected_servers(), vec!["B".to_string()]);
    assert_eq!(m.stop_server("B"), Some(5));
    assert!(m.stop_server("B").is_none());
}

#[test]
fn call_on_unknown_server_reports_not_found() {
    let m = MCPServerManager::<u32>::new();
    match m.call_tool("nowhere", "echo", JsonValue::Null) {
        Err(r) => {
            assert!(!r.success);
            assert!(r.result.is_none());
            assert_eq!(r.error, Some("Server 'nowhere' not found".to_string()));
        }
        Ok(_) => panic!("expected a failed result"),
    }
}

#[test]
fn call_on_connected_server_coerces_arguments() {
    let mut m = MCPServerManager::<u32>::new();
    m.register("A".to_string(), 1);
    let req = m.call_tool("A", "echo", JsonValue::Number(JsonNumber::PosInt(4))).ok().unwrap();
    assert_eq!(req.server_name, "A");
    assert_eq!(req.tool_name, "echo");
    assert!(req.arguments.is_empty());
    let args = JsonValue::Object(vec![("text".to_string(), JsonValue::String("hi".to_string()))]);
    let req = m.call_tool("A", "echo", args).ok().unwrap();
    assert_eq!(req.arguments.len(), 1);
    assert_eq!(req.arguments[0].0, "text");
}

#[test]
fn call_outcomes_become_consistent_results() {
    let ok = ToolCallResult::from_outcome(Ok(JsonValue::Bool(true)));
    assert!(ok.success && ok.result.is_some() && ok.error.is_none());
    let failed = ToolCallResult::from_outcome(Err("tool crashed".to_string()));
    assert!(!failed.success && failed.result.is_none());
    assert_eq!(failed.error, Some("tool crashed".to_string()));
}

#[test]
fn start_alive_stop_scenario() {
    let mut m = MCPServerManager::<u32>::new();
    assert!(start(&mut m, &config("A", "stdio", Some("cat")), 7));
    assert!(m.is_server_alive("A"));
    assert_eq!(m.stop_server("A"), Some(7));
    assert!(!m.is_server_alive("A"));
}

#[test]
fn start_dispatches_on_transport() {
    let m = MCPServerManager::<u32>::new();
    let mut c = config("files", "stdio", Some("npx"));
    c.args = Some(vec!["-y".to_string()]);
    c.env = Some(vec![("K".to_string(), "V".to_string())]);
    match m.start_server(&c) {
        Ok(StartAction::Spawn(req)) => {
            assert_eq!(req.name, "files");
            assert_eq!(req.command, "npx");
            assert_eq!(req.args, vec!["-y".to_string()]);
            assert_eq!(req.env, vec![("K".to_string(), "V".to_string())]);
        }
        _ => panic!("expected a spawn"),
    }
    match m.start_server(&config("web", "http", None)) {
        Ok(StartAction::Configured(msg)) => assert_eq!(msg, "HTTP server configured: web"),
        _ => panic!("expected a configured server"),
    }
    match m.start_server(&config("ws", "websocket", None)) {
        Ok(StartAction::Configured(msg)) => assert_eq!(msg, "WebSocket server configured: ws"),
        _ => panic!("expected a configured server"),
    }
    assert!(matches!(m.start_server(&config("x", "stdio", None)), Err(ConfigError::MissingCommand)));
    match m.start_server(&config("x", "grpc", Some("c"))) {
        Err(ConfigError::UnsupportedTransport(t)) => assert_eq!(t, "grpc"),
        _ => panic!("expected an unsupported transport"),
    }
}

#[test]
fn register_replaces_previous_connection() {
    let mut m = MCPServerManager::<u32>::new();
    assert_eq!(m.register("A".to_string(), 1), None);
    assert_eq!(m.register("B".to_string(), 2), None);
    assert_eq!(m.register("A".to_string(), 3), Some(1));
    let mut names = m.get_connected_servers();
    names.sort();
    assert_eq!(names, vec!["A".to_string(), "B".to_string()]);
    assert_eq!(m.list_tools("A").ok().copied(), Some(3));
    let status = m.check_all_servers();
    assert_eq!(status.len(), 2);
    assert!(status.iter().all(|(_, up)| *up));
}

#[test]
fn list_tools_on_unknown_server_is_an_error() {
    let m = MCPServerManager::<u32>::new();
    match m.list_tools("missing") {
        Err(McpError::NotFound(n)) => assert_eq!(n, "missing"),
        _ => panic!("expected not found"),
    }
}

#[test]
fn failed_server_is_skipped_in_aggregate() {
    let outcomes = vec![
        ("good".to_string(), Ok(vec![tool("read"), tool("write")])),
        ("bad".to_string(), Err(McpError::Remote("down".to_string()))),
    ];
    let all = MCPServerManager::<u32>::list_all_tools(outcomes);
    let names: Vec<String> = all.iter().map(|t| t.name.clone()).collect();
    assert_eq!(names, vec!["good:read".to_string(), "good:write".to_string()]);
    assert_eq!(all[0].description, "read tool");
}

#[test]
fn config_tools_use_double_underscore() {
    let outcomes = vec![
        ("bad".to_string(), Err(McpError::Spawn("no such program".to_string()))),
        ("echo".to_string(), Ok(vec![tool("say")])),
    ];
    let all = MCPServerManager::<u32>::collect_config_tools(outcomes);
    assert_eq!(all.len(), 1);
    assert_eq!(all[0].name, "echo__say");
    let empty = aggregate_tools(vec![], "-");
    assert!(empty.is_empty());
}
