use mcp_manager::config::{default_transport, servers_from_config, ConfigError, ConfigField};
use mcp_manager::json::{JsonNumber, JsonValue};

fn s(t: &str) -> JsonValue {
    JsonValue::String(t.to_string())
}

fn obj(members: Vec<(&str, JsonValue)>) -> JsonValue {
    JsonValue::Object(members.into_iter().map(|(k, v)| (k.to_string(), v)).collect())
}

fn field_error(settings: JsonValue) -> ConfigError {
    match servers_from_config(&obj(vec![("servers", JsonValue::Array(vec![settings]))])) {
        Err(e) => e,
        Ok(_) => panic!("expected an error"),
    }
}

#[test]
fn default_transport_is_stdio() {
    assert_eq!(default_transport(), "stdio");
}

#[test]
fn keyed_config_uses_key_as_name_and_stdio() {
    let config = obj(vec![("mcpServers", obj(vec![("echo", obj(vec![("command", s("echo"))]))]))]);
    let servers = servers_from_config(&config).ok().unwrap();
    assert_eq!(servers.len(), 1);
    assert_eq!(servers[0].name, "echo");
    assert_eq!(servers[0].transport, "stdio");
    assert_eq!(servers[0].command, Some("echo".to_string()));
    assert!(servers[0].args.is_none() && servers[0].env.is_none());
    assert!(servers[0].url.is_none() && servers[0].port.is_none());
}

#[test]
fn config_without_server_list_is_rejected() {
    let config = obj(vec![("other", obj(vec![])), ("mcpServers", JsonValue::Array(vec![]))]);
    assert!(matches!(servers_from_config(&config), Err(ConfigError::MissingServerList)));
    assert!(matches!(servers_from_config(&JsonValue::Null), Err(ConfigError::MissingServerList)));
    assert!(matches!(servers_from_config(&obj(vec![])), Err(ConfigError::MissingServerList)));
}

#[test]
fn listed_config_reads_every_field() {
    let settings = obj(vec![
        ("name", s("files")),
        ("command", s("npx")),
        ("args", JsonValue::Array(vec![s("-y"), s("server-files")])),
        ("env", obj(vec![("HOME", s("/tmp")), ("LEVEL", s("debug"))])),
        ("transport", s("http")),
        ("url", s("http://localhost")),
        ("port", JsonValue::Number(JsonNumber::PosInt(8080))),
        ("ignored", JsonValue::Bool(true)),
    ]);
    let servers = servers_from_config(&obj(vec![("servers", JsonValue::Array(vec![settings]))])).ok().unwrap();
    let c = &servers[0];
    assert_eq!(c.name, "files");
    assert_eq!(c.command, Some("npx".to_string()));
    assert_eq!(c.args, Some(vec!["-y".to_string(), "server-files".to_string()]));
    assert_eq!(
        c.env,
        Some(vec![("HOME".to_string(), "/tmp".to_string()), ("LEVEL".to_string(), "debug".to_string())])
    );
    assert_eq!(c.transport, "http");
    assert_eq!(c.url, Some("http://localhost".to_string()));
    assert_eq!(c.port, Some(8080));
}

#[test]
fn keyed_config_keeps_given_transport_and_order() {
    let config = obj(vec![(
        "mcpServers",
        obj(vec![
            ("b", obj(vec![("command", s("cat")), ("name", s("ignored"))])),
            ("a", obj(vec![("transport", s("websocket")), ("command", JsonValue::Null)])),
        ]),
    )]);
    let servers = servers_from_config(&config).ok().unwrap();
    assert_eq!(servers.len(), 2);
    assert_eq!(servers[0].name, "b");
    assert_eq!(servers[1].name, "a");
    assert_eq!(servers[1].transport, "websocket");
    assert!(servers[1].command.is_none());
}

#[test]
fn mcp_servers_take_precedence_over_servers() {
    let config = obj(vec![
        ("servers", JsonValue::Array(vec![obj(vec![("name", s("x"))])])),
        ("mcpServers", obj(vec![])),
    ]);
    assert_eq!(servers_from_config(&config).ok().unwrap().len(), 0);
}

#[test]
fn settings_errors_name_the_field() {
    assert!(matches!(field_error(obj(vec![])), ConfigError::MissingField(ConfigField::Name)));
    assert!(matches!(field_error(obj(vec![("name", JsonValue::Null)])), ConfigError::InvalidField(ConfigField::Name)));
    let named = |k: &str, v: JsonValue| obj(vec![("name", s("n")), (k, v)]);
    assert!(matches!(field_error(named("command", JsonValue::Bool(true))), ConfigError::InvalidField(ConfigField::Command)));
    assert!(matches!(field_error(named("args", JsonValue::Array(vec![s("a"), JsonValue::Null]))), ConfigError::InvalidField(ConfigField::Args)));
    assert!(matches!(field_error(named("env", obj(vec![("K", JsonValue::Number(JsonNumber::PosInt(1)))]))), ConfigError::InvalidField(ConfigField::Env)));
    assert!(matches!(field_error(named("transport", JsonValue::Null)), ConfigError::InvalidField(ConfigField::Transport)));
    assert!(matches!(field_error(named("url", JsonValue::Array(vec![]))), ConfigError::InvalidField(ConfigField::Url)));
    assert!(matches!(field_error(named("port", JsonValue::Number(JsonNumber::PosInt(65536)))), ConfigError::InvalidField(ConfigField::Port)));
    assert!(matches!(field_error(named("port", JsonValue::Number(JsonNumber::NegInt(-1)))), ConfigError::InvalidField(ConfigField::Port)));
    assert!(matches!(field_error(named("port", JsonValue::Number(JsonNumber::Float("80.5".to_string())))), ConfigError::InvalidField(ConfigField::Port)));
    assert!(matches!(field_error(s("x")), ConfigError::NotAnObject));
}

#[test]
fn port_bounds() {
    let one = |p: u64| {
        let settings = obj(vec![("name", s("n")), ("port", JsonValue::Number(JsonNumber::PosInt(p)))]);
        servers_from_config(&obj(vec![("servers", JsonValue::Array(vec![settings]))])).ok().unwrap()[0].port
    };
    assert_eq!(one(0), Some(0));
    assert_eq!(one(65535), Some(65535));
}

#[test]
fn first_bad_server_decides_the_error() {
    let config = obj(vec![(
        "servers",
        JsonValue::Array(vec![obj(vec![("name", s("ok"))]), JsonValue::Null, obj(vec![])]),
    )]);
    assert!(matches!(servers_from_config(&config), Err(ConfigError::NotAnObject)));
}
