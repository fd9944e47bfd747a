use mcp_manager::catalog::{tool_from_listing, ListedTool};
use mcp_manager::json::{JsonNumber, JsonValue};
use mcp_manager::manager::MCPServerManager;
use mcp_manager::schema::{convert_input_schema, schema_to_json, MCPTool, MCPToolInputSchema, ValidationError};

fn s(t: &str) -> JsonValue {
    JsonValue::String(t.to_string())
}

fn obj(members: Vec<(&str, JsonValue)>) -> JsonValue {
    JsonValue::Object(members.into_iter().map(|(k, v)| (k.to_string(), v)).collect())
}

fn keys(m: &[(String, JsonValue)]) -> Vec<String> {
    m.iter().map(|(k, _)| k.clone()).collect()
}

type Manager = MCPServerManager<u32>;

#[test]
fn schema_known_members_are_read() {
    let schema = obj(vec![
        ("type", s("object")),
        ("properties", obj(vec![("path", obj(vec![("type", s("string"))]))])),
        ("required", JsonValue::Array(vec![s("path"), JsonValue::Bool(true)])),
        ("description", s("Reads a file")),
        ("title", s("read")),
        ("additionalProperties", JsonValue::Bool(false)),
        ("$schema", s("http://json-schema.org/draft-07/schema#")),
    ]);
    let r = convert_input_schema(schema);
    assert_eq!(r.schema_type, "object");
    assert_eq!(keys(&r.properties), vec!["path".to_string()]);
    assert_eq!(r.required, Some(vec!["path".to_string()]));
    assert_eq!(r.description, Some("Reads a file".to_string()));
    assert_eq!(r.title, Some("read".to_string()));
    assert_eq!(
        keys(&r.additional_properties),
        vec!["additionalProperties".to_string(), "$schema".to_string()]
    );
}

#[test]
fn schema_non_object_gives_empty_object_schema() {
    for v in [JsonValue::Null, s("object"), JsonValue::Array(vec![]), JsonValue::Number(JsonNumber::PosInt(3))] {
        let r = convert_input_schema(v);
        assert_eq!(r.schema_type, "object");
        assert!(r.properties.is_empty());
        assert!(r.required.is_none());
        assert!(r.description.is_none());
        assert!(r.title.is_none());
        assert!(r.additional_properties.is_empty());
    }
}

#[test]
fn schema_defaults_and_wrong_kinds() {
    let schema = obj(vec![
        ("type", JsonValue::Number(JsonNumber::PosInt(1))),
        ("properties", JsonValue::Array(vec![])),
        ("required", JsonValue::Array(vec![JsonValue::Null])),
        ("description", JsonValue::Bool(true)),
    ]);
    let r = convert_input_schema(schema);
    assert_eq!(r.schema_type, "object");
    assert!(r.properties.is_empty());
    assert!(r.required.is_none());
    assert!(r.description.is_none());
    assert!(r.additional_properties.is_empty());
}

#[test]
fn schema_first_member_of_a_name_wins() {
    let schema = obj(vec![("type", s("array")), ("type", s("object"))]);
    assert_eq!(convert_input_schema(schema).schema_type, "array");
}

#[test]
fn schema_default_is_empty_object() {
    let d = MCPToolInputSchema::default();
    assert_eq!(d.schema_type, "object");
    assert!(d.properties.is_empty() && d.required.is_none() && d.additional_properties.is_empty());
}

fn tool(name: &str, schema: JsonValue) -> MCPTool {
    MCPTool { name: name.to_string(), description: String::new(), input_schema: convert_input_schema(schema) }
}

#[test]
fn validate_accepts_required_within_properties() {
    let t = tool(
        "read",
        obj(vec![
            ("type", s("object")),
            ("properties", obj(vec![("path", obj(vec![]))])),
            ("required", JsonValue::Array(vec![s("path")])),
        ]),
    );
    assert!(Manager::validate_tool_schema(&t).is_ok());
}

#[test]
fn validate_rejects_wrong_type() {
    let t = tool("list", obj(vec![("type", s("array"))]));
    match Manager::validate_tool_schema(&t) {
        Err(ValidationError::InvalidSchemaType { tool, found }) => {
            assert_eq!(tool, "list");
            assert_eq!(found, "array");
        }
        _ => panic!("expected a schema type error"),
    }
}

#[test]
fn validate_rejects_undefined_required() {
    let t = tool(
        "write",
        obj(vec![
            ("properties", obj(vec![("path", obj(vec![]))])),
            ("required", JsonValue::Array(vec![s("path"), s("content"), s("mode")])),
        ]),
    );
    match Manager::validate_tool_schema(&t) {
        Err(ValidationError::UndefinedRequired { tool, field }) => {
            assert_eq!(tool, "write");
            assert_eq!(field, "content");
        }
        _ => panic!("expected an undefined field error"),
    }
}

#[test]
fn validated_tools_drop_invalid_ones() {
    let tools = vec![
        tool("a", obj(vec![])),
        tool("b", obj(vec![("type", s("string"))])),
        tool("c", obj(vec![("required", JsonValue::Array(vec![s("x")]))])),
        tool("d", obj(vec![("properties", obj(vec![("x", obj(vec![]))])), ("required", JsonValue::Array(vec![s("x")]))])),
    ];
    let names: Vec<String> = Manager::get_validated_tools(tools).into_iter().map(|t| t.name).collect();
    assert_eq!(names, vec!["a".to_string(), "d".to_string()]);
}

#[test]
fn listed_tool_gets_canonical_form() {
    let t = tool_from_listing(ListedTool {
        name: "echo".to_string(),
        description: None,
        input_schema: obj(vec![("type", s("object")), ("x-extra", JsonValue::Null)]),
    });
    assert_eq!(t.name, "echo");
    assert_eq!(t.description, "");
    assert_eq!(keys(&t.input_schema.additional_properties), vec!["x-extra".to_string()]);
}

#[test]
fn tool_listing_failure_becomes_remote_error() {
    match Manager::convert_tool_listing(Err("boom".to_string())) {
        Err(mcp_manager::manager::McpError::Remote(m)) => assert_eq!(m, "boom"),
        _ => panic!("expected a remote error"),
    }
    let ok = Manager::convert_tool_listing(Ok(vec![ListedTool {
        name: "t".to_string(),
        description: Some("d".to_string()),
        input_schema: obj(vec![("title", s("T"))]),
    }]))
    .ok()
    .unwrap();
    assert_eq!(ok.len(), 1);
    assert_eq!(ok[0].description, "d");
    assert_eq!(ok[0].input_schema.title, Some("T".to_string()));
}

#[test]
fn schema_round_trip_keeps_every_member() {
    let original = convert_input_schema(obj(vec![
        ("title", s("search")),
        ("type", s("object")),
        ("minProperties", JsonValue::Number(JsonNumber::Float("0.5".to_string()))),
        ("required", JsonValue::Array(vec![s("q")])),
        ("properties", obj(vec![("q", obj(vec![("type", s("string"))]))])),
    ]));
    let wire = schema_to_json(convert_input_schema(obj(vec![
        ("title", s("search")),
        ("type", s("object")),
        ("minProperties", JsonValue::Number(JsonNumber::Float("0.5".to_string()))),
        ("required", JsonValue::Array(vec![s("q")])),
        ("properties", obj(vec![("q", obj(vec![("type", s("string"))]))])),
    ])));
    match &wire {
        JsonValue::Object(m) => assert_eq!(
            keys(m),
            vec!["type".to_string(), "properties".to_string(), "required".to_string(), "title".to_string(), "minProperties".to_string()]
        ),
        _ => panic!("expected an object"),
    }
    let back = convert_input_schema(wire);
    assert_eq!(back.schema_type, original.schema_type);
    assert_eq!(keys(&back.properties), keys(&original.properties));
    assert_eq!(back.required, original.required);
    assert_eq!(back.description, original.description);
    assert_eq!(back.title, original.title);
    assert_eq!(keys(&back.additional_properties), vec!["minProperties".to_string()]);
}

#[test]
fn empty_schema_round_trip() {
    let back = convert_input_schema(schema_to_json(MCPToolInputSchema::default()));
    assert_eq!(back.schema_type, "object");
    assert!(back.properties.is_empty() && back.required.is_none() && back.additional_properties.is_empty());
}
