//! The check of provider requests, and the tool that they expose.

use bounded_read::custody::LoadRequest;
use bounded_read::digest::sha256_hex;
use bounded_read::error::BoundedReadError;
use bounded_read::json::{parse_json, Json};
use bounded_read::manifest::Manifest;
use bounded_read::provider::validate_request;
use bounded_read::session::BoundedReadSession;
use bounded_read::tool::{tool_name, tool_spec};
use serde_json::Value;

fn session() -> BoundedReadSession {
    let manifest = Manifest {
        schema: "bounded-read-v1".to_string(),
        request_id: "request".to_string(),
        project_id: "project".to_string(),
        revision: "revision".to_string(),
        entries: Vec::new(),
    };
    let request = LoadRequest::new(
        &sha256_hex(b""),
        true,
        "request".to_string(),
        "project".to_string(),
        "revision".to_string(),
    )
    .unwrap();
    match request
        .verify_manifest(Vec::new())
        .unwrap()
        .admit_manifest(manifest, true)
    {
        Ok(plan) => plan.open(0),
        Err(error) => panic!("{:?}", error),
    }
}

fn text(value: &str) -> Value {
    Value::String(value.to_string())
}

fn object(members: Vec<(&str, Value)>) -> Value {
    let mut map = serde_json::Map::new();
    for (name, value) in members {
        map.insert(name.to_string(), value);
    }
    Value::Object(map)
}

fn page_tool() -> Value {
    object(vec![
        ("type", text("function")),
        ("name", text("read_custodied_page")),
        (
            "description",
            text("Read one bounded page from an allowlisted custodied request artifact."),
        ),
        ("strict", Value::Bool(true)),
        (
            "parameters",
            object(vec![
                ("type", text("object")),
                (
                    "properties",
                    object(vec![
                        ("artifact_id", object(vec![("type", text("string"))])),
                        ("cursor", object(vec![("type", text("string"))])),
                    ]),
                ),
                ("required", Value::Array(vec![text("artifact_id")])),
                ("additionalProperties", Value::Bool(false)),
            ]),
        ),
    ])
}

fn encode(tools: Value) -> Vec<u8> {
    serde_json::to_vec(&object(vec![
        ("parallel_tool_calls", Value::Bool(false)),
        ("tools", tools),
    ]))
    .unwrap()
}

fn with(mut tool: Value, name: &str, value: Value) -> Value {
    tool[name] = value;
    tool
}

fn message_of(result: Result<(), BoundedReadError>) -> String {
    match result {
        Ok(_) => panic!("not refused"),
        Err(BoundedReadError::InvalidCustody(message)) => message,
        Err(error) => panic!("{:?}", error),
    }
}

#[test]
fn provider_request_requires_exact_single_custody_tool() {
    let session = session();
    let tool = page_tool();
    assert!(session
        .validate_provider_request(&encode(Value::Array(vec![tool.clone()])))
        .is_ok());
    assert!(session
        .validate_provider_request(&encode(Value::Array(vec![])))
        .is_err());
    assert!(session
        .validate_provider_request(&encode(Value::Array(vec![tool.clone(), tool.clone()])))
        .is_err());
    let wrong = with(tool, "name", text("exec_command"));
    assert!(session
        .validate_provider_request(&encode(Value::Array(vec![wrong])))
        .is_err());
}

#[test]
fn each_fault_of_a_request_has_its_message() {
    let session = session();
    let check = |bytes: &[u8]| message_of(session.validate_provider_request(bytes));
    assert_eq!(
        check(b"{"),
        "provider request JSON: EOF while parsing an object at line 1 column 1"
    );
    assert_eq!(
        check(b"{} x"),
        "provider request JSON: trailing characters at line 1 column 4"
    );
    for bytes in [
        &b"{}"[..],
        &b"[]"[..],
        &b"{\"parallel_tool_calls\":true,\"tools\":[]}"[..],
        &b"{\"parallel_tool_calls\":0,\"tools\":[]}"[..],
        &b"{\"parallel_tool_calls\":null,\"tools\":[]}"[..],
    ] {
        assert_eq!(
            check(bytes),
            "bounded request permits no parallel tool calls"
        );
    }
    for bytes in [
        &b"{\"parallel_tool_calls\":false}"[..],
        &b"{\"parallel_tool_calls\":false,\"tools\":{}}"[..],
        &b"{\"parallel_tool_calls\":true,\"parallel_tool_calls\":false}"[..],
    ] {
        assert_eq!(check(bytes), "bounded request tools are missing");
    }
    assert_eq!(
        check(&encode(Value::Array(vec![]))),
        "bounded request must expose exactly one tool"
    );
    let one = |tool: Value| check(&encode(Value::Array(vec![tool])));
    assert_eq!(one(Value::Null), "bounded read tool parameters are missing");
    assert_eq!(
        one(with(page_tool(), "parameters", Value::Array(vec![]))),
        "bounded read tool parameters are missing"
    );
    let parameters = |name: &str, value: Value| {
        let tool = page_tool();
        let changed = with(tool["parameters"].clone(), name, value);
        with(tool, "parameters", changed)
    };
    assert_eq!(
        one(parameters("properties", Value::Null)),
        "bounded read tool properties are missing"
    );
    assert_eq!(
        one(parameters("required", Value::Null)),
        "bounded read tool required fields are missing"
    );
    let string = || object(vec![("type", text("string"))]);
    for tool in [
        with(page_tool(), "type", text("custom")),
        with(page_tool(), "name", text("read")),
        with(page_tool(), "strict", Value::Bool(false)),
        with(page_tool(), "strict", text("true")),
        parameters("type", text("array")),
        parameters("additionalProperties", Value::Bool(true)),
        parameters("properties", object(vec![("artifact_id", string())])),
        parameters(
            "properties",
            object(vec![("artifact_id", string()), ("path", string())]),
        ),
        parameters(
            "properties",
            object(vec![
                ("artifact_id", string()),
                ("cursor", string()),
                ("path", string()),
            ]),
        ),
        parameters("required", Value::Array(vec![])),
        parameters("required", Value::Array(vec![text("cursor")])),
        parameters(
            "required",
            Value::Array(vec![text("artifact_id"), text("cursor")]),
        ),
    ] {
        assert_eq!(one(tool), "bounded request tool schema mismatch");
    }
}

#[test]
fn the_tool_that_a_provider_is_told_of_passes() {
    let tool = tool_spec();
    assert_eq!(tool.name, tool_name());
    assert!(tool.defer_loading.is_none() && tool.output_schema.is_none());
    assert_eq!(tool_name(), "read_custodied_page");
    let request = Json::Object(vec![
        ("model".to_string(), Json::Text("m".to_string())),
        ("parallel_tool_calls".to_string(), Json::Bool(false)),
        ("tools".to_string(), Json::Array(vec![tool.to_json()])),
    ]);
    assert!(validate_request(&request).is_ok());
    let described = tool.to_json();
    let parameters = described.get("parameters").unwrap();
    let cursor = parameters.get("properties").unwrap().get("cursor").unwrap();
    assert!(matches!(
        cursor.get("description"),
        Some(Json::Text(text)) if text == "Opaque cursor returned by the preceding page."
    ));
}

#[test]
fn json_is_read_as_it_is_written() {
    let parsed =
        parse_json(b" {\"b\":[null,true,1.5,\"\\u00e9\",{}],\"a\":1,\"a\":\"last\"} ").unwrap();
    let items = match parsed.get("b") {
        Some(Json::Array(items)) => items,
        other => panic!("{:?}", other),
    };
    assert_eq!(items.len(), 5);
    assert!(matches!(items[0], Json::Null));
    assert!(matches!(items[1], Json::Bool(true)));
    assert!(matches!(items[2], Json::Number));
    assert!(matches!(&items[3], Json::Text(text) if text == "\u{e9}"));
    assert!(matches!(&items[4], Json::Object(members) if members.is_empty()));
    assert!(matches!(parsed.get("a"), Some(Json::Text(text)) if text == "last"));
    assert!(matches!(&parsed, Json::Object(members) if members.len() == 2));
    assert!(parsed.get("c").is_none());
    assert!(items[1].get("a").is_none());
    assert_eq!(
        parse_json(b"nul").unwrap_err(),
        "EOF while parsing a value at line 1 column 3"
    );
    assert_eq!(
        parse_json(b"nux").unwrap_err(),
        "expected ident at line 1 column 3"
    );
}
