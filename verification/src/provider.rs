//! The check of provider requests: each must expose exactly the one tool that reads pages.

use crate::error::{invalid, joined, outcome, BoundedReadError, Refusal};
use crate::json::{json_parse, member, parse_json, Json, JsonModel};
use crate::session::BoundedReadSession;
use crate::text::same_text;
use vstd::prelude::*;

verus! {

/// Whether a tool is the one that reads pages, given the parts of its parameters: a strict function
/// of the known name, whose parameters are an object with an artifact id, which is required, and a
/// cursor, and nothing else.
pub open spec fn is_page_tool(
    tool: JsonModel,
    parameters: JsonModel,
    properties: Seq<(Seq<char>, JsonModel)>,
    required: Seq<JsonModel>,
) -> bool {
    &&& tool.get("type"@) == Some(JsonModel::Text("function"@))
    &&& tool.get("name"@) == Some(JsonModel::Text("read_custodied_page"@))
    &&& tool.get("strict"@) == Some(JsonModel::Bool(true))
    &&& parameters.get("type"@) == Some(JsonModel::Text("object"@))
    &&& parameters.get("additionalProperties"@) == Some(JsonModel::Bool(false))
    &&& properties.len() == 2
    &&& member(properties, "artifact_id"@) is Some
    &&& member(properties, "cursor"@) is Some
    &&& required == seq![JsonModel::Text("artifact_id"@)]
}

/// What the check of a tool finds.
pub open spec fn tool_json_verdict(tool: JsonModel) -> Result<(), Refusal> {
    match tool.get("parameters"@) {
        Some(JsonModel::Object(members)) => {
            let parameters = JsonModel::Object(members);
            match parameters.get("properties"@) {
                Some(JsonModel::Object(properties)) => match parameters.get("required"@) {
                    Some(JsonModel::Array(required)) => if is_page_tool(
                        tool,
                        parameters,
                        properties,
                        required,
                    ) {
                        Ok(())
                    } else {
                        Err(Refusal::InvalidCustody("bounded request tool schema mismatch"@))
                    },
                    _ => Err(
                        Refusal::InvalidCustody("bounded read tool required fields are missing"@),
                    ),
                },
                _ => Err(Refusal::InvalidCustody("bounded read tool properties are missing"@)),
            }
        },
        _ => Err(Refusal::InvalidCustody("bounded read tool parameters are missing"@)),
    }
}

/// What the check of a request finds.
pub open spec fn request_json_verdict(request: JsonModel) -> Result<(), Refusal> {
    if request.get("parallel_tool_calls"@) != Some(JsonModel::Bool(false)) {
        Err(Refusal::InvalidCustody("bounded request permits no parallel tool calls"@))
    } else {
        match request.get("tools"@) {
            Some(JsonModel::Array(tools)) => if tools.len() == 1 {
                tool_json_verdict(tools[0])
            } else {
                Err(Refusal::InvalidCustody("bounded request must expose exactly one tool"@))
            },
            _ => Err(Refusal::InvalidCustody("bounded request tools are missing"@)),
        }
    }
}

/// What the check of an encoded request finds.
pub open spec fn encoded_request_verdict(encoded: Seq<u8>) -> Result<(), Refusal> {
    match json_parse(encoded) {
        Ok(request) => request_json_verdict(request),
        Err(text) => Err(Refusal::InvalidCustody("provider request JSON: "@ + text)),
    }
}

/// What a found value says.
pub open spec fn found_model(value: Option<&Json>) -> Option<JsonModel> {
    match value {
        Some(json) => Some(json.model()),
        None => None,
    }
}

/// Whether a found value is the given flag.
fn is_flag(value: Option<&Json>, flag: bool) -> (same: bool)
    ensures
        same == (found_model(value) == Some(JsonModel::Bool(flag))),
{
    match value {
        Some(Json::Bool(found)) => *found == flag,
        _ => false,
    }
}

/// Whether a found value is the given text.
fn is_text(value: Option<&Json>, text: &str) -> (same: bool)
    ensures
        same == (found_model(value) == Some(JsonModel::Text(text@))),
{
    match value {
        Some(Json::Text(found)) => same_text(found.as_str(), text),
        _ => false,
    }
}

/// Checks that a tool is the one that reads pages.
fn validate_tool(tool: &Json) -> (result: Result<(), BoundedReadError>)
    ensures
        outcome(result) == tool_json_verdict(tool.model()),
{
    let parameters: &Json = match tool.get("parameters") {
        Some(found) => match found {
            Json::Object(_) => found,
            _ => {
                return Err(invalid("bounded read tool parameters are missing"));
            },
        },
        None => {
            return Err(invalid("bounded read tool parameters are missing"));
        },
    };
    let properties: &Json = match parameters.get("properties") {
        Some(found) => match found {
            Json::Object(_) => found,
            _ => {
                return Err(invalid("bounded read tool properties are missing"));
            },
        },
        None => {
            return Err(invalid("bounded read tool properties are missing"));
        },
    };
    let required: &Vec<Json> = match parameters.get("required") {
        Some(Json::Array(items)) => items,
        _ => {
            return Err(invalid("bounded read tool required fields are missing"));
        },
    };
    let two: bool = match properties {
        Json::Object(members) => members.len() == 2,
        _ => false,
    };
    let only_artifact_id: bool = required.len() == 1 && is_text(Some(&required[0]), "artifact_id");
    proof {
        let items = Json::Array(*required).model()->Array_0;
        let wanted = seq![JsonModel::Text("artifact_id"@)];
        if only_artifact_id {
            assert(items =~= wanted);
        } else if items == wanted {
            assert(items[0] == wanted[0]);
        }
    }
    let exact_tool: bool = is_text(tool.get("type"), "function") && is_text(
        tool.get("name"),
        "read_custodied_page",
    ) && is_flag(tool.get("strict"), true) && is_text(parameters.get("type"), "object") && is_flag(
        parameters.get("additionalProperties"),
        false,
    ) && two && properties.get("artifact_id").is_some() && properties.get("cursor").is_some()
        && only_artifact_id;
    if !exact_tool {
        return Err(invalid("bounded request tool schema mismatch"));
    }
    Ok(())
}

/// Checks that a request exposes exactly the one tool that reads pages, and no parallel calls.
pub fn validate_request(request: &Json) -> (result: Result<(), BoundedReadError>)
    ensures
        outcome(result) == request_json_verdict(request.model()),
{
    if !is_flag(request.get("parallel_tool_calls"), false) {
        return Err(invalid("bounded request permits no parallel tool calls"));
    }
    let tools: &Vec<Json> = match request.get("tools") {
        Some(Json::Array(items)) => items,
        _ => {
            return Err(invalid("bounded request tools are missing"));
        },
    };
    if tools.len() != 1 {
        return Err(invalid("bounded request must expose exactly one tool"));
    }
    validate_tool(&tools[0])
}

impl BoundedReadSession {
    /// Checks an encoded provider request.
    pub fn validate_provider_request(&self, encoded: &[u8]) -> (result: Result<
        (),
        BoundedReadError,
    >)
        ensures
            outcome(result) == encoded_request_verdict(encoded@),
    {
        match parse_json(encoded) {
            Ok(request) => validate_request(&request),
            Err(text) => {
                let message: String = joined("provider request JSON: ", text.as_str());
                Err(invalid(message.as_str()))
            },
        }
    }
}

} // verus!
