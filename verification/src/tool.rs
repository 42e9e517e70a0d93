//! The tool that reads pages: what a provider is told of it, and how a call of it is answered.

use crate::error::{joined, refusal_code, refusal_message, BoundedReadError, Refusal};
use crate::json::{member, Json, JsonModel};
use crate::page::ReadPage;
use crate::provider::{is_page_tool, request_json_verdict, tool_json_verdict};
use crate::session::BoundedReadSession;
use vstd::prelude::*;

verus! {

/// A text parameter of a tool.
#[derive(Debug)]
pub struct ToolProperty {
    pub name: String,
    pub description: String,
}

/// What a provider is told of a tool.
#[derive(Debug)]
pub struct ToolSpec {
    pub name: String,
    pub description: String,
    pub strict: bool,
    pub properties: Vec<ToolProperty>,
    pub required: Vec<String>,
    pub additional_properties: bool,
    pub defer_loading: Option<bool>,
    pub output_schema: Option<Json>,
}

/// What a [`ToolSpec`] says. A property is its name and its description.
#[verifier::ext_equal]
pub struct ToolView {
    pub name: Seq<char>,
    pub description: Seq<char>,
    pub strict: bool,
    pub properties: Seq<(Seq<char>, Seq<char>)>,
    pub required: Seq<Seq<char>>,
    pub additional_properties: bool,
    pub defer_loading: Option<bool>,
    pub output_schema: Option<JsonModel>,
}

impl View for ToolSpec {
    type V = ToolView;

    open spec fn view(&self) -> ToolView {
        ToolView {
            name: self.name@,
            description: self.description@,
            strict: self.strict,
            properties: self.properties@.map_values(
                |property: ToolProperty| (property.name@, property.description@),
            ),
            required: self.required@.map_values(|name: String| name@),
            additional_properties: self.additional_properties,
            defer_loading: self.defer_loading,
            output_schema: match self.output_schema {
                Some(schema) => Some(schema.model()),
                None => None,
            },
        }
    }
}

/// The tool that reads pages.
pub open spec fn page_tool() -> ToolView {
    ToolView {
        name: "read_custodied_page"@,
        description: "Read one bounded page from an allowlisted custodied request artifact."@,
        strict: true,
        properties: seq![
            ("artifact_id"@, "Custodied artifact identifier from the request package."@),
            ("cursor"@, "Opaque cursor returned by the preceding page."@),
        ],
        required: seq!["artifact_id"@],
        additional_properties: false,
        defer_loading: None,
        output_schema: None,
    }
}

/// The schema of a text parameter.
pub open spec fn property_model(description: Seq<char>) -> JsonModel {
    JsonModel::Object(
        seq![
            ("type"@, JsonModel::Text("string"@)),
            ("description"@, JsonModel::Text(description)),
        ],
    )
}

/// The schema of a tool's parameters.
pub open spec fn parameters_model(tool: ToolView) -> JsonModel {
    JsonModel::Object(
        seq![
            ("type"@, JsonModel::Text("object"@)),
            (
                "properties"@,
                JsonModel::Object(
                    tool.properties.map_values(
                        |property: (Seq<char>, Seq<char>)|
                            (property.0, property_model(property.1)),
                    ),
                ),
            ),
            (
                "required"@,
                JsonModel::Array(tool.required.map_values(|name: Seq<char>| JsonModel::Text(name))),
            ),
            ("additionalProperties"@, JsonModel::Bool(tool.additional_properties)),
        ],
    )
}

/// A tool as a JSON value, in the form that the check of provider requests reads. Nothing stands in
/// it for how the tool is loaded and what it puts out.
pub open spec fn tool_model(tool: ToolView) -> JsonModel {
    JsonModel::Object(
        seq![
            ("type"@, JsonModel::Text("function"@)),
            ("name"@, JsonModel::Text(tool.name)),
            ("description"@, JsonModel::Text(tool.description)),
            ("strict"@, JsonModel::Bool(tool.strict)),
            ("parameters"@, parameters_model(tool)),
        ],
    )
}

/// The name of the tool that reads pages.
pub fn tool_name() -> (name: &'static str)
    ensures
        name@ == page_tool().name,
{
    "read_custodied_page"
}

/// What a provider is told of the tool that reads pages.
pub fn tool_spec() -> (tool: ToolSpec)
    ensures
        tool@ == page_tool(),
{
    let mut properties: Vec<ToolProperty> = Vec::new();
    properties.push(
        ToolProperty {
            name: "artifact_id".to_owned(),
            description: "Custodied artifact identifier from the request package.".to_owned(),
        },
    );
    properties.push(
        ToolProperty {
            name: "cursor".to_owned(),
            description: "Opaque cursor returned by the preceding page.".to_owned(),
        },
    );
    let mut required: Vec<String> = Vec::new();
    required.push("artifact_id".to_owned());
    let tool = ToolSpec {
        name: tool_name().to_owned(),
        description: "Read one bounded page from an allowlisted custodied request artifact.".to_owned(),
        strict: true,
        properties,
        required,
        additional_properties: false,
        defer_loading: None,
        output_schema: None,
    };
    assert(tool@ =~= page_tool());
    tool
}

/// A text as a JSON value.
fn text_json(text: &str) -> (json: Json)
    ensures
        json.model() == JsonModel::Text(text@),
{
    Json::Text(text.to_owned())
}

/// What an object with the given members says.
proof fn object_model(members: Seq<(Seq<char>, JsonModel)>, json: Json)
    requires
        json matches Json::Object(pairs) && pairs@.len() == members.len() && forall|i: int|
            0 <= i < members.len() ==> (#[trigger] pairs@[i]).0@ == members[i].0
                && pairs@[i].1.model() == members[i].1,
    ensures
        json.model() == JsonModel::Object(members),
{
    assert(json.model()->Object_0 =~= members);
}

/// The schema of a text parameter.
fn property_json(description: &str) -> (json: Json)
    ensures
        json.model() == property_model(description@),
{
    let mut members: Vec<(String, Json)> = Vec::new();
    members.push(("type".to_owned(), text_json("string")));
    members.push(("description".to_owned(), text_json(description)));
    let json = Json::Object(members);
    proof {
        object_model(property_model(description@)->Object_0, json);
    }
    json
}

impl ToolSpec {
    /// The schema of the tool's parameters.
    fn parameters_json(&self) -> (json: Json)
        ensures
            json.model() == parameters_model(self@),
    {
        let ghost wanted = parameters_model(self@)->Object_0;
        let ghost properties_wanted = wanted[1].1->Object_0;
        let ghost required_wanted = wanted[2].1->Array_0;
        let mut properties: Vec<(String, Json)> = Vec::new();
        let mut i: usize = 0;
        while i < self.properties.len()
            invariant
                i <= self.properties@.len(),
                properties@.len() == i,
                properties_wanted == self@.properties.map_values(
                    |property: (Seq<char>, Seq<char>)| (property.0, property_model(property.1)),
                ),
                forall|j: int|
                    0 <= j < i ==> (#[trigger] properties@[j]).0@ == properties_wanted[j].0
                        && properties@[j].1.model() == properties_wanted[j].1,
            decreases self.properties@.len() - i,
        {
            let property: &ToolProperty = &self.properties[i];
            properties.push(
                (property.name.clone(), property_json(property.description.as_str())),
            );
            i = i + 1;
        }
        let properties: Json = Json::Object(properties);
        proof {
            object_model(properties_wanted, properties);
        }
        let mut required: Vec<Json> = Vec::new();
        let mut k: usize = 0;
        while k < self.required.len()
            invariant
                k <= self.required@.len(),
                required@.len() == k,
                required_wanted == self@.required.map_values(
                    |name: Seq<char>| JsonModel::Text(name),
                ),
                forall|j: int|
                    0 <= j < k ==> (#[trigger] required@[j]).model() == required_wanted[j],
            decreases self.required@.len() - k,
        {
            required.push(text_json(self.required[k].as_str()));
            k = k + 1;
        }
        let required: Json = Json::Array(required);
        assert(required.model()->Array_0 =~= required_wanted);
        let mut members: Vec<(String, Json)> = Vec::new();
        members.push(("type".to_owned(), text_json("object")));
        members.push(("properties".to_owned(), properties));
        members.push(("required".to_owned(), required));
        members.push(("additionalProperties".to_owned(), Json::Bool(self.additional_properties)));
        let json = Json::Object(members);
        proof {
            object_model(wanted, json);
        }
        json
    }

    /// The tool as a JSON value, in the form that the check of provider requests reads. The tool must
    /// say nothing of how it is loaded or what it puts out, for which that form has no place.
    pub fn to_json(&self) -> (json: Json)
        requires
            self.defer_loading is None,
            self.output_schema is None,
        ensures
            json.model() == tool_model(self@),
    {
        let mut members: Vec<(String, Json)> = Vec::new();
        members.push(("type".to_owned(), text_json("function")));
        members.push(("name".to_owned(), text_json(self.name.as_str())));
        members.push(("description".to_owned(), text_json(self.description.as_str())));
        members.push(("strict".to_owned(), Json::Bool(self.strict)));
        members.push(("parameters".to_owned(), self.parameters_json()));
        let json = Json::Object(members);
        proof {
            object_model(tool_model(self@)->Object_0, json);
        }
        json
    }
}

/// The arguments of a call of the tool.
#[derive(Debug)]
pub struct ReadPageArgs {
    pub artifact_id: String,
    pub cursor: Option<String>,
}

/// What a call of the tool brings: the arguments of a function call, or the text of the error that
/// their parser gave, or something that is no function call.
#[derive(Debug)]
pub enum ToolPayload {
    Function(Result<ReadPageArgs, String>),
    Other,
}

/// The cursor among the arguments of a call.
pub open spec fn args_cursor(args: ReadPageArgs) -> Option<Seq<char>> {
    match args.cursor {
        Some(token) => Some(token@),
        None => None,
    }
}

/// A refusal as the text that ends a call.
pub open spec fn fatal_text(refusal: Refusal) -> Seq<char> {
    refusal_code(refusal) + ": "@ + refusal_message(refusal)
}

/// An error as the text that ends a call.
pub fn fatal(error: &BoundedReadError) -> (text: String)
    ensures
        text@ == fatal_text(error@),
{
    let start: String = joined(error.code(), ": ");
    joined(start.as_str(), error.message().as_str())
}

/// What a payload brings a call: its arguments, or the text of the error that ends it.
pub open spec fn payload_verdict(payload: ToolPayload) -> Result<ReadPageArgs, Seq<char>> {
    match payload {
        ToolPayload::Other => Err("bounded read received a non-function payload"@),
        ToolPayload::Function(Err(error)) => Err(
            "invalid-custody: invalid bounded read arguments: "@ + error@,
        ),
        ToolPayload::Function(Ok(args)) => Ok(args),
    }
}

/// Takes the arguments of a call out of its payload.
pub fn payload_args(payload: ToolPayload) -> (result: Result<ReadPageArgs, String>)
    ensures
        match payload_verdict(payload) {
            Ok(args) => result == Ok::<ReadPageArgs, String>(args),
            Err(wanted) => result matches Err(text) && text@ == wanted,
        },
{
    match payload {
        ToolPayload::Function(Ok(args)) => Ok(args),
        ToolPayload::Function(Err(error)) => Err(
            joined("invalid-custody: invalid bounded read arguments: ", error.as_str()),
        ),
        ToolPayload::Other => Err("bounded read received a non-function payload".to_owned()),
    }
}

/// Answers a call of the tool with a page, or with the text of the error that ends it.
pub fn handle(session: &mut BoundedReadSession, payload: ToolPayload, now: u128) -> (result: Result<
    ReadPage,
    String,
>)
    requires
        old(session).wf(),
    ensures
        final(session).wf(),
        match payload_verdict(payload) {
            Err(wanted) => {
                &&& result matches Err(text)
                &&& text@ == wanted
                &&& final(session)@ == old(session)@
            },
            Ok(args) => {
                let cursor = args_cursor(args);
                &&& final(session)@ == old(session)@.after_read(args.artifact_id@, cursor, now as nat)
                &&& match old(session)@.page_start(args.artifact_id@, cursor, now as nat) {
                    Ok(start) => result matches Ok(page) && page@ == old(session)@.page(
                        args.artifact_id@,
                        start,
                    ),
                    Err(refusal) => result matches Err(text) && text@ == fatal_text(refusal),
                }
            },
        },
{
    let args: ReadPageArgs = payload_args(payload)?;
    let cursor: Option<&str> = match &args.cursor {
        Some(token) => Some(token.as_str()),
        None => None,
    };
    match session.read_page(args.artifact_id.as_str(), cursor, now) {
        Ok(page) => Ok(page),
        Err(error) => Err(fatal(&error)),
    }
}

/// The value of a member is that of the last one with its name.
pub proof fn last_member_counts(members: Seq<(Seq<char>, JsonModel)>, at: int, name: Seq<char>)
    requires
        0 <= at < members.len(),
        members[at].0 == name,
        forall|i: int| at < i < members.len() ==> (#[trigger] members[i]).0 != name,
    ensures
        member(members, name) == Some(members[at].1),
    decreases members.len(),
{
    if at < members.len() - 1 {
        last_member_counts(members.drop_last(), at, name);
    }
}

/// The tool that reads pages, as [`ToolSpec::to_json`] gives it, is the one that the check of provider
/// requests asks for: a request that allows no parallel calls and exposes that tool alone passes.
pub proof fn page_tool_passes_the_request_check(request: JsonModel)
    requires
        request.get("parallel_tool_calls"@) == Some(JsonModel::Bool(false)),
        request.get("tools"@) == Some(JsonModel::Array(seq![tool_model(page_tool())])),
    ensures
        request_json_verdict(request) is Ok,
{
    reveal_strlit("type");
    reveal_strlit("name");
    reveal_strlit("description");
    reveal_strlit("strict");
    reveal_strlit("parameters");
    reveal_strlit("properties");
    reveal_strlit("required");
    reveal_strlit("additionalProperties");
    reveal_strlit("artifact_id");
    reveal_strlit("cursor");
    let tool = tool_model(page_tool());
    let parameters = parameters_model(page_tool());
    let members = tool->Object_0;
    let fields = parameters->Object_0;
    let properties = fields[1].1->Object_0;
    let required = fields[2].1->Array_0;
    assert(required =~= seq![JsonModel::Text("artifact_id"@)]);
    assert("type"@.len() == 4 && "name"@.len() == 4 && "type"@[0] != "name"@[0]);
    assert("description"@.len() == 11 && "strict"@.len() == 6 && "parameters"@.len() == 10);
    assert("properties"@.len() == 10 && "required"@.len() == 8);
    assert("additionalProperties"@.len() == 20);
    assert("artifact_id"@.len() == 11 && "cursor"@.len() == 6);
    last_member_counts(members, 0, "type"@);
    last_member_counts(members, 1, "name"@);
    last_member_counts(members, 3, "strict"@);
    last_member_counts(members, 4, "parameters"@);
    last_member_counts(fields, 0, "type"@);
    last_member_counts(fields, 1, "properties"@);
    last_member_counts(fields, 2, "required"@);
    last_member_counts(fields, 3, "additionalProperties"@);
    last_member_counts(properties, 0, "artifact_id"@);
    last_member_counts(properties, 1, "cursor"@);
    assert(is_page_tool(tool, parameters, properties, required));
    assert(tool_json_verdict(tool) is Ok);
}

} // verus!
