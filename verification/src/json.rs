//! JSON values as the library reads them.

use crate::text::same_text;
use vstd::prelude::*;

verus! {

/// A JSON value. What a number amounts to is of no interest here, so a number is only known to be
/// one.
#[derive(Debug)]
pub enum Json {
    Null,
    Bool(bool),
    Number,
    Text(String),
    Array(Vec<Json>),
    Object(Vec<(String, Json)>),
}

/// What a [`Json`] value says, with its texts as sequences of characters.
pub enum JsonModel {
    Null,
    Bool(bool),
    Number,
    Text(Seq<char>),
    Array(Seq<JsonModel>),
    Object(Seq<(Seq<char>, JsonModel)>),
}

/// The value of a member among the members of an object. Of members with one name the last counts.
pub open spec fn member(members: Seq<(Seq<char>, JsonModel)>, name: Seq<char>) -> Option<JsonModel>
    decreases members.len(),
{
    if members.len() == 0 {
        None
    } else if members.last().0 == name {
        Some(members.last().1)
    } else {
        member(members.drop_last(), name)
    }
}

impl JsonModel {
    /// The value of a member, where this is an object that has it.
    pub open spec fn get(self, name: Seq<char>) -> Option<JsonModel> {
        match self {
            JsonModel::Object(members) => member(members, name),
            _ => None,
        }
    }
}

impl Json {
    /// What this value says.
    pub open spec fn model(self) -> JsonModel
        decreases self,
    {
        match self {
            Json::Null => JsonModel::Null,
            Json::Bool(flag) => JsonModel::Bool(flag),
            Json::Number => JsonModel::Number,
            Json::Text(text) => JsonModel::Text(text@),
            Json::Array(items) => JsonModel::Array(
                Seq::new(
                    items@.len(),
                    |i: int|
                        if 0 <= i < items@.len() {
                            items@[i].model()
                        } else {
                            JsonModel::Null
                        },
                ),
            ),
            Json::Object(members) => JsonModel::Object(
                Seq::new(
                    members@.len(),
                    |i: int|
                        if 0 <= i < members@.len() {
                            (members@[i].0@, members@[i].1.model())
                        } else {
                            (Seq::empty(), JsonModel::Null)
                        },
                ),
            ),
        }
    }

    /// The value of a member, where this is an object that has it.
    pub fn get(&self, name: &str) -> (found: Option<&Json>)
        ensures
            match found {
                Some(value) => self.model().get(name@) == Some(value.model()),
                None => self.model().get(name@) is None,
            },
    {
        match self {
            Json::Object(members) => {
                let ghost all = self.model()->Object_0;
                let mut left: usize = members.len();
                assert(all.take(left as int) =~= all);
                while left > 0
                    invariant
                        self.model() == JsonModel::Object(all),
                        *self == Json::Object(*members),
                        left <= members@.len(),
                        all.len() == members@.len(),
                        member(all.take(left as int), name@) == member(all, name@),
                    decreases left,
                {
                    left = left - 1;
                    let ghost seen = all.take(left + 1);
                    assert(seen.drop_last() =~= all.take(left as int));
                    assert(seen.last() == all[left as int]);
                    let candidate: &(String, Json) = &members[left];
                    assert(all[left as int] == (candidate.0@, candidate.1.model()));
                    if same_text(candidate.0.as_str(), name) {
                        return Some(&candidate.1);
                    }
                }
                None
            },
            _ => None,
        }
    }
}

/// The JSON value type of the parser.
#[verifier::external_type_specification]
#[verifier::external_body]
pub struct ExValue(serde_json::Value);

/// What a value of the parser holds. The members of an object stand in the order in which its map
/// hands them out.
pub uninterp spec fn parsed_model(value: serde_json::Value) -> JsonModel;

/// What the parser makes of bytes: the value that they encode, or the text of its error.
pub uninterp spec fn json_parse(bytes: Seq<u8>) -> Result<JsonModel, Seq<char>>;

/// One level of a value of the parser.
enum JsonNode {
    Null,
    Bool(bool),
    Number,
    Text(String),
    Array(Vec<serde_json::Value>),
    Object(Vec<(String, serde_json::Value)>),
}

/// Whether a node is the outermost level of what a model says.
spec fn shows(node: JsonNode, model: JsonModel) -> bool {
    match (node, model) {
        (JsonNode::Null, JsonModel::Null) => true,
        (JsonNode::Bool(a), JsonModel::Bool(b)) => a == b,
        (JsonNode::Number, JsonModel::Number) => true,
        (JsonNode::Text(a), JsonModel::Text(b)) => a@ == b,
        (JsonNode::Array(a), JsonModel::Array(b)) => {
            &&& a@.len() == b.len()
            &&& forall|i: int| 0 <= i < b.len() ==> parsed_model(#[trigger] a@[i]) == b[i]
        },
        (JsonNode::Object(a), JsonModel::Object(b)) => {
            &&& a@.len() == b.len()
            &&& forall|i: int|
                0 <= i < b.len() ==> (#[trigger] a@[i]).0@ == b[i].0 && parsed_model(a@[i].1)
                    == b[i].1
        },
        _ => false,
    }
}

/// `serde_json::from_slice` into a `serde_json::Value`: the value that the bytes encode, or, where
/// they encode none, the text of the error. Both depend on the bytes alone.
#[verifier::external_body]
fn parse_value(bytes: &[u8]) -> (parsed: Result<serde_json::Value, String>)
    ensures
        match parsed {
            Ok(value) => json_parse(bytes@) == Ok::<JsonModel, Seq<char>>(parsed_model(value)),
            Err(error) => json_parse(bytes@) == Err::<JsonModel, Seq<char>>(error@),
        },
{
    serde_json::from_slice(bytes).map_err(|error: serde_json::Error| error.to_string())
}

/// The variants of `serde_json::Value` told apart, and the members of an object taken out of its
/// map by `serde_json::Map::into_iter`.
#[verifier::external_body]
fn unfolded(value: serde_json::Value) -> (node: JsonNode)
    ensures
        shows(node, parsed_model(value)),
{
    match value {
        serde_json::Value::Null => JsonNode::Null,
        serde_json::Value::Bool(flag) => JsonNode::Bool(flag),
        serde_json::Value::Number(_) => JsonNode::Number,
        serde_json::Value::String(text) => JsonNode::Text(text),
        serde_json::Value::Array(items) => JsonNode::Array(items),
        serde_json::Value::Object(members) => JsonNode::Object(members.into_iter().collect()),
    }
}

/// A value of the parser as a value of the library.
fn converted(value: serde_json::Value) -> (json: Json)
    ensures
        json.model() == parsed_model(value),
    decreases parsed_model(value),
{
    let ghost model = parsed_model(value);
    match unfolded(value) {
        JsonNode::Null => Json::Null,
        JsonNode::Bool(flag) => Json::Bool(flag),
        JsonNode::Number => Json::Number,
        JsonNode::Text(text) => Json::Text(text),
        JsonNode::Array(items) => {
            let ghost models = model->Array_0;
            let ghost all = items@;
            let mut done: Vec<Json> = Vec::new();
            for item in rest: items
                invariant
                    model == parsed_model(value),
                    model == JsonModel::Array(models),
                    rest.seq() == all,
                    all.len() == models.len(),
                    forall|i: int| 0 <= i < models.len() ==> parsed_model(#[trigger] all[i]) == models[i],
                    done@.len() == rest.index(),
                    forall|i: int| 0 <= i < done@.len() ==> (#[trigger] done@[i]).model() == models[i],
            {
                let ghost at = rest.index();
                assert(decreases_to!(model => model->Array_0));
                assert(decreases_to!(model->Array_0 => models[at]));
                done.push(converted(item));
            }
            let json = Json::Array(done);
            assert(json.model()->Array_0 =~= models);
            json
        },
        JsonNode::Object(members) => {
            let ghost models = model->Object_0;
            let ghost all = members@;
            let mut done: Vec<(String, Json)> = Vec::new();
            for entry in rest: members
                invariant
                    model == parsed_model(value),
                    model == JsonModel::Object(models),
                    rest.seq() == all,
                    all.len() == models.len(),
                    forall|i: int|
                        0 <= i < models.len() ==> (#[trigger] all[i]).0@ == models[i].0
                            && parsed_model(all[i].1) == models[i].1,
                    done@.len() == rest.index(),
                    forall|i: int|
                        0 <= i < done@.len() ==> (#[trigger] done@[i]).0@ == models[i].0
                            && done@[i].1.model() == models[i].1,
            {
                let ghost at = rest.index();
                assert(decreases_to!(model => model->Object_0));
                assert(decreases_to!(model->Object_0 => models[at]));
                assert(decreases_to!(models[at] => models[at].1));
                let (name, inner) = entry;
                done.push((name, converted(inner)));
            }
            let json = Json::Object(done);
            assert(json.model()->Object_0 =~= models);
            json
        },
    }
}

/// The JSON value that bytes encode, or the text of the parser's error.
pub fn parse_json(bytes: &[u8]) -> (parsed: Result<Json, String>)
    ensures
        match parsed {
            Ok(json) => json_parse(bytes@) == Ok::<JsonModel, Seq<char>>(json.model()),
            Err(error) => json_parse(bytes@) == Err::<JsonModel, Seq<char>>(error@),
        },
{
    match parse_value(bytes) {
        Ok(value) => Ok(converted(value)),
        Err(error) => Err(error),
    }
}

} // verus!
