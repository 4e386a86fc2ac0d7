//! JSON documents: a tree that the library builds, and its rendering as
//! indented text.

use vstd::prelude::*;

use crate::text::same_text;
use crate::text_map::find_from;

verus! {

/// A JSON value without numbers.
#[derive(Debug)]
pub enum JsonValue {
    Null,
    Bool(bool),
    Text(String),
    List(Vec<JsonValue>),
    /// Members in the order in which they were added. Where a name occurs
    /// more than once, the last member of that name counts.
    Object(Vec<JsonMember>),
}

/// A named member of a JSON object.
#[derive(Debug)]
pub struct JsonMember {
    pub name: String,
    pub value: JsonValue,
}

/// A JSON value as contracts see it.
pub enum JsonModel {
    Null,
    Bool(bool),
    Text(Seq<char>),
    List(Seq<JsonModel>),
    Object(Seq<(Seq<char>, JsonModel)>),
}

/// The value that a tree stands for.
pub open spec fn model_of(value: JsonValue) -> JsonModel
    decreases value,
{
    match value {
        JsonValue::Null => JsonModel::Null,
        JsonValue::Bool(b) => JsonModel::Bool(b),
        JsonValue::Text(s) => JsonModel::Text(s@),
        JsonValue::List(items) => JsonModel::List(
            Seq::new(
                items@.len(),
                |i: int|
                    if 0 <= i < items@.len() {
                        model_of(items@[i])
                    } else {
                        JsonModel::Null
                    },
            ),
        ),
        JsonValue::Object(members) => JsonModel::Object(
            Seq::new(
                members@.len(),
                |i: int|
                    if 0 <= i < members@.len() {
                        (members@[i].name@, model_of(members@[i].value))
                    } else {
                        (Seq::empty(), JsonModel::Null)
                    },
            ),
        ),
    }
}

impl View for JsonValue {
    type V = JsonModel;

    open spec fn view(&self) -> JsonModel {
        model_of(*self)
    }
}

/// The members that a vector of named values stands for.
pub open spec fn members_model(members: Seq<JsonMember>) -> Seq<(Seq<char>, JsonModel)> {
    Seq::new(members.len(), |i: int| (members[i].name@, members[i].value@))
}

/// The values that a vector of values stands for.
pub open spec fn list_model(items: Seq<JsonValue>) -> Seq<JsonModel> {
    Seq::new(items.len(), |i: int| items[i]@)
}

/// `members` after `name` is set to `value`: the value is replaced where the
/// name is present, and the member is appended where it is not.
pub open spec fn set_member(
    members: Seq<(Seq<char>, JsonModel)>,
    name: Seq<char>,
    value: JsonModel,
) -> Seq<(Seq<char>, JsonModel)> {
    let at = find_from(members, name, 0);
    if at < members.len() {
        members.update(at, (name, value))
    } else {
        members.push((name, value))
    }
}

/// The text of a JSON value as `serde_json::to_string_pretty` writes it:
/// indented by two spaces, the members of an object sorted by name, strings
/// escaped as JSON asks.
pub uninterp spec fn pretty_json(value: JsonModel) -> Seq<char>;

#[verifier::external_type_specification]
#[verifier::external_body]
pub struct ExOutsideJson(serde_json::Value);

#[verifier::external_type_specification]
#[verifier::external_body]
pub struct ExOutsideJsonError(serde_json::Error);

/// Converts a tree to a `serde_json::Value`, variant by variant. The members
/// of an object are inserted in order, so of two members with one name the
/// later one stays.
///
/// Trusted: builds the outside value that `render_pretty` prints; nothing is
/// claimed of it here.
#[verifier::external_body]
fn to_outside(value: &JsonValue) -> serde_json::Value {
    match value {
        JsonValue::Null => serde_json::Value::Null,
        JsonValue::Bool(b) => serde_json::Value::Bool(*b),
        JsonValue::Text(s) => serde_json::Value::String(s.clone()),
        JsonValue::List(items) => serde_json::Value::Array(items.iter().map(to_outside).collect()),
        JsonValue::Object(members) => {
            let mut map = serde_json::Map::new();
            for member in members {
                map.insert(member.name.clone(), to_outside(&member.value));
            }
            serde_json::Value::Object(map)
        },
    }
}

/// Renders a tree as indented JSON text.
///
/// Trusted: wraps `serde_json::to_string_pretty`. The text depends on the
/// value alone and is the text that `pretty_json` names. The call succeeds:
/// it fails only where writing fails or a map has a key that is no string,
/// and here it writes into a vector of bytes a value whose keys are strings.
#[verifier::external_body]
pub(crate) fn render_pretty(value: &JsonValue) -> (r: Result<String, serde_json::Error>)
    ensures
        r is Ok,
        r->Ok_0@ == pretty_json(value@),
{
    serde_json::to_string_pretty(&to_outside(value))
}

/// What an outside error says.
///
/// Trusted: wraps the `Display` of `serde_json::Error`; nothing is claimed of
/// the text.
#[verifier::external_body]
pub(crate) fn describe_error(error: &serde_json::Error) -> String {
    error.to_string()
}

/// What becomes of the answer of the JSON writer: the text, where it wrote
/// one, and what it said, where it failed.
pub fn written(rendered: Result<String, serde_json::Error>) -> (r: Result<String, String>)
    ensures
        rendered is Ok ==> r == Ok::<String, String>(rendered->Ok_0),
        rendered is Err ==> r is Err,
{
    match rendered {
        Ok(text) => Ok(text),
        Err(e) => Err(describe_error(&e)),
    }
}

/// The index of the member named `name`, or the number of members.
fn find_member(members: &Vec<JsonMember>, name: &str) -> (at: usize)
    ensures
        at == find_from(members_model(members@), name@, 0),
        at <= members.len(),
{
    let mut i: usize = 0;
    while i < members.len()
        invariant
            i <= members.len(),
            find_from(members_model(members@), name@, 0) == find_from(
                members_model(members@),
                name@,
                i as int,
            ),
        decreases members.len() - i,
    {
        assert(members_model(members@)[i as int].0 == members@[i as int].name@);
        if same_text(members[i].name.as_str(), name) {
            return i;
        }
        i += 1;
    }
    i
}

/// Sets the member `name` of an object to `value`.
pub fn put_member(members: &mut Vec<JsonMember>, name: String, value: JsonValue)
    ensures
        members_model(final(members)@) == set_member(members_model(old(members)@), name@, value@),
{
    let ghost before = members_model(members@);
    let at = find_member(members, name.as_str());
    if at < members.len() {
        let mut member = JsonMember { name, value };
        std::mem::swap(&mut members[at], &mut member);
        assert(members_model(members@) =~= before.update(at as int, (name@, value@)));
    } else {
        members.push(JsonMember { name, value });
        assert(members_model(members@) =~= before.push((name@, value@)));
    }
}

/// An object with the given members.
pub fn object_of(members: Vec<JsonMember>) -> (value: JsonValue)
    ensures
        value@ == JsonModel::Object(members_model(members@)),
{
    let value = JsonValue::Object(members);
    assert(value@->Object_0 =~= members_model(members@));
    value
}

/// A list with the given items.
pub fn list_of(items: Vec<JsonValue>) -> (value: JsonValue)
    ensures
        value@ == JsonModel::List(list_model(items@)),
{
    let value = JsonValue::List(items);
    assert(value@->List_0 =~= list_model(items@));
    value
}

/// A string value.
pub fn text_value(s: &str) -> (value: JsonValue)
    ensures
        value@ == JsonModel::Text(s@),
{
    JsonValue::Text(s.to_string())
}

} // verus!
