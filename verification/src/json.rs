//! JSON documents.
use crate::text::{chars_eq_str, chars_of};
use vstd::prelude::*;

verus! {

/// A number of a JSON document: its text, its value as a double, and its value
/// as a whole number where it is one that is not negative.
#[derive(Debug, Clone, PartialEq, Eq)]
pub struct JsonNumber {
    pub text: String,
    pub double_bits: Option<u64>,
    pub unsigned: Option<u64>,
}

/// A value of a JSON document.
#[derive(Debug)]
pub enum JsonValue {
    Null,
    Bool(bool),
    Number(JsonNumber),
    Text(String),
    Array(Vec<JsonValue>),
    Object(Vec<(String, JsonValue)>),
}

/// A number, with its text as a sequence of characters.
pub struct NumberModel {
    pub text: Seq<char>,
    pub double_bits: Option<u64>,
    pub unsigned: Option<u64>,
}

/// A value, with its texts as sequences of characters.
pub enum JsonModel {
    Null,
    Bool(bool),
    Number(NumberModel),
    Text(Seq<char>),
    Array(Seq<JsonModel>),
    Object(Seq<(Seq<char>, JsonModel)>),
}

impl JsonValue {
    /// The model of the value.
    pub open spec fn model(self) -> JsonModel
        decreases self,
    {
        match self {
            JsonValue::Null => JsonModel::Null,
            JsonValue::Bool(value) => JsonModel::Bool(value),
            JsonValue::Number(number) => JsonModel::Number(
                NumberModel {
                    text: number.text@,
                    double_bits: number.double_bits,
                    unsigned: number.unsigned,
                },
            ),
            JsonValue::Text(text) => JsonModel::Text(text@),
            JsonValue::Array(items) => JsonModel::Array(
                Seq::new(
                    items@.len(),
                    |i: int|
                        if 0 <= i < items@.len() {
                            items@[i].model()
                        } else {
                            JsonModel::Null
                        },
                ),
            ),
            JsonValue::Object(members) => JsonModel::Object(
                Seq::new(
                    members@.len(),
                    |i: int|
                        if 0 <= i < members@.len() {
                            (members@[i].0@, members@[i].1.model())
                        } else {
                            (Seq::empty(), JsonModel::Null)
                        },
                ),
            ),
        }
    }
}

// ---------------------------------------------------------------------------
// Documents
// ---------------------------------------------------------------------------

/// A value as the parser holds it.
#[verifier::external_type_specification]
#[verifier::external_body]
pub struct ExJsonDocument(serde_json::Value);

/// What a value of the parser holds.
pub uninterp spec fn value_model(value: serde_json::Value) -> JsonModel;

/// What a text is read as: a value, or the reason why it is none.
pub uninterp spec fn json_document(text: Seq<char>) -> Result<JsonModel, Seq<char>>;

/// The outermost layer of a value.
enum JsonLayer {
    Null,
    Bool(bool),
    Number(JsonNumber),
    Text(String),
    Array(Vec<serde_json::Value>),
    Object(Vec<(String, serde_json::Value)>),
}

spec fn layer_model(layer: JsonLayer) -> JsonModel {
    match layer {
        JsonLayer::Null => JsonModel::Null,
        JsonLayer::Bool(value) => JsonModel::Bool(value),
        JsonLayer::Number(number) => JsonModel::Number(
            NumberModel {
                text: number.text@,
                double_bits: number.double_bits,
                unsigned: number.unsigned,
            },
        ),
        JsonLayer::Text(text) => JsonModel::Text(text@),
        JsonLayer::Array(items) => JsonModel::Array(
            Seq::new(items@.len(), |i: int| value_model(items@[i])),
        ),
        JsonLayer::Object(members) => JsonModel::Object(
            Seq::new(members@.len(), |i: int| (members@[i].0@, value_model(members@[i].1))),
        ),
    }
}

/// `serde_json::from_str`, for a value.
///
/// What comes of it is a function of the text: the value that the text stands
/// for, or an error, given by its message.
#[verifier::external_body]
fn parse_value(text: &str) -> (result: Result<serde_json::Value, String>)
    ensures
        match result {
            Ok(value) => json_document(text@) == Result::<JsonModel, Seq<char>>::Ok(
                value_model(value),
            ),
            Err(message) => json_document(text@) == Result::<JsonModel, Seq<char>>::Err(message@),
        },
{
    serde_json::from_str(text).map_err(|error: serde_json::Error| error.to_string())
}

/// Takes the outermost layer off a `serde_json::Value`: its variant, and what
/// the variant holds. A number is given by its text, by `Number::as_f64` and by
/// `Number::as_u64`.
#[verifier::external_body]
fn open_value(value: serde_json::Value) -> (result: JsonLayer)
    ensures
        layer_model(result) == value_model(value),
{
    match value {
        serde_json::Value::Null => JsonLayer::Null,
        serde_json::Value::Bool(value) => JsonLayer::Bool(value),
        serde_json::Value::Number(number) => JsonLayer::Number(JsonNumber {
            text: number.to_string(),
            double_bits: number.as_f64().map(|double| double.to_bits()),
            unsigned: number.as_u64(),
        }),
        serde_json::Value::String(text) => JsonLayer::Text(text),
        serde_json::Value::Array(items) => JsonLayer::Array(items),
        serde_json::Value::Object(members) => JsonLayer::Object(members.into_iter().collect()),
    }
}

/// Takes a value over from the parser.
fn import_value(value: serde_json::Value) -> (result: JsonValue)
    ensures
        result.model() == value_model(value),
    decreases value_model(value),
{
    match open_value(value) {
        JsonLayer::Null => JsonValue::Null,
        JsonLayer::Bool(value) => JsonValue::Bool(value),
        JsonLayer::Number(number) => JsonValue::Number(number),
        JsonLayer::Text(text) => JsonValue::Text(text),
        JsonLayer::Array(items) => {
            let ghost all = items@;
            let ghost models = value_model(value)->Array_0;
            let mut result: Vec<JsonValue> = Vec::new();
            for item in it: items
                invariant
                    it.seq() == all,
                    value_model(value) == JsonModel::Array(models),
                    models =~= Seq::new(all.len(), |i: int| value_model(all[i])),
                    result@.len() == it.index(),
                    forall|k: int|
                        0 <= k < result@.len() ==> (#[trigger] result@[k]).model() == models[k],
            {
                assert(value_model(item) == models[it.index()]);
                assert(decreases_to!(value_model(value) => value_model(value)->Array_0));
                assert(decreases_to!(models => models[it.index()]));
                let imported = import_value(item);
                result.push(imported);
            }
            let array = JsonValue::Array(result);
            assert(array.model()->Array_0 =~= models);
            array
        },
        JsonLayer::Object(members) => {
            let ghost all = members@;
            let ghost models = value_model(value)->Object_0;
            let mut result: Vec<(String, JsonValue)> = Vec::new();
            for member in it: members
                invariant
                    it.seq() == all,
                    value_model(value) == JsonModel::Object(models),
                    models =~= Seq::new(
                        all.len(),
                        |i: int| (all[i].0@, value_model(all[i].1)),
                    ),
                    result@.len() == it.index(),
                    forall|k: int|
                        0 <= k < result@.len() ==> ((#[trigger] result@[k]).0@, result@[k].1.model())
                            == models[k],
            {
                assert((member.0@, value_model(member.1)) == models[it.index()]);
                assert(decreases_to!(value_model(value) => value_model(value)->Object_0));
                assert(decreases_to!(models => models[it.index()]));
                assert(decreases_to!(models[it.index()] => models[it.index()].1));
                let imported = import_value(member.1);
                result.push((member.0, imported));
            }
            let object = JsonValue::Object(result);
            assert(object.model()->Object_0 =~= models);
            object
        },
    }
}

/// What a read document is a model of.
pub open spec fn document_view(result: Result<JsonValue, String>) -> Result<JsonModel, Seq<char>> {
    match result {
        Ok(value) => Ok(value.model()),
        Err(message) => Err(message@),
    }
}

/// Reads a JSON document.
pub fn parse_json(text: &str) -> (result: Result<JsonValue, String>)
    ensures
        document_view(result) == json_document(text@),
{
    match parse_value(text) {
        Ok(value) => Ok(import_value(value)),
        Err(message) => Err(message),
    }
}

// ---------------------------------------------------------------------------
// Members
// ---------------------------------------------------------------------------

/// The first member with a name.
pub open spec fn member_of(members: Seq<(Seq<char>, JsonModel)>, name: Seq<char>) -> Option<JsonModel>
    decreases members.len(),
{
    if members.len() == 0 {
        None
    } else if members[0].0 == name {
        Some(members[0].1)
    } else {
        member_of(members.skip(1), name)
    }
}

/// The first member that has one of some names; the names are tried in their
/// order.
pub open spec fn first_member(
    members: Seq<(Seq<char>, JsonModel)>,
    names: Seq<Seq<char>>,
) -> Option<JsonModel>
    decreases names.len(),
{
    if names.len() == 0 {
        None
    } else {
        match member_of(members, names[0]) {
            Some(value) => Some(value),
            None => first_member(members, names.skip(1)),
        }
    }
}

/// The models of members.
pub open spec fn members_model(members: Seq<(String, JsonValue)>) -> Seq<(Seq<char>, JsonModel)> {
    Seq::new(members.len(), |i: int| (members[i].0@, members[i].1.model()))
}

/// Finds the first member with a name.
pub fn find_member<'a>(members: &'a [(String, JsonValue)], name: &str) -> (result: Option<
    &'a JsonValue,
>)
    ensures
        match member_of(members_model(members@), name@) {
            Some(value) => result is Some && result->0.model() == value,
            None => result is None,
        },
{
    let ghost models = members_model(members@);
    let mut i: usize = 0;
    assert(models.skip(0) =~= models);
    while i < members.len()
        invariant
            i <= members@.len(),
            models == members_model(members@),
            member_of(models, name@) == member_of(models.skip(i as int), name@),
        decreases members@.len() - i,
    {
        assert(models.skip(i as int)[0] == models[i as int]);
        assert(models.skip(i as int).skip(1) =~= models.skip(i as int + 1));
        if chars_eq_str(&chars_of(&members[i].0), name) {
            return Some(&members[i].1);
        }
        i += 1;
    }
    None
}

/// The texts of names.
pub open spec fn names_model(names: Seq<&str>) -> Seq<Seq<char>> {
    Seq::new(names.len(), |i: int| names[i]@)
}

/// Finds the first member that has one of some names.
pub fn find_first_member<'a>(members: &'a [(String, JsonValue)], names: &[&str]) -> (result: Option<
    &'a JsonValue,
>)
    ensures
        match first_member(members_model(members@), names_model(names@)) {
            Some(value) => result is Some && result->0.model() == value,
            None => result is None,
        },
{
    let ghost models = members_model(members@);
    let ghost texts = names_model(names@);
    let mut i: usize = 0;
    assert(texts.skip(0) =~= texts);
    while i < names.len()
        invariant
            i <= names@.len(),
            models == members_model(members@),
            texts == names_model(names@),
            first_member(models, texts) == first_member(models, texts.skip(i as int)),
        decreases names@.len() - i,
    {
        assert(texts.skip(i as int)[0] == names@[i as int]@);
        assert(texts.skip(i as int).skip(1) =~= texts.skip(i as int + 1));
        match find_member(members, names[i]) {
            Some(value) => {
                return Some(value);
            },
            None => {},
        }
        i += 1;
    }
    None
}

} // verus!
