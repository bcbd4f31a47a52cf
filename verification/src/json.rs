//! A plain model of JSON values and the calls into `serde_json` that produce
//! and render them.

use crate::text::{opt_text, str_eq};
use vstd::prelude::*;
use vstd::string::{StringExecFns, StringSliceAdditionalSpecFns};

verus! {

/// A JSON value held as plain data.
///
/// Integers are kept exactly; a number that is not an integer is carried as
/// the text that `serde_json` prints for it. An integer that `serde_json`
/// cannot hold, below `i64::MIN` or above `u64::MAX`, is rendered as `null`,
/// and so is a `Float` whose text is no number.
#[derive(Debug, PartialEq, Eq)]
pub enum Json {
    Null,
    Bool(bool),
    Int(i128),
    Float(String),
    Str(String),
    Array(Vec<Json>),
    Object(Vec<Field>),
}

/// One field of a JSON object.
#[derive(Clone, Debug, PartialEq, Eq)]
pub struct Field {
    pub name: String,
    pub value: Json,
}

/// The mathematical value of a [`Json`].
pub enum JsonView {
    Null,
    Bool(bool),
    Int(int),
    Float(Seq<char>),
    Str(Seq<char>),
    Array(Seq<JsonView>),
    Object(Seq<FieldView>),
}

/// The mathematical value of a [`Field`].
pub struct FieldView {
    pub name: Seq<char>,
    pub value: JsonView,
}

impl View for Json {
    type V = JsonView;

    open spec fn view(&self) -> JsonView
        decreases self,
    {
        match self {
            Json::Null => JsonView::Null,
            Json::Bool(b) => JsonView::Bool(*b),
            Json::Int(i) => JsonView::Int(*i as int),
            Json::Float(t) => JsonView::Float(t@),
            Json::Str(s) => JsonView::Str(s@),
            Json::Array(items) => JsonView::Array(
                Seq::new(items@.len(), |i: int| if 0 <= i < items@.len() { items@[i]@ } else { JsonView::Null }),
            ),
            Json::Object(fields) => JsonView::Object(
                Seq::new(
                    fields@.len(),
                    |i: int|
                        if 0 <= i < fields@.len() {
                            FieldView { name: fields@[i].name@, value: fields@[i].value@ }
                        } else {
                            FieldView { name: Seq::empty(), value: JsonView::Null }
                        },
                ),
            ),
        }
    }
}

/// The value of the first field named `key` among `fields[from..]`.
pub open spec fn first_field(
    fields: Seq<FieldView>,
    key: Seq<char>,
    from: int,
) -> Option<JsonView>
    decreases fields.len() - from,
{
    if from < 0 || from >= fields.len() {
        None
    } else if fields[from].name == key {
        Some(fields[from].value)
    } else {
        first_field(fields, key, from + 1)
    }
}

impl JsonView {
    /// The value of the first field named `key`, where this is an object
    /// that has one.
    pub open spec fn field(self, key: Seq<char>) -> Option<JsonView> {
        match self {
            JsonView::Object(fields) => first_field(fields, key, 0),
            _ => None,
        }
    }

    /// The text, where this is a string.
    pub open spec fn text(self) -> Option<Seq<char>> {
        match self {
            JsonView::Str(s) => Some(s),
            _ => None,
        }
    }

    /// The truth value, where this is a boolean.
    pub open spec fn truth(self) -> Option<bool> {
        match self {
            JsonView::Bool(b) => Some(b),
            _ => None,
        }
    }

    /// The number, where this is an integer that a `u64` holds.
    pub open spec fn unsigned(self) -> Option<u64> {
        match self {
            JsonView::Int(i) => if 0 <= i <= u64::MAX {
                Some(i as u64)
            } else {
                None
            },
            _ => None,
        }
    }

    /// The items, where this is an array.
    pub open spec fn items(self) -> Option<Seq<JsonView>> {
        match self {
            JsonView::Array(items) => Some(items),
            _ => None,
        }
    }
}

/// The values of a sequence of [`Json`].
pub open spec fn json_views(items: Seq<Json>) -> Seq<JsonView> {
    Seq::new(items.len(), |i: int| items[i]@)
}

impl Json {
    /// The value of the first field named `key`, where this is an object
    /// that has one.
    pub fn get(&self, key: &str) -> (found: Option<&Json>)
        ensures
            match found {
                Some(value) => self@.field(key@) == Some(value@),
                None => self@.field(key@) is None,
            },
    {
        match self {
            Json::Object(fields) => {
                let ghost model = Seq::new(
                    fields@.len(),
                    |j: int| FieldView { name: fields@[j].name@, value: fields@[j].value@ },
                );
                assert(self@->Object_0 =~= model);
                let mut i: usize = 0;
                while i < fields.len()
                    invariant
                        i <= fields.len(),
                        model.len() == fields@.len(),
                        forall|j: int|
                            0 <= j < fields@.len() ==> (#[trigger] model[j]).name
                                == fields@[j].name@ && model[j].value == fields@[j].value@,
                        self@.field(key@) == first_field(model, key@, i as int),
                    decreases fields.len() - i,
                {
                    if str_eq(fields[i].name.as_str(), key) {
                        return Some(&fields[i].value);
                    }
                    i = i + 1;
                }
                None
            },
            _ => None,
        }
    }

    /// The text, where this is a string.
    pub fn as_str(&self) -> (text: Option<&str>)
        ensures
            match text {
                Some(s) => self@.text() == Some(s@),
                None => self@.text() is None,
            },
    {
        match self {
            Json::Str(s) => Some(s.as_str()),
            _ => None,
        }
    }

    /// The truth value, where this is a boolean.
    pub fn as_bool(&self) -> (truth: Option<bool>)
        ensures
            truth == self@.truth(),
    {
        match self {
            Json::Bool(b) => Some(*b),
            _ => None,
        }
    }

    /// The number, where this is an integer that a `u64` holds.
    pub fn as_u64(&self) -> (number: Option<u64>)
        ensures
            number == self@.unsigned(),
    {
        match self {
            Json::Int(i) => if 0 <= *i && *i <= 0xffff_ffff_ffff_ffff {
                Some(*i as u64)
            } else {
                None
            },
            _ => None,
        }
    }

    /// The items, where this is an array.
    pub fn as_array(&self) -> (items: Option<&Vec<Json>>)
        ensures
            match items {
                Some(v) => self@.items() == Some(json_views(v@)),
                None => self@.items() is None,
            },
    {
        match self {
            Json::Array(items) => {
                assert(self@->Array_0 =~= json_views(items@));
                Some(items)
            },
            _ => None,
        }
    }

    /// Whether this is `null`.
    pub fn is_null(&self) -> (null: bool)
        ensures
            null == (self@ is Null),
    {
        match self {
            Json::Null => true,
            _ => false,
        }
    }
}

/// The values of a sequence of [`Field`].
pub open spec fn field_views(fields: Seq<Field>) -> Seq<FieldView> {
    Seq::new(fields.len(), |i: int| FieldView { name: fields[i].name@, value: fields[i].value@ })
}

impl Json {
    /// A copy of this value.
    pub fn duplicate(&self) -> (copy: Json)
        ensures
            copy@ == self@,
        decreases self,
    {
        match self {
            Json::Null => Json::Null,
            Json::Bool(b) => Json::Bool(*b),
            Json::Int(i) => Json::Int(*i),
            Json::Float(t) => Json::Float(t.clone()),
            Json::Str(s) => Json::Str(s.clone()),
            Json::Array(items) => {
                let mut copies: Vec<Json> = Vec::new();
                let mut i: usize = 0;
                while i < items.len()
                    invariant
                        i <= items.len(),
                        copies.len() == i,
                        forall|j: int| 0 <= j < i ==> copies@[j]@ == items@[j]@,
                        forall|j: int| 0 <= j < items.len() ==> decreases_to!(self => items@[j]),
                    decreases items.len() - i,
                {
                    copies.push(items[i].duplicate());
                    i = i + 1;
                }
                assert(json_views(copies@) =~= json_views(items@));
                assert(Json::Array(copies)@->Array_0 =~= json_views(copies@));
                assert(self@->Array_0 =~= json_views(items@));
                Json::Array(copies)
            },
            Json::Object(fields) => {
                let mut copies: Vec<Field> = Vec::new();
                let mut i: usize = 0;
                while i < fields.len()
                    invariant
                        i <= fields.len(),
                        copies.len() == i,
                        forall|j: int|
                            0 <= j < i ==> copies@[j].name@ == fields@[j].name@ && copies@[j].value@
                                == fields@[j].value@,
                        forall|j: int| 0 <= j < fields.len() ==> decreases_to!(self => fields@[j]),
                    decreases fields.len() - i,
                {
                    let value = fields[i].value.duplicate();
                    copies.push(Field { name: fields[i].name.clone(), value });
                    i = i + 1;
                }
                assert(field_views(copies@) =~= field_views(fields@));
                assert(Json::Object(copies)@->Object_0 =~= field_views(copies@));
                assert(self@->Object_0 =~= field_views(fields@));
                Json::Object(copies)
            },
        }
    }
}

/// `serde_json::Value`, the parsed form that `serde_json` works on. A value
/// of it only passes between the calls below.
#[verifier::external_type_specification]
#[verifier::external_body]
pub struct ExValue(serde_json::Value);

/// What `serde_json::from_slice` makes of `bytes` as a `serde_json::Value`:
/// the value of the JSON text, or `None` where the bytes are no JSON text.
pub uninterp spec fn json_of_bytes(bytes: Seq<u8>) -> Option<JsonView>;

/// The compact text that `serde_json::to_string` writes for a value.
pub uninterp spec fn json_rendering(value: JsonView) -> Seq<char>;

/// The indented text that `serde_json::to_string_pretty` writes for a value.
pub uninterp spec fn json_pretty_rendering(value: JsonView) -> Seq<char>;

/// The value of a parse result.
pub open spec fn parsed_view(parsed: Option<Json>) -> Option<JsonView> {
    match parsed {
        Some(json) => Some(json@),
        None => None,
    }
}

/// Copies a `serde_json::Value` into a [`Json`], variant by variant. A
/// `serde_json::Number` becomes `Int` where `as_i128` gives an integer, and
/// else `Float` with the text that its `Display` prints. Nothing is claimed
/// of the result here.
#[verifier::external_body]
fn json_from_value(value: &serde_json::Value) -> Json {
    match value {
        serde_json::Value::Null => Json::Null,
        serde_json::Value::Bool(b) => Json::Bool(*b),
        serde_json::Value::Number(n) => match n.as_i128() {
            Some(i) => Json::Int(i),
            None => Json::Float(n.to_string()),
        },
        serde_json::Value::String(s) => Json::Str(s.clone()),
        serde_json::Value::Array(a) => Json::Array(a.iter().map(json_from_value).collect()),
        serde_json::Value::Object(m) => Json::Object(
            m.iter().map(|(k, v)| Field { name: k.clone(), value: json_from_value(v) }).collect(),
        ),
    }
}

/// Copies a [`Json`] into a `serde_json::Value`, variant by variant. An
/// `Int` goes through `Number::from_i128` and a `Float` through the
/// `FromStr` of `Number`; where either refuses, the value is `null`. Nothing
/// is claimed of the result here.
#[verifier::external_body]
fn value_from_json(json: &Json) -> serde_json::Value {
    match json {
        Json::Null => serde_json::Value::Null,
        Json::Bool(b) => serde_json::Value::Bool(*b),
        Json::Int(i) => serde_json::Number::from_i128(*i).map_or(
            serde_json::Value::Null,
            serde_json::Value::Number,
        ),
        Json::Float(t) => t.parse().map_or(serde_json::Value::Null, serde_json::Value::Number),
        Json::Str(s) => serde_json::Value::String(s.clone()),
        Json::Array(a) => serde_json::Value::Array(a.iter().map(value_from_json).collect()),
        Json::Object(f) => serde_json::Value::Object(
            f.iter().map(|x| (x.name.clone(), value_from_json(&x.value))).collect(),
        ),
    }
}

/// Calls `serde_json::from_slice` for a `serde_json::Value` and copies the
/// value out. The contract only names the result: the same bytes always
/// parse to the same value.
#[verifier::external_body]
fn parse_bytes(bytes: &[u8]) -> (parsed: Option<Json>)
    ensures
        parsed_view(parsed) == json_of_bytes(bytes@),
{
    match serde_json::from_slice::<serde_json::Value>(bytes) {
        Ok(value) => Some(json_from_value(&value)),
        Err(_) => None,
    }
}

/// Calls `serde_json::to_string` on the value copied into a
/// `serde_json::Value`. The contract only names the result.
#[verifier::external_body]
fn render_compact(json: &Json) -> (text: String)
    ensures
        text@ == json_rendering(json@),
{
    serde_json::to_string(&value_from_json(json)).unwrap_or_default()
}

/// Calls `serde_json::to_string_pretty` on the value copied into a
/// `serde_json::Value`. The contract only names the result.
#[verifier::external_body]
fn render_pretty(json: &Json) -> (text: String)
    ensures
        text@ == json_pretty_rendering(json@),
{
    serde_json::to_string_pretty(&value_from_json(json)).unwrap_or_default()
}

impl Json {
    /// Parses JSON text given as bytes.
    pub fn parse(bytes: &[u8]) -> (parsed: Option<Json>)
        ensures
            parsed_view(parsed) == json_of_bytes(bytes@),
    {
        parse_bytes(bytes)
    }

    /// Parses JSON text.
    pub fn parse_str(text: &str) -> (parsed: Option<Json>)
        ensures
            parsed_view(parsed) == json_of_bytes(text.spec_bytes()),
    {
        parse_bytes(text.as_bytes())
    }

    /// The value as compact JSON text.
    pub fn to_text(&self) -> (text: String)
        ensures
            text@ == json_rendering(self@),
    {
        render_compact(self)
    }

    /// The value as indented JSON text.
    pub fn to_pretty_text(&self) -> (text: String)
        ensures
            text@ == json_pretty_rendering(self@),
    {
        render_pretty(self)
    }
}

impl JsonView {
    /// The text of the field `key`, where there is such a field and it is a
    /// string.
    pub open spec fn text_at(self, key: Seq<char>) -> Option<Seq<char>> {
        match self.field(key) {
            Some(value) => value.text(),
            None => None,
        }
    }

    /// The text of the field `key`, where it is a string that is not empty.
    pub open spec fn word_at(self, key: Seq<char>) -> Option<Seq<char>> {
        match self.text_at(key) {
            Some(text) => if text.len() > 0 {
                Some(text)
            } else {
                None
            },
            None => None,
        }
    }

    /// The number of the field `key`, where it is an integer that a `u32`
    /// holds.
    pub open spec fn count_at(self, key: Seq<char>) -> Option<u32> {
        match self.field(key) {
            Some(value) => match value.unsigned() {
                Some(n) => if n <= u32::MAX {
                    Some(n as u32)
                } else {
                    None
                },
                None => None,
            },
            None => None,
        }
    }

    /// The number of the field `key`, where it is an integer that a `u64`
    /// holds.
    pub open spec fn number_at(self, key: Seq<char>) -> Option<u64> {
        match self.field(key) {
            Some(value) => value.unsigned(),
            None => None,
        }
    }

    /// The truth value of the field `key`, where it is a boolean.
    pub open spec fn truth_at(self, key: Seq<char>) -> Option<bool> {
        match self.field(key) {
            Some(value) => value.truth(),
            None => None,
        }
    }

    /// The items of the field `key`, where it is an array.
    pub open spec fn items_at(self, key: Seq<char>) -> Option<Seq<JsonView>> {
        match self.field(key) {
            Some(value) => value.items(),
            None => None,
        }
    }
}

impl Json {
    /// A copy of the text of the field `key`, where it is a string.
    pub fn text_at(&self, key: &str) -> (text: Option<String>)
        ensures
            opt_text(text) == self@.text_at(key@),
    {
        match self.get(key) {
            Some(value) => match value.as_str() {
                Some(s) => Some(String::from_str(s)),
                None => None,
            },
            None => None,
        }
    }

    /// A copy of the text of the field `key`, where it is a string that is
    /// not empty.
    pub fn word_at(&self, key: &str) -> (text: Option<String>)
        ensures
            opt_text(text) == self@.word_at(key@),
    {
        match self.get(key) {
            Some(value) => match value.as_str() {
                Some(s) => if s.is_empty() {
                    None
                } else {
                    Some(String::from_str(s))
                },
                None => None,
            },
            None => None,
        }
    }

    /// The number of the field `key`, where it is an integer that a `u32`
    /// holds.
    pub fn count_at(&self, key: &str) -> (count: Option<u32>)
        ensures
            count == self@.count_at(key@),
    {
        match self.get(key) {
            Some(value) => match value.as_u64() {
                Some(n) => if n <= 0xffff_ffff {
                    Some(n as u32)
                } else {
                    None
                },
                None => None,
            },
            None => None,
        }
    }

    /// The number of the field `key`, where it is an integer that a `u64`
    /// holds.
    pub fn number_at(&self, key: &str) -> (number: Option<u64>)
        ensures
            number == self@.number_at(key@),
    {
        match self.get(key) {
            Some(value) => value.as_u64(),
            None => None,
        }
    }

    /// The truth value of the field `key`, where it is a boolean.
    pub fn truth_at(&self, key: &str) -> (truth: Option<bool>)
        ensures
            truth == self@.truth_at(key@),
    {
        match self.get(key) {
            Some(value) => value.as_bool(),
            None => None,
        }
    }

    /// The items of the field `key`, where it is an array.
    pub fn items_at(&self, key: &str) -> (items: Option<&Vec<Json>>)
        ensures
            match items {
                Some(v) => self@.items_at(key@) == Some(json_views(v@)),
                None => self@.items_at(key@) is None,
            },
    {
        match self.get(key) {
            Some(value) => value.as_array(),
            None => None,
        }
    }
}

impl Clone for Json {
    fn clone(&self) -> (copy: Json)
        ensures
            copy@ == self@,
    {
        self.duplicate()
    }
}

/// The field named `name` with the value `value`.
pub open spec fn fld(name: Seq<char>, value: JsonView) -> FieldView {
    FieldView { name, value }
}

impl Field {
    /// The field named `name` with the value `value`.
    pub fn new(name: &str, value: Json) -> (field: Field)
        ensures
            field.name@ == name@,
            field.value == value,
    {
        Field { name: String::from_str(name), value }
    }
}

impl Json {
    /// The object with these fields.
    pub fn object(fields: Vec<Field>) -> (json: Json)
        ensures
            json@ == JsonView::Object(field_views(fields@)),
    {
        let ghost model = field_views(fields@);
        let json = Json::Object(fields);
        assert(json@->Object_0 =~= model);
        json
    }

    /// The array with these items.
    pub fn array(items: Vec<Json>) -> (json: Json)
        ensures
            json@ == JsonView::Array(json_views(items@)),
    {
        let ghost model = json_views(items@);
        let json = Json::Array(items);
        assert(json@->Array_0 =~= model);
        json
    }

    /// The string with this text.
    pub fn text(text: &str) -> (json: Json)
        ensures
            json@ == JsonView::Str(text@),
    {
        Json::Str(String::from_str(text))
    }
}

} // verus!
