//! JSON values.

use crate::text;
use vstd::prelude::*;

verus! {

/// `serde_json::Value`.
#[verifier::external_type_specification]
#[verifier::external_body]
pub struct ExValue(serde_json::Value);

/// A JSON value. A number is kept as the text it prints as.
#[derive(Debug, PartialEq)]
pub enum Json {
    Null,
    Bool(bool),
    Number(String),
    Str(String),
    Array(Vec<Json>),
    Object(Vec<(String, Json)>),
}

/// A JSON value as a mathematical value.
pub ghost enum JsonView {
    Null,
    Bool(bool),
    Number(Seq<char>),
    Str(Seq<char>),
    Array(Seq<JsonView>),
    Object(Seq<Seq<char>>, Seq<JsonView>),
}

impl View for Json {
    type V = JsonView;

    open spec fn view(&self) -> JsonView
        decreases self,
    {
        match self {
            Json::Null => JsonView::Null,
            Json::Bool(b) => JsonView::Bool(*b),
            Json::Number(s) => JsonView::Number(s@),
            Json::Str(s) => JsonView::Str(s@),
            Json::Array(items) => JsonView::Array(
                Seq::new(items@.len(), |i: int| if 0 <= i < items@.len() { items@[i].view() } else { JsonView::Null }),
            ),
            Json::Object(fields) => JsonView::Object(
                Seq::new(fields@.len(), |i: int| fields@[i].0@),
                Seq::new(
                    fields@.len(),
                    |i: int|
                        if 0 <= i < fields@.len() {
                            fields@[i].1.view()
                        } else {
                            JsonView::Null
                        },
                ),
            ),
        }
    }
}

/// The value that an optional JSON value holds.
pub open spec fn opt_view(json: Option<Json>) -> Option<JsonView> {
    match json {
        Some(j) => Some(j@),
        None => None,
    }
}

/// The value that `serde_json` reads from a text; none where the text is not JSON.
pub uninterp spec fn json_text(text: Seq<char>) -> Option<JsonView>;

/// What a `serde_json::Value` holds.
pub uninterp spec fn json_value(value: serde_json::Value) -> JsonView;

/// `serde_json::from_str` into a `serde_json::Value`.
#[verifier::external_body]
fn read_value(text: &str) -> (value: Option<serde_json::Value>)
    ensures
        (match value {
            Some(v) => Some(json_value(v)),
            None => None,
        }) == json_text(text@),
{
    serde_json::from_str(text).ok()
}

/// The variant of a `serde_json::Value`, with its contents.
#[verifier::external_body]
fn json_of(value: &serde_json::Value) -> (json: Json)
    ensures
        json@ == json_value(*value),
{
    match value {
        serde_json::Value::Null => Json::Null,
        serde_json::Value::Bool(b) => Json::Bool(*b),
        serde_json::Value::Number(n) => Json::Number(n.to_string()),
        serde_json::Value::String(s) => Json::Str(s.clone()),
        serde_json::Value::Array(a) => Json::Array(a.iter().map(json_of).collect()),
        serde_json::Value::Object(o) => Json::Object(
            o.iter().map(|(k, v)| (k.clone(), json_of(v))).collect(),
        ),
    }
}

/// Reads a JSON text.
pub fn parse_json(text: &str) -> (json: Option<Json>)
    ensures
        opt_view(json) == json_text(text@),
{
    match read_value(text) {
        Some(value) => Some(json_of(&value)),
        None => None,
    }
}

/// The value behind the first name that is `key`.
pub open spec fn field_in(
    names: Seq<Seq<char>>,
    values: Seq<JsonView>,
    key: Seq<char>,
) -> Option<JsonView>
    decreases names.len(),
{
    if names.len() == 0 {
        None
    } else if names[0] == key {
        Some(values[0])
    } else {
        field_in(names.skip(1), values.skip(1), key)
    }
}

/// A field of an object; no other value has any.
pub open spec fn field(v: JsonView, key: Seq<char>) -> Option<JsonView> {
    match v {
        JsonView::Object(names, values) => field_in(names, values, key),
        _ => None,
    }
}

/// The text of a string; no other value has one.
pub open spec fn str_of(v: Option<JsonView>) -> Option<Seq<char>> {
    match v {
        Some(JsonView::Str(s)) => Some(s),
        _ => None,
    }
}

/// The items of an array; no other value has any.
pub open spec fn items_of(v: Option<JsonView>) -> Option<Seq<JsonView>> {
    match v {
        Some(JsonView::Array(items)) => Some(items),
        _ => None,
    }
}

/// A field that is a string, or nothing.
pub open spec fn str_field(v: JsonView, key: Seq<char>) -> Seq<char> {
    match str_of(field(v, key)) {
        Some(s) => s,
        None => Seq::empty(),
    }
}

/// The values of a list of JSON values.
pub open spec fn json_views(list: Seq<Json>) -> Seq<JsonView> {
    list.map_values(|j: Json| j@)
}

/// The value behind an optional reference.
pub open spec fn ref_view(json: Option<&Json>) -> Option<JsonView> {
    match json {
        Some(j) => Some(j@),
        None => None,
    }
}

/// A field of a JSON text as `serde_json` prints it; none where the text is
/// not JSON or has no such field.
pub uninterp spec fn printed_field(data: Seq<char>, key: Seq<char>) -> Option<Seq<char>>;

/// `serde_json::Value::to_string` of a field of a JSON text.
#[verifier::external_body]
pub(crate) fn print_field(data: &str, key: &str) -> (r: Option<String>)
    ensures
        text::opt_view(r) == printed_field(data@, key@),
        r is Some == (json_text(data@) is Some && field(json_text(data@)->0, key@) is Some),
{
    let value: serde_json::Value = serde_json::from_str(data).ok()?;
    value.get(key).map(|v| v.to_string())
}

/// A JSON text as `serde_json` prints its value; none where it is not JSON.
pub uninterp spec fn printed_text(data: Seq<char>) -> Option<Seq<char>>;

/// `serde_json::Value::to_string` of a JSON text's value.
#[verifier::external_body]
pub(crate) fn print_text(data: &str) -> (r: Option<String>)
    ensures
        text::opt_view(r) == printed_text(data@),
        r is Some == json_text(data@) is Some,
{
    let value: serde_json::Value = serde_json::from_str(data).ok()?;
    Some(value.to_string())
}

/// The fields of an object, one by one.
pub proof fn lemma_fields(fields: Vec<(String, Json)>)
    ensures
        Json::Object(fields)@ is Object,
        Json::Object(fields)@->Object_0.len() == fields@.len(),
        Json::Object(fields)@->Object_1.len() == fields@.len(),
        forall|k: int|
            0 <= k < fields@.len() ==> #[trigger] Json::Object(fields)@->Object_0[k]
                == fields@[k].0@,
        forall|k: int|
            0 <= k < fields@.len() ==> #[trigger] Json::Object(fields)@->Object_1[k]
                == fields@[k].1@,
{
}

impl Json {
    /// A field of an object.
    pub fn get(&self, key: &str) -> (r: Option<&Json>)
        ensures
            ref_view(r) == field(self@, key@),
    {
        match self {
            Json::Object(fields) => {
                proof {
                    lemma_fields(*fields);
                }
                let ghost names = self@->Object_0;
                let ghost values = self@->Object_1;
                let mut i: usize = 0;
                assert(names.skip(0) =~= names);
                assert(values.skip(0) =~= values);
                while i < fields.len()
                    invariant
                        i <= fields@.len(),
                        names.len() == fields@.len(),
                        values.len() == fields@.len(),
                        forall|k: int|
                            0 <= k < fields@.len() ==> #[trigger] names[k] == fields@[k].0@,
                        forall|k: int|
                            0 <= k < fields@.len() ==> #[trigger] values[k] == fields@[k].1@,
                        field(self@, key@) == field_in(
                            names.skip(i as int),
                            values.skip(i as int),
                            key@,
                        ),
                    decreases fields@.len() - i,
                {
                    assert(names.skip(i as int)[0] == names[i as int]);
                    assert(values.skip(i as int)[0] == values[i as int]);
                    if text::same(fields[i].0.as_str(), key) {
                        return Some(&fields[i].1);
                    }
                    assert(names.skip(i as int).skip(1) =~= names.skip(i + 1));
                    assert(values.skip(i as int).skip(1) =~= values.skip(i + 1));
                    i = i + 1;
                }
                None
            },
            _ => None,
        }
    }

    /// The text of a string.
    pub fn as_str(&self) -> (r: Option<&str>)
        ensures
            (match r {
                Some(s) => Some(s@),
                None => None,
            }) == str_of(Some(self@)),
    {
        match self {
            Json::Str(s) => Some(s.as_str()),
            _ => None,
        }
    }

    /// The items of an array.
    pub fn as_array(&self) -> (r: Option<&Vec<Json>>)
        ensures
            (match r {
                Some(v) => Some(json_views(v@)),
                None => None,
            }) == items_of(Some(self@)),
    {
        match self {
            Json::Array(items) => {
                assert(self@->Array_0 =~= json_views(items@));
                Some(items)
            },
            _ => None,
        }
    }

    /// A field that is a string.
    pub fn text_of(&self, key: &str) -> (r: Option<String>)
        ensures
            text::opt_view(r) == str_of(field(self@, key@)),
    {
        match self.get(key) {
            Some(Json::Str(s)) => Some(s.as_str().to_string()),
            _ => None,
        }
    }

    /// A field that is an array.
    pub fn items_at(&self, key: &str) -> (r: Option<&Vec<Json>>)
        ensures
            (match r {
                Some(v) => Some(json_views(v@)),
                None => None,
            }) == items_of(field(self@, key@)),
    {
        match self.get(key) {
            Some(j) => j.as_array(),
            None => None,
        }
    }
}

/// A copy of a JSON value.
pub fn copy_json(json: &Json) -> (r: Json)
    ensures
        r@ == json@,
    decreases json,
{
    match json {
        Json::Null => Json::Null,
        Json::Bool(b) => Json::Bool(*b),
        Json::Number(s) => Json::Number(s.as_str().to_string()),
        Json::Str(s) => Json::Str(s.as_str().to_string()),
        Json::Array(items) => {
            let mut r: Vec<Json> = Vec::new();
            let mut i: usize = 0;
            while i < items.len()
                invariant
                    i <= items@.len(),
                    *json == Json::Array(*items),
                    r@.len() == i,
                    forall|k: int| 0 <= k < i ==> (#[trigger] r@[k])@ == items@[k]@,
                decreases items@.len() - i,
            {
                assert(decreases_to!(*json => json->Array_0));
                assert(decreases_to!(json->Array_0 => json->Array_0@));
                assert(decreases_to!(json->Array_0@ => json->Array_0@[i as int]));
                let item = copy_json(&items[i]);
                r.push(item);
                i = i + 1;
            }
            let out = Json::Array(r);
            assert(out@->Array_0 =~= json@->Array_0);
            out
        },
        Json::Object(fields) => {
            let mut r: Vec<(String, Json)> = Vec::new();
            let mut i: usize = 0;
            while i < fields.len()
                invariant
                    i <= fields@.len(),
                    *json == Json::Object(*fields),
                    r@.len() == i,
                    forall|k: int|
                        0 <= k < i ==> (#[trigger] r@[k]).0@ == fields@[k].0@ && r@[k].1@
                            == fields@[k].1@,
                decreases fields@.len() - i,
            {
                let name = fields[i].0.as_str().to_string();
                assert(decreases_to!(*json => json->Object_0));
                assert(decreases_to!(json->Object_0 => json->Object_0@));
                assert(decreases_to!(json->Object_0@ => json->Object_0@[i as int]));
                assert(decreases_to!(json->Object_0@[i as int] => json->Object_0@[i as int].1));
                let value = copy_json(&fields[i].1);
                r.push((name, value));
                i = i + 1;
            }
            let out = Json::Object(r);
            proof {
                lemma_fields(r);
                lemma_fields(*fields);
            }
            assert(out@->Object_0 =~= json@->Object_0);
            assert(out@->Object_1 =~= json@->Object_1);
            out
        },
    }
}

/// The fields of an object being put together.
pub ghost struct FieldsView {
    pub names: Seq<Seq<char>>,
    pub values: Seq<JsonView>,
}

impl FieldsView {
    /// No fields.
    pub open spec fn none() -> FieldsView {
        FieldsView { names: Seq::empty(), values: Seq::empty() }
    }

    /// With one more field.
    pub open spec fn with(self, name: Seq<char>, value: JsonView) -> FieldsView {
        FieldsView { names: self.names.push(name), values: self.values.push(value) }
    }

    /// With one more field where there is a value for it.
    pub open spec fn maybe(self, name: Seq<char>, value: Option<JsonView>) -> FieldsView {
        match value {
            Some(v) => self.with(name, v),
            None => self,
        }
    }

    /// The object of these fields.
    pub open spec fn object(self) -> JsonView {
        JsonView::Object(self.names, self.values)
    }
}

/// An integer as a JSON value.
pub open spec fn int_value(n: int) -> JsonView {
    JsonView::Number(text::signed_decimal(n))
}

/// An optional text as an optional JSON value.
pub open spec fn str_value(s: Option<Seq<char>>) -> Option<JsonView> {
    match s {
        Some(t) => Some(JsonView::Str(t)),
        None => None,
    }
}

/// An optional switch as an optional JSON value.
pub open spec fn bool_value(b: Option<bool>) -> Option<JsonView> {
    match b {
        Some(x) => Some(JsonView::Bool(x)),
        None => None,
    }
}

/// An object being put together.
pub struct Fields {
    list: Vec<(String, Json)>,
}

impl View for Fields {
    type V = FieldsView;

    closed spec fn view(&self) -> FieldsView {
        FieldsView {
            names: self.list@.map_values(|f: (String, Json)| f.0@),
            values: self.list@.map_values(|f: (String, Json)| f.1@),
        }
    }
}

impl Fields {
    /// No fields.
    pub fn new() -> (r: Fields)
        ensures
            r@ == FieldsView::none(),
    {
        let r = Fields { list: Vec::new() };
        assert(r@.names =~= Seq::<Seq<char>>::empty());
        assert(r@.values =~= Seq::<JsonView>::empty());
        r
    }

    /// Adds a field.
    pub fn put(&mut self, name: &str, value: Json)
        ensures
            final(self)@ == old(self)@.with(name@, value@),
    {
        let ghost before = self@;
        let ghost vv = value@;
        self.list.push((name.to_string(), value));
        assert(self@.names =~= before.names.push(name@));
        assert(self@.values =~= before.values.push(vv));
    }

    /// Adds a field that is an integer.
    pub fn put_int(&mut self, name: &str, value: i64)
        ensures
            final(self)@ == old(self)@.with(name@, int_value(value as int)),
    {
        self.put(name, Json::Number(text::signed_decimal_of(value)));
    }

    /// Adds a field that is a text.
    pub fn put_str(&mut self, name: &str, value: &str)
        ensures
            final(self)@ == old(self)@.with(name@, JsonView::Str(value@)),
    {
        self.put(name, Json::Str(value.to_string()));
    }

    /// Adds a field that is a text, where there is one.
    pub fn put_opt_str(&mut self, name: &str, value: &Option<String>)
        ensures
            final(self)@ == old(self)@.maybe(name@, str_value(text::opt_view(*value))),
    {
        match value {
            Some(s) => self.put_str(name, s.as_str()),
            None => {},
        }
    }

    /// Adds a field that is an integer, where there is one.
    pub fn put_opt_int(&mut self, name: &str, value: Option<i32>)
        ensures
            final(self)@ == old(self)@.maybe(
                name@,
                match value {
                    Some(n) => Some(int_value(n as int)),
                    None => None,
                },
            ),
    {
        match value {
            Some(n) => self.put_int(name, n as i64),
            None => {},
        }
    }

    /// Adds a field that is a switch, where there is one.
    pub fn put_opt_bool(&mut self, name: &str, value: Option<bool>)
        ensures
            final(self)@ == old(self)@.maybe(name@, bool_value(value)),
    {
        match value {
            Some(b) => self.put(name, Json::Bool(b)),
            None => {},
        }
    }

    /// The object of these fields.
    pub fn object(self) -> (r: Json)
        ensures
            r@ == self@.object(),
    {
        let ghost v = self@;
        let r = Json::Object(self.list);
        proof {
            lemma_fields(self.list);
            assert(r@->Object_0 =~= v.names);
            assert(r@->Object_1 =~= v.values);
        }
        r
    }
}

/// The integer that a number is, where it is one of 64 bits.
pub open spec fn int_of(v: Option<JsonView>) -> Option<i64> {
    match v {
        Some(JsonView::Number(t)) => if t.len() > 0 && t[0] == '-' {
            match text::bounded_number(t.skip(1), 0x8000_0000_0000_0000) {
                Some(n) => Some((-(n as int)) as i64),
                None => None,
            }
        } else {
            match text::bounded_number(t, 0x7fff_ffff_ffff_ffff) {
                Some(n) => Some(n as i64),
                None => None,
            }
        },
        _ => None,
    }
}

impl Json {
    /// A field that is an integer.
    pub fn int_at(&self, key: &str) -> (r: Option<i64>)
        ensures
            r == int_of(field(self@, key@)),
    {
        match self.get(key) {
            Some(Json::Number(t)) => text::parse_signed(t.as_str()),
            _ => None,
        }
    }
}

}
