//! A JSON document model: what a response body holds, as plain values.

use vstd::prelude::*;

use serde_json::Value;

use crate::text::same_text;

verus! {

#[verifier::external_type_specification]
#[verifier::external_body]
pub struct ExValue(serde_json::Value);

/// A JSON number as `serde_json` classifies it: an integer that fits `u64`,
/// a negative integer that fits `i64`, or any other number kept as its text.
#[derive(Debug, Clone, PartialEq, Eq)]
pub enum JsonNumber {
    Unsigned(u64),
    Negative(i64),
    Decimal(String),
}

/// A JSON value. An object holds its members in the order that serde_json
/// gives them, which for this build is the order of their keys.
#[derive(Debug, PartialEq, Eq)]
pub enum Json {
    Null,
    Bool(bool),
    Number(JsonNumber),
    Str(String),
    Array(Vec<Json>),
    Object(Vec<(String, Json)>),
}

pub enum NumberView {
    Unsigned(u64),
    Negative(i64),
    Decimal(Seq<char>),
}

/// The mathematical content of a `Json` value.
pub enum JsonView {
    Null,
    Bool(bool),
    Number(NumberView),
    Str(Seq<char>),
    Array(Seq<JsonView>),
    Object(Seq<(Seq<char>, JsonView)>),
}

impl JsonNumber {
    pub open spec fn view(&self) -> NumberView {
        match self {
            JsonNumber::Unsigned(n) => NumberView::Unsigned(*n),
            JsonNumber::Negative(n) => NumberView::Negative(*n),
            JsonNumber::Decimal(t) => NumberView::Decimal(t@),
        }
    }
}

pub open spec fn items_view(items: Seq<Json>) -> Seq<JsonView>
    decreases items,
{
    if items.len() == 0 {
        Seq::empty()
    } else {
        items_view(items.drop_last()).push(items.last().view())
    }
}

pub open spec fn fields_view(fields: Seq<(String, Json)>) -> Seq<(Seq<char>, JsonView)>
    decreases fields,
{
    if fields.len() == 0 {
        Seq::empty()
    } else {
        fields_view(fields.drop_last()).push((fields.last().0@, fields.last().1.view()))
    }
}

impl Json {
    pub open spec fn view(&self) -> JsonView
        decreases self,
    {
        match self {
            Json::Null => JsonView::Null,
            Json::Bool(b) => JsonView::Bool(*b),
            Json::Number(n) => JsonView::Number(n.view()),
            Json::Str(s) => JsonView::Str(s@),
            Json::Array(items) => JsonView::Array(items_view(items@)),
            Json::Object(fields) => JsonView::Object(fields_view(fields@)),
        }
    }
}


pub proof fn lemma_items_view(items: Seq<Json>)
    ensures
        items_view(items).len() == items.len(),
        forall|i: int| 0 <= i < items.len() ==> #[trigger] items_view(items)[i] == items[i].view(),
    decreases items.len(),
{
    if items.len() > 0 {
        lemma_items_view(items.drop_last());
    }
}

pub proof fn lemma_fields_view(fields: Seq<(String, Json)>)
    ensures
        fields_view(fields).len() == fields.len(),
        forall|i: int|
            0 <= i < fields.len() ==> #[trigger] fields_view(fields)[i] == (
                fields[i].0@,
                fields[i].1.view(),
            ),
    decreases fields.len(),
{
    if fields.len() > 0 {
        lemma_fields_view(fields.drop_last());
    }
}

/// The value of the first member named `key`, as `Map::get` gives it.
pub open spec fn field_get(fields: Seq<(Seq<char>, JsonView)>, key: Seq<char>) -> Option<JsonView>
    decreases fields.len(),
{
    if fields.len() == 0 {
        None
    } else if fields[0].0 == key {
        Some(fields[0].1)
    } else {
        field_get(fields.drop_first(), key)
    }
}

/// The members left once the first member named `key` is taken out.
pub open spec fn field_remove(fields: Seq<(Seq<char>, JsonView)>, key: Seq<char>) -> Seq<(Seq<char>, JsonView)>
    decreases fields.len(),
{
    if fields.len() == 0 {
        fields
    } else if fields[0].0 == key {
        fields.drop_first()
    } else {
        field_remove(fields.drop_first(), key).insert(0, fields[0])
    }
}

/// `Value::get` with a string index: a member of an object; nothing otherwise.
pub open spec fn json_get(v: JsonView, key: Seq<char>) -> Option<JsonView> {
    match v {
        JsonView::Object(fields) => field_get(fields, key),
        _ => None,
    }
}

/// `Value::as_str`.
pub open spec fn json_str(v: JsonView) -> Option<Seq<char>> {
    match v {
        JsonView::Str(s) => Some(s),
        _ => None,
    }
}

/// `Value::as_u64`.
pub open spec fn json_u64(v: JsonView) -> Option<u64> {
    match v {
        JsonView::Number(NumberView::Unsigned(n)) => Some(n),
        _ => None,
    }
}

/// `Value::as_object`.
pub open spec fn json_object(v: JsonView) -> Option<Seq<(Seq<char>, JsonView)>> {
    match v {
        JsonView::Object(fields) => Some(fields),
        _ => None,
    }
}

/// `Value::as_array`.
pub open spec fn json_array(v: JsonView) -> Option<Seq<JsonView>> {
    match v {
        JsonView::Array(items) => Some(items),
        _ => None,
    }
}

pub open spec fn opt_view(o: Option<&Json>) -> Option<JsonView> {
    match o {
        Some(j) => Some(j.view()),
        None => None,
    }
}

impl JsonNumber {
    pub fn copy(&self) -> (r: JsonNumber)
        ensures
            r.view() == self.view(),
    {
        match self {
            JsonNumber::Unsigned(n) => JsonNumber::Unsigned(*n),
            JsonNumber::Negative(n) => JsonNumber::Negative(*n),
            JsonNumber::Decimal(t) => JsonNumber::Decimal(t.clone()),
        }
    }
}

impl Clone for Json {
    fn clone(&self) -> (r: Json)
        ensures
            r.view() == self.view(),
    {
        self.deep_copy()
    }
}

impl Json {
    /// A copy of the whole document.
    #[verifier::loop_isolation(false)]
    pub fn deep_copy(&self) -> (r: Json)
        ensures
            r.view() == self.view(),
        decreases self,
    {
        match self {
            Json::Null => Json::Null,
            Json::Bool(b) => Json::Bool(*b),
            Json::Number(n) => Json::Number(n.copy()),
            Json::Str(s) => Json::Str(s.clone()),
            Json::Array(items) => {
                let mut out: Vec<Json> = Vec::new();
                let mut i: usize = 0;
                while i < items.len()
                    invariant
                        i <= items.len(),
                        out@.len() == i,
                        forall|k: int| 0 <= k < i ==> (#[trigger] out@[k]).view() == items@[k].view(),
                    decreases items.len() - i,
                {
                    let c = items[i].deep_copy();
                    out.push(c);
                    i = i + 1;
                }
                proof {
                    lemma_items_view(out@);
                    lemma_items_view(items@);
                    assert(items_view(out@) =~= items_view(items@));
                }
                Json::Array(out)
            },
            Json::Object(fields) => {
                let mut out: Vec<(String, Json)> = Vec::new();
                let mut i: usize = 0;
                while i < fields.len()
                    invariant
                        i <= fields.len(),
                        out@.len() == i,
                        forall|k: int|
                            0 <= k < i ==> (#[trigger] out@[k]).0@ == fields@[k].0@ && out@[k].1.view()
                                == fields@[k].1.view(),
                    decreases fields.len() - i,
                {
                    let c = fields[i].1.deep_copy();
                    out.push((fields[i].0.clone(), c));
                    i = i + 1;
                }
                proof {
                    lemma_fields_view(out@);
                    lemma_fields_view(fields@);
                    assert(fields_view(out@) =~= fields_view(fields@));
                }
                Json::Object(out)
            },
        }
    }

    /// `Value::as_str`.
    pub fn as_str(&self) -> (r: Option<&String>)
        ensures
            match r {
                Some(s) => json_str(self.view()) == Some(s@),
                None => json_str(self.view()) is None,
            },
    {
        match self {
            Json::Str(s) => Some(s),
            _ => None,
        }
    }

    /// `Value::as_u64`.
    pub fn as_u64(&self) -> (r: Option<u64>)
        ensures
            r == json_u64(self.view()),
    {
        match self {
            Json::Number(JsonNumber::Unsigned(n)) => Some(*n),
            _ => None,
        }
    }

    /// `Value::as_object`.
    pub fn as_object(&self) -> (r: Option<&Vec<(String, Json)>>)
        ensures
            match r {
                Some(f) => json_object(self.view()) == Some(fields_view(f@)),
                None => json_object(self.view()) is None,
            },
    {
        match self {
            Json::Object(f) => Some(f),
            _ => None,
        }
    }

    /// `Value::as_array`.
    pub fn as_array(&self) -> (r: Option<&Vec<Json>>)
        ensures
            match r {
                Some(a) => json_array(self.view()) == Some(items_view(a@)),
                None => json_array(self.view()) is None,
            },
    {
        match self {
            Json::Array(a) => Some(a),
            _ => None,
        }
    }

    /// `Value::get` with a member name.
    pub fn get(&self, key: &str) -> (r: Option<&Json>)
        ensures
            opt_view(r) == json_get(self.view(), key@),
    {
        match self {
            Json::Object(f) => field(f, key),
            _ => None,
        }
    }
}

/// Index of the first member named `key`.
fn find_field(fields: &Vec<(String, Json)>, key: &str) -> (r: Option<usize>)
    ensures
        match r {
            Some(i) => i < fields@.len() && fields@[i as int].0@ == key@ && (forall|k: int|
                0 <= k < i ==> (#[trigger] fields@[k]).0@ != key@),
            None => forall|k: int| 0 <= k < fields@.len() ==> (#[trigger] fields@[k]).0@ != key@,
        },
{
    let mut i: usize = 0;
    while i < fields.len()
        invariant
            i <= fields@.len(),
            forall|k: int| 0 <= k < i ==> (#[trigger] fields@[k]).0@ != key@,
        decreases fields.len() - i,
    {
        if same_text(fields[i].0.as_str(), key) {
            return Some(i);
        }
        i = i + 1;
    }
    None
}

/// Walking past members whose names differ from `key` changes neither lookup nor removal.
proof fn lemma_skip_steps(fv: Seq<(Seq<char>, JsonView)>, key: Seq<char>, i: int)
    requires
        0 <= i <= fv.len(),
        forall|k: int| 0 <= k < i ==> (#[trigger] fv[k]).0 != key,
    ensures
        field_get(fv, key) == field_get(fv.skip(i), key),
        field_remove(fv, key) == fv.take(i) + field_remove(fv.skip(i), key),
    decreases i,
{
    if i == 0 {
        assert(fv.skip(0) =~= fv);
        assert(fv.take(0) + field_remove(fv, key) =~= field_remove(fv, key));
    } else {
        lemma_skip_steps(fv, key, i - 1);
        let rest = fv.skip(i - 1);
        assert(rest[0] == fv[i - 1]);
        assert(rest.drop_first() =~= fv.skip(i));
        assert(fv.take(i - 1) + field_remove(rest, key) =~= fv.take(i) + field_remove(fv.skip(i), key));
    }
}

/// `Map::get`: the first member named `key`.
pub fn field<'a>(fields: &'a Vec<(String, Json)>, key: &str) -> (r: Option<&'a Json>)
    ensures
        opt_view(r) == field_get(fields_view(fields@), key@),
{
    proof {
        lemma_fields_view(fields@);
    }
    match find_field(fields, key) {
        Some(i) => {
            proof {
                lemma_skip_steps(fields_view(fields@), key@, i as int);
                let rest = fields_view(fields@).skip(i as int);
                assert(rest[0] == fields_view(fields@)[i as int]);
            }
            Some(&fields[i].1)
        },
        None => {
            proof {
                lemma_skip_steps(fields_view(fields@), key@, fields@.len() as int);
            }
            None
        },
    }
}

/// `Map::remove`: takes out the first member named `key` and returns its value.
pub fn remove_field(fields: &mut Vec<(String, Json)>, key: &str) -> (r: Option<Json>)
    ensures
        match r {
            Some(v) => field_get(fields_view(old(fields)@), key@) == Some(v.view()),
            None => field_get(fields_view(old(fields)@), key@) is None,
        },
        fields_view(final(fields)@) == field_remove(fields_view(old(fields)@), key@),
{
    proof {
        lemma_fields_view(fields@);
    }
    let ghost before = fields_view(fields@);
    match find_field(fields, key) {
        Some(i) => {
            proof {
                lemma_skip_steps(before, key@, i as int);
                let rest = before.skip(i as int);
                assert(rest[0] == before[i as int]);
                assert(rest.drop_first() =~= before.skip(i + 1));
            }
            let (_, v) = fields.remove(i);
            proof {
                lemma_fields_view(fields@);
                assert(fields_view(fields@) =~= before.take(i as int) + before.skip(i + 1));
            }
            Some(v)
        },
        None => {
            proof {
                lemma_skip_steps(before, key@, before.len() as int);
                assert(before.take(before.len() as int) =~= before);
            }
            None
        },
    }
}


impl From<Value> for Json {
    /// The same document as a `Json`: each `serde_json` value becomes the
    /// variant of the same name, numbers by `as_u64`, then `as_i64`, then their text.
    #[verifier::external_body]
    fn from(value: Value) -> Json {
        match value {
            Value::Null => Json::Null,
            Value::Bool(b) => Json::Bool(b),
            Value::Number(n) => Json::Number(match (n.as_u64(), n.as_i64()) {
                (Some(u), _) => JsonNumber::Unsigned(u),
                (None, Some(i)) => JsonNumber::Negative(i),
                (None, None) => JsonNumber::Decimal(n.to_string()),
            }),
            Value::String(s) => Json::Str(s),
            Value::Array(items) => Json::Array(items.into_iter().map(Json::from).collect()),
            Value::Object(fields) => Json::Object(fields.into_iter().map(|(k, v)| (k, Json::from(v))).collect()),
        }
    }
}

/// The JSON value that `serde_json` reads from some bytes, where they hold one.
pub uninterp spec fn json_value_of(bytes: Seq<u8>) -> Option<JsonView>;

pub open spec fn opt_json_view(o: Option<Json>) -> Option<JsonView> {
    match o {
        Some(j) => Some(j.view()),
        None => None,
    }
}

/// `serde_json::from_slice::<serde_json::Value>`: the value that the bytes hold,
/// read as a `Json`; bytes that hold no JSON value give `None`.
#[verifier::external_body]
pub(crate) fn parse_json(bytes: &[u8]) -> (r: Option<Json>)
    ensures
        opt_json_view(r) == json_value_of(bytes@),
{
    serde_json::from_slice::<Value>(bytes).ok().map(Json::from)
}

} // verus!
