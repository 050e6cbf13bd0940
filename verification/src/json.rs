//! A JSON-like value type and its mathematical model.
//!
//! Events, handler configurations and responses all carry values of this
//! type. Arrays and objects are held as vectors, an object being an ordered
//! list of key/value pairs looked up by first match; numbers are held in
//! their canonical decimal rendering.

use vstd::prelude::*;
use vstd::string::*;
use crate::strings::str_eq;

verus! {

/// Model of a JSON value: strings as character sequences, arrays and
/// objects as sequences.
pub enum JsonModel {
    Null,
    Bool(bool),
    Num(Seq<char>),
    Str(Seq<char>),
    Arr(Seq<JsonModel>),
    Obj(Seq<(Seq<char>, JsonModel)>),
}

/// A JSON value. The number variant holds the canonical decimal rendering
/// of the number it stands for.
#[derive(Debug, PartialEq)]
pub enum JsonValue {
    Null,
    Bool(bool),
    Num(String),
    Str(String),
    Arr(Vec<JsonValue>),
    Obj(Vec<(String, JsonValue)>),
}

impl JsonValue {
    /// The model of this value.
    pub open spec fn deep_view(&self) -> JsonModel
        decreases self,
    {
        match self {
            JsonValue::Null => JsonModel::Null,
            JsonValue::Bool(b) => JsonModel::Bool(*b),
            JsonValue::Num(s) => JsonModel::Num(s@),
            JsonValue::Str(s) => JsonModel::Str(s@),
            JsonValue::Arr(items) => JsonModel::Arr(arr_model(items@)),
            JsonValue::Obj(fields) => JsonModel::Obj(obj_model(fields@)),
        }
    }
}

/// The models of the elements of an array.
pub open spec fn arr_model(items: Seq<JsonValue>) -> Seq<JsonModel>
    decreases items,
{
    if items.len() == 0 {
        Seq::empty()
    } else {
        arr_model(items.drop_last()).push(items.last().deep_view())
    }
}

/// The models of the fields of an object.
pub open spec fn obj_model(fields: Seq<(String, JsonValue)>) -> Seq<(Seq<char>, JsonModel)>
    decreases fields,
{
    if fields.len() == 0 {
        Seq::empty()
    } else {
        obj_model(fields.drop_last()).push(
            (fields.last().0@, fields.last().1.deep_view()),
        )
    }
}

pub proof fn lemma_arr_model(items: Seq<JsonValue>)
    ensures
        arr_model(items).len() == items.len(),
        forall|i: int| 0 <= i < items.len() ==> arr_model(items)[i] == items[i].deep_view(),
    decreases items,
{
    if items.len() > 0 {
        lemma_arr_model(items.drop_last());
    }
}

pub proof fn lemma_obj_model(fields: Seq<(String, JsonValue)>)
    ensures
        obj_model(fields).len() == fields.len(),
        forall|i: int| 0 <= i < fields.len() ==> obj_model(fields)[i] == (
            fields[i].0@,
            fields[i].1.deep_view(),
        ),
    decreases fields,
{
    if fields.len() > 0 {
        lemma_obj_model(fields.drop_last());
    }
}

/// The value of the first field named `key`, if any.
pub open spec fn spec_obj_get(fields: Seq<(Seq<char>, JsonModel)>, key: Seq<char>) -> Option<
    JsonModel,
>
    decreases fields.len(),
{
    if fields.len() == 0 {
        None
    } else if fields[0].0 == key {
        Some(fields[0].1)
    } else {
        spec_obj_get(fields.drop_first(), key)
    }
}

/// Look a field up in an object's field list, by first match.
pub fn obj_get<'a>(fields: &'a Vec<(String, JsonValue)>, key: &str) -> (r: Option<&'a JsonValue>)
    ensures
        match r {
            Some(v) => spec_obj_get(obj_model(fields@), key@) == Some(v.deep_view()),
            None => spec_obj_get(obj_model(fields@), key@) is None,
        },
{
    proof {
        lemma_obj_model(fields@);
    }
    let ghost whole = obj_model(fields@);
    proof {
        assert(whole.skip(0) =~= whole);
    }
    let mut i: usize = 0;
    while i < fields.len()
        invariant
            i <= fields.len(),
            whole == obj_model(fields@),
            whole.len() == fields@.len(),
            forall|j: int| 0 <= j < fields@.len() ==> whole[j] == (
                fields@[j].0@,
                fields@[j].1.deep_view(),
            ),
            spec_obj_get(whole.skip(i as int), key@) == spec_obj_get(whole, key@),
        decreases fields.len() - i,
    {
        if str_eq(fields[i].0.as_str(), key) {
            proof {
                assert(whole.skip(i as int)[0] == whole[i as int]);
            }
            return Some(&fields[i].1);
        }
        proof {
            assert(whole.skip(i as int).drop_first() =~= whole.skip(i + 1));
        }
        i = i + 1;
    }
    proof {
        assert(whole.skip(fields@.len() as int).len() == 0);
    }
    None
}

/// Deep equality of two values, specified by their models.
pub fn json_eq(a: &JsonValue, b: &JsonValue) -> (r: bool)
    ensures
        r == (a.deep_view() == b.deep_view()),
    decreases a,
{
    match (a, b) {
        (JsonValue::Null, JsonValue::Null) => true,
        (JsonValue::Bool(x), JsonValue::Bool(y)) => x == y,
        (JsonValue::Num(x), JsonValue::Num(y)) => str_eq(x.as_str(), y.as_str()),
        (JsonValue::Str(x), JsonValue::Str(y)) => str_eq(x.as_str(), y.as_str()),
        (JsonValue::Arr(x), JsonValue::Arr(y)) => {
            proof {
                lemma_arr_model(x@);
                lemma_arr_model(y@);
            }
            if x.len() != y.len() {
                return false;
            }
            let mut i: usize = 0;
            while i < x.len()
                invariant
                    a is Arr,
                    x == a->Arr_0,
                    b is Arr,
                    y == b->Arr_0,
                    x@.len() == y@.len(),
                    i <= x@.len(),
                    arr_model(x@).len() == x@.len(),
                    arr_model(y@).len() == y@.len(),
                    forall|j: int| 0 <= j < x@.len() ==> arr_model(x@)[j] == x@[j].deep_view(),
                    forall|j: int| 0 <= j < y@.len() ==> arr_model(y@)[j] == y@[j].deep_view(),
                    forall|j: int| 0 <= j < i ==> x@[j].deep_view() == y@[j].deep_view(),
                decreases x@.len() - i,
            {
                if !json_eq(&x[i], &y[i]) {
                    proof {
                        assert(x@[i as int].deep_view() != y@[i as int].deep_view());
                        assert(arr_model(x@)[i as int] != arr_model(y@)[i as int]);
                        assert(arr_model(x@) != arr_model(y@));
                        assert(a.deep_view() == JsonModel::Arr(arr_model(x@)));
                        assert(b.deep_view() == JsonModel::Arr(arr_model(y@)));
                    }
                    return false;
                }
                i = i + 1;
            }
            proof {
                assert(arr_model(x@) =~= arr_model(y@));
            }
            true
        },
        (JsonValue::Obj(x), JsonValue::Obj(y)) => {
            proof {
                lemma_obj_model(x@);
                lemma_obj_model(y@);
            }
            if x.len() != y.len() {
                return false;
            }
            let mut i: usize = 0;
            while i < x.len()
                invariant
                    a is Obj,
                    x == a->Obj_0,
                    b is Obj,
                    y == b->Obj_0,
                    x@.len() == y@.len(),
                    i <= x@.len(),
                    obj_model(x@).len() == x@.len(),
                    obj_model(y@).len() == y@.len(),
                    forall|j: int| 0 <= j < x@.len() ==> obj_model(x@)[j] == (
                        x@[j].0@,
                        x@[j].1.deep_view(),
                    ),
                    forall|j: int| 0 <= j < y@.len() ==> obj_model(y@)[j] == (
                        y@[j].0@,
                        y@[j].1.deep_view(),
                    ),
                    forall|j: int| 0 <= j < i ==> x@[j].0@ == y@[j].0@ && x@[j].1.deep_view()
                        == y@[j].1.deep_view(),
                decreases x@.len() - i,
            {
                if !str_eq(x[i].0.as_str(), y[i].0.as_str()) {
                    proof {
                        assert(obj_model(x@)[i as int] != obj_model(y@)[i as int]);
                        assert(obj_model(x@) != obj_model(y@));
                        assert(a.deep_view() == JsonModel::Obj(obj_model(x@)));
                        assert(b.deep_view() == JsonModel::Obj(obj_model(y@)));
                    }
                    return false;
                }
                if !json_eq(&x[i].1, &y[i].1) {
                    proof {
                        assert(obj_model(x@)[i as int] != obj_model(y@)[i as int]);
                        assert(obj_model(x@) != obj_model(y@));
                        assert(a.deep_view() == JsonModel::Obj(obj_model(x@)));
                        assert(b.deep_view() == JsonModel::Obj(obj_model(y@)));
                    }
                    return false;
                }
                i = i + 1;
            }
            proof {
                assert(obj_model(x@) =~= obj_model(y@));
            }
            true
        },
        _ => {
            proof {
                assert(a.deep_view() != b.deep_view());
            }
            false
        },
    }
}

/// A deep copy, with the same model.
pub fn clone_value(v: &JsonValue) -> (r: JsonValue)
    ensures
        r.deep_view() == v.deep_view(),
    decreases v,
{
    match v {
        JsonValue::Null => JsonValue::Null,
        JsonValue::Bool(b) => JsonValue::Bool(*b),
        JsonValue::Num(s) => JsonValue::Num(s.clone()),
        JsonValue::Str(s) => JsonValue::Str(s.clone()),
        JsonValue::Arr(items) => {
            proof {
                lemma_arr_model(items@);
            }
            let mut out: Vec<JsonValue> = Vec::new();
            let mut i: usize = 0;
            while i < items.len()
                invariant
                    v is Arr,
                    items == v->Arr_0,
                    i <= items@.len(),
                    out@.len() == i,
                    arr_model(items@).len() == items@.len(),
                    forall|j: int| 0 <= j < items@.len() ==> arr_model(items@)[j]
                        == items@[j].deep_view(),
                    forall|j: int| 0 <= j < i ==> out@[j].deep_view() == items@[j].deep_view(),
                decreases items@.len() - i,
            {
                let c = clone_value(&items[i]);
                out.push(c);
                i = i + 1;
            }
            proof {
                lemma_arr_model(out@);
                assert(arr_model(out@) =~= arr_model(items@));
            }
            JsonValue::Arr(out)
        },
        JsonValue::Obj(fields) => {
            proof {
                lemma_obj_model(fields@);
            }
            let mut out: Vec<(String, JsonValue)> = Vec::new();
            let mut i: usize = 0;
            while i < fields.len()
                invariant
                    v is Obj,
                    fields == v->Obj_0,
                    i <= fields@.len(),
                    out@.len() == i,
                    obj_model(fields@).len() == fields@.len(),
                    forall|j: int| 0 <= j < fields@.len() ==> obj_model(fields@)[j] == (
                        fields@[j].0@,
                        fields@[j].1.deep_view(),
                    ),
                    forall|j: int| 0 <= j < i ==> out@[j].0@ == fields@[j].0@
                        && out@[j].1.deep_view() == fields@[j].1.deep_view(),
                decreases fields@.len() - i,
            {
                let k = fields[i].0.clone();
                let c = clone_value(&fields[i].1);
                out.push((k, c));
                i = i + 1;
            }
            proof {
                lemma_obj_model(out@);
                assert(obj_model(out@) =~= obj_model(fields@));
            }
            JsonValue::Obj(out)
        },
    }
}

/// A deep copy of an object's field list, with the same model.
pub fn clone_fields(fields: &Vec<(String, JsonValue)>) -> (r: Vec<(String, JsonValue)>)
    ensures
        obj_model(r@) == obj_model(fields@),
{
    proof {
        lemma_obj_model(fields@);
    }
    let mut out: Vec<(String, JsonValue)> = Vec::new();
    let mut i: usize = 0;
    while i < fields.len()
        invariant
            i <= fields@.len(),
            out@.len() == i,
            obj_model(fields@).len() == fields@.len(),
            forall|j: int| 0 <= j < fields@.len() ==> obj_model(fields@)[j] == (
                fields@[j].0@,
                fields@[j].1.deep_view(),
            ),
            forall|j: int| 0 <= j < i ==> out@[j].0@ == fields@[j].0@ && out@[j].1.deep_view()
                == fields@[j].1.deep_view(),
        decreases fields@.len() - i,
    {
        let k = fields[i].0.clone();
        let c = clone_value(&fields[i].1);
        out.push((k, c));
        i = i + 1;
    }
    proof {
        lemma_obj_model(out@);
        assert(obj_model(out@) =~= obj_model(fields@));
    }
    out
}

/// Decimal parse used by `num_as_u64`: consume digits left to right,
/// failing on a non-digit or when the value leaves `u64`.
pub open spec fn spec_parse_u64(s: Seq<char>, i: int, acc: int) -> Option<int>
    decreases s.len() - i,
{
    if i < 0 || i > s.len() {
        None
    } else if i == s.len() {
        Some(acc)
    } else if '0' <= s[i] && s[i] <= '9' {
        let v = acc * 10 + (s[i] as int - '0' as int);
        if v > u64::MAX as int {
            None
        } else {
            spec_parse_u64(s, i + 1, v)
        }
    } else {
        None
    }
}

/// The `u64` a number rendering stands for, if it is one: all decimal
/// digits, nonempty, within range.
pub open spec fn spec_num_u64(s: Seq<char>) -> Option<int> {
    if s.len() == 0 {
        None
    } else {
        spec_parse_u64(s, 0, 0)
    }
}

/// Parse a canonical number rendering as a `u64`.
pub fn num_as_u64(s: &str) -> (r: Option<u64>)
    ensures
        match r {
            Some(v) => spec_num_u64(s@) == Some(v as int),
            None => spec_num_u64(s@) is None,
        },
{
    let n = s.unicode_len();
    if n == 0 {
        return None;
    }
    let mut acc: u64 = 0;
    let mut i: usize = 0;
    while i < n
        invariant
            n == s@.len(),
            i <= n,
            spec_parse_u64(s@, 0, 0) == spec_parse_u64(s@, i as int, acc as int),
        decreases n - i,
    {
        let c = s.get_char(i);
        let d = c as u32;
        if d < 48 || d > 57 {
            return None;
        }
        let dv = (d - 48) as u64;
        let next = match acc.checked_mul(10) {
            Some(m) => m.checked_add(dv),
            None => None,
        };
        match next {
            Some(v) => {
                acc = v;
            },
            None => {
                return None;
            },
        }
        i = i + 1;
    }
    Some(acc)
}

#[verifier::external_type_specification]
#[verifier::external_body]
pub struct ExValue(serde_json::Value);

/// The compact JSON text of a value: keys sorted, duplicates dropped in
/// favour of the last, numbers re-rendered canonically. It depends on the
/// value alone.
pub uninterp spec fn json_text(v: JsonModel) -> Seq<char>;

/// Relies on serde_json::Value as a carrier: builds the serde_json value
/// that stands for `v`. Consumed only by `json_display` below.
#[verifier::external_body]
fn to_serde_value(v: &JsonValue) -> serde_json::Value {
    match v {
        JsonValue::Null => serde_json::Value::Null,
        JsonValue::Bool(b) => serde_json::Value::Bool(*b),
        JsonValue::Num(s) => s.parse().map(serde_json::Value::Number).unwrap_or_else(
            |_| serde_json::Value::String(s.clone()),
        ),
        JsonValue::Str(s) => serde_json::Value::String(s.clone()),
        JsonValue::Arr(a) => serde_json::Value::Array(a.iter().map(to_serde_value).collect()),
        JsonValue::Obj(f) => serde_json::Value::Object(
            f.iter().map(|p| (p.0.clone(), to_serde_value(&p.1))).collect(),
        ),
    }
}

/// Relies on serde_json::Value's Display impl: the compact JSON text of the
/// value, a function of the value alone (objects print sorted by key, since
/// serde_json's map is ordered).
#[verifier::external_body]
pub(crate) fn json_display(v: &JsonValue) -> (r: String)
    ensures
        r@ == json_text(v.deep_view()),
{
    to_serde_value(v).to_string()
}

} // verus!
