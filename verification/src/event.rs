//! The event model: one externally supplied record, a mapping from field
//! name to value, with plain and dotted-path lookup.

use vstd::prelude::*;
use vstd::string::*;
use crate::json::{JsonModel, JsonValue, clone_fields, obj_get, obj_model, spec_obj_get};
use crate::strings::{lemma_split_nonempty, spec_split, split_char};

verus! {

/// One event. Immutable once built; its model is the sequence of its
/// fields, looked up by first match.
#[derive(Debug)]
pub struct Event {
    pub data: Vec<(String, JsonValue)>,
}

/// Walk a value along a path of field names, each step a field of an
/// object; any other step fails.
pub open spec fn spec_walk(v: JsonModel, parts: Seq<Seq<char>>) -> Option<JsonModel>
    decreases parts.len(),
{
    if parts.len() == 0 {
        Some(v)
    } else {
        match v {
            JsonModel::Obj(fields) => match spec_obj_get(fields, parts[0]) {
                Some(next) => spec_walk(next, parts.drop_first()),
                None => None,
            },
            _ => None,
        }
    }
}

/// The string at a top-level field, if the field holds a string.
pub open spec fn spec_event_get_str(e: Seq<(Seq<char>, JsonModel)>, key: Seq<char>) -> Option<
    Seq<char>,
> {
    match spec_obj_get(e, key) {
        Some(JsonModel::Str(s)) => Some(s),
        _ => None,
    }
}

/// The value reached by splitting `path` on `.` and walking the event's
/// fields.
pub open spec fn spec_event_nested(
    e: Seq<(Seq<char>, JsonModel)>,
    path: Seq<char>,
) -> Option<JsonModel> {
    spec_walk(JsonModel::Obj(e), spec_split(path, '.'))
}

/// The string reached by splitting `path` on `.` and walking the event's
/// fields, if the walk ends on a string.
pub open spec fn spec_event_nested_str(
    e: Seq<(Seq<char>, JsonModel)>,
    path: Seq<char>,
) -> Option<Seq<char>> {
    match spec_event_nested(e, path) {
        Some(JsonModel::Str(s)) => Some(s),
        _ => None,
    }
}

impl Event {
    /// The model of the event: its fields in order.
    pub open spec fn deep_view(&self) -> Seq<(Seq<char>, JsonModel)> {
        obj_model(self.data@)
    }

    /// The value of a top-level field.
    pub fn get(&self, key: &str) -> (r: Option<&JsonValue>)
        ensures
            match r {
                Some(v) => spec_obj_get(self.deep_view(), key@) == Some(v.deep_view()),
                None => spec_obj_get(self.deep_view(), key@) is None,
            },
    {
        obj_get(&self.data, key)
    }

    /// A top-level field as a string slice; `None` when the field is
    /// missing or holds another kind of value.
    pub fn get_str(&self, key: &str) -> (r: Option<&str>)
        ensures
            match r {
                Some(s) => spec_event_get_str(self.deep_view(), key@) == Some(s@),
                None => spec_event_get_str(self.deep_view(), key@) is None,
            },
    {
        match self.get(key) {
            Some(v) => match v {
                JsonValue::Str(s) => Some(s.as_str()),
                _ => None,
            },
            None => None,
        }
    }

    /// The value at a dotted path: the path is split on `.` and each
    /// segment read as a nested object field.
    pub fn get_nested(&self, path: &str) -> (r: Option<&JsonValue>)
        ensures
            match r {
                Some(v) => spec_event_nested(self.deep_view(), path@) == Some(v.deep_view()),
                None => spec_event_nested(self.deep_view(), path@) is None,
            },
    {
        proof {
            lemma_split_nonempty(path@, '.');
        }
        let parts = split_char(path, '.');
        let ghost pm = parts@.map_values(|t: String| t@);
        let first = match obj_get(&self.data, parts[0].as_str()) {
            Some(v) => v,
            None => {
                return None;
            },
        };
        let mut cur: &JsonValue = first;
        let mut idx: usize = 1;
        proof {
            assert(pm.drop_first() =~= pm.skip(1));
        }
        while idx < parts.len()
            invariant
                1 <= idx <= parts@.len(),
                pm == parts@.map_values(|t: String| t@),
                pm == spec_split(path@, '.'),
                pm.len() == parts@.len(),
                spec_walk(JsonModel::Obj(self.deep_view()), pm) == spec_walk(
                    cur.deep_view(),
                    pm.skip(idx as int),
                ),
            decreases parts@.len() - idx,
        {
            proof {
                assert(pm.skip(idx as int).len() == pm.len() - idx);
                assert(pm.skip(idx as int)[0] == pm[idx as int]);
                assert(pm[idx as int] == parts@[idx as int]@);
            }
            match cur {
                JsonValue::Obj(fields) => {
                    match obj_get(fields, parts[idx].as_str()) {
                        Some(v) => {
                            proof {
                                assert(pm.skip(idx as int).drop_first() =~= pm.skip(idx + 1));
                            }
                            cur = v;
                        },
                        None => {
                            return None;
                        },
                    }
                },
                _ => {
                    return None;
                },
            }
            idx = idx + 1;
        }
        proof {
            assert(pm.skip(parts@.len() as int).len() == 0);
        }
        Some(cur)
    }

    /// A field as a string, with dotted-path nested lookup; `None` when
    /// the walk fails or ends on another kind of value.
    pub fn get_nested_str(&self, path: &str) -> (r: Option<String>)
        ensures
            match r {
                Some(s) => spec_event_nested_str(self.deep_view(), path@) == Some(s@),
                None => spec_event_nested_str(self.deep_view(), path@) is None,
            },
    {
        match self.get_nested(path) {
            Some(v) => match v {
                JsonValue::Str(s) => Some(s.clone()),
                _ => None,
            },
            None => None,
        }
    }

    /// The whole event as one object value.
    pub fn as_value(&self) -> (r: JsonValue)
        ensures
            r.deep_view() == JsonModel::Obj(self.deep_view()),
    {
        JsonValue::Obj(clone_fields(&self.data))
    }
}

} // verus!
