//! A JSON document model.
//!
//! Event details, webhook payloads and LLM replies are JSON documents. The
//! executable type is [`JsonValue`]; its mathematical counterpart is
//! [`JsonVal`], with strings as character sequences and containers as `Seq`.
//! Numbers carry the integral values the logic reads; a non-integral number
//! in an incoming document is represented as `Null`, which every consumer
//! here treats the same as an absent field.
//!
//! Parsing text into a document is delegated to `serde_json` behind one
//! trusted boundary at the bottom of this file.

use vstd::prelude::*;
use crate::strutil::str_eq;

verus! {

use vstd::string::StringExecFns;

/// Mathematical JSON document.
#[verifier::ext_equal]
pub enum JsonVal {
    Null,
    Bool(bool),
    Int(i64),
    Str(Seq<char>),
    Arr(Seq<JsonVal>),
    Obj(Seq<(Seq<char>, JsonVal)>),
}

/// Executable JSON document. An object is a field list in insertion order.
#[derive(Debug, PartialEq)]
pub enum JsonValue {
    Null,
    Bool(bool),
    Int(i64),
    Str(String),
    Arr(Vec<JsonValue>),
    Obj(Vec<(String, JsonValue)>),
}

/// The mathematical value of each element of a JSON array.
pub open spec fn view_arr(xs: Seq<JsonValue>) -> Seq<JsonVal> {
    Seq::new(xs.len(), |i: int| view_json(xs[i]))
}

/// The mathematical value of a JSON document.
pub open spec fn view_json(v: JsonValue) -> JsonVal
    decreases v,
{
    match v {
        JsonValue::Null => JsonVal::Null,
        JsonValue::Bool(b) => JsonVal::Bool(b),
        JsonValue::Int(i) => JsonVal::Int(i),
        JsonValue::Str(s) => JsonVal::Str(s@),
        JsonValue::Arr(xs) => JsonVal::Arr(
            Seq::new(xs@.len(), |i: int| if 0 <= i < xs@.len() { view_json(xs@[i]) } else { JsonVal::Null }),
        ),
        JsonValue::Obj(fs) => JsonVal::Obj(
            Seq::new(
                fs@.len(),
                |i: int| if 0 <= i < fs@.len() { (fs@[i].0@, view_json(fs@[i].1)) } else { (Seq::empty(), JsonVal::Null) },
            ),
        ),
    }
}

impl View for JsonValue {
    type V = JsonVal;

    open spec fn view(&self) -> JsonVal {
        view_json(*self)
    }
}

/// First field with the given key, if any.
pub open spec fn spec_obj_get(fields: Seq<(Seq<char>, JsonVal)>, key: Seq<char>) -> Option<JsonVal>
    decreases fields.len(),
{
    if fields.len() == 0 {
        None
    } else if fields[0].0 == key {
        Some(fields[0].1)
    } else {
        spec_obj_get(fields.drop_first(), key)
    }
}

/// Field lookup on a document; `None` on anything but an object.
pub open spec fn spec_get(v: JsonVal, key: Seq<char>) -> Option<JsonVal> {
    match v {
        JsonVal::Obj(fields) => spec_obj_get(fields, key),
        _ => None,
    }
}

/// The string under a key, if the key holds a string.
pub open spec fn spec_get_str(v: JsonVal, key: Seq<char>) -> Option<Seq<char>> {
    match spec_get(v, key) {
        Some(JsonVal::Str(s)) => Some(s),
        _ => None,
    }
}

/// The integer under a key, if the key holds an integer.
pub open spec fn spec_get_i64(v: JsonVal, key: Seq<char>) -> Option<i64> {
    match spec_get(v, key) {
        Some(JsonVal::Int(i)) => Some(i),
        _ => None,
    }
}

/// The array under a key, if the key holds an array.
pub open spec fn spec_get_arr(v: JsonVal, key: Seq<char>) -> Option<Seq<JsonVal>> {
    match spec_get(v, key) {
        Some(JsonVal::Arr(xs)) => Some(xs),
        _ => None,
    }
}

/// The string items of an array, non-strings skipped, order kept.
pub open spec fn spec_str_items(xs: Seq<JsonVal>) -> Seq<Seq<char>>
    decreases xs.len(),
{
    if xs.len() == 0 {
        Seq::empty()
    } else {
        let rest = spec_str_items(xs.drop_last());
        match xs.last() {
            JsonVal::Str(s) => rest.push(s),
            _ => rest,
        }
    }
}

impl JsonValue {
    /// Field lookup: the value of the first field named `key`.
    pub fn get<'a>(&'a self, key: &str) -> (r: Option<&'a JsonValue>)
        ensures
            match r {
                Some(x) => spec_get(self@, key@) == Some(x@),
                None => spec_get(self@, key@) is None,
            },
    {
        match self {
            JsonValue::Obj(fields) => {
                let ghost all: Seq<(Seq<char>, JsonVal)> = self@->Obj_0;
                proof {
                    assert(all.skip(0) =~= all);
                }
                let mut i: usize = 0;
                while i < fields.len()
                    invariant
                        self@ is Obj,
                        all == self@->Obj_0,
                        all.len() == fields@.len(),
                        forall|j: int| 0 <= j < fields@.len()
                            ==> all[j] == (fields@[j].0@, view_json(fields@[j].1)),
                        i <= fields@.len(),
                        spec_obj_get(all, key@) == spec_obj_get(all.skip(i as int), key@),
                    decreases fields@.len() - i,
                {
                    if str_eq(fields[i].0.as_str(), key) {
                        proof {
                            assert(all.skip(i as int)[0] == all[i as int]);
                            assert(spec_obj_get(all.skip(i as int), key@) == Some(all[i as int].1));
                        }
                        return Some(&fields[i].1);
                    }
                    proof {
                        assert(all.skip(i as int)[0] == all[i as int]);
                        assert(all.skip(i as int).drop_first() =~= all.skip(i + 1 as int));
                    }
                    i += 1;
                }
                proof {
                    assert(all.skip(i as int).len() == 0);
                }
                None
            },
            _ => None,
        }
    }

    /// The string under `key`, if it holds one.
    pub fn get_str<'a>(&'a self, key: &str) -> (r: Option<&'a String>)
        ensures
            match r {
                Some(s) => spec_get_str(self@, key@) == Some(s@),
                None => spec_get_str(self@, key@) is None,
            },
    {
        match self.get(key) {
            Some(JsonValue::Str(s)) => Some(s),
            _ => None,
        }
    }

    /// The integer under `key`, if it holds one.
    pub fn get_i64(&self, key: &str) -> (r: Option<i64>)
        ensures
            match r {
                Some(i) => spec_get_i64(self@, key@) == Some(i),
                None => spec_get_i64(self@, key@) is None,
            },
    {
        match self.get(key) {
            Some(JsonValue::Int(i)) => Some(*i),
            _ => None,
        }
    }

    /// The array under `key`, if it holds one.
    pub fn get_arr<'a>(&'a self, key: &str) -> (r: Option<&'a Vec<JsonValue>>)
        ensures
            match r {
                Some(xs) => spec_get_arr(self@, key@) == Some(view_arr(xs@)),
                None => spec_get_arr(self@, key@) is None,
            },
    {
        match self.get(key) {
            Some(JsonValue::Arr(xs)) => Some(xs),
            _ => None,
        }
    }
}

/// The string items of an array of documents, non-strings skipped.
pub fn str_items(xs: &Vec<JsonValue>) -> (r: Vec<String>)
    ensures
        r@.map_values(|s: String| s@) == spec_str_items(view_arr(xs@)),
{
    let mut r: Vec<String> = Vec::new();
    let mut i: usize = 0;
    while i < xs.len()
        invariant
            i <= xs@.len(),
            r@.map_values(|s: String| s@) == spec_str_items(view_arr(xs@).take(i as int)),
        decreases xs@.len() - i,
    {
        let ghost prefix = view_arr(xs@).take(i as int);
        let ghost next = view_arr(xs@).take(i + 1 as int);
        proof {
            assert(next.drop_last() =~= prefix);
            assert(next.last() == view_json(xs@[i as int]));
        }
        match &xs[i] {
            JsonValue::Str(s) => {
                let prev_ghost = Ghost(r@);
                r.push(s.clone());
                proof {
                    assert(r@.map_values(|s: String| s@) =~= prev_ghost@.map_values(|s: String| s@).push(s@));
                }
            },
            _ => {},
        }
        i += 1;
    }
    proof {
        assert(view_arr(xs@).take(xs@.len() as int) =~= view_arr(xs@));
    }
    r
}

impl Clone for JsonValue {
    /// Deep copy with the same mathematical value.
    fn clone(&self) -> (res: Self)
        ensures
            res@ == self@,
        decreases *self,
    {
        broadcast use vstd::std_specs::vec::group_vec_axioms;

        match self {
            JsonValue::Null => JsonValue::Null,
            JsonValue::Bool(b) => JsonValue::Bool(*b),
            JsonValue::Int(i) => JsonValue::Int(*i),
            JsonValue::Str(s) => JsonValue::Str(s.clone()),
            JsonValue::Arr(xs) => {
                let mut out: Vec<JsonValue> = Vec::new();
                let mut i: usize = 0;
                while i < xs.len()
                    invariant
                        i <= xs@.len(),
                        out@.len() == i,
                        forall|j: int| 0 <= j < i ==> view_json(#[trigger] out@[j]) == view_json(xs@[j]),
                        *self == JsonValue::Arr(*xs),
                    decreases xs@.len() - i,
                {
                    proof {
                        assert(decreases_to!(*self => self->Arr_0));
                        assert(decreases_to!(*xs => xs@[i as int]));
                        assert(decreases_to!(*self => xs@[i as int]));
                    }
                    out.push(xs[i].clone());
                    i += 1;
                }
                proof {
                    assert(view_json(JsonValue::Arr(out))->Arr_0 =~= self@->Arr_0);
                }
                JsonValue::Arr(out)
            },
            JsonValue::Obj(fs) => {
                let mut out: Vec<(String, JsonValue)> = Vec::new();
                let mut i: usize = 0;
                while i < fs.len()
                    invariant
                        i <= fs@.len(),
                        out@.len() == i,
                        forall|j: int| 0 <= j < i
                            ==> (#[trigger] out@[j]).0@ == fs@[j].0@
                                && view_json(out@[j].1) == view_json(fs@[j].1),
                        *self == JsonValue::Obj(*fs),
                    decreases fs@.len() - i,
                {
                    proof {
                        assert(decreases_to!(*self => self->Obj_0));
                        assert(decreases_to!(*fs => fs@[i as int]));
                        assert(decreases_to!(fs@[i as int] => fs@[i as int].1));
                        assert(decreases_to!(*self => fs@[i as int].1));
                    }
                    let entry = &fs[i];
                    out.push((entry.0.clone(), entry.1.clone()));
                    i += 1;
                }
                proof {
                    assert(view_json(JsonValue::Obj(out))->Obj_0 =~= self@->Obj_0);
                }
                JsonValue::Obj(out)
            },
        }
    }
}

/// A string document from a string slice.
pub fn jstr(s: &str) -> (r: JsonValue)
    ensures
        r@ == JsonVal::Str(s@),
{
    JsonValue::Str(s.to_owned())
}

/// What `serde_json` parses a piece of text to, carried over to [`JsonVal`]:
/// a function of the text alone.
pub uninterp spec fn spec_parse_json(s: Seq<char>) -> Option<JsonVal>;

#[verifier::external_type_specification]
#[verifier::external_body]
pub struct ExSerdeValue(serde_json::Value);

/// Carries a parsed `serde_json::Value` tree over to the library's document
/// type; parsed objects arrive with their fields ordered by key, as
/// `serde_json`'s default map stores them. Integral numbers keep their
/// value, any other number becomes `Null`. Unverified: the body walks an
/// outside type.
#[verifier::external_body]
fn convert_outside_json(v: &serde_json::Value) -> JsonValue {
    match v {
        serde_json::Value::Null => JsonValue::Null,
        serde_json::Value::Bool(b) => JsonValue::Bool(*b),
        serde_json::Value::Number(n) => match n.as_i64() {
            Some(i) => JsonValue::Int(i),
            None => JsonValue::Null,
        },
        serde_json::Value::String(s) => JsonValue::Str(s.clone()),
        serde_json::Value::Array(xs) => JsonValue::Arr(xs.iter().map(convert_outside_json).collect()),
        serde_json::Value::Object(fs) => JsonValue::Obj(
            fs.iter().map(|(k, x)| (k.clone(), convert_outside_json(x))).collect(),
        ),
    }
}

/// Relies on `serde_json::from_str::<serde_json::Value>`: parsing JSON text
/// is deterministic in the text, returning `Err` exactly when the text is
/// not valid JSON. The parsed tree is carried over by `convert_outside_json`.
#[verifier::external_body]
pub fn parse_json(s: &str) -> (r: Option<JsonValue>)
    ensures
        match r {
            Some(v) => spec_parse_json(s@) == Some(v@),
            None => spec_parse_json(s@) is None,
        },
{
    match serde_json::from_str::<serde_json::Value>(s) {
        Ok(v) => Some(convert_outside_json(&v)),
        Err(_) => None,
    }
}

} // verus!
