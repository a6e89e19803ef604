//! The JSON value type that the filter works on, and its mathematical model.

use vstd::prelude::*;

verus! {

/// Declares serde_json's arbitrary-precision number type so that values of it
/// can be carried through the library unchanged. The library never inspects a
/// number; it only moves and clones it.
#[verifier::external_type_specification]
#[verifier::external_body]
pub struct ExNumber(serde_json::Number);

/// The mathematical model of a JSON value. An object is an ordered sequence
/// of key/value pairs (source key order is significant), an array an ordered
/// sequence of values.
pub enum JsonVal {
    Null,
    Bool(bool),
    Num(serde_json::Number),
    Str(Seq<char>),
    Arr(Seq<JsonVal>),
    Obj(Seq<(Seq<char>, JsonVal)>),
}

/// A JSON value: object (ordered string-keyed mapping), array, or scalar
/// (string, number, boolean, null). Objects keep their pairs in insertion
/// order, as the filter's output order is part of its contract.
#[derive(Debug, PartialEq)]
pub enum Json {
    Null,
    Bool(bool),
    Num(serde_json::Number),
    Str(String),
    Array(Vec<Json>),
    Object(Vec<(String, Json)>),
}

pub open spec fn json_view(j: Json) -> JsonVal
    decreases j,
{
    match j {
        Json::Null => JsonVal::Null,
        Json::Bool(b) => JsonVal::Bool(b),
        Json::Num(n) => JsonVal::Num(n),
        Json::Str(s) => JsonVal::Str(s@),
        Json::Array(a) => JsonVal::Arr(
            Seq::new(
                a@.len(),
                |i: int|
                    if 0 <= i < a@.len() {
                        json_view(a@[i])
                    } else {
                        JsonVal::Null
                    },
            ),
        ),
        Json::Object(o) => JsonVal::Obj(
            Seq::new(
                o@.len(),
                |i: int|
                    if 0 <= i < o@.len() {
                        (o@[i].0@, json_view(o@[i].1))
                    } else {
                        (Seq::empty(), JsonVal::Null)
                    },
            ),
        ),
    }
}

impl DeepView for Json {
    type V = JsonVal;

    open spec fn deep_view(&self) -> JsonVal {
        json_view(*self)
    }
}

/// `json_view` and the element-wise deep view of the field vector agree.
pub proof fn lemma_object_view(o: Vec<(String, Json)>)
    ensures
        json_view(Json::Object(o)) == JsonVal::Obj(o.deep_view()),
{
    assert(json_view(Json::Object(o))->Obj_0 =~= o.deep_view());
}

/// `json_view` and the element-wise deep view of the element vector agree.
pub proof fn lemma_array_view(a: Vec<Json>)
    ensures
        json_view(Json::Array(a)) == JsonVal::Arr(a.deep_view()),
{
    assert(json_view(Json::Array(a))->Arr_0 =~= a.deep_view());
}

pub open spec fn max_nat(a: nat, b: nat) -> nat {
    if a >= b {
        a
    } else {
        b
    }
}

/// Nesting depth of a value; the filter's recursion bottoms out on it.
pub open spec fn jheight(v: JsonVal) -> nat
    decreases v,
{
    match v {
        JsonVal::Arr(s) => 1 + arr_height(s),
        JsonVal::Obj(o) => 1 + obj_height(o),
        _ => 0,
    }
}

pub open spec fn arr_height(s: Seq<JsonVal>) -> nat
    decreases s,
{
    if s.len() == 0 {
        0
    } else {
        max_nat(jheight(s[0]), arr_height(s.subrange(1, s.len() as int)))
    }
}

pub open spec fn obj_height(o: Seq<(Seq<char>, JsonVal)>) -> nat
    decreases o,
{
    if o.len() == 0 {
        0
    } else {
        max_nat(jheight(o[0].1), obj_height(o.subrange(1, o.len() as int)))
    }
}

/// The value stored at the first pair whose key is `key`, if any.
pub open spec fn obj_lookup(o: Seq<(Seq<char>, JsonVal)>, key: Seq<char>) -> Option<JsonVal>
    decreases o.len(),
{
    if o.len() == 0 {
        None
    } else if o[0].0 == key {
        Some(o[0].1)
    } else {
        obj_lookup(o.subrange(1, o.len() as int), key)
    }
}

pub proof fn lemma_arr_height_elem(s: Seq<JsonVal>, i: int)
    requires
        0 <= i < s.len(),
    ensures
        jheight(s[i]) <= arr_height(s),
    decreases s.len(),
{
    if i > 0 {
        lemma_arr_height_elem(s.subrange(1, s.len() as int), i - 1);
    }
}

pub proof fn lemma_obj_height_elem(o: Seq<(Seq<char>, JsonVal)>, i: int)
    requires
        0 <= i < o.len(),
    ensures
        jheight(o[i].1) <= obj_height(o),
    decreases o.len(),
{
    if i > 0 {
        lemma_obj_height_elem(o.subrange(1, o.len() as int), i - 1);
    }
}

pub proof fn lemma_obj_lookup_height(o: Seq<(Seq<char>, JsonVal)>, key: Seq<char>)
    ensures
        obj_lookup(o, key) matches Some(v) ==> jheight(v) <= obj_height(o),
    decreases o.len(),
{
    if o.len() > 0 {
        lemma_obj_lookup_height(o.subrange(1, o.len() as int), key);
    }
}

/// If every element of `s` has height at most `h`, so has the array.
pub proof fn lemma_arr_height_bound(s: Seq<JsonVal>, h: nat)
    requires
        forall|i: int| 0 <= i < s.len() ==> jheight(#[trigger] s[i]) <= h,
    ensures
        arr_height(s) <= h,
    decreases s.len(),
{
    if s.len() > 0 {
        lemma_arr_height_bound(s.subrange(1, s.len() as int), h);
    }
}

/// Relies on serde_json::Number::clone: a clone is the same number.
#[verifier::external_body]
pub(crate) fn clone_number(n: &serde_json::Number) -> (r: serde_json::Number)
    ensures
        r == *n,
{
    n.clone()
}

/// Declares serde_json's value type, so that decoded values can be handed
/// to the library and converted.
#[verifier::external_type_specification]
#[verifier::external_body]
pub struct ExValue(serde_json::Value);

/// The model of what a serde_json value holds, pair order included (the
/// codec is built with ordered maps).
pub uninterp spec fn value_model(v: serde_json::Value) -> JsonVal;

/// What building a serde_json value from a model yields: the same model,
/// except that within each object a repeated key keeps its first position
/// and last value, as an ordered map's insert does. On models whose keys
/// are unique per object — every decoded value, and every filter output of
/// one — it is the model itself.
pub uninterp spec fn canonical(j: JsonVal) -> JsonVal;

/// What serde_json's compact serializer prints for a value of model `j`.
pub uninterp spec fn rendered(j: JsonVal) -> Seq<char>;

/// What decoding a JSON text yields: `Some` of the decoded value's model
/// exactly when the text is one well-formed JSON value. Decoding is a
/// function of the text alone.
pub uninterp spec fn json_text(s: Seq<char>) -> Option<JsonVal>;

/// Relies on serde_json::Value's public enum: each variant is copied one
/// for one into the library's value type; object pairs keep the map's
/// iteration order.
#[verifier::external_body]
pub(crate) fn json_of_value(v: serde_json::Value) -> (r: Json)
    ensures
        r.deep_view() == value_model(v),
{
    match v {
        serde_json::Value::Null => Json::Null,
        serde_json::Value::Bool(b) => Json::Bool(b),
        serde_json::Value::Number(n) => Json::Num(n),
        serde_json::Value::String(s) => Json::Str(s),
        serde_json::Value::Array(a) => Json::Array(a.into_iter().map(json_of_value).collect()),
        serde_json::Value::Object(m) => Json::Object(
            m.into_iter().map(|p| (p.0, json_of_value(p.1))).collect(),
        ),
    }
}

/// Relies on serde_json::Value and Map construction: each variant is copied
/// back one for one; object pairs are inserted in order, so a repeated key
/// keeps its first position and last value — which is what `canonical`
/// names.
#[verifier::external_body]
pub(crate) fn value_of_json(j: &Json) -> (r: serde_json::Value)
    ensures
        value_model(r) == canonical(j.deep_view()),
{
    match j {
        Json::Null => serde_json::Value::Null,
        Json::Bool(b) => serde_json::Value::Bool(*b),
        Json::Num(n) => serde_json::Value::Number(n.clone()),
        Json::Str(s) => serde_json::Value::String(s.clone()),
        Json::Array(a) => serde_json::Value::Array(a.iter().map(value_of_json).collect()),
        Json::Object(o) => {
            let mut m = serde_json::Map::new();
            for p in o {
                m.insert(p.0.clone(), value_of_json(&p.1));
            }
            serde_json::Value::Object(m)
        },
    }
}

/// Relies on serde_json::to_string: the compact rendering is a function of
/// the value's model alone, and rendering a serde_json value does not fail.
#[verifier::external_body]
pub(crate) fn render_value(v: &serde_json::Value) -> (r: String)
    ensures
        r@ == rendered(value_model(*v)),
{
    match serde_json::to_string(v) {
        Ok(s) => s,
        Err(_) => String::new(),
    }
}

/// Relies on serde_json::from_str: decoding is a function of the text
/// alone; `Ok` exactly when the text is one well-formed JSON value; the
/// error's display form describes the failure.
#[verifier::external_body]
pub(crate) fn json_from_str(s: &str) -> (r: Result<Json, String>)
    ensures
        match r {
            Ok(j) => json_text(s@) == Some(j.deep_view()),
            Err(_) => json_text(s@) is None,
        },
{
    match serde_json::from_str::<serde_json::Value>(s) {
        Ok(v) => Ok(json_of_value(v)),
        Err(e) => Err(format!("{}", e)),
    }
}

impl Json {
    /// The compact JSON text of this value: object pairs in stored order,
    /// with a repeated key collapsed to its first position and last value,
    /// as `canonical` says.
    pub fn to_string(&self) -> (r: String)
        ensures
            r@ == rendered(canonical(self.deep_view())),
    {
        let v = value_of_json(self);
        render_value(&v)
    }
}

} // verus!
