//! A JSON document as plain data, with the parse step of serde_json behind
//! a trusted boundary. Decoders work on `JsonValue` and are verified for
//! every possible tree; only the text-to-tree step itself is trusted.

use vstd::prelude::*;

verus! {

broadcast use vstd::std_specs::vec::axiom_vec_index_decreases;

/// Declares serde_json's value type, so the trusted conversion below may
/// name it in its signature.
#[verifier::external_type_specification]
#[verifier::external_body]
pub struct ExSerdeValue(serde_json::Value);

/// A JSON document. A number is kept as the decimal text serde_json prints
/// for it, so no floating point enters the library.
#[derive(Debug)]
pub enum JsonValue {
    Null,
    Bool(bool),
    Number(String),
    Text(String),
    Array(Vec<JsonValue>),
    Object(Vec<(String, JsonValue)>),
}

/// The mathematical shape of a JSON document: what the contracts speak of.
#[verifier::ext_equal]
pub enum JsonModel {
    Null,
    Bool(bool),
    Number(Seq<char>),
    Text(Seq<char>),
    Array(Seq<JsonModel>),
    Object(Seq<(Seq<char>, JsonModel)>),
}

/// The six JSON shapes, used to report what a schema expected; `Any`
/// stands for a field that may take any shape.
#[derive(Debug, Clone, Copy, PartialEq, Eq, Structural)]
pub enum JsonKind {
    Null,
    Bool,
    Number,
    Text,
    Array,
    Object,
    Any,
}

impl JsonValue {
    /// The mathematical shape of this document.
    pub open spec fn model(self) -> JsonModel
        decreases self,
    {
        match self {
            JsonValue::Null => JsonModel::Null,
            JsonValue::Bool(b) => JsonModel::Bool(b),
            JsonValue::Number(s) => JsonModel::Number(s@),
            JsonValue::Text(s) => JsonModel::Text(s@),
            JsonValue::Array(a) => JsonModel::Array(
                Seq::new(a@.len(), |i: int| if 0 <= i < a@.len() { a@[i].model() } else { JsonModel::Null }),
            ),
            JsonValue::Object(fs) => JsonModel::Object(
                Seq::new(
                    fs@.len(),
                    |i: int| if 0 <= i < fs@.len() { (fs@[i].0@, fs@[i].1.model()) } else { (Seq::empty(), JsonModel::Null) },
                ),
            ),
        }
    }
}

/// What serde_json's parser yields on `s`: the shape of the parsed
/// document, or nothing when `s` is not valid JSON.
pub uninterp spec fn json_parse(s: Seq<char>) -> Option<JsonModel>;

/// Relies on the shape of serde_json::Value alone: each variant is moved to
/// the library's own tree, a number as the decimal text its Display gives.
#[verifier::external_body]
fn value_to_tree(v: serde_json::Value) -> JsonValue {
    match v {
        serde_json::Value::Null => JsonValue::Null,
        serde_json::Value::Bool(b) => JsonValue::Bool(b),
        serde_json::Value::Number(n) => JsonValue::Number(n.to_string()),
        serde_json::Value::String(s) => JsonValue::Text(s),
        serde_json::Value::Array(a) => JsonValue::Array(
            a.into_iter().map(value_to_tree).collect(),
        ),
        serde_json::Value::Object(m) => JsonValue::Object(
            m.into_iter().map(|(k, x)| (k, value_to_tree(x))).collect(),
        ),
    }
}

/// Relies on serde_json::from_str::<serde_json::Value>: parses JSON text,
/// returning the parser's error text on failure. `json_parse` names the
/// shape of the document the parser accepts for `s`.
#[verifier::external_body]
pub fn parse_json_text(s: &str) -> (r: Result<JsonValue, String>)
    ensures
        r is Ok <==> json_parse(s@) is Some,
        r matches Ok(v) ==> json_parse(s@) == Some(v.model()),
{
    match serde_json::from_str::<serde_json::Value>(s) {
        Ok(v) => Ok(value_to_tree(v)),
        Err(e) => Err(e.to_string()),
    }
}

// ---------------------------------------------------------------------------
// Field lookup
// ---------------------------------------------------------------------------

/// The first value under `key` in an object's field list.
pub open spec fn lookup_model(fs: Seq<(Seq<char>, JsonModel)>, key: Seq<char>) -> Option<JsonModel>
    decreases fs.len(),
{
    if fs.len() == 0 {
        None
    } else if fs[0].0 == key {
        Some(fs[0].1)
    } else {
        lookup_model(fs.drop_first(), key)
    }
}

/// The models of an array's items.
pub open spec fn items_model(s: Seq<JsonValue>) -> Seq<JsonModel> {
    Seq::new(s.len(), |i: int| if 0 <= i < s.len() { s[i].model() } else { JsonModel::Null })
}

/// The views of a list of strings.
pub open spec fn strings_view(s: Seq<String>) -> Seq<Seq<char>> {
    Seq::new(s.len(), |i: int| if 0 <= i < s.len() { s[i]@ } else { Seq::empty() })
}

/// The model of an object's field list.
pub open spec fn fields_model(fs: Seq<(String, JsonValue)>) -> Seq<(Seq<char>, JsonModel)> {
    Seq::new(fs.len(), |i: int| if 0 <= i < fs.len() { (fs[i].0@, fs[i].1.model()) } else { (Seq::empty(), JsonModel::Null) })
}

/// Finds the first field named `key`.
pub fn lookup<'a>(fields: &'a Vec<(String, JsonValue)>, key: &str) -> (r: Option<&'a JsonValue>)
    ensures
        match r {
            Some(v) => lookup_model(fields_model(fields@), key@) == Some(v.model()),
            None => lookup_model(fields_model(fields@), key@) is None,
        },
{
    let key_owned: String = key.to_owned();
    let n = fields.len();
    let mut i: usize = 0;
    proof {
        assert(fields_model(fields@).skip(0) =~= fields_model(fields@));
    }
    while i < n
        invariant
            i <= n,
            n == fields@.len(),
            key_owned@ == key@,
            lookup_model(fields_model(fields@), key@) == lookup_model(
                fields_model(fields@).skip(i as int),
                key@,
            ),
            forall|j: int| 0 <= j < i ==> fields@[j].0@ != key@,
        decreases n - i,
    {
        proof {
            assert(fields_model(fields@).skip(i as int)[0] == fields_model(fields@)[i as int]);
        }
        if fields[i].0.eq(&key_owned) {
            return Some(&fields[i].1);
        }
        proof {
            assert(fields_model(fields@).skip(i as int).drop_first() =~= fields_model(
                fields@,
            ).skip(i + 1));
        }
        i = i + 1;
    }
    proof {
        assert(fields_model(fields@).skip(n as int) =~= Seq::empty());
    }
    None
}

// ---------------------------------------------------------------------------
// Deep clone
// ---------------------------------------------------------------------------

/// Copies a document; the copy has the same shape.
pub fn json_clone(v: &JsonValue) -> (r: JsonValue)
    ensures
        r.model() == v.model(),
    decreases *v,
{
    match v {
        JsonValue::Null => JsonValue::Null,
        JsonValue::Bool(b) => JsonValue::Bool(*b),
        JsonValue::Number(s) => JsonValue::Number(s.clone()),
        JsonValue::Text(s) => JsonValue::Text(s.clone()),
        JsonValue::Array(a) => {
            let n = a.len();
            let mut out: Vec<JsonValue> = Vec::new();
            let mut i: usize = 0;
            while i < n
                invariant
                    i <= n,
                    n == a@.len(),
                    out@.len() == i,
                    *v == JsonValue::Array(*a),
                    forall|j: int| 0 <= j < i ==> (#[trigger] out@[j].model()) == a@[j].model(),
                decreases n - i,
            {
                proof {
                    assert(decreases_to!(*v => (*v)->Array_0));
                    assert(decreases_to!((*v)->Array_0 => (*v)->Array_0@));
                    assert(decreases_to!((*v)->Array_0@ => (*v)->Array_0@[i as int]));
                    assert((*v)->Array_0@[i as int] == a@[i as int]);
                    assert(decreases_to!(*v => a@[i as int]));
                }
                let c = json_clone(&a[i]);
                out.push(c);
                i = i + 1;
            }
            let r = JsonValue::Array(out);
            proof {
                let s1 = r.model()->Array_0;
                let s2 = v.model()->Array_0;
                assert forall|j: int| 0 <= j < n implies s1[j] == s2[j] by {
                    assert(s1[j] == out@[j].model());
                    assert(s2[j] == a@[j].model());
                }
                assert(s1 =~= s2);
            }
            r
        },
        JsonValue::Object(fs) => {
            let n = fs.len();
            let mut out: Vec<(String, JsonValue)> = Vec::new();
            let mut i: usize = 0;
            while i < n
                invariant
                    i <= n,
                    n == fs@.len(),
                    out@.len() == i,
                    *v == JsonValue::Object(*fs),
                    forall|j: int| 0 <= j < i ==> (#[trigger] out@[j].0@) == fs@[j].0@
                        && out@[j].1.model() == fs@[j].1.model(),
                decreases n - i,
            {
                proof {
                    assert(decreases_to!(*v => (*v)->Object_0));
                    assert(decreases_to!((*v)->Object_0 => (*v)->Object_0@));
                    assert(decreases_to!((*v)->Object_0@ => (*v)->Object_0@[i as int]));
                    assert(decreases_to!((*v)->Object_0@[i as int] => (*v)->Object_0@[i as int].1));
                    assert((*v)->Object_0@[i as int].1 == fs@[i as int].1);
                    assert(decreases_to!(*v => fs@[i as int].1));
                }
                let k = fs[i].0.clone();
                let c = json_clone(&fs[i].1);
                out.push((k, c));
                i = i + 1;
            }
            let r = JsonValue::Object(out);
            proof {
                let s1 = r.model()->Object_0;
                let s2 = v.model()->Object_0;
                assert forall|j: int| 0 <= j < n implies s1[j] == s2[j] by {
                    assert(s1[j] == (out@[j].0@, out@[j].1.model()));
                    assert(s2[j] == (fs@[j].0@, fs@[j].1.model()));
                }
                assert(s1 =~= s2);
            }
            r
        },
    }
}

} // verus!
