use vstd::prelude::*;

use crate::strings::str_eq;

verus! {

broadcast use {
    vstd::std_specs::vec::axiom_vec_decreases_to_view,
    vstd::seq::axiom_seq_index_decreases,
    vstd::seq::axiom_seq_subrange_decreases,
};

/// A JSON document as plain data. A number is kept as its decimal
/// rendering; this library carries numbers through but never computes
/// with them, and a hand-built `Number` whose text serde_json's number
/// type cannot re-read is treated as JSON null when a document is
/// handed to the schema validator.
#[derive(Debug, PartialEq, Eq)]
pub enum JsonValue {
    Null,
    Bool(bool),
    Number(String),
    Text(String),
    Array(Vec<JsonValue>),
    Object(Vec<(String, JsonValue)>),
}

/// The mathematical value of a JSON document.
pub enum JsonView {
    Null,
    Bool(bool),
    Number(Seq<char>),
    Text(Seq<char>),
    Array(Seq<JsonView>),
    Object(Seq<(Seq<char>, JsonView)>),
}

/// The values of the elements of a JSON array.
pub open spec fn spec_view_seq(items: Seq<JsonValue>) -> Seq<JsonView>
    decreases items,
{
    if items.len() == 0 {
        Seq::<JsonView>::empty()
    } else {
        seq![items[0]@] + spec_view_seq(items.skip(1))
    }
}

/// The values of the members of a JSON object.
pub open spec fn spec_view_fields(fields: Seq<(String, JsonValue)>) -> Seq<(Seq<char>, JsonView)>
    decreases fields,
{
    if fields.len() == 0 {
        Seq::<(Seq<char>, JsonView)>::empty()
    } else {
        seq![(fields[0].0@, fields[0].1@)] + spec_view_fields(fields.skip(1))
    }
}

impl View for JsonValue {
    type V = JsonView;

    open spec fn view(&self) -> JsonView
        decreases self,
    {
        match self {
            JsonValue::Null => JsonView::Null,
            JsonValue::Bool(b) => JsonView::Bool(*b),
            JsonValue::Number(n) => JsonView::Number(n@),
            JsonValue::Text(s) => JsonView::Text(s@),
            JsonValue::Array(items) => JsonView::Array(spec_view_seq(items@)),
            JsonValue::Object(fields) => JsonView::Object(spec_view_fields(fields@)),
        }
    }
}

pub proof fn lemma_view_seq_len(items: Seq<JsonValue>)
    ensures
        spec_view_seq(items).len() == items.len(),
    decreases items,
{
    if items.len() > 0 {
        lemma_view_seq_len(items.skip(1));
        assert(items.skip(1).len() == items.len() - 1);
        assert(spec_view_seq(items) == seq![items[0]@] + spec_view_seq(items.skip(1)));
        assert(spec_view_seq(items).len() == 1 + spec_view_seq(items.skip(1)).len());
    }
}

/// The array view is the element-wise view.
pub proof fn lemma_view_seq_index(items: Seq<JsonValue>, i: int)
    requires
        0 <= i < items.len(),
    ensures
        spec_view_seq(items).len() == items.len(),
        spec_view_seq(items)[i] == items[i]@,
    decreases items,
{
    lemma_view_seq_len(items);
    assert(spec_view_seq(items) == seq![items[0]@] + spec_view_seq(items.skip(1)));
    if i > 0 {
        lemma_view_seq_index(items.skip(1), i - 1);
        assert(items.skip(1)[i - 1] == items[i]);
    }
}

pub proof fn lemma_view_fields_len(fields: Seq<(String, JsonValue)>)
    ensures
        spec_view_fields(fields).len() == fields.len(),
    decreases fields,
{
    if fields.len() > 0 {
        lemma_view_fields_len(fields.skip(1));
        assert(spec_view_fields(fields) == seq![(fields[0].0@, fields[0].1@)]
            + spec_view_fields(fields.skip(1)));
    }
}

/// The object view is the member-wise view.
pub proof fn lemma_view_fields_index(fields: Seq<(String, JsonValue)>, i: int)
    requires
        0 <= i < fields.len(),
    ensures
        spec_view_fields(fields).len() == fields.len(),
        spec_view_fields(fields)[i] == (fields[i].0@, fields[i].1@),
    decreases fields,
{
    lemma_view_fields_len(fields);
    assert(spec_view_fields(fields) == seq![(fields[0].0@, fields[0].1@)] + spec_view_fields(
        fields.skip(1),
    ));
    if i > 0 {
        lemma_view_fields_index(fields.skip(1), i - 1);
        assert(fields.skip(1)[i - 1] == fields[i]);
    }
}

/// Arrays whose elements have equal values have equal views.
pub proof fn lemma_view_seq_ext(a: Seq<JsonValue>, b: Seq<JsonValue>)
    requires
        a.len() == b.len(),
        forall|i: int| 0 <= i < a.len() ==> a[i]@ == b[i]@,
    ensures
        spec_view_seq(a) == spec_view_seq(b),
{
    lemma_view_seq_len(a);
    lemma_view_seq_len(b);
    assert forall|i: int| 0 <= i < a.len() implies spec_view_seq(a)[i] == spec_view_seq(b)[i] by {
        lemma_view_seq_index(a, i);
        lemma_view_seq_index(b, i);
    }
    assert(spec_view_seq(a) =~= spec_view_seq(b));
}

/// Objects whose members have equal names and values have equal views.
pub proof fn lemma_view_fields_ext(a: Seq<(String, JsonValue)>, b: Seq<(String, JsonValue)>)
    requires
        a.len() == b.len(),
        forall|i: int| 0 <= i < a.len() ==> a[i].0@ == b[i].0@ && a[i].1@ == b[i].1@,
    ensures
        spec_view_fields(a) == spec_view_fields(b),
{
    lemma_view_fields_len(a);
    lemma_view_fields_len(b);
    assert forall|i: int|
        0 <= i < a.len() implies spec_view_fields(a)[i] == spec_view_fields(b)[i] by {
        lemma_view_fields_index(a, i);
        lemma_view_fields_index(b, i);
    }
    assert(spec_view_fields(a) =~= spec_view_fields(b));
}

impl Clone for JsonValue {
    /// A deep copy with the same mathematical value.
    #[verifier::loop_isolation(false)]
    fn clone(&self) -> (res: Self)
        ensures
            res@ == self@,
        decreases *self,
    {
        match self {
            JsonValue::Null => JsonValue::Null,
            JsonValue::Bool(b) => JsonValue::Bool(*b),
            JsonValue::Number(n) => JsonValue::Number(n.clone()),
            JsonValue::Text(s) => JsonValue::Text(s.clone()),
            JsonValue::Array(items) => {
                let mut out: Vec<JsonValue> = Vec::new();
                let mut i: usize = 0;
                while i < items.len()
                    invariant
                        i <= items.len(),
                        out@.len() == i,
                        forall|j: int| 0 <= j < i ==> out@[j]@ == items@[j]@,
                    decreases items@.len() - i,
                {
                    proof {
                        assert(decreases_to!(*self => self->Array_0));
                        assert(self->Array_0 == *items);
                        assert(decreases_to!(*items => items@));
                        assert(decreases_to!(items@ => items@[i as int]));
                    }
                    let c = items[i].clone();
                    out.push(c);
                    i = i + 1;
                }
                proof {
                    lemma_view_seq_ext(out@, items@);
                }
                JsonValue::Array(out)
            },
            JsonValue::Object(fields) => {
                let mut out: Vec<(String, JsonValue)> = Vec::new();
                let mut i: usize = 0;
                while i < fields.len()
                    invariant
                        i <= fields.len(),
                        out@.len() == i,
                        forall|j: int|
                            0 <= j < i ==> out@[j].0@ == fields@[j].0@ && out@[j].1@
                                == fields@[j].1@,
                    decreases fields@.len() - i,
                {
                    proof {
                        assert(decreases_to!(*self => self->Object_0));
                        assert(self->Object_0 == *fields);
                        assert(decreases_to!(*fields => fields@));
                        assert(decreases_to!(fields@ => fields@[i as int]));
                        assert(decreases_to!(fields@[i as int] => fields@[i as int].1));
                    }
                    let c = fields[i].1.clone();
                    let k = fields[i].0.clone();
                    out.push((k, c));
                    i = i + 1;
                }
                proof {
                    lemma_view_fields_ext(out@, fields@);
                }
                JsonValue::Object(out)
            },
        }
    }
}

/// The first member named `key`, if the object has one.
pub open spec fn spec_obj_get(fields: Seq<(Seq<char>, JsonView)>, key: Seq<char>) -> Option<
    JsonView,
>
    decreases fields.len(),
{
    if fields.len() == 0 {
        None
    } else if fields[0].0 == key {
        Some(fields[0].1)
    } else {
        spec_obj_get(fields.skip(1), key)
    }
}

proof fn lemma_obj_get_skip(fields: Seq<(Seq<char>, JsonView)>, key: Seq<char>, i: int)
    requires
        0 <= i <= fields.len(),
        forall|j: int| 0 <= j < i ==> fields[j].0 != key,
    ensures
        spec_obj_get(fields, key) == spec_obj_get(fields.skip(i), key),
    decreases i,
{
    if i == 0 {
        assert(fields.skip(0) =~= fields);
    } else {
        assert(fields[0].0 != key);
        assert forall|j: int| 0 <= j < i - 1 implies fields.skip(1)[j].0 != key by {
            assert(fields.skip(1)[j] == fields[j + 1]);
        }
        lemma_obj_get_skip(fields.skip(1), key, i - 1);
        assert(fields.skip(1).skip(i - 1) =~= fields.skip(i));
    }
}

/// Looks up the first member named `key`.
pub fn obj_get<'a>(fields: &'a Vec<(String, JsonValue)>, key: &str) -> (r: Option<&'a JsonValue>)
    ensures
        match r {
            Some(v) => spec_obj_get(spec_view_fields(fields@), key@) == Some(v@),
            None => spec_obj_get(spec_view_fields(fields@), key@) is None,
        },
{
    let ghost fv = spec_view_fields(fields@);
    proof {
        lemma_view_fields_len(fields@);
    }
    let mut i: usize = 0;
    while i < fields.len()
        invariant
            i <= fields.len(),
            fv == spec_view_fields(fields@),
            fv.len() == fields.len(),
            forall|j: int| 0 <= j < i ==> fv[j].0 != key@,
        decreases fields.len() - i,
    {
        proof {
            lemma_view_fields_index(fields@, i as int);
        }
        if str_eq(fields[i].0.as_str(), key) {
            proof {
                lemma_obj_get_skip(fv, key@, i as int);
                assert(fv.skip(i as int)[0] == fv[i as int]);
            }
            return Some(&fields[i].1);
        }
        i = i + 1;
    }
    proof {
        lemma_obj_get_skip(fv, key@, i as int);
        assert(fv.skip(i as int).len() == 0);
    }
    None
}

/// What the JSON parser yields on a given string: the document it
/// denotes, and nothing when the string is not JSON.
pub uninterp spec fn spec_json_parse(s: Seq<char>) -> Option<JsonView>;

/// serde_json's own document type, opaque here: values of it are only
/// carried between the serde_json calls inside trusted bodies.
#[verifier::external_type_specification]
#[verifier::external_body]
pub struct ExSerdeValue(serde_json::Value);

/// Relies on serde_json::Value: converts it variant for variant into
/// the library's JSON type; a number becomes its decimal rendering.
#[verifier::external_body]
fn json_of_serde(v: serde_json::Value) -> JsonValue {
    match v {
        serde_json::Value::Null => JsonValue::Null,
        serde_json::Value::Bool(b) => JsonValue::Bool(b),
        serde_json::Value::Number(n) => JsonValue::Number(n.to_string()),
        serde_json::Value::String(s) => JsonValue::Text(s),
        serde_json::Value::Array(a) => JsonValue::Array(a.into_iter().map(json_of_serde).collect()),
        serde_json::Value::Object(m) => JsonValue::Object(
            m.into_iter().map(|(k, w)| (k, json_of_serde(w))).collect(),
        ),
    }
}

/// Relies on serde_json::Value: converts the library's JSON type into
/// it, variant for variant; a number rendering that serde_json's number
/// type cannot hold becomes JSON null.
#[verifier::external_body]
pub(crate) fn serde_of_json(v: &JsonValue) -> serde_json::Value {
    match v {
        JsonValue::Null => serde_json::Value::Null,
        JsonValue::Bool(b) => serde_json::Value::Bool(*b),
        JsonValue::Number(n) =>
            n.parse().map(serde_json::Value::Number).unwrap_or(serde_json::Value::Null),
        JsonValue::Text(s) => serde_json::Value::String(s.clone()),
        JsonValue::Array(items) => serde_json::Value::Array(items.iter().map(serde_of_json).collect()),
        JsonValue::Object(fields) => serde_json::Value::Object(
            fields.iter().map(|(k, w)| (k.clone(), serde_of_json(w))).collect(),
        ),
    }
}

/// Relies on serde_json::from_str: whether a string is JSON, and the
/// document it denotes, depend on the string alone.
#[verifier::external_body]
pub(crate) fn parse_json_raw(s: &str) -> (r: Option<JsonValue>)
    ensures
        r matches Some(j) ==> spec_json_parse(s@) == Some(j@),
        r is None ==> spec_json_parse(s@) is None,
{
    match serde_json::from_str::<serde_json::Value>(s) {
        Ok(v) => Some(json_of_serde(v)),
        Err(_) => None,
    }
}

} // verus!
