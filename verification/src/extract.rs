use vstd::prelude::*;

use crate::errors::{ShapeError, VerifierError};
use crate::json::{
    lemma_view_seq_index, lemma_view_seq_len, obj_get, spec_obj_get, spec_view_fields,
    spec_view_seq, JsonValue, JsonView,
};

verus! {

/// The string value of the record's member named `key`, where the
/// record is an object with such a member and it is a string.
pub open spec fn spec_str_field(item: JsonView, key: Seq<char>) -> Option<Seq<char>> {
    match item {
        JsonView::Object(fields) => match spec_obj_get(fields, key) {
            Some(JsonView::Text(s)) => Some(s),
            _ => None,
        },
        _ => None,
    }
}

/// A record's identifier: its `id`, else its `variantInternalId`, else
/// its `cohortId`, the first of the three that is a string.
pub open spec fn spec_record_id(item: JsonView) -> Option<Seq<char>> {
    if spec_str_field(item, "id"@) is Some {
        spec_str_field(item, "id"@)
    } else if spec_str_field(item, "variantInternalId"@) is Some {
        spec_str_field(item, "variantInternalId"@)
    } else {
        spec_str_field(item, "cohortId"@)
    }
}

/// The identifiers of the records, left to right; the first record
/// without one makes the whole sequence a shape violation.
pub open spec fn spec_records_ids(items: Seq<JsonView>) -> Result<Seq<Seq<char>>, ShapeError>
    decreases items.len(),
{
    if items.len() == 0 {
        Ok(Seq::<Seq<char>>::empty())
    } else {
        match spec_record_id(items[0]) {
            Some(id) => match spec_records_ids(items.skip(1)) {
                Ok(rest) => Ok(seq![id] + rest),
                Err(e) => Err(e),
            },
            None => Err(ShapeError::MissingIdentifier),
        }
    }
}

/// The identifiers of one result set: those of the records under its
/// `results` array.
pub open spec fn spec_set_ids(set: JsonView) -> Result<Seq<Seq<char>>, ShapeError> {
    match set {
        JsonView::Object(fields) => match spec_obj_get(fields, "results"@) {
            Some(JsonView::Array(items)) => spec_records_ids(items),
            Some(_) => Err(ShapeError::ResultsNotAnArray),
            None => Err(ShapeError::MissingResults),
        },
        _ => Err(ShapeError::ResultSetNotAnObject),
    }
}

/// The identifiers of all result sets, concatenated in order; the first
/// violating set decides the error.
pub open spec fn spec_sets_ids(sets: Seq<JsonView>) -> Result<Seq<Seq<char>>, ShapeError>
    decreases sets.len(),
{
    if sets.len() == 0 {
        Ok(Seq::<Seq<char>>::empty())
    } else {
        match spec_set_ids(sets[0]) {
            Ok(ids) => match spec_sets_ids(sets.skip(1)) {
                Ok(rest) => Ok(ids + rest),
                Err(e) => Err(e),
            },
            Err(e) => Err(e),
        }
    }
}

/// The identifiers a listing response holds, under the shape
/// `{"response":{"resultSets":[{"results":[record, ...]}, ...]}}`, or
/// where the first structural deviation from that shape lies.
pub open spec fn spec_extract_ids(doc: JsonView) -> Result<Seq<Seq<char>>, ShapeError> {
    match doc {
        JsonView::Object(fields) => match spec_obj_get(fields, "response"@) {
            Some(JsonView::Object(rfields)) => match spec_obj_get(rfields, "resultSets"@) {
                Some(JsonView::Array(sets)) => spec_sets_ids(sets),
                Some(_) => Err(ShapeError::ResultSetsNotAnArray),
                None => Err(ShapeError::MissingResultSets),
            },
            Some(_) => Err(ShapeError::ResponseNotAnObject),
            None => Err(ShapeError::MissingResponse),
        },
        _ => Err(ShapeError::NotAnObject),
    }
}

/// Prefixes already collected identifiers onto a partial outcome.
pub open spec fn spec_prepend(pre: Seq<Seq<char>>, r: Result<Seq<Seq<char>>, ShapeError>) -> Result<
    Seq<Seq<char>>,
    ShapeError,
> {
    match r {
        Ok(ids) => Ok(pre + ids),
        Err(e) => Err(e),
    }
}

fn str_field<'a>(item: &'a JsonValue, key: &str) -> (r: Option<&'a String>)
    ensures
        match r {
            Some(s) => spec_str_field(item@, key@) == Some(s@),
            None => spec_str_field(item@, key@) is None,
        },
{
    match item {
        JsonValue::Object(fields) => match obj_get(fields, key) {
            Some(v) => match v {
                JsonValue::Text(s) => Some(s),
                _ => None,
            },
            None => None,
        },
        _ => None,
    }
}

fn record_id(item: &JsonValue) -> (r: Option<String>)
    ensures
        match r {
            Some(s) => spec_record_id(item@) == Some(s@),
            None => spec_record_id(item@) is None,
        },
{
    match str_field(item, "id") {
        Some(s) => Some(s.clone()),
        None => match str_field(item, "variantInternalId") {
            Some(s) => Some(s.clone()),
            None => match str_field(item, "cohortId") {
                Some(s) => Some(s.clone()),
                None => None,
            },
        },
    }
}

fn records_ids(items: &Vec<JsonValue>) -> (r: Result<Vec<String>, ShapeError>)
    ensures
        match spec_records_ids(spec_view_seq(items@)) {
            Ok(ids) => r matches Ok(v) && v.deep_view() == ids,
            Err(e) => r == Err::<Vec<String>, ShapeError>(e),
        },
{
    let ghost iv = spec_view_seq(items@);
    proof {
        lemma_view_seq_len(items@);
    }
    let mut out: Vec<String> = Vec::new();
    let mut i: usize = 0;
    proof {
        assert(iv.skip(0) =~= iv);
        assert(out.deep_view() =~= Seq::<Seq<char>>::empty());
        assert(spec_prepend(out.deep_view(), spec_records_ids(iv)) == spec_records_ids(iv));
    }
    while i < items.len()
        invariant
            i <= items.len(),
            iv == spec_view_seq(items@),
            iv.len() == items.len(),
            spec_records_ids(iv) == spec_prepend(
                out.deep_view(),
                spec_records_ids(iv.skip(i as int)),
            ),
        decreases items.len() - i,
    {
        proof {
            lemma_view_seq_index(items@, i as int);
        }
        let ghost tail = iv.skip(i as int);
        proof {
            assert(tail[0] == iv[i as int]);
            assert(tail.skip(1) =~= iv.skip(i as int + 1));
        }
        match record_id(&items[i]) {
            Some(id) => {
                let ghost idv = id@;
                let ghost old_out = out.deep_view();
                out.push(id);
                proof {
                    assert(out.deep_view() =~= old_out.push(idv));
                    match spec_records_ids(iv.skip(i as int + 1)) {
                        Ok(rest) => {
                            assert(spec_records_ids(tail) == Ok::<Seq<Seq<char>>, ShapeError>(
                                seq![idv] + rest,
                            ));
                            assert(old_out + (seq![idv] + rest) =~= out.deep_view() + rest);
                        },
                        Err(_) => {},
                    }
                }
            },
            None => {
                proof {
                    assert(spec_records_ids(tail) == Err::<Seq<Seq<char>>, ShapeError>(
                        ShapeError::MissingIdentifier,
                    ));
                }
                return Err(ShapeError::MissingIdentifier);
            },
        }
        i = i + 1;
    }
    proof {
        assert(iv.skip(i as int).len() == 0);
        assert(out.deep_view() + Seq::<Seq<char>>::empty() =~= out.deep_view());
    }
    Ok(out)
}

fn set_ids(set: &JsonValue) -> (r: Result<Vec<String>, ShapeError>)
    ensures
        match spec_set_ids(set@) {
            Ok(ids) => r matches Ok(v) && v.deep_view() == ids,
            Err(e) => r == Err::<Vec<String>, ShapeError>(e),
        },
{
    match set {
        JsonValue::Object(fields) => match obj_get(fields, "results") {
            Some(v) => match v {
                JsonValue::Array(items) => records_ids(items),
                _ => Err(ShapeError::ResultsNotAnArray),
            },
            None => Err(ShapeError::MissingResults),
        },
        _ => Err(ShapeError::ResultSetNotAnObject),
    }
}

fn sets_ids(sets: &Vec<JsonValue>) -> (r: Result<Vec<String>, ShapeError>)
    ensures
        match spec_sets_ids(spec_view_seq(sets@)) {
            Ok(ids) => r matches Ok(v) && v.deep_view() == ids,
            Err(e) => r == Err::<Vec<String>, ShapeError>(e),
        },
{
    let ghost sv = spec_view_seq(sets@);
    proof {
        lemma_view_seq_len(sets@);
    }
    let mut out: Vec<String> = Vec::new();
    let mut i: usize = 0;
    proof {
        assert(sv.skip(0) =~= sv);
        assert(out.deep_view() =~= Seq::<Seq<char>>::empty());
        assert(spec_prepend(out.deep_view(), spec_sets_ids(sv)) == spec_sets_ids(sv));
    }
    while i < sets.len()
        invariant
            i <= sets.len(),
            sv == spec_view_seq(sets@),
            sv.len() == sets.len(),
            spec_sets_ids(sv) == spec_prepend(out.deep_view(), spec_sets_ids(sv.skip(i as int))),
        decreases sets.len() - i,
    {
        proof {
            lemma_view_seq_index(sets@, i as int);
        }
        let ghost tail = sv.skip(i as int);
        proof {
            assert(tail[0] == sv[i as int]);
            assert(tail.skip(1) =~= sv.skip(i as int + 1));
        }
        match set_ids(&sets[i]) {
            Ok(mut part) => {
                let ghost partv = part.deep_view();
                let ghost old_out = out.deep_view();
                out.append(&mut part);
                proof {
                    assert(out.deep_view() =~= old_out + partv);
                    match spec_sets_ids(sv.skip(i as int + 1)) {
                        Ok(rest) => {
                            assert(spec_sets_ids(tail) == Ok::<Seq<Seq<char>>, ShapeError>(
                                partv + rest,
                            ));
                            assert(old_out + (partv + rest) =~= out.deep_view() + rest);
                        },
                        Err(_) => {},
                    }
                }
            },
            Err(e) => {
                proof {
                    assert(spec_sets_ids(tail) == Err::<Seq<Seq<char>>, ShapeError>(e));
                }
                return Err(e);
            },
        }
        i = i + 1;
    }
    proof {
        assert(sv.skip(i as int).len() == 0);
        assert(out.deep_view() + Seq::<Seq<char>>::empty() =~= out.deep_view());
    }
    Ok(out)
}

/// Extracts every record identifier from a listing response: navigates
/// `response.resultSets[].results[]` and takes each record's `id`, else
/// `variantInternalId`, else `cohortId`. A response that deviates from
/// that shape, or a record with none of the three identifiers as a
/// string, is a `MalformedResponseShape` error naming the deviation;
/// missing identifiers are never silently skipped.
pub fn extract_ids(doc: &JsonValue) -> (r: Result<Vec<String>, VerifierError>)
    ensures
        match spec_extract_ids(doc@) {
            Ok(ids) => r matches Ok(v) && v.deep_view() == ids,
            Err(se) => r == Err::<Vec<String>, VerifierError>(
                VerifierError::MalformedResponseShape(se),
            ),
        },
{
    let fields = match doc {
        JsonValue::Object(fields) => fields,
        _ => {
            return Err(VerifierError::MalformedResponseShape(ShapeError::NotAnObject));
        },
    };
    let rfields = match obj_get(fields, "response") {
        Some(v) => match v {
            JsonValue::Object(rfields) => rfields,
            _ => {
                return Err(VerifierError::MalformedResponseShape(ShapeError::ResponseNotAnObject));
            },
        },
        None => {
            return Err(VerifierError::MalformedResponseShape(ShapeError::MissingResponse));
        },
    };
    let sets = match obj_get(rfields, "resultSets") {
        Some(v) => match v {
            JsonValue::Array(sets) => sets,
            _ => {
                return Err(
                    VerifierError::MalformedResponseShape(ShapeError::ResultSetsNotAnArray),
                );
            },
        },
        None => {
            return Err(VerifierError::MalformedResponseShape(ShapeError::MissingResultSets));
        },
    };
    match sets_ids(sets) {
        Ok(ids) => Ok(ids),
        Err(se) => Err(VerifierError::MalformedResponseShape(se)),
    }
}

/// Applies the lenient listing policy to a probe's outcome: a probe
/// failure is not fatal and yields no identifiers, while a successful
/// response must have the expected shape, exactly as `extract_ids`
/// demands.
pub fn ids_from_probe(probe: Result<JsonValue, VerifierError>) -> (r: Result<
    Vec<String>,
    VerifierError,
>)
    ensures
        probe matches Err(_) ==> r matches Ok(v) && v@.len() == 0,
        probe matches Ok(doc) ==> match spec_extract_ids(doc@) {
            Ok(ids) => r matches Ok(v) && v.deep_view() == ids,
            Err(se) => r == Err::<Vec<String>, VerifierError>(
                VerifierError::MalformedResponseShape(se),
            ),
        },
{
    match probe {
        Ok(doc) => extract_ids(&doc),
        Err(_) => Ok(Vec::new()),
    }
}

} // verus!
