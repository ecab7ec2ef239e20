use vstd::prelude::*;
use vstd::string::StringExecFns;

use crate::errors::VerifierError;
use crate::json::{serde_of_json, JsonValue, JsonView};

verus! {

/// Holds jsonschema's compiled validator. That type cannot be declared
/// to Verus here (its generic parameter carries one of jsonschema's own
/// trait bounds), so this one field is opaque: values of it are only
/// produced by compilation and consumed by validation.
#[verifier::external_body]
struct RawValidator {
    inner: jsonschema::Validator,
}

/// One schema violation: its machine-readable kind, its human-readable
/// message and the instance path locating the offending value.
#[derive(Debug, PartialEq, Eq)]
pub struct Violation {
    pub kind: String,
    pub message: String,
    pub instance_path: String,
}

/// The mathematical value of a `Violation`.
pub struct ViolationView {
    pub kind: Seq<char>,
    pub message: Seq<char>,
    pub instance_path: Seq<char>,
}

impl View for Violation {
    type V = ViolationView;

    open spec fn view(&self) -> ViolationView {
        ViolationView {
            kind: self.kind@,
            message: self.message@,
            instance_path: self.instance_path@,
        }
    }
}

/// Whether a schema document compiles. Compilation runs with retrieval
/// disabled, so this depends on the document alone: the standard
/// meta-schemas are bundled and resolve, while a reference to any other
/// remote or on-disk document fails to compile, always.
pub uninterp spec fn spec_schema_compiles(schema: JsonView) -> bool;

/// The violations that validating `instance` against the compiled form
/// of `schema` reports, in the order the validator reports them. Every
/// reference a compiled schema holds was resolved, without retrieval,
/// when it compiled, so this depends on the two documents alone.
pub uninterp spec fn spec_violations(schema: JsonView, instance: JsonView) -> Seq<ViolationView>;

/// A schema document compiled once and shared read-only by every
/// validation against it; it keeps the document it was compiled from
/// and is never changed afterwards.
pub struct CompiledSchema {
    compiled: RawValidator,
    source: JsonValue,
}

impl CompiledSchema {
    /// The schema document this compiled form was built from.
    pub closed spec fn schema_view(&self) -> JsonView {
        self.source@
    }
}

/// Relies on jsonschema's options().offline().build: with retrieval
/// switched off, every reference is answered from the bundled registry
/// or refused, so whether a document compiles depends on the document
/// alone.
#[verifier::external_body]
fn compile_raw(schema: &JsonValue) -> (r: Result<RawValidator, String>)
    ensures
        r is Ok <==> spec_schema_compiles(schema@),
{
    match jsonschema::options().offline().build(&serde_of_json(schema)) {
        Ok(v) => Ok(RawValidator { inner: v }),
        Err(e) => Err(e.to_string()),
    }
}

/// Relies on jsonschema::Validator::iter_errors: the validator was
/// built with retrieval switched off, so every reference it holds was
/// resolved at compile time and the violations, and their order, depend
/// on the schema document and the instance alone; each carries its kind
/// (in debug form), its message and its instance path. `CompiledSchema`
/// is only ever built by `compile_schema`, so its validator is the
/// compiled form of the document it carries.
#[verifier::external_body]
fn validate_raw(schema: &CompiledSchema, instance: &JsonValue) -> (r: Vec<Violation>)
    ensures
        r@.map_values(|v: Violation| v@) == spec_violations(schema.source@, instance@),
{
    let serde_instance = serde_of_json(instance);
    schema.compiled.inner.iter_errors(&serde_instance).map(|e| Violation {
        kind: format!("{:?}", e.kind()),
        message: e.to_string(),
        instance_path: e.instance_path().as_str().to_string(),
    }).collect()
}

/// Compiles a JSON Schema document, once, for any number of validations
/// against it. A document that does not compile is a recoverable
/// `SchemaCompileFailed` error carrying the compiler's message.
///
/// Compilation resolves references offline: the standard meta-schemas
/// are bundled, so a `$schema` naming a draft still resolves, but a
/// reference to any other external document is refused — deterministic
/// outcomes are kept in preference to fetching schemas over the
/// network.
pub fn compile_schema(schema: JsonValue) -> (r: Result<CompiledSchema, VerifierError>)
    ensures
        r matches Ok(c) ==> c.schema_view() == schema@ && spec_schema_compiles(schema@),
        r is Err <==> !spec_schema_compiles(schema@),
        r matches Err(e) ==> e matches VerifierError::SchemaCompileFailed(_),
{
    match compile_raw(&schema) {
        Ok(v) => Ok(CompiledSchema { compiled: v, source: schema }),
        Err(m) => Err(VerifierError::SchemaCompileFailed(m)),
    }
}

/// One violation's line in the report: `kind - message (instance_path)`
/// and a line break.
pub open spec fn spec_render_violation(v: ViolationView) -> Seq<char> {
    v.kind + " - "@ + v.message + " ("@ + v.instance_path + ")"@ + "\n"@
}

/// The violation report: every violation's line, in order.
pub open spec fn spec_report(vs: Seq<ViolationView>) -> Seq<char>
    decreases vs.len(),
{
    if vs.len() == 0 {
        Seq::<char>::empty()
    } else {
        spec_render_violation(vs[0]) + spec_report(vs.skip(1))
    }
}

fn render_report(violations: &Vec<Violation>) -> (r: String)
    ensures
        r@ == spec_report(violations@.map_values(|v: Violation| v@)),
{
    let ghost vsv = violations@.map_values(|v: Violation| v@);
    let mut out = String::new();
    let mut i: usize = 0;
    proof {
        assert(vsv.skip(0) =~= vsv);
        assert(out@ + spec_report(vsv) =~= spec_report(vsv));
    }
    while i < violations.len()
        invariant
            i <= violations.len(),
            vsv == violations@.map_values(|v: Violation| v@),
            vsv.len() == violations.len(),
            spec_report(vsv) == out@ + spec_report(vsv.skip(i as int)),
        decreases violations.len() - i,
    {
        out.append(violations[i].kind.as_str());
        out.append(" - ");
        out.append(violations[i].message.as_str());
        out.append(" (");
        out.append(violations[i].instance_path.as_str());
        out.append(")");
        out.append("\n");
        proof {
            let tail = vsv.skip(i as int);
            assert(tail[0] == vsv[i as int]);
            assert(vsv[i as int] == violations@[i as int]@);
            assert(tail.skip(1) =~= vsv.skip(i as int + 1));
        }
        i = i + 1;
    }
    proof {
        assert(vsv.skip(i as int).len() == 0);
        assert(out@ + Seq::<char>::empty() =~= out@);
    }
    out
}

/// The outcome validation owes: the instance itself where the schema
/// yields no violation, else the full report.
pub open spec fn spec_validate_outcome(schema: JsonView, instance: JsonView) -> Result<
    JsonView,
    Seq<char>,
> {
    if spec_violations(schema, instance).len() == 0 {
        Ok(instance)
    } else {
        Err(spec_report(spec_violations(schema, instance)))
    }
}

/// Validates a JSON instance against a compiled schema: a conforming
/// instance comes back unchanged; a violating one is a `BadResponse`
/// error whose report renders every violation, not only the first, as
/// `kind - message (instance_path)`, one per line. Neither the instance
/// nor the schema is changed.
pub fn valid_schema(json_schema: &CompiledSchema, instance: &JsonValue) -> (r: Result<
    JsonValue,
    VerifierError,
>)
    ensures
        match spec_validate_outcome(json_schema.schema_view(), instance@) {
            Ok(v) => r matches Ok(j) && j@ == v,
            Err(m) => r matches Err(e) && e matches VerifierError::BadResponse(msg) && msg@ == m,
        },
{
    let violations = validate_raw(json_schema, instance);
    if violations.len() == 0 {
        proof {
            assert(violations@.map_values(|v: Violation| v@).len() == 0);
        }
        Ok(instance.clone())
    } else {
        proof {
            assert(violations@.map_values(|v: Violation| v@).len() == violations@.len());
        }
        let report = render_report(&violations);
        Err(VerifierError::BadResponse(report))
    }
}

/// Determinism of validation: two compiled forms of one schema document
/// give every instance the same outcome, since the outcome depends only
/// on the schema document and the instance.
pub proof fn lemma_validation_deterministic(
    c1: &CompiledSchema,
    c2: &CompiledSchema,
    instance: JsonView,
)
    requires
        c1.schema_view() == c2.schema_view(),
    ensures
        spec_validate_outcome(c1.schema_view(), instance) == spec_validate_outcome(
            c2.schema_view(),
            instance,
        ),
{
}

} // verus!
