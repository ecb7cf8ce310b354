//! The parameter resolver's decisions: which declared parameters take part
//! in a run, which take their value from the command line and which must be
//! prompted for, and how a prompted candidate is judged against the
//! parameter's schema. The prompting itself is interactive work and stays
//! with the caller; every decision around it is here.

use vstd::prelude::*;

use crate::dict::Dict;
use crate::dict::lookup;
use crate::error::ApixError;
use crate::json::Json;
use crate::json::JsonSpec;
use crate::json::jlookup;
use crate::json::jmodel;
use crate::json::json_clone;
use crate::json::json_obj_get;
use crate::json::json_reencode;
use crate::json::json_to_text;
use crate::json::jtext;
use crate::json::reencoded_json;
use crate::manifest::ApixParameter;
use crate::text::usize_to_string;

verus! {

#[verifier::external_type_specification]
#[verifier::external_body]
pub struct ExJSONSchema(jsonschema::JSONSchema);

/// The schema text a compiled schema was built from.
pub uninterp spec fn schema_source(s: jsonschema::JSONSchema) -> Seq<char>;

/// Whether the schema text compiles as a draft-7 schema: it parses as
/// JSON and jsonschema accepts it as a schema. With no reference
/// resolution configured this is a function of the text alone.
pub uninterp spec fn schema_compiles(s: Seq<char>) -> bool;

/// Whether draft-7 validation accepts the JSON value written as
/// `value_text` against the schema written as `schema_text`; false where
/// the value text is not valid JSON. With no reference resolution
/// configured this is a function of the two texts alone.
pub uninterp spec fn schema_accepts(schema_text: Seq<char>, value_text: Seq<char>) -> bool;

/// Relies on serde_json::from_str and jsonschema's
/// options().with_draft(Draft7).compile: whether the schema text compiles
/// depends on that text alone.
#[verifier::external_body]
fn compile_schema_text(schema_text: &str) -> (r: Result<jsonschema::JSONSchema, String>)
    ensures
        r is Ok <==> schema_compiles(schema_text@),
        r matches Ok(s) ==> schema_source(s) == schema_text@,
{
    let value: serde_json::Value = match serde_json::from_str(schema_text) {
        Ok(v) => v,
        Err(e) => return Err(format!("{:#}", e)),
    };
    match jsonschema::JSONSchema::options().with_draft(jsonschema::Draft::Draft7).compile(&value) {
        Ok(s) => Ok(s),
        Err(e) => Err(format!("{:#}", e)),
    }
}

/// Relies on jsonschema::JSONSchema::validate: the verdict depends on the
/// compiled schema and the value text alone (no references are resolved);
/// on rejection the individual violation messages come back.
#[verifier::external_body]
fn schema_validate(schema: &jsonschema::JSONSchema, value_text: &str) -> (r: Result<
    (),
    Vec<String>,
>)
    ensures
        r is Ok <==> schema_accepts(schema_source(*schema), value_text@),
{
    let value: serde_json::Value = match serde_json::from_str(value_text) {
        Ok(v) => v,
        Err(e) => return Err(vec![format!("{:#}", e)]),
    };
    let verdict = match schema.validate(&value) {
        Ok(()) => Ok(()),
        Err(errors) => Err(errors.map(|e| format!("{}", e)).collect()),
    };
    verdict
}

/// Where a resolved parameter's value comes from.
#[derive(Debug, PartialEq)]
pub enum ParamSource {
    /// The command line supplied this text; it is used verbatim as a
    /// string value, with no prompt and no schema validation.
    Cli(String),
    /// The value must be asked for interactively.
    Prompt,
}

/// One entry of the resolution plan: which declared parameter, and where
/// its value comes from.
#[derive(Debug, PartialEq)]
pub struct PlannedParam {
    pub index: usize,
    pub source: ParamSource,
}

/// Whether a parameter takes part in the run: with command-line values
/// present, every required or supplied parameter; without them, only the
/// required ones.
pub open spec fn spec_selected(p: ApixParameter, cli: Option<Dict>) -> bool {
    match cli {
        Option::Some(c) => p.required || lookup(c@, p.name@) is Some,
        Option::None => p.required,
    }
}

/// Where a selected parameter's value comes from: the command-line text
/// when supplied, else a prompt.
pub open spec fn spec_source(p: ApixParameter, cli: Option<Dict>) -> Option<Seq<char>> {
    match cli {
        Option::Some(c) => lookup(c@, p.name@),
        Option::None => Option::None,
    }
}

/// The model of a plan entry: the parameter's position and the supplied
/// text, if any.
pub open spec fn plan_model(p: PlannedParam) -> (int, Option<Seq<char>>) {
    (
        p.index as int,
        match p.source {
            ParamSource::Cli(s) => Option::Some(s@),
            ParamSource::Prompt => Option::None,
        },
    )
}

/// The plan over the first `n` parameters.
pub open spec fn spec_plan(params: Seq<ApixParameter>, cli: Option<Dict>, n: int) -> Seq<
    (int, Option<Seq<char>>),
>
    decreases n,
{
    if n <= 0 {
        Seq::empty()
    } else if spec_selected(params[n - 1], cli) {
        spec_plan(params, cli, n - 1).push((n - 1, spec_source(params[n - 1], cli)))
    } else {
        spec_plan(params, cli, n - 1)
    }
}

/// Decides, in declaration order, which parameters take part and where
/// each value comes from. A parameter that the command line supplies is
/// never prompted for; one that is neither required nor supplied is left
/// out entirely.
#[verifier::loop_isolation(false)]
pub fn resolution_plan(params: &Vec<ApixParameter>, cli: &Option<Dict>) -> (r: Vec<PlannedParam>)
    ensures
        r@.map_values(|p: PlannedParam| plan_model(p)) == spec_plan(
            params@,
            *cli,
            params@.len() as int,
        ),
{
    let n = params.len();
    let mut out: Vec<PlannedParam> = Vec::new();
    let mut i: usize = 0;
    proof {
        assert(out@.map_values(|p: PlannedParam| plan_model(p)) =~= spec_plan(params@, *cli, 0));
    }
    while i < n
        invariant
            n == params@.len(),
            0 <= i <= n,
            out@.map_values(|p: PlannedParam| plan_model(p)) == spec_plan(
                params@,
                *cli,
                i as int,
            ),
        decreases n - i,
    {
        let p = &params[i];
        let ghost pre = out@;
        match cli {
            Option::Some(c) => {
                match c.get(p.name.as_str()) {
                    Option::Some(v) => {
                        out.push(PlannedParam { index: i, source: ParamSource::Cli(v.clone()) });
                    },
                    Option::None => {
                        if p.required {
                            out.push(PlannedParam { index: i, source: ParamSource::Prompt });
                        }
                    },
                }
            },
            Option::None => {
                if p.required {
                    out.push(PlannedParam { index: i, source: ParamSource::Prompt });
                }
            },
        }
        proof {
            assert(out@.map_values(|p2: PlannedParam| plan_model(p2)) =~= spec_plan(
                params@,
                *cli,
                i + 1,
            ));
        }
        i = i + 1;
    }
    out
}

/// A parameter the command line supplies is resolved to exactly that text
/// and is never prompted for, required or not.
pub proof fn lemma_cli_value_never_prompted(
    params: Seq<ApixParameter>,
    cli: Dict,
    i: int,
    n: int,
)
    requires
        0 <= i < n <= params.len(),
        lookup(cli@, params[i].name@) is Some,
    ensures
        spec_plan(params, Option::Some(cli), n).contains(
            (i, lookup(cli@, params[i].name@)),
        ),
        forall|k: int|
            0 <= k < spec_plan(params, Option::Some(cli), n).len() && (#[trigger] spec_plan(
                params,
                Option::Some(cli),
                n,
            )[k]).0 == i ==> spec_plan(params, Option::Some(cli), n)[k].1 is Some,
    decreases n,
{
    let plan = spec_plan(params, Option::Some(cli), n);
    let prev = spec_plan(params, Option::Some(cli), n - 1);
    if i == n - 1 {
        assert(spec_selected(params[i], Option::Some(cli)));
        assert(plan.last() == (i, lookup(cli@, params[i].name@)));
        assert(plan.contains((i, lookup(cli@, params[i].name@))));
        lemma_plan_indices_below(params, Option::Some(cli), n - 1);
    } else {
        lemma_cli_value_never_prompted(params, cli, i, n - 1);
        let target = (i, lookup(cli@, params[i].name@));
        let k = choose|k: int| 0 <= k < prev.len() && prev[k] == target;
        if spec_selected(params[n - 1], Option::Some(cli)) {
            assert(plan[k] == target);
        }
        assert(plan.contains(target));
    }
}

/// Every plan entry over the first `n` parameters points below `n`.
pub proof fn lemma_plan_indices_below(params: Seq<ApixParameter>, cli: Option<Dict>, n: int)
    requires
        n <= params.len(),
    ensures
        forall|k: int|
            0 <= k < spec_plan(params, cli, n).len() ==> (#[trigger] spec_plan(
                params,
                cli,
                n,
            )[k]).0 < n,
    decreases n,
{
    if n > 0 {
        lemma_plan_indices_below(params, cli, n - 1);
        let prev = spec_plan(params, cli, n - 1);
        let cur = spec_plan(params, cli, n);
        assert forall|k: int| 0 <= k < cur.len() implies (#[trigger] cur[k]).0 < n by {
            if k < prev.len() {
                assert(cur[k] == prev[k]);
            }
        }
    }
}

/// The schema a parameter is validated against: its declared schema, or
/// the plain string schema.
pub open spec fn spec_effective_schema(p: ApixParameter) -> JsonSpec {
    match p.schema {
        Option::Some(s) => jmodel(s),
        Option::None => JsonSpec::Obj(seq![("type"@, JsonSpec::Str("string"@))]),
    }
}

/// The parameter's schema, with the plain string schema standing in where
/// none is declared.
pub fn effective_schema(p: &ApixParameter) -> (r: Json)
    ensures
        jmodel(r) == spec_effective_schema(*p),
{
    match &p.schema {
        Option::Some(s) => json_clone(s),
        Option::None => {
            let mut es: Vec<(String, Json)> = Vec::new();
            es.push((String::from_str("type"), Json::Str(String::from_str("string"))));
            proof {
                crate::json::lemma_jmodel_entries(es@);
                assert(crate::json::jmodel_entries(es@) =~= seq![
                    ("type"@, JsonSpec::Str("string"@)),
                ]);
            }
            Json::Obj(es)
        },
    }
}

/// Compiles a parameter's effective schema; it succeeds exactly when that
/// schema's text compiles, and failure is a parameter error.
pub fn compile_param_schema(p: &ApixParameter) -> (r: Result<jsonschema::JSONSchema, ApixError>)
    ensures
        r is Ok <==> schema_compiles(jtext(spec_effective_schema(*p))),
        r matches Ok(s) ==> schema_source(s) == jtext(spec_effective_schema(*p)),
        r matches Err(e) ==> e is Parameter,
{
    let schema = effective_schema(p);
    let text = json_to_text(&schema);
    match compile_schema_text(text.as_str()) {
        Ok(s) => Ok(s),
        Err(cause) => Err(ApixError::Parameter(cause)),
    }
}

/// The text that seeds a visible prompt: the serialized `default` member
/// of the parameter's schema, when the schema is an object that has one.
pub fn prompt_seed(p: &ApixParameter) -> (r: Option<String>)
    ensures
        r is Some <==> (spec_effective_schema(*p) matches JsonSpec::Obj(es) && jlookup(
            es,
            "default"@,
        ) is Some),
        r matches Some(s) ==> (spec_effective_schema(*p) matches JsonSpec::Obj(es) && jlookup(
            es,
            "default"@,
        ) matches Some(d) && s@ == jtext(d)),
{
    let schema = effective_schema(p);
    match json_obj_get(&schema, "default") {
        Option::Some(d) => Some(json_to_text(d)),
        Option::None => None,
    }
}

/// What an entered text stands for: the JSON value it spells, kept in its
/// canonical serialized form, or the text itself as a string value.
pub open spec fn candidate_model(s: Seq<char>) -> JsonSpec {
    match reencoded_json(s) {
        Option::Some(t) => JsonSpec::Raw(t),
        Option::None => JsonSpec::Str(s),
    }
}

/// Reads an entered text as JSON where possible, and as a literal string
/// otherwise; this fallback is deliberate and never fails.
pub fn input_to_value(input: &str) -> (r: Json)
    ensures
        jmodel(r) == candidate_model(input@),
{
    match json_reencode(input) {
        Option::Some(t) => Json::Raw(t),
        Option::None => Json::Str(input.to_owned()),
    }
}

/// Judges one prompted candidate: reads it as JSON or a literal string,
/// then validates it against the compiled schema. Accepted candidates come
/// back as the value to record; rejected ones as the message to show, the
/// violations listed one per line.
#[verifier::loop_isolation(false)]
pub fn check_candidate(schema: &jsonschema::JSONSchema, input: &str) -> (r: Result<Json, String>)
    ensures
        r is Ok <==> schema_accepts(schema_source(*schema), jtext(candidate_model(input@))),
        r matches Ok(v) ==> jmodel(v) == candidate_model(input@),
{
    let value = input_to_value(input);
    let text = json_to_text(&value);
    match schema_validate(schema, text.as_str()) {
        Ok(()) => Ok(value),
        Err(messages) => {
            let mut out = String::from_str("Invalid input:");
            let n = messages.len();
            let mut i: usize = 0;
            while i < n
                decreases n - i,
            {
                out.append("\ncause ");
                let num = usize_to_string(i);
                out.append(num.as_str());
                out.append(": ");
                out.append(messages[i].as_str());
                i = i + 1;
            }
            Err(out)
        },
    }
}

} // verus!
