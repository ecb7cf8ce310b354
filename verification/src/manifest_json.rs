//! The JSON shape of a manifest, as the template context sees it under the
//! `manifest` key: the versioned envelope with its metadata and one kind
//! payload, optional and empty fields omitted exactly as the manifest
//! serialization does.

use vstd::prelude::*;

use crate::dict::Dict;
use crate::json::Json;
use crate::json::JsonSpec;
use crate::json::jmodel;
use crate::json::jmodel_entries;
use crate::json::jmodel_seq;
use crate::json::json_clone;
use crate::json::clone_entries;
use crate::json::lemma_jmodel_entries_push;
use crate::json::lemma_jmodel_seq_push;
use crate::manifest::ApixConfiguration;
use crate::manifest::ApixKind;
use crate::manifest::ApixManifest;
use crate::manifest::ApixMetadata;
use crate::manifest::ApixParameter;
use crate::manifest::ApixRequest;
use crate::manifest::ApixRequestTemplate;
use crate::manifest::ApixStep;
use crate::manifest::ApixStories;
use crate::manifest::ApixStory;

verus! {

/// String map entries as JSON object entries.
pub open spec fn dict_entries_json(es: Seq<(Seq<char>, Seq<char>)>) -> Seq<(Seq<char>, JsonSpec)> {
    es.map_values(|e: (Seq<char>, Seq<char>)| (e.0, JsonSpec::Str(e.1)))
}

/// A string map as a JSON object.
pub open spec fn dict_json(es: Seq<(Seq<char>, Seq<char>)>) -> JsonSpec {
    JsonSpec::Obj(dict_entries_json(es))
}

/// An optional text: the string, or null.
pub open spec fn opt_str_json(o: Option<String>) -> JsonSpec {
    match o {
        Option::Some(s) => JsonSpec::Str(s@),
        Option::None => JsonSpec::Null,
    }
}

/// An API payload as JSON.
pub open spec fn api_json(a: crate::manifest::ApixApi) -> JsonSpec {
    JsonSpec::Obj(
        seq![
            ("url"@, JsonSpec::Str(a.url@)),
            ("version"@, JsonSpec::Str(a.version@)),
            ("description"@, opt_str_json(a.description)),
        ],
    )
}

/// A parameter as JSON; the schema appears only when declared.
pub open spec fn param_json(p: ApixParameter) -> JsonSpec {
    let base = seq![
        ("name"@, JsonSpec::Str(p.name@)),
        ("required"@, JsonSpec::Bool(p.required)),
        ("password"@, JsonSpec::Bool(p.password)),
        ("description"@, opt_str_json(p.description)),
    ];
    JsonSpec::Obj(
        match p.schema {
            Option::Some(s) => base.push(("schema"@, jmodel(s))),
            Option::None => base,
        },
    )
}

/// The parameters' JSON values, in declaration order.
pub open spec fn params_json(ps: Seq<ApixParameter>) -> Seq<JsonSpec> {
    ps.map_values(|p: ApixParameter| param_json(p))
}

/// A request template as JSON; empty header and query maps and a missing
/// body are omitted.
pub open spec fn template_json(t: ApixRequestTemplate) -> JsonSpec {
    let base = seq![("method"@, JsonSpec::Str(t.method@)), ("url"@, JsonSpec::Str(t.url@))];
    let with_h = if t.headers@.len() == 0 {
        base
    } else {
        base.push(("headers"@, dict_json(t.headers@)))
    };
    let with_q = if t.queries@.len() == 0 {
        with_h
    } else {
        with_h.push(("queries"@, dict_json(t.queries@)))
    };
    JsonSpec::Obj(
        match t.body {
            Option::Some(b) => with_q.push(("body"@, jmodel(b))),
            Option::None => with_q,
        },
    )
}

/// A request payload as JSON; empty parameter lists and context maps are
/// omitted.
pub open spec fn request_json(r: ApixRequest) -> JsonSpec {
    let base = Seq::<(Seq<char>, JsonSpec)>::empty();
    let p = if r.parameters@.len() == 0 {
        base
    } else {
        base.push(("parameters"@, JsonSpec::Arr(params_json(r.parameters@))))
    };
    let c = if r.context@.len() == 0 {
        p
    } else {
        p.push(("context"@, JsonSpec::Obj(jmodel_entries(r.context@))))
    };
    JsonSpec::Obj(c.push(("request"@, template_json(r.request))))
}

/// A story step as JSON.
pub open spec fn step_json(s: ApixStep) -> JsonSpec {
    let base = seq![("name"@, JsonSpec::Str(s.name@))];
    let d = match s.description {
        Option::Some(x) => base.push(("description"@, JsonSpec::Str(x@))),
        Option::None => base,
    };
    let c = if s.context@.len() == 0 {
        d
    } else {
        d.push(("context"@, dict_json(s.context@)))
    };
    let i = match s.condition {
        Option::Some(x) => c.push(("if"@, JsonSpec::Str(x@))),
        Option::None => c,
    };
    JsonSpec::Obj(i.push(("request"@, template_json(s.request))))
}

/// The steps' JSON values, in order.
pub open spec fn steps_json(ss: Seq<ApixStep>) -> Seq<JsonSpec> {
    ss.map_values(|s: ApixStep| step_json(s))
}

/// A story's named environments as JSON object entries.
pub open spec fn story_env_json(es: Seq<(String, Vec<(String, Json)>)>) -> Seq<
    (Seq<char>, JsonSpec),
> {
    es.map_values(|e: (String, Vec<(String, Json)>)| (e.0@, JsonSpec::Obj(jmodel_entries(e.1@))))
}

/// A story as JSON.
pub open spec fn story_json(s: ApixStory) -> JsonSpec {
    let base = seq![("name"@, JsonSpec::Str(s.name@))];
    let n = match s.needs {
        Option::Some(x) => base.push(("needs"@, JsonSpec::Str(x@))),
        Option::None => base,
    };
    let d = match s.description {
        Option::Some(x) => n.push(("description"@, JsonSpec::Str(x@))),
        Option::None => n,
    };
    let c = if s.context@.len() == 0 {
        d
    } else {
        d.push(("context"@, JsonSpec::Obj(story_env_json(s.context@))))
    };
    JsonSpec::Obj(c.push(("steps"@, JsonSpec::Arr(steps_json(s.steps@)))))
}

/// The stories' JSON values, in order.
pub open spec fn stories_seq_json(ss: Seq<ApixStory>) -> Seq<JsonSpec> {
    ss.map_values(|s: ApixStory| story_json(s))
}

/// A stories payload as JSON; an empty parameter list is omitted.
pub open spec fn stories_json(s: ApixStories) -> JsonSpec {
    let base = Seq::<(Seq<char>, JsonSpec)>::empty();
    let p = if s.parameters@.len() == 0 {
        base
    } else {
        base.push(("parameters"@, JsonSpec::Arr(params_json(s.parameters@))))
    };
    JsonSpec::Obj(p.push(("stories"@, JsonSpec::Arr(stories_seq_json(s.stories@)))))
}

/// A configuration payload as JSON.
pub open spec fn config_json(c: ApixConfiguration) -> JsonSpec {
    dict_json(c.index@)
}

/// The tagged kind entries: the kind's name, then its payload under `spec`
/// (the empty kind has no payload).
pub open spec fn kind_entries(k: ApixKind) -> Seq<(Seq<char>, JsonSpec)> {
    match k {
        ApixKind::Api(a) => seq![
            ("kind"@, JsonSpec::Str("Api"@)),
            ("spec"@, api_json(a)),
        ],
        ApixKind::Configuration(c) => seq![
            ("kind"@, JsonSpec::Str("Configuration"@)),
            ("spec"@, config_json(c)),
        ],
        ApixKind::Request(r) => seq![
            ("kind"@, JsonSpec::Str("Request"@)),
            ("spec"@, request_json(r)),
        ],
        ApixKind::Story(s) => seq![
            ("kind"@, JsonSpec::Str("Story"@)),
            ("spec"@, stories_json(s)),
        ],
        ApixKind::Empty => seq![("kind"@, JsonSpec::Str("None"@))],
    }
}

/// Metadata as JSON object entries: the name, the label and annotation maps
/// when non-empty, then the extensions flattened in.
pub open spec fn metadata_entries(m: ApixMetadata) -> Seq<(Seq<char>, JsonSpec)> {
    let base = seq![("name"@, JsonSpec::Str(m.name@))];
    let l = if m.labels@.len() == 0 {
        base
    } else {
        base.push(("labels"@, dict_json(m.labels@)))
    };
    let a = if m.annotations@.len() == 0 {
        l
    } else {
        l.push(("annotations"@, dict_json(m.annotations@)))
    };
    a + dict_entries_json(m.extensions@)
}

/// The whole manifest as JSON: the version tag, the metadata, and the kind
/// entries.
pub open spec fn manifest_json(m: ApixManifest) -> JsonSpec {
    match m {
        ApixManifest::V1(v) => JsonSpec::Obj(
            seq![
                ("apiVersion"@, JsonSpec::Str("apix.io/v1"@)),
                ("metadata"@, JsonSpec::Obj(metadata_entries(v.metadata))),
            ] + kind_entries(v.kind),
        ),
        ApixManifest::Empty => JsonSpec::Obj(seq![("apiVersion"@, JsonSpec::Str("None"@))]),
    }
}

/// Appends one object entry, tracking the entry models.
fn push_entry(es: &mut Vec<(String, Json)>, k: String, v: Json)
    ensures
        jmodel_entries(final(es)@) == jmodel_entries(old(es)@).push((k@, jmodel(v))),
{
    let ghost pre = es@;
    let ghost pair = (k, v);
    es.push((k, v));
    proof {
        lemma_jmodel_entries_push(pre, pair);
    }
}

/// Appends one array element, tracking the element models.
fn push_value(es: &mut Vec<Json>, v: Json)
    ensures
        jmodel_seq(final(es)@) == jmodel_seq(old(es)@).push(jmodel(v)),
{
    let ghost pre = es@;
    let ghost gv = v;
    es.push(v);
    proof {
        lemma_jmodel_seq_push(pre, gv);
    }
}

/// A fresh, empty entry list.
fn new_entries() -> (r: Vec<(String, Json)>)
    ensures
        jmodel_entries(r@) == Seq::<(Seq<char>, JsonSpec)>::empty(),
        r@.len() == 0,
{
    let r: Vec<(String, Json)> = Vec::new();
    proof {
        assert(jmodel_entries(r@) =~= Seq::<(Seq<char>, JsonSpec)>::empty());
    }
    r
}

/// A string map as JSON object entries.
#[verifier::loop_isolation(false)]
fn dict_to_entries(d: &Dict) -> (r: Vec<(String, Json)>)
    ensures
        jmodel_entries(r@) == dict_entries_json(d@),
{
    let n = d.len();
    let mut out = new_entries();
    let mut i: usize = 0;
    proof {
        assert(jmodel_entries(out@) =~= dict_entries_json(d@.subrange(0, 0)));
    }
    while i < n
        invariant
            n == d@.len(),
            0 <= i <= n,
            jmodel_entries(out@) == dict_entries_json(d@.subrange(0, i as int)),
        decreases n - i,
    {
        push_entry(&mut out, d.key_at(i).clone(), Json::Str(d.val_at(i).clone()));
        proof {
            assert(jmodel_entries(out@) =~= dict_entries_json(d@.subrange(0, i + 1)));
        }
        i = i + 1;
    }
    proof {
        assert(d@.subrange(0, n as int) =~= d@);
    }
    out
}

/// A string map as a JSON object value.
pub fn dict_to_json(d: &Dict) -> (r: Json)
    ensures
        jmodel(r) == dict_json(d@),
{
    Json::Obj(dict_to_entries(d))
}

/// An optional text as JSON: the string, or null.
fn opt_string_to_json(o: &Option<String>) -> (r: Json)
    ensures
        jmodel(r) == opt_str_json(*o),
{
    match o {
        Option::Some(s) => Json::Str(s.clone()),
        Option::None => Json::Null,
    }
}

/// An API payload as a JSON value.
pub fn api_to_json(a: &crate::manifest::ApixApi) -> (r: Json)
    ensures
        jmodel(r) == api_json(*a),
{
    let mut es = new_entries();
    push_entry(&mut es, String::from_str("url"), Json::Str(a.url.clone()));
    push_entry(&mut es, String::from_str("version"), Json::Str(a.version.clone()));
    push_entry(&mut es, String::from_str("description"), opt_string_to_json(&a.description));
    let r = Json::Obj(es);
    proof {
        assert(jmodel(r)->Obj_0 =~= api_json(*a)->Obj_0);
                assert(jmodel(r) =~~= api_json(*a));
    }
    r
}

/// A parameter as a JSON value.
pub fn param_to_json(p: &ApixParameter) -> (r: Json)
    ensures
        jmodel(r) == param_json(*p),
{
    let mut es = new_entries();
    push_entry(&mut es, String::from_str("name"), Json::Str(p.name.clone()));
    push_entry(&mut es, String::from_str("required"), Json::Bool(p.required));
    push_entry(&mut es, String::from_str("password"), Json::Bool(p.password));
    push_entry(&mut es, String::from_str("description"), opt_string_to_json(&p.description));
    match &p.schema {
        Option::Some(s) => {
            push_entry(&mut es, String::from_str("schema"), json_clone(s));
        },
        Option::None => {},
    }
    let r = Json::Obj(es);
    proof {
        assert(jmodel(r)->Obj_0 =~= param_json(*p)->Obj_0);
                assert(jmodel(r) =~~= param_json(*p));
    }
    r
}

/// The parameters as JSON values, in declaration order.
#[verifier::loop_isolation(false)]
fn params_to_values(ps: &Vec<ApixParameter>) -> (r: Vec<Json>)
    ensures
        jmodel_seq(r@) == params_json(ps@),
{
    let n = ps.len();
    let mut out: Vec<Json> = Vec::new();
    let mut i: usize = 0;
    proof {
        assert(jmodel_seq(out@) =~= params_json(ps@.subrange(0, 0)));
    }
    while i < n
        invariant
            n == ps@.len(),
            0 <= i <= n,
            jmodel_seq(out@) == params_json(ps@.subrange(0, i as int)),
        decreases n - i,
    {
        push_value(&mut out, param_to_json(&ps[i]));
        proof {
            assert(jmodel_seq(out@) =~= params_json(ps@.subrange(0, i + 1)));
        }
        i = i + 1;
    }
    proof {
        assert(ps@.subrange(0, n as int) =~= ps@);
    }
    out
}

/// A request template as a JSON value.
pub fn template_to_json(t: &ApixRequestTemplate) -> (r: Json)
    ensures
        jmodel(r) == template_json(*t),
{
    let mut es = new_entries();
    push_entry(&mut es, String::from_str("method"), Json::Str(t.method.clone()));
    push_entry(&mut es, String::from_str("url"), Json::Str(t.url.clone()));
    if !t.headers.is_empty() {
        push_entry(&mut es, String::from_str("headers"), dict_to_json(&t.headers));
    }
    if !t.queries.is_empty() {
        push_entry(&mut es, String::from_str("queries"), dict_to_json(&t.queries));
    }
    match &t.body {
        Option::Some(b) => {
            push_entry(&mut es, String::from_str("body"), json_clone(b));
        },
        Option::None => {},
    }
    let r = Json::Obj(es);
    proof {
        assert(jmodel(r)->Obj_0 =~= template_json(*t)->Obj_0);
                assert(jmodel(r) =~~= template_json(*t));
    }
    r
}

/// A request payload as a JSON value.
pub fn request_to_json(q: &ApixRequest) -> (r: Json)
    ensures
        jmodel(r) == request_json(*q),
{
    let mut es = new_entries();
    if q.parameters.len() > 0 {
        push_entry(&mut es, String::from_str("parameters"), Json::Arr(params_to_values(&q.parameters)));
    }
    if q.context.len() > 0 {
        push_entry(&mut es, String::from_str("context"), Json::Obj(clone_entries(&q.context)));
    }
    push_entry(&mut es, String::from_str("request"), template_to_json(&q.request));
    let r = Json::Obj(es);
    proof {
        assert(jmodel(r)->Obj_0 =~= request_json(*q)->Obj_0);
                assert(jmodel(r) =~~= request_json(*q));
    }
    r
}

/// A story step as a JSON value.
fn step_to_json(s: &ApixStep) -> (r: Json)
    ensures
        jmodel(r) == step_json(*s),
{
    let mut es = new_entries();
    push_entry(&mut es, String::from_str("name"), Json::Str(s.name.clone()));
    match &s.description {
        Option::Some(x) => {
            push_entry(&mut es, String::from_str("description"), Json::Str(x.clone()));
        },
        Option::None => {},
    }
    if !s.context.is_empty() {
        push_entry(&mut es, String::from_str("context"), dict_to_json(&s.context));
    }
    match &s.condition {
        Option::Some(x) => {
            push_entry(&mut es, String::from_str("if"), Json::Str(x.clone()));
        },
        Option::None => {},
    }
    push_entry(&mut es, String::from_str("request"), template_to_json(&s.request));
    let r = Json::Obj(es);
    proof {
        assert(jmodel(r)->Obj_0 =~= step_json(*s)->Obj_0);
                assert(jmodel(r) =~~= step_json(*s));
    }
    r
}

/// A story as a JSON value.
#[verifier::loop_isolation(false)]
fn story_to_json(s: &ApixStory) -> (r: Json)
    ensures
        jmodel(r) == story_json(*s),
{
    let mut es = new_entries();
    push_entry(&mut es, String::from_str("name"), Json::Str(s.name.clone()));
    match &s.needs {
        Option::Some(x) => {
            push_entry(&mut es, String::from_str("needs"), Json::Str(x.clone()));
        },
        Option::None => {},
    }
    match &s.description {
        Option::Some(x) => {
            push_entry(&mut es, String::from_str("description"), Json::Str(x.clone()));
        },
        Option::None => {},
    }
    if s.context.len() > 0 {
        let n = s.context.len();
        let mut env = new_entries();
        let mut i: usize = 0;
        proof {
            assert(jmodel_entries(env@) =~= story_env_json(s.context@.subrange(0, 0)));
        }
        while i < n
            invariant
                n == s.context@.len(),
                0 <= i <= n,
                jmodel_entries(env@) == story_env_json(s.context@.subrange(0, i as int)),
            decreases n - i,
        {
            let pair = &s.context[i];
            push_entry(&mut env, pair.0.clone(), Json::Obj(clone_entries(&pair.1)));
            proof {
                assert(jmodel_entries(env@) =~= story_env_json(s.context@.subrange(0, i + 1)));
            }
            i = i + 1;
        }
        proof {
            assert(s.context@.subrange(0, n as int) =~= s.context@);
        }
        push_entry(&mut es, String::from_str("context"), Json::Obj(env));
    }
    let n2 = s.steps.len();
    let mut steps: Vec<Json> = Vec::new();
    let mut i2: usize = 0;
    proof {
        assert(jmodel_seq(steps@) =~= steps_json(s.steps@.subrange(0, 0)));
    }
    while i2 < n2
        invariant
            n2 == s.steps@.len(),
            0 <= i2 <= n2,
            jmodel_seq(steps@) == steps_json(s.steps@.subrange(0, i2 as int)),
        decreases n2 - i2,
    {
        push_value(&mut steps, step_to_json(&s.steps[i2]));
        proof {
            assert(jmodel_seq(steps@) =~= steps_json(s.steps@.subrange(0, i2 + 1)));
        }
        i2 = i2 + 1;
    }
    proof {
        assert(s.steps@.subrange(0, n2 as int) =~= s.steps@);
    }
    push_entry(&mut es, String::from_str("steps"), Json::Arr(steps));
    let r = Json::Obj(es);
    proof {
        assert(jmodel(r)->Obj_0 =~= story_json(*s)->Obj_0);
                assert(jmodel(r) =~~= story_json(*s));
    }
    r
}

/// A stories payload as a JSON value.
#[verifier::loop_isolation(false)]
pub fn stories_to_json(s: &ApixStories) -> (r: Json)
    ensures
        jmodel(r) == stories_json(*s),
{
    let mut es = new_entries();
    if s.parameters.len() > 0 {
        push_entry(&mut es, String::from_str("parameters"), Json::Arr(params_to_values(&s.parameters)));
    }
    let n = s.stories.len();
    let mut stories: Vec<Json> = Vec::new();
    let mut i: usize = 0;
    proof {
        assert(jmodel_seq(stories@) =~= stories_seq_json(s.stories@.subrange(0, 0)));
    }
    while i < n
        invariant
            n == s.stories@.len(),
            0 <= i <= n,
            jmodel_seq(stories@) == stories_seq_json(s.stories@.subrange(0, i as int)),
        decreases n - i,
    {
        push_value(&mut stories, story_to_json(&s.stories[i]));
        proof {
            assert(jmodel_seq(stories@) =~= stories_seq_json(s.stories@.subrange(0, i + 1)));
        }
        i = i + 1;
    }
    proof {
        assert(s.stories@.subrange(0, n as int) =~= s.stories@);
    }
    push_entry(&mut es, String::from_str("stories"), Json::Arr(stories));
    let r = Json::Obj(es);
    proof {
        assert(jmodel(r)->Obj_0 =~= stories_json(*s)->Obj_0);
                assert(jmodel(r) =~~= stories_json(*s));
    }
    r
}

/// The whole manifest as a JSON value, exactly the shape the serialized
/// manifest has; this is what template expressions see under `manifest`.
pub fn manifest_to_json(m: &ApixManifest) -> (r: Json)
    ensures
        jmodel(r) == manifest_json(*m),
{
    match m {
        ApixManifest::Empty => {
            let mut es = new_entries();
            push_entry(&mut es, String::from_str("apiVersion"), Json::Str(String::from_str("None")));
            let r = Json::Obj(es);
            proof {
                assert(jmodel(r)->Obj_0 =~= manifest_json(*m)->Obj_0);
                assert(jmodel(r) =~~= manifest_json(*m));
            }
            r
        },
        ApixManifest::V1(v) => {
            let mut md = new_entries();
            push_entry(&mut md, String::from_str("name"), Json::Str(v.metadata.name.clone()));
            if !v.metadata.labels.is_empty() {
                push_entry(&mut md, String::from_str("labels"), dict_to_json(&v.metadata.labels));
            }
            if !v.metadata.annotations.is_empty() {
                push_entry(
                    &mut md,
                    String::from_str("annotations"),
                    dict_to_json(&v.metadata.annotations),
                );
            }
            let ghost md_pre = jmodel_entries(md@);
            let n = v.metadata.extensions.len();
            let mut i: usize = 0;
            proof {
                assert(v.metadata.extensions@.subrange(0, 0) =~= Seq::<
                    (Seq<char>, Seq<char>),
                >::empty());
                assert(jmodel_entries(md@) =~= md_pre + dict_entries_json(
                    v.metadata.extensions@.subrange(0, 0),
                ));
            }
            while i < n
                invariant
                    n == v.metadata.extensions@.len(),
                    0 <= i <= n,
                    jmodel_entries(md@) == md_pre + dict_entries_json(
                        v.metadata.extensions@.subrange(0, i as int),
                    ),
                decreases n - i,
            {
                push_entry(
                    &mut md,
                    v.metadata.extensions.key_at(i).clone(),
                    Json::Str(v.metadata.extensions.val_at(i).clone()),
                );
                proof {
                    assert(jmodel_entries(md@) =~= md_pre + dict_entries_json(
                        v.metadata.extensions@.subrange(0, i + 1),
                    ));
                }
                i = i + 1;
            }
            proof {
                assert(v.metadata.extensions@.subrange(0, n as int) =~= v.metadata.extensions@);
                assert(jmodel_entries(md@) =~= metadata_entries(v.metadata));
            }
            let mut es = new_entries();
            push_entry(
                &mut es,
                String::from_str("apiVersion"),
                Json::Str(String::from_str("apix.io/v1")),
            );
            push_entry(&mut es, String::from_str("metadata"), Json::Obj(md));
            match &v.kind {
                ApixKind::Api(a) => {
                    push_entry(&mut es, String::from_str("kind"), Json::Str(String::from_str("Api")));
                    push_entry(&mut es, String::from_str("spec"), api_to_json(a));
                },
                ApixKind::Configuration(c) => {
                    push_entry(
                        &mut es,
                        String::from_str("kind"),
                        Json::Str(String::from_str("Configuration")),
                    );
                    push_entry(&mut es, String::from_str("spec"), dict_to_json(&c.index));
                },
                ApixKind::Request(q) => {
                    push_entry(
                        &mut es,
                        String::from_str("kind"),
                        Json::Str(String::from_str("Request")),
                    );
                    push_entry(&mut es, String::from_str("spec"), request_to_json(q));
                },
                ApixKind::Story(st) => {
                    push_entry(
                        &mut es,
                        String::from_str("kind"),
                        Json::Str(String::from_str("Story")),
                    );
                    push_entry(&mut es, String::from_str("spec"), stories_to_json(st));
                },
                ApixKind::Empty => {
                    push_entry(&mut es, String::from_str("kind"), Json::Str(String::from_str("None")));
                },
            }
            let r = Json::Obj(es);
            proof {
                assert(jmodel(r)->Obj_0 =~= manifest_json(*m)->Obj_0);
                assert(jmodel(r) =~~= manifest_json(*m));
            }
            r
        },
    }
}

} // verus!
