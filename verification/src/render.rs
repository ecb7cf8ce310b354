//! The request template renderer: assembles the layered template context
//! (manifest, resolved parameters, environment, then the rendered local
//! context), renders the manifest's annotations and every templated
//! request field in a fixed order, derives the effective options with the
//! command line winning over annotations, and decides the body among its
//! four mutually exclusive cases.

use vstd::prelude::*;

use crate::dict::Dict;
use crate::dict::key_seq;
use crate::dict::lookup;
use crate::error::ApixError;
use crate::http::AdvancedBody;
use crate::http::RequestOptions;
use crate::json::Json;
use crate::json::JsonSpec;
use crate::json::clone_entries;
use crate::json::jmodel;
use crate::json::jmodel_entries;
use crate::json::jtext;
use crate::json::lemma_jmodel_entries_push;
use crate::manifest::ApixKind;
use crate::manifest::ApixManifest;
use crate::manifest::ApixMetadata;
use crate::manifest::ApixRequest;
use crate::manifest_json::dict_json;
use crate::manifest_json::manifest_json;
use crate::manifest_json::manifest_to_json;
use crate::template::context_built;
use crate::params::candidate_model;
use crate::params::input_to_value;
use crate::template::Engine;
use crate::template::make_context;
use crate::template::renders_to;
use crate::text::has_markers;

verus! {

/// A fully rendered request, ready for the execution engine.
#[derive(Debug)]
pub struct RequestParams {
    pub url: String,
    pub method: String,
    pub headers: Dict,
    pub queries: Dict,
    pub body: Option<AdvancedBody>,
    pub options: RequestOptions,
}

/// The request payload of a manifest; anything else is the wrong kind of
/// manifest to execute.
pub fn expect_request(manifest: &ApixManifest) -> (r: Result<&ApixRequest, ApixError>)
    ensures
        r is Ok <==> (*manifest matches ApixManifest::V1(m) && m.kind is Request),
        r matches Ok(q) ==> (*manifest matches ApixManifest::V1(m) && m.kind == ApixKind::Request(
            *q,
        )),
        r matches Err(e) ==> e is Manifest,
{
    match manifest {
        ApixManifest::V1(m) => {
            match &m.kind {
                ApixKind::Request(q) => Ok(q),
                _ => Err(ApixError::Manifest(String::from_str("Request manifest expected"))),
            }
        },
        ApixManifest::Empty => Err(
            ApixError::Manifest(String::from_str("Request manifest expected")),
        ),
    }
}

/// The effective options: a field the command line set is kept; one it
/// left empty falls back to the corresponding annotation.
pub fn apply_annotation_options(options: RequestOptions, annotations: &Dict) -> (r: RequestOptions)
    ensures
        r.verbose == options.verbose,
        r.theme == options.theme,
        r.is_output_terminal == options.is_output_terminal,
        options.output_filename is Some ==> r.output_filename == options.output_filename,
        options.output_filename is None ==> ((r.output_filename is Some <==> lookup(
            annotations@,
            "apix.io/output-file"@,
        ) is Some) && (r.output_filename matches Some(s) ==> lookup(
            annotations@,
            "apix.io/output-file"@,
        ) == Some(s@))),
        options.proxy_url is Some ==> r.proxy_url == options.proxy_url,
        options.proxy_url is None ==> ((r.proxy_url is Some <==> lookup(
            annotations@,
            "apix.io/proxy-url"@,
        ) is Some) && (r.proxy_url matches Some(s) ==> lookup(annotations@, "apix.io/proxy-url"@)
            == Some(s@))),
        options.proxy_login is Some ==> r.proxy_login == options.proxy_login,
        options.proxy_login is None ==> ((r.proxy_login is Some <==> lookup(
            annotations@,
            "apix.io/proxy-login"@,
        ) is Some) && (r.proxy_login matches Some(s) ==> lookup(
            annotations@,
            "apix.io/proxy-login"@,
        ) == Some(s@))),
        options.proxy_password is Some ==> r.proxy_password == options.proxy_password,
        options.proxy_password is None ==> ((r.proxy_password is Some <==> lookup(
            annotations@,
            "apix.io/proxy-password"@,
        ) is Some) && (r.proxy_password matches Some(s) ==> lookup(
            annotations@,
            "apix.io/proxy-password"@,
        ) == Some(s@))),
{
    let output_filename = or_annotation(options.output_filename, annotations, "apix.io/output-file");
    let proxy_url = or_annotation(options.proxy_url, annotations, "apix.io/proxy-url");
    let proxy_login = or_annotation(options.proxy_login, annotations, "apix.io/proxy-login");
    let proxy_password = or_annotation(options.proxy_password, annotations, "apix.io/proxy-password");
    RequestOptions {
        verbose: options.verbose,
        theme: options.theme,
        is_output_terminal: options.is_output_terminal,
        output_filename,
        proxy_url,
        proxy_login,
        proxy_password,
    }
}

/// The set value, or the annotation under `key` as the fallback.
fn or_annotation(set: Option<String>, annotations: &Dict, key: &str) -> (r: Option<String>)
    ensures
        set is Some ==> r == set,
        set is None ==> ((r is Some <==> lookup(annotations@, key@) is Some) && (r matches Some(s)
            ==> lookup(annotations@, key@) == Some(s@))),
{
    match set {
        Some(s) => Some(s),
        None => {
            match annotations.get(key) {
                Some(v) => Some(v.clone()),
                None => None,
            }
        },
    }
}

/// Whether the effective annotations ask for the body string to be read
/// as JSON.
pub open spec fn convert_body_on(annotations: Seq<(Seq<char>, Seq<char>)>) -> bool {
    lookup(annotations, "apix.io/convert-body-to-json"@) == Some("true"@)
}

/// Renders the request body, in four mutually exclusive cases, decided in
/// this order: a string body under the convert-to-JSON directive is
/// rendered and read back as JSON, falling back to the rendered text as a
/// string value — deliberately never an error; any other present body is
/// rendered leaf by leaf; no body with a body-file directive streams that
/// file; otherwise there is no body.
pub fn render_body(
    engine: &mut Engine,
    ctx: &tera::Context,
    name: &str,
    body: &Option<Json>,
    annotations: &Dict,
) -> (r: Result<Option<AdvancedBody>, ApixError>)
    ensures
        r matches Err(e) ==> (e matches ApixError::Template { name: n, cause: _ }
            && name@.is_prefix_of(n@)),
        *body matches Some(b) ==> (jmodel(b) matches JsonSpec::Str(text) ==> (convert_body_on(
            annotations@,
        ) ==> ((r matches Ok(ob) ==> (ob matches Some(ab) && ab is Json)) && (!has_markers(text)
            ==> (r matches Ok(ob2) && (ob2 matches Some(ab2) && (ab2 matches AdvancedBody::Json(v)
            && jmodel(v) == candidate_model(text)))))))),
        *body matches Some(b) ==> (!(jmodel(b) is Str && convert_body_on(annotations@)) ==> ((r
            matches Ok(ob) ==> (ob matches Some(ab) && (ab matches AdvancedBody::Json(v)
            && renders_to(jmodel(b), jmodel(v))))) && (crate::json::no_markers_json(jmodel(b))
            ==> r is Ok))),
        body is None ==> (lookup(annotations@, "apix.io/body-file"@) matches Some(fp) ==> (r
            matches Ok(ob) && (ob matches Some(ab) && (ab matches AdvancedBody::File(f) && f@
            == fp)))),
        body is None ==> (lookup(annotations@, "apix.io/body-file"@) is None ==> (r matches Ok(ob)
            && ob is None)),
{
    let convert = match annotations.get("apix.io/convert-body-to-json") {
        Some(v) => crate::text::str_equal(v.as_str(), "true"),
        None => false,
    };
    match body {
        Some(b) => {
            let is_str_body = b.is_string();
            if is_str_body && convert {
                let text = b.str_text();
                match engine.render_string(name, text.as_str(), ctx) {
                    Ok(rendered) => Ok(
                        Some(AdvancedBody::Json(input_to_value(rendered.as_str()))),
                    ),
                    Err(e) => {
                        proof {
                            assert(name@.is_prefix_of(name@)) by {
                                assert(name@ =~= name@.subrange(0, name@.len() as int));
                            }
                        }
                        Err(e)
                    },
                }
            } else {
                match engine.render_value(name, b, ctx) {
                    Ok(v) => Ok(Some(AdvancedBody::Json(v))),
                    Err(e) => Err(e),
                }
            }
        },
        None => {
            match annotations.get("apix.io/body-file") {
                Some(path) => Ok(Some(AdvancedBody::File(path.clone()))),
                None => Ok(None),
            }
        },
    }
}

/// The entries of the first template context: the whole manifest, the
/// resolved parameters, and the environment.
pub open spec fn base_context_entries(
    manifest: ApixManifest,
    params: Seq<(String, Json)>,
    env: Seq<(Seq<char>, Seq<char>)>,
) -> Seq<(Seq<char>, JsonSpec)> {
    seq![
        ("manifest"@, manifest_json(manifest)),
        ("parameters"@, JsonSpec::Obj(jmodel_entries(params))),
        ("env"@, dict_json(env)),
    ]
}

/// The entries of the layered context: the first context with the
/// manifest's local context rendered in; with no template constructs in
/// the local context, the rendered entries are the manifest's own.
pub open spec fn layered_context_entries(
    manifest: ApixManifest,
    params: Seq<(String, Json)>,
    env: Seq<(Seq<char>, Seq<char>)>,
    ctx: Seq<(String, Json)>,
) -> Seq<(Seq<char>, JsonSpec)> {
    base_context_entries(manifest, params, env).push(
        ("context"@, JsonSpec::Obj(jmodel_entries(ctx))),
    )
}

/// No templated field of the request holds a template construct: the
/// annotation values, the local context, the url, the method, the header
/// and query values, and the body are all static text.
pub open spec fn marker_free_request(md: ApixMetadata, q: ApixRequest) -> bool {
    &&& (forall|i: int|
        0 <= i < md.annotations@.len() ==> !has_markers((#[trigger] md.annotations@[i]).1))
    &&& crate::json::no_markers_entries(jmodel_entries(q.context@))
    &&& !has_markers(q.request.url@)
    &&& !has_markers(q.request.method@)
    &&& (forall|i: int|
        0 <= i < q.request.headers@.len() ==> !has_markers((#[trigger] q.request.headers@[i]).1))
    &&& (forall|i: int|
        0 <= i < q.request.queries@.len() ==> !has_markers((#[trigger] q.request.queries@[i]).1))
    &&& (q.request.body matches Some(b) ==> crate::json::no_markers_json(jmodel(b)))
}

/// Renders a whole request: the context is assembled from the manifest,
/// the resolved parameters and the environment; the annotations are
/// rendered through it; the manifest's local context is rendered and
/// layered in; then the url, the method, the headers, the queries and the
/// body are rendered in that order, and the effective options are derived
/// with the command line winning. Any template failure aborts the whole
/// render.
pub fn render_request(
    file: &str,
    manifest: &ApixManifest,
    resolved_params: Vec<(String, Json)>,
    env: &Dict,
    options: RequestOptions,
) -> (r: Result<RequestParams, ApixError>)
    ensures
        !(*manifest matches ApixManifest::V1(m) && m.kind is Request) ==> (r matches Err(e) && e
            is Manifest),
        *manifest matches ApixManifest::V1(m) ==> (m.kind is Request ==> (r matches Err(e) ==> !(e
            is Manifest))),
        r matches Err(e) ==> (e is Manifest || e is Template || e is Serialization),
        r matches Err(e) ==> (e matches ApixError::Template { name: n, cause: _ }
            ==> file@.is_prefix_of(n@)),
        *manifest matches ApixManifest::V1(m) ==> (m.kind matches ApixKind::Request(q) ==> (
        marker_free_request(m.metadata, q) ==> (context_built(
            jtext(JsonSpec::Obj(base_context_entries(*manifest, resolved_params@, env@))),
        ) ==> (context_built(
            jtext(
                JsonSpec::Obj(
                    layered_context_entries(*manifest, resolved_params@, env@, q.context@),
                ),
            ),
        ) ==> r is Ok)))),
        r matches Ok(p) ==> (*manifest matches ApixManifest::V1(m) && m.kind matches
            ApixKind::Request(q) && {
            &&& key_seq(p.headers@) == key_seq(q.request.headers@)
            &&& key_seq(p.queries@) == key_seq(q.request.queries@)
            &&& (forall|i: int|
                0 <= i < q.request.headers@.len() && !has_markers(
                    (#[trigger] q.request.headers@[i]).1,
                ) ==> p.headers@[i].1 == q.request.headers@[i].1)
            &&& (forall|i: int|
                0 <= i < q.request.queries@.len() && !has_markers(
                    (#[trigger] q.request.queries@[i]).1,
                ) ==> p.queries@[i].1 == q.request.queries@[i].1)
            &&& (!has_markers(q.request.url@) ==> p.url@ == q.request.url@)
            &&& (!has_markers(q.request.method@) ==> p.method@ == q.request.method@)
            &&& (q.request.body is Some ==> (p.body matches Some(ab) && ab is Json))
            &&& (q.request.body matches Some(b) ==> ((!(jmodel(b) is Str)
                && crate::json::no_markers_json(jmodel(b))) ==> (p.body matches Some(ab2) && ab2
                matches AdvancedBody::Json(v) && jmodel(v) == jmodel(b))))
            &&& (q.request.body matches Some(b) ==> (jmodel(b) matches JsonSpec::Str(text) ==> (
                lookup(m.metadata.annotations@, "apix.io/convert-body-to-json"@) is None ==> (
                !has_markers(text) ==> (p.body matches Some(ab3) && (ab3
                matches AdvancedBody::Json(v2) && jmodel(v2) == JsonSpec::Str(text)))))))
            &&& (q.request.body matches Some(b) ==> (jmodel(b) matches JsonSpec::Str(text2) ==> (
                lookup(m.metadata.annotations@, "apix.io/convert-body-to-json"@) == Some("true"@)
                    ==> (!has_markers(text2) ==> (p.body matches Some(ab4) && (ab4
                matches AdvancedBody::Json(v3) && jmodel(v3) == candidate_model(text2)))))))
            &&& (q.request.body is None ==> (lookup(
                m.metadata.annotations@,
                "apix.io/body-file"@,
            ) is None ==> p.body is None))
            &&& (q.request.body is None ==> (lookup(
                m.metadata.annotations@,
                "apix.io/body-file"@,
            ) matches Some(bf) ==> (!has_markers(bf) ==> (p.body matches Some(ab5) && (ab5
                matches AdvancedBody::File(f5) && f5@ == bf)))))
            &&& p.options.verbose == options.verbose
            &&& p.options.theme == options.theme
            &&& p.options.is_output_terminal == options.is_output_terminal
            &&& (options.output_filename is Some ==> p.options.output_filename
                == options.output_filename)
            &&& (options.proxy_url is Some ==> p.options.proxy_url == options.proxy_url)
            &&& (options.proxy_login is Some ==> p.options.proxy_login == options.proxy_login)
            &&& (options.proxy_password is Some ==> p.options.proxy_password
                == options.proxy_password)
        }),
{
    let request = match expect_request(manifest) {
        Ok(q) => q,
        Err(e) => {
            return Err(e);
        },
    };
    let mut engine = Engine::new();

    let ghost rp = resolved_params@;
    let mut context_entries: Vec<(String, Json)> = Vec::new();
    let manifest_key = String::from_str("manifest");
    let manifest_value = manifest_to_json(manifest);
    context_entries.push((manifest_key, manifest_value));
    let params_key = String::from_str("parameters");
    let params_value = Json::Obj(resolved_params);
    context_entries.push((params_key, params_value));
    let env_key = String::from_str("env");
    let env_value = crate::manifest_json::dict_to_json(env);
    context_entries.push((env_key, env_value));
    proof {
        crate::json::lemma_jmodel_entries(context_entries@);
        assert(context_entries@.len() == 3);
        assert(context_entries@[0] == (manifest_key, manifest_value));
        assert(context_entries@[1] == (params_key, params_value));
        assert(context_entries@[2] == (env_key, env_value));
        assert(jmodel_entries(context_entries@)[0] == ("manifest"@, manifest_json(*manifest)));
        assert(jmodel_entries(context_entries@)[1] =~~= (
            "parameters"@,
            JsonSpec::Obj(jmodel_entries(rp)),
        ));
        assert(jmodel_entries(context_entries@)[2] == ("env"@, dict_json(env@)));
        assert(jmodel_entries(context_entries@) =~~= base_context_entries(*manifest, rp, env@));
    }
    let base_context = Json::Obj(context_entries);
    proof {
        assert(jmodel(base_context) =~~= JsonSpec::Obj(
            base_context_entries(*manifest, rp, env@),
        ));
    }
    let ctx1 = match make_context(&base_context) {
        Ok(c) => c,
        Err(e) => {
            return Err(e);
        },
    };

    let annotations_name = anchored(file, "#/annotations");
    let empty = Dict::new();
    let manifest_annotations = match manifest.get_annotations() {
        Some(a) => a,
        None => &empty,
    };
    let annotations = match engine.render_map(
        annotations_name.as_str(),
        manifest_annotations,
        &ctx1,
    ) {
        Ok(a) => a,
        Err(e) => {
            return Err(e);
        },
    };

    let context_name = anchored(file, "#/context");
    let local_context = Json::Obj(clone_entries(&request.context));
    proof {
        assert(jmodel(local_context) =~~= JsonSpec::Obj(jmodel_entries(request.context@)));
    }
    let rendered_context = match engine.render_value(context_name.as_str(), &local_context, &ctx1) {
        Ok(v) => v,
        Err(e) => {
            return Err(e);
        },
    };
    let ghost rendered_model = jmodel(rendered_context);
    let full_context = match base_context {
        Json::Obj(mut entries) => {
            let ghost pre_entries = entries@;
            let ckey = String::from_str("context");
            let ghost pair = (ckey, rendered_context);
            entries.push((ckey, rendered_context));
            proof {
                lemma_jmodel_entries_push(pre_entries, pair);
            }
            Json::Obj(entries)
        },
        other => other,
    };
    proof {
        if crate::json::no_markers_entries(jmodel_entries(request.context@)) {
            crate::template::lemma_renders_to_identity(jmodel(local_context), rendered_model);
            assert(jmodel(full_context) =~~= JsonSpec::Obj(
                layered_context_entries(*manifest, rp, env@, request.context@),
            ));
        }
    }
    let ctx2 = match make_context(&full_context) {
        Ok(c) => c,
        Err(e) => {
            return Err(e);
        },
    };

    let url_name = anchored(file, "#/url");
    let url = match engine.render_string(url_name.as_str(), request.request.url.as_str(), &ctx2) {
        Ok(s) => s,
        Err(e) => {
            return Err(e);
        },
    };
    let method_name = anchored(file, "#/method");
    let method = match engine.render_string(
        method_name.as_str(),
        request.request.method.as_str(),
        &ctx2,
    ) {
        Ok(s) => s,
        Err(e) => {
            return Err(e);
        },
    };
    let headers_name = anchored(file, "#/headers");
    let headers = match engine.render_map(headers_name.as_str(), &request.request.headers, &ctx2) {
        Ok(h) => h,
        Err(e) => {
            return Err(e);
        },
    };
    let queries_name = anchored(file, "#/queries");
    let queries = match engine.render_map(queries_name.as_str(), &request.request.queries, &ctx2) {
        Ok(q) => q,
        Err(e) => {
            return Err(e);
        },
    };
    let body_name = anchored(file, "#/body");
    let body = match render_body(
        &mut engine,
        &ctx2,
        body_name.as_str(),
        &request.request.body,
        &annotations,
    ) {
        Ok(b) => b,
        Err(e) => {
            return Err(e);
        },
    };
    let effective_options = apply_annotation_options(options, &annotations);
    proof {
        if request.request.body is Some {
            let b = request.request.body->0;
            if !(jmodel(b) is Str) && crate::json::no_markers_json(jmodel(b)) {
                let v = body->0->Json_0;
                crate::template::lemma_renders_to_identity(jmodel(b), jmodel(v));
            }
        }
        let ma = manifest_annotations@;
        let ra = annotations@;
        assert forall|i: int| 0 <= i < ma.len() implies (#[trigger] ma[i]).0 == ra[i].0 by {
            assert(key_seq(ma)[i] == ma[i].0);
            assert(key_seq(ra)[i] == ra[i].0);
        }
        let bf = "apix.io/body-file"@;
        crate::dict::lemma_lookup_aligned(ma, ra, bf);
        if lookup(ma, bf) is Some {
            let i = choose|i: int|
                {
                    &&& 0 <= i < ma.len()
                    &&& (#[trigger] ma[i]).0 == bf
                    &&& lookup(ma, bf) == Some(ma[i].1)
                    &&& lookup(ra, bf) == Some(ra[i].1)
                };
            if !has_markers(ma[i].1) {
                assert(ra[i].1 == ma[i].1);
            }
        }
        let ck = "apix.io/convert-body-to-json"@;
        crate::dict::lemma_lookup_aligned(ma, ra, ck);
        if lookup(ma, ck) is Some {
            let i = choose|i: int|
                {
                    &&& 0 <= i < ma.len()
                    &&& (#[trigger] ma[i]).0 == ck
                    &&& lookup(ma, ck) == Some(ma[i].1)
                    &&& lookup(ra, ck) == Some(ra[i].1)
                };
            if ma[i].1 == "true"@ {
                reveal_strlit("true");
                assert(!has_markers("true"@)) by {
                    assert forall|j: int| !crate::text::opens_marker("true"@, j) by {
                        if 0 <= j && j + 1 < 4 {
                            assert(("true"@)[j] != '{');
                        }
                    }
                }
                assert(ra[i].1 == ma[i].1);
                assert(convert_body_on(ra));
            }
        } else {
            assert(!convert_body_on(ra));
        }
    }
    Ok(
        RequestParams {
            url,
            method,
            headers,
            queries,
            body,
            options: effective_options,
        },
    )
}

/// The per-field template name `file#/field`.
fn anchored(file: &str, suffix: &str) -> (r: String)
    ensures
        r@ == file@ + suffix@,
{
    let mut out = file.to_owned();
    out.append(suffix);
    out
}

} // verus!
