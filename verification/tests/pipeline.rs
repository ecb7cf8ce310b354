//! End-to-end rendering scenarios: parameter resolution, the body cases,
//! annotation-derived options, and the full request render.

use apix::dict::Dict;
use apix::http::AdvancedBody;
use apix::http::RequestOptions;
use apix::json::Json;
use apix::manifest::ApixKind;
use apix::manifest::ApixManifest;
use apix::manifest::ApixManifestV1;
use apix::manifest::ApixMetadata;
use apix::manifest::ApixParameter;
use apix::manifest::ApixRequest;
use apix::manifest::ApixRequestTemplate;
use apix::params::check_candidate;
use apix::params::compile_param_schema;
use apix::params::resolution_plan;
use apix::params::ParamSource;
use apix::render::render_body;
use apix::render::render_request;
use apix::template::make_context;
use apix::template::Engine;

fn plain_options() -> RequestOptions {
    RequestOptions {
        verbose: false,
        theme: "Coldark-Dark".to_string(),
        is_output_terminal: true,
        output_filename: None,
        proxy_url: None,
        proxy_login: None,
        proxy_password: None,
    }
}

fn request_manifest(
    annotations: Dict,
    parameters: Vec<ApixParameter>,
    template: ApixRequestTemplate,
) -> ApixManifest {
    ApixManifest::V1(ApixManifestV1 {
        metadata: ApixMetadata {
            name: "scenario".to_string(),
            labels: Dict::new(),
            annotations,
            extensions: Dict::new(),
        },
        kind: ApixKind::Request(ApixRequest::new(parameters, vec![], template)),
    })
}

#[test]
fn test_parameter_precedence() {
    let params = vec![ApixParameter::new("id".to_string(), true, false, None, None)];
    let mut cli = Dict::new();
    cli.insert("id".to_string(), "42".to_string());
    let plan = resolution_plan(&params, &Some(cli));
    assert_eq!(plan.len(), 1);
    assert_eq!(plan[0].index, 0);
    assert_eq!(plan[0].source, ParamSource::Cli("42".to_string()));
}

#[test]
fn test_resolution_without_cli_prompts_required_only() {
    let params = vec![
        ApixParameter::new("a".to_string(), true, false, None, None),
        ApixParameter::new("b".to_string(), false, false, None, None),
    ];
    let plan = resolution_plan(&params, &None);
    assert_eq!(plan.len(), 1);
    assert_eq!(plan[0].index, 0);
    assert_eq!(plan[0].source, ParamSource::Prompt);
}

#[test]
fn test_resolution_includes_supplied_optional() {
    let params = vec![
        ApixParameter::new("a".to_string(), false, false, None, None),
        ApixParameter::new("b".to_string(), false, false, None, None),
    ];
    let mut cli = Dict::new();
    cli.insert("b".to_string(), "7".to_string());
    let plan = resolution_plan(&params, &Some(cli));
    assert_eq!(plan.len(), 1);
    assert_eq!(plan[0].index, 1);
    assert_eq!(plan[0].source, ParamSource::Cli("7".to_string()));
}

#[test]
fn test_body_conversion_fallback() {
    let mut engine = Engine::new();
    let ctx = make_context(&Json::Obj(vec![(
        "x".to_string(),
        Json::Str("not json".to_string()),
    )]))
    .expect("context");
    let mut annotations = Dict::new();
    annotations.insert(
        "apix.io/convert-body-to-json".to_string(),
        "true".to_string(),
    );
    let body = Some(Json::Str("{{x}}".to_string()));
    let rendered = render_body(&mut engine, &ctx, "file#/body", &body, &annotations)
        .expect("never a hard error");
    assert_eq!(
        rendered,
        Some(AdvancedBody::Json(Json::Str("not json".to_string())))
    );
}

#[test]
fn test_body_conversion_parses_valid_json() {
    let mut engine = Engine::new();
    let ctx = make_context(&Json::Obj(vec![("x".to_string(), Json::Num("1".to_string()))]))
        .expect("context");
    let mut annotations = Dict::new();
    annotations.insert(
        "apix.io/convert-body-to-json".to_string(),
        "true".to_string(),
    );
    let body = Some(Json::Str("{ \"a\": {{x}} }".to_string()));
    let rendered = render_body(&mut engine, &ctx, "file#/body", &body, &annotations)
        .expect("render");
    match rendered {
        Some(AdvancedBody::Json(v)) => {
            assert_eq!(v, Json::Raw("{\"a\":1}".to_string()));
        }
        other => panic!("expected a JSON body, got {:?}", other),
    }
}

#[test]
fn test_body_file_directive() {
    let mut engine = Engine::new();
    let ctx = make_context(&Json::Obj(vec![])).expect("context");
    let mut annotations = Dict::new();
    annotations.insert("apix.io/body-file".to_string(), "payload.json".to_string());
    let rendered =
        render_body(&mut engine, &ctx, "file#/body", &None, &annotations).expect("render");
    assert_eq!(rendered, Some(AdvancedBody::File("payload.json".to_string())));
}

#[test]
fn test_no_body_without_directive() {
    let mut engine = Engine::new();
    let ctx = make_context(&Json::Obj(vec![])).expect("context");
    let rendered =
        render_body(&mut engine, &ctx, "file#/body", &None, &Dict::new()).expect("render");
    assert_eq!(rendered, None);
}

#[test]
fn test_end_to_end_scenario() {
    let template = ApixRequestTemplate::new(
        "GET".to_string(),
        "https://api.test/{{parameters.id}}".to_string(),
        Dict::new(),
        Dict::new(),
        None,
    );
    let params = vec![ApixParameter::new("id".to_string(), true, false, None, None)];
    let manifest = request_manifest(Dict::new(), params, template);
    let resolved = vec![("id".to_string(), Json::Str("42".to_string()))];
    let rendered = render_request(
        "scenario.yaml",
        &manifest,
        resolved,
        &Dict::new(),
        plain_options(),
    )
    .expect("render request");
    assert_eq!(rendered.url, "https://api.test/42");
    assert_eq!(rendered.method, "GET");
    assert_eq!(rendered.body, None);
    assert_eq!(rendered.queries.len(), 0);
}

#[test]
fn test_annotation_fallback() {
    let mut annotations = Dict::new();
    annotations.insert(
        "apix.io/output-file".to_string(),
        "out-{{parameters.id}}.json".to_string(),
    );
    let template = ApixRequestTemplate::new(
        "GET".to_string(),
        "https://api.test/".to_string(),
        Dict::new(),
        Dict::new(),
        None,
    );
    let manifest = request_manifest(annotations, vec![], template);
    let resolved = vec![("id".to_string(), Json::Str("7".to_string()))];
    let rendered = render_request(
        "scenario.yaml",
        &manifest,
        resolved,
        &Dict::new(),
        plain_options(),
    )
    .expect("render request");
    assert_eq!(rendered.options.output_filename, Some("out-7.json".to_string()));
}

#[test]
fn test_cli_output_file_wins_over_annotation() {
    let mut annotations = Dict::new();
    annotations.insert("apix.io/output-file".to_string(), "fallback.json".to_string());
    let template = ApixRequestTemplate::new(
        "GET".to_string(),
        "https://api.test/".to_string(),
        Dict::new(),
        Dict::new(),
        None,
    );
    let manifest = request_manifest(annotations, vec![], template);
    let mut options = plain_options();
    options.output_filename = Some("cli.json".to_string());
    let rendered = render_request("scenario.yaml", &manifest, vec![], &Dict::new(), options)
        .expect("render request");
    assert_eq!(rendered.options.output_filename, Some("cli.json".to_string()));
}

#[test]
fn test_context_layering_feeds_later_fields() {
    let mut annotations = Dict::new();
    annotations.insert(
        "apix.io/note".to_string(),
        "{{parameters.id}}-note".to_string(),
    );
    let template = ApixRequestTemplate::new(
        "GET".to_string(),
        "https://api.test/{{context.path}}".to_string(),
        Dict::new(),
        Dict::new(),
        None,
    );
    let manifest = match request_manifest(annotations, vec![], template) {
        ApixManifest::V1(mut v) => {
            if let ApixKind::Request(ref mut q) = v.kind {
                q.context.push((
                    "path".to_string(),
                    Json::Str("users/{{parameters.id}}".to_string()),
                ));
            }
            ApixManifest::V1(v)
        }
        other => other,
    };
    let resolved = vec![("id".to_string(), Json::Str("9".to_string()))];
    let rendered = render_request(
        "scenario.yaml",
        &manifest,
        resolved,
        &Dict::new(),
        plain_options(),
    )
    .expect("render request");
    assert_eq!(rendered.url, "https://api.test/users/9");
}

#[test]
fn test_wrong_manifest_kind_is_a_manifest_error() {
    let manifest = ApixManifest::new_api("thing".to_string(), None);
    let result = render_request("x.yaml", &manifest, vec![], &Dict::new(), plain_options());
    match result {
        Err(apix::error::ApixError::Manifest(_)) => {}
        other => panic!("expected a manifest error, got {:?}", other),
    }
}

#[test]
fn test_template_error_aborts_render() {
    let template = ApixRequestTemplate::new(
        "GET".to_string(),
        "https://api.test/{{ missing_variable }}".to_string(),
        Dict::new(),
        Dict::new(),
        None,
    );
    let manifest = request_manifest(Dict::new(), vec![], template);
    let result = render_request("x.yaml", &manifest, vec![], &Dict::new(), plain_options());
    match result {
        Err(apix::error::ApixError::Template { name, .. }) => {
            assert_eq!(name, "x.yaml#/url");
        }
        other => panic!("expected a template error, got {:?}", other),
    }
}

#[test]
fn test_schema_validation_accepts_and_rejects() {
    let schema = Json::Obj(vec![("type".to_string(), Json::Str("integer".to_string()))]);
    let param = ApixParameter::new("n".to_string(), true, false, None, Some(schema));
    let compiled = compile_param_schema(&param).expect("compile");
    let accepted = check_candidate(&compiled, "42").expect("valid candidate");
    assert_eq!(accepted, Json::Raw("42".to_string()));
    let rejected = check_candidate(&compiled, "not a number");
    match rejected {
        Err(message) => assert!(message.starts_with("Invalid input:")),
        Ok(v) => panic!("expected rejection, got {:?}", v),
    }
}

#[test]
fn test_default_schema_accepts_plain_text() {
    let param = ApixParameter::new("s".to_string(), true, false, None, None);
    let compiled = compile_param_schema(&param).expect("compile");
    let accepted = check_candidate(&compiled, "anything").expect("valid");
    assert_eq!(accepted, Json::Str("anything".to_string()));
}

#[test]
fn test_prompt_seed_comes_from_schema_default() {
    let schema = Json::Obj(vec![
        ("type".to_string(), Json::Str("string".to_string())),
        ("default".to_string(), Json::Str("fallback".to_string())),
    ]);
    let param = ApixParameter::new("s".to_string(), true, false, None, Some(schema));
    assert_eq!(apix::params::prompt_seed(&param), Some("\"fallback\"".to_string()));
    let bare = ApixParameter::new("s".to_string(), true, false, None, None);
    assert_eq!(apix::params::prompt_seed(&bare), None);
}

#[test]
fn test_schema_compile_failure_is_a_parameter_error() {
    let schema = Json::Obj(vec![(
        "type".to_string(),
        Json::Num("5".to_string()),
    )]);
    let param = ApixParameter::new("n".to_string(), true, false, None, Some(schema));
    match compile_param_schema(&param) {
        Err(apix::error::ApixError::Parameter(_)) => {}
        other => panic!("expected a parameter error, got {:?}", other),
    }
}

#[test]
fn test_configuration_default_holds_exactly_the_theme() {
    let config = apix::manifest::ApixConfiguration::default();
    assert_eq!(config.index.len(), 1);
    assert_eq!(config.index.key_at(0).as_str(), "theme");
    assert_eq!(config.index.val_at(0).as_str(), "Monokai Extended");
}

#[test]
fn test_body_file_annotation_carries_through_render() {
    let mut annotations = Dict::new();
    annotations.insert("apix.io/body-file".to_string(), "payload.bin".to_string());
    let template = ApixRequestTemplate::new(
        "POST".to_string(),
        "https://api.test/".to_string(),
        Dict::new(),
        Dict::new(),
        None,
    );
    let manifest = request_manifest(annotations, vec![], template);
    let rendered = render_request("f.yaml", &manifest, vec![], &Dict::new(), plain_options())
        .expect("render request");
    assert_eq!(
        rendered.body,
        Some(AdvancedBody::File("payload.bin".to_string()))
    );
}
