//! JSON serialization, the ordered map, header merging, download
//! filenames, manifest construction and its JSON shape.

use apix::dict::Dict;
use apix::http::default_headers;
use apix::http::merge_with_defaults;
use apix::http::prepare_request;
use apix::http::resolve_download_filename;
use apix::http::AdvancedBody;
use apix::json::json_to_text;
use apix::json::Json;
use apix::manifest::ApixManifest;
use apix::manifest::ApixRequest;
use apix::manifest::ApixRequestTemplate;
use apix::manifest_json::manifest_to_json;

#[test]
fn test_json_to_text_scalars() {
    assert_eq!(json_to_text(&Json::Null), "null");
    assert_eq!(json_to_text(&Json::Bool(true)), "true");
    assert_eq!(json_to_text(&Json::Bool(false)), "false");
    assert_eq!(json_to_text(&Json::Num("3.5".to_string())), "3.5");
    assert_eq!(json_to_text(&Json::Str("hi".to_string())), "\"hi\"");
    assert_eq!(json_to_text(&Json::Raw("{\"a\":1}".to_string())), "{\"a\":1}");
}

#[test]
fn test_json_to_text_escapes() {
    let value = Json::Str("a\"b\\c\nd\te\u{1}".to_string());
    assert_eq!(json_to_text(&value), "\"a\\\"b\\\\c\\nd\\te\\u0001\"");
}

#[test]
fn test_json_to_text_structures() {
    let value = Json::Obj(vec![
        ("k".to_string(), Json::Arr(vec![Json::Num("1".to_string()), Json::Null])),
        ("s".to_string(), Json::Str("v".to_string())),
    ]);
    assert_eq!(json_to_text(&value), "{\"k\":[1,null],\"s\":\"v\"}");
    let text = json_to_text(&Json::Obj(vec![]));
    assert_eq!(text, "{}");
    assert_eq!(json_to_text(&Json::Arr(vec![])), "[]");
}

#[test]
fn test_dict_insert_keeps_position_on_replace() {
    let mut d = Dict::new();
    d.insert("a".to_string(), "1".to_string());
    d.insert("b".to_string(), "2".to_string());
    let old = d.insert("a".to_string(), "3".to_string());
    assert_eq!(old, Some("1".to_string()));
    assert_eq!(d.key_at(0).as_str(), "a");
    assert_eq!(d.val_at(0).as_str(), "3");
    assert_eq!(d.key_at(1).as_str(), "b");
    assert_eq!(d.len(), 2);
}

#[test]
fn test_dict_remove_keeps_order() {
    let mut d = Dict::new();
    d.insert("a".to_string(), "1".to_string());
    d.insert("b".to_string(), "2".to_string());
    d.insert("c".to_string(), "3".to_string());
    assert_eq!(d.remove("b"), Some("2".to_string()));
    assert_eq!(d.remove("b"), None);
    assert_eq!(d.key_at(0).as_str(), "a");
    assert_eq!(d.key_at(1).as_str(), "c");
    assert_eq!(d.len(), 2);
}

#[test]
fn test_merge_with_defaults_caller_wins() {
    let mut headers = Dict::new();
    headers.insert("content-type".to_string(), "text/csv".to_string());
    headers.insert("x-extra".to_string(), "1".to_string());
    let merged = merge_with_defaults(&headers);
    assert_eq!(merged.get("content-type").unwrap(), "text/csv");
    assert_eq!(merged.get("x-extra").unwrap(), "1");
    assert_eq!(merged.get("accept").unwrap(), "application/json");
    assert_eq!(merged.get("accept-encoding").unwrap(), "gzip");
    assert_eq!(merged.get("user-agent").unwrap(), "apix/1.0.0");
}

#[test]
fn test_default_headers_alone_without_caller_headers() {
    let prepared = prepare_request("https://x.test/", "get", &None, &None, None);
    assert_eq!(prepared.method, "GET");
    assert_eq!(prepared.headers.len(), default_headers().len());
    assert_eq!(prepared.headers.get("accept").unwrap(), "application/json");
    assert_eq!(prepared.url, "https://x.test/");
    assert_eq!(prepared.body, None);
}

#[test]
fn test_resolve_download_filename_prefers_option() {
    let name = resolve_download_filename(
        &Some("out.bin".to_string()),
        "https://x.test/files/data.tar.gz",
    )
    .unwrap();
    assert_eq!(name, "out.bin");
}

#[test]
fn test_resolve_download_filename_takes_last_segment() {
    let name =
        resolve_download_filename(&None, "https://x.test/files/data.tar.gz").unwrap();
    assert_eq!(name, "data.tar.gz");
    assert!(resolve_download_filename(&None, "not a url").is_err());
}

#[test]
fn test_advanced_body_to_string() {
    let json = AdvancedBody::Json(Json::Obj(vec![(
        "a".to_string(),
        Json::Num("1".to_string()),
    )]));
    assert_eq!(json.to_string().unwrap(), "{\"a\":1}");
    let raw = AdvancedBody::String("plain".to_string());
    assert_eq!(raw.to_string().unwrap(), "plain");
    match AdvancedBody::File("body.bin".to_string()).to_string() {
        Err(apix::error::ApixError::Io(path)) => assert_eq!(path, "body.bin"),
        other => panic!("expected an io error, got {:?}", other),
    }
}

#[test]
fn test_new_request_manifest_shape() {
    let template = ApixRequestTemplate::new(
        "GET".to_string(),
        "https://x.test/".to_string(),
        Dict::new(),
        Dict::new(),
        None,
    );
    let manifest = ApixManifest::new_request(
        "myapi".to_string(),
        "myreq".to_string(),
        ApixRequest::new(vec![], vec![], template),
    );
    assert_eq!(manifest.name(), "myreq");
    assert_eq!(manifest.version(), "apix.io/v1");
    assert_eq!(manifest.get_label("app").unwrap(), "apix");
    assert_eq!(manifest.get_label("apix.io/api").unwrap(), "myapi");
    assert!(manifest.get_annotation("apix.io/created-by").is_some());
    assert!(manifest.get_annotation("apix.io/created-at").is_some());
    assert!(matches!(
        manifest.kind(),
        apix::manifest::ApixKind::Request(_)
    ));
}

#[test]
fn test_manifest_json_shape() {
    let template = ApixRequestTemplate::new(
        "GET".to_string(),
        "https://x.test/{{parameters.id}}".to_string(),
        Dict::new(),
        Dict::new(),
        None,
    );
    let mut manifest = ApixManifest::new_request(
        "myapi".to_string(),
        "myreq".to_string(),
        ApixRequest::new(vec![], vec![], template),
    );
    manifest.insert_metadata("team".to_string(), "core".to_string());
    let value = manifest_to_json(&manifest);
    let text = json_to_text(&value);
    assert!(text.starts_with("{\"apiVersion\":\"apix.io/v1\",\"metadata\":{\"name\":\"myreq\""));
    assert!(text.contains("\"labels\":{\"app\":\"apix\",\"apix.io/api\":\"myapi\"}"));
    assert!(text.contains("\"team\":\"core\""));
    assert!(text.contains("\"kind\":\"Request\""));
    assert!(text.contains(
        "\"spec\":{\"request\":{\"method\":\"GET\",\"url\":\"https://x.test/{{parameters.id}}\"}}"
    ));
}

#[test]
fn test_metadata_and_kind_accessors() {
    let manifest = ApixManifest::new_api("thing".to_string(), None);
    assert!(manifest.kind().as_api().is_some());
    assert!(manifest.kind().as_request().is_none());
    assert!(manifest.kind().as_configuration().is_none());
    assert!(manifest.kind().as_story().is_none());
    assert_eq!(manifest.get_metadata("absent"), None);
    let empty = ApixManifest::default();
    assert_eq!(empty.name(), "");
    assert_eq!(empty.version(), "");
}

#[test]
fn test_request_display_text() {
    let mut headers = Dict::new();
    headers.insert("accept".to_string(), "application/json".to_string());
    let text = apix::http::request_display_text(
        "GET",
        "/users?x=1",
        "HTTP/1.1",
        "api.test",
        &headers,
    );
    assert_eq!(text, "GET /users?x=1 HTTP/1.1\nhost: api.test\naccept: application/json\n");
}

#[test]
fn test_response_display_text() {
    let mut headers = Dict::new();
    headers.insert("content-type".to_string(), "text/plain".to_string());
    let text = apix::http::response_display_text("HTTP/1.1", "200 OK", &headers);
    assert_eq!(text, "HTTP/1.1 200 OK\ncontent-type: text/plain\n");
}
