//! Command-line shapes: `name:value` parsing, body selection, validators.

use apix::http::body_from_cli;
use apix::http::pairs_from_values;
use apix::http::validate_param;
use apix::http::validate_url;
use apix::http::AdvancedBody;
use apix::http::RequestParam;
use clap::{App, Arg};

fn string_values(matches: &clap::ArgMatches, name: &str) -> Vec<String> {
    matches
        .values_of(name)
        .map(|vs| vs.map(str::to_string).collect())
        .unwrap_or_default()
}

#[test]
fn test_match_headers() {
    let matches = App::new("test")
        .arg(Arg::new("header").long("header").takes_value(true))
        .get_matches_from(vec!["test", "--header", "foo:bar"]);
    let values = string_values(&matches, "header");
    let headers = pairs_from_values(&values, RequestParam::Header);
    assert!(headers.is_ok());
    let headers = headers.unwrap();
    assert_eq!(headers.get("foo").unwrap(), "bar");
}

#[test]
fn test_match_queries() {
    let matches = App::new("test")
        .arg(Arg::new("query").long("query").takes_value(true))
        .get_matches_from(vec!["test", "--query", "foo:bar"]);
    let values = string_values(&matches, "query");
    let queries = pairs_from_values(&values, RequestParam::Query);
    assert!(queries.is_ok());
    let queries = queries.unwrap();
    assert_eq!(queries.get("foo").unwrap(), "bar");
}

#[test]
fn test_match_params() {
    let matches = App::new("test")
        .arg(Arg::new("param").long("param").takes_value(true))
        .get_matches_from(vec!["test", "--param", "foo:bar"]);
    let values = string_values(&matches, "param");
    let params = pairs_from_values(&values, RequestParam::Param);
    assert!(params.is_ok());
    let params = params.unwrap();
    assert_eq!(params.get("foo").unwrap(), "bar");
}

#[test]
fn test_match_body() {
    let matches = App::new("test")
        .arg(Arg::new("body").long("body").takes_value(true))
        .get_matches_from(vec!["test", "--body", "foo"]);
    let body = body_from_cli(matches.value_of("body").map(str::to_string), None);
    assert!(body.is_some());
    assert_eq!(body.unwrap().to_string().unwrap(), "foo".to_string());
}

#[test]
fn test_body_from_cli_prefers_inline_body() {
    let body = body_from_cli(Some("inline".to_string()), Some("data.bin".to_string()));
    assert_eq!(body, Some(AdvancedBody::String("inline".to_string())));
    let body = body_from_cli(None, Some("data.bin".to_string()));
    assert_eq!(body, Some(AdvancedBody::File("data.bin".to_string())));
    assert_eq!(body_from_cli(None, None), None);
}

#[test]
fn test_validate_param_accepts_pairs() {
    assert!(validate_param("name:value", RequestParam::Header).is_ok());
    assert!(validate_param("x-key:with:colons", RequestParam::Query).is_ok());
    assert!(validate_param("a_b-c:", RequestParam::Param).is_ok());
}

#[test]
fn test_validate_param_rejects_malformed() {
    for bad in ["name-value", ":value", "", "na me:value"] {
        match validate_param(bad, RequestParam::Header) {
            Err(apix::error::ApixError::Parameter(_)) => {}
            other => panic!("expected rejection of {:?}, got {:?}", bad, other),
        }
    }
}

#[test]
fn test_pairs_from_values_rejects_first_malformed() {
    let values = vec!["ok:1".to_string(), "broken".to_string()];
    assert!(pairs_from_values(&values, RequestParam::Header).is_err());
}

#[test]
fn test_validate_url_accepts_http_and_https() {
    assert!(validate_url("https://www.example.com").is_ok());
    assert!(validate_url("http://www.example.com").is_ok());
}

#[test]
fn test_validate_url_rejects_other_schemes() {
    match validate_url("ftp://www.example.com") {
        Err(apix::error::ApixError::Http(_)) => {}
        other => panic!("expected rejection, got {:?}", other),
    }
    assert!(validate_url("not a url").is_err());
}

#[test]
fn test_validate_param_accepts_unicode_word_names() {
    assert!(validate_param("café:1", RequestParam::Param).is_ok());
    assert!(validate_param("größe:x", RequestParam::Query).is_ok());
}

#[test]
fn test_validate_param_rejects_newline_in_value() {
    match validate_param("a:b\nc", RequestParam::Header) {
        Err(apix::error::ApixError::Parameter(_)) => {}
        other => panic!("expected rejection, got {:?}", other),
    }
    assert!(validate_param("a:b\rc", RequestParam::Header).is_ok());
    assert!(validate_param("a:", RequestParam::Header).is_ok());
}

#[test]
fn test_pairs_from_values_splits_at_first_colon() {
    let values = vec!["café:x:y".to_string()];
    let pairs = pairs_from_values(&values, RequestParam::Query).unwrap();
    assert_eq!(pairs.get("café").unwrap(), "x:y");
}
