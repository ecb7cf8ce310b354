//! The template engine adapter: string, map and value rendering.

use apix::dict::Dict;
use apix::json::Json;
use apix::template::make_context;
use apix::template::Engine;

fn test_context() -> tera::Context {
    let ctx = Json::Obj(vec![(
        "context".to_string(),
        Json::Obj(vec![("test".to_string(), Json::Str("test".to_string()))]),
    )]);
    make_context(&ctx).expect("context")
}

#[test]
fn test_render_value_object() {
    let mut engine = Engine::new();
    let context = test_context();
    let value = Json::Obj(vec![
        ("test".to_string(), Json::Str("{{context.test}}".to_string())),
        ("another".to_string(), Json::Str("{{context.test}}".to_string())),
    ]);
    let rendered = engine
        .render_value("test", &value, &context)
        .expect("render value object");
    let expected = Json::Obj(vec![
        ("test".to_string(), Json::Str("test".to_string())),
        ("another".to_string(), Json::Str("test".to_string())),
    ]);
    assert_eq!(rendered, expected);
}

#[test]
fn test_render_value_array() {
    let mut engine = Engine::new();
    let context = test_context();
    let value = Json::Arr(vec![
        Json::Str("{{context.test}}".to_string()),
        Json::Str("{{context.test}}".to_string()),
    ]);
    let rendered = engine
        .render_value("test", &value, &context)
        .expect("render value array");
    let expected = Json::Arr(vec![
        Json::Str("test".to_string()),
        Json::Str("test".to_string()),
    ]);
    assert_eq!(rendered, expected);
}

#[test]
fn test_render_map() {
    let mut engine = Engine::new();
    let context = test_context();
    let mut map = Dict::new();
    map.insert("test".to_string(), "{{context.test}}".to_string());
    let rendered = engine.render_map("test", &map, &context).expect("render map");
    assert_eq!(rendered.len(), 1);
    assert_eq!(rendered.key_at(0).as_str(), "test");
    assert_eq!(rendered.val_at(0).as_str(), "test");
}

#[test]
fn test_render_string() {
    let mut engine = Engine::new();
    let context = test_context();
    let rendered = engine
        .render_string("test", "{{context.test}} {{context.test}}", &context)
        .expect("render string");
    assert_eq!(rendered, "test test");
}

#[test]
fn test_render_value_leaf_only_substitution() {
    let mut engine = Engine::new();
    let ctx = Json::Obj(vec![("x".to_string(), Json::Str("v".to_string()))]);
    let context = make_context(&ctx).expect("context");
    let value = Json::Obj(vec![
        ("a".to_string(), Json::Str("{{x}}".to_string())),
        ("b".to_string(), Json::Num("3".to_string())),
        (
            "c".to_string(),
            Json::Arr(vec![Json::Bool(true), Json::Str("{{x}}".to_string())]),
        ),
    ]);
    let rendered = engine.render_value("body", &value, &context).expect("render");
    let expected = Json::Obj(vec![
        ("a".to_string(), Json::Str("v".to_string())),
        ("b".to_string(), Json::Num("3".to_string())),
        (
            "c".to_string(),
            Json::Arr(vec![Json::Bool(true), Json::Str("v".to_string())]),
        ),
    ]);
    assert_eq!(rendered, expected);
}

#[test]
fn test_render_value_without_templates_is_identity() {
    let mut engine = Engine::new();
    let context = test_context();
    let value = Json::Obj(vec![
        ("s".to_string(), Json::Str("plain text".to_string())),
        ("n".to_string(), Json::Num("42".to_string())),
        ("b".to_string(), Json::Bool(false)),
        ("z".to_string(), Json::Null),
        (
            "arr".to_string(),
            Json::Arr(vec![Json::Str("more".to_string()), Json::Null]),
        ),
    ]);
    let expected = Json::Obj(vec![
        ("s".to_string(), Json::Str("plain text".to_string())),
        ("n".to_string(), Json::Num("42".to_string())),
        ("b".to_string(), Json::Bool(false)),
        ("z".to_string(), Json::Null),
        (
            "arr".to_string(),
            Json::Arr(vec![Json::Str("more".to_string()), Json::Null]),
        ),
    ]);
    let rendered = engine.render_value("any", &value, &context).expect("render");
    assert_eq!(rendered, expected);
}

#[test]
fn test_render_map_preserves_key_order() {
    let mut engine = Engine::new();
    let context = test_context();
    let mut map = Dict::new();
    map.insert("zeta".to_string(), "1".to_string());
    map.insert("alpha".to_string(), "{{context.test}}".to_string());
    map.insert("mid".to_string(), "3".to_string());
    let rendered = engine.render_map("ordered", &map, &context).expect("render map");
    assert_eq!(rendered.len(), 3);
    assert_eq!(rendered.key_at(0).as_str(), "zeta");
    assert_eq!(rendered.key_at(1).as_str(), "alpha");
    assert_eq!(rendered.key_at(2).as_str(), "mid");
    assert_eq!(rendered.val_at(1).as_str(), "test");
}

#[test]
fn test_render_string_reports_template_error_with_name() {
    let mut engine = Engine::new();
    let context = test_context();
    let result = engine.render_string("file.yaml#/url", "{{ unclosed", &context);
    match result {
        Err(apix::error::ApixError::Template { name, .. }) => {
            assert_eq!(name, "file.yaml#/url");
        }
        other => panic!("expected a template error, got {:?}", other),
    }
}

#[test]
fn test_render_string_overwrites_registration() {
    let mut engine = Engine::new();
    let context = test_context();
    let first = engine
        .render_string("same", "{{context.test}}", &context)
        .expect("first render");
    assert_eq!(first, "test");
    let second = engine.render_string("same", "other", &context).expect("second render");
    assert_eq!(second, "other");
}

#[test]
fn test_render_map_empty() {
    let mut engine = Engine::new();
    let context = test_context();
    let rendered = engine.render_map("none", &Dict::new(), &context).expect("render map");
    assert_eq!(rendered.len(), 0);
}

#[test]
fn test_render_value_array_error_names_element() {
    let mut engine = Engine::new();
    let context = test_context();
    let value = Json::Arr(vec![
        Json::Str("fine".to_string()),
        Json::Str("{{ missing_variable }}".to_string()),
    ]);
    match engine.render_value("test", &value, &context) {
        Err(apix::error::ApixError::Template { name, .. }) => {
            assert_eq!(name, "test.1");
        }
        other => panic!("expected a template error, got {:?}", other),
    }
}

#[test]
fn test_failed_registration_does_not_poison_the_engine() {
    let mut engine = Engine::new();
    let context = test_context();
    let broken = engine.render_string("a", "{% extends \"missing\" %}", &context);
    assert!(broken.is_err());
    let plain = engine.render_string("b", "plain", &context).expect("plain text");
    assert_eq!(plain, "plain");
    let substituted = engine
        .render_string("c", "{{context.test}}", &context)
        .expect("render after recovery");
    assert_eq!(substituted, "test");
}

#[test]
fn test_render_map_all_static_values_cannot_fail() {
    let mut engine = Engine::new();
    let context = test_context();
    let mut map = Dict::new();
    map.insert("a".to_string(), "one".to_string());
    map.insert("b".to_string(), "two".to_string());
    let rendered = engine.render_map("static", &map, &context).expect("static map");
    assert_eq!(rendered.val_at(0).as_str(), "one");
    assert_eq!(rendered.val_at(1).as_str(), "two");
}
