//! Content-type classification.

use apix::http::get_language;

#[test]
fn test_get_language_for_json_mock_http_headers() {
    let language = get_language(&Some("application/json".to_string()));
    assert_eq!(language, Some("json"));
}

#[test]
fn test_get_language_for_xml_mock_http_headers() {
    let language = get_language(&Some("application/xml".to_string()));
    assert_eq!(language, Some("xml"));
}

#[test]
fn test_get_language_for_html_mock_http_headers() {
    let language = get_language(&Some("text/html".to_string()));
    assert_eq!(language, Some("html"));
}

#[test]
fn test_get_language_for_css_mock_http_headers() {
    let language = get_language(&Some("text/css".to_string()));
    assert_eq!(language, Some("css"));
}

#[test]
fn test_get_language_for_javascript_mock_http_headers() {
    let language = get_language(&Some("application/javascript".to_string()));
    assert_eq!(language, Some("js"));
}

#[test]
fn test_get_language_for_txt_mock_http_headers() {
    let language = get_language(&Some("text/plain".to_string()));
    assert_eq!(language, Some("txt"));
}

#[test]
fn test_get_language_for_other_mock_http_headers() {
    let language = get_language(&Some("application/other".to_string()));
    assert_eq!(language, Some("txt"));
}

#[test]
fn test_get_language_without_content_type() {
    assert_eq!(get_language(&None), None);
}

#[test]
fn test_get_language_is_case_insensitive() {
    let language = get_language(&Some("Application/JSON".to_string()));
    assert_eq!(language, Some("json"));
}
