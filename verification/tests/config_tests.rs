//! Configuration defaults and YAML parsing.

use apix::config::ApixConfig;
use apix::manifest::ApixConfiguration;

#[test]
fn config_test_default_config() {
    let config = ApixConfig::default();
    assert_eq!(config.get("theme").unwrap(), "Coldark-Dark");
}

#[test]
fn config_test_default_config_deserialize() {
    let config = "
      rust: \"rust\"
    ";
    let config = ApixConfig::load_from_string(config).unwrap();
    assert_eq!(config.get("theme").unwrap(), "Coldark-Dark");
    assert_eq!(config.get("rust").unwrap(), "rust");
}

#[test]
fn config_test_config_deserialize() {
    let config = "
      theme: \"Coldark-Dark\"
      rust: \"rust\"
    ";
    let config = ApixConfig::load_from_string(config).unwrap();
    assert_eq!(config.get("theme").unwrap(), "Coldark-Dark");
    assert_eq!(config.get("rust").unwrap(), "rust");
}

#[test]
fn test_default_config() {
    let config = ApixConfiguration::default();
    assert_eq!(config.get("theme").unwrap(), "Monokai Extended");
}

#[test]
fn test_config_rejects_bad_yaml() {
    let result = ApixConfig::load_from_string("theme: [not, a, string, map");
    match result {
        Err(apix::error::ApixError::Serialization(_)) => {}
        other => panic!("expected a serialization error, got {:?}", other),
    }
}

#[test]
fn test_config_keeps_entry_order() {
    let config = ApixConfig::load_from_string("b: \"2\"\na: \"1\"\ntheme: \"x\"\n").unwrap();
    let entries = config.entries();
    assert_eq!(entries.key_at(0).as_str(), "b");
    assert_eq!(entries.key_at(1).as_str(), "a");
    assert_eq!(entries.key_at(2).as_str(), "theme");
    assert_eq!(entries.len(), 3);
}

#[test]
fn test_config_set_get_delete() {
    let mut config = ApixConfig::default();
    assert_eq!(config.set("theme".to_string(), "Nord".to_string()).unwrap(), "Coldark-Dark");
    assert_eq!(config.get("theme").unwrap(), "Nord");
    assert_eq!(config.delete("theme").unwrap(), "Nord");
    assert!(config.get("theme").is_none());
}

#[test]
fn test_configuration_from_manifest() {
    let mut index = apix::dict::Dict::new();
    index.insert("rust".to_string(), "rust".to_string());
    let manifest = apix::manifest::ApixManifest::new_configuration(Some(
        apix::manifest::ApixConfiguration { index },
    ));
    let config = apix::manifest::configuration_from_manifest(&manifest).unwrap();
    assert_eq!(config.get("theme").unwrap(), "Monokai Extended");
    assert_eq!(config.get("rust").unwrap(), "rust");

    let wrong = apix::manifest::ApixManifest::new_api("thing".to_string(), None);
    match apix::manifest::configuration_from_manifest(&wrong) {
        Err(apix::error::ApixError::Manifest(_)) => {}
        other => panic!("expected a manifest error, got {:?}", other),
    }
}

#[test]
fn test_configuration_keeps_a_theme_already_set() {
    let mut index = apix::dict::Dict::new();
    index.insert("theme".to_string(), "Coldark-Dark".to_string());
    index.insert("rust".to_string(), "rust".to_string());
    let manifest = apix::manifest::ApixManifest::new_configuration(Some(
        apix::manifest::ApixConfiguration { index },
    ));
    let config = apix::manifest::configuration_from_manifest(&manifest).unwrap();
    assert_eq!(config.get("theme").unwrap(), "Coldark-Dark");
    assert_eq!(config.get("rust").unwrap(), "rust");
}
