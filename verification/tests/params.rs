use melops::params::{OutputPaths, OutputTemplates};
use melops::index::ResourceCache;

fn entries(m: &Option<ResourceCache<String, String>>) -> Vec<(String, String)> {
    let mut v: Vec<(String, String)> = m.as_ref().unwrap().entries().clone();
    v.sort();
    v
}

fn pairs(items: &[(&str, &str)]) -> Vec<(String, String)> {
    let mut v: Vec<(String, String)> = items.iter().map(|(k, v)| (k.to_string(), v.to_string())).collect();
    v.sort();
    v
}

#[test]
fn output_templates_default() {
    let templates = OutputTemplates::default();
    assert!(templates.0.is_none());
}

#[test]
fn output_templates_simple() {
    let templates = OutputTemplates::simple("%(title)s.%(ext)s".to_string());
    assert_eq!(entries(&templates.0), pairs(&[("default", "%(title)s.%(ext)s")]));
}

#[test]
fn output_templates_custom() {
    let mut map = ResourceCache::new();
    map.insert("default".to_string(), "%(title)s.%(ext)s".to_string());
    map.insert("infojson".to_string(), "metadata/%(title)s.json".to_string());

    let templates = OutputTemplates(Some(map));
    assert_eq!(
        entries(&templates.0),
        pairs(&[("default", "%(title)s.%(ext)s"), ("infojson", "metadata/%(title)s.json")])
    );
}

#[test]
fn paths_custom() {
    let mut map = ResourceCache::new();
    map.insert("home".to_string(), "/custom/downloads".to_string());
    map.insert("temp".to_string(), "/custom/temp".to_string());
    map.insert("infojson".to_string(), "/custom/metadata".to_string());

    let paths = OutputPaths(Some(map));
    assert_eq!(
        entries(&paths.0),
        pairs(&[("home", "/custom/downloads"), ("temp", "/custom/temp"), ("infojson", "/custom/metadata")])
    );
}

#[test]
fn paths_simple_has_home_and_temp() {
    let paths = OutputPaths::simple("/downloads", "/tmp");
    assert_eq!(entries(&paths.0), pairs(&[("home", "/downloads"), ("temp", "/tmp")]));
}

#[test]
fn with_home_replaces_home_only() {
    let paths = OutputPaths::simple("/a", "/t").with_home("/b");
    assert_eq!(entries(&paths.0), pairs(&[("home", "/b"), ("temp", "/t")]));
    let paths = OutputPaths::default().with_temp("/t2");
    assert_eq!(entries(&paths.0), pairs(&[("temp", "/t2")]));
}
