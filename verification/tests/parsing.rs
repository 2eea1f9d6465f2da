//! Tests of monitoring and recipe document parsing.

use ent::monitoring::{Error, Monitoring};
use ent::recipes::{parse_recipe_document, render_recipe_document, RecipeError};

#[test]
fn monitoring_full_document() {
    let doc = "releases:\n  id: 42\nsecurity:\n  cpe:\n    - vendor: acme\n      product: widget\n";
    let m = Monitoring::from_str(doc).unwrap();
    assert_eq!(m.project_id, 42);
    assert_eq!(m.cpes.len(), 1);
    assert_eq!(m.cpes[0].vendor, "acme");
    assert_eq!(m.cpes[0].product, "widget");
}

#[test]
fn monitoring_missing_sections_default() {
    let m = Monitoring::from_str("other: 1\n").unwrap();
    assert_eq!(m.project_id, 0);
    assert!(m.cpes.is_empty());
}

#[test]
fn monitoring_missing_id_defaults_to_zero() {
    let m = Monitoring::from_str("releases: {}\n").unwrap();
    assert_eq!(m.project_id, 0);
}

#[test]
fn monitoring_malformed_is_parse_error() {
    let r = Monitoring::from_str("releases: [1, 2\n");
    assert!(matches!(r, Err(Error::ParseError)));
}

#[test]
fn recipe_document_parses_name_and_version() {
    let r = parse_recipe_document("a/package.yml", "name: pkg\nversion: \"1.0\"\n", None, None)
        .unwrap();
    assert_eq!(r.name, "pkg");
    assert_eq!(r.version, "1.0");
    assert!(r.monitoring.is_none());
}

#[test]
fn recipe_document_missing_version_is_invalid() {
    let r = parse_recipe_document("a/package.yml", "name: pkg\n", None, None);
    match r {
        Err(RecipeError::InvalidRecipe(path)) => assert_eq!(path, "a/package.yml"),
        other => panic!("expected InvalidRecipe, got {:?}", other),
    }
}

#[test]
fn recipe_document_empty_name_is_invalid() {
    let r = parse_recipe_document("p", "name: \"\"\nversion: \"1\"\n", None, None);
    assert!(matches!(r, Err(RecipeError::InvalidRecipe(_))));
}

#[test]
fn recipe_document_malformed_is_invalid() {
    let r = parse_recipe_document("p", "name: [oops\n", None, None);
    assert!(matches!(r, Err(RecipeError::InvalidRecipe(_))));
}

#[test]
fn sidecar_yaml_preferred_over_yml() {
    let r = parse_recipe_document(
        "a/stone.yaml",
        "name: pkg\nversion: \"1.0\"\n",
        Some("releases:\n  id: 7\n"),
        Some("releases:\n  id: 9\n"),
    )
    .unwrap();
    assert_eq!(r.monitoring.unwrap().project_id, 7);
}

#[test]
fn sidecar_yml_used_when_yaml_absent() {
    let r = parse_recipe_document(
        "a/stone.yaml",
        "name: pkg\nversion: \"1.0\"\n",
        None,
        Some("releases:\n  id: 9\n"),
    )
    .unwrap();
    assert_eq!(r.monitoring.unwrap().project_id, 9);
}

#[test]
fn malformed_sidecar_degrades_to_no_monitoring() {
    let r = parse_recipe_document(
        "a/stone.yaml",
        "name: pkg\nversion: \"1.0\"\n",
        Some("releases: [1, 2\n"),
        None,
    )
    .unwrap();
    assert!(r.monitoring.is_none());
}

#[test]
fn recipe_round_trip_keeps_name_and_version() {
    let doc = "name: \"pkg-a\"\nversion: \"1.2.3\"\n";
    let first = parse_recipe_document("a/package.yml", doc, None, None).unwrap();
    let rendered = render_recipe_document(&first.name, &first.version);
    let second = parse_recipe_document("a/package.yml", &rendered, None, None).unwrap();
    assert_eq!(first.name, second.name);
    assert_eq!(first.version, second.version);
}
