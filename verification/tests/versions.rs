//! Tests of version sanitization and the version-selection policy.

use ent::reconcile::{evaluate_recipe, select_version, VersionResponse};
use ent::recipes::Recipe;
use ent::monitoring::Monitoring;
use ent::version::{sanitize_version, split_before_delimiters};

fn response(
    latest: Option<&str>,
    stable: &[&str],
    versions: &[&str],
) -> VersionResponse {
    VersionResponse {
        latest_version: latest.map(|s| s.to_string()),
        stable_versions: stable.iter().map(|s| s.to_string()).collect(),
        versions: versions.iter().map(|s| s.to_string()).collect(),
    }
}

fn recipe(name: &str, version: &str, project_id: i64) -> Recipe {
    Recipe {
        name: name.to_string(),
        version: version.to_string(),
        monitoring: Some(Monitoring { project_id, cpes: Vec::new() }),
    }
}

#[test]
fn sanitize_strips_git_suffix() {
    assert_eq!(sanitize_version("1.2.3+git20230101"), "1.2.3");
}

#[test]
fn sanitize_without_marker_is_identity() {
    assert_eq!(sanitize_version("1.2.3"), "1.2.3");
}

#[test]
fn sanitize_is_idempotent_on_values() {
    let once = sanitize_version("2.0+vcs1+git2");
    assert_eq!(once, "2.0");
    assert_eq!(sanitize_version(once), once);
}

#[test]
fn sanitize_takes_earliest_marker() {
    assert_eq!(sanitize_version("5+mur3+git1"), "5");
}

#[test]
fn split_before_delimiters_general() {
    assert_eq!(split_before_delimiters("abcXdef", &["X"]), "abc");
    assert_eq!(split_before_delimiters("abcdef", &["X"]), "abcdef");
    assert_eq!(split_before_delimiters("abZcdXef", &["X", "Z"]), "ab");
}

#[test]
fn selection_prefers_stable() {
    let r = response(Some("1.9"), &["2.0"], &["1.0"]);
    assert_eq!(select_version(&r).unwrap(), "2.0");
}

#[test]
fn selection_falls_back_to_latest() {
    let r = response(Some("1.9"), &[], &["1.0"]);
    assert_eq!(select_version(&r).unwrap(), "1.9");
}

#[test]
fn selection_falls_back_to_first_version() {
    let r = response(None, &[], &["1.0", "0.9"]);
    assert_eq!(select_version(&r).unwrap(), "1.0");
}

#[test]
fn selection_empty_yields_none() {
    let r = response(None, &[], &[]);
    assert!(select_version(&r).is_none());
}

#[test]
fn evaluate_skips_recipe_without_monitoring() {
    let r = Recipe { name: "a".to_string(), version: "1".to_string(), monitoring: None };
    let u = response(None, &["2"], &[]);
    assert!(evaluate_recipe(&r, Some(&u)).is_none());
}

#[test]
fn evaluate_skips_untracked_project_id_zero() {
    let r = recipe("a", "1", 0);
    let u = response(None, &["2"], &[]);
    assert!(evaluate_recipe(&r, Some(&u)).is_none());
}

#[test]
fn evaluate_skips_failed_fetch() {
    let r = recipe("a", "1", 5);
    assert!(evaluate_recipe(&r, None).is_none());
}

#[test]
fn evaluate_emits_update_when_versions_differ() {
    let r = recipe("pkg", "1.0+git7", 5);
    let u = response(None, &["1.1"], &[]);
    let upd = evaluate_recipe(&r, Some(&u)).unwrap();
    assert_eq!(upd.source, "pkg");
    assert_eq!(upd.current_version, "1.0");
    assert_eq!(upd.latest_version, "1.1");
}

#[test]
fn evaluate_silent_when_versions_match() {
    let r = recipe("pkg", "1.1+git7", 5);
    let u = response(None, &["1.1"], &[]);
    assert!(evaluate_recipe(&r, Some(&u)).is_none());
}
