//! Tests of the registry, the tree scan, the bounded scheduler, and the
//! rendered report, including the end-to-end scenarios.

use ent::recipes::{ParserKind, Recipe};
use ent::reconcile::{
    reconcile_fetched, sort_updates, Reconciler, RequiredUpdate, VersionResponse,
};
use ent::registry::{ParserRegistration, Registry};
use ent::render::{render, u64_to_string};
use ent::scan::{path_matches_any, scan_files, FileEntry};
use ent::strorder::str_le;
use ent::summit::BuildStatus;

fn entry(path: &str, contents: &str, yaml: Option<&str>, yml: Option<&str>) -> FileEntry {
    FileEntry {
        path: path.to_string(),
        contents: contents.to_string(),
        sidecar_yaml: yaml.map(|s| s.to_string()),
        sidecar_yml: yml.map(|s| s.to_string()),
    }
}

fn stable_response(v: &str) -> VersionResponse {
    VersionResponse {
        latest_version: None,
        stable_versions: vec![v.to_string()],
        versions: Vec::new(),
    }
}

fn plain_recipe(name: &str, version: &str, project_id: i64) -> Recipe {
    Recipe {
        name: name.to_string(),
        version: version.to_string(),
        monitoring: Some(ent::monitoring::Monitoring { project_id, cpes: Vec::new() }),
    }
}

#[test]
fn standard_registry_has_two_unique_registrations() {
    let reg = Registry::standard();
    let all = reg.all();
    assert_eq!(all.len(), 2);
    assert_eq!(all[0].name, "stone_recipe");
    assert_eq!(all[1].name, "ypkg_recipe");
    let pairs = reg.patterns();
    assert_eq!(pairs.len(), 2);
    assert_eq!(pairs[0].0, "*/stone.yaml");
    assert_eq!(pairs[1].0, "*/package.yml");
}

#[test]
fn register_refuses_duplicate_name() {
    let mut reg = Registry::standard();
    let dup = ParserRegistration {
        name: "stone_recipe".to_string(),
        kind: ParserKind::Stone,
        patterns: vec!["*/other.yaml".to_string()],
    };
    assert!(!reg.register(dup));
    assert_eq!(reg.all().len(), 2);
    let fresh = ParserRegistration {
        name: "third".to_string(),
        kind: ParserKind::Ypkg,
        patterns: vec!["*/third.yml".to_string()],
    };
    assert!(reg.register(fresh));
    assert_eq!(reg.all().len(), 3);
}

#[test]
fn registry_builds_up_from_empty() {
    let mut reg = Registry::new();
    assert!(reg.all().is_empty());
    assert!(reg.register(ParserRegistration {
        name: "solo".to_string(),
        kind: ParserKind::Stone,
        patterns: vec!["*/stone.yaml".to_string(), "*/extra.yaml".to_string()],
    }));
    let pairs = reg.patterns();
    assert_eq!(pairs.len(), 2);
    assert_eq!(pairs[0].0, "*/stone.yaml");
    assert_eq!(pairs[1].0, "*/extra.yaml");
}

#[test]
fn patterns_match_nested_paths_only() {
    let reg = Registry::standard();
    assert!(path_matches_any(&reg, "pkg-a/stone.yaml"));
    assert!(path_matches_any(&reg, "tree/deep/pkg/package.yml"));
    assert!(!path_matches_any(&reg, "stone.yaml"));
    assert!(!path_matches_any(&reg, "pkg-a/README.md"));
}

#[test]
fn scan_of_no_files_is_empty() {
    let reg = Registry::standard();
    let out = scan_files(&reg, &Vec::new());
    assert!(out.recipes.is_empty());
    assert!(out.errors.is_empty());
}

#[test]
fn scan_finds_one_recipe_per_matching_file() {
    let reg = Registry::standard();
    let entries = vec![
        entry("a/stone.yaml", "name: a\nversion: \"1\"\n", None, None),
        entry("notes.txt", "irrelevant", None, None),
        entry("b/package.yml", "name: b\nversion: \"2\"\n", None, None),
    ];
    let out = scan_files(&reg, &entries);
    assert_eq!(out.recipes.len(), 2);
    assert_eq!(out.recipes[0].name, "a");
    assert_eq!(out.recipes[1].name, "b");
    assert!(out.errors.is_empty());
}

#[test]
fn scan_collects_errors_and_continues() {
    let reg = Registry::standard();
    let entries = vec![
        entry("bad/stone.yaml", "name: [oops\n", None, None),
        entry("good/stone.yaml", "name: good\nversion: \"1\"\n", None, None),
    ];
    let out = scan_files(&reg, &entries);
    assert_eq!(out.recipes.len(), 1);
    assert_eq!(out.recipes[0].name, "good");
    assert_eq!(out.errors.len(), 1);
}

#[test]
fn scheduler_caps_in_flight_lookups() {
    let recipes: Vec<Recipe> =
        (0..5i64).map(|i| plain_recipe(&format!("p{}", i), "1", i + 1)).collect();
    let mut rec = Reconciler::new(recipes, 2);
    let a = rec.start().expect("first start");
    let b = rec.start().expect("second start");
    assert!(rec.start().is_none(), "cap of 2 must refuse a third start");
    assert_eq!(rec.in_flight_count(), 2);
    assert!(rec.is_in_flight(a.0));
    rec.complete(a.0, None);
    assert_eq!(rec.in_flight_count(), 1);
    let c = rec.start().expect("slot freed");
    rec.complete(b.0, None);
    rec.complete(c.0, None);
    let d = rec.start().expect("fourth");
    let e = rec.start().expect("fifth");
    assert!(rec.start().is_none(), "no recipes left");
    rec.complete(d.0, None);
    rec.complete(e.0, None);
    assert!(rec.is_done());
    assert!(rec.into_updates().is_empty());
}

#[test]
fn scheduler_records_contributions_on_completion() {
    let recipes = vec![plain_recipe("pkg", "1.0", 42)];
    let mut rec = Reconciler::new(recipes, 32);
    let (token, pid) = rec.start().expect("start");
    assert_eq!(pid, Some(42));
    rec.complete(token, Some(&stable_response("1.1")));
    assert!(rec.is_done());
    let ups = rec.into_updates();
    assert_eq!(ups.len(), 1);
    assert_eq!(ups[0].source, "pkg");
    assert_eq!(ups[0].current_version, "1.0");
    assert_eq!(ups[0].latest_version, "1.1");
}

#[test]
fn untracked_recipes_contribute_nothing() {
    let recipes = vec![
        Recipe { name: "n".to_string(), version: "1".to_string(), monitoring: None },
        plain_recipe("z", "1", 0),
    ];
    let responses = vec![Some(stable_response("9")), Some(stable_response("9"))];
    let out = reconcile_fetched(recipes, &responses, 32);
    assert!(out.is_empty());
}

#[test]
fn end_to_end_update_detected() {
    let reg = Registry::standard();
    let entries = vec![entry(
        "pkg-a/stone.yaml",
        "name: pkg-a\nversion: \"1.0\"\n",
        Some("releases:\n  id: 42\n"),
        None,
    )];
    let out = scan_files(&reg, &entries);
    assert_eq!(out.recipes.len(), 1);
    assert_eq!(out.recipes[0].monitoring.as_ref().unwrap().project_id, 42);
    let responses = vec![Some(stable_response("1.1"))];
    let ups = reconcile_fetched(out.recipes, &responses, 32);
    assert_eq!(ups.len(), 1);
    assert_eq!(ups[0].source, "pkg-a");
    assert_eq!(ups[0].current_version, "1.0");
    assert_eq!(ups[0].latest_version, "1.1");
}

#[test]
fn end_to_end_no_update_when_versions_match() {
    let reg = Registry::standard();
    let entries = vec![entry(
        "pkg-a/stone.yaml",
        "name: pkg-a\nversion: \"1.0\"\n",
        Some("releases:\n  id: 42\n"),
        None,
    )];
    let out = scan_files(&reg, &entries);
    let responses = vec![Some(stable_response("1.0"))];
    let ups = reconcile_fetched(out.recipes, &responses, 32);
    assert!(ups.is_empty());
}

#[test]
fn sort_orders_by_source_bytewise() {
    let mk = |s: &str| RequiredUpdate {
        source: s.to_string(),
        current_version: "1".to_string(),
        latest_version: "2".to_string(),
    };
    let v = vec![mk("zlib"), mk("Apache"), mk("abc"), mk("ab")];
    let out = sort_updates(&v);
    let names: Vec<&str> = out.iter().map(|u| u.source.as_str()).collect();
    assert_eq!(names, ["Apache", "ab", "abc", "zlib"]);
}

#[test]
fn str_le_is_code_point_order() {
    assert!(str_le("a", "b"));
    assert!(!str_le("b", "a"));
    assert!(str_le("ab", "abc"));
    assert!(!str_le("abc", "ab"));
    assert!(str_le("same", "same"));
    assert!(str_le("Zoo", "apple"));
}

#[test]
fn numbers_render_in_decimal() {
    assert_eq!(u64_to_string(0), "0");
    assert_eq!(u64_to_string(10), "10");
    assert_eq!(u64_to_string(90210), "90210");
}

#[test]
fn report_renders_fixed_width_columns() {
    let ups = vec![
        RequiredUpdate {
            source: "pkg-a".to_string(),
            current_version: "1.0".to_string(),
            latest_version: "1.1".to_string(),
        },
        RequiredUpdate {
            source: "verylongname".to_string(),
            current_version: "2".to_string(),
            latest_version: "10.0.1".to_string(),
        },
    ];
    let text = render(&ups);
    let expected = "\nTotal packages to update: 2\n\n\
                    Package      Current Latest\n\
                    ------------ --- ------\n\
                    pkg-a        1.0 1.1   \n\
                    verylongname 2   10.0.1\n";
    assert_eq!(text, expected);
}

#[test]
fn empty_report_renders_header_and_zero_count() {
    let text = render(&Vec::new());
    assert_eq!(text, "\nTotal packages to update: 0\n\nPackage Current Latest\n  \n");
}

#[test]
fn build_status_decodes_codes() {
    assert_eq!(BuildStatus::from(0), BuildStatus::New);
    assert_eq!(BuildStatus::from(1), BuildStatus::Failed);
    assert_eq!(BuildStatus::from(2), BuildStatus::Building);
    assert_eq!(BuildStatus::from(3), BuildStatus::Publishing);
    assert_eq!(BuildStatus::from(4), BuildStatus::Completed);
    assert_eq!(BuildStatus::from(5), BuildStatus::Blocked);
    assert_eq!(BuildStatus::from(77), BuildStatus::Failed);
}
