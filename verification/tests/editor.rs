use depedit::dep::{Dependency, DependencyOrigin, Feature};
use depedit::document::{DependencyType, DocError, Document, PackageSource};
use depedit::encode::{encode_dep, DepValue};

fn feature(name: &str, is_default: bool, is_enabled: bool) -> Feature {
    Feature { name: name.to_string(), is_default, is_enabled }
}

fn dep(name: &str, version: &str, origin: DependencyOrigin, features: Vec<Feature>) -> Dependency {
    Dependency {
        dep_name: name.to_string(),
        name: name.to_string(),
        version: version.to_string(),
        origin,
        features,
    }
}

fn source(text: &str, deps: Vec<Dependency>) -> PackageSource {
    PackageSource {
        name: "demo".to_string(),
        dir_path: "demo".to_string(),
        dependency_type: DependencyType::Normal,
        manifest_text: text.to_string(),
        dependencies: deps,
    }
}

const BASE: &str = "# keep me\n[package]\nname = \"demo\"\n\n[dependencies]\nserde = \"1.0\"\nleft = \"2.0\"\n";

#[test]
fn write_dep_idempotent() {
    let d = dep("serde", "1.0", DependencyOrigin::Remote, vec![feature("derive", false, true)]);
    let mut doc = Document::new(vec![source(BASE, vec![d])]).unwrap();
    let first = doc.write_dep(0, 0).unwrap();
    let second = doc.write_dep(0, 0).unwrap();
    assert_eq!(first, second);
}

#[test]
fn plain_dependency_stays_shorthand() {
    let d = dep("serde", "1.0", DependencyOrigin::Remote, vec![feature("std", true, true)]);
    let mut doc = Document::new(vec![source(BASE, vec![d])]).unwrap();
    let out = doc.write_dep(0, 0).unwrap();
    assert!(out.contains("serde = \"1.0\""));
    assert!(!out.contains("serde = {"));
}

#[test]
fn shorthand_write_keeps_file_identical() {
    let d = dep("serde", "1.0", DependencyOrigin::Remote, vec![]);
    let mut doc = Document::new(vec![source(BASE, vec![d])]).unwrap();
    let out = doc.write_dep(0, 0).unwrap();
    assert_eq!(out, BASE);
}

#[test]
fn disabled_default_feature_writes_default_features_false() {
    let d = dep("serde", "1.0", DependencyOrigin::Remote, vec![feature("std", true, false)]);
    let mut doc = Document::new(vec![source(BASE, vec![d])]).unwrap();
    let out = doc.write_dep(0, 0).unwrap();
    assert!(out.contains("default-features = false"));
}

#[test]
fn kept_default_features_never_written() {
    let d = dep("serde", "1.0", DependencyOrigin::Remote, vec![feature("derive", false, true)]);
    let mut doc = Document::new(vec![source(BASE, vec![d])]).unwrap();
    let out = doc.write_dep(0, 0).unwrap();
    assert!(!out.contains("default-features"));
    assert!(out.contains("features = [\"derive\"]"));
}

#[test]
fn features_written_in_sorted_order() {
    let d = dep(
        "serde",
        "1.0",
        DependencyOrigin::Remote,
        vec![feature("b", false, true), feature("a", false, true), feature("c", false, true)],
    );
    let mut doc = Document::new(vec![source(BASE, vec![d])]).unwrap();
    let out = doc.write_dep(0, 0).unwrap();
    assert!(out.contains("features = [\"a\", \"b\", \"c\"]"));
}

#[test]
fn encode_sorts_features_lexicographically() {
    let d = dep(
        "x",
        "1",
        DependencyOrigin::Remote,
        vec![feature("b", false, true), feature("a", false, true), feature("c", false, true)],
    );
    match encode_dep(&d) {
        DepValue::Expanded(t) => {
            let fs = t.features.unwrap();
            assert_eq!(fs, vec!["a".to_string(), "b".to_string(), "c".to_string()]);
        }
        DepValue::Plain(_) => panic!("expected expanded form"),
    }
}

#[test]
fn encode_plain_for_simple_remote() {
    let d = dep("x", "1.2", DependencyOrigin::Remote, vec![feature("std", true, true)]);
    match encode_dep(&d) {
        DepValue::Plain(v) => assert_eq!(v, "1.2".to_string()),
        DepValue::Expanded(_) => panic!("expected shorthand form"),
    }
}

#[test]
fn local_origin_always_expands_with_path() {
    let d = dep("x", "", DependencyOrigin::Local("../x".to_string()), vec![]);
    match encode_dep(&d) {
        DepValue::Expanded(t) => {
            assert_eq!(t.loc_path, Some("../x".to_string()));
            assert_eq!(t.version, None);
            assert_eq!(t.features, None);
            assert_eq!(t.default_features, None);
        }
        DepValue::Plain(_) => panic!("expected expanded form"),
    }
}

#[test]
fn local_origin_written_with_path_entry() {
    let d = dep("x", "", DependencyOrigin::Local("../x".to_string()), vec![]);
    let text = "[dependencies]\nx = \"0.1\"\n";
    let mut doc = Document::new(vec![source(text, vec![d])]).unwrap();
    let out = doc.write_dep(0, 0).unwrap();
    assert!(out.contains("x = { path = \"../x\" }"));
}

#[test]
fn unrelated_content_is_preserved() {
    let d = dep(
        "serde",
        "1.0",
        DependencyOrigin::Remote,
        vec![feature("derive", false, true)],
    );
    let keep = dep("left", "2.0", DependencyOrigin::Remote, vec![]);
    let mut doc = Document::new(vec![source(BASE, vec![d, keep])]).unwrap();
    let out = doc.write_dep(0, 0).unwrap();
    assert!(out.contains("# keep me\n"));
    assert!(out.contains("left = \"2.0\"\n"));
    assert!(out.contains("serde = { version = \"1.0\", features = [\"derive\"] }"));
}

#[test]
fn fuzzy_filter_ranks_subsequence_match() {
    let deps = vec![
        dep("serde", "1", DependencyOrigin::Remote, vec![]),
        dep("serde_json", "1", DependencyOrigin::Remote, vec![]),
        dep("tokio", "1", DependencyOrigin::Remote, vec![]),
    ];
    let doc = Document::new(vec![source(BASE, deps)]).unwrap();
    let view = doc.get_deps_filtered_view(0, "sj");
    assert!(!view.is_empty());
    assert_eq!(view[0].name, "serde_json");
    for item in &view {
        assert_ne!(item.name, "tokio");
    }
}

#[test]
fn fuzzy_filter_empty_query_keeps_order() {
    let deps = vec![
        dep("serde", "1", DependencyOrigin::Remote, vec![]),
        dep("serde_json", "1", DependencyOrigin::Remote, vec![]),
        dep("tokio", "1", DependencyOrigin::Remote, vec![]),
    ];
    let doc = Document::new(vec![source(BASE, deps)]).unwrap();
    let view = doc.get_deps_filtered_view(0, "");
    let names: Vec<&str> = view.iter().map(|i| i.name.as_str()).collect();
    assert_eq!(names, vec!["serde", "serde_json", "tokio"]);
}

#[test]
fn fuzzy_filter_reports_match_positions() {
    let deps = vec![dep("serde", "1", DependencyOrigin::Remote, vec![])];
    let doc = Document::new(vec![source(BASE, deps)]).unwrap();
    let view = doc.get_deps_filtered_view(0, "sd");
    assert_eq!(view.len(), 1);
    assert_eq!(view[0].match_indexes, vec![0, 3]);
}

#[test]
fn get_dep_index_finds_position() {
    let deps = vec![
        dep("a", "1", DependencyOrigin::Remote, vec![]),
        dep("b", "1", DependencyOrigin::Remote, vec![]),
        dep("c", "1", DependencyOrigin::Remote, vec![]),
    ];
    let doc = Document::new(vec![source(BASE, deps)]).unwrap();
    assert_eq!(doc.get_dep_index(0, &"b".to_string()).unwrap(), 1);
    let missing = doc.get_dep_index(0, &"z".to_string());
    assert!(matches!(missing, Err(DocError::NotFound(n)) if n == "z"));
}

#[test]
fn get_dep_finds_by_effective_name() {
    let deps = vec![dep("a", "1", DependencyOrigin::Remote, vec![])];
    let doc = Document::new(vec![source(BASE, deps)]).unwrap();
    assert_eq!(doc.get_dep(0, "a").unwrap().version, "1");
    assert!(matches!(doc.get_dep(0, "zz"), Err(DocError::NotFound(_))));
}

#[test]
fn aliased_dependency_found_by_effective_name() {
    let mut aliased = dep("serde_alias", "1", DependencyOrigin::Remote, vec![]);
    aliased.name = "serde".to_string();
    let mut doc = Document::new(vec![source(BASE, vec![aliased])]).unwrap();
    assert_eq!(doc.get_dep(0, "serde").unwrap().dep_name, "serde_alias");
    assert!(matches!(doc.get_dep(0, "serde_alias"), Err(DocError::NotFound(_))));
    assert!(doc.get_dep_mut(0, "serde").is_ok());
}

#[test]
fn workspace_detection_by_package_count() {
    let one = Document::new(vec![source(BASE, vec![])]).unwrap();
    assert!(!one.is_workspace());
    let two = Document::new(vec![source(BASE, vec![]), source(BASE, vec![])]).unwrap();
    assert!(two.is_workspace());
}

#[test]
fn construction_fails_on_invalid_manifest() {
    let bad = Document::new(vec![source("not [ valid toml", vec![])]);
    assert!(matches!(bad, Err(DocError::Parse)));
}

#[test]
fn construction_fails_when_any_member_is_invalid() {
    let bad = Document::new(vec![source(BASE, vec![]), source("x = [", vec![])]);
    assert!(matches!(bad, Err(DocError::Parse)));
}

#[test]
fn write_dep_fails_without_section() {
    let d = dep("serde", "1.0", DependencyOrigin::Remote, vec![]);
    let text = "[package]\nname = \"demo\"\n";
    let mut doc = Document::new(vec![source(text, vec![d])]).unwrap();
    assert!(matches!(doc.write_dep(0, 0), Err(DocError::SectionNotFound)));
}

#[test]
fn write_dep_by_name_resolves_and_writes() {
    let deps = vec![
        dep("left", "2.0", DependencyOrigin::Remote, vec![]),
        dep("serde", "1.0", DependencyOrigin::Remote, vec![feature("derive", false, true)]),
    ];
    let mut doc = Document::new(vec![source(BASE, deps)]).unwrap();
    let out = doc.write_dep_by_name(0, "serde").unwrap();
    assert!(out.contains("serde = { version = \"1.0\", features = [\"derive\"] }"));
    let missing = doc.write_dep_by_name(0, "nope");
    assert!(matches!(missing, Err(DocError::NotFound(n)) if n == "nope"));
}

#[test]
fn mutate_then_write_uses_new_state() {
    let d = dep("serde", "1.0", DependencyOrigin::Remote, vec![feature("std", true, true)]);
    let mut doc = Document::new(vec![source(BASE, vec![d])]).unwrap();
    {
        let dep_ref = doc.get_dep_mut(0, "serde").unwrap();
        dep_ref.features[0].is_enabled = false;
    }
    let out = doc.write_dep(0, 0).unwrap();
    assert!(out.contains("serde = { version = \"1.0\", default-features = false }"));
}

#[test]
fn get_dep_mut_reports_missing_name() {
    let mut doc = Document::new(vec![source(BASE, vec![dep("a", "1", DependencyOrigin::Remote, vec![])])])
        .unwrap();
    let missing = doc.get_dep_mut(0, "zz");
    assert!(matches!(missing, Err(DocError::NotFound(n)) if n == "zz"));
}

#[test]
fn workspace_write_fails_without_workspace_section() {
    let d = dep("serde", "1.0", DependencyOrigin::Remote, vec![]);
    let mut src = source("[dependencies]\nserde = \"1.0\"\n", vec![d]);
    src.dependency_type = DependencyType::Workspace;
    let mut doc = Document::new(vec![src]).unwrap();
    assert!(matches!(doc.write_dep(0, 0), Err(DocError::SectionNotFound)));
}

#[test]
fn accessors_report_packages() {
    let doc = Document::new(vec![source(BASE, vec![dep("a", "1", DependencyOrigin::Remote, vec![])])])
        .unwrap();
    assert_eq!(doc.get_packages_names(), vec!["demo".to_string()]);
    assert_eq!(doc.get_package(0).unwrap().name, "demo");
    assert!(doc.get_package(7).is_none());
    assert_eq!(doc.get_deps(0).len(), 1);
}

#[test]
fn get_deps_mut_allows_in_place_edits() {
    let mut doc = Document::new(vec![source(BASE, vec![dep("a", "1", DependencyOrigin::Remote, vec![])])])
        .unwrap();
    doc.get_deps_mut(0)[0].version = "3.3".to_string();
    assert_eq!(doc.get_deps(0)[0].version, "3.3");
}

#[test]
fn dependency_feature_queries() {
    let d = dep(
        "x",
        "1",
        DependencyOrigin::Remote,
        vec![feature("std", true, false), feature("extra", false, true)],
    );
    assert!(!d.can_use_default());
    assert_eq!(d.get_features_to_enable(), vec!["extra".to_string()]);
    let ok = dep("x", "1", DependencyOrigin::Remote, vec![feature("std", true, true)]);
    assert!(ok.can_use_default());
    assert!(ok.get_features_to_enable().is_empty());
    assert!(ok.origin.is_remote());
}

#[test]
fn workspace_section_path_is_dotted() {
    let d = dep("serde", "1.0", DependencyOrigin::Remote, vec![]);
    let text = "[workspace]\nmembers = []\n\n[workspace.dependencies]\nserde = \"0.9\"\n";
    let mut src = source(text, vec![d]);
    src.dependency_type = DependencyType::Workspace;
    let mut doc = Document::new(vec![src]).unwrap();
    let out = doc.write_dep(0, 0).unwrap();
    assert!(out.contains("serde = \"1.0\""));
    assert!(out.contains("[workspace.dependencies]"));
}
