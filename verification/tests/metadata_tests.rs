use cargo_diagnose::metadata::{parse_dependencies, PackageEntry, ProjectMetadata, ResolveNode};

fn package(name: &str, version: &str, id: &str) -> PackageEntry {
    PackageEntry { id: id.to_string(), name: name.to_string(), version: version.to_string() }
}

fn node(id: &str, deps: &[&str]) -> ResolveNode {
    ResolveNode { id: id.to_string(), dependencies: deps.iter().map(|d| d.to_string()).collect() }
}

const DIRECT: &str = "direct-dep 1.0.0 (registry+https://github.com/rust-lang/crates.io-index)";
const TRANSITIVE: &str = "transitive-dep 0.5.0 (registry+https://github.com/rust-lang/crates.io-index)";

fn sample(member_name: &str) -> ProjectMetadata {
    let member_id = format!("{} 0.1.0 (path+file:///path/to/my-pkg)", member_name);
    ProjectMetadata {
        packages: vec![
            package("direct-dep", "1.0.0", DIRECT),
            package("transitive-dep", "0.5.0", TRANSITIVE),
            package(member_name, "0.1.0", &member_id),
        ],
        workspace_members: vec![member_id.clone()],
        resolve: Some(vec![node(&member_id, &[DIRECT]), node(DIRECT, &[TRANSITIVE])]),
    }
}

#[test]
fn metadata_test_parse_dependencies() {
    let metadata = sample("my-workspace-pkg");
    let deps = parse_dependencies(&metadata);

    assert_eq!(deps.len(), 1);
    assert_eq!(deps[0].name, "direct-dep");
    assert_eq!(deps[0].version, "1.0.0");
}

#[test]
fn metadata_tests_test_parse_dependencies() {
    let metadata = sample("my-pkg");
    let deps = parse_dependencies(&metadata);

    assert_eq!(deps.len(), 1);
    assert_eq!(deps[0].name, "direct-dep");
    assert_eq!(deps[0].version, "1.0.0");
}

#[test]
fn no_resolve_means_no_dependencies() {
    let mut metadata = sample("my-pkg");
    metadata.resolve = None;
    assert!(parse_dependencies(&metadata).is_empty());
}

#[test]
fn dependencies_follow_package_order_without_duplicates() {
    let metadata = ProjectMetadata {
        packages: vec![package("b", "2.0.0", "b-id"), package("a", "1.0.0", "a-id"), package("w", "0.1.0", "w-id"), package("v", "0.1.0", "v-id")],
        workspace_members: vec!["w-id".to_string(), "v-id".to_string()],
        resolve: Some(vec![node("w-id", &["a-id", "b-id"]), node("v-id", &["a-id"]), node("a-id", &["c-id"])]),
    };
    let deps = parse_dependencies(&metadata);
    let names: Vec<&str> = deps.iter().map(|d| d.name.as_str()).collect();
    assert_eq!(names, vec!["b", "a"]);
}
