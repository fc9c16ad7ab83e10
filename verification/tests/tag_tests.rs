use tagge_rs::tags::TagEntry;
use tagge_rs::tags::resolve_latest;
use tagge_rs::tags::select_latest;
use tagge_rs::version::SemanticVersion;

fn names(list: &[&str]) -> Vec<String> {
    list.iter().map(|s| s.to_string()).collect()
}

fn entry(name: &str, target: &str, annotated: bool) -> TagEntry {
    TagEntry { name: name.to_string(), target_commit_id: target.to_string(), annotated }
}

#[test]
fn select_picks_strictly_greatest_version() {
    let tags = names(&["v1.2.0", "v1.3.0", "nightly-build"]);
    let (i, v) = select_latest(&tags).unwrap();
    assert_eq!(i, 1);
    assert_eq!(v, SemanticVersion { major: 1, minor: 3, patch: 0 });
}

#[test]
fn select_ignores_order_of_names() {
    let tags = names(&["v2.0.0", "v10.0.0", "v9.9.9"]);
    let (i, v) = select_latest(&tags).unwrap();
    assert_eq!(i, 1);
    assert_eq!(v.major, 10);
}

#[test]
fn select_keeps_first_of_equal_versions() {
    let tags = names(&["v1.2.0", "1.2.0", "v1.2.0"]);
    let (i, _) = select_latest(&tags).unwrap();
    assert_eq!(i, 0);
}

#[test]
fn select_skips_malformed_names_without_error() {
    let tags = names(&["garbage", "v1.0", "v0.1.0", "also-not-a-version"]);
    let (i, v) = select_latest(&tags).unwrap();
    assert_eq!(i, 2);
    assert_eq!(v, SemanticVersion { major: 0, minor: 1, patch: 0 });
}

#[test]
fn select_returns_none_when_nothing_parses() {
    assert!(select_latest(&names(&["garbage", "nightly-build"])).is_none());
    assert!(select_latest(&names(&[])).is_none());
}

#[test]
fn resolve_returns_the_annotated_winner() {
    let tags = vec![
        entry("v1.2.0", "aaa", true),
        entry("v1.3.0", "bbb", true),
        entry("nightly-build", "ccc", false),
    ];
    let t = resolve_latest(&tags).unwrap();
    assert_eq!(t.name, "v1.3.0");
    assert_eq!(t.target_commit_id, "bbb");
    assert_eq!(t.version, SemanticVersion { major: 1, minor: 3, patch: 0 });
}

#[test]
fn resolve_fails_on_lightweight_winner() {
    let tags = vec![entry("v1.2.0", "aaa", true), entry("v1.3.0", "bbb", false)];
    assert!(resolve_latest(&tags).is_none());
}

#[test]
fn resolve_fails_with_no_version_tags() {
    let tags = vec![entry("nightly-build", "ccc", true)];
    assert!(resolve_latest(&tags).is_none());
    assert!(resolve_latest(&Vec::new()).is_none());
}
