//! End-to-end runs of the release-resolution engine on small modelled
//! repositories.

use tagge_rs::changelog::format_commit_lines;
use tagge_rs::changelog::generate_changelog;
use tagge_rs::commits::CommitNode;
use tagge_rs::commits::commit_range;
use tagge_rs::enricher::associate;
use tagge_rs::render::render_changelog_block;
use tagge_rs::tags::TagEntry;
use tagge_rs::tags::resolve_latest;
use tagge_rs::version::SemanticVersion;
use tagge_rs::version::ToVString;
use tagge_rs::version::VersionBump;

fn entry(name: &str, target: &str) -> TagEntry {
    TagEntry { name: name.to_string(), target_commit_id: target.to_string(), annotated: true }
}

fn node(id: &str, summary: &str, parents: &[usize]) -> CommitNode {
    CommitNode { id: id.to_string(), summary: summary.to_string(), parents: parents.to_vec() }
}

#[test]
fn resolver_picks_highest_tag_and_minor_bump_follows() {
    let tags = vec![
        entry("v1.2.0", "aaa"),
        entry("v1.3.0", "bbb"),
        entry("nightly-build", "ccc"),
    ];
    let resolved = resolve_latest(&tags).unwrap();
    assert_eq!(resolved.name, "v1.3.0");
    assert_eq!(resolved.version, SemanticVersion { major: 1, minor: 3, patch: 0 });
    let next = resolved.version.bump(VersionBump::Minor);
    assert_eq!(next.to_v_string(), "v1.4.0");
}

#[test]
fn head_at_resolved_tag_yields_sentinel_changelog() {
    let tags = vec![entry("v1.3.0", "c0")];
    let resolved = resolve_latest(&tags).unwrap();
    // The head commit is the tag's own commit: nothing is ahead.
    let graph = vec![node("c0", "release", &[1]), node("c1", "older", &[])];
    let range = commit_range(&graph, &resolved.target_commit_id);
    assert!(range.is_empty());
    let msgs = format_commit_lines(&range, false, &None);
    assert_eq!(generate_changelog(&msgs), "No new commits since the latest tag.");
    assert_eq!(render_changelog_block(&msgs), "No new commits since the latest tag.\n");
}

#[test]
fn pull_request_markers_annotate_the_commits_ahead() {
    let tags = vec![entry("v1.3.0", "c3")];
    let resolved = resolve_latest(&tags).unwrap();
    // Three commits ahead of the tag, newest first.
    let graph = vec![
        node("aaaaaaaa1111", "newest change", &[1]),
        node("bbbbbbbb2222", "middle change", &[2]),
        node("cccccccc3333", "oldest change", &[3]),
        node("c3", "release", &[]),
    ];
    let range = commit_range(&graph, &resolved.target_commit_id);
    assert_eq!(range.len(), 3);

    // The lookups for the two newest commits found nothing; the oldest
    // maps to pull request 42.
    let ids: Vec<String> = range.iter().map(|c| c.id.clone()).collect();
    let responses = vec![vec![], vec![], vec![42]];
    let assoc = associate(&ids, &responses);

    let msgs = format_commit_lines(&range, true, &Some(assoc));
    assert_eq!(
        msgs,
        vec![
            "aaaaaaa newest change (N/A)".to_string(),
            "bbbbbbb middle change (N/A)".to_string(),
            "ccccccc oldest change (#42)".to_string(),
        ]
    );
    assert_eq!(
        generate_changelog(&msgs),
        "Changelog:\n - aaaaaaa newest change (N/A)\n - bbbbbbb middle change (N/A)\n - ccccccc oldest change (#42)"
    );
}
