use tagge_rs::commits::CommitNode;
use tagge_rs::commits::commit_range;

fn node(id: &str, summary: &str, parents: &[usize]) -> CommitNode {
    CommitNode { id: id.to_string(), summary: summary.to_string(), parents: parents.to_vec() }
}

fn ids(range: &[tagge_rs::commits::CommitRecord]) -> Vec<String> {
    range.iter().map(|r| r.id.clone()).collect()
}

#[test]
fn linear_history_yields_commits_ahead_of_base() {
    // c0 (head, newest) -> c1 -> c2 (base) -> c3
    let graph = vec![
        node("c0", "newest", &[1]),
        node("c1", "middle", &[2]),
        node("c2", "base", &[3]),
        node("c3", "oldest", &[]),
    ];
    let range = commit_range(&graph, &"c2".to_string());
    assert_eq!(ids(&range), vec!["c0", "c1"]);
    assert_eq!(range[0].summary, "newest");
    assert_eq!(range[1].summary, "middle");
}

#[test]
fn diamond_history_never_duplicates_and_excludes_ancestors() {
    // c0 merges c1 and c2; both descend from c3; base tag is on c3.
    let graph = vec![
        node("c0", "merge", &[1, 2]),
        node("c1", "left", &[3]),
        node("c2", "right", &[3]),
        node("c3", "base", &[4]),
        node("c4", "old", &[]),
    ];
    let range = commit_range(&graph, &"c3".to_string());
    assert_eq!(ids(&range), vec!["c0", "c1", "c2"]);
}

#[test]
fn base_at_head_yields_empty_range() {
    let graph = vec![node("c0", "tip", &[1]), node("c1", "older", &[])];
    let range = commit_range(&graph, &"c0".to_string());
    assert!(range.is_empty());
}

#[test]
fn unknown_base_excludes_nothing() {
    let graph = vec![node("c0", "tip", &[1]), node("c1", "older", &[])];
    let range = commit_range(&graph, &"elsewhere".to_string());
    assert_eq!(ids(&range), vec!["c0", "c1"]);
}

#[test]
fn deep_ancestry_of_base_is_excluded() {
    // Base is c1; c2 and c3 are its ancestors and stay out, c0 is ahead.
    let graph = vec![
        node("c0", "ahead", &[1]),
        node("c1", "base", &[2, 3]),
        node("c2", "older", &[3]),
        node("c3", "oldest", &[]),
    ];
    let range = commit_range(&graph, &"c1".to_string());
    assert_eq!(ids(&range), vec!["c0"]);
}

#[test]
fn empty_history_yields_empty_range() {
    let range = commit_range(&Vec::new(), &"c0".to_string());
    assert!(range.is_empty());
}
