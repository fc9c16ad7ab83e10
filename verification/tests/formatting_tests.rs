use tagge_rs::changelog::PrAnnotation;
use tagge_rs::changelog::annotation_for;
use tagge_rs::changelog::format_commit_line;
use tagge_rs::changelog::format_commit_lines;
use tagge_rs::changelog::generate_changelog;
use tagge_rs::commits::CommitRecord;
use tagge_rs::render::MsgType;
use tagge_rs::render::generate_tag_msg;
use tagge_rs::render::render_changelog_block;
use tagge_rs::render::render_dry_run;
use tagge_rs::render::render_report;
use tagge_rs::render::render_tag_annotation;

fn rec(id: &str, summary: &str) -> CommitRecord {
    CommitRecord { id: id.to_string(), summary: summary.to_string() }
}

fn strings(list: &[&str]) -> Vec<String> {
    list.iter().map(|s| s.to_string()).collect()
}

#[test]
fn line_abbreviates_the_id_to_seven_characters() {
    let c = rec("0123456789abcdef", "fix the parser");
    let line = format_commit_line(&c, true, &PrAnnotation::NotRequested);
    assert_eq!(line, "0123456 fix the parser");
}

#[test]
fn line_keeps_a_short_id_whole() {
    let c = rec("abc", "tiny");
    let line = format_commit_line(&c, true, &PrAnnotation::NotRequested);
    assert_eq!(line, "abc tiny");
}

#[test]
fn line_without_sha_is_the_summary() {
    let c = rec("0123456789abcdef", "fix the parser");
    let line = format_commit_line(&c, false, &PrAnnotation::NotRequested);
    assert_eq!(line, "fix the parser");
}

#[test]
fn line_marks_a_found_pull_request() {
    let c = rec("0123456789abcdef", "fix the parser");
    let line = format_commit_line(&c, false, &PrAnnotation::Found(42));
    assert_eq!(line, "fix the parser (#42)");
}

#[test]
fn line_marks_a_missing_pull_request() {
    let c = rec("0123456789abcdef", "fix the parser");
    let line = format_commit_line(&c, false, &PrAnnotation::NotFound);
    assert_eq!(line, "fix the parser (N/A)");
}

#[test]
fn annotation_comes_from_the_association() {
    let assoc = Some(vec![("a".to_string(), 7)]);
    assert_eq!(annotation_for(&assoc, &"a".to_string()), PrAnnotation::Found(7));
    assert_eq!(annotation_for(&assoc, &"b".to_string()), PrAnnotation::NotFound);
    assert_eq!(annotation_for(&None, &"a".to_string()), PrAnnotation::NotRequested);
}

#[test]
fn lines_are_rendered_newest_first() {
    let commits = vec![rec("aaaa", "newest"), rec("bbbb", "older")];
    let lines = format_commit_lines(&commits, false, &None);
    assert_eq!(lines, strings(&["newest", "older"]));
}

#[test]
fn changelog_of_no_commits_is_the_sentinel() {
    let text = generate_changelog(&Vec::new());
    assert_eq!(text, "No new commits since the latest tag.");
    assert!(!text.is_empty());
}

#[test]
fn changelog_lists_each_message() {
    let text = generate_changelog(&strings(&["first", "second"]));
    assert_eq!(text, "Changelog:\n - first\n - second");
}

#[test]
fn tag_msg_shows_sha_and_version() {
    let msg = generate_tag_msg(MsgType::Latest, "abc123", "v1.3.0");
    assert_eq!(msg, "Latest tag:\n  SHA: abc123\n  Version: v1.3.0\n");
    let msg = generate_tag_msg(MsgType::New, "def456", "v1.4.0");
    assert_eq!(msg, "New tag:\n  SHA: def456\n  Version: v1.4.0\n");
}

#[test]
fn changelog_block_of_no_commits_is_the_sentinel() {
    assert_eq!(render_changelog_block(&Vec::new()), "No new commits since the latest tag.\n");
}

#[test]
fn changelog_block_carries_the_heading() {
    assert_eq!(
        render_changelog_block(&strings(&["fix"])),
        "Commits in the new tag:\n\nChangelog:\n - fix\n"
    );
}

#[test]
fn dry_run_previews_the_tag_command() {
    let text = render_dry_run("v1.4.0", &strings(&["fix"]));
    assert_eq!(
        text,
        "New version: v1.4.0\n\nCommand: \ngit tag -a v1.4.0 -s -m \"Release v1.4.0\n\nChangelog:\n- fix\"\n"
    );
}

#[test]
fn tag_annotation_holds_release_and_changelog() {
    assert_eq!(
        render_tag_annotation("v1.4.0", "Changelog:\n - fix"),
        "Release v1.4.0\n\nChangelog:\n - fix"
    );
}

#[test]
fn report_without_new_tag_shows_latest_and_commits() {
    let text = render_report("abc123", "v1.3.0", &None, &None, &strings(&["fix"]));
    assert_eq!(
        text,
        "Latest tag:\n  SHA: abc123\n  Version: v1.3.0\n\nCommits in the new tag:\n\nChangelog:\n - fix\n"
    );
}

#[test]
fn report_with_new_tag_shows_both_tags() {
    let text = render_report(
        "abc123",
        "v1.3.0",
        &Some("def456".to_string()),
        &Some("v1.4.0".to_string()),
        &strings(&["fix"]),
    );
    assert!(text.starts_with("Latest tag:\n  SHA: abc123\n  Version: v1.3.0\n\n"));
    assert!(text.contains("New tag:\n  SHA: def456\n  Version: v1.4.0\n"));
    assert!(text.ends_with("Commits in the new tag:\n\nChangelog:\n - fix\n"));
}

#[test]
fn report_of_dry_run_shows_the_command() {
    let text = render_report(
        "abc123",
        "v1.3.0",
        &None,
        &Some("v1.4.0".to_string()),
        &strings(&["fix"]),
    );
    assert!(text.contains("Command: \ngit tag -a v1.4.0 -s -m \"Release v1.4.0"));
}
