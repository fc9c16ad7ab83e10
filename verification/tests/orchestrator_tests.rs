use tagge_rs::orchestrator::CliArgs;
use tagge_rs::orchestrator::FetchPlan;
use tagge_rs::orchestrator::TagDecision;
use tagge_rs::orchestrator::decide_tag;
use tagge_rs::orchestrator::fetch_plan;
use tagge_rs::orchestrator::interpret_answer;
use tagge_rs::orchestrator::is_release_branch;
use tagge_rs::orchestrator::needs_confirmation;
use tagge_rs::remote::parse_github_remote;
use tagge_rs::version::SemanticVersion;
use tagge_rs::version::VersionBump;

fn args() -> CliArgs {
    CliArgs {
        bump: None,
        tag: None,
        suffix: None,
        use_sha: false,
        use_pr: false,
        dry_run: false,
        path: ".".to_string(),
        no_fetch: false,
        gh_token: None,
        debug: false,
    }
}

#[test]
fn fetch_is_awaited_before_resolution_without_enrichment() {
    assert_eq!(fetch_plan(&args()), FetchPlan::AwaitBeforeResolve);
}

#[test]
fn fetch_joins_before_formatting_beside_enrichment() {
    let mut a = args();
    a.use_pr = true;
    assert_eq!(fetch_plan(&a), FetchPlan::JoinBeforeFormat);
}

#[test]
fn fetch_is_skipped_on_request() {
    let mut a = args();
    a.no_fetch = true;
    assert_eq!(fetch_plan(&a), FetchPlan::Skip);
    a.use_pr = true;
    assert_eq!(fetch_plan(&a), FetchPlan::Skip);
}

#[test]
fn release_branches_are_main_and_master() {
    assert!(is_release_branch("main"));
    assert!(is_release_branch("master"));
    assert!(!is_release_branch("feature/foo"));
    assert!(!is_release_branch(""));
}

#[test]
fn confirmation_only_for_tag_creation_off_release_branches() {
    let mut a = args();
    a.bump = Some(VersionBump::Minor);
    assert!(needs_confirmation(&a, "feature/foo"));
    assert!(!needs_confirmation(&a, "main"));
    assert!(!needs_confirmation(&a, "master"));
    a.dry_run = true;
    assert!(!needs_confirmation(&a, "feature/foo"));
    a.dry_run = false;
    a.bump = None;
    assert!(!needs_confirmation(&a, "feature/foo"));
    a.tag = Some("v9.9.9".to_string());
    assert!(needs_confirmation(&a, "feature/foo"));
}

#[test]
fn empty_answer_defaults_to_no() {
    assert_eq!(interpret_answer(""), Some(false));
    assert_eq!(interpret_answer("n"), Some(false));
    assert_eq!(interpret_answer("no"), Some(false));
    assert_eq!(interpret_answer("y"), Some(true));
    assert_eq!(interpret_answer("yes"), Some(true));
    assert_eq!(interpret_answer("maybe"), None);
}

#[test]
fn decide_tag_prefers_the_override() {
    let mut a = args();
    a.tag = Some("v9.9.9".to_string());
    a.bump = Some(VersionBump::Major);
    let latest = SemanticVersion { major: 1, minor: 3, patch: 0 };
    match decide_tag(&a, &latest) {
        TagDecision::Create { version } => assert_eq!(version, "v9.9.9"),
        _ => panic!("expected a created tag"),
    }
}

#[test]
fn decide_tag_bumps_the_latest_version() {
    let mut a = args();
    a.bump = Some(VersionBump::Minor);
    let latest = SemanticVersion { major: 1, minor: 3, patch: 0 };
    match decide_tag(&a, &latest) {
        TagDecision::Create { version } => assert_eq!(version, "v1.4.0"),
        _ => panic!("expected a created tag"),
    }
}

#[test]
fn decide_tag_respects_a_dry_run() {
    let mut a = args();
    a.bump = Some(VersionBump::Patch);
    a.dry_run = true;
    let latest = SemanticVersion { major: 1, minor: 3, patch: 0 };
    match decide_tag(&a, &latest) {
        TagDecision::DryRun { version } => assert_eq!(version, "v1.3.1"),
        _ => panic!("expected a dry run"),
    }
}

#[test]
fn decide_tag_without_bump_or_override_reports_only() {
    let latest = SemanticVersion { major: 1, minor: 3, patch: 0 };
    assert!(matches!(decide_tag(&args(), &latest), TagDecision::NoNewTag));
}

#[test]
fn remote_url_ssh_form_is_parsed() {
    let (owner, name) = parse_github_remote("git@github.com:someone/tool.git").unwrap();
    assert_eq!(owner, "someone");
    assert_eq!(name, "tool");
}

#[test]
fn remote_url_https_form_is_parsed() {
    let (owner, name) = parse_github_remote("https://github.com/someone/tool").unwrap();
    assert_eq!(owner, "someone");
    assert_eq!(name, "tool");
}

#[test]
fn remote_url_of_other_hosts_is_rejected() {
    assert!(parse_github_remote("https://gitlab.com/someone/tool.git").is_none());
    assert!(parse_github_remote("git@github.com:no-slash").is_none());
    assert!(parse_github_remote("").is_none());
}

#[test]
fn remote_url_repeated_git_suffixes_are_trimmed() {
    let (owner, name) = parse_github_remote("https://github.com/a/b.git.git").unwrap();
    assert_eq!(owner, "a");
    assert_eq!(name, "b");
}
