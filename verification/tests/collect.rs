use tamatebako::config::{ProjectConfig, ProjectSourceConfig};
use tamatebako::github::GitHubCollector;
use tamatebako::normalize::{CollectError, RawEvent};
use tamatebako::orchestrator::{build_sources, collect_project};
use tamatebako::repo::GitCollector;
use tamatebako::store::HistoryStore;
use tamatebako::timestamp::Timestamp;

fn repo_collector(pattern: Option<&str>) -> GitCollector {
    GitCollector::new(
        "/ws",
        "https://example.com/acme/widget.git",
        "widget",
        "https://example.com/acme/widget",
        "master",
        &pattern.map(|p| p.to_string()),
    )
    .unwrap()
}

#[test]
fn end_to_end_repository_pass() {
    let c = repo_collector(Some("^v(.*)$"));
    let mut store = HistoryStore::new();
    let lines = vec!["tag: v2.0.0 Cut release\t2024/06/01 10:00:00\tabc123".to_string()];
    let n = c.collect(&mut store, &lines).unwrap();
    assert_eq!(n, 1);
    let rows = store.get_version_history();
    assert_eq!(rows.len(), 1);
    assert_eq!(rows[0].project_name, "widget");
    assert_eq!(rows[0].channel, "master");
    assert_eq!(rows[0].version, "2.0.0");
    assert_eq!(
        rows[0].bump_date,
        Timestamp { year: 2024, month: 6, day: 1, hour: 10, minute: 0, second: 0 }
    );
    assert_eq!(
        rows[0].url,
        Some("https://example.com/acme/widget/releases/tag/2.0.0".to_string())
    );
}

#[test]
fn end_to_end_releases_pass() {
    let c = GitHubCollector::new("widget", "acme", "widget", &None).unwrap();
    let mut store = HistoryStore::new();
    let releases = vec![RawEvent::new(
        "3.0.0".to_string(),
        "2024-07-01T00:00:00Z".to_string(),
        "https://x/releases/tag/3.0.0".to_string(),
    )];
    let n = c.get_releases(&mut store, &releases).unwrap();
    assert_eq!(n, 1);
    let rows = store.get_version_history();
    assert_eq!(rows.len(), 1);
    assert_eq!(rows[0].project_name, "widget");
    assert_eq!(rows[0].channel, "");
    assert_eq!(rows[0].version, "3.0.0");
    assert_eq!(
        rows[0].bump_date,
        Timestamp { year: 2024, month: 7, day: 1, hour: 0, minute: 0, second: 0 }
    );
    assert_eq!(rows[0].url, Some("https://x/releases/tag/3.0.0".to_string()));
}

#[test]
fn repository_rerun_inserts_nothing() {
    let c = repo_collector(Some("^v(.*)$"));
    let mut store = HistoryStore::new();
    let lines = vec![
        "tag: v1.0.0 One\t2024/01/01 00:00:00\taaa".to_string(),
        "tag: v1.1.0 Two\t2024/02/01 00:00:00\tbbb".to_string(),
    ];
    assert_eq!(c.collect(&mut store, &lines).unwrap(), 2);
    assert_eq!(c.collect(&mut store, &lines).unwrap(), 0);
    assert_eq!(store.len(), 2);
}

#[test]
fn bad_timestamp_aborts_repository_pass() {
    let c = repo_collector(Some("^v(.*)$"));
    let mut store = HistoryStore::new();
    let lines = vec![
        "tag: v1.0.0 Fine\t2024/01/01 00:00:00\taaa".to_string(),
        "tag: v1.1.0 Drift\t2024-02-01T00:00:00Z\tbbb".to_string(),
    ];
    let r = c.collect(&mut store, &lines);
    assert_eq!(r, Err(CollectError::InvalidTimestamp));
    assert_eq!(store.len(), 0);
}

#[test]
fn bad_timestamp_aborts_releases_pass() {
    let c = GitHubCollector::new("widget", "acme", "widget", &None).unwrap();
    let mut store = HistoryStore::new();
    let releases = vec![RawEvent::new(
        "3.0.0".to_string(),
        "2024/07/01 00:00:00".to_string(),
        "https://x/releases/tag/3.0.0".to_string(),
    )];
    let r = c.get_releases(&mut store, &releases);
    assert_eq!(r, Err(CollectError::InvalidTimestamp));
    assert_eq!(store.len(), 0);
}

#[test]
fn unparseable_lines_are_skipped() {
    let c = repo_collector(Some("^v(.*)$"));
    let mut store = HistoryStore::new();
    let lines = vec![
        "garbage without tabs".to_string(),
        "tag: v1.0.0 Good\t2024/01/01 00:00:00\taaa".to_string(),
        "too\tmany\ttabs\there".to_string(),
    ];
    assert_eq!(c.collect(&mut store, &lines).unwrap(), 1);
    assert_eq!(store.len(), 1);
}

#[test]
fn unmatched_labels_are_discarded_not_errors() {
    let c = repo_collector(Some("^v(.*)$"));
    let mut store = HistoryStore::new();
    let lines = vec![
        "tag: not-a-version Note\t2024/01/01 00:00:00\taaa".to_string(),
        "HEAD -> master No tags at all\t2024/01/02 00:00:00\tbbb".to_string(),
    ];
    assert_eq!(c.collect(&mut store, &lines).unwrap(), 0);
    assert_eq!(store.len(), 0);
}

#[test]
fn repository_without_pattern_takes_label_as_version() {
    let c = repo_collector(None);
    let mut store = HistoryStore::new();
    let lines = vec!["tag: 1.2.3 Plain\t2024/01/01 00:00:00\taaa".to_string()];
    assert_eq!(c.collect(&mut store, &lines).unwrap(), 1);
    assert_eq!(store.get_version_history()[0].version, "1.2.3");
}

#[test]
fn github_insert_counts_new_and_duplicate() {
    let c = GitHubCollector::new("p", "o", "r", &None).unwrap();
    let mut store = HistoryStore::new();
    let n1 = c
        .insert(&mut store, "1.0.0", "2024-01-01T00:00:00Z", "https://x/1.0.0")
        .unwrap();
    let n2 = c
        .insert(&mut store, "1.0.0", "2024-01-01T00:00:00Z", "https://x/1.0.0")
        .unwrap();
    assert_eq!(n1, 1);
    assert_eq!(n2, 0);
    assert!(c
        .insert(&mut store, "2.0.0", "bad time", "https://x/2.0.0")
        .is_err());
}

#[test]
fn collector_refuses_invalid_pattern() {
    let r = GitCollector::new(
        "/ws",
        "https://example.com/a/b.git",
        "p",
        "https://example.com/a/b",
        "master",
        &Some("(".to_string()),
    );
    assert_eq!(r.err(), Some(CollectError::InvalidPattern));
    let r = GitHubCollector::new("p", "o", "r", &Some("(".to_string()));
    assert_eq!(r.err(), Some(CollectError::InvalidPattern));
}

#[test]
fn collector_refuses_invalid_remote() {
    let r = GitCollector::new(
        "/ws",
        "ftp://example.com/a/b.git",
        "p",
        "https://example.com/a/b",
        "master",
        &None,
    );
    assert_eq!(r.err(), Some(CollectError::InvalidRemote));
}

#[test]
fn error_messages_name_the_cause() {
    assert_eq!(CollectError::InvalidPattern.message(), "invalid version pattern");
    assert_eq!(CollectError::InvalidRemote.message(), "invalid remote url");
    assert_eq!(CollectError::InvalidTimestamp.message(), "invalid timestamp");
}

#[test]
fn build_sources_skips_project_without_sources() {
    let project = ProjectConfig {
        url: "https://example.com/p".to_string(),
        source: None,
        version_regex: None,
    };
    let s = build_sources("/ws", "p", &project);
    assert!(s.git.is_none());
    assert!(s.github.is_none());
    assert!(s.git_error.is_none());
    assert!(s.github_error.is_none());
}

#[test]
fn build_sources_defaults_branch_to_master() {
    let project = ProjectConfig {
        url: "https://example.com/p".to_string(),
        source: Some(ProjectSourceConfig {
            git: Some("https://example.com/a/p.git".to_string()),
            branch: None,
            github: None,
        }),
        version_regex: None,
    };
    let s = build_sources("/ws", "p", &project);
    let git = s.git.unwrap();
    assert_eq!(git.branch, "master");
    assert_eq!(git.directory, "/ws/example.com/a/p");
    assert!(s.github.is_none());
}

#[test]
fn build_sources_reports_bad_configuration_per_source() {
    let project = ProjectConfig {
        url: "https://example.com/p".to_string(),
        source: Some(ProjectSourceConfig {
            git: Some("not-a-remote".to_string()),
            branch: Some("main".to_string()),
            github: Some("ownerrepo-without-slash".to_string()),
        }),
        version_regex: None,
    };
    let s = build_sources("/ws", "p", &project);
    assert!(s.git.is_none());
    assert_eq!(s.git_error, Some(CollectError::InvalidRemote));
    assert!(s.github.is_none());
    assert_eq!(s.github_error, Some(CollectError::InvalidRemote));
}

#[test]
fn collect_project_sums_both_sources() {
    let project = ProjectConfig {
        url: "https://example.com/acme/widget".to_string(),
        source: Some(ProjectSourceConfig {
            git: Some("https://example.com/acme/widget.git".to_string()),
            branch: Some("main".to_string()),
            github: Some("acme/widget".to_string()),
        }),
        version_regex: Some("^v(.*)$".to_string()),
    };
    let sources = build_sources("/ws", "widget", &project);
    let mut store = HistoryStore::new();
    let lines = Some(vec![
        "tag: v1.0.0 One\t2024/01/01 00:00:00\taaa".to_string(),
    ]);
    let releases = Some(vec![RawEvent::new(
        "v2.0.0".to_string(),
        "2024-07-01T00:00:00Z".to_string(),
        "https://example.com/acme/widget/releases/tag/v2.0.0".to_string(),
    )]);
    let outcome = collect_project(&mut store, &sources, &lines, &releases);
    assert_eq!(outcome.new_rows, 2);
    assert!(outcome.git_error.is_none());
    assert!(outcome.github_error.is_none());
    assert_eq!(store.len(), 2);
}

#[test]
fn collect_project_without_payload_adds_nothing() {
    let project = ProjectConfig {
        url: "https://example.com/acme/widget".to_string(),
        source: Some(ProjectSourceConfig {
            git: Some("https://example.com/acme/widget.git".to_string()),
            branch: None,
            github: None,
        }),
        version_regex: None,
    };
    let sources = build_sources("/ws", "widget", &project);
    let mut store = HistoryStore::new();
    let outcome = collect_project(&mut store, &sources, &None, &None);
    assert_eq!(outcome.new_rows, 0);
    assert_eq!(store.len(), 0);
}

#[test]
fn collect_project_reports_pass_failure_and_keeps_other_source() {
    let project = ProjectConfig {
        url: "https://example.com/acme/widget".to_string(),
        source: Some(ProjectSourceConfig {
            git: Some("https://example.com/acme/widget.git".to_string()),
            branch: None,
            github: Some("acme/widget".to_string()),
        }),
        version_regex: None,
    };
    let sources = build_sources("/ws", "widget", &project);
    let mut store = HistoryStore::new();
    // the repository log drifted to the wrong timestamp format
    let lines = Some(vec![
        "tag: 1.0.0 Drift\t2024-01-01T00:00:00Z\taaa".to_string(),
    ]);
    let releases = Some(vec![RawEvent::new(
        "2.0.0".to_string(),
        "2024-07-01T00:00:00Z".to_string(),
        "https://x/2.0.0".to_string(),
    )]);
    let outcome = collect_project(&mut store, &sources, &lines, &releases);
    assert_eq!(outcome.git_error, Some(CollectError::InvalidTimestamp));
    assert!(outcome.github_error.is_none());
    assert_eq!(outcome.new_rows, 1);
    assert_eq!(store.len(), 1);
    assert_eq!(store.get_version_history()[0].version, "2.0.0");
}
