use tamatebako::config::Config;
use tamatebako::orchestrator::split_owner_repo;
use tamatebako::pattern::{extract_version, VersionPattern};
use tamatebako::repo::{derive_workspace_dir, extract_tag_labels, split_log_line};
use tamatebako::timestamp::{parse_repo_timestamp, parse_release_timestamp, Timestamp};

#[test]
fn repo_format_parses() {
    let t = parse_repo_timestamp("2024/01/02 03:04:05").unwrap();
    assert_eq!(
        t,
        Timestamp { year: 2024, month: 1, day: 2, hour: 3, minute: 4, second: 5 }
    );
}

#[test]
fn release_format_parses() {
    let t = parse_release_timestamp("2024-01-02T03:04:05Z").unwrap();
    assert_eq!(
        t,
        Timestamp { year: 2024, month: 1, day: 2, hour: 3, minute: 4, second: 5 }
    );
}

#[test]
fn cross_format_strings_fail() {
    assert!(parse_repo_timestamp("2024-01-02T03:04:05Z").is_none());
    assert!(parse_release_timestamp("2024/01/02 03:04:05").is_none());
}

#[test]
fn malformed_timestamps_fail() {
    assert!(parse_repo_timestamp("").is_none());
    assert!(parse_repo_timestamp("2024/01/02").is_none());
    assert!(parse_repo_timestamp("2024/13/02 03:04:05").is_none());
    assert!(parse_repo_timestamp("2024/00/02 03:04:05").is_none());
    assert!(parse_repo_timestamp("2024/01/00 03:04:05").is_none());
    assert!(parse_repo_timestamp("2024/01/32 03:04:05").is_none());
    assert!(parse_repo_timestamp("2024/01/02 24:04:05").is_none());
    assert!(parse_repo_timestamp("2024/01/02 03:60:05").is_none());
    assert!(parse_repo_timestamp("2024/01/02 03:04:60").is_none());
    assert!(parse_repo_timestamp("2024/01/02 03:04:0x").is_none());
    assert!(parse_release_timestamp("2024-01-02T03:04:05").is_none());
    assert!(parse_release_timestamp("2024-01-02 03:04:05Z").is_none());
}

#[test]
fn leap_year_days() {
    assert!(parse_repo_timestamp("2024/02/29 00:00:00").is_some());
    assert!(parse_repo_timestamp("2023/02/29 00:00:00").is_none());
    assert!(parse_repo_timestamp("2000/02/29 00:00:00").is_some());
    assert!(parse_repo_timestamp("1900/02/29 00:00:00").is_none());
    assert!(parse_repo_timestamp("2024/04/31 00:00:00").is_none());
}

#[test]
fn timestamp_key_exact_value() {
    let t = parse_repo_timestamp("0001/01/01 00:00:00").unwrap();
    assert_eq!(t.key(), 32140800);
    let u = parse_repo_timestamp("0001/01/01 00:00:01").unwrap();
    assert_eq!(u.key(), 32140801);
}

#[test]
fn timestamp_key_orders_chronologically() {
    let a = parse_repo_timestamp("2023/12/31 23:59:59").unwrap();
    let b = parse_repo_timestamp("2024/01/01 00:00:00").unwrap();
    assert!(a.key() < b.key());
}

#[test]
fn pattern_extraction_first_capture() {
    let p = VersionPattern::new(r"^v(\d+\.\d+\.\d+)$");
    let p = Some(p.unwrap());
    assert_eq!(extract_version(&p, "v1.2.3"), Some("1.2.3".to_string()));
    assert_eq!(extract_version(&p, "1.2.3"), None);
}

#[test]
fn no_pattern_passthrough() {
    assert_eq!(extract_version(&None, "1.2.3"), Some("1.2.3".to_string()));
    assert_eq!(extract_version(&None, "  1.2.3\t\n"), Some("1.2.3".to_string()));
    assert_eq!(extract_version(&None, "   "), None);
    assert_eq!(extract_version(&None, ""), None);
}

#[test]
fn empty_capture_is_discarded() {
    let p = Some(VersionPattern::new(r"^v(.*)$").unwrap());
    assert_eq!(extract_version(&p, "v2.0.0"), Some("2.0.0".to_string()));
    assert_eq!(extract_version(&p, "v"), None);
}

#[test]
fn invalid_pattern_is_refused() {
    assert!(VersionPattern::new("(").is_none());
    assert!(VersionPattern::new(r"^v(\d+)$").is_some());
}

#[test]
fn log_line_splits_on_two_tabs() {
    let line = "tag: v1.0.0 Release one\t2024/06/01 10:00:00\tdeadbeef";
    let (head, date, hash) = split_log_line(line).unwrap();
    assert_eq!(head, "tag: v1.0.0 Release one");
    assert_eq!(date, "2024/06/01 10:00:00");
    assert_eq!(hash, "deadbeef");
}

#[test]
fn log_line_wrong_field_count_is_rejected() {
    assert!(split_log_line("no tabs here").is_none());
    assert!(split_log_line("one\tfield").is_none());
    assert!(split_log_line("a\tb\tc\td").is_none());
    assert!(split_log_line("").is_none());
}

#[test]
fn tag_labels_from_decorations() {
    assert_eq!(
        extract_tag_labels("HEAD -> master, tag: v1.0.0, origin/master Fix the build"),
        vec!["v1.0.0".to_string()]
    );
    assert_eq!(
        extract_tag_labels("tag: v1.0.0, tag: release-1 Subject"),
        vec!["v1.0.0".to_string(), "release-1".to_string()]
    );
    assert_eq!(extract_tag_labels("HEAD -> master Just a subject"), Vec::<String>::new());
    assert_eq!(extract_tag_labels(""), Vec::<String>::new());
}

#[test]
fn tag_label_stops_at_subject() {
    // the log glues the subject to the last decoration with a space;
    // a tag name holds no spaces, so the name ends there
    assert_eq!(
        extract_tag_labels("tag: v2.0.0 Some subject text"),
        vec!["v2.0.0".to_string()]
    );
}

#[test]
fn workspace_derivation_https() {
    assert_eq!(
        derive_workspace_dir("/root/ws", "https://github.com/foo/bar.git"),
        Some("/root/ws/github.com/foo/bar".to_string())
    );
}

#[test]
fn workspace_derivation_scp_like() {
    assert_eq!(
        derive_workspace_dir("/root/ws", "git@github.com:foo/bar.git"),
        Some("/root/ws/github.com/foo/bar".to_string())
    );
}

#[test]
fn workspace_derivation_rejects_other_shapes() {
    assert!(derive_workspace_dir("/r", "http://github.com/foo/bar.git").is_none());
    assert!(derive_workspace_dir("/r", "https://github.com/foo/bar").is_none());
    assert!(derive_workspace_dir("/r", "git@host:x.gitx").is_none());
    assert!(derive_workspace_dir("/r", "").is_none());
    assert!(derive_workspace_dir("/r", ".git").is_none());
}

#[test]
fn owner_repo_splits_at_slashes() {
    assert_eq!(split_owner_repo("rust-lang/rust"), Some(("rust-lang".to_string(), "rust".to_string())));
    assert_eq!(split_owner_repo("a/b/c"), Some(("a".to_string(), "b".to_string())));
    assert!(split_owner_repo("norepo").is_none());
    assert!(split_owner_repo("/b").is_none());
    assert!(split_owner_repo("a/").is_none());
    assert!(split_owner_repo("a//b").is_none());
}

#[test]
fn database_url_under_rootdir() {
    let config = Config {
        rootdir: "/home/user/.tamatebako".to_string(),
        git_ssh_key: None,
        github_access_token: None,
        projects: Vec::new(),
    };
    assert_eq!(config.get_database_url(), "/home/user/.tamatebako/tamatebako.sqlite");
}
