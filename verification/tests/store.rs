use tamatebako::event::VersionHistory;
use tamatebako::store::HistoryStore;
use tamatebako::timestamp::Timestamp;

fn ts(year: u32, month: u32, day: u32, hour: u32, minute: u32, second: u32) -> Timestamp {
    Timestamp { year, month, day, hour, minute, second }
}

fn ev(project: &str, channel: &str, version: &str, t: Timestamp) -> VersionHistory {
    VersionHistory::new(project, channel, version, t, None)
}

#[test]
fn append_idempotent() {
    let mut store = HistoryStore::new();
    let e = ev("proj", "master", "1.0.0", ts(2024, 1, 2, 3, 4, 5));
    assert!(store.insert_version_history(&e));
    assert!(!store.insert_version_history(&e));
    assert_eq!(store.len(), 1);
}

#[test]
fn uniqueness_of_triple() {
    let mut store = HistoryStore::new();
    let a = ev("proj", "master", "1.0.0", ts(2024, 1, 1, 0, 0, 0));
    // same triple, different timestamp and url: still the same entry
    let b = VersionHistory::new(
        "proj",
        "master",
        "1.0.0",
        ts(2025, 6, 1, 12, 0, 0),
        Some("https://example.com/releases/tag/1.0.0".to_string()),
    );
    assert!(store.insert_version_history(&a));
    assert!(!store.insert_version_history(&b));
    let c = ev("proj", "master", "1.0.1", ts(2024, 1, 1, 0, 0, 0));
    assert!(store.insert_version_history(&c));
    assert_eq!(store.len(), 2);
    let rows = store.get_version_history();
    let matching = rows
        .iter()
        .filter(|r| r.project_name == "proj" && r.channel == "master" && r.version == "1.0.0")
        .count();
    assert_eq!(matching, 1);
}

#[test]
fn latest_selection_takes_maximum_time() {
    let mut store = HistoryStore::new();
    let t1 = ts(2024, 1, 1, 0, 0, 0);
    let t2 = ts(2024, 2, 1, 0, 0, 0);
    let t3 = ts(2024, 3, 1, 0, 0, 0);
    store.insert_version_history(&ev("p", "", "0.1.0", t1));
    store.insert_version_history(&ev("p", "", "0.3.0", t3));
    store.insert_version_history(&ev("p", "", "0.2.0", t2));
    let latest = store.get_latest_version_history(None, false);
    assert_eq!(latest.len(), 1);
    assert_eq!(latest[0].project_name, "p");
    assert_eq!(latest[0].version, "0.3.0");
    assert_eq!(latest[0].bump_date, t3);
}

#[test]
fn latest_selection_one_row_per_project() {
    let mut store = HistoryStore::new();
    store.insert_version_history(&ev("a", "", "1.0", ts(2024, 1, 1, 0, 0, 0)));
    store.insert_version_history(&ev("a", "", "2.0", ts(2024, 2, 1, 0, 0, 0)));
    store.insert_version_history(&ev("b", "", "9.0", ts(2023, 1, 1, 0, 0, 0)));
    store.insert_version_history(&ev("c", "", "0.1", ts(2022, 1, 1, 0, 0, 0)));
    let latest = store.get_latest_version_history(None, false);
    assert_eq!(latest.len(), 3);
    // default order: ascending by project name
    assert_eq!(latest[0].project_name, "a");
    assert_eq!(latest[0].version, "2.0");
    assert_eq!(latest[1].project_name, "b");
    assert_eq!(latest[2].project_name, "c");
}

#[test]
fn latest_ordering_by_version_descending() {
    let mut store = HistoryStore::new();
    let t1 = ts(2024, 1, 1, 0, 0, 0);
    let t2 = ts(2024, 2, 1, 0, 0, 0);
    let t3 = ts(2024, 3, 1, 0, 0, 0);
    store.insert_version_history(&ev("A", "", "1.0", t1));
    store.insert_version_history(&ev("A", "", "2.0", t2));
    store.insert_version_history(&ev("B", "", "1.0", t3));
    let latest = store.get_latest_version_history(Some("version".to_string()), true);
    assert_eq!(latest.len(), 2);
    assert_eq!(latest[0].project_name, "A");
    assert_eq!(latest[0].version, "2.0");
    assert_eq!(latest[1].project_name, "B");
    assert_eq!(latest[1].version, "1.0");
}

#[test]
fn latest_unrecognized_key_falls_back_to_project_name() {
    let mut store = HistoryStore::new();
    store.insert_version_history(&ev("zeta", "", "1.0", ts(2024, 1, 1, 0, 0, 0)));
    store.insert_version_history(&ev("alpha", "", "1.0", ts(2024, 1, 1, 0, 0, 0)));
    let latest = store.get_latest_version_history(Some("no_such_column".to_string()), false);
    assert_eq!(latest.len(), 2);
    assert_eq!(latest[0].project_name, "alpha");
    assert_eq!(latest[1].project_name, "zeta");
}

#[test]
fn latest_tie_breaks_to_earliest_inserted() {
    let mut store = HistoryStore::new();
    let t = ts(2024, 5, 5, 5, 5, 5);
    store.insert_version_history(&ev("p", "", "first", t));
    store.insert_version_history(&ev("p", "", "second", t));
    let latest = store.get_latest_version_history(None, false);
    assert_eq!(latest.len(), 1);
    assert_eq!(latest[0].version, "first");
}

#[test]
fn history_ordered_most_recent_first() {
    let mut store = HistoryStore::new();
    let t1 = ts(2024, 1, 1, 0, 0, 0);
    let t2 = ts(2024, 6, 1, 0, 0, 0);
    let t3 = ts(2023, 12, 31, 23, 59, 59);
    store.insert_version_history(&ev("p", "", "1.0", t1));
    store.insert_version_history(&ev("q", "", "2.0", t2));
    store.insert_version_history(&ev("r", "", "3.0", t3));
    let rows = store.get_version_history();
    assert_eq!(rows.len(), 3);
    assert_eq!(rows[0].bump_date, t2);
    assert_eq!(rows[1].bump_date, t1);
    assert_eq!(rows[2].bump_date, t3);
}

#[test]
fn have_version_history_reports_presence() {
    let mut store = HistoryStore::new();
    store.insert_version_history(&ev("p", "main", "1.0", ts(2024, 1, 1, 0, 0, 0)));
    assert!(store.have_version_history("p", "main", "1.0"));
    assert!(!store.have_version_history("p", "main", "2.0"));
    assert!(!store.have_version_history("p", "", "1.0"));
    assert!(!store.have_version_history("q", "main", "1.0"));
}

#[test]
fn insert_all_counts_only_new_rows() {
    let mut store = HistoryStore::new();
    let t = ts(2024, 1, 1, 0, 0, 0);
    store.insert_version_history(&ev("p", "", "1.0", t));
    let batch = vec![
        ev("p", "", "1.0", t),
        ev("p", "", "2.0", t),
        ev("p", "", "2.0", t),
        ev("q", "", "1.0", t),
    ];
    let n = store.insert_all(&batch);
    assert_eq!(n, 2);
    assert_eq!(store.len(), 3);
}

#[test]
fn channels_are_distinct_streams() {
    let mut store = HistoryStore::new();
    let t = ts(2024, 1, 1, 0, 0, 0);
    assert!(store.insert_version_history(&ev("p", "stable", "1.0", t)));
    assert!(store.insert_version_history(&ev("p", "beta", "1.0", t)));
    assert_eq!(store.len(), 2);
}
