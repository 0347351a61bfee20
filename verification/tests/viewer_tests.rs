use squirrel::event::{new_event, EventTime, EventType};
use squirrel::journal::{to_row_values, JournalRow};
use squirrel::snapshot_viewer::{base_name, header_line, list_snapshots, match_name, render_row};

fn time(s: &str) -> EventTime {
    EventTime::from_rfc3339_text(s.to_string())
}

fn row_from(record_id: i64, e: &squirrel::event::Event) -> JournalRow {
    let (event_type, timestamp, snapshot, before_path, after_path) = to_row_values(e);
    JournalRow { event_id: record_id, event_type, timestamp, snapshot, before_path, after_path }
}

fn scenario_rows() -> Vec<JournalRow> {
    let created = new_event(
        EventType::Create,
        time("2021-06-01T10:00:01+00:00"),
        Some("pfx1-foo.txt".to_string()),
        None,
        Some("foo.txt".to_string()),
    );
    let renamed = new_event(
        EventType::Rename,
        time("2021-06-01T10:00:02+00:00"),
        Some("pfx2-bar.txt".to_string()),
        Some("bar.txt".to_string()),
        Some("foo.txt".to_string()),
    );
    let removed = new_event(
        EventType::Remove,
        time("2021-06-01T10:00:03+00:00"),
        None,
        None,
        Some("bar.txt".to_string()),
    );
    vec![row_from(1, &created), row_from(2, &renamed), row_from(3, &removed)]
}

#[test]
fn base_name_takes_the_text_after_the_last_separator() {
    assert_eq!(base_name(&"a/b/c.txt".to_string()), "c.txt");
    assert_eq!(base_name(&"c.txt".to_string()), "c.txt");
    assert_eq!(base_name(&"a/b/".to_string()), "");
}

#[test]
fn match_name_prefers_the_destination_then_falls_back_to_the_source() {
    let glob = glob::Pattern::new("*.txt").unwrap();
    let renamed = new_event(
        EventType::Rename,
        time("2021-06-01T10:00:02+00:00"),
        Some("pfx2-bar.txt".to_string()),
        Some("bar.txt".to_string()),
        Some("foo.txt".to_string()),
    );
    assert_eq!(match_name(&glob, &renamed), Some("bar.txt".to_string()));

    let moved_away = new_event(
        EventType::Rename,
        time("2021-06-01T10:00:02+00:00"),
        Some("pfx2-x.md".to_string()),
        Some("notes/x.md".to_string()),
        Some("old/y.txt".to_string()),
    );
    assert_eq!(match_name(&glob, &moved_away), Some("y.txt".to_string()));

    let unrelated = new_event(
        EventType::Remove,
        time("2021-06-01T10:00:03+00:00"),
        None,
        None,
        Some("z.md".to_string()),
    );
    assert_eq!(match_name(&glob, &unrelated), None);
}

#[test]
fn query_returns_matches_newest_first_and_nothing_otherwise() {
    let rows = scenario_rows();
    let glob = glob::Pattern::new("*.txt").unwrap();
    let lines = list_snapshots(&rows, &glob).unwrap();
    assert_eq!(lines.len(), 4);
    assert_eq!(
        lines[0],
        format!(
            "{: <5}{: <30}{: <30}{: <13}{}",
            "Id", "File Name", "Timestamp", "Update Type", "Snapshot"
        )
    );
    assert_eq!(
        lines[1],
        format!(
            "{: <5}{: <30}{: <30}{: <13}{}",
            "3", "bar.txt", "2021-06-01T10:00:03+00:00", "Remove", ""
        )
    );
    assert_eq!(
        lines[2],
        format!(
            "{: <5}{: <30}{: <30}{: <13}{}",
            "2", "bar.txt", "2021-06-01T10:00:02+00:00", "Rename", "pfx2-bar.txt"
        )
    );
    assert_eq!(
        lines[3],
        format!(
            "{: <5}{: <30}{: <30}{: <13}{}",
            "1", "foo.txt", "2021-06-01T10:00:01+00:00", "Create", "pfx1-foo.txt"
        )
    );

    let none = glob::Pattern::new("*.md").unwrap();
    let lines = list_snapshots(&rows, &none).unwrap();
    assert_eq!(lines.len(), 1);
    assert_eq!(lines[0], header_line());
}

#[test]
fn rendering_lays_out_fixed_columns() {
    let removed = new_event(
        EventType::Remove,
        time("2021-06-01T10:00:03+00:00"),
        None,
        None,
        Some("bar.txt".to_string()),
    );
    let e = squirrel::event::Event { event_id: Some(42), ..removed };
    let line = render_row(&e, &"bar.txt".to_string());
    assert_eq!(
        line,
        format!(
            "{: <5}{: <30}{: <30}{: <13}{}",
            "42", "bar.txt", "2021-06-01T10:00:03+00:00", "Remove", ""
        )
    );
}

#[test]
fn a_corrupt_row_fails_the_whole_listing() {
    let mut rows = scenario_rows();
    rows[1].event_type = "Banana".to_string();
    let glob = glob::Pattern::new("*.txt").unwrap();
    assert!(list_snapshots(&rows, &glob).is_err());
}
