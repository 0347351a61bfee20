use squirrel::errors::Error;
use squirrel::event::{new_event, EventTime, EventType};
use squirrel::journal::{read_backwards, row_to_event, to_row_values, JournalRow};

fn time(s: &str) -> EventTime {
    EventTime::from_rfc3339_text(s.to_string())
}

fn row_from(record_id: i64, e: &squirrel::event::Event) -> JournalRow {
    let (event_type, timestamp, snapshot, before_path, after_path) = to_row_values(e);
    JournalRow { event_id: record_id, event_type, timestamp, snapshot, before_path, after_path }
}

#[test]
fn event_type_tokens_round_trip() {
    for (t, s) in [
        (EventType::Create, "Create"),
        (EventType::Remove, "Remove"),
        (EventType::Update, "Update"),
        (EventType::Rename, "Rename"),
    ] {
        assert_eq!(t.token(), s);
        assert_eq!(EventType::from_str(s).unwrap(), t);
    }
}

#[test]
fn unknown_event_type_token_is_a_hard_error() {
    match EventType::from_str("Banana") {
        Err(Error::UnknownEventType(t)) => assert_eq!(t, "Banana"),
        other => panic!("unexpected: {:?}", other),
    }
}

#[test]
fn record_round_trips_through_a_row() {
    let e = new_event(
        EventType::Rename,
        time("2021-06-01T10:00:00+00:00"),
        Some("pfx-bar.txt".to_string()),
        Some("bar.txt".to_string()),
        Some("foo.txt".to_string()),
    );
    let row = row_from(7, &e);
    let back = row_to_event(&row).unwrap();
    assert_eq!(back.event_id, Some(7));
    assert_eq!(back.event_type, EventType::Rename);
    assert_eq!(back.timestamp.rfc3339(), "2021-06-01T10:00:00+00:00");
    assert_eq!(back.snapshot, Some("pfx-bar.txt".to_string()));
    assert_eq!(back.before_path, Some("foo.txt".to_string()));
    assert_eq!(back.after_path, Some("bar.txt".to_string()));
}

#[test]
fn corrupt_event_type_fails_the_read() {
    let row = JournalRow {
        event_id: 1,
        event_type: "Nonsense".to_string(),
        timestamp: "2021-06-01T10:00:00+00:00".to_string(),
        snapshot: None,
        before_path: Some("foo.txt".to_string()),
        after_path: None,
    };
    match row_to_event(&row) {
        Err(Error::UnknownEventType(t)) => assert_eq!(t, "Nonsense"),
        other => panic!("unexpected: {:?}", other),
    }
    match read_backwards(&vec![row]) {
        Err(Error::UnknownEventType(t)) => assert_eq!(t, "Nonsense"),
        other => panic!("unexpected: {:?}", other),
    }
}

#[test]
fn corrupt_timestamp_fails_the_read() {
    let row = JournalRow {
        event_id: 1,
        event_type: "Remove".to_string(),
        timestamp: "yesterdayish".to_string(),
        snapshot: None,
        before_path: Some("foo.txt".to_string()),
        after_path: None,
    };
    match row_to_event(&row) {
        Err(Error::BadTimestamp(t)) => assert_eq!(t, "yesterdayish"),
        other => panic!("unexpected: {:?}", other),
    }
}

#[test]
fn backward_read_orders_newest_first() {
    let mut rows = Vec::new();
    for (record_id, ts) in [
        (1i64, "2021-06-01T10:00:01+00:00"),
        (2i64, "2021-06-01T10:00:02+00:00"),
        (3i64, "2021-06-01T10:00:03+00:00"),
    ] {
        let e = new_event(
            EventType::Remove,
            time(ts),
            None,
            None,
            Some(format!("f{}.txt", record_id)),
        );
        rows.push(row_from(record_id, &e));
    }
    let evs = read_backwards(&rows).unwrap();
    let ids: Vec<Option<i64>> = evs.iter().map(|e| e.event_id).collect();
    assert_eq!(ids, vec![Some(3), Some(2), Some(1)]);
}

#[test]
fn backward_read_sorts_rows_arriving_out_of_order() {
    let mut rows = Vec::new();
    for (record_id, ts) in [
        (2i64, "2021-06-01T10:00:02+00:00"),
        (1i64, "2021-06-01T10:00:01+00:00"),
        (3i64, "2021-06-01T10:00:03+00:00"),
    ] {
        let e = new_event(EventType::Remove, time(ts), None, None, Some("f.txt".to_string()));
        rows.push(row_from(record_id, &e));
    }
    let evs = read_backwards(&rows).unwrap();
    let ids: Vec<Option<i64>> = evs.iter().map(|e| e.event_id).collect();
    assert_eq!(ids, vec![Some(3), Some(2), Some(1)]);
}

#[test]
fn equal_timestamps_keep_arrival_order() {
    let mut rows = Vec::new();
    for record_id in [1i64, 2, 3] {
        let e = new_event(
            EventType::Remove,
            time("2021-06-01T10:00:00+00:00"),
            None,
            None,
            Some("f.txt".to_string()),
        );
        rows.push(row_from(record_id, &e));
    }
    let evs = read_backwards(&rows).unwrap();
    let ids: Vec<Option<i64>> = evs.iter().map(|e| e.event_id).collect();
    assert_eq!(ids, vec![Some(1), Some(2), Some(3)]);
}

#[test]
fn the_clock_renders_parseable_timestamps() {
    let now = squirrel::event::get_timestamp_now();
    assert!(squirrel::event::rfc3339_parses(now.rfc3339().as_str()));
    assert!(squirrel::event::rfc3339_parses("2021-06-01T10:00:00+00:00"));
    assert!(!squirrel::event::rfc3339_parses("not a timestamp"));
}
