use std::collections::HashSet;

use squirrel::event::{EventType, FileEvent};
use squirrel::fs_path::FsPath;
use squirrel::squirrel::{new, snapshot_file_name, snapshot_prefix, EventPlan};

fn abs(parts: &[&str]) -> FsPath {
    FsPath { absolute: true, parts: parts.iter().map(|s| s.to_string()).collect() }
}

fn rel(parts: &[&str]) -> FsPath {
    FsPath { absolute: false, parts: parts.iter().map(|s| s.to_string()).collect() }
}

#[test]
fn snapshot_names_for_one_base_name_stay_distinct() {
    let source = rel(&["foo.txt"]);
    let mut seen: HashSet<String> = HashSet::new();
    for _ in 0..10_000 {
        let prefix = snapshot_prefix();
        assert_eq!(prefix.chars().count(), 21);
        assert!(prefix.chars().all(|c| c.is_ascii_alphanumeric()));
        let name = snapshot_file_name(&prefix, &source);
        assert!(name.ends_with("-foo.txt"));
        assert!(seen.insert(name));
    }
    assert_eq!(seen.len(), 10_000);
}

#[test]
fn creating_a_file_plans_one_create_record_and_one_copy() {
    let sq = new(&abs(&["root", ".backup"]));
    let plan = sq.dispatch_event(&FileEvent::Create(rel(&["foo.txt"])), false);
    match plan {
        EventPlan::CopyAndRecord { source, snapshot_name, dest, record } => {
            assert_eq!(source.parts, vec!["foo.txt".to_string()]);
            assert!(snapshot_name.ends_with("-foo.txt"));
            assert_eq!(snapshot_name.chars().count(), 21 + 1 + "foo.txt".len());
            assert!(dest.absolute);
            assert_eq!(dest.parts.last().unwrap(), &snapshot_name);
            assert_eq!(record.event_id, None);
            assert_eq!(record.event_type, EventType::Create);
            assert_eq!(record.snapshot, Some(snapshot_name));
            assert_eq!(record.before_path, Some("foo.txt".to_string()));
            assert_eq!(record.after_path, None);
        },
        _ => panic!("expected a copy-and-record plan"),
    }
}

#[test]
fn renaming_a_file_plans_one_rename_record_snapshotting_the_destination() {
    let sq = new(&abs(&["root", ".backup"]));
    let plan = sq.dispatch_event(
        &FileEvent::Rename(rel(&["foo.txt"]), rel(&["bar.txt"])),
        false,
    );
    match plan {
        EventPlan::CopyAndRecord { source, snapshot_name, dest: _, record } => {
            assert_eq!(source.parts, vec!["bar.txt".to_string()]);
            assert!(snapshot_name.ends_with("-bar.txt"));
            assert_eq!(record.event_type, EventType::Rename);
            assert_eq!(record.snapshot, Some(snapshot_name));
            assert_eq!(record.before_path, Some("foo.txt".to_string()));
            assert_eq!(record.after_path, Some("bar.txt".to_string()));
        },
        _ => panic!("expected a copy-and-record plan"),
    }
}

#[test]
fn removing_a_file_plans_one_record_and_no_snapshot() {
    let sq = new(&abs(&["root", ".backup"]));
    let plan = sq.dispatch_event(&FileEvent::Remove(rel(&["bar.txt"])), false);
    match plan {
        EventPlan::RecordOnly { record } => {
            assert_eq!(record.event_type, EventType::Remove);
            assert_eq!(record.snapshot, None);
            assert_eq!(record.before_path, Some("bar.txt".to_string()));
            assert_eq!(record.after_path, None);
        },
        _ => panic!("expected a record-only plan"),
    }
}

#[test]
fn directory_writes_are_skipped() {
    let sq = new(&abs(&["root", ".backup"]));
    let plan = sq.dispatch_event(&FileEvent::Write(rel(&["somedir"])), true);
    assert!(matches!(plan, EventPlan::Skip));
    let plan = sq.dispatch_event(&FileEvent::UnknownEvent, false);
    assert!(matches!(plan, EventPlan::Skip));
}

#[test]
fn writes_plan_update_records() {
    let sq = new(&abs(&["root", ".backup"]));
    let plan = sq.dispatch_event(&FileEvent::Write(rel(&["a", "b.txt"])), false);
    match plan {
        EventPlan::CopyAndRecord { record, .. } => {
            assert_eq!(record.event_type, EventType::Update);
            assert_eq!(record.before_path, Some("a/b.txt".to_string()));
            assert_eq!(record.after_path, None);
        },
        _ => panic!("expected a copy-and-record plan"),
    }
}
