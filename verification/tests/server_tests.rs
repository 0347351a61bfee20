use squirrel::errors::Error;
use squirrel::event::{EventType, FileEvent};
use squirrel::fs_path::FsPath;
use squirrel::path_filter::PrefixIgnore;
use squirrel::server::{handle_notification, relativize, to_squirrel_event, RawNotification};
use squirrel::squirrel::EventPlan;

fn abs(parts: &[&str]) -> FsPath {
    FsPath { absolute: true, parts: parts.iter().map(|s| s.to_string()).collect() }
}

fn rel(parts: &[&str]) -> FsPath {
    FsPath { absolute: false, parts: parts.iter().map(|s| s.to_string()).collect() }
}

#[test]
fn relativize_strips_the_root() {
    let p = relativize(&abs(&["a"]), &abs(&["a", "b", "c.txt"])).unwrap();
    assert!(!p.absolute);
    assert_eq!(p.parts, vec!["b".to_string(), "c.txt".to_string()]);
    assert!(matches!(relativize(&abs(&["a"]), &abs(&["x", "c.txt"])), Err(Error::NotInRoot)));
}

#[test]
fn classification_relativizes_every_path() {
    let base = abs(&["a"]);
    let e = to_squirrel_event(RawNotification::Write(abs(&["a", "f.txt"])), &base).unwrap();
    match e {
        FileEvent::Write(p) => assert_eq!(p.parts, vec!["f.txt".to_string()]),
        _ => panic!("expected a write event"),
    }
    let e = to_squirrel_event(
        RawNotification::Rename(abs(&["a", "f.txt"]), abs(&["a", "g.txt"])),
        &base,
    )
    .unwrap();
    match e {
        FileEvent::Rename(from, to) => {
            assert_eq!(from.parts, vec!["f.txt".to_string()]);
            assert_eq!(to.parts, vec!["g.txt".to_string()]);
        },
        _ => panic!("expected a rename event"),
    }
    let e = to_squirrel_event(RawNotification::Other, &base).unwrap();
    assert!(matches!(e, FileEvent::UnknownEvent));
    let r = to_squirrel_event(RawNotification::Remove(abs(&["x", "f.txt"])), &base);
    assert_eq!(
        r.map(|_| ()),
        Err::<(), Error>(Error::NotInRoot),
    );
}

#[test]
fn rename_events_are_filtered_by_their_destination() {
    let e = FileEvent::Rename(rel(&["from.txt"]), rel(&["to.txt"]));
    assert_eq!(e.path().unwrap().parts, vec!["to.txt".to_string()]);
    assert!(FileEvent::UnknownEvent.path().is_none());
}

#[test]
fn one_loop_turn_plans_work_for_an_admitted_event() {
    let filter = squirrel::path_filter::new(&abs(&["a"]), &abs(&["a", ".backup"])).unwrap();
    let sq = squirrel::squirrel::new(&abs(&["a", ".backup"]));
    let prefixes = vec![PrefixIgnore { is_file: true, gitignore: None }];
    let plan = handle_notification(
        &sq,
        &filter,
        RawNotification::Create(abs(&["a", "foo.txt"])),
        false,
        &None,
        &prefixes,
    )
    .unwrap();
    match plan {
        EventPlan::CopyAndRecord { record, .. } => {
            assert_eq!(record.event_type, EventType::Create);
            assert_eq!(record.before_path, Some("foo.txt".to_string()));
        },
        _ => panic!("expected a copy-and-record plan"),
    }
}

#[test]
fn one_loop_turn_skips_denied_and_unresolvable_events() {
    let filter = squirrel::path_filter::new(&abs(&["a"]), &abs(&["a", ".backup"])).unwrap();
    let sq = squirrel::squirrel::new(&abs(&["a", ".backup"]));
    // Outside the root: dropped, not an error.
    let plan = handle_notification(
        &sq,
        &filter,
        RawNotification::Create(abs(&["elsewhere", "foo.txt"])),
        false,
        &None,
        &vec![],
    )
    .unwrap();
    assert!(matches!(plan, EventPlan::Skip));
    // Ignored by the root's rules: denied.
    let prefixes = vec![PrefixIgnore { is_file: true, gitignore: None }];
    let plan = handle_notification(
        &sq,
        &filter,
        RawNotification::Create(abs(&["a", "foo.txt"])),
        false,
        &Some(vec!["*.txt".to_string()]),
        &prefixes,
    )
    .unwrap();
    assert!(matches!(plan, EventPlan::Skip));
}
