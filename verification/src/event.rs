use vstd::prelude::*;
use crate::errors::Error;
use crate::fs_path::{FsPath, FsPathV};

verus! {

/// The closed set of semantic file events the journal records.
#[derive(Clone, Copy, Debug, PartialEq, Eq, Structural)]
pub enum EventType {
    Create,
    Remove,
    Update,
    Rename,
}

/// The stable textual token of each event type, as stored in the journal.
pub open spec fn token_of(e: EventType) -> Seq<char> {
    match e {
        EventType::Create => ("Create")@,
        EventType::Remove => ("Remove")@,
        EventType::Update => ("Update")@,
        EventType::Rename => ("Rename")@,
    }
}

/// The event type a stored token names, if any.
pub open spec fn type_of_token(s: Seq<char>) -> Option<EventType> {
    if s == ("Create")@ {
        Some(EventType::Create)
    } else if s == ("Remove")@ {
        Some(EventType::Remove)
    } else if s == ("Update")@ {
        Some(EventType::Update)
    } else if s == ("Rename")@ {
        Some(EventType::Rename)
    } else {
        None
    }
}

/// Equality of string slices, stated over the character sequences.
pub fn str_eq(a: &str, b: &str) -> (r: bool)
    ensures
        r == (a@ == b@),
{
    let oa = a.to_owned();
    let ob = b.to_owned();
    oa.eq(&ob)
}

impl EventType {
    /// The token this event type serializes to.
    pub fn token(&self) -> (r: String)
        ensures
            r@ == token_of(*self),
    {
        match self {
            EventType::Create => "Create".to_owned(),
            EventType::Remove => "Remove".to_owned(),
            EventType::Update => "Update".to_owned(),
            EventType::Rename => "Rename".to_owned(),
        }
    }

    /// Parses a stored token back into an event type; an unrecognized token
    /// is a hard error carrying the offending text.
    pub fn from_str(s: &str) -> (r: Result<EventType, Error>)
        ensures
            type_of_token(s@) matches Some(t) ==> r == Ok::<EventType, Error>(t),
            type_of_token(s@) is None ==> (r matches Err(Error::UnknownEventType(t)) && t@
                == s@),
    {
        if str_eq(s, "Create") {
            Ok(EventType::Create)
        } else if str_eq(s, "Remove") {
            Ok(EventType::Remove)
        } else if str_eq(s, "Update") {
            Ok(EventType::Update)
        } else if str_eq(s, "Rename") {
            Ok(EventType::Rename)
        } else {
            Err(Error::UnknownEventType(s.to_owned()))
        }
    }
}

/// Serializing an event type and parsing the token back yields the same
/// event type: the textual round trip loses nothing.
pub proof fn lemma_event_type_token_round_trip(e: EventType)
    ensures
        type_of_token(token_of(e)) == Some(e),
{
    reveal_strlit("Create");
    reveal_strlit("Remove");
    reveal_strlit("Update");
    reveal_strlit("Rename");
    assert(("Create")@[0] == 'C');
    assert(("Remove")@[0] == 'R');
    assert(("Update")@[0] == 'U');
    assert(("Rename")@[0] == 'R');
    assert(("Remove")@[2] == 'm');
    assert(("Rename")@[2] == 'n');
}

/// An instant in UTC, held in its fixed, sortable RFC 3339 rendering; the
/// same text serves storage, ordering and display.
#[derive(Debug)]
pub struct EventTime {
    pub utc_text: String,
}

impl View for EventTime {
    type V = Seq<char>;

    open spec fn view(&self) -> Seq<char> {
        self.utc_text@
    }
}

/// Whether a text is a valid RFC 3339 instant. Deterministic in the text;
/// what it holds is fixed by the parser relied on below.
pub uninterp spec fn rfc3339_ok(s: Seq<char>) -> bool;

/// Relies on chrono's `DateTime::parse_from_rfc3339`: whether the text
/// parses as an RFC 3339 instant, a function of the text alone.
#[verifier::external_body]
pub fn rfc3339_parses(s: &str) -> (b: bool)
    ensures
        b == rfc3339_ok(s@),
{
    chrono::DateTime::parse_from_rfc3339(s).is_ok()
}

/// Relies on chrono's `Utc::now` and `DateTime::to_rfc3339`: the current
/// instant rendered in RFC 3339 form. chrono documents `to_rfc3339` as
/// producing an RFC 3339 string, which `parse_from_rfc3339` accepts; for a
/// UTC instant the rendering carries the explicit zero offset, so the text
/// ends in `+00:00`. Nothing else is assumed of the clock's value.
#[verifier::external_body]
fn now_utc_rfc3339() -> (r: String)
    ensures
        rfc3339_ok(r@),
        r@.len() >= 6 && r@.subrange(r@.len() - 6, r@.len() as int) == ("+00:00")@,
{
    chrono::Utc::now().to_rfc3339()
}

impl EventTime {
    /// The RFC 3339 text of this instant.
    pub fn rfc3339(&self) -> (r: String)
        ensures
            r@ == self@,
    {
        self.utc_text.clone()
    }

    /// Wraps an already-validated RFC 3339 text, as read back from storage,
    /// so that every instant the model holds is a valid instant text.
    pub fn from_rfc3339_text(s: String) -> (r: EventTime)
        requires
            rfc3339_ok(s@),
        ensures
            r@ == s@,
    {
        EventTime { utc_text: s }
    }
}

/// The current instant, in UTC, as an event timestamp.
pub fn get_timestamp_now() -> (t: EventTime)
    ensures
        rfc3339_ok(t@),
{
    EventTime { utc_text: now_utc_rfc3339() }
}

/// A classified filesystem mutation, with paths relative to the watched root.
#[derive(Debug)]
pub enum FileEvent {
    Write(FsPath),
    Create(FsPath),
    Rename(FsPath, FsPath),
    Remove(FsPath),
    UnknownEvent,
}

/// Mathematical shape of a classified event.
pub ghost enum FileEventV {
    Write(FsPathV),
    Create(FsPathV),
    Rename(FsPathV, FsPathV),
    Remove(FsPathV),
    UnknownEvent,
}

impl View for FileEvent {
    type V = FileEventV;

    open spec fn view(&self) -> FileEventV {
        match self {
            FileEvent::Write(p) => FileEventV::Write(p@),
            FileEvent::Create(p) => FileEventV::Create(p@),
            FileEvent::Rename(from, to) => FileEventV::Rename(from@, to@),
            FileEvent::Remove(p) => FileEventV::Remove(p@),
            FileEvent::UnknownEvent => FileEventV::UnknownEvent,
        }
    }
}

impl FileEventV {
    /// The path the event is about, used for filtering: for a rename, where
    /// the file ended up; nothing for an unrecognized event.
    pub open spec fn spec_path(self) -> Option<FsPathV> {
        match self {
            FileEventV::Write(p) => Some(p),
            FileEventV::Create(p) => Some(p),
            FileEventV::Rename(_, to) => Some(to),
            FileEventV::Remove(p) => Some(p),
            FileEventV::UnknownEvent => None,
        }
    }
}

impl FileEvent {
    pub fn path(&self) -> (r: Option<&FsPath>)
        ensures
            match r {
                Some(p) => self@.spec_path() == Some(p@),
                None => self@.spec_path() is None,
            },
    {
        match self {
            FileEvent::Write(p) => Some(p),
            FileEvent::Create(p) => Some(p),
            FileEvent::Rename(_, to) => Some(to),
            FileEvent::Remove(p) => Some(p),
            FileEvent::UnknownEvent => None,
        }
    }
}

/// The identity a journal record gets when it is persisted.
pub type EventId = i64;

/// Mathematical shape of a journal record.
pub ghost struct EventV {
    pub event_id: Option<EventId>,
    pub event_type: EventType,
    pub timestamp: Seq<char>,
    pub snapshot: Option<Seq<char>>,
    pub before_path: Option<Seq<char>>,
    pub after_path: Option<Seq<char>>,
}

/// The view of an optional stored text.
pub open spec fn opt_text(o: Option<String>) -> Option<Seq<char>> {
    match o {
        Some(s) => Some(s@),
        None => None,
    }
}

/// One journal record: what happened, when, to which path, and where the
/// snapshot of the affected content lives.
#[derive(Debug)]
pub struct Event {
    pub event_id: Option<EventId>,
    pub event_type: EventType,
    pub timestamp: EventTime,
    pub snapshot: Option<String>,
    pub before_path: Option<String>,
    pub after_path: Option<String>,
}

impl View for Event {
    type V = EventV;

    open spec fn view(&self) -> EventV {
        EventV {
            event_id: self.event_id,
            event_type: self.event_type,
            timestamp: self.timestamp@,
            snapshot: opt_text(self.snapshot),
            before_path: opt_text(self.before_path),
            after_path: opt_text(self.after_path),
        }
    }
}

impl EventV {
    /// The record invariant: every event names its source path; removals
    /// carry no snapshot; writes, creations and renames carry one; only
    /// renames carry a destination path.
    pub open spec fn wf(self) -> bool {
        &&& self.before_path is Some
        &&& match self.event_type {
            EventType::Remove => self.snapshot is None && self.after_path is None,
            EventType::Update => self.snapshot is Some && self.after_path is None,
            EventType::Create => self.snapshot is Some && self.after_path is None,
            EventType::Rename => self.snapshot is Some && self.after_path is Some,
        }
    }
}

/// A fresh, not yet persisted record; identity stays unassigned until the
/// journal assigns it at write time.
pub fn new_event(
    event_type: EventType,
    timestamp: EventTime,
    snapshot: Option<String>,
    after_path: Option<String>,
    before_path: Option<String>,
) -> (r: Event)
    ensures
        r@ == (EventV {
            event_id: None,
            event_type,
            timestamp: timestamp@,
            snapshot: opt_text(snapshot),
            before_path: opt_text(before_path),
            after_path: opt_text(after_path),
        }),
{
    Event { event_id: None, event_type, timestamp, snapshot, before_path, after_path }
}

} // verus!
