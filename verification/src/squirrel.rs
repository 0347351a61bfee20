use vstd::prelude::*;
use vstd::string::StringExecFns;
use rand::distr::SampleString;
use crate::event::{
    new_event, rfc3339_ok, EventTime, EventType, EventV, FileEvent, FileEventV,
};
use crate::fs_path::{path_chars, FsPath, FsPathV};

verus! {

/// Whether a character is an ASCII letter or digit.
pub open spec fn is_ascii_alnum(c: char) -> bool {
    |||(('a' as u32) <= (c as u32) && (c as u32) <= ('z' as u32))
    |||(('A' as u32) <= (c as u32) && (c as u32) <= ('Z' as u32))
    |||(('0' as u32) <= (c as u32) && (c as u32) <= ('9' as u32))
}

/// Relies on rand's `Alphanumeric` distribution via `sample_string`: `len`
/// characters drawn independently from the ASCII letters and digits. Nothing
/// is assumed about which characters come out.
#[verifier::external_body]
fn random_alnum(len: usize) -> (r: String)
    ensures
        r@.len() == len as nat,
        forall|i: int| 0 <= i < r@.len() ==> is_ascii_alnum(#[trigger] r@[i]),
{
    rand::distr::Alphanumeric.sample_string(&mut rand::rng(), len)
}

/// A collision-resistant prefix for one snapshot's file name: 21 characters
/// from a 62-symbol alphabet, about 125 bits of randomness, the entropy of a
/// random unique identifier.
pub fn snapshot_prefix() -> (r: String)
    ensures
        r@.len() == 21,
        forall|i: int| 0 <= i < r@.len() ==> is_ascii_alnum(#[trigger] r@[i]),
{
    random_alnum(21)
}

/// The stash file name for a snapshot: the unique prefix, a dash, then the
/// source file's base name.
pub open spec fn snapshot_name_chars(prefix: Seq<char>, source: FsPathV) -> Seq<char> {
    prefix + seq!['-'] + source.parts.last()
}

/// The stash entry a snapshot is copied to.
pub open spec fn stash_dest(stash: FsPathV, name: Seq<char>) -> FsPathV {
    FsPathV { absolute: stash.absolute, parts: stash.parts.push(name) }
}

/// Builds the snapshot's file name for a source path.
pub fn snapshot_file_name(prefix: &String, source: &FsPath) -> (r: String)
    requires
        source@.parts.len() > 0,
    ensures
        r@ == snapshot_name_chars(prefix@, source@),
{
    let mut r = prefix.clone();
    r.append("-");
    proof {
        reveal_strlit("-");
        assert(("-")@.len() == 1);
        assert(("-")@ =~= seq!['-']);
    }
    match source.file_name() {
        Some(name) => {
            r.append(name.as_str());
        },
        None => {
            proof {
                assert(false);
            }
        },
    }
    proof {
        assert(r@ =~= snapshot_name_chars(prefix@, source@));
    }
    r
}

/// What the dispatcher decides to do for one admitted event: nothing; copy a
/// file into the stash and journal a record; or journal a record alone.
#[derive(Debug)]
pub enum EventPlan {
    Skip,
    CopyAndRecord { source: FsPath, snapshot_name: String, dest: FsPath, record: crate::event::Event },
    RecordOnly { record: crate::event::Event },
}

/// Mathematical shape of a dispatch plan.
pub ghost enum PlanV {
    Skip,
    CopyAndRecord { source: FsPathV, snapshot_name: Seq<char>, dest: FsPathV, record: EventV },
    RecordOnly { record: EventV },
}

impl View for EventPlan {
    type V = PlanV;

    open spec fn view(&self) -> PlanV {
        match self {
            EventPlan::Skip => PlanV::Skip,
            EventPlan::CopyAndRecord { source, snapshot_name, dest, record } => PlanV::CopyAndRecord {
                source: source@,
                snapshot_name: snapshot_name@,
                dest: dest@,
                record: record@,
            },
            EventPlan::RecordOnly { record } => PlanV::RecordOnly { record: record@ },
        }
    }
}

/// The plan for a content write or a creation: directories are not tracked;
/// a file is snapshotted and journalled with no destination path.
pub open spec fn spec_write_or_create_plan(
    stash: FsPathV,
    path: FsPathV,
    event_type: EventType,
    is_dir: bool,
    prefix: Seq<char>,
    ts: Seq<char>,
) -> PlanV {
    if is_dir {
        PlanV::Skip
    } else {
        let name = snapshot_name_chars(prefix, path);
        PlanV::CopyAndRecord {
            source: path,
            snapshot_name: name,
            dest: stash_dest(stash, name),
            record: EventV {
                event_id: None,
                event_type,
                timestamp: ts,
                snapshot: Some(name),
                before_path: Some(path_chars(path)),
                after_path: None,
            },
        }
    }
}

/// The plan for a removal: no content is left to copy, so only a record.
pub open spec fn spec_remove_plan(path: FsPathV, ts: Seq<char>) -> PlanV {
    PlanV::RecordOnly {
        record: EventV {
            event_id: None,
            event_type: EventType::Remove,
            timestamp: ts,
            snapshot: None,
            before_path: Some(path_chars(path)),
            after_path: None,
        },
    }
}

/// The plan for a rename: the destination's content is snapshotted, and the
/// record carries both ends of the move.
pub open spec fn spec_rename_plan(
    stash: FsPathV,
    source: FsPathV,
    dest: FsPathV,
    prefix: Seq<char>,
    ts: Seq<char>,
) -> PlanV {
    let name = snapshot_name_chars(prefix, dest);
    PlanV::CopyAndRecord {
        source: dest,
        snapshot_name: name,
        dest: stash_dest(stash, name),
        record: EventV {
            event_id: None,
            event_type: EventType::Rename,
            timestamp: ts,
            snapshot: Some(name),
            before_path: Some(path_chars(source)),
            after_path: Some(path_chars(dest)),
        },
    }
}

/// The plan for any classified event.
pub open spec fn spec_dispatch_plan(
    stash: FsPathV,
    event: FileEventV,
    is_dir: bool,
    prefix: Seq<char>,
    ts: Seq<char>,
) -> PlanV {
    match event {
        FileEventV::Write(p) => spec_write_or_create_plan(
            stash,
            p,
            EventType::Update,
            is_dir,
            prefix,
            ts,
        ),
        FileEventV::Create(p) => spec_write_or_create_plan(
            stash,
            p,
            EventType::Create,
            is_dir,
            prefix,
            ts,
        ),
        FileEventV::Remove(p) => spec_remove_plan(p, ts),
        FileEventV::Rename(s, d) => spec_rename_plan(stash, s, d, prefix, ts),
        FileEventV::UnknownEvent => PlanV::Skip,
    }
}

/// Every record a dispatch plan carries satisfies the record invariant:
/// its source path is named, removals carry no snapshot, writes, creations
/// and renames carry one, and only renames carry a destination path.
pub proof fn lemma_dispatch_plan_record_wf(
    stash: FsPathV,
    event: FileEventV,
    is_dir: bool,
    prefix: Seq<char>,
    ts: Seq<char>,
)
    ensures
        match spec_dispatch_plan(stash, event, is_dir, prefix, ts) {
            PlanV::Skip => true,
            PlanV::CopyAndRecord { record, .. } => record.wf(),
            PlanV::RecordOnly { record } => record.wf(),
        },
{
}

/// Which events a dispatch may be asked to plan: any path a snapshot name is
/// built from must have a final component.
pub open spec fn dispatchable(event: FileEventV, is_dir: bool) -> bool {
    match event {
        FileEventV::Write(p) => !is_dir ==> p.parts.len() > 0,
        FileEventV::Create(p) => !is_dir ==> p.parts.len() > 0,
        FileEventV::Rename(_, d) => d.parts.len() > 0,
        FileEventV::Remove(_) => true,
        FileEventV::UnknownEvent => true,
    }
}

/// The dispatcher: owns the stash location and decides, per admitted event,
/// what to snapshot and what to journal.
pub struct Squirrel {
    pub stash_path: FsPath,
}

/// A dispatcher over the given stash directory.
pub fn new(stash_path: &FsPath) -> (r: Squirrel)
    ensures
        r.stash_path@ == stash_path@,
{
    Squirrel { stash_path: stash_path.duplicate() }
}

impl Squirrel {
    /// The copy-and-record plan shared by content writes and creations.
    pub fn record_write_or_create(
        &self,
        path: &FsPath,
        event_type: EventType,
        is_dir: bool,
        prefix: &String,
        now: EventTime,
    ) -> (r: EventPlan)
        requires
            !is_dir ==> path@.parts.len() > 0,
        ensures
            r@ == spec_write_or_create_plan(
                self.stash_path@,
                path@,
                event_type,
                is_dir,
                prefix@,
                now@,
            ),
    {
        if is_dir {
            return EventPlan::Skip;
        }
        let name = snapshot_file_name(prefix, path);
        let mut dest = self.stash_path.duplicate();
        dest.parts.push(name.clone());
        proof {
            assert(dest@.parts =~= stash_dest(self.stash_path@, name@).parts);
        }
        let record = new_event(
            event_type,
            now,
            Some(name.clone()),
            None,
            Some(path.to_path_string()),
        );
        EventPlan::CopyAndRecord { source: path.duplicate(), snapshot_name: name, dest, record }
    }

    pub fn on_write(&self, path: &FsPath, is_dir: bool, prefix: &String, now: EventTime) -> (r:
        EventPlan)
        requires
            !is_dir ==> path@.parts.len() > 0,
        ensures
            r@ == spec_write_or_create_plan(
                self.stash_path@,
                path@,
                EventType::Update,
                is_dir,
                prefix@,
                now@,
            ),
    {
        self.record_write_or_create(path, EventType::Update, is_dir, prefix, now)
    }

    pub fn on_create(&self, path: &FsPath, is_dir: bool, prefix: &String, now: EventTime) -> (r:
        EventPlan)
        requires
            !is_dir ==> path@.parts.len() > 0,
        ensures
            r@ == spec_write_or_create_plan(
                self.stash_path@,
                path@,
                EventType::Create,
                is_dir,
                prefix@,
                now@,
            ),
    {
        self.record_write_or_create(path, EventType::Create, is_dir, prefix, now)
    }

    pub fn on_remove(&self, path: &FsPath, now: EventTime) -> (r: EventPlan)
        ensures
            r@ == spec_remove_plan(path@, now@),
    {
        let record = new_event(
            EventType::Remove,
            now,
            None,
            None,
            Some(path.to_path_string()),
        );
        EventPlan::RecordOnly { record }
    }

    pub fn on_rename(&self, source: &FsPath, dest: &FsPath, prefix: &String, now: EventTime) -> (r:
        EventPlan)
        requires
            dest@.parts.len() > 0,
        ensures
            r@ == spec_rename_plan(self.stash_path@, source@, dest@, prefix@, now@),
    {
        let name = snapshot_file_name(prefix, dest);
        let mut stash_file = self.stash_path.duplicate();
        stash_file.parts.push(name.clone());
        proof {
            assert(stash_file@.parts =~= stash_dest(self.stash_path@, name@).parts);
        }
        let record = new_event(
            EventType::Rename,
            now,
            Some(name.clone()),
            Some(dest.to_path_string()),
            Some(source.to_path_string()),
        );
        EventPlan::CopyAndRecord {
            source: dest.duplicate(),
            snapshot_name: name,
            dest: stash_file,
            record,
        }
    }

    /// Decides the plan for one classified event, drawing a fresh snapshot
    /// prefix and the current instant; the plan is exactly the one planned
    /// for some such prefix and timestamp.
    pub fn dispatch_event(&self, event: &FileEvent, is_dir: bool) -> (r: EventPlan)
        requires
            dispatchable(event@, is_dir),
        ensures
            exists|prefix: Seq<char>, ts: Seq<char>|
                #[trigger] spec_dispatch_plan(self.stash_path@, event@, is_dir, prefix, ts) == r@
                    && prefix.len() == 21 && rfc3339_ok(ts),
    {
        let prefix = snapshot_prefix();
        let now = crate::event::get_timestamp_now();
        let ghost pfx = prefix@;
        let ghost ts = now@;
        let r = match event {
            FileEvent::Write(path) => self.on_write(path, is_dir, &prefix, now),
            FileEvent::Create(path) => self.on_create(path, is_dir, &prefix, now),
            FileEvent::Remove(path) => self.on_remove(path, now),
            FileEvent::Rename(source, dest) => self.on_rename(source, dest, &prefix, now),
            FileEvent::UnknownEvent => EventPlan::Skip,
        };
        proof {
            assert(spec_dispatch_plan(self.stash_path@, event@, is_dir, pfx, ts) == r@);
        }
        r
    }
}

} // verus!
