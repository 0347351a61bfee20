use vstd::prelude::*;
use crate::errors::Error;
use crate::event::{FileEvent, FileEventV};
use crate::fs_path::{path_chars, FsPath, FsPathV};
use crate::path_filter::{composed_lines, gitignore_builds, opt_lines_view, prefixes_view,
    PathFilter, PrefixIgnore};
use crate::squirrel::{spec_dispatch_plan, EventPlan, PlanV, Squirrel};

verus! {

/// A raw change notification as the watch source delivers it, with absolute
/// paths; anything outside the recognized kinds is `Other`.
#[derive(Debug)]
pub enum RawNotification {
    Write(FsPath),
    Create(FsPath),
    Rename(FsPath, FsPath),
    Remove(FsPath),
    Other,
}

/// Mathematical shape of a raw notification.
pub ghost enum RawNotificationV {
    Write(FsPathV),
    Create(FsPathV),
    Rename(FsPathV, FsPathV),
    Remove(FsPathV),
    Other,
}

impl View for RawNotification {
    type V = RawNotificationV;

    open spec fn view(&self) -> RawNotificationV {
        match self {
            RawNotification::Write(p) => RawNotificationV::Write(p@),
            RawNotification::Create(p) => RawNotificationV::Create(p@),
            RawNotification::Rename(from, to) => RawNotificationV::Rename(from@, to@),
            RawNotification::Remove(p) => RawNotificationV::Remove(p@),
            RawNotification::Other => RawNotificationV::Other,
        }
    }
}

/// A path with the watched root stripped off.
pub open spec fn rel_of(base: FsPathV, abs: FsPathV) -> FsPathV {
    FsPathV { absolute: false, parts: abs.parts.skip(base.parts.len() as int) }
}

/// Strips the watched root from a path that lies under it; any other path
/// cannot be expressed relative to the root.
pub fn relativize(base_path: &FsPath, abs_path: &FsPath) -> (r: Result<FsPath, Error>)
    ensures
        abs_path@.starts_with(base_path@) ==> (r matches Ok(p) && p@ == rel_of(
            base_path@,
            abs_path@,
        )),
        !abs_path@.starts_with(base_path@) ==> r == Err::<FsPath, Error>(Error::NotInRoot),
{
    if !abs_path.starts_with(base_path) {
        return Err(Error::NotInRoot);
    }
    let start: usize = base_path.parts.len();
    let mut parts: Vec<String> = Vec::new();
    let mut i: usize = start;
    while i < abs_path.parts.len()
        invariant
            start <= i <= abs_path.parts.len(),
            parts@.len() == i - start,
            forall|j: int| 0 <= j < i - start ==> parts@[j]@ == abs_path@.parts[start + j],
        decreases abs_path.parts.len() - i,
    {
        parts.push(abs_path.parts[i].clone());
        i = i + 1;
    }
    let r = FsPath { absolute: false, parts };
    proof {
        assert(r@.parts =~= rel_of(base_path@, abs_path@).parts);
    }
    Ok(r)
}

/// The classified event a notification denotes, when every path it names
/// lies under the watched root.
pub open spec fn spec_classify(n: RawNotificationV, base: FsPathV) -> Option<FileEventV> {
    match n {
        RawNotificationV::Write(p) => if p.starts_with(base) {
            Some(FileEventV::Write(rel_of(base, p)))
        } else {
            None
        },
        RawNotificationV::Create(p) => if p.starts_with(base) {
            Some(FileEventV::Create(rel_of(base, p)))
        } else {
            None
        },
        RawNotificationV::Rename(a, b) => if a.starts_with(base) && b.starts_with(base) {
            Some(FileEventV::Rename(rel_of(base, a), rel_of(base, b)))
        } else {
            None
        },
        RawNotificationV::Remove(p) => if p.starts_with(base) {
            Some(FileEventV::Remove(rel_of(base, p)))
        } else {
            None
        },
        RawNotificationV::Other => Some(FileEventV::UnknownEvent),
    }
}

/// Classifies one raw notification, making its paths relative to the watched
/// root; a notification about a path the root does not contain fails.
pub fn to_squirrel_event(notify_event: RawNotification, base_path: &FsPath) -> (r: Result<
    FileEvent,
    Error,
>)
    ensures
        spec_classify(notify_event@, base_path@) matches Some(e) ==> (r matches Ok(fe) && fe@
            == e),
        spec_classify(notify_event@, base_path@) is None ==> r == Err::<FileEvent, Error>(Error::NotInRoot),
{
    match notify_event {
        RawNotification::Write(p) => {
            let q = relativize(base_path, &p)?;
            Ok(FileEvent::Write(q))
        },
        RawNotification::Create(p) => {
            let q = relativize(base_path, &p)?;
            Ok(FileEvent::Create(q))
        },
        RawNotification::Rename(a, b) => {
            let qa = relativize(base_path, &a)?;
            let qb = relativize(base_path, &b)?;
            Ok(FileEvent::Rename(qa, qb))
        },
        RawNotification::Remove(p) => {
            let q = relativize(base_path, &p)?;
            Ok(FileEvent::Remove(q))
        },
        RawNotification::Other => Ok(FileEvent::UnknownEvent),
    }
}

/// The shapes of notification the event loop may hand in: every named path
/// is well-formed, and a path a snapshot would be named after reaches below
/// the root itself.
pub open spec fn notification_ok(n: RawNotificationV, base: FsPathV, is_dir: bool) -> bool {
    match n {
        RawNotificationV::Write(p) => p.wf() && (p.starts_with(base) && !is_dir ==> p.parts.len()
            > base.parts.len()),
        RawNotificationV::Create(p) => p.wf() && (p.starts_with(base) && !is_dir
            ==> p.parts.len() > base.parts.len()),
        RawNotificationV::Rename(a, b) => a.wf() && b.wf() && (b.starts_with(base)
            ==> b.parts.len() > base.parts.len()),
        RawNotificationV::Remove(p) => p.wf(),
        RawNotificationV::Other => true,
    }
}

/// One turn of the event loop's decision logic: classify the notification,
/// ask the filter, and plan the snapshot and journal work for an admitted
/// event. A notification whose path cannot be resolved against the root is
/// dropped, not an error.
pub fn handle_notification(
    squirrel: &Squirrel,
    filter: &PathFilter,
    notification: RawNotification,
    is_dir: bool,
    root_gitignore: &Option<Vec<String>>,
    prefixes: &Vec<PrefixIgnore>,
) -> (r: Result<EventPlan, Error>)
    requires
        filter.wf(),
        notification_ok(notification@, filter.base_path@, is_dir),
    ensures
        spec_classify(notification@, filter.base_path@) is None ==> (r matches Ok(p) && p@
            == PlanV::Skip),
        spec_classify(notification@, filter.base_path@) matches Some(e) ==> match e.spec_path() {
            None => r matches Ok(p) && p@ == PlanV::Skip,
            Some(path) => {
                let admitted = filter.admits(
                    path,
                    is_dir,
                    opt_lines_view(*root_gitignore),
                    prefixes_view(prefixes@),
                );
                &&& (admitted ==> (r matches Ok(p) ==> exists|prefix: Seq<char>, ts: Seq<char>|
                    #[trigger] spec_dispatch_plan(squirrel.stash_path@, e, is_dir, prefix, ts)
                        == p@ && prefix.len() == 21 && crate::event::rfc3339_ok(ts)))
                &&& (!admitted ==> (r matches Ok(p) ==> p@ == PlanV::Skip))
                &&& (r is Err <==> filter.in_scope(path) && !filter.in_stash(path)
                    && !filter.dotted(path) && !gitignore_builds(
                    path_chars(filter.base_path@),
                    composed_lines(opt_lines_view(*root_gitignore), prefixes_view(prefixes@)),
                ))
            },
        },
{
    let event = match to_squirrel_event(notification, &filter.base_path) {
        Ok(e) => e,
        Err(_) => {
            return Ok(EventPlan::Skip);
        },
    };
    let should_fire = match event.path() {
        Some(p) => {
            proof {
                let b = filter.base_path@;
                let n = b.parts.len() as int;
                match notification@ {
                    RawNotificationV::Write(q) => if q.starts_with(b) {
                        crate::fs_path::lemma_wf_skip(q, n);
                    },
                    RawNotificationV::Create(q) => if q.starts_with(b) {
                        crate::fs_path::lemma_wf_skip(q, n);
                    },
                    RawNotificationV::Rename(a, d) => if a.starts_with(b) && d.starts_with(b) {
                        crate::fs_path::lemma_wf_skip(d, n);
                    },
                    RawNotificationV::Remove(q) => if q.starts_with(b) {
                        crate::fs_path::lemma_wf_skip(q, n);
                    },
                    RawNotificationV::Other => {},
                }
                assert(p@.wf());
            }
            match filter.allow(p, is_dir, root_gitignore, prefixes) {
                Ok(b) => b,
                Err(e) => {
                    return Err(e);
                },
            }
        },
        None => true,
    };
    if should_fire {
        Ok(squirrel.dispatch_event(&event, is_dir))
    } else {
        Ok(EventPlan::Skip)
    }
}

} // verus!
