use vstd::prelude::*;
use vstd::string::StrSliceExecFns;
use crate::errors::Error;
use crate::event::{
    opt_text, rfc3339_ok, rfc3339_parses, token_of, type_of_token, Event, EventTime, EventType,
    EventV,
};

verus! {

/// One row as the storage engine hands it back: the assigned identity and the
/// stored texts of every field.
#[derive(Debug)]
pub struct JournalRow {
    pub event_id: i64,
    pub event_type: String,
    pub timestamp: String,
    pub snapshot: Option<String>,
    pub before_path: Option<String>,
    pub after_path: Option<String>,
}

/// Mathematical shape of a stored row.
pub ghost struct JournalRowV {
    pub event_id: i64,
    pub event_type: Seq<char>,
    pub timestamp: Seq<char>,
    pub snapshot: Option<Seq<char>>,
    pub before_path: Option<Seq<char>>,
    pub after_path: Option<Seq<char>>,
}

impl View for JournalRow {
    type V = JournalRowV;

    open spec fn view(&self) -> JournalRowV {
        JournalRowV {
            event_id: self.event_id,
            event_type: self.event_type@,
            timestamp: self.timestamp@,
            snapshot: opt_text(self.snapshot),
            before_path: opt_text(self.before_path),
            after_path: opt_text(self.after_path),
        }
    }
}

/// The column values the journal stores for a record: the event type's token,
/// the timestamp text, and the three optional texts, in storage order.
pub open spec fn spec_row_values(e: EventV) -> (
    Seq<char>,
    Seq<char>,
    Option<Seq<char>>,
    Option<Seq<char>>,
    Option<Seq<char>>,
) {
    (token_of(e.event_type), e.timestamp, e.snapshot, e.before_path, e.after_path)
}

fn clone_opt(o: &Option<String>) -> (r: Option<String>)
    ensures
        opt_text(r) == opt_text(*o),
{
    match o {
        Some(s) => Some(s.clone()),
        None => None,
    }
}

/// The texts to hand the storage engine when appending one record; identity
/// is left to the engine to assign at write time.
pub fn to_row_values(e: &Event) -> (r: (
    String,
    String,
    Option<String>,
    Option<String>,
    Option<String>,
))
    ensures
        (r.0@, r.1@, opt_text(r.2), opt_text(r.3), opt_text(r.4)) == spec_row_values(e@),
{
    (
        e.event_type.token(),
        e.timestamp.rfc3339(),
        clone_opt(&e.snapshot),
        clone_opt(&e.before_path),
        clone_opt(&e.after_path),
    )
}

/// The record a stored row denotes: its token must name an event type and its
/// timestamp text must be a valid instant, else the row is corrupt.
pub open spec fn parse_row(r: JournalRowV) -> Option<EventV> {
    match type_of_token(r.event_type) {
        Some(t) => if rfc3339_ok(r.timestamp) {
            Some(
                EventV {
                    event_id: Some(r.event_id),
                    event_type: t,
                    timestamp: r.timestamp,
                    snapshot: r.snapshot,
                    before_path: r.before_path,
                    after_path: r.after_path,
                },
            )
        } else {
            None
        },
        None => None,
    }
}

/// Rebuilds a record from one stored row. Corruption is not skipped: an
/// unrecognized event-type token or an unparsable timestamp is a hard error
/// naming the offending text.
pub fn row_to_event(row: &JournalRow) -> (r: Result<Event, Error>)
    ensures
        r is Ok <==> parse_row(row@) is Some,
        parse_row(row@) matches Some(ev) ==> (r matches Ok(e) && e@ == ev),
        type_of_token(row@.event_type) is None ==> (r matches Err(Error::UnknownEventType(t))
            && t@ == row@.event_type),
        type_of_token(row@.event_type) is Some && !rfc3339_ok(row@.timestamp) ==> (r matches Err(
            Error::BadTimestamp(t),
        ) && t@ == row@.timestamp),
{
    let et = match EventType::from_str(row.event_type.as_str()) {
        Ok(t) => t,
        Err(e) => {
            return Err(e);
        },
    };
    if !rfc3339_parses(row.timestamp.as_str()) {
        return Err(Error::BadTimestamp(row.timestamp.clone()));
    }
    Ok(
        Event {
            event_id: Some(row.event_id),
            event_type: et,
            timestamp: EventTime::from_rfc3339_text(row.timestamp.clone()),
            snapshot: clone_opt(&row.snapshot),
            before_path: clone_opt(&row.before_path),
            after_path: clone_opt(&row.after_path),
        },
    )
}

/// Round trip: the column values written for a record whose timestamp is a
/// valid instant parse back to the same record, now carrying the identity the
/// journal assigned at write time.
pub proof fn lemma_record_round_trip(e: EventV, id: i64)
    requires
        rfc3339_ok(e.timestamp),
    ensures
        ({
            let v = spec_row_values(e);
            parse_row(
                JournalRowV {
                    event_id: id,
                    event_type: v.0,
                    timestamp: v.1,
                    snapshot: v.2,
                    before_path: v.3,
                    after_path: v.4,
                },
            ) == Some(EventV { event_id: Some(id), ..e })
        }),
{
    crate::event::lemma_event_type_token_round_trip(e.event_type);
}

/// Timestamp order: lexicographic by character code point, which is how the
/// fixed RFC 3339 UTC rendering orders the instants it denotes, and how the
/// stored ordering field compares.
pub open spec fn ts_le(a: Seq<char>, b: Seq<char>) -> bool
    decreases a.len(),
{
    if a.len() == 0 {
        true
    } else if b.len() == 0 {
        false
    } else if (a[0] as u32) == (b[0] as u32) {
        ts_le(a.drop_first(), b.drop_first())
    } else {
        (a[0] as u32) < (b[0] as u32)
    }
}

/// Strictly older-to-newer: ordered and not ordered the other way round.
pub open spec fn ts_lt(a: Seq<char>, b: Seq<char>) -> bool {
    ts_le(a, b) && !ts_le(b, a)
}

/// The order is total: any two texts compare one way or the other.
pub proof fn lemma_ts_le_total(a: Seq<char>, b: Seq<char>)
    ensures
        ts_le(a, b) || ts_le(b, a),
    decreases a.len(),
{
    if a.len() > 0 && b.len() > 0 && (a[0] as u32) == (b[0] as u32) {
        lemma_ts_le_total(a.drop_first(), b.drop_first());
    }
}

/// Leading characters with equal code points do not affect the order: it is
/// decided past them.
proof fn lemma_ts_le_common_prefix(a: Seq<char>, b: Seq<char>, i: int)
    requires
        0 <= i <= a.len(),
        i <= b.len(),
        forall|j: int| 0 <= j < i ==> (a[j] as u32) == (b[j] as u32),
    ensures
        ts_le(a, b) == ts_le(a.skip(i), b.skip(i)),
    decreases i,
{
    if i == 0 {
        assert(a.skip(0) =~= a);
        assert(b.skip(0) =~= b);
    } else {
        assert((a[0] as u32) == (b[0] as u32));
        lemma_ts_le_common_prefix(a.drop_first(), b.drop_first(), i - 1);
        assert(a.drop_first().skip(i - 1) =~= a.skip(i));
        assert(b.drop_first().skip(i - 1) =~= b.skip(i));
    }
}

/// Decides `ts_le` on two texts.
pub fn ts_le_exec(a: &str, b: &str) -> (r: bool)
    ensures
        r == ts_le(a@, b@),
{
    let na = a.unicode_len();
    let nb = b.unicode_len();
    let mut i: usize = 0;
    while i < na && i < nb
        invariant
            i <= na,
            i <= nb,
            na == a@.len(),
            nb == b@.len(),
            forall|j: int| 0 <= j < i ==> (a@[j] as u32) == (b@[j] as u32),
        decreases na - i,
    {
        let ca = a.get_char(i) as u32;
        let cb = b.get_char(i) as u32;
        if ca != cb {
            proof {
                lemma_ts_le_common_prefix(a@, b@, i as int);
                assert(a@.skip(i as int)[0] == a@[i as int]);
                assert(b@.skip(i as int)[0] == b@[i as int]);
                assert(a@.skip(i as int).len() > 0);
                assert(b@.skip(i as int).len() > 0);
            }
            return ca < cb;
        }
        i = i + 1;
    }
    proof {
        lemma_ts_le_common_prefix(a@, b@, i as int);
        if i == na {
            assert(a@.skip(i as int) =~= Seq::<char>::empty());
        } else {
            assert(b@.skip(i as int) =~= Seq::<char>::empty());
            assert(a@.skip(i as int).len() > 0);
        }
    }
    na <= nb
}

/// The views of a run of records.
pub open spec fn events_view(s: Seq<Event>) -> Seq<EventV> {
    s.map_values(|e: Event| e@)
}

/// Where a record ranks among already newest-first records: after every
/// record at least as new as it, before the first strictly older one, so
/// records with equal timestamps keep their arrival order.
pub open spec fn insert_desc(s: Seq<EventV>, x: EventV) -> Seq<EventV>
    decreases s.len(),
{
    if s.len() == 0 {
        seq![x]
    } else if ts_le(x.timestamp, s[0].timestamp) {
        seq![s[0]] + insert_desc(s.drop_first(), x)
    } else {
        seq![x] + s
    }
}

/// The records reordered newest first, stably.
pub open spec fn sort_desc(s: Seq<EventV>) -> Seq<EventV>
    decreases s.len(),
{
    if s.len() == 0 {
        Seq::empty()
    } else {
        insert_desc(sort_desc(s.drop_last()), s.last())
    }
}

/// Newest first: each record's timestamp is at least its successor's.
pub open spec fn sorted_desc(s: Seq<EventV>) -> bool {
    forall|i: int| 0 <= i < s.len() - 1 ==> ts_le(s[i + 1].timestamp, #[trigger] s[i].timestamp)
}

proof fn lemma_insert_desc_at(s: Seq<EventV>, x: EventV, k: int)
    requires
        0 <= k <= s.len(),
        forall|j: int| 0 <= j < k ==> ts_le(x.timestamp, (#[trigger] s[j]).timestamp),
        k < s.len() ==> !ts_le(x.timestamp, s[k].timestamp),
    ensures
        insert_desc(s, x) == s.take(k) + seq![x] + s.skip(k),
    decreases k,
{
    if s.len() == 0 {
        assert(insert_desc(s, x) =~= s.take(k) + seq![x] + s.skip(k));
    } else if k == 0 {
        assert(insert_desc(s, x) =~= s.take(0) + seq![x] + s.skip(0));
    } else {
        lemma_insert_desc_at(s.drop_first(), x, k - 1);
        assert(s.drop_first().take(k - 1) =~= s.take(k).drop_first());
        assert(s.drop_first().skip(k - 1) =~= s.skip(k));
        assert(insert_desc(s, x) =~= s.take(k) + seq![x] + s.skip(k));
    }
}

proof fn lemma_insert_desc_sorted(s: Seq<EventV>, x: EventV)
    requires
        sorted_desc(s),
    ensures
        sorted_desc(insert_desc(s, x)),
        insert_desc(s, x).len() == s.len() + 1,
    decreases s.len(),
{
    if s.len() == 0 {
    } else if ts_le(x.timestamp, s[0].timestamp) {
        assert(sorted_desc(s.drop_first()));
        lemma_insert_desc_sorted(s.drop_first(), x);
        let t = insert_desc(s.drop_first(), x);
        let r = seq![s[0]] + t;
        assert(ts_le(t[0].timestamp, s[0].timestamp)) by {
            if s.drop_first().len() == 0 {
                assert(t =~= seq![x]);
            } else if ts_le(x.timestamp, s.drop_first()[0].timestamp) {
                assert(t[0] == s.drop_first()[0]);
                assert(s.drop_first()[0] == s[1]);
            } else {
                assert(t[0] == x);
            }
        }
        assert forall|i: int| 0 <= i < r.len() - 1 implies ts_le(
            r[i + 1].timestamp,
            #[trigger] r[i].timestamp,
        ) by {
            if i > 0 {
                assert(r[i] == t[i - 1]);
                assert(r[i + 1] == t[i]);
            }
        }
    } else {
        lemma_ts_le_total(x.timestamp, s[0].timestamp);
        let r = seq![x] + s;
        assert forall|i: int| 0 <= i < r.len() - 1 implies ts_le(
            r[i + 1].timestamp,
            #[trigger] r[i].timestamp,
        ) by {
            if i > 0 {
                assert(r[i] == s[i - 1]);
                assert(r[i + 1] == s[i]);
            }
        }
    }
}

/// What the reordering promises: the result of `sort_desc` is newest first.
pub proof fn lemma_sort_desc_sorted(s: Seq<EventV>)
    ensures
        sorted_desc(sort_desc(s)),
        sort_desc(s).len() == s.len(),
    decreases s.len(),
{
    if s.len() > 0 {
        lemma_sort_desc_sorted(s.drop_last());
        lemma_insert_desc_sorted(sort_desc(s.drop_last()), s.last());
    }
}

/// Backward reads reverse arrival order: records whose timestamps strictly
/// increase in the order they were appended come back exactly reversed,
/// newest first.
pub proof fn lemma_sort_desc_reverses(s: Seq<EventV>)
    requires
        forall|i: int, j: int|
            0 <= i < j < s.len() ==> ts_lt((#[trigger] s[i]).timestamp, (#[trigger] s[j]).timestamp),
    ensures
        sort_desc(s) == s.reverse(),
    decreases s.len(),
{
    if s.len() == 0 {
        assert(sort_desc(s) =~= s.reverse());
    } else {
        let s1 = s.drop_last();
        let x = s.last();
        lemma_sort_desc_reverses(s1);
        if s1.len() == 0 {
            assert(sort_desc(s) =~= seq![x]);
            assert(s.reverse() =~= seq![x]);
        } else {
            let h = s1.reverse()[0];
            assert(h == s1[s1.len() - 1]);
            assert(h == s[s.len() - 2]);
            assert(ts_lt(h.timestamp, x.timestamp));
            assert(insert_desc(s1.reverse(), x) == seq![x] + s1.reverse());
            assert(seq![x] + s1.reverse() =~= s.reverse());
        }
    }
}

proof fn lemma_insert_desc_all(s: Seq<EventV>, x: EventV, p: spec_fn(EventV) -> bool)
    requires
        forall|i: int| 0 <= i < s.len() ==> p(#[trigger] s[i]),
        p(x),
    ensures
        forall|i: int| 0 <= i < insert_desc(s, x).len() ==> p(#[trigger] insert_desc(s, x)[i]),
    decreases s.len(),
{
    if s.len() == 0 {
    } else if ts_le(x.timestamp, s[0].timestamp) {
        assert(forall|i: int|
            0 <= i < s.drop_first().len() ==> p(#[trigger] s.drop_first()[i]));
        lemma_insert_desc_all(s.drop_first(), x, p);
        let r = insert_desc(s, x);
        assert forall|i: int| 0 <= i < r.len() implies p(#[trigger] r[i]) by {
            if i > 0 {
                assert(r[i] == insert_desc(s.drop_first(), x)[i - 1]);
            }
        }
    } else {
        let r = insert_desc(s, x);
        assert forall|i: int| 0 <= i < r.len() implies p(#[trigger] r[i]) by {
            if i > 0 {
                assert(r[i] == s[i - 1]);
            }
        }
    }
}

/// A property every record has survives the reordering.
pub proof fn lemma_sort_desc_all(s: Seq<EventV>, p: spec_fn(EventV) -> bool)
    requires
        forall|i: int| 0 <= i < s.len() ==> p(#[trigger] s[i]),
    ensures
        forall|i: int| 0 <= i < sort_desc(s).len() ==> p(#[trigger] sort_desc(s)[i]),
    decreases s.len(),
{
    if s.len() > 0 {
        assert(forall|i: int| 0 <= i < s.drop_last().len() ==> p(#[trigger] s.drop_last()[i]));
        lemma_sort_desc_all(s.drop_last(), p);
        lemma_insert_desc_all(sort_desc(s.drop_last()), s.last(), p);
    }
}

/// The records the rows denote, in storage order.
pub open spec fn parsed_views(rows: Seq<JournalRow>) -> Seq<EventV> {
    rows.map_values(|row: JournalRow| parse_row(row@)->0)
}

/// Replays stored rows into records ordered newest first.
///
/// Implementations of the storage engine may hand rows back in any order;
/// the reverse-chronological promise is made here, by reordering stably on
/// the stored timestamp text. A row that does not parse fails the whole
/// traversal with that row's error.
pub fn read_backwards(rows: &Vec<JournalRow>) -> (r: Result<Vec<Event>, Error>)
    ensures
        r matches Ok(v) ==> {
            &&& forall|i: int| 0 <= i < rows@.len() ==> parse_row((#[trigger] rows@[i])@) is Some
            &&& events_view(v@) == sort_desc(parsed_views(rows@))
        },
        r is Err ==> exists|i: int| 0 <= i < rows@.len() && parse_row((#[trigger] rows@[i])@) is None,
{
    let mut out: Vec<Event> = Vec::new();
    let mut i: usize = 0;
    while i < rows.len()
        invariant
            i <= rows.len(),
            forall|j: int| 0 <= j < i ==> parse_row((#[trigger] rows@[j])@) is Some,
            events_view(out@) == sort_desc(parsed_views(rows@).take(i as int)),
            out@.len() == i,
        decreases rows.len() - i,
    {
        let e = match row_to_event(&rows[i]) {
            Ok(e) => e,
            Err(er) => {
                return Err(er);
            },
        };
        let ghost sorted_before = events_view(out@);
        let mut k: usize = 0;
        while k < out.len() && ts_le_exec(
            e.timestamp.utc_text.as_str(),
            out[k].timestamp.utc_text.as_str(),
        )
            invariant
                k <= out.len(),
                sorted_before == events_view(out@),
                out@.len() == sorted_before.len(),
                forall|j: int|
                    0 <= j < k ==> ts_le(e@.timestamp, (#[trigger] sorted_before[j]).timestamp),
            decreases out.len() - k,
        {
            proof {
                assert(sorted_before[k as int] == out@[k as int]@);
            }
            k = k + 1;
        }
        proof {
            if k < out.len() {
                assert(sorted_before[k as int] == out@[k as int]@);
            }
            lemma_insert_desc_at(sorted_before, e@, k as int);
        }
        out.insert(k, e);
        proof {
            assert(events_view(out@) =~= sorted_before.take(k as int) + seq![e@]
                + sorted_before.skip(k as int));
            let pv = parsed_views(rows@);
            assert(pv[i as int] == e@);
            assert(pv.take(i as int + 1).drop_last() =~= pv.take(i as int));
            assert(pv.take(i as int + 1).last() == e@);
            assert(sort_desc(pv.take(i as int + 1)) == insert_desc(
                sort_desc(pv.take(i as int)),
                e@,
            ));
        }
        i = i + 1;
    }
    proof {
        assert(parsed_views(rows@).take(rows@.len() as int) =~= parsed_views(rows@));
    }
    Ok(out)
}

} // verus!
