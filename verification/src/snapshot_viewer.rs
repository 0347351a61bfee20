use vstd::prelude::*;
use vstd::string::StrSliceExecFns;
use vstd::string::StringExecFns;
use crate::errors::Error;
use crate::event::{opt_text, token_of, Event, EventV};
use crate::journal::{parsed_views, read_backwards, sort_desc, JournalRow};

verus! {

#[verifier::external_type_specification]
#[verifier::external_body]
pub struct ExPattern(glob::Pattern);

/// What a compiled glob holds: its source pattern text.
pub uninterp spec fn pattern_src(p: glob::Pattern) -> Seq<char>;

/// The verdict of shell-glob matching with path-segment semantics: whether
/// the pattern matches the path text. A function of the two texts alone.
pub uninterp spec fn glob_matches(pattern: Seq<char>, path: Seq<char>) -> bool;

/// Relies on glob's `Pattern::matches_path`: whether the compiled pattern
/// matches the path, deterministic in the pattern's source text and the path.
#[verifier::external_body]
fn pattern_matches(p: &glob::Pattern, path: &String) -> (r: bool)
    ensures
        r == glob_matches(pattern_src(*p), path@),
{
    p.matches_path(std::path::Path::new(path.as_str()))
}

/// The text after the last separator: the base name a listing shows.
pub open spec fn base_name_chars(s: Seq<char>) -> Seq<char>
    decreases s.len(),
{
    if s.len() == 0 {
        s
    } else if s[0] == '/' {
        base_name_chars(s.drop_first())
    } else if s.drop_first().contains('/') {
        base_name_chars(s.drop_first())
    } else {
        s
    }
}

proof fn lemma_base_name_noslash(s: Seq<char>)
    requires
        !s.contains('/'),
    ensures
        base_name_chars(s) == s,
{
    if s.len() > 0 {
        assert(s[0] != '/');
        assert(!s.drop_first().contains('/')) by {
            if s.drop_first().contains('/') {
                let j = choose|j: int|
                    0 <= j < s.drop_first().len() && s.drop_first()[j] == '/';
                assert(s[j + 1] == '/');
            }
        }
    }
}

proof fn lemma_base_name_at(s: Seq<char>, k: int)
    requires
        0 <= k < s.len(),
        s[k] == '/',
        forall|j: int| k < j < s.len() ==> s[j] != '/',
    ensures
        base_name_chars(s) == s.skip(k + 1),
    decreases s.len(),
{
    if k == 0 {
        let t = s.drop_first();
        assert(!t.contains('/')) by {
            if t.contains('/') {
                let j = choose|j: int| 0 <= j < t.len() && t[j] == '/';
                assert(s[j + 1] == '/');
            }
        }
        lemma_base_name_noslash(t);
        assert(t =~= s.skip(1));
    } else {
        assert(s.drop_first()[k - 1] == '/');
        assert(s.drop_first().contains('/'));
        lemma_base_name_at(s.drop_first(), k - 1);
        assert(s.drop_first().skip(k) =~= s.skip(k + 1));
    }
}

/// The base name of a stored path text.
pub fn base_name(s: &String) -> (r: String)
    ensures
        r@ == base_name_chars(s@),
{
    let st = s.as_str();
    let n = st.unicode_len();
    let mut i: usize = n;
    while i > 0 && st.get_char(i - 1) != '/'
        invariant
            0 <= i <= n,
            n == s@.len(),
            st@ == s@,
            forall|j: int| i <= j < n ==> s@[j] != '/',
        decreases i,
    {
        i = i - 1;
    }
    if i == 0 {
        proof {
            assert(!s@.contains('/')) by {
                if s@.contains('/') {
                    let j = choose|j: int| 0 <= j < s@.len() && s@[j] == '/';
                }
            }
            lemma_base_name_noslash(s@);
        }
        s.clone()
    } else {
        proof {
            lemma_base_name_at(s@, i as int - 1);
        }
        let r = st.substring_char(i, n).to_owned();
        proof {
            assert(s@.subrange(i as int, n as int) =~= s@.skip(i as int));
        }
        r
    }
}

/// The name a record shows under a query: the destination path's base name
/// when the destination matches the pattern, else the source path's base
/// name when the source matches; nothing otherwise.
pub open spec fn spec_match_name(pat: Seq<char>, e: EventV) -> Option<Seq<char>> {
    match e.after_path {
        Some(p) => if glob_matches(pat, p) {
            Some(base_name_chars(p))
        } else {
            spec_match_before(pat, e)
        },
        None => spec_match_before(pat, e),
    }
}

pub open spec fn spec_match_before(pat: Seq<char>, e: EventV) -> Option<Seq<char>> {
    match e.before_path {
        Some(p) => if glob_matches(pat, p) {
            Some(base_name_chars(p))
        } else {
            None
        },
        None => None,
    }
}

/// Picks the path a record is shown under, preferring the rename destination.
pub fn match_name(glob: &glob::Pattern, event: &Event) -> (r: Option<String>)
    ensures
        match r {
            Some(s) => spec_match_name(pattern_src(*glob), event@) == Some(s@),
            None => spec_match_name(pattern_src(*glob), event@) is None,
        },
{
    match &event.after_path {
        Some(p) => {
            if pattern_matches(glob, p) {
                return Some(base_name(p));
            }
        },
        None => {},
    }
    match &event.before_path {
        Some(p) => {
            if pattern_matches(glob, p) {
                return Some(base_name(p));
            }
        },
        None => {},
    }
    None
}

/// A text padded with spaces to at least the given width.
pub open spec fn pad_chars(s: Seq<char>, w: int) -> Seq<char> {
    s + Seq::new((if s.len() >= w { 0 } else { w - s.len() }) as nat, |i: int| ' ')
}

/// Pads a column value to its width.
fn pad_to(s: String, w: usize) -> (r: String)
    ensures
        r@ == pad_chars(s@, w as int),
{
    let mut r = s;
    let mut have = r.as_str().unicode_len();
    if have >= w {
        proof {
            assert(r@ =~= pad_chars(r@, w as int));
        }
        return r;
    }
    let ghost base = r@;
    while have < w
        invariant
            base.len() <= have <= w,
            have == r@.len(),
            r@ == base + Seq::new((have - base.len()) as nat, |i: int| ' '),
        decreases w - have,
    {
        r.append(" ");
        proof {
            reveal_strlit(" ");
            assert((" ")@.len() == 1);
            assert((" ")@ =~= seq![' ']);
            assert(r@ =~= base + Seq::new((have + 1 - base.len()) as nat, |i: int| ' '));
        }
        have = have + 1;
    }
    proof {
        assert(r@ =~= pad_chars(base, w as int));
    }
    r
}

/// The decimal digit characters of a non-negative number.
pub open spec fn dec_digit(d: int) -> char {
    if d == 0 {
        '0'
    } else if d == 1 {
        '1'
    } else if d == 2 {
        '2'
    } else if d == 3 {
        '3'
    } else if d == 4 {
        '4'
    } else if d == 5 {
        '5'
    } else if d == 6 {
        '6'
    } else if d == 7 {
        '7'
    } else if d == 8 {
        '8'
    } else {
        '9'
    }
}

pub open spec fn dec_chars(n: int) -> Seq<char>
    decreases n,
{
    if n < 10 {
        seq![dec_digit(n)]
    } else {
        dec_chars(n / 10).push(dec_digit(n % 10))
    }
}

/// The decimal rendering of an integer, sign included.
pub open spec fn int_chars(n: int) -> Seq<char> {
    if n < 0 {
        seq!['-'] + dec_chars(-n)
    } else {
        dec_chars(n)
    }
}

fn digit_str(d: u64) -> (r: &'static str)
    requires
        d < 10,
    ensures
        r@ == seq![dec_digit(d as int)],
{
    let r: &'static str = if d == 0 {
        "0"
    } else if d == 1 {
        "1"
    } else if d == 2 {
        "2"
    } else if d == 3 {
        "3"
    } else if d == 4 {
        "4"
    } else if d == 5 {
        "5"
    } else if d == 6 {
        "6"
    } else if d == 7 {
        "7"
    } else if d == 8 {
        "8"
    } else {
        "9"
    };
    proof {
        reveal_strlit("0");
        reveal_strlit("1");
        reveal_strlit("2");
        reveal_strlit("3");
        reveal_strlit("4");
        reveal_strlit("5");
        reveal_strlit("6");
        reveal_strlit("7");
        reveal_strlit("8");
        reveal_strlit("9");
        assert(("0")@.len() == 1 && ("1")@.len() == 1 && ("2")@.len() == 1 && ("3")@.len() == 1
            && ("4")@.len() == 1 && ("5")@.len() == 1 && ("6")@.len() == 1 && ("7")@.len() == 1
            && ("8")@.len() == 1 && ("9")@.len() == 1);
        assert(r@ =~= seq![dec_digit(d as int)]);
    }
    r
}

/// The later-pushed, more significant digits first.
spec fn digits_chars(ds: Seq<u64>) -> Seq<char>
    decreases ds.len(),
{
    if ds.len() == 0 {
        Seq::empty()
    } else {
        seq![dec_digit(ds.last() as int)] + digits_chars(ds.drop_last())
    }
}

fn u64_to_string(n: u64) -> (r: String)
    ensures
        r@ == dec_chars(n as int),
{
    let mut digits: Vec<u64> = Vec::new();
    let mut cur: u64 = n;
    while cur >= 10
        invariant
            dec_chars(n as int) == dec_chars(cur as int) + digits_chars(digits@),
            forall|j: int| 0 <= j < digits@.len() ==> #[trigger] digits@[j] < 10,
        decreases cur,
    {
        let d: u64 = cur % 10;
        proof {
            assert(digits@.push(d).drop_last() =~= digits@);
            assert(digits_chars(digits@.push(d)) =~= seq![dec_digit(d as int)] + digits_chars(
                digits@,
            ));
            assert(dec_chars(cur as int) == dec_chars(cur as int / 10).push(
                dec_digit(cur as int % 10),
            ));
            assert(dec_chars((cur / 10) as int) + digits_chars(digits@.push(d)) =~= dec_chars(
                cur as int,
            ) + digits_chars(digits@));
        }
        digits.push(d);
        cur = cur / 10;
    }
    let mut out = digit_str(cur).to_owned();
    proof {
        assert(out@ =~= dec_chars(cur as int));
        assert(digits@.skip(digits@.len() as int) =~= Seq::<u64>::empty());
    }
    let mut i: usize = digits.len();
    while i > 0
        invariant
            0 <= i <= digits@.len(),
            forall|j: int| 0 <= j < digits@.len() ==> #[trigger] digits@[j] < 10,
            dec_chars(n as int) == dec_chars(cur as int) + digits_chars(digits@),
            out@ == dec_chars(cur as int) + digits_chars(digits@).subrange(
                0,
                digits@.len() - i as int,
            ),
        decreases i,
    {
        out.append(digit_str(digits[i - 1]));
        proof {
            let ds = digits@;
            let k = i as int;
            lemma_digits_chars_len(ds);
            lemma_digits_chars_index(ds, ds.len() - k);
            assert(digits_chars(ds)[ds.len() - k] == dec_digit(ds[k - 1] as int));
            assert(digits_chars(ds).subrange(0, ds.len() - k + 1) =~= digits_chars(ds).subrange(
                0,
                ds.len() - k,
            ) + seq![dec_digit(ds[k - 1] as int)]);
            assert(out@ =~= dec_chars(cur as int) + digits_chars(ds).subrange(
                0,
                ds.len() - (k - 1),
            ));
        }
        i = i - 1;
    }
    proof {
        lemma_digits_chars_len(digits@);
        assert(digits_chars(digits@).subrange(0, digits@.len() as int) =~= digits_chars(digits@));
    }
    out
}

proof fn lemma_digits_chars_len(s: Seq<u64>)
    ensures
        digits_chars(s).len() == s.len(),
    decreases s.len(),
{
    if s.len() > 0 {
        lemma_digits_chars_len(s.drop_last());
    }
}

proof fn lemma_digits_chars_index(s: Seq<u64>, j: int)
    requires
        0 <= j < s.len(),
    ensures
        digits_chars(s).len() == s.len(),
        digits_chars(s)[j] == dec_digit(s[s.len() - 1 - j] as int),
    decreases s.len(),
{
    lemma_digits_chars_len(s);
    if j == 0 {
    } else {
        lemma_digits_chars_len(s.drop_last());
        lemma_digits_chars_index(s.drop_last(), j - 1);
    }
}

fn i64_to_string(n: i64) -> (r: String)
    ensures
        r@ == int_chars(n as int),
{
    if n >= 0 {
        u64_to_string(n as u64)
    } else {
        let big: i128 = -(n as i128);
        proof {
            assert(0 <= big <= u64::MAX as i128);
        }
        let m: u64 = big as u64;
        let mut out = "-".to_owned();
        out.append(u64_to_string(m).as_str());
        proof {
            reveal_strlit("-");
            assert(("-")@.len() == 1);
            assert(("-")@ =~= seq!['-']);
            assert(out@ =~= int_chars(n as int));
        }
        out
    }
}

/// The fixed column header of a history listing.
pub open spec fn header_chars() -> Seq<char> {
    pad_chars(("Id")@, 5) + pad_chars(("File Name")@, 30) + pad_chars(("Timestamp")@, 30)
        + pad_chars(("Update Type")@, 13) + ("Snapshot")@
}

/// The listing's column header.
pub fn header_line() -> (r: String)
    ensures
        r@ == header_chars(),
{
    let mut r = pad_to("Id".to_owned(), 5);
    r.append(pad_to("File Name".to_owned(), 30).as_str());
    r.append(pad_to("Timestamp".to_owned(), 30).as_str());
    r.append(pad_to("Update Type".to_owned(), 13).as_str());
    r.append("Snapshot");
    proof {
        assert(r@ =~= header_chars());
    }
    r
}

/// One rendered listing line: identity, matched name, timestamp, event type
/// and the snapshot's stored path, in fixed columns.
pub open spec fn spec_render_row(e: EventV, name: Seq<char>) -> Seq<char> {
    pad_chars(int_chars(e.event_id->0 as int), 5) + pad_chars(name, 30) + pad_chars(
        e.timestamp,
        30,
    ) + pad_chars(token_of(e.event_type), 13) + (match e.snapshot {
        Some(s) => s,
        None => Seq::empty(),
    })
}

/// Renders one record under its matched name.
pub fn render_row(event: &Event, name: &String) -> (r: String)
    requires
        event@.event_id is Some,
    ensures
        r@ == spec_render_row(event@, name@),
{
    let id: i64 = match event.event_id {
        Some(i) => i,
        None => 0,
    };
    let mut r = pad_to(i64_to_string(id), 5);
    r.append(pad_to(name.clone(), 30).as_str());
    r.append(pad_to(event.timestamp.rfc3339(), 30).as_str());
    r.append(pad_to(event.event_type.token(), 13).as_str());
    match &event.snapshot {
        Some(s) => {
            r.append(s.as_str());
        },
        None => {},
    }
    proof {
        assert(r@ =~= spec_render_row(event@, name@));
    }
    r
}

/// The lines shown for a run of records, in their order: one line per record
/// the pattern matches.
pub open spec fn spec_listing(pat: Seq<char>, evs: Seq<EventV>) -> Seq<Seq<char>>
    decreases evs.len(),
{
    if evs.len() == 0 {
        Seq::empty()
    } else {
        let rest = spec_listing(pat, evs.drop_first());
        match spec_match_name(pat, evs[0]) {
            Some(nm) => seq![spec_render_row(evs[0], nm)] + rest,
            None => rest,
        }
    }
}

proof fn lemma_listing_push(pat: Seq<char>, s: Seq<EventV>, x: EventV)
    ensures
        spec_listing(pat, s.push(x)) == spec_listing(pat, s) + (match spec_match_name(pat, x) {
            Some(nm) => seq![spec_render_row(x, nm)],
            None => Seq::<Seq<char>>::empty(),
        }),
    decreases s.len(),
{
    let tail = (match spec_match_name(pat, x) {
        Some(nm) => seq![spec_render_row(x, nm)],
        None => Seq::<Seq<char>>::empty(),
    });
    if s.len() == 0 {
        assert(s.push(x).drop_first() =~= s);
        assert(spec_listing(pat, s.push(x)) =~= spec_listing(pat, s) + tail);
    } else {
        assert(s.push(x).drop_first() =~= s.drop_first().push(x));
        lemma_listing_push(pat, s.drop_first(), x);
        assert(spec_listing(pat, s.push(x)) =~= spec_listing(pat, s) + tail);
    }
}

/// The views of the listing's lines.
pub open spec fn lines_of(v: Seq<String>) -> Seq<Seq<char>> {
    v.map_values(|s: String| s@)
}

/// The rendered history for records matching the pattern: a header line,
/// then one line per matching record, newest first.
///
/// The rows come from the journal's storage in any order; every promise of
/// `read_backwards` — order, round-tripped fields, corruption refused —
/// carries over to what is shown.
pub fn list_snapshots(rows: &Vec<JournalRow>, glob: &glob::Pattern) -> (r: Result<
    Vec<String>,
    Error,
>)
    ensures
        r matches Ok(lines) ==> {
            &&& forall|i: int|
                0 <= i < rows@.len() ==> crate::journal::parse_row((#[trigger] rows@[i])@) is Some
            &&& lines_of(lines@) == seq![header_chars()] + spec_listing(
                pattern_src(*glob),
                sort_desc(parsed_views(rows@)),
            )
        },
        r is Err ==> exists|i: int|
            0 <= i < rows@.len() && crate::journal::parse_row((#[trigger] rows@[i])@) is None,
{
    let evs = match read_backwards(rows) {
        Ok(v) => v,
        Err(e) => {
            return Err(e);
        },
    };
    let ghost evs_v = crate::journal::events_view(evs@);
    let ghost pat = pattern_src(*glob);
    proof {
        let pv = parsed_views(rows@);
        assert forall|i: int| 0 <= i < pv.len() implies (#[trigger] pv[i]).event_id is Some by {
            assert(pv[i] == crate::journal::parse_row(rows@[i]@)->0);
        }
        crate::journal::lemma_sort_desc_all(pv, |e: EventV| e.event_id is Some);
    }
    let mut out: Vec<String> = Vec::new();
    out.push(header_line());
    proof {
        assert(lines_of(out@) =~= seq![header_chars()] + spec_listing(pat, evs_v.take(0)));
    }
    let mut i: usize = 0;
    while i < evs.len()
        invariant
            i <= evs.len(),
            evs_v == crate::journal::events_view(evs@),
            evs_v.len() == evs@.len(),
            pat == pattern_src(*glob),
            forall|j: int| 0 <= j < evs_v.len() ==> (#[trigger] evs_v[j]).event_id is Some,
            lines_of(out@) == seq![header_chars()] + spec_listing(pat, evs_v.take(i as int)),
        decreases evs.len() - i,
    {
        proof {
            assert(evs_v[i as int] == evs@[i as int]@);
        }
        proof {
            lemma_listing_push(pat, evs_v.take(i as int), evs_v[i as int]);
            assert(evs_v.take(i as int + 1) =~= evs_v.take(i as int).push(evs_v[i as int]));
        }
        match match_name(glob, &evs[i]) {
            Some(nm) => {
                let line = render_row(&evs[i], &nm);
                let ghost prev = out@;
                out.push(line);
                proof {
                    assert(spec_match_name(pat, evs_v[i as int]) == Some(nm@));
                    assert(line@ == spec_render_row(evs_v[i as int], nm@));
                    assert(lines_of(out@) =~= lines_of(prev).push(line@));
                    assert(spec_listing(pat, evs_v.take(i as int + 1)) == spec_listing(
                        pat,
                        evs_v.take(i as int),
                    ) + seq![spec_render_row(evs_v[i as int], nm@)]);
                    assert(lines_of(out@) =~= seq![header_chars()] + spec_listing(
                        pat,
                        evs_v.take(i as int + 1),
                    ));
                }
            },
            None => {
                proof {
                    assert(lines_of(out@) =~= seq![header_chars()] + spec_listing(
                        pat,
                        evs_v.take(i as int + 1),
                    ));
                }
            },
        }
        i = i + 1;
    }
    proof {
        assert(evs_v.take(evs@.len() as int) =~= evs_v);
    }
    Ok(out)
}

} // verus!
