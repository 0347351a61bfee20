use vstd::prelude::*;
use vstd::string::StrSliceExecFns;
use vstd::string::StringExecFns;

verus! {

/// Mathematical shape of a filesystem path: whether it is absolute, and its
/// components in order, each a plain name free of separators.
pub ghost struct FsPathV {
    pub absolute: bool,
    pub parts: Seq<Seq<char>>,
}

/// A filesystem path, held as its components.
///
/// Raw notifications arrive with absolute paths; the classifier turns them
/// into paths relative to the watched root. Both forms share this one type,
/// told apart by `absolute`.
#[derive(Debug)]
pub struct FsPath {
    pub absolute: bool,
    pub parts: Vec<String>,
}

impl View for FsPath {
    type V = FsPathV;

    open spec fn view(&self) -> FsPathV {
        FsPathV { absolute: self.absolute, parts: self.parts@.map_values(|p: String| p@) }
    }
}

/// A single path component: non-empty, no separator, and not one of the
/// relative navigation names.
pub open spec fn wf_part(p: Seq<char>) -> bool {
    &&& p.len() > 0
    &&& !p.contains('/')
    &&& p != seq!['.']
    &&& p != seq!['.', '.']
}

impl FsPathV {
    /// Every component is a plain name. Canonical paths have this shape.
    pub open spec fn wf(self) -> bool {
        forall|i: int| 0 <= i < self.parts.len() ==> wf_part(#[trigger] self.parts[i])
    }

    /// Path-prefix order: same kind of path, and the components lead with the
    /// prefix's components.
    pub open spec fn starts_with(self, prefix: FsPathV) -> bool {
        self.absolute == prefix.absolute && prefix.parts.is_prefix_of(self.parts)
    }
}

/// The components joined with `/` separators, without a leading slash.
pub open spec fn join_parts(parts: Seq<Seq<char>>) -> Seq<char>
    decreases parts.len(),
{
    if parts.len() == 0 {
        Seq::empty()
    } else if parts.len() == 1 {
        parts[0]
    } else {
        join_parts(parts.drop_last()) + seq!['/'] + parts.last()
    }
}

/// The textual form of a path: a leading slash when absolute, then the
/// components joined with `/`.
pub open spec fn path_chars(p: FsPathV) -> Seq<char> {
    if p.absolute {
        seq!['/'] + join_parts(p.parts)
    } else {
        join_parts(p.parts)
    }
}

/// Dropping leading components of a well-formed path leaves a well-formed
/// relative path.
pub proof fn lemma_wf_skip(p: FsPathV, n: int)
    requires
        p.wf(),
        0 <= n <= p.parts.len(),
    ensures
        (FsPathV { absolute: false, parts: p.parts.skip(n) }).wf(),
{
    assert forall|j: int| 0 <= j < p.parts.skip(n).len() implies wf_part(
        #[trigger] p.parts.skip(n)[j],
    ) by {
        assert(p.parts.skip(n)[j] == p.parts[j + n]);
        assert(wf_part(p.parts[j + n]));
    }
}

/// The view of the one-character separator literal.
proof fn lemma_slash_lit()
    ensures
        ("/")@ =~= seq!['/'],
{
    reveal_strlit("/");
    assert(("/")@.len() == 1);
}

/// String equality, stated over the character sequences.
pub fn string_eq(a: &String, b: &String) -> (r: bool)
    ensures
        r == (a@ == b@),
{
    a.eq(b)
}

impl FsPath {
    /// A copy with the same shape.
    pub fn duplicate(&self) -> (r: FsPath)
        ensures
            r@ == self@,
    {
        let mut parts: Vec<String> = Vec::new();
        let mut i: usize = 0;
        while i < self.parts.len()
            invariant
                i <= self.parts.len(),
                parts@.len() == i as int,
                forall|j: int| 0 <= j < i as int ==> parts@[j]@ == self@.parts[j],
            decreases self.parts.len() - i,
        {
            parts.push(self.parts[i].clone());
            i = i + 1;
        }
        let r = FsPath { absolute: self.absolute, parts };
        proof {
            assert(r@.parts =~= self@.parts);
        }
        r
    }

    /// Whether this path leads with `prefix`, component for component.
    pub fn starts_with(&self, prefix: &FsPath) -> (r: bool)
        ensures
            r == self@.starts_with(prefix@),
    {
        if self.absolute != prefix.absolute {
            return false;
        }
        if prefix.parts.len() > self.parts.len() {
            return false;
        }
        let mut i: usize = 0;
        while i < prefix.parts.len()
            invariant
                i <= prefix.parts.len() <= self.parts.len(),
                forall|j: int| 0 <= j < i as int ==> self@.parts[j] == prefix@.parts[j],
            decreases prefix.parts.len() - i,
        {
            if !string_eq(&self.parts[i], &prefix.parts[i]) {
                proof {
                    if prefix@.parts.is_prefix_of(self@.parts) {
                        assert(prefix@.parts[i as int]
                            == self@.parts.subrange(0, prefix@.parts.len() as int)[i as int]);
                    }
                }
                return false;
            }
            i = i + 1;
        }
        proof {
            assert(prefix@.parts =~= self@.parts.subrange(0, prefix@.parts.len() as int));
        }
        true
    }

    /// The textual form of the path.
    pub fn to_path_string(&self) -> (r: String)
        ensures
            r@ == path_chars(self@),
    {
        proof {
            lemma_slash_lit();
        }
        let mut out = String::new();
        if self.absolute {
            out.append("/");
        }
        let ghost lead: Seq<char> = if self.absolute { seq!['/'] } else { Seq::empty() };
        assert(out@ =~= lead + join_parts(self@.parts.take(0)));
        let mut i: usize = 0;
        while i < self.parts.len()
            invariant
                i <= self.parts.len(),
                out@ == lead + join_parts(self@.parts.take(i as int)),
                lead == (if self.absolute { seq!['/'] } else { Seq::<char>::empty() }),
            decreases self.parts.len() - i,
        {
            if i > 0 {
                out.append("/");
            }
            out.append(self.parts[i].as_str());
            proof {
                reveal_strlit("/");
                assert(("/")@.len() == 1);
                assert(("/")@ =~= seq!['/']);
                let parts = self@.parts;
                let t = parts.take(i as int + 1);
                assert(t.drop_last() =~= parts.take(i as int));
                assert(t.last() == parts[i as int]);
                if i == 0 {
                    assert(join_parts(t) == parts[0]);
                } else {
                    assert(join_parts(t) == join_parts(parts.take(i as int)) + seq!['/'] + parts[i as int]);
                }
                assert(out@ =~= lead + join_parts(t));
            }
            i = i + 1;
        }
        proof {
            assert(self@.parts.take(self.parts.len() as int) =~= self@.parts);
        }
        out
    }

    /// The final component, when there is one.
    pub fn file_name(&self) -> (r: Option<&String>)
        ensures
            match r {
                Some(s) => self@.parts.len() > 0 && s@ == self@.parts.last(),
                None => self@.parts.len() == 0,
            },
    {
        if self.parts.len() == 0 {
            None
        } else {
            Some(&self.parts[self.parts.len() - 1])
        }
    }
}

/// Whether a component begins with a dot.
pub fn starts_with_dot(s: &String) -> (r: bool)
    ensures
        r == (s@.len() > 0 && s@[0] == '.'),
{
    let st = s.as_str();
    if st.unicode_len() == 0 {
        false
    } else {
        st.get_char(0) == '.'
    }
}

} // verus!
