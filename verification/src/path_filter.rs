use vstd::prelude::*;
use vstd::string::StrSliceExecFns;
use crate::fs_path::{join_parts, path_chars, string_eq, FsPath, FsPathV};

verus! {

#[verifier::external_type_specification]
#[verifier::external_body]
pub struct ExGitignoreBuilder(ignore::gitignore::GitignoreBuilder);

#[verifier::external_type_specification]
#[verifier::external_body]
pub struct ExGitignore(ignore::gitignore::Gitignore);

/// What a pattern builder holds: the root it was made with, and the pattern
/// lines offered to it, in order.
pub uninterp spec fn builder_model(b: ignore::gitignore::GitignoreBuilder) -> (
    Seq<char>,
    Seq<Seq<char>>,
);

/// What a compiled matcher holds: the root and pattern lines it was built from.
pub uninterp spec fn gitignore_model(g: ignore::gitignore::Gitignore) -> (
    Seq<char>,
    Seq<Seq<char>>,
);

/// The verdict of gitignore-style matching: whether a path (or any of its
/// parent directories) is ignored under the given root by the given pattern
/// lines taken in order, later lines overriding earlier ones. A function of
/// its arguments alone.
pub uninterp spec fn gitignore_ignores(
    root: Seq<char>,
    lines: Seq<Seq<char>>,
    path: Seq<char>,
    is_dir: bool,
) -> bool;

/// Whether a matcher compiles from the given root and pattern lines: a
/// function of its arguments alone, since compilation reads nothing else.
pub uninterp spec fn gitignore_builds(root: Seq<char>, lines: Seq<Seq<char>>) -> bool;

/// Relies on ignore's `GitignoreBuilder::new`: a fresh builder rooted at the
/// given directory, holding no pattern lines yet.
#[verifier::external_body]
fn gitignore_builder_new(root: &String) -> (b: ignore::gitignore::GitignoreBuilder)
    ensures
        builder_model(b) == (root@, Seq::<Seq<char>>::empty()),
{
    ignore::gitignore::GitignoreBuilder::new(root.as_str())
}

/// Relies on ignore's `GitignoreBuilder::add_line`: offers one pattern line
/// to the builder. A line the crate rejects contributes nothing to matching,
/// so recording every offered line keeps the model faithful; the crate's
/// error is discarded, as an unreadable pattern counts as absent.
#[verifier::external_body]
fn gitignore_builder_add_line(b: &mut ignore::gitignore::GitignoreBuilder, line: &String)
    ensures
        builder_model(*final(b)).0 == builder_model(*old(b)).0,
        builder_model(*final(b)).1 == builder_model(*old(b)).1.push(line@),
{
    let _ = b.add_line(None, line.as_str());
}

/// Relies on ignore's `GitignoreBuilder::build`: compiles the offered lines
/// into a matcher over the same root and lines, and succeeds or fails as a
/// function of that root and those lines alone.
#[verifier::external_body]
fn gitignore_builder_build(b: &ignore::gitignore::GitignoreBuilder) -> (r: Option<
    ignore::gitignore::Gitignore,
>)
    ensures
        r matches Some(g) ==> gitignore_model(g) == builder_model(*b),
        r is Some <==> gitignore_builds(builder_model(*b).0, builder_model(*b).1),
{
    b.build().ok()
}

/// Relies on ignore's `Gitignore::matched_path_or_any_parents`: whether the
/// path or one of its parent directories is ignored; deterministic in the
/// matcher's root and lines, the path, and whether it is a directory. The
/// method panics on a path that still has a root after prefix-stripping, so
/// a rooted path is excluded here.
#[verifier::external_body]
fn gitignore_matched(g: &ignore::gitignore::Gitignore, path: &String, is_dir: bool) -> (r: bool)
    requires
        path@.len() == 0 || path@[0] != '/',
    ensures
        r == gitignore_ignores(gitignore_model(*g).0, gitignore_model(*g).1, path@, is_dir),
{
    match g.matched_path_or_any_parents(std::path::Path::new(path.as_str()), is_dir) {
        ignore::Match::Ignore(_) => true,
        _ => false,
    }
}

/// What one directory along the target's relative path contributes to the
/// ignore decision: whether that prefix of the path is itself a regular file
/// (which ends the walk), and the lines of its ignore file, if it has one.
#[derive(Debug)]
pub struct PrefixIgnore {
    pub is_file: bool,
    pub gitignore: Option<Vec<String>>,
}

/// Mathematical shape of `PrefixIgnore`; a missing ignore file and an empty
/// one contribute the same, so both collapse to an empty line sequence.
pub ghost struct PrefixIgnoreV {
    pub is_file: bool,
    pub gitignore: Seq<Seq<char>>,
}

pub open spec fn lines_view(v: Seq<String>) -> Seq<Seq<char>> {
    v.map_values(|s: String| s@)
}

pub open spec fn opt_lines_view(o: Option<Vec<String>>) -> Seq<Seq<char>> {
    match o {
        Some(v) => lines_view(v@),
        None => Seq::empty(),
    }
}

impl View for PrefixIgnore {
    type V = PrefixIgnoreV;

    open spec fn view(&self) -> PrefixIgnoreV {
        PrefixIgnoreV { is_file: self.is_file, gitignore: opt_lines_view(self.gitignore) }
    }
}

pub open spec fn prefixes_view(s: Seq<PrefixIgnore>) -> Seq<PrefixIgnoreV> {
    s.map_values(|p: PrefixIgnore| p@)
}

/// The pattern lines gathered while walking from the root toward the target:
/// each directory prefix adds its ignore file's lines, and the walk stops at
/// the first prefix that is itself a regular file.
pub open spec fn chain_lines(pre: Seq<PrefixIgnoreV>) -> Seq<Seq<char>>
    decreases pre.len(),
{
    if pre.len() == 0 {
        Seq::empty()
    } else if pre[0].is_file {
        Seq::empty()
    } else {
        pre[0].gitignore + chain_lines(pre.drop_first())
    }
}

/// The full composed rule set: the watched root's own ignore file first, then
/// the walk's contributions in root-to-target order.
pub open spec fn composed_lines(root_lines: Seq<Seq<char>>, pre: Seq<PrefixIgnoreV>) -> Seq<
    Seq<char>,
> {
    root_lines + chain_lines(pre)
}

proof fn lemma_chain_push(s: Seq<PrefixIgnoreV>, x: PrefixIgnoreV)
    requires
        forall|j: int| 0 <= j < s.len() ==> !(#[trigger] s[j]).is_file,
    ensures
        chain_lines(s.push(x)) == chain_lines(s) + (if x.is_file {
            Seq::<Seq<char>>::empty()
        } else {
            x.gitignore
        }),
    decreases s.len(),
{
    if s.len() == 0 {
        assert(s.push(x).drop_first() =~= s);
        assert(chain_lines(s.push(x)) =~= chain_lines(s) + (if x.is_file {
            Seq::<Seq<char>>::empty()
        } else {
            x.gitignore
        }));
    } else {
        assert(s.push(x).drop_first() =~= s.drop_first().push(x));
        lemma_chain_push(s.drop_first(), x);
        assert(chain_lines(s.push(x)) =~= chain_lines(s) + (if x.is_file {
            Seq::<Seq<char>>::empty()
        } else {
            x.gitignore
        }));
    }
}

proof fn lemma_chain_stop(pre: Seq<PrefixIgnoreV>, i: int)
    requires
        0 <= i < pre.len(),
        forall|j: int| 0 <= j < i ==> !(#[trigger] pre[j]).is_file,
        pre[i].is_file,
    ensures
        chain_lines(pre) == chain_lines(pre.take(i)),
    decreases i,
{
    if i == 0 {
        assert(chain_lines(pre.take(0)) =~= Seq::<Seq<char>>::empty());
    } else {
        lemma_chain_stop(pre.drop_first(), i - 1);
        assert(pre.take(i).drop_first() =~= pre.drop_first().take(i - 1));
        assert(chain_lines(pre) =~= chain_lines(pre.take(i)));
    }
}

/// For well-formed components, the joined text is non-empty and opens with
/// the first component's first character.
proof fn lemma_join_first(parts: Seq<Seq<char>>)
    requires
        parts.len() > 0,
        forall|i: int| 0 <= i < parts.len() ==> (#[trigger] parts[i]).len() > 0,
    ensures
        join_parts(parts).len() > 0,
        join_parts(parts)[0] == parts[0][0],
    decreases parts.len(),
{
    if parts.len() > 1 {
        lemma_join_first(parts.drop_last());
    }
}

/// The scope/ignore decision procedure: admits a path only when it lies in
/// the watched tree, is outside the stash, has no hidden component, and is
/// not matched by the composed ignore rules.
pub struct PathFilter {
    pub base_path: FsPath,
    pub stash_path: FsPath,
}

impl PathFilter {
    /// Both anchors are canonical absolute paths.
    pub open spec fn wf(&self) -> bool {
        &&& self.base_path@.wf()
        &&& self.stash_path@.wf()
        &&& self.base_path@.absolute
        &&& self.stash_path@.absolute
    }

    /// A relative path is presumed in scope; an absolute one must lie under
    /// the watched root.
    pub open spec fn in_scope(&self, p: FsPathV) -> bool {
        !p.absolute || p.starts_with(self.base_path@)
    }

    /// Whether the path lies within the stash directory.
    pub open spec fn in_stash(&self, p: FsPathV) -> bool {
        p.starts_with(self.stash_path@)
    }

    /// The path's components beyond the watched root.
    pub open spec fn rel_parts(&self, p: FsPathV) -> Seq<Seq<char>> {
        if p.absolute && p.starts_with(self.base_path@) {
            p.parts.skip(self.base_path@.parts.len() as int)
        } else {
            p.parts
        }
    }

    /// Whether some component other than the root begins with a dot.
    pub open spec fn dotted(&self, p: FsPathV) -> bool {
        exists|i: int|
            0 <= i < self.rel_parts(p).len() && (#[trigger] self.rel_parts(p)[i]).len() > 0
                && self.rel_parts(p)[i][0] == '.'
    }

    /// The filter's whole verdict, as a predicate: in scope, outside the
    /// stash, no hidden component, and not matched by the composed rules.
    pub open spec fn admits(
        &self,
        p: FsPathV,
        is_dir: bool,
        root_lines: Seq<Seq<char>>,
        pre: Seq<PrefixIgnoreV>,
    ) -> bool {
        &&& self.in_scope(p)
        &&& !self.in_stash(p)
        &&& !self.dotted(p)
        &&& !gitignore_ignores(
            path_chars(self.base_path@),
            composed_lines(root_lines, pre),
            path_chars(FsPathV { absolute: false, parts: self.rel_parts(p) }),
            is_dir,
        )
    }

    pub fn is_in_scope(&self, path: &FsPath) -> (r: bool)
        ensures
            r == self.in_scope(path@),
    {
        !path.absolute || path.starts_with(&self.base_path)
    }

    pub fn is_stash_path(&self, path: &FsPath) -> (r: bool)
        ensures
            r == self.in_stash(path@),
    {
        path.starts_with(&self.stash_path)
    }

    pub fn is_dotted(&self, path: &FsPath) -> (r: bool)
        ensures
            r == self.dotted(path@),
    {
        let start: usize = if path.absolute && path.starts_with(&self.base_path) {
            self.base_path.parts.len()
        } else {
            0
        };
        let ghost rel = self.rel_parts(path@);
        assert(rel =~= path@.parts.skip(start as int));
        let mut i: usize = start;
        while i < path.parts.len()
            invariant
                start <= i <= path.parts.len(),
                rel == self.rel_parts(path@),
                rel == path@.parts.skip(start as int),
                rel.len() == path@.parts.len() - start,
                forall|j: int|
                    0 <= j < i - start ==> !((#[trigger] rel[j]).len() > 0 && rel[j][0] == '.'),
            decreases path.parts.len() - i,
        {
            if crate::fs_path::starts_with_dot(&path.parts[i]) {
                proof {
                    let k = i as int - start as int;
                    assert(rel[k] == path@.parts[i as int]);
                    assert(rel[k].len() > 0 && rel[k][0] == '.');
                }
                return true;
            }
            i = i + 1;
        }
        false
    }

    /// The path made relative to the watched root, for rule matching.
    fn rel_in_base(&self, path: &FsPath) -> (r: FsPath)
        requires
            self.in_scope(path@),
        ensures
            r@ == (FsPathV { absolute: false, parts: self.rel_parts(path@) }),
    {
        let start: usize = if path.absolute {
            self.base_path.parts.len()
        } else {
            0
        };
        let mut parts: Vec<String> = Vec::new();
        let mut i: usize = start;
        while i < path.parts.len()
            invariant
                start <= i <= path.parts.len(),
                parts@.len() == i - start,
                forall|j: int| 0 <= j < i - start ==> parts@[j]@ == path@.parts[start + j],
            decreases path.parts.len() - i,
        {
            parts.push(path.parts[i].clone());
            i = i + 1;
        }
        let r = FsPath { absolute: false, parts };
        proof {
            assert(r@.parts =~= self.rel_parts(path@));
        }
        r
    }

    /// Whether the composed hierarchical ignore rules match the path.
    ///
    /// `rel` is the target relative to the watched root; `root_gitignore`
    /// holds the root's own ignore file's lines; `prefixes` describes, for
    /// each leading portion of `rel` in order, whether that prefix is a
    /// regular file and which ignore lines its directory contributes.
    pub fn ignored(
        &self,
        rel: &FsPath,
        is_dir: bool,
        root_gitignore: &Option<Vec<String>>,
        prefixes: &Vec<PrefixIgnore>,
    ) -> (r: Result<bool, crate::errors::Error>)
        requires
            self.wf(),
            !rel@.absolute,
            rel@.wf(),
        ensures
            r matches Ok(b) ==> b == gitignore_ignores(
                path_chars(self.base_path@),
                composed_lines(opt_lines_view(*root_gitignore), prefixes_view(prefixes@)),
                path_chars(rel@),
                is_dir,
            ),
            r is Ok <==> gitignore_builds(
                path_chars(self.base_path@),
                composed_lines(opt_lines_view(*root_gitignore), prefixes_view(prefixes@)),
            ),
            r is Err ==> r == Err::<bool, crate::errors::Error>(
                crate::errors::Error::IgnoreRules,
            ),
    {
        let base_str = self.base_path.to_path_string();
        let ghost base_chars = path_chars(self.base_path@);
        let mut b = gitignore_builder_new(&base_str);
        let ghost root_ls = opt_lines_view(*root_gitignore);

        match root_gitignore {
            Some(lines) => {
                let mut k: usize = 0;
                while k < lines.len()
                    invariant
                        k <= lines.len(),
                        root_ls == lines_view(lines@),
                        root_ls.len() == lines@.len(),
                        builder_model(b).0 == base_chars,
                        builder_model(b).1 == root_ls.take(k as int),
                    decreases lines.len() - k,
                {
                    gitignore_builder_add_line(&mut b, &lines[k]);
                    proof {
                        assert(root_ls.take(k as int + 1) =~= root_ls.take(k as int).push(
                            lines@[k as int]@,
                        ));
                    }
                    k = k + 1;
                }
                proof {
                    assert(root_ls.take(lines@.len() as int) =~= root_ls);
                }
            },
            None => {
                proof {
                    assert(builder_model(b).1 =~= root_ls);
                }
            },
        }

        let ghost pv = prefixes_view(prefixes@);
        let mut i: usize = 0;
        let mut stop = false;
        while i < prefixes.len() && !stop
            invariant
                i <= prefixes.len(),
                pv == prefixes_view(prefixes@),
                pv.len() == prefixes@.len(),
                builder_model(b).0 == base_chars,
                builder_model(b).1 == root_ls + chain_lines(pv.take(i as int)),
                forall|j: int| 0 <= j < i ==> !(#[trigger] pv[j]).is_file,
                stop ==> i < prefixes@.len() && pv[i as int].is_file,
            decreases prefixes.len() - i, (if stop { 0int } else { 1int }),
        {
            if prefixes[i].is_file {
                stop = true;
            } else {
                match &prefixes[i].gitignore {
                    Some(ls) => {
                        let ghost pls = pv[i as int].gitignore;
                        let ghost before = builder_model(b).1;
                        let mut k: usize = 0;
                        while k < ls.len()
                            invariant
                                k <= ls.len(),
                                pls == lines_view(ls@),
                                pls.len() == ls@.len(),
                                builder_model(b).0 == base_chars,
                                builder_model(b).1 == before + pls.take(k as int),
                            decreases ls.len() - k,
                        {
                            gitignore_builder_add_line(&mut b, &ls[k]);
                            proof {
                                assert(before + pls.take(k as int + 1) =~= (before + pls.take(
                                    k as int,
                                )).push(ls@[k as int]@));
                            }
                            k = k + 1;
                        }
                        proof {
                            lemma_chain_push(pv.take(i as int), pv[i as int]);
                            assert(pv.take(i as int + 1) =~= pv.take(i as int).push(pv[i as int]));
                            assert(pls.take(ls@.len() as int) =~= pls);
                            assert(builder_model(b).1 =~= root_ls + chain_lines(
                                pv.take(i as int + 1),
                            ));
                        }
                    },
                    None => {
                        proof {
                            lemma_chain_push(pv.take(i as int), pv[i as int]);
                            assert(pv.take(i as int + 1) =~= pv.take(i as int).push(pv[i as int]));
                            assert(builder_model(b).1 =~= root_ls + chain_lines(
                                pv.take(i as int + 1),
                            ));
                        }
                    },
                }
                i = i + 1;
            }
        }
        proof {
            if stop {
                lemma_chain_stop(pv, i as int);
            } else {
                assert(pv.take(pv.len() as int) =~= pv);
            }
            assert(builder_model(b).1 == composed_lines(root_ls, pv));
        }

        let rel_str = rel.to_path_string();
        proof {
            if rel@.parts.len() > 0 {
                lemma_join_first(rel@.parts);
                assert(rel@.parts[0][0] != '/') by {
                    assert(rel@.parts[0].contains(rel@.parts[0][0]));
                }
            }
        }
        match gitignore_builder_build(&b) {
            Some(g) => Ok(gitignore_matched(&g, &rel_str, is_dir)),
            None => Err(crate::errors::Error::IgnoreRules),
        }
    }

    /// The filter's decision for one path, in order: scope, stash, hidden
    /// components, then the composed ignore rules. `is_dir` says whether the
    /// path currently denotes a directory; `root_gitignore` and `prefixes`
    /// carry the ignore-rule context for the path as it is on disk.
    pub fn allow(
        &self,
        path: &FsPath,
        is_dir: bool,
        root_gitignore: &Option<Vec<String>>,
        prefixes: &Vec<PrefixIgnore>,
    ) -> (r: Result<bool, crate::errors::Error>)
        requires
            self.wf(),
            path@.wf(),
        ensures
            !self.in_scope(path@) ==> r == Ok::<bool, crate::errors::Error>(false),
            self.in_scope(path@) && self.in_stash(path@) ==> r == Ok::<bool, crate::errors::Error>(false),
            self.in_scope(path@) && !self.in_stash(path@) && self.dotted(path@) ==> r == Ok::<
                bool,
                crate::errors::Error,
            >(false),
            self.in_scope(path@) && !self.in_stash(path@) && !self.dotted(path@) ==> (r matches Ok(
                b,
            ) ==> b == !gitignore_ignores(
                path_chars(self.base_path@),
                composed_lines(opt_lines_view(*root_gitignore), prefixes_view(prefixes@)),
                path_chars(FsPathV { absolute: false, parts: self.rel_parts(path@) }),
                is_dir,
            )),
            r is Err <==> self.in_scope(path@) && !self.in_stash(path@) && !self.dotted(path@)
                && !gitignore_builds(
                path_chars(self.base_path@),
                composed_lines(opt_lines_view(*root_gitignore), prefixes_view(prefixes@)),
            ),
            r is Err ==> r == Err::<bool, crate::errors::Error>(
                crate::errors::Error::IgnoreRules,
            ),
            r matches Ok(b) ==> b == self.admits(
                path@,
                is_dir,
                opt_lines_view(*root_gitignore),
                prefixes_view(prefixes@),
            ),
    {
        if !self.is_in_scope(path) {
            return Ok(false);
        }
        if self.is_stash_path(path) {
            return Ok(false);
        }
        if self.is_dotted(path) {
            return Ok(false);
        }
        let rel = self.rel_in_base(path);
        proof {
            assert(rel@.wf()) by {
                if path@.absolute && path@.starts_with(self.base_path@) {
                    assert(forall|j: int|
                        0 <= j < rel@.parts.len() ==> (#[trigger] rel@.parts[j]) == path@.parts[j
                            + self.base_path@.parts.len()]);
                }
            }
        }
        match self.ignored(&rel, is_dir, root_gitignore, prefixes) {
            Ok(b) => Ok(!b),
            Err(e) => Err(e),
        }
    }
}

/// Builds a filter from the watched root and the stash location, both already
/// resolved to canonical absolute form; fails if either is not.
pub fn new(base_path: &FsPath, stash_path: &FsPath) -> (r: Result<PathFilter, crate::errors::Error>)
    ensures
        r matches Ok(f) ==> f.wf() && f.base_path@ == base_path@ && f.stash_path@ == stash_path@,
        r is Err ==> !(base_path@.wf() && stash_path@.wf() && base_path@.absolute
            && stash_path@.absolute),
{
    if !base_path.absolute || !stash_path.absolute {
        return Err(crate::errors::Error::BadPath);
    }
    if !wf_path_exec(base_path) || !wf_path_exec(stash_path) {
        return Err(crate::errors::Error::BadPath);
    }
    Ok(PathFilter { base_path: base_path.duplicate(), stash_path: stash_path.duplicate() })
}

/// Checks the path model's well-formedness.
fn wf_path_exec(p: &FsPath) -> (r: bool)
    ensures
        r == p@.wf(),
{
    let mut i: usize = 0;
    while i < p.parts.len()
        invariant
            i <= p.parts.len(),
            forall|j: int| 0 <= j < i ==> crate::fs_path::wf_part(#[trigger] p@.parts[j]),
        decreases p.parts.len() - i,
    {
        if !wf_part_exec(&p.parts[i]) {
            assert(!crate::fs_path::wf_part(p@.parts[i as int]));
            return false;
        }
        i = i + 1;
    }
    true
}

/// Checks one component: non-empty, no separator, not a navigation name.
fn wf_part_exec(s: &String) -> (r: bool)
    ensures
        r == crate::fs_path::wf_part(s@),
{
    let st = s.as_str();
    let n = st.unicode_len();
    if n == 0 {
        return false;
    }
    let mut i: usize = 0;
    while i < n
        invariant
            i <= n,
            n == s@.len(),
            st@ == s@,
            forall|j: int| 0 <= j < i ==> s@[j] != '/',
        decreases n - i,
    {
        if st.get_char(i) == '/' {
            assert(s@.contains('/'));
            return false;
        }
        i = i + 1;
    }
    assert(!s@.contains('/')) by {
        if s@.contains('/') {
            let k = choose|k: int| 0 <= k < s@.len() && s@[k] == '/';
        }
    }
    if n == 1 && st.get_char(0) == '.' {
        assert(s@ =~= seq!['.']);
        return false;
    }
    if n == 2 && st.get_char(0) == '.' && st.get_char(1) == '.' {
        assert(s@ =~= seq!['.', '.']);
        return false;
    }
    proof {
        if s@ == seq!['.'] {
            assert(s@.len() == 1 && s@[0] == '.');
        }
        if s@ == seq!['.', '.'] {
            assert(s@.len() == 2 && s@[0] == '.' && s@[1] == '.');
        }
    }
    true
}

} // verus!
