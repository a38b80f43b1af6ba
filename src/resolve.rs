use crate::registry::{has_name, share_of, ShareRegistry};
use crate::schemas::ShareView;
use vstd::prelude::*;
use vstd::string::StrSliceExecFns;
use vstd::string::StringExecFns;

verus! {

/// The pieces of `p` between the `/` separators, empty ones included.
pub open spec fn split_path(p: Seq<char>) -> Seq<Seq<char>>
    decreases p.len(),
{
    if p.len() == 0 {
        seq![Seq::<char>::empty()]
    } else {
        let prev = split_path(p.drop_last());
        if p.last() == '/' {
            prev.push(Seq::<char>::empty())
        } else {
            prev.update(prev.len() - 1, prev.last().push(p.last()))
        }
    }
}

pub proof fn lemma_split_path_len(p: Seq<char>)
    ensures
        split_path(p).len() >= 1,
    decreases p.len(),
{
    if p.len() > 0 {
        lemma_split_path_len(p.drop_last());
    }
}

/// A segment that names nothing: empty, or `.`.
pub open spec fn skipped(seg: Seq<char>) -> bool {
    seg.len() == 0 || seg == seq!['.']
}

pub open spec fn is_parent(seg: Seq<char>) -> bool {
    seg == seq!['.', '.']
}

/// Why a virtual path could not be resolved.
#[derive(Clone, Copy, Debug, PartialEq, Eq, Structural)]
pub enum ResolveError {
    /// The first segment names no share.
    UnknownShare,
    /// The first segment names a disabled share.
    DisabledShare,
    /// A `..` would leave the share's root.
    EscapesShare,
}

/// How far a walk along a virtual path has come: nothing named yet, or a
/// share and the components below its root.
pub type WalkState = Result<Option<(ShareView, Seq<Seq<char>>)>, ResolveError>;

/// One segment of a walk over the shares `shares`.
pub open spec fn step(shares: Seq<ShareView>, st: WalkState, seg: Seq<char>) -> WalkState {
    match st {
        Err(e) => Err(e),
        Ok(None) => if skipped(seg) {
            Ok(None)
        } else if !has_name(shares, seg) {
            Err(ResolveError::UnknownShare)
        } else if share_of(shares, seg).disabled.spec_any() {
            Err(ResolveError::DisabledShare)
        } else {
            Ok(Some((share_of(shares, seg), Seq::<Seq<char>>::empty())))
        },
        Ok(Some((sh, comps))) => if skipped(seg) {
            Ok(Some((sh, comps)))
        } else if is_parent(seg) {
            if comps.len() == 0 {
                Err(ResolveError::EscapesShare)
            } else {
                Ok(Some((sh, comps.drop_last())))
            }
        } else {
            Ok(Some((sh, comps.push(seg))))
        },
    }
}

/// The walk over all of `segs`.
pub open spec fn walk(shares: Seq<ShareView>, segs: Seq<Seq<char>>) -> WalkState
    decreases segs.len(),
{
    if segs.len() == 0 {
        Ok(None)
    } else {
        step(shares, walk(shares, segs.drop_last()), segs.last())
    }
}

/// Where the virtual path `p` leads among `shares`.
pub open spec fn spec_resolve(shares: Seq<ShareView>, p: Seq<char>) -> WalkState {
    walk(shares, split_path(p))
}

/// `base` with the component `c` appended, with a separator where `base`
/// does not end in one.
pub open spec fn push_component(base: Seq<char>, c: Seq<char>) -> Seq<char> {
    if base.len() > 0 && base.last() != '/' {
        base + seq!['/'] + c
    } else {
        base + c
    }
}

/// The filesystem path of `comps` below `root`.
pub open spec fn join_path(root: Seq<char>, comps: Seq<Seq<char>>) -> Seq<char>
    decreases comps.len(),
{
    if comps.len() == 0 {
        root
    } else {
        push_component(join_path(root, comps.drop_last()), comps.last())
    }
}

/// A file or directory inside a share.
#[derive(Clone, Debug, PartialEq, Eq)]
pub struct ResolvedEntry {
    /// The name of the share.
    pub share: String,
    /// The filesystem path.
    pub path: String,
}

/// The target of a virtual path.
#[derive(Clone, Debug, PartialEq, Eq)]
pub enum Resolved {
    /// The path names no share: it stands for the list of shares.
    Root,
    Entry(ResolvedEntry),
}

pub open spec fn strings_view(v: Seq<String>) -> Seq<Seq<char>> {
    v.map_values(|s: String| s@)
}

struct Walk {
    share: usize,
    comps: Vec<String>,
}

spec fn walk_view(shares: Seq<ShareView>, st: Result<Option<Walk>, ResolveError>) -> WalkState {
    match st {
        Err(e) => Err(e),
        Ok(None) => Ok(None),
        Ok(Some(w)) => Ok(Some((shares[w.share as int], strings_view(w.comps@)))),
    }
}

spec fn walk_valid(shares: Seq<ShareView>, st: Result<Option<Walk>, ResolveError>) -> bool {
    match st {
        Ok(Some(w)) => w.share < shares.len(),
        _ => true,
    }
}

fn is_skipped(seg: &str) -> (r: bool)
    ensures
        r == skipped(seg@),
{
    let n = seg.unicode_len();
    let r = n == 0 || (n == 1 && seg.get_char(0) == '.');
    assert(n == 1 && seg@[0] == '.' ==> seg@ =~= seq!['.']);
    r
}

fn is_parent_segment(seg: &str) -> (r: bool)
    ensures
        r == is_parent(seg@),
{
    let n = seg.unicode_len();
    let r = n == 2 && seg.get_char(0) == '.' && seg.get_char(1) == '.';
    assert(r ==> seg@ =~= seq!['.', '.']);
    r
}

/// Appends each of `comps` to `root` as a child component.
pub fn join_components(root: &str, comps: &Vec<String>) -> (r: String)
    ensures
        r@ == join_path(root@, strings_view(comps@)),
{
    let mut acc = String::from_str(root);
    let mut i: usize = 0;
    while i < comps.len()
        invariant
            i <= comps@.len(),
            acc@ == join_path(root@, strings_view(comps@).subrange(0, i as int)),
        decreases comps@.len() - i,
    {
        proof {
            reveal_strlit("/");
        }
        let ghost before = acc@;
        let n = acc.as_str().unicode_len();
        if n > 0 && acc.as_str().get_char(n - 1) != '/' {
            acc.append("/");
        }
        acc.append(comps[i].as_str());
        let ghost cv = strings_view(comps@);
        assert(cv.subrange(0, i + 1).drop_last() =~= cv.subrange(0, i as int));
        i += 1;
    }
    assert(strings_view(comps@).subrange(0, i as int) =~= strings_view(comps@));
    acc
}

impl ShareRegistry {
    fn step_walk(&self, st: Result<Option<Walk>, ResolveError>, seg: &str) -> (r: Result<
        Option<Walk>,
        ResolveError,
    >)
        requires
            self.wf(),
            walk_valid(self@, st),
        ensures
            walk_valid(self@, r),
            walk_view(self@, r) == step(self@, walk_view(self@, st), seg@),
    {
        match st {
            Err(e) => Err(e),
            Ok(None) => {
                if is_skipped(seg) {
                    Ok(None)
                } else {
                    match self.position_of(seg) {
                        None => Err(ResolveError::UnknownShare),
                        Some(i) => {
                            if self.user_disabled(i) {
                                Err(ResolveError::DisabledShare)
                            } else {
                                let comps: Vec<String> = Vec::new();
                                assert(strings_view(comps@) =~= Seq::<Seq<char>>::empty());
                                Ok(Some(Walk { share: i, comps }))
                            }
                        },
                    }
                }
            },
            Ok(Some(w)) => {
                let Walk { share, comps } = w;
                let mut comps = comps;
                let ghost cv = strings_view(comps@);
                if is_skipped(seg) {
                    Ok(Some(Walk { share, comps }))
                } else if is_parent_segment(seg) {
                    if comps.len() == 0 {
                        Err(ResolveError::EscapesShare)
                    } else {
                        let _ = comps.pop();
                        assert(strings_view(comps@) =~= cv.drop_last());
                        Ok(Some(Walk { share, comps }))
                    }
                } else {
                    comps.push(String::from_str(seg));
                    assert(strings_view(comps@) =~= cv.push(seg@));
                    Ok(Some(Walk { share, comps }))
                }
            },
        }
    }

    /// Resolves the virtual path `path`: its first segment that is neither
    /// empty nor `.` names an enabled share, and the rest walk below that
    /// share's root, `..` going one level up but never above the root.
    pub fn resolve_path(&self, path: &str) -> (r: Result<Resolved, ResolveError>)
        requires
            self.wf(),
        ensures
            match r {
                Ok(Resolved::Root) => spec_resolve(self@, path@) == Ok::<
                    Option<(ShareView, Seq<Seq<char>>)>,
                    ResolveError,
                >(None),
                Ok(Resolved::Entry(e)) => spec_resolve(self@, path@) is Ok && spec_resolve(
                    self@,
                    path@,
                )->Ok_0 is Some && e.share@ == spec_resolve(self@, path@)->Ok_0->Some_0.0.name
                    && e.path@ == join_path(
                    spec_resolve(self@, path@)->Ok_0->Some_0.0.path,
                    spec_resolve(self@, path@)->Ok_0->Some_0.1,
                ),
                Err(e) => spec_resolve(self@, path@) == Err::<
                    Option<(ShareView, Seq<Seq<char>>)>,
                    ResolveError,
                >(e),
            },
    {
        let ghost p = path@;
        let n = path.unicode_len();
        let mut st: Result<Option<Walk>, ResolveError> = Ok(None);
        let mut start: usize = 0;
        let mut i: usize = 0;
        assert(p.subrange(0, 0) =~= Seq::<char>::empty());
        assert(split_path(p.subrange(0, 0)).drop_last() =~= Seq::<Seq<char>>::empty());
        while i < n
            invariant
                self.wf(),
                n == p.len(),
                p == path@,
                start <= i <= n,
                split_path(p.subrange(0, i as int)).len() >= 1,
                split_path(p.subrange(0, i as int)).last() == p.subrange(start as int, i as int),
                walk_valid(self@, st),
                walk_view(self@, st) == walk(self@, split_path(p.subrange(0, i as int)).drop_last()),
            decreases n - i,
        {
            let ghost prefix = p.subrange(0, i as int);
            let ghost next = p.subrange(0, i + 1);
            assert(next.drop_last() =~= prefix);
            proof {
                lemma_split_path_len(next);
            }
            if path.get_char(i) == '/' {
                let seg = path.substring_char(start, i);
                let ghost segs = split_path(next);
                assert(segs.drop_last() =~= split_path(prefix));
                assert(split_path(prefix).drop_last() =~= split_path(prefix).drop_last());
                st = self.step_walk(st, seg);
                start = i + 1;
                assert(p.subrange(start as int, i + 1) =~= Seq::<char>::empty());
            } else {
                let ghost segs = split_path(next);
                assert(segs.drop_last() =~= split_path(prefix).drop_last());
                assert(p.subrange(start as int, i + 1) =~= p.subrange(start as int, i as int).push(
                    p[i as int],
                ));
            }
            i += 1;
        }
        assert(p.subrange(0, n as int) =~= p);
        let seg = path.substring_char(start, n);
        st = self.step_walk(st, seg);
        match st {
            Err(e) => Err(e),
            Ok(None) => Ok(Resolved::Root),
            Ok(Some(w)) => {
                let root = self.share_path(w.share);
                let full = join_components(root, &w.comps);
                let name = self.share_name_at(w.share);
                Ok(Resolved::Entry(ResolvedEntry { share: name, path: full }))
            },
        }
    }
}

} // verus!
