//! Properties of the share registry that relate several operations.
use crate::registry::{
    has_name, index_of, lemma_index_of, names_unique, requested_name, share_of, share_outcome,
    unshare_outcome,
};
use crate::resolve::{
    is_parent, skipped, spec_resolve, split_path, step, walk, ResolveError, WalkState,
};
use crate::schemas::{DaemonShareArgs, DaemonShareError, DaemonUnshareError, Share, ShareView};
use vstd::prelude::*;

verus! {

/// Adding a share never gives two shares the same name: the names stay
/// unique whatever the request and its outcome.
pub proof fn lemma_share_keeps_names_unique(
    old: Seq<ShareView>,
    args: DaemonShareArgs,
    new: Seq<ShareView>,
    r: Result<Share, DaemonShareError>,
)
    requires
        names_unique(old),
        share_outcome(old, args, new, r),
    ensures
        names_unique(new),
{
    if let Ok(s) = r {
        assert forall|i: int, j: int|
            0 <= i < new.len() && 0 <= j < new.len() && #[trigger] new[i].name == #[trigger] new[j].name
                implies i == j by {
            if i < old.len() && j == old.len() {
                assert(old[i].name == s@.name);
            }
            if j < old.len() && i == old.len() {
                assert(old[j].name == s@.name);
            }
        }
    }
}

/// Removing a share keeps the names unique.
pub proof fn lemma_unshare_keeps_names_unique(
    old: Seq<ShareView>,
    name: Seq<char>,
    new: Seq<ShareView>,
    r: Result<Share, DaemonUnshareError>,
)
    requires
        names_unique(old),
        unshare_outcome(old, name, new, r),
    ensures
        names_unique(new),
{
    if let Ok(_) = r {
        let k = index_of(old, name);
        assert forall|i: int, j: int|
            0 <= i < new.len() && 0 <= j < new.len() && #[trigger] new[i].name == #[trigger] new[j].name
                implies i == j by {
            let i0 = if i < k { i } else { i + 1 };
            let j0 = if j < k { j } else { j + 1 };
            assert(old[i0].name == old[j0].name);
        }
    }
}

/// A built-in share cannot be removed: the request fails with
/// `StaticShare` and leaves the shares as they were.
pub proof fn lemma_static_irremovable(
    old: Seq<ShareView>,
    name: Seq<char>,
    new: Seq<ShareView>,
    r: Result<Share, DaemonUnshareError>,
)
    requires
        has_name(old, name),
        share_of(old, name).share_type is Static,
        unshare_outcome(old, name, new, r),
    ensures
        r == Err::<Share, DaemonUnshareError>(DaemonUnshareError::StaticShare),
        new == old,
{
}

/// Adding a share and then removing it by its name hands back the share
/// that was added and restores the shares as they were.
pub proof fn lemma_share_unshare_round_trip(
    s0: Seq<ShareView>,
    args: DaemonShareArgs,
    s1: Seq<ShareView>,
    added: Share,
    s2: Seq<ShareView>,
    r: Result<Share, DaemonUnshareError>,
)
    requires
        names_unique(s0),
        share_outcome(s0, args, s1, Ok(added)),
        unshare_outcome(s1, added@.name, s2, r),
    ensures
        r is Ok,
        r->Ok_0@ == added@,
        s2 == s0,
        !has_name(s2, added@.name),
{
    lemma_share_keeps_names_unique(s0, args, s1, Ok(added));
    lemma_index_of(s1, added@.name, s0.len() as int);
    assert(s1.remove(s0.len() as int) =~= s0);
}

/// A second request for a name that is taken fails with `DuplicateName`,
/// and the share under that name stays the first one.
pub proof fn lemma_duplicate_rejected(
    s0: Seq<ShareView>,
    first: DaemonShareArgs,
    s1: Seq<ShareView>,
    added: Share,
    second: DaemonShareArgs,
    s2: Seq<ShareView>,
    r: Result<Share, DaemonShareError>,
)
    requires
        names_unique(s0),
        share_outcome(s0, first, s1, Ok(added)),
        requested_name(second) == requested_name(first),
        share_outcome(s1, second, s2, r),
    ensures
        r is Err,
        r->Err_0 is DuplicateName,
        r->Err_0->DuplicateName_0@ == added@.name,
        s2 == s1,
        share_of(s2, added@.name) == added@,
{
    lemma_share_keeps_names_unique(s0, first, s1, Ok(added));
    lemma_index_of(s1, added@.name, s0.len() as int);
}

/// Requests whose names are valid, pairwise distinct and not yet taken, and
/// whose paths are absolute.
pub open spec fn fresh_requests(s0: Seq<ShareView>, reqs: Seq<DaemonShareArgs>) -> bool {
    &&& forall|k: int| 0 <= k < reqs.len() ==> #[trigger] requested_name(reqs[k]) is Ok
    &&& forall|k: int|
        0 <= k < reqs.len() ==> crate::registry::spec_is_absolute(#[trigger] reqs[k].path@)
    &&& forall|k: int| 0 <= k < reqs.len() ==> !has_name(s0, #[trigger] requested_name(reqs[k])->Ok_0)
    &&& forall|k: int, l: int|
        0 <= k < reqs.len() && 0 <= l < reqs.len() && k != l ==> #[trigger] requested_name(reqs[k])
            != #[trigger] requested_name(reqs[l])
}

/// `states[k + 1]` and `results[k]` are what the `k`-th request made of
/// `states[k]`, for each request in turn.
pub open spec fn share_run(
    states: Seq<Seq<ShareView>>,
    reqs: Seq<DaemonShareArgs>,
    results: Seq<Result<Share, DaemonShareError>>,
) -> bool {
    &&& states.len() == reqs.len() + 1
    &&& results.len() == reqs.len()
    &&& forall|k: int|
        0 <= k < reqs.len() ==> share_outcome(
            states[k],
            #[trigger] reqs[k],
            states[k + 1],
            results[k],
        )
}

/// Requests for distinct free names, carried out one after the other in any
/// order the single writer admits them, all succeed, and every name is
/// present afterwards.
pub proof fn lemma_distinct_requests_all_succeed(
    states: Seq<Seq<ShareView>>,
    reqs: Seq<DaemonShareArgs>,
    results: Seq<Result<Share, DaemonShareError>>,
)
    requires
        names_unique(states[0]),
        share_run(states, reqs, results),
        fresh_requests(states[0], reqs),
    ensures
        forall|k: int| 0 <= k < reqs.len() ==> #[trigger] results[k] is Ok,
        forall|k: int|
            0 <= k < reqs.len() ==> has_name(
                states[reqs.len() as int],
                #[trigger] requested_name(reqs[k])->Ok_0,
            ),
        states[reqs.len() as int].len() == states[0].len() + reqs.len(),
    decreases reqs.len(),
{
    let n = reqs.len() as int;
    if n > 0 {
        let ps = states.subrange(0, n);
        let pr = reqs.subrange(0, n - 1);
        let pres = results.subrange(0, n - 1);
        assert forall|k: int| 0 <= k < pr.len() implies share_outcome(
            ps[k],
            #[trigger] pr[k],
            ps[k + 1],
            pres[k],
        ) by {
            assert(share_outcome(states[k], reqs[k], states[k + 1], results[k]));
        }
        assert forall|k: int, l: int|
            0 <= k < pr.len() && 0 <= l < pr.len() && k != l implies #[trigger] requested_name(pr[k])
            != #[trigger] requested_name(pr[l]) by {
            assert(requested_name(reqs[k]) != requested_name(reqs[l]));
        }
        assert forall|k: int| 0 <= k < pr.len() implies !has_name(
            ps[0],
            #[trigger] requested_name(pr[k])->Ok_0,
        ) by {
            assert(requested_name(reqs[k]) is Ok);
            assert(!has_name(states[0], requested_name(reqs[k])->Ok_0));
        }
        assert forall|k: int| 0 <= k < pr.len() implies #[trigger] requested_name(pr[k]) is Ok by {
            assert(requested_name(reqs[k]) is Ok);
        }
        assert forall|k: int| 0 <= k < pr.len() implies crate::registry::spec_is_absolute(
            #[trigger] pr[k].path@,
        ) by {
            assert(crate::registry::spec_is_absolute(reqs[k].path@));
        }
        lemma_distinct_requests_all_succeed(ps, pr, pres);
        lemma_run_keeps_names_unique(ps, pr, pres, n - 1);
        let last = reqs[n - 1];
        let before = states[n - 1];
        let nm = requested_name(last)->Ok_0;
        assert(requested_name(last) is Ok);
        assert(share_outcome(before, last, states[n], results[n - 1]));
        // The last name is free before its request.
        if has_name(before, nm) {
            let i = choose|i: int| 0 <= i < before.len() && #[trigger] before[i].name == nm;
            if i < states[0].len() {
                lemma_prefix_kept(ps, pr, pres, n - 1, i);
                assert(states[0][i].name == nm);
                assert(has_name(states[0], nm));
            } else {
                let k = lemma_added_position(ps, pr, pres, n - 1, i);
                assert(requested_name(reqs[k]) != requested_name(reqs[n - 1]));
                assert(requested_name(reqs[k]) is Ok);
            }
        }
        assert(results[n - 1] is Ok);
        assert forall|k: int| 0 <= k < reqs.len() implies #[trigger] results[k] is Ok by {
            if k < n - 1 {
                assert(pres[k] is Ok);
            }
        }
        assert forall|k: int| 0 <= k < reqs.len() implies has_name(
            states[n],
            #[trigger] requested_name(reqs[k])->Ok_0,
        ) by {
            if k < n - 1 {
                assert(has_name(ps[n - 1], requested_name(pr[k])->Ok_0));
                let j = choose|j: int|
                    0 <= j < before.len() && #[trigger] before[j].name == requested_name(reqs[k])->Ok_0;
                assert(states[n][j] == before[j]);
            } else {
                assert(states[n][before.len() as int].name == nm);
            }
        }
    }
}

/// Requests for one and the same free name, carried out one after the other:
/// the first succeeds and every later one fails with `DuplicateName`,
/// leaving the shares as the first one left them.
pub proof fn lemma_same_name_one_success(
    states: Seq<Seq<ShareView>>,
    reqs: Seq<DaemonShareArgs>,
    results: Seq<Result<Share, DaemonShareError>>,
    name: Seq<char>,
)
    requires
        names_unique(states[0]),
        share_run(states, reqs, results),
        reqs.len() >= 1,
        forall|k: int|
            0 <= k < reqs.len() ==> #[trigger] requested_name(reqs[k]) == Ok::<
                Seq<char>,
                crate::names::ShareNameError,
            >(name),
        !has_name(states[0], name),
        crate::registry::spec_is_absolute(reqs[0].path@),
    ensures
        results[0] is Ok,
        forall|k: int|
            1 <= k < reqs.len() ==> #[trigger] results[k] is Err && results[k]->Err_0 is DuplicateName,
        states[reqs.len() as int] == states[1],
{
    assert(requested_name(reqs[0]) == Ok::<Seq<char>, crate::names::ShareNameError>(name));
    assert(share_outcome(states[0], reqs[0], states[1], results[0]));
    assert(results[0] is Ok);
    assert(states[1][states[0].len() as int].name == name);
    lemma_duplicates_keep_state(states, reqs, results, name, reqs.len() as int);
}

proof fn lemma_duplicates_keep_state(
    states: Seq<Seq<ShareView>>,
    reqs: Seq<DaemonShareArgs>,
    results: Seq<Result<Share, DaemonShareError>>,
    name: Seq<char>,
    m: int,
)
    requires
        share_run(states, reqs, results),
        1 <= m <= reqs.len(),
        forall|k: int|
            0 <= k < reqs.len() ==> #[trigger] requested_name(reqs[k]) == Ok::<
                Seq<char>,
                crate::names::ShareNameError,
            >(name),
        has_name(states[1], name),
    ensures
        forall|k: int|
            1 <= k < m ==> #[trigger] results[k] is Err && results[k]->Err_0 is DuplicateName,
        states[m] == states[1],
    decreases m,
{
    if m > 1 {
        lemma_duplicates_keep_state(states, reqs, results, name, m - 1);
        assert(requested_name(reqs[m - 1]) == Ok::<Seq<char>, crate::names::ShareNameError>(name));
        assert(share_outcome(states[m - 1], reqs[m - 1], states[m], results[m - 1]));
    }
}

/// Along a run the shares only grow at the end.
proof fn lemma_prefix_kept(
    states: Seq<Seq<ShareView>>,
    reqs: Seq<DaemonShareArgs>,
    results: Seq<Result<Share, DaemonShareError>>,
    m: int,
    i: int,
)
    requires
        share_run(states, reqs, results),
        0 <= m <= reqs.len(),
        0 <= i < states[0].len(),
    ensures
        states[m].len() >= states[0].len(),
        states[m][i] == states[0][i],
    decreases m,
{
    if m > 0 {
        lemma_prefix_kept(states, reqs, results, m - 1, i);
        assert(share_outcome(states[m - 1], reqs[m - 1], states[m], results[m - 1]));
    }
}

/// Along a run each share past the first ones was added by some request,
/// under the name it asked for.
proof fn lemma_added_position(
    states: Seq<Seq<ShareView>>,
    reqs: Seq<DaemonShareArgs>,
    results: Seq<Result<Share, DaemonShareError>>,
    m: int,
    i: int,
) -> (k: int)
    requires
        share_run(states, reqs, results),
        0 <= m <= reqs.len(),
        states[0].len() <= i < states[m].len(),
    ensures
        0 <= k < m,
        requested_name(reqs[k]) is Ok,
        states[m][i].name == requested_name(reqs[k])->Ok_0,
    decreases m,
{
    assert(share_outcome(states[m - 1], reqs[m - 1], states[m], results[m - 1]));
    if i < states[m - 1].len() {
        lemma_added_position(states, reqs, results, m - 1, i)
    } else {
        m - 1
    }
}

/// Along a run the names stay unique.
proof fn lemma_run_keeps_names_unique(
    states: Seq<Seq<ShareView>>,
    reqs: Seq<DaemonShareArgs>,
    results: Seq<Result<Share, DaemonShareError>>,
    m: int,
)
    requires
        names_unique(states[0]),
        share_run(states, reqs, results),
        0 <= m <= reqs.len(),
    ensures
        names_unique(states[m]),
    decreases m,
{
    if m > 0 {
        lemma_run_keeps_names_unique(states, reqs, results, m - 1);
        assert(share_outcome(states[m - 1], reqs[m - 1], states[m], results[m - 1]));
        lemma_share_keeps_names_unique(states[m - 1], reqs[m - 1], states[m], results[m - 1]);
    }
}

/// A component that moves one level down: not empty, not `.` or `..`, and
/// without a separator.
pub open spec fn normal_component(c: Seq<char>) -> bool {
    !skipped(c) && !is_parent(c) && !c.contains('/')
}

proof fn lemma_split_without_separator(p: Seq<char>)
    requires
        !p.contains('/'),
    ensures
        split_path(p) == seq![p],
    decreases p.len(),
{
    if p.len() > 0 {
        let q = p.drop_last();
        assert(!q.contains('/')) by {
            if q.contains('/') {
                let i = choose|i: int| 0 <= i < q.len() && q[i] == '/';
                assert(p[i] == '/');
            }
        }
        lemma_split_without_separator(q);
        assert(p.last() != '/') by {
            assert(p[p.len() - 1] == p.last());
        }
        assert(q.push(p.last()) =~= p);
        assert(seq![q].update(0, q.push(p.last())) =~= seq![p]);
    } else {
        assert(p =~= Seq::<char>::empty());
    }
}

proof fn lemma_split_segments_without_separator(p: Seq<char>)
    ensures
        forall|k: int| 0 <= k < split_path(p).len() ==> !(#[trigger] split_path(p)[k]).contains('/'),
    decreases p.len(),
{
    crate::resolve::lemma_split_path_len(p);
    if p.len() > 0 {
        let q = p.drop_last();
        lemma_split_segments_without_separator(q);
        crate::resolve::lemma_split_path_len(q);
        let prev = split_path(q);
        if p.last() != '/' {
            let seg = prev.last().push(p.last());
            assert(!seg.contains('/')) by {
                if seg.contains('/') {
                    let i = choose|i: int| 0 <= i < seg.len() && seg[i] == '/';
                    if i < prev.last().len() {
                        assert(prev[prev.len() - 1][i] == '/');
                        assert(prev[prev.len() - 1].contains('/'));
                    }
                }
            }
            assert forall|k: int| 0 <= k < split_path(p).len() implies !(
            #[trigger] split_path(p)[k]).contains('/') by {
                if k < prev.len() - 1 {
                    assert(split_path(p)[k] == prev[k]);
                }
            }
        } else {
            assert forall|k: int| 0 <= k < split_path(p).len() implies !(
            #[trigger] split_path(p)[k]).contains('/') by {
                if k < prev.len() {
                    assert(split_path(p)[k] == prev[k]);
                } else {
                    assert(split_path(p)[k] =~= Seq::<char>::empty());
                }
            }
        }
    }
}

proof fn lemma_walk_normal(shares: Seq<ShareView>, segs: Seq<Seq<char>>)
    requires
        forall|k: int| 0 <= k < segs.len() ==> !(#[trigger] segs[k]).contains('/'),
    ensures
        walk(shares, segs) is Ok && walk(shares, segs)->Ok_0 is Some ==> forall|k: int|
            0 <= k < walk(shares, segs)->Ok_0->Some_0.1.len() ==> normal_component(
                #[trigger] walk(shares, segs)->Ok_0->Some_0.1[k],
            ),
    decreases segs.len(),
{
    if segs.len() > 0 {
        let prefix = segs.drop_last();
        assert forall|k: int| 0 <= k < prefix.len() implies !(#[trigger] prefix[k]).contains('/') by {
            assert(prefix[k] == segs[k]);
        }
        lemma_walk_normal(shares, prefix);
        let seg = segs.last();
        assert(!segs[segs.len() - 1].contains('/'));
        let prev: WalkState = walk(shares, prefix);
        if let Ok(Some((sh, comps))) = prev {
            if !skipped(seg) && !is_parent(seg) {
                let next = comps.push(seg);
                assert forall|k: int| 0 <= k < next.len() implies normal_component(
                    #[trigger] next[k],
                ) by {
                    if k < comps.len() {
                        assert(next[k] == comps[k]);
                    }
                }
            } else if is_parent(seg) && comps.len() > 0 {
                let next = comps.drop_last();
                assert forall|k: int| 0 <= k < next.len() implies normal_component(
                    #[trigger] next[k],
                ) by {
                    assert(next[k] == comps[k]);
                }
            }
        }
    }
}

/// Resolution never leaves a share: a resolved path is the share's root
/// followed by components that each go one level down.
pub proof fn lemma_resolution_stays_inside(shares: Seq<ShareView>, p: Seq<char>)
    ensures
        spec_resolve(shares, p) is Ok && spec_resolve(shares, p)->Ok_0 is Some ==> forall|k: int|
            0 <= k < spec_resolve(shares, p)->Ok_0->Some_0.1.len() ==> normal_component(
                #[trigger] spec_resolve(shares, p)->Ok_0->Some_0.1[k],
            ),
{
    lemma_split_segments_without_separator(p);
    lemma_walk_normal(shares, split_path(p));
}

/// A path that is the name of an enabled share resolves to that share's
/// root, with nothing below it.
pub proof fn lemma_share_name_resolves_to_root(shares: Seq<ShareView>, name: Seq<char>)
    requires
        has_name(shares, name),
        !share_of(shares, name).disabled.user,
        !skipped(name),
        !name.contains('/'),
    ensures
        spec_resolve(shares, name) == Ok::<Option<(ShareView, Seq<Seq<char>>)>, ResolveError>(
            Some((share_of(shares, name), Seq::<Seq<char>>::empty())),
        ),
{
    lemma_split_without_separator(name);
    let segs = seq![name];
    assert(segs.drop_last() =~= Seq::<Seq<char>>::empty());
    assert(walk(shares, Seq::<Seq<char>>::empty()) == Ok::<
        Option<(ShareView, Seq<Seq<char>>)>,
        ResolveError,
    >(None));
    assert(walk(shares, segs) == step(shares, walk(shares, segs.drop_last()), name));
}

/// `..` right below a share's root fails: it would leave the share.
pub proof fn lemma_parent_of_share_root_fails(shares: Seq<ShareView>, name: Seq<char>)
    requires
        has_name(shares, name),
        !share_of(shares, name).disabled.user,
        !skipped(name),
        !name.contains('/'),
    ensures
        spec_resolve(shares, name + seq!['/', '.', '.']) == Err::<
            Option<(ShareView, Seq<Seq<char>>)>,
            ResolveError,
        >(ResolveError::EscapesShare),
{
    lemma_split_without_separator(name);
    let p1 = name + seq!['/'];
    let p2 = name + seq!['/', '.'];
    let p3 = name + seq!['/', '.', '.'];
    assert(p1.drop_last() =~= name);
    assert(p2.drop_last() =~= p1);
    assert(p3.drop_last() =~= p2);
    assert(p1.last() == '/');
    assert(p2.last() == '.');
    assert(p3.last() == '.');
    assert(split_path(p1) =~= seq![name, Seq::<char>::empty()]);
    assert(Seq::<char>::empty().push('.') =~= seq!['.']);
    assert(split_path(p2) =~= seq![name, seq!['.']]);
    assert(seq!['.'].push('.') =~= seq!['.', '.']);
    assert(split_path(p3) =~= seq![name, seq!['.', '.']]);
    let segs = seq![name, seq!['.', '.']];
    assert(segs.drop_last() =~= seq![name]);
    assert(seq![name].drop_last() =~= Seq::<Seq<char>>::empty());
    assert(!skipped(seq!['.', '.']));
    assert(walk(shares, Seq::<Seq<char>>::empty()) == Ok::<
        Option<(ShareView, Seq<Seq<char>>)>,
        ResolveError,
    >(None));
    assert(walk(shares, seq![name]) == step(shares, walk(shares, seq![name].drop_last()), name));
    assert(walk(shares, segs) == step(shares, walk(shares, segs.drop_last()), seq!['.', '.']));
}

proof fn lemma_split_head(name: Seq<char>, rest: Seq<char>)
    requires
        !name.contains('/'),
    ensures
        split_path(name + seq!['/'] + rest).len() >= 2,
        split_path(name + seq!['/'] + rest)[0] == name,
    decreases rest.len(),
{
    let q = name + seq!['/'] + rest;
    if rest.len() == 0 {
        lemma_split_without_separator(name);
        assert(q =~= name + seq!['/']);
        assert(q.drop_last() =~= name);
        assert(q.last() == '/');
    } else {
        lemma_split_head(name, rest.drop_last());
        assert(q.drop_last() =~= name + seq!['/'] + rest.drop_last());
    }
}

proof fn lemma_walk_error_sticks(shares: Seq<ShareView>, segs: Seq<Seq<char>>, k: int)
    requires
        0 <= k <= segs.len(),
        walk(shares, segs.subrange(0, k)) is Err,
    ensures
        walk(shares, segs) == walk(shares, segs.subrange(0, k)),
    decreases segs.len(),
{
    if k == segs.len() {
        assert(segs.subrange(0, k) =~= segs);
    } else {
        let prefix = segs.drop_last();
        assert(prefix.subrange(0, k) =~= segs.subrange(0, k));
        lemma_walk_error_sticks(shares, prefix, k);
    }
}

/// The result of a path whose first segment is `name`, whatever follows.
proof fn lemma_first_segment(shares: Seq<ShareView>, name: Seq<char>, rest: Seq<char>)
    requires
        !name.contains('/'),
        step(shares, Ok(None), name) is Err,
    ensures
        spec_resolve(shares, name + seq!['/'] + rest) == step(shares, Ok(None), name),
{
    let segs = split_path(name + seq!['/'] + rest);
    lemma_split_head(name, rest);
    let first = segs.subrange(0, 1);
    assert(first.drop_last() =~= Seq::<Seq<char>>::empty());
    assert(first.last() == name);
    assert(walk(shares, Seq::<Seq<char>>::empty()) == Ok::<
        Option<(ShareView, Seq<Seq<char>>)>,
        ResolveError,
    >(None));
    assert(walk(shares, first) == step(shares, walk(shares, first.drop_last()), first.last()));
    lemma_walk_error_sticks(shares, segs, 1);
}

/// A path whose first segment names no share fails with `UnknownShare`.
pub proof fn lemma_unknown_share_fails(shares: Seq<ShareView>, name: Seq<char>, rest: Seq<char>)
    requires
        !has_name(shares, name),
        !skipped(name),
        !name.contains('/'),
    ensures
        spec_resolve(shares, name + seq!['/'] + rest) == Err::<
            Option<(ShareView, Seq<Seq<char>>)>,
            ResolveError,
        >(ResolveError::UnknownShare),
{
    lemma_first_segment(shares, name, rest);
}

/// A path whose first segment names a disabled share fails with
/// `DisabledShare`.
pub proof fn lemma_disabled_share_fails(shares: Seq<ShareView>, name: Seq<char>, rest: Seq<char>)
    requires
        has_name(shares, name),
        share_of(shares, name).disabled.user,
        !skipped(name),
        !name.contains('/'),
    ensures
        spec_resolve(shares, name + seq!['/'] + rest) == Err::<
            Option<(ShareView, Seq<Seq<char>>)>,
            ResolveError,
        >(ResolveError::DisabledShare),
{
    lemma_first_segment(shares, name, rest);
}

} // verus!
