//! What the plan of a directory guarantees: carried out once, it leaves
//! nothing to do.

use vstd::prelude::*;
use crate::diff::copy_ops;
use crate::diff::file_of;
use crate::diff::first_match;
use crate::diff::is_stale;
use crate::diff::plan;
use crate::diff::regular;
use crate::diff::remove_ops;
use crate::diff::size_of;
use crate::diff::unmatched;
use crate::diff::without;
use crate::diff::LocalEntry;
use crate::diff::RemoteEntry;
use crate::diff::SyncOp;
use crate::path::is_valid;

verus! {

/// No two entries of a remote listing have the same path.
pub open spec fn distinct_paths(remote: Seq<RemoteEntry>) -> bool {
    forall|a: int, b: int|
        0 <= a < remote.len() && 0 <= b < remote.len() && a != b ==> #[trigger] remote[a].path@
            != #[trigger] remote[b].path@
}

/// Whether the local entry at `i` is a regular file of this path.
pub open spec fn is_file_at(local: Seq<LocalEntry>, i: int, path: Seq<char>) -> bool {
    &&& 0 <= i < local.len()
    &&& file_of(local[i]) matches Some((p, _))
    &&& p@ == path
}

/// No two regular files among the local entries have the same path.
pub open spec fn distinct_files(local: Seq<LocalEntry>) -> bool {
    forall|a: int, b: int, path: Seq<char>|
        #[trigger] is_file_at(local, a, path) && #[trigger] is_file_at(local, b, path) ==> a == b
}

/// Whether one of the first `n` local entries is a regular file of this path.
pub open spec fn claimed(local: Seq<LocalEntry>, n: nat, path: Seq<char>) -> bool {
    exists|i: int| i < n && #[trigger] is_file_at(local, i, path)
}

/// Whether a remote listing has a regular file of this path and size.
pub open spec fn holds(remote: Seq<RemoteEntry>, path: Seq<char>, len: u64) -> bool {
    exists|j: int|
        0 <= j < remote.len() && (#[trigger] remote[j]).path@ == path && size_of(remote[j]) == len
}

/// The remote directory of `listing` is in line with the local entries: the
/// paths on each side are distinct, every local regular file with a valid
/// path is a remote regular file of the same size, and every remote regular
/// file with a valid path is a local regular file.
pub open spec fn converged(local: Seq<LocalEntry>, listing: Seq<RemoteEntry>) -> bool {
    let remote = regular(listing);
    &&& distinct_files(local)
    &&& distinct_paths(remote)
    &&& forall|i: int|
        0 <= i < local.len() ==> (#[trigger] file_of(local[i]) matches Some((p, len)) ==> (
        is_valid(p@) ==> holds(remote, p@, len)))
    &&& forall|j: int|
        0 <= j < remote.len() && is_valid((#[trigger] remote[j]).path@) ==> claimed(
            local,
            local.len(),
            remote[j].path@,
        )
}

/// What `first_match` finds: the first entry of that path at or after
/// `from`.
pub proof fn lemma_first_match(remote: Seq<RemoteEntry>, path: Seq<char>, from: int)
    requires
        0 <= from <= remote.len(),
    ensures
        from <= first_match(remote, path, from) <= remote.len(),
        first_match(remote, path, from) < remote.len() ==> remote[first_match(
            remote,
            path,
            from,
        )].path@ == path,
        forall|k: int|
            from <= k < first_match(remote, path, from) ==> (#[trigger] remote[k]).path@ != path,
    decreases remote.len() - from,
{
    if from < remote.len() && remote[from].path@ != path {
        lemma_first_match(remote, path, from + 1);
    }
}

/// Taking an entry out of a listing with distinct paths leaves the entries of
/// the other paths, and their paths are distinct.
pub proof fn lemma_without(remote: Seq<RemoteEntry>, i: int)
    requires
        0 <= i < remote.len(),
        distinct_paths(remote),
    ensures
        distinct_paths(without(remote, i)),
        forall|e: RemoteEntry| #[trigger]
            without(remote, i).contains(e) <==> remote.contains(e) && e.path@ != remote[i].path@,
{
    let w = without(remote, i);
    let last = remote.len() - 1;
    assert forall|a: int, b: int| 0 <= a < w.len() && 0 <= b < w.len() && a != b implies w[a].path@
        != w[b].path@ by {
        let a0 = if a == i {
            last
        } else {
            a
        };
        let b0 = if b == i {
            last
        } else {
            b
        };
        assert(w[a] == remote[a0] && w[b] == remote[b0]);
    }
    assert forall|e: RemoteEntry| #[trigger] w.contains(e) <==> remote.contains(e) && e.path@
        != remote[i].path@ by {
        if w.contains(e) {
            let k = choose|k: int| 0 <= k < w.len() && w[k] == e;
            let k0 = if k == i {
                last
            } else {
                k
            };
            assert(remote[k0] == e);
        }
        if remote.contains(e) && e.path@ != remote[i].path@ {
            let k = choose|k: int| 0 <= k < remote.len() && remote[k] == e;
            if k == last {
                assert(w[i] == e);
            } else {
                assert(w[k] == e);
            }
        }
    }
}

/// With distinct remote paths, what the first `n` local entries leave
/// unclaimed are the remote entries whose path none of them has, and their
/// paths are distinct.
pub proof fn lemma_unmatched(local: Seq<LocalEntry>, remote: Seq<RemoteEntry>, n: nat)
    requires
        n <= local.len(),
        distinct_paths(remote),
    ensures
        distinct_paths(unmatched(local, remote, n)),
        forall|e: RemoteEntry| #[trigger]
            unmatched(local, remote, n).contains(e) <==> remote.contains(e) && !claimed(
                local,
                n,
                e.path@,
            ),
    decreases n,
{
    let now = unmatched(local, remote, n);
    if n == 0 {
        assert forall|e: RemoteEntry| #[trigger] now.contains(e) <==> remote.contains(e)
            && !claimed(local, n, e.path@) by {}
    } else {
        let m = (n - 1) as nat;
        let rest = unmatched(local, remote, m);
        lemma_unmatched(local, remote, m);
        match file_of(local[n - 1]) {
            Some((p, len)) => {
                let k = first_match(rest, p@, 0);
                lemma_first_match(rest, p@, 0);
                assert(is_file_at(local, n - 1, p@));
                if k < rest.len() {
                    lemma_without(rest, k);
                }
                assert forall|e: RemoteEntry| #[trigger] now.contains(e) <==> remote.contains(e)
                    && !claimed(local, n, e.path@) by {
                    if claimed(local, m, e.path@) {
                        let i = choose|i: int| i < m && #[trigger] is_file_at(local, i, e.path@);
                        assert(i < n && is_file_at(local, i, e.path@));
                    }
                    if claimed(local, n, e.path@) && !claimed(local, m, e.path@) {
                        let i = choose|i: int| i < n && #[trigger] is_file_at(local, i, e.path@);
                        assert(i == n - 1);
                        assert(e.path@ == p@);
                    }
                    if rest.contains(e) && k == rest.len() {
                        let j = choose|j: int| 0 <= j < rest.len() && rest[j] == e;
                        assert(rest[j].path@ != p@);
                    }
                }
            },
            None => {
                assert forall|e: RemoteEntry| #[trigger] now.contains(e) <==> remote.contains(e)
                    && !claimed(local, n, e.path@) by {
                    if claimed(local, m, e.path@) {
                        let i = choose|i: int| i < m && #[trigger] is_file_at(local, i, e.path@);
                        assert(i < n && is_file_at(local, i, e.path@));
                    }
                    if claimed(local, n, e.path@) {
                        let i = choose|i: int| i < n && #[trigger] is_file_at(local, i, e.path@);
                        assert(i < m);
                    }
                }
            },
        }
    }
}

/// Where the remote directory is in line with the local entries, none of the
/// first `n` of them calls for a copy.
pub proof fn lemma_converged_copies_nothing(
    local: Seq<LocalEntry>,
    listing: Seq<RemoteEntry>,
    n: nat,
)
    requires
        n <= local.len(),
        converged(local, listing),
    ensures
        copy_ops(local, regular(listing), n) == Seq::<SyncOp>::empty(),
    decreases n,
{
    if n > 0 {
        let m = (n - 1) as nat;
        let remote = regular(listing);
        lemma_converged_copies_nothing(local, listing, m);
        match file_of(local[n - 1]) {
            Some((p, len)) => {
                if is_valid(p@) {
                    let rest = unmatched(local, remote, m);
                    lemma_unmatched(local, remote, m);
                    lemma_first_match(rest, p@, 0);
                    assert(holds(remote, p@, len));
                    let j = choose|j: int|
                        0 <= j < remote.len() && (#[trigger] remote[j]).path@ == p@ && size_of(
                            remote[j],
                        ) == len;
                    assert(is_file_at(local, n - 1, p@));
                    if claimed(local, m, p@) {
                        let i = choose|i: int| i < m && #[trigger] is_file_at(local, i, p@);
                        assert(i == n - 1);
                    }
                    assert(remote.contains(remote[j]));
                    assert(rest.contains(remote[j]));
                    let r = choose|r: int| 0 <= r < rest.len() && rest[r] == remote[j];
                    let k = first_match(rest, p@, 0);
                    assert(k <= r);
                    assert(rest.contains(rest[k]));
                    assert(remote.contains(rest[k]));
                    let j2 = choose|j2: int| 0 <= j2 < remote.len() && remote[j2] == rest[k];
                    assert(j2 == j);
                    assert(!is_stale(rest, p@, len));
                }
            },
            None => {},
        }
    }
}

/// Idempotence: where the remote directory is in line with the local entries,
/// the plan is empty: nothing is copied and nothing is removed.
pub proof fn lemma_converged_plan_is_empty(local: Seq<LocalEntry>, listing: Seq<RemoteEntry>)
    requires
        converged(local, listing),
    ensures
        plan(local, listing) == Seq::<SyncOp>::empty(),
{
    let remote = regular(listing);
    let rest = unmatched(local, remote, local.len());
    let keep = |e: RemoteEntry| is_valid(e.path@);
    lemma_converged_copies_nothing(local, listing, local.len());
    lemma_unmatched(local, remote, local.len());
    let kept = rest.filter(keep);
    if kept.len() > 0 {
        let e = kept[0];
        rest.lemma_filter_pred(keep, 0);
        assert(kept.contains(e));
        rest.lemma_filter_contains_rev(keep, e);
        assert(remote.contains(e));
        let j = choose|j: int| 0 <= j < remote.len() && remote[j] == e;
        assert(is_valid(remote[j].path@));
        assert(claimed(local, local.len(), e.path@));
    }
    assert(remove_ops(rest) =~= Seq::<SyncOp>::empty());
    assert(plan(local, listing) =~= Seq::<SyncOp>::empty());
}

/// Whether the plan asks for a copy of this path.
pub open spec fn asks_copy(ops: Seq<SyncOp>, path: Seq<char>) -> bool {
    exists|k: int| 0 <= k < ops.len() && (#[trigger] ops[k] matches SyncOp::Copy(p) && p@ == path)
}

/// Whether the plan asks for the removal of this path.
pub open spec fn asks_remove(ops: Seq<SyncOp>, path: Seq<char>) -> bool {
    exists|k: int|
        0 <= k < ops.len() && (#[trigger] ops[k] matches SyncOp::Remove(p) && p@ == path)
}

/// Whether the local entry at `j` is copied: a regular file with a valid
/// path that is stale when its turn comes.
pub open spec fn is_copied_at(local: Seq<LocalEntry>, remote: Seq<RemoteEntry>, j: int) -> bool {
    &&& 0 <= j < local.len()
    &&& file_of(local[j]) matches Some((p, len))
    &&& is_valid(p@)
    &&& is_stale(unmatched(local, remote, j as nat), p@, len)
}

/// The copies of a plan are those of the local entries that are copied, and
/// a plan's copies hold no removal.
pub proof fn lemma_copy_ops(local: Seq<LocalEntry>, remote: Seq<RemoteEntry>, n: nat, path: Seq<char>)
    requires
        n <= local.len(),
    ensures
        asks_copy(copy_ops(local, remote, n), path) <==> exists|j: int|
            0 <= j < n && #[trigger] is_copied_at(local, remote, j) && is_file_at(local, j, path),
        !asks_remove(copy_ops(local, remote, n), path),
    decreases n,
{
    let ops = copy_ops(local, remote, n);
    if n > 0 {
        let m = (n - 1) as nat;
        let before = copy_ops(local, remote, m);
        lemma_copy_ops(local, remote, m, path);
        if asks_copy(before, path) {
            let j = choose|j: int|
                0 <= j < m && #[trigger] is_copied_at(local, remote, j) && is_file_at(
                    local,
                    j,
                    path,
                );
            assert(0 <= j < n && is_copied_at(local, remote, j) && is_file_at(local, j, path));
            let k = choose|k: int|
                0 <= k < before.len() && (#[trigger] before[k] matches SyncOp::Copy(p) && p@
                    == path);
            assert(ops[k] == before[k]);
        }
        if is_copied_at(local, remote, n - 1) && is_file_at(local, n - 1, path) {
            assert(ops[before.len() as int] matches SyncOp::Copy(p) && p@ == path);
        }
        if asks_copy(ops, path) && !asks_copy(before, path) {
            let k = choose|k: int|
                0 <= k < ops.len() && (#[trigger] ops[k] matches SyncOp::Copy(p) && p@ == path);
            if k < before.len() {
                assert(before[k] == ops[k]);
            }
            assert(is_copied_at(local, remote, n - 1) && is_file_at(local, n - 1, path));
        }
        if exists|j: int|
            0 <= j < n && #[trigger] is_copied_at(local, remote, j) && is_file_at(local, j, path) {
            let j = choose|j: int|
                0 <= j < n && #[trigger] is_copied_at(local, remote, j) && is_file_at(
                    local,
                    j,
                    path,
                );
            if j < m {
                assert(asks_copy(before, path));
            }
        }
        if asks_remove(ops, path) {
            let k = choose|k: int|
                0 <= k < ops.len() && (#[trigger] ops[k] matches SyncOp::Remove(p) && p@ == path);
            if k < before.len() {
                assert(before[k] == ops[k]);
            }
        }
    }
}

/// The removals of a plan are those of the unclaimed remote entries with a
/// valid path, and a plan's removals hold no copy.
pub proof fn lemma_remove_ops(rest: Seq<RemoteEntry>, path: Seq<char>)
    ensures
        asks_remove(remove_ops(rest), path) <==> exists|e: RemoteEntry| #[trigger]
            rest.contains(e) && is_valid(e.path@) && e.path@ == path,
        !asks_copy(remove_ops(rest), path),
{
    let keep = |e: RemoteEntry| is_valid(e.path@);
    let kept = rest.filter(keep);
    let ops = remove_ops(rest);
    if asks_remove(ops, path) {
        let k = choose|k: int|
            0 <= k < ops.len() && (#[trigger] ops[k] matches SyncOp::Remove(p) && p@ == path);
        let e = kept[k];
        rest.lemma_filter_pred(keep, k);
        assert(kept.contains(e));
        rest.lemma_filter_contains_rev(keep, e);
        assert(rest.contains(e) && is_valid(e.path@) && e.path@ == path);
    }
    if exists|e: RemoteEntry| #[trigger] rest.contains(e) && is_valid(e.path@) && e.path@ == path {
        let e = choose|e: RemoteEntry| #[trigger]
            rest.contains(e) && is_valid(e.path@) && e.path@ == path;
        let i = choose|i: int| 0 <= i < rest.len() && rest[i] == e;
        rest.lemma_filter_contains(keep, i);
        let k = choose|k: int| 0 <= k < kept.len() && kept[k] == e;
        assert(ops[k] matches SyncOp::Remove(p) && p@ == path);
    }
}

/// What a plan asks for is what its copies and its removals ask for.
pub proof fn lemma_plan_asks(local: Seq<LocalEntry>, listing: Seq<RemoteEntry>, path: Seq<char>)
    ensures
        asks_copy(plan(local, listing), path) <==> asks_copy(
            copy_ops(local, regular(listing), local.len()),
            path,
        ),
        asks_remove(plan(local, listing), path) <==> asks_remove(
            remove_ops(unmatched(local, regular(listing), local.len())),
            path,
        ),
{
    let remote = regular(listing);
    let copies = copy_ops(local, remote, local.len());
    let removals = remove_ops(unmatched(local, remote, local.len()));
    let ops = plan(local, listing);
    lemma_copy_ops(local, remote, local.len(), path);
    lemma_remove_ops(unmatched(local, remote, local.len()), path);
    if asks_copy(ops, path) {
        let k = choose|k: int|
            0 <= k < ops.len() && (#[trigger] ops[k] matches SyncOp::Copy(p) && p@ == path);
        if k < copies.len() {
            assert(copies[k] == ops[k]);
        } else {
            assert(removals[k - copies.len()] == ops[k]);
        }
    }
    if asks_copy(copies, path) {
        let k = choose|k: int|
            0 <= k < copies.len() && (#[trigger] copies[k] matches SyncOp::Copy(p) && p@ == path);
        assert(ops[k] == copies[k]);
    }
    if asks_remove(ops, path) {
        let k = choose|k: int|
            0 <= k < ops.len() && (#[trigger] ops[k] matches SyncOp::Remove(p) && p@ == path);
        if k < copies.len() {
            assert(copies[k] == ops[k]);
        } else {
            assert(removals[k - copies.len()] == ops[k]);
        }
    }
    if asks_remove(removals, path) {
        let k = choose|k: int|
            0 <= k < removals.len() && (#[trigger] removals[k] matches SyncOp::Remove(p) && p@
                == path);
        assert(ops[copies.len() + k] == removals[k]);
    }
}

/// Whether `after` lists the remote directory that `before` listed once
/// `ops` were carried out: no path is there twice; a file that was copied is
/// there with the length of the local file; a file that was removed is gone;
/// a file that no step touched is there as it was; and nothing else is
/// there.
pub open spec fn carried_out(
    local: Seq<LocalEntry>,
    before: Seq<RemoteEntry>,
    ops: Seq<SyncOp>,
    after: Seq<RemoteEntry>,
) -> bool {
    &&& distinct_paths(regular(after))
    &&& forall|i: int|
        0 <= i < local.len() ==> (#[trigger] file_of(local[i]) matches Some((p, len)) ==> (
        asks_copy(ops, p@) ==> holds(regular(after), p@, len)))
    &&& forall|e: RemoteEntry| #[trigger]
        regular(after).contains(e) ==> !asks_remove(ops, e.path@)
    &&& forall|e: RemoteEntry| #[trigger]
        regular(before).contains(e) && !asks_copy(ops, e.path@) && !asks_remove(ops, e.path@)
            ==> regular(after).contains(e)
    &&& forall|e: RemoteEntry| #[trigger]
        regular(after).contains(e) ==> regular(before).contains(e) || asks_copy(ops, e.path@)
}

/// Convergence: once the plan of a directory was carried out, the remote
/// directory is in line with the local entries, provided that no two local
/// files and no two remote files had the same path.
pub proof fn lemma_pass_converges(
    local: Seq<LocalEntry>,
    before: Seq<RemoteEntry>,
    after: Seq<RemoteEntry>,
)
    requires
        distinct_files(local),
        distinct_paths(regular(before)),
        carried_out(local, before, plan(local, before), after),
    ensures
        converged(local, after),
{
    let remote = regular(before);
    let now = regular(after);
    let ops = plan(local, before);
    let rest = unmatched(local, remote, local.len());
    lemma_unmatched(local, remote, local.len());
    assert forall|i: int| 0 <= i < local.len() implies (#[trigger] file_of(local[i]) matches Some(
        (p, len),
    ) ==> (is_valid(p@) ==> holds(now, p@, len))) by {
        match file_of(local[i]) {
            Some((p, len)) => {
                if is_valid(p@) {
                    lemma_plan_asks(local, before, p@);
                    lemma_copy_ops(local, remote, local.len(), p@);
                    lemma_remove_ops(rest, p@);
                    assert(is_file_at(local, i, p@));
                    if is_copied_at(local, remote, i) {
                        assert(asks_copy(ops, p@));
                    } else {
                        let open = unmatched(local, remote, i as nat);
                        lemma_unmatched(local, remote, i as nat);
                        lemma_first_match(open, p@, 0);
                        let k = first_match(open, p@, 0);
                        let e = open[k];
                        assert(open.contains(e));
                        assert(remote.contains(e));
                        if asks_copy(ops, p@) {
                            let j = choose|j: int|
                                0 <= j < local.len() && #[trigger] is_copied_at(local, remote, j)
                                    && is_file_at(local, j, p@);
                            assert(j == i);
                        }
                        if asks_remove(ops, p@) {
                            let gone = choose|gone: RemoteEntry| #[trigger]
                                rest.contains(gone) && is_valid(gone.path@) && gone.path@ == p@;
                            assert(claimed(local, local.len(), p@));
                        }
                        assert(now.contains(e));
                        let r = choose|r: int| 0 <= r < now.len() && now[r] == e;
                        assert(now[r].path@ == p@ && size_of(now[r]) == len);
                    }
                }
            },
            None => {},
        }
    }
    assert forall|j: int| 0 <= j < now.len() && is_valid((#[trigger] now[j]).path@) implies claimed(
        local,
        local.len(),
        now[j].path@,
    ) by {
        let e = now[j];
        let path = e.path@;
        assert(now.contains(e));
        lemma_plan_asks(local, before, path);
        lemma_copy_ops(local, remote, local.len(), path);
        lemma_remove_ops(rest, path);
        if asks_copy(ops, path) {
            let i = choose|i: int|
                0 <= i < local.len() && #[trigger] is_copied_at(local, remote, i) && is_file_at(
                    local,
                    i,
                    path,
                );
            assert(i < local.len() && is_file_at(local, i, path));
        } else {
            assert(remote.contains(e));
            if !claimed(local, local.len(), path) {
                assert(rest.contains(e));
                assert(asks_remove(ops, path));
            }
        }
    }
}

/// Idempotence of a pass: once the plan of a directory was carried out, the
/// plan of the same local entries against what the remote side now lists is
/// empty. It holds where no two local files and no two remote files had
/// the same path.
pub proof fn lemma_second_pass_is_empty(
    local: Seq<LocalEntry>,
    before: Seq<RemoteEntry>,
    after: Seq<RemoteEntry>,
)
    requires
        distinct_files(local),
        distinct_paths(regular(before)),
        carried_out(local, before, plan(local, before), after),
    ensures
        plan(local, after) == Seq::<SyncOp>::empty(),
{
    lemma_pass_converges(local, before, after);
    lemma_converged_plan_is_empty(local, after);
}

/// The path of the local entry at `i`, where it is a regular file.
pub open spec fn path_at(local: Seq<LocalEntry>, i: int) -> Seq<char> {
    match file_of(local[i]) {
        Some((path, _)) => path@,
        None => Seq::empty(),
    }
}

/// The length of the local entry at `i`, where it is a regular file.
pub open spec fn len_at(local: Seq<LocalEntry>, i: int) -> u64 {
    match file_of(local[i]) {
        Some((_, len)) => len,
        None => 0,
    }
}

/// Whether a regular file of this path and length is among the local entries.
pub open spec fn has_file(local: Seq<LocalEntry>, path: Seq<char>, len: u64) -> bool {
    exists|i: int| #[trigger] is_file_at(local, i, path) && len_at(local, i) == len
}

/// Whether a remote listing has an entry of this path.
pub open spec fn names(remote: Seq<RemoteEntry>, path: Seq<char>) -> bool {
    exists|j: int| 0 <= j < remote.len() && (#[trigger] remote[j]).path@ == path
}

/// With distinct paths on both sides, a local file is stale when its turn
/// comes exactly if the remote listing has no regular file of its path and
/// length.
pub proof fn lemma_stale_is_mismatch(local: Seq<LocalEntry>, remote: Seq<RemoteEntry>, i: int)
    requires
        0 <= i < local.len(),
        distinct_files(local),
        distinct_paths(remote),
        file_of(local[i]) is Some,
    ensures
        is_stale(
            unmatched(local, remote, i as nat),
            path_at(local, i),
            len_at(local, i),
        ) <==> !holds(remote, path_at(local, i), len_at(local, i)),
{
    let p = path_at(local, i);
    let len = len_at(local, i);
    let open = unmatched(local, remote, i as nat);
    let k = first_match(open, p, 0);
    lemma_unmatched(local, remote, i as nat);
    lemma_first_match(open, p, 0);
    assert(is_file_at(local, i, p));
    if claimed(local, i as nat, p) {
        let earlier = choose|earlier: int| earlier < i && #[trigger] is_file_at(local, earlier, p);
        assert(earlier == i);
    }
    if holds(remote, p, len) {
        let j = choose|j: int|
            0 <= j < remote.len() && (#[trigger] remote[j]).path@ == p && size_of(remote[j])
                == len;
        assert(remote.contains(remote[j]));
        assert(open.contains(remote[j]));
        let r = choose|r: int| 0 <= r < open.len() && open[r] == remote[j];
        assert(k <= r);
        assert(open.contains(open[k]));
        assert(remote.contains(open[k]));
        let j2 = choose|j2: int| 0 <= j2 < remote.len() && remote[j2] == open[k];
        assert(j2 == j);
    }
    if !is_stale(open, p, len) {
        assert(open.contains(open[k]));
        assert(remote.contains(open[k]));
        let j = choose|j: int| 0 <= j < remote.len() && remote[j] == open[k];
        assert(remote[j].path@ == p && size_of(remote[j]) == len);
    }
}

/// The plan is the difference of the two sides: with distinct paths on both,
/// a path is copied exactly if it is valid and a local regular file of it has
/// no remote regular file of the same length, and it is removed exactly if
/// it is valid and a remote regular file of it has no local regular file.
pub proof fn lemma_plan_is_the_difference(
    local: Seq<LocalEntry>,
    listing: Seq<RemoteEntry>,
    path: Seq<char>,
)
    requires
        distinct_files(local),
        distinct_paths(regular(listing)),
    ensures
        asks_copy(plan(local, listing), path) <==> is_valid(path) && exists|len: u64| #[trigger]
            has_file(local, path, len) && !holds(regular(listing), path, len),
        asks_remove(plan(local, listing), path) <==> is_valid(path) && names(
            regular(listing),
            path,
        ) && !claimed(local, local.len(), path),
{
    let remote = regular(listing);
    let rest = unmatched(local, remote, local.len());
    lemma_plan_asks(local, listing, path);
    lemma_copy_ops(local, remote, local.len(), path);
    lemma_remove_ops(rest, path);
    lemma_unmatched(local, remote, local.len());
    if asks_copy(plan(local, listing), path) {
        let j = choose|j: int|
            0 <= j < local.len() && #[trigger] is_copied_at(local, remote, j) && is_file_at(
                local,
                j,
                path,
            );
        let len = len_at(local, j);
        lemma_stale_is_mismatch(local, remote, j);
        assert(has_file(local, path, len) && !holds(remote, path, len));
    }
    if is_valid(path) && exists|len: u64| #[trigger]
        has_file(local, path, len) && !holds(remote, path, len) {
        let len = choose|len: u64| #[trigger]
            has_file(local, path, len) && !holds(remote, path, len);
        let i = choose|i: int| #[trigger]
            is_file_at(local, i, path) && len_at(local, i) == len;
        lemma_stale_is_mismatch(local, remote, i);
        assert(is_copied_at(local, remote, i));
    }
    if asks_remove(plan(local, listing), path) {
        let e = choose|e: RemoteEntry| #[trigger]
            rest.contains(e) && is_valid(e.path@) && e.path@ == path;
        assert(remote.contains(e));
        let j = choose|j: int| 0 <= j < remote.len() && remote[j] == e;
        assert(remote[j].path@ == path);
    }
    if is_valid(path) && names(remote, path) && !claimed(local, local.len(), path) {
        let j = choose|j: int| 0 <= j < remote.len() && (#[trigger] remote[j]).path@ == path;
        assert(remote.contains(remote[j]));
        assert(rest.contains(remote[j]));
    }
}

} // verus!
