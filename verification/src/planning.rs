//! What a history plan reports, held against what was asked and told.
use crate::command::Command;
use crate::dialogue::{answered, carries, output_at, performed, request, said};
use crate::extent::{
    agree, branch_reads, containment_extent, containment_reads, dirtiness_reads, history_reads,
    merge_base_reads, plan_upstream_reads, remote_refs_extent, remote_refs_reads,
};
use crate::flow::{FlowView, Reply};
use crate::history::{
    blocking_reasons, branch_history_flow, has_merge, history_plan_flow, insert_all, logged_history,
    plan_upstream_flow, published_refs_flow, reason_if, HistoryCommitView, HistoryPlanView,
};
use crate::queries::{
    current_branch_flow, is_dirty_flow, listing, merge_base_flow, on_upstream_flow,
    remote_refs_flow,
};
use crate::rewrite::unpublished_suffix_flow;
use crate::text::{ascending, insert_sorted, law_insert_sorted, Text};
use vstd::prelude::*;

verus! {

// ---------------------------------------------------------------------------
// Where commits are published
// ---------------------------------------------------------------------------
/// Where the questions about the `i`th commit start, if those about the first
/// start at `n`.
pub open spec fn lookup_at(n: int, upstream: Option<Text>, i: int) -> int {
    if upstream is Some {
        n + 4 * i
    } else {
        n + 3 * i
    }
}

/// From position `q` on the operation asked which remote-tracking references
/// contain the commit that `sha` names, and whether the upstream does.
pub open spec fn looked_up<T>(
    operation: spec_fn(Seq<Reply>) -> FlowView<T>,
    t: Seq<Reply>,
    q: int,
    repo: Text,
    sha: Text,
    upstream: Option<Text>,
) -> bool {
    &&& performed(operation, t, q + 1, repo, Command::ResolveCommit { revision: sha })
    &&& performed(
        operation,
        t,
        q + 2,
        repo,
        Command::RemoteRefsContaining { commit: said(t, q + 1) },
    )
    &&& !output_at(t, q + 2).truncated
    &&& upstream matches Some(reference) ==> {
        &&& answered(
            operation,
            t,
            q + 3,
            repo,
            Command::IsAncestor { ancestor: sha, descendant: reference },
        )
        &&& output_at(t, q + 3).exit_code == Some(0i32) || output_at(t, q + 3).exit_code == Some(
            1i32,
        )
    }
}

/// The replies from position `q` on name a reference that contains the commit
/// in question.
pub open spec fn names_reference(
    t: Seq<Reply>,
    q: int,
    upstream: Option<Text>,
    name: Text,
) -> bool {
    ||| listing(output_at(t, q + 2).stdout).contains(name)
    ||| upstream == Some(name) && output_at(t, q + 3).exit_code == Some(0i32)
}

/// Looking up the commits from `i` on, as a part of an operation.
pub open spec fn lookup(
    repo: Text,
    commits: Seq<HistoryCommitView>,
    upstream: Option<Text>,
    i: int,
    found: Seq<Text>,
    n: int,
) -> spec_fn(Seq<Reply>) -> FlowView<Seq<Text>> {
    |t: Seq<Reply>| published_refs_flow(repo, commits, upstream, i, found, t, n)
}

#[verifier::rlimit(40)]
proof fn lemma_insert_all_adds(found: Seq<Text>, more: Seq<Text>, i: int)
    requires
        ascending(found),
        0 <= i <= more.len(),
    ensures
        ascending(insert_all(found, more, i)),
        forall|name: Text| #[trigger]
            insert_all(found, more, i).contains(name) <==> found.contains(name) || exists|k: int|
                i <= k < more.len() && more[k] == name,
    decreases more.len() - i,
{
    if i < more.len() {
        law_insert_sorted(found, more[i]);
        lemma_insert_all_adds(insert_sorted(found, more[i]), more, i + 1);
    }
}

/// Looking up one commit takes as many replies as `lookup_at` says.
#[verifier::rlimit(40)]
proof fn lemma_looked_up(
    repo: Text,
    commits: Seq<HistoryCommitView>,
    upstream: Option<Text>,
    i: int,
    found: Seq<Text>,
    t: Seq<Reply>,
    n: int,
)
    requires
        0 <= n <= t.len(),
        0 <= i < commits.len(),
        published_refs_flow(repo, commits, upstream, i, found, t, n) is Got,
    ensures
        looked_up(
            lookup(repo, commits, upstream, i, found, n),
            t,
            n,
            repo,
            commits[i].sha,
            upstream,
        ),
        remote_refs_flow(repo, commits[i].sha, t, n) == FlowView::Got(
            listing(output_at(t, n + 2).stdout),
            n + 3,
        ),
        on_upstream_flow(repo, commits[i].sha, upstream, t, n + 3) == FlowView::Got(
            upstream is Some && output_at(t, n + 3).exit_code == Some(0i32),
            lookup_at(n, upstream, 1),
        ),
{
    broadcast use {remote_refs_reads, remote_refs_extent};

    let op = lookup(repo, commits, upstream, i, found, n);
    assert(op(t.take(n + 1)) == published_refs_flow(
        repo,
        commits,
        upstream,
        i,
        found,
        t.take(n + 1),
        n,
    ));
    assert(op(t.take(n + 2)) == published_refs_flow(
        repo,
        commits,
        upstream,
        i,
        found,
        t.take(n + 2),
        n,
    ));
    if upstream is Some {
        let s = t.take(n + 3);
        assert(agree(t, s, n + 3));
        assert(remote_refs_flow(repo, commits[i].sha, s, n) == remote_refs_flow(
            repo,
            commits[i].sha,
            t,
            n,
        ));
        assert(op(s) == published_refs_flow(repo, commits, upstream, i, found, s, n));
    }
}

/// Once a commit has been looked up, the questions about the next ones follow.
#[verifier::rlimit(40)]
proof fn lemma_lookup_goes_on(
    repo: Text,
    commits: Seq<HistoryCommitView>,
    upstream: Option<Text>,
    i: int,
    found: Seq<Text>,
    more: Seq<Text>,
    t: Seq<Reply>,
    n: int,
)
    requires
        0 <= n <= t.len(),
        0 <= i < commits.len(),
        published_refs_flow(repo, commits, upstream, i, found, t, n) is Got,
        more == if upstream is Some && output_at(t, n + 3).exit_code == Some(0i32) {
            insert_sorted(
                insert_all(found, listing(output_at(t, n + 2).stdout), 0),
                upstream->0,
            )
        } else {
            insert_all(found, listing(output_at(t, n + 2).stdout), 0)
        },
    ensures
        carries(
            lookup(repo, commits, upstream, i, found, n),
            lookup(repo, commits, upstream, i + 1, more, lookup_at(n, upstream, 1)),
            t,
            lookup_at(n, upstream, 1),
        ),
        published_refs_flow(repo, commits, upstream, i, found, t, n) == published_refs_flow(
            repo,
            commits,
            upstream,
            i + 1,
            more,
            t,
            lookup_at(n, upstream, 1),
        ),
{
    broadcast use {remote_refs_reads, remote_refs_extent, containment_reads, containment_extent};

    lemma_looked_up(repo, commits, upstream, i, found, t, n);
    let m = lookup_at(n, upstream, 1);
    let outer = lookup(repo, commits, upstream, i, found, n);
    let inner = lookup(repo, commits, upstream, i + 1, more, m);
    assert forall|p: int|
        m <= p <= t.len() && request(inner(#[trigger] t.take(p))) is Some implies request(
        outer(t.take(p)),
    ) == request(inner(t.take(p))) by {
        let s = t.take(p);
        assert(agree(t, s, n + 3) && agree(t, s, m));
        assert(remote_refs_flow(repo, commits[i].sha, s, n) == remote_refs_flow(
            repo,
            commits[i].sha,
            t,
            n,
        ));
        assert(on_upstream_flow(repo, commits[i].sha, upstream, s, n + 3) == on_upstream_flow(
            repo,
            commits[i].sha,
            upstream,
            t,
            n + 3,
        ));
        assert(outer(s) == published_refs_flow(repo, commits, upstream, i, found, s, n));
        assert(inner(s) == published_refs_flow(repo, commits, upstream, i + 1, more, s, m));
    }
}

/// The references that are gathered are those that were found before, and
/// exactly those that the replies name for one of the commits from `i` on. Every
/// one of these commits was looked up.
#[verifier::rlimit(40)]
proof fn lemma_lookup(
    repo: Text,
    commits: Seq<HistoryCommitView>,
    upstream: Option<Text>,
    i: int,
    found: Seq<Text>,
    t: Seq<Reply>,
    n: int,
)
    requires
        0 <= n <= t.len(),
        0 <= i <= commits.len(),
        ascending(found),
        published_refs_flow(repo, commits, upstream, i, found, t, n) is Got,
    ensures
        published_refs_flow(repo, commits, upstream, i, found, t, n) matches FlowView::Got(refs, m)
            && m == lookup_at(n, upstream, commits.len() - i) && ascending(refs) && forall|
            name: Text,
        | #[trigger]
            refs.contains(name) <==> found.contains(name) || exists|j: int|
                i <= j < commits.len() && #[trigger] names_reference(
                    t,
                    lookup_at(n, upstream, j - i),
                    upstream,
                    name,
                ),
        forall|j: int|
            i <= j < commits.len() ==> looked_up(
                lookup(repo, commits, upstream, i, found, n),
                t,
                lookup_at(n, upstream, j - i),
                repo,
                (#[trigger] commits[j]).sha,
                upstream,
            ),
    decreases commits.len() - i,
{
    if i < commits.len() {
        let listed = listing(output_at(t, n + 2).stdout);
        let contained = upstream is Some && output_at(t, n + 3).exit_code == Some(0i32);
        let some = insert_all(found, listed, 0);
        let more = if contained {
            insert_sorted(some, upstream->0)
        } else {
            some
        };
        let m = lookup_at(n, upstream, 1);
        let outer = lookup(repo, commits, upstream, i, found, n);
        let inner = lookup(repo, commits, upstream, i + 1, more, m);
        lemma_insert_all_adds(found, listed, 0);
        if upstream is Some {
            law_insert_sorted(some, upstream->0);
        }
        lemma_looked_up(repo, commits, upstream, i, found, t, n);
        lemma_lookup_goes_on(repo, commits, upstream, i, found, more, t, n);
        assert(m <= t.len());
        lemma_lookup(repo, commits, upstream, i + 1, more, t, m);
        let refs = published_refs_flow(repo, commits, upstream, i, found, t, n)->Got_0;
        assert forall|name: Text| #[trigger]
            refs.contains(name) <==> found.contains(name) || exists|j: int|
                i <= j < commits.len() && #[trigger] names_reference(
                    t,
                    lookup_at(n, upstream, j - i),
                    upstream,
                    name,
                ) by {
            assert(more.contains(name) <==> found.contains(name) || names_reference(
                t,
                lookup_at(n, upstream, i - i),
                upstream,
                name,
            ));
            assert forall|j: int| i + 1 <= j < commits.len() implies lookup_at(
                m,
                upstream,
                j - (i + 1),
            ) == #[trigger] lookup_at(n, upstream, j - i) by {}
            if refs.contains(name) && !more.contains(name) {
                let j = choose|j: int|
                    i + 1 <= j < commits.len() && #[trigger] names_reference(
                        t,
                        lookup_at(m, upstream, j - (i + 1)),
                        upstream,
                        name,
                    );
                assert(names_reference(t, lookup_at(n, upstream, j - i), upstream, name));
            }
            if exists|j: int|
                i <= j < commits.len() && #[trigger] names_reference(
                    t,
                    lookup_at(n, upstream, j - i),
                    upstream,
                    name,
                ) {
                let j = choose|j: int|
                    i <= j < commits.len() && #[trigger] names_reference(
                        t,
                        lookup_at(n, upstream, j - i),
                        upstream,
                        name,
                    );
                if j > i {
                    assert(names_reference(
                        t,
                        lookup_at(m, upstream, j - (i + 1)),
                        upstream,
                        name,
                    ));
                }
            }
        }
        assert forall|j: int| i <= j < commits.len() implies looked_up(
            outer,
            t,
            lookup_at(n, upstream, j - i),
            repo,
            (#[trigger] commits[j]).sha,
            upstream,
        ) by {
            if j > i {
                assert(looked_up(
                    inner,
                    t,
                    lookup_at(m, upstream, j - (i + 1)),
                    repo,
                    commits[j].sha,
                    upstream,
                ));
            }
        }
    }
}

// ---------------------------------------------------------------------------
// Plans
// ---------------------------------------------------------------------------
/// Planning, as a part of an operation.
pub open spec fn planning(repo: Text, base: Text, n: int) -> spec_fn(Seq<Reply>) -> FlowView<
    HistoryPlanView,
> {
    |t: Seq<Reply>| history_plan_flow(repo, base, t, n)
}

/// Where the commits of a plan are looked up that starts at position `n`.
pub open spec fn lookups_at(n: int, plan: HistoryPlanView) -> int {
    if plan.detached_head {
        n + 6
    } else {
        n + 7
    }
}

/// A plan that starts at position `n` reports what was asked and told: the
/// branch, the best common ancestor, the commits of `base..HEAD`, whether
/// anything is changed locally, and the upstream.
pub open spec fn plan_told<T>(
    operation: spec_fn(Seq<Reply>) -> FlowView<T>,
    t: Seq<Reply>,
    n: int,
    repo: Text,
    base: Text,
    plan: HistoryPlanView,
) -> bool {
    &&& answered(operation, t, n, repo, Command::CurrentBranch)
    &&& if plan.detached_head {
        &&& output_at(t, n).exit_code == Some(1i32)
        &&& plan.branch == "HEAD"@
        &&& plan.upstream is None
    } else {
        &&& output_at(t, n).exit_code == Some(0i32)
        &&& plan.branch == said(t, n)
        &&& answered(operation, t, n + 6, repo, Command::Upstream)
        &&& plan.upstream == if output_at(t, n + 6).exit_code == Some(0i32) {
            Some(said(t, n + 6))
        } else {
            None
        }
    }
    &&& performed(operation, t, n + 2, repo, Command::MergeBase { base })
    &&& plan.merge_base == said(t, n + 2)
    &&& performed(operation, t, n + 4, repo, Command::History { base })
    &&& !output_at(t, n + 4).truncated
    &&& logged_history(output_at(t, n + 4).stdout) == Ok::<Seq<HistoryCommitView>, Text>(
        plan.commits,
    )
    &&& performed(operation, t, n + 5, repo, Command::PorcelainStatus)
    &&& plan.dirty <==> output_at(t, n + 5).stdout.len() > 0
    &&& plan.base == base
    &&& plan.commit_count == plan.commits.len()
}

/// Every commit of a plan was looked up, and the references that the plan lists
/// are exactly those that were named for one of its commits.
pub open spec fn publication_told<T>(
    operation: spec_fn(Seq<Reply>) -> FlowView<T>,
    t: Seq<Reply>,
    k: int,
    repo: Text,
    plan: HistoryPlanView,
) -> bool {
    &&& forall|j: int|
        0 <= j < plan.commits.len() ==> looked_up(
            operation,
            t,
            lookup_at(k, plan.upstream, j),
            repo,
            (#[trigger] plan.commits[j]).sha,
            plan.upstream,
        )
    &&& forall|name: Text| #[trigger]
        plan.published_refs.contains(name) <==> exists|j: int|
            0 <= j < plan.commits.len() && #[trigger] names_reference(
                t,
                lookup_at(k, plan.upstream, j),
                plan.upstream,
                name,
            )
    &&& plan.published <==> plan.published_refs.len() > 0
}

/// How far a plan gets before its commits are looked up.
#[verifier::rlimit(40)]
proof fn lemma_plan_prepared(repo: Text, base: Text, t: Seq<Reply>, n: int)
    requires
        0 <= n <= t.len(),
        history_plan_flow(repo, base, t, n) is Got,
    ensures
        ({
            let plan = history_plan_flow(repo, base, t, n)->Got_0;
            let branch = if plan.detached_head {
                None
            } else {
                Some(plan.branch)
            };
            let k = lookups_at(n, plan);
            &&& current_branch_flow(repo, t, n) == FlowView::Got(branch, n + 1)
            &&& merge_base_flow(repo, base, t, n + 1) == FlowView::Got(plan.merge_base, n + 3)
            &&& branch_history_flow(repo, base, t, n + 3) == FlowView::Got(plan.commits, n + 5)
            &&& is_dirty_flow(repo, t, n + 5) == FlowView::Got(plan.dirty, n + 6)
            &&& plan_upstream_flow(repo, branch, t, n + 6) == FlowView::Got(plan.upstream, k)
            &&& published_refs_flow(
                repo,
                plan.commits,
                plan.upstream,
                0,
                Seq::empty(),
                t,
                k,
            ) matches FlowView::Got(refs, _)
            &&& refs == plan.published_refs
            &&& k <= t.len()
        }),
{
}

#[verifier::rlimit(40)]
proof fn lemma_plan_looks_up(repo: Text, base: Text, t: Seq<Reply>, n: int)
    requires
        0 <= n <= t.len(),
        history_plan_flow(repo, base, t, n) is Got,
    ensures
        ({
            let plan = history_plan_flow(repo, base, t, n)->Got_0;
            let k = lookups_at(n, plan);
            carries(
                planning(repo, base, n),
                lookup(repo, plan.commits, plan.upstream, 0, Seq::empty(), k),
                t,
                k,
            )
        }),
{
    broadcast use {
        branch_reads,
        merge_base_reads,
        history_reads,
        dirtiness_reads,
        plan_upstream_reads,
    };

    lemma_plan_prepared(repo, base, t, n);
    let plan = history_plan_flow(repo, base, t, n)->Got_0;
    let k = lookups_at(n, plan);
    let outer = planning(repo, base, n);
    let inner = lookup(repo, plan.commits, plan.upstream, 0, Seq::empty(), k);
    assert forall|p: int|
        k <= p <= t.len() && request(inner(#[trigger] t.take(p))) is Some implies request(
        outer(t.take(p)),
    ) == request(inner(t.take(p))) by {
        let s = t.take(p);
        assert(agree(t, s, n + 1) && agree(t, s, n + 3) && agree(t, s, n + 5) && agree(t, s, n + 6)
            && agree(t, s, k));
        assert(outer(s) == history_plan_flow(repo, base, s, n));
        assert(inner(s) == published_refs_flow(
            repo,
            plan.commits,
            plan.upstream,
            0,
            Seq::empty(),
            s,
            k,
        ));
    }
}

/// A history plan reports what Git was asked and told. It looks up every commit
/// of `base..HEAD`, and lists a reference exactly where the reference was named
/// for one of these commits, as a remote-tracking reference that contains it, or
/// as the upstream.
#[verifier::rlimit(40)]
pub proof fn law_plan_reports(repo: Text, base: Text, t: Seq<Reply>, n: int)
    requires
        0 <= n <= t.len(),
        history_plan_flow(repo, base, t, n) is Got,
    ensures
        ({
            let plan = history_plan_flow(repo, base, t, n)->Got_0;
            &&& plan_told(planning(repo, base, n), t, n, repo, base, plan)
            &&& publication_told(planning(repo, base, n), t, lookups_at(n, plan), repo, plan)
            &&& ascending(plan.published_refs)
            &&& history_plan_flow(repo, base, t, n) == FlowView::Got(
                plan,
                lookup_at(lookups_at(n, plan), plan.upstream, plan.commits.len() as int),
            )
        }),
{
    let plan = history_plan_flow(repo, base, t, n)->Got_0;
    let k = lookups_at(n, plan);
    lemma_plan_prepared(repo, base, t, n);
    lemma_plan_looks_up(repo, base, t, n);
    lemma_lookup(repo, plan.commits, plan.upstream, 0, Seq::empty(), t, k);
    lemma_plan_asks(repo, base, t, n);
    let inner = lookup(repo, plan.commits, plan.upstream, 0, Seq::empty(), k);
    assert forall|j: int| 0 <= j < plan.commits.len() implies looked_up(
        planning(repo, base, n),
        t,
        lookup_at(k, plan.upstream, j),
        repo,
        (#[trigger] plan.commits[j]).sha,
        plan.upstream,
    ) by {
        assert(looked_up(
            inner,
            t,
            lookup_at(k, plan.upstream, j - 0),
            repo,
            plan.commits[j].sha,
            plan.upstream,
        ));
    }
    assert forall|j: int| #[trigger] lookup_at(k, plan.upstream, j) == lookup_at(
        k,
        plan.upstream,
        j - 0,
    ) by {}
}

/// What is known of a plan with the first `p` replies.
#[verifier::rlimit(40)]
proof fn lemma_plan_so_far(repo: Text, base: Text, t: Seq<Reply>, n: int, p: int)
    requires
        0 <= n <= p <= t.len(),
        history_plan_flow(repo, base, t, n) is Got,
    ensures
        ({
            let s = t.take(p);
            &&& n + 1 <= p ==> current_branch_flow(repo, s, n) == current_branch_flow(repo, t, n)
            &&& n + 3 <= p ==> merge_base_flow(repo, base, s, n + 1) == merge_base_flow(
                repo,
                base,
                t,
                n + 1,
            )
            &&& n + 5 <= p ==> branch_history_flow(repo, base, s, n + 3) == branch_history_flow(
                repo,
                base,
                t,
                n + 3,
            )
            &&& n + 6 <= p ==> is_dirty_flow(repo, s, n + 5) == is_dirty_flow(repo, t, n + 5)
        }),
{
    lemma_plan_prepared(repo, base, t, n);
    let s = t.take(p);
    if n + 1 <= p {
        assert(agree(t, s, n + 1));
        branch_reads(repo, t, s, n);
    }
    if n + 3 <= p {
        assert(agree(t, s, n + 3));
        merge_base_reads(repo, base, t, s, n + 1);
    }
    if n + 5 <= p {
        assert(agree(t, s, n + 5));
        history_reads(repo, base, t, s, n + 3);
    }
    if n + 6 <= p {
        assert(agree(t, s, n + 6));
        dirtiness_reads(repo, t, s, n + 5);
    }
}

#[verifier::rlimit(40)]
proof fn lemma_plan_asks_first(repo: Text, base: Text, t: Seq<Reply>, n: int)
    requires
        0 <= n <= t.len(),
        history_plan_flow(repo, base, t, n) is Got,
    ensures
        answered(planning(repo, base, n), t, n, repo, Command::CurrentBranch),
        performed(planning(repo, base, n), t, n + 2, repo, Command::MergeBase { base }),
{
    lemma_plan_prepared(repo, base, t, n);
    lemma_plan_so_far(repo, base, t, n, n + 2);
    let op = planning(repo, base, n);
    assert(op(t.take(n)) == history_plan_flow(repo, base, t.take(n), n));
    assert(op(t.take(n + 2)) == history_plan_flow(repo, base, t.take(n + 2), n));
}

#[verifier::rlimit(40)]
proof fn lemma_plan_asks_next(repo: Text, base: Text, t: Seq<Reply>, n: int)
    requires
        0 <= n <= t.len(),
        history_plan_flow(repo, base, t, n) is Got,
    ensures
        performed(planning(repo, base, n), t, n + 4, repo, Command::History { base }),
        performed(planning(repo, base, n), t, n + 5, repo, Command::PorcelainStatus),
{
    lemma_plan_prepared(repo, base, t, n);
    lemma_plan_so_far(repo, base, t, n, n + 4);
    lemma_plan_so_far(repo, base, t, n, n + 5);
    let op = planning(repo, base, n);
    assert(op(t.take(n + 4)) == history_plan_flow(repo, base, t.take(n + 4), n));
    assert(op(t.take(n + 5)) == history_plan_flow(repo, base, t.take(n + 5), n));
}

#[verifier::rlimit(40)]
proof fn lemma_plan_asks_last(repo: Text, base: Text, t: Seq<Reply>, n: int)
    requires
        0 <= n <= t.len(),
        history_plan_flow(repo, base, t, n) is Got,
        !history_plan_flow(repo, base, t, n)->Got_0.detached_head,
    ensures
        answered(planning(repo, base, n), t, n + 6, repo, Command::Upstream),
{
    lemma_plan_prepared(repo, base, t, n);
    lemma_plan_so_far(repo, base, t, n, n + 6);
    let op = planning(repo, base, n);
    assert(op(t.take(n + 6)) == history_plan_flow(repo, base, t.take(n + 6), n));
}

#[verifier::rlimit(40)]
proof fn lemma_plan_asks(repo: Text, base: Text, t: Seq<Reply>, n: int)
    requires
        0 <= n <= t.len(),
        history_plan_flow(repo, base, t, n) is Got,
    ensures
        plan_told(
            planning(repo, base, n),
            t,
            n,
            repo,
            base,
            history_plan_flow(repo, base, t, n)->Got_0,
        ),
{
    lemma_plan_prepared(repo, base, t, n);
    lemma_plan_asks_first(repo, base, t, n);
    lemma_plan_asks_next(repo, base, t, n);
    if !history_plan_flow(repo, base, t, n)->Got_0.detached_head {
        lemma_plan_asks_last(repo, base, t, n);
    }
}

/// The commits of a branch from `from` on may be rewritten: `HEAD` is on a
/// branch other than the trunk, nothing is changed locally, and each of them has
/// one parent.
pub open spec fn suffix_permitted(plan: HistoryPlanView, from: int) -> bool {
    &&& !plan.detached_head
    &&& plan.branch != "main"@
    &&& !plan.dirty
    &&& forall|j: int|
        from <= j < plan.commits.len() ==> (#[trigger] plan.commits[j]).parents == 1
}

// ---------------------------------------------------------------------------
// Commits that may be rewritten
// ---------------------------------------------------------------------------
/// Making sure that the commits from `i` on are unpublished, as a part of an
/// operation.
pub open spec fn suffix_check(
    repo: Text,
    commits: Seq<HistoryCommitView>,
    upstream: Option<Text>,
    i: int,
    n: int,
) -> spec_fn(Seq<Reply>) -> FlowView<()> {
    |t: Seq<Reply>| unpublished_suffix_flow(repo, commits, upstream, i, t, n)
}

/// From position `q` on the operation looked up a commit, and was told of no
/// reference that contains it.
pub open spec fn seen_unpublished<T>(
    operation: spec_fn(Seq<Reply>) -> FlowView<T>,
    t: Seq<Reply>,
    q: int,
    repo: Text,
    sha: Text,
    upstream: Option<Text>,
) -> bool {
    &&& looked_up(operation, t, q, repo, sha, upstream)
    &&& listing(output_at(t, q + 2).stdout).len() == 0
    &&& upstream is Some ==> output_at(t, q + 3).exit_code == Some(1i32)
}

#[verifier::rlimit(40)]
proof fn lemma_suffix_first(
    repo: Text,
    commits: Seq<HistoryCommitView>,
    upstream: Option<Text>,
    i: int,
    t: Seq<Reply>,
    n: int,
)
    requires
        0 <= n <= t.len(),
        0 <= i < commits.len(),
        unpublished_suffix_flow(repo, commits, upstream, i, t, n) is Got,
    ensures
        seen_unpublished(
            suffix_check(repo, commits, upstream, i, n),
            t,
            n,
            repo,
            commits[i].sha,
            upstream,
        ),
        remote_refs_flow(repo, commits[i].sha, t, n) == FlowView::Got(
            listing(output_at(t, n + 2).stdout),
            n + 3,
        ),
        on_upstream_flow(repo, commits[i].sha, upstream, t, n + 3) == FlowView::Got(
            false,
            lookup_at(n, upstream, 1),
        ),
        lookup_at(n, upstream, 1) <= t.len(),
        unpublished_suffix_flow(repo, commits, upstream, i, t, n) == unpublished_suffix_flow(
            repo,
            commits,
            upstream,
            i + 1,
            t,
            lookup_at(n, upstream, 1),
        ),
{
    broadcast use {remote_refs_reads, remote_refs_extent};

    let op = suffix_check(repo, commits, upstream, i, n);
    assert forall|p: int| op(#[trigger] t.take(p)) == unpublished_suffix_flow(
        repo,
        commits,
        upstream,
        i,
        t.take(p),
        n,
    ) by {}
    assert(request(op(t.take(n + 1))) is Some);
    assert(request(op(t.take(n + 2))) is Some);
    if upstream is Some {
        let s = t.take(n + 3);
        assert(agree(t, s, n + 3));
        assert(remote_refs_flow(repo, commits[i].sha, s, n) == remote_refs_flow(
            repo,
            commits[i].sha,
            t,
            n,
        ));
        assert(request(op(s)) is Some);
    }
}

#[verifier::rlimit(40)]
proof fn lemma_suffix_carries(
    repo: Text,
    commits: Seq<HistoryCommitView>,
    upstream: Option<Text>,
    i: int,
    t: Seq<Reply>,
    n: int,
)
    requires
        0 <= n <= t.len(),
        0 <= i < commits.len(),
        unpublished_suffix_flow(repo, commits, upstream, i, t, n) is Got,
    ensures
        carries(
            suffix_check(repo, commits, upstream, i, n),
            suffix_check(repo, commits, upstream, i + 1, lookup_at(n, upstream, 1)),
            t,
            lookup_at(n, upstream, 1),
        ),
{
    broadcast use {remote_refs_reads, remote_refs_extent, containment_reads, containment_extent};

    lemma_suffix_first(repo, commits, upstream, i, t, n);
    let m = lookup_at(n, upstream, 1);
    let outer = suffix_check(repo, commits, upstream, i, n);
    let inner = suffix_check(repo, commits, upstream, i + 1, m);
    assert forall|p: int|
        m <= p <= t.len() && request(inner(#[trigger] t.take(p))) is Some implies request(
        outer(t.take(p)),
    ) == request(inner(t.take(p))) by {
        let s = t.take(p);
        assert(agree(t, s, n + 3) && agree(t, s, m));
        assert(remote_refs_flow(repo, commits[i].sha, s, n) == remote_refs_flow(
            repo,
            commits[i].sha,
            t,
            n,
        ));
        assert(on_upstream_flow(repo, commits[i].sha, upstream, s, n + 3) == on_upstream_flow(
            repo,
            commits[i].sha,
            upstream,
            t,
            n + 3,
        ));
        assert(outer(s) == unpublished_suffix_flow(repo, commits, upstream, i, s, n));
        assert(inner(s) == unpublished_suffix_flow(repo, commits, upstream, i + 1, s, m));
    }
}

/// What a part of an operation saw to be unpublished, the operation did.
#[verifier::rlimit(40)]
pub proof fn lemma_seen_unpublished_by<T, U>(
    operation: spec_fn(Seq<Reply>) -> FlowView<T>,
    part: spec_fn(Seq<Reply>) -> FlowView<U>,
    t: Seq<Reply>,
    a: int,
    q: int,
    repo: Text,
    sha: Text,
    upstream: Option<Text>,
)
    requires
        carries(operation, part, t, a),
        a <= q,
        seen_unpublished(part, t, q, repo, sha, upstream),
    ensures
        seen_unpublished(operation, t, q, repo, sha, upstream),
{
    assert(request(part(t.take(q + 1))) is Some);
    assert(request(part(t.take(q + 2))) is Some);
    if upstream is Some {
        assert(request(part(t.take(q + 3))) is Some);
    }
}

/// Every commit from `i` on was seen to be unpublished.
#[verifier::rlimit(40)]
pub proof fn lemma_suffix_unpublished(
    repo: Text,
    commits: Seq<HistoryCommitView>,
    upstream: Option<Text>,
    i: int,
    t: Seq<Reply>,
    n: int,
)
    requires
        0 <= n <= t.len(),
        0 <= i <= commits.len(),
        unpublished_suffix_flow(repo, commits, upstream, i, t, n) is Got,
    ensures
        unpublished_suffix_flow(repo, commits, upstream, i, t, n) == FlowView::Got(
            (),
            lookup_at(n, upstream, commits.len() - i),
        ),
        lookup_at(n, upstream, commits.len() - i) <= t.len(),
        forall|j: int|
            i <= j < commits.len() ==> seen_unpublished(
                suffix_check(repo, commits, upstream, i, n),
                t,
                lookup_at(n, upstream, j - i),
                repo,
                (#[trigger] commits[j]).sha,
                upstream,
            ),
    decreases commits.len() - i,
{
    if i < commits.len() {
        let m = lookup_at(n, upstream, 1);
        lemma_suffix_first(repo, commits, upstream, i, t, n);
        lemma_suffix_carries(repo, commits, upstream, i, t, n);
        lemma_suffix_unpublished(repo, commits, upstream, i + 1, t, m);
        let outer = suffix_check(repo, commits, upstream, i, n);
        let inner = suffix_check(repo, commits, upstream, i + 1, m);
        assert forall|j: int| i <= j < commits.len() implies seen_unpublished(
            outer,
            t,
            lookup_at(n, upstream, j - i),
            repo,
            (#[trigger] commits[j]).sha,
            upstream,
        ) by {
            if j > i {
                let q = lookup_at(m, upstream, j - (i + 1));
                assert(seen_unpublished(inner, t, q, repo, commits[j].sha, upstream));
                assert(q == lookup_at(n, upstream, j - i));
                lemma_seen_unpublished_by(
                    outer,
                    inner,
                    t,
                    m,
                    q,
                    repo,
                    commits[j].sha,
                    upstream,
                );
            }
        }
    }
}

/// What a part of an operation planned, the operation planned.
#[verifier::rlimit(40)]
pub proof fn lemma_plan_told_by<T, U>(
    operation: spec_fn(Seq<Reply>) -> FlowView<T>,
    part: spec_fn(Seq<Reply>) -> FlowView<U>,
    t: Seq<Reply>,
    n: int,
    repo: Text,
    base: Text,
    plan: HistoryPlanView,
)
    requires
        carries(operation, part, t, n),
        plan_told(part, t, n, repo, base, plan),
    ensures
        plan_told(operation, t, n, repo, base, plan),
{
    assert(request(part(t.take(n))) is Some);
    assert(request(part(t.take(n + 2))) is Some);
    assert(request(part(t.take(n + 4))) is Some);
    assert(request(part(t.take(n + 5))) is Some);
    if !plan.detached_head {
        assert(request(part(t.take(n + 6))) is Some);
    }
}

// ---------------------------------------------------------------------------
// What stands in the way of rewriting
// ---------------------------------------------------------------------------
/// What the plan says stands in the way of rewriting the branch: each reason
/// exactly where it applies, and the branch may be rewritten exactly where none
/// does.
pub open spec fn reasons_told(plan: HistoryPlanView) -> bool {
    &&& plan.blocking_reasons.contains("detached_head"@) <==> plan.detached_head
    &&& plan.blocking_reasons.contains("protected_branch_main"@)
        <==> !plan.detached_head && plan.branch == "main"@
    &&& plan.blocking_reasons.contains("dirty_worktree_or_index"@) <==> plan.dirty
    &&& plan.blocking_reasons.contains("merge_commit_present"@) <==> (exists|j: int|
        0 <= j < plan.commits.len() && (#[trigger] plan.commits[j]).parents > 1)
    &&& plan.blocking_reasons.contains("published_history"@) <==> plan.published
    &&& plan.blocking_reasons.no_duplicates()
    &&& forall|reason: Text| #[trigger]
        plan.blocking_reasons.contains(reason) ==> {
            ||| reason == "detached_head"@
            ||| reason == "protected_branch_main"@
            ||| reason == "dirty_worktree_or_index"@
            ||| reason == "merge_commit_present"@
            ||| reason == "published_history"@
        }
    &&& plan.can_rewrite <==> plan.blocking_reasons.len() == 0
}

#[verifier::rlimit(40)]
proof fn lemma_reasons_differ()
    ensures
        "detached_head"@ != "protected_branch_main"@,
        "detached_head"@ != "dirty_worktree_or_index"@,
        "detached_head"@ != "merge_commit_present"@,
        "detached_head"@ != "published_history"@,
        "protected_branch_main"@ != "dirty_worktree_or_index"@,
        "protected_branch_main"@ != "merge_commit_present"@,
        "protected_branch_main"@ != "published_history"@,
        "dirty_worktree_or_index"@ != "merge_commit_present"@,
        "dirty_worktree_or_index"@ != "published_history"@,
        "merge_commit_present"@ != "published_history"@,
{
    reveal_strlit("detached_head");
    assert("detached_head"@.len() == 13);
    reveal_strlit("protected_branch_main");
    assert("protected_branch_main"@.len() == 21);
    reveal_strlit("dirty_worktree_or_index");
    assert("dirty_worktree_or_index"@.len() == 23);
    reveal_strlit("merge_commit_present");
    assert("merge_commit_present"@.len() == 20);
    reveal_strlit("published_history");
    assert("published_history"@.len() == 17);
}

#[verifier::rlimit(40)]
proof fn lemma_reasons(
    branch: Option<Text>,
    dirty: bool,
    commits: Seq<HistoryCommitView>,
    published: bool,
    reason: Text,
)
    ensures
        ({
            let reasons = blocking_reasons(branch, dirty, commits, published);
            &&& reasons.contains(reason) <==> {
                ||| branch is None && reason == "detached_head"@
                ||| branch == Some("main"@) && reason == "protected_branch_main"@
                ||| dirty && reason == "dirty_worktree_or_index"@
                ||| has_merge(commits) && reason == "merge_commit_present"@
                ||| published && reason == "published_history"@
            }
            &&& reasons.no_duplicates()
        }),
{
    lemma_reasons_differ();
    let a = reason_if(branch is None, "detached_head"@);
    let b = reason_if(branch == Some("main"@), "protected_branch_main"@);
    let c = reason_if(dirty, "dirty_worktree_or_index"@);
    let d = reason_if(has_merge(commits), "merge_commit_present"@);
    let e = reason_if(published, "published_history"@);
    lemma_contains_joined(a, b, reason);
    lemma_contains_joined(a + b, c, reason);
    lemma_contains_joined(a + b + c, d, reason);
    lemma_contains_joined(a + b + c + d, e, reason);
    lemma_reason_if(branch is None, "detached_head"@, reason);
    lemma_reason_if(branch == Some("main"@), "protected_branch_main"@, reason);
    lemma_reason_if(dirty, "dirty_worktree_or_index"@, reason);
    lemma_reason_if(has_merge(commits), "merge_commit_present"@, reason);
    lemma_reason_if(published, "published_history"@, reason);
}

#[verifier::rlimit(40)]
proof fn lemma_contains_joined(a: Seq<Text>, b: Seq<Text>, x: Text)
    ensures
        (a + b).contains(x) <==> a.contains(x) || b.contains(x),
{
    if a.contains(x) {
        let i = choose|i: int| 0 <= i < a.len() && a[i] == x;
        assert((a + b)[i] == x);
    }
    if b.contains(x) {
        let i = choose|i: int| 0 <= i < b.len() && b[i] == x;
        assert((a + b)[a.len() + i] == x);
    }
    if (a + b).contains(x) {
        let i = choose|i: int| 0 <= i < (a + b).len() && (a + b)[i] == x;
        if i >= a.len() {
            assert(b[i - a.len()] == x);
        }
    }
}

#[verifier::rlimit(40)]
proof fn lemma_reason_if(applies: bool, own: Text, reason: Text)
    ensures
        reason_if(applies, own).contains(reason) <==> applies && reason == own,
        reason_if(applies, own).len() <= 1,
{
    if applies {
        assert(reason_if(applies, own)[0] == own);
    }
}

/// A plan gives each reason against rewriting exactly where it applies, and
/// permits rewriting exactly where none does.
#[verifier::rlimit(40)]
pub proof fn law_plan_gives_reasons(repo: Text, base: Text, t: Seq<Reply>, n: int)
    requires
        history_plan_flow(repo, base, t, n) is Got,
    ensures
        reasons_told(history_plan_flow(repo, base, t, n)->Got_0),
{
    let plan = history_plan_flow(repo, base, t, n)->Got_0;
    let branch = if plan.detached_head {
        None
    } else {
        Some(plan.branch)
    };
    assert(plan.blocking_reasons == blocking_reasons(
        branch,
        plan.dirty,
        plan.commits,
        plan.published,
    ));
    lemma_reasons_differ();
    lemma_reasons(branch, plan.dirty, plan.commits, plan.published, "detached_head"@);
    lemma_reasons(branch, plan.dirty, plan.commits, plan.published, "protected_branch_main"@);
    lemma_reasons(branch, plan.dirty, plan.commits, plan.published, "dirty_worktree_or_index"@);
    lemma_reasons(branch, plan.dirty, plan.commits, plan.published, "merge_commit_present"@);
    lemma_reasons(branch, plan.dirty, plan.commits, plan.published, "published_history"@);
    assert forall|reason: Text| #[trigger] plan.blocking_reasons.contains(reason) implies {
        ||| reason == "detached_head"@
        ||| reason == "protected_branch_main"@
        ||| reason == "dirty_worktree_or_index"@
        ||| reason == "merge_commit_present"@
        ||| reason == "published_history"@
    } by {
        lemma_reasons(branch, plan.dirty, plan.commits, plan.published, reason);
    }
}

} // verus!
