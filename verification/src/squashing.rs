//! What squashing commits comes to, held against what was asked and told.
use crate::command::Command;
use crate::dialogue::{
    carries, commit_made, commit_read, lemma_answered, lemma_commit_read_by, output_at, performed,
    request, said, snapshot_at,
};
use crate::extent::{
    agree, distinct_extent, distinct_reads, head_reads, new_commit_reads, plan_extent, plan_reads,
    snapshot_reads, squash_replay_reads, squash_selection_extent, squash_selection_reads,
    tree_reads,
};
use crate::flow::{FlowView, Reply};
use crate::history::{history_plan_flow, HistoryPlanView};
use crate::planning::{
    law_plan_reports, lemma_plan_told_by, lemma_seen_unpublished_by, lemma_suffix_unpublished,
    lookup_at, plan_told, planning, seen_unpublished, suffix_check, suffix_permitted,
};
use crate::queries::{head_sha_flow, tree_sha_flow};
use crate::replaying::{
    installed, installing, lemma_commit_made, lemma_commit_read, lemma_installed,
    lemma_installed_by, lemma_remade_by, lemma_squash_tail, making, parent_at, reading, remade,
    squash_tail,
};
use crate::resolving::{lemma_distinct_resolved, resolved, resolving_distinct};
use crate::rewrite::{
    install_flow, suffix_rewrite_flow, unpublished_suffix_flow, RewriteFailureView, RewriteOutcome,
    RewritePolicy,
};
use crate::selection::{law_positions, positions, resolve_distinct_flow};
use crate::server::GitServer;
use crate::snapshot::{commit_snapshot_flow, create_commit_flow};
use crate::squash::{
    contiguous, law_squash_selection, squash_flow, squash_from_flow, squash_range_flow,
    squash_replay_flow, squash_selection_flow, SquashArgsView, SquashedView,
};
use crate::text::Text;
use vstd::prelude::*;

verus! {

// ---------------------------------------------------------------------------
// Parts
// ---------------------------------------------------------------------------
/// Squashing, as an operation.
pub open spec fn squashing(server: GitServer, args: SquashArgsView) -> spec_fn(
    Seq<Reply>,
) -> FlowView<RewriteOutcome<SquashedView, RewriteFailureView>> {
    |t: Seq<Reply>| squash_flow(server, args, t, 0)
}

spec fn selecting(args: SquashArgsView, plan: HistoryPlanView, n: int) -> spec_fn(
    Seq<Reply>,
) -> FlowView<(int, int)> {
    |t: Seq<Reply>| squash_selection_flow(args, plan, t, n)
}

spec fn ranging(
    args: SquashArgsView,
    plan: HistoryPlanView,
    start: int,
    end: int,
    head: Text,
    n: int,
) -> spec_fn(Seq<Reply>) -> FlowView<SquashedView> {
    |t: Seq<Reply>| squash_range_flow(args, plan, start, end, head, t, n)
}

/// The stages of a squash: where the selection starts, where the commits are
/// made, and what is known there.
pub struct Stages {
    pub plan: HistoryPlanView,
    pub start: int,
    pub end: int,
    /// Where the selected commits are resolved.
    pub selected_at: int,
    /// Where the commits are read and made.
    pub made_at: int,
}

#[verifier::opaque]
spec fn stages(server: GitServer, args: SquashArgsView, t: Seq<Reply>) -> Stages {
    let plan = history_plan_flow(args.repo, args.base, t, 1)->Got_0;
    let a = history_plan_flow(args.repo, args.base, t, 1)->Got_1;
    let range = squash_selection_flow(args, plan, t, a);
    Stages {
        plan,
        start: range->Got_0.0,
        end: range->Got_0.1,
        selected_at: a,
        made_at: range->Got_1,
    }
}

#[verifier::rlimit(40)]
proof fn lemma_stages(server: GitServer, args: SquashArgsView, t: Seq<Reply>)
    requires
        squash_flow(server, args, t, 0) is Got,
        squash_flow(server, args, t, 0)->Got_0 is Done,
    ensures
        ({
            let w = stages(server, args, t);
            let head = said(t, 0);
            &&& !server.read_only
            &&& head_sha_flow(args.repo, t, 0) == FlowView::Got(head, 1)
            &&& args.commits.len() > 0
            &&& history_plan_flow(args.repo, args.base, t, 1) == FlowView::Got(
                w.plan,
                w.selected_at,
            )
            &&& squash_selection_flow(args, w.plan, t, w.selected_at) == FlowView::Got(
                (w.start, w.end),
                w.made_at,
            )
            &&& squash_range_flow(
                args,
                w.plan,
                w.start,
                w.end,
                head,
                t,
                w.made_at,
            ) matches FlowView::Got(done, _)
            &&& squash_flow(server, args, t, 0)->Got_0 == RewriteOutcome::<
                SquashedView,
                RewriteFailureView,
            >::Done(done)
            &&& 1 <= w.selected_at <= w.made_at <= t.len()
            &&& 0 <= w.start <= w.end < w.plan.commits.len()
            &&& w.end - w.start + 1 == args.commits.len()
            &&& 2 <= args.commits.len() <= 128
        }),
{
    reveal(stages);
    let w = stages(server, args, t);
    plan_extent(args.repo, args.base, t, 1);
    squash_selection_extent(args, w.plan, t, w.selected_at);
    law_squash_selection(args, w.plan, t, w.selected_at);
}

#[verifier::rlimit(40)]
proof fn lemma_stages_carry(server: GitServer, args: SquashArgsView, t: Seq<Reply>)
    requires
        squash_flow(server, args, t, 0) is Got,
        squash_flow(server, args, t, 0)->Got_0 is Done,
    ensures
        ({
            let w = stages(server, args, t);
            let op = squashing(server, args);
            &&& carries(op, planning(args.repo, args.base, 1), t, 1)
            &&& carries(op, selecting(args, w.plan, w.selected_at), t, w.selected_at)
            &&& carries(
                op,
                ranging(args, w.plan, w.start, w.end, said(t, 0), w.made_at),
                t,
                w.made_at,
            )
            &&& performed(op, t, 0, args.repo, Command::HeadCommit)
        }),
{
    lemma_stages(server, args, t);
    let w = stages(server, args, t);
    let op = squashing(server, args);
    let head = said(t, 0);
    assert(op(t.take(0)) == squash_flow(server, args, t.take(0), 0));
    let planned = planning(args.repo, args.base, 1);
    assert forall|p: int|
        1 <= p <= t.len() && request(planned(#[trigger] t.take(p))) is Some implies request(
        op(t.take(p)),
    ) == request(planned(t.take(p))) by {
        let s = t.take(p);
        assert(agree(t, s, 1));
        head_reads(args.repo, t, s, 0);
        assert(op(s) == squash_flow(server, args, s, 0));
        assert(planned(s) == history_plan_flow(args.repo, args.base, s, 1));
        assert(request(squash_from_flow(args, head, s, 1)) == request(planned(s)));
    }
    let selected = selecting(args, w.plan, w.selected_at);
    assert forall|p: int|
        w.selected_at <= p <= t.len() && request(
            selected(#[trigger] t.take(p)),
        ) is Some implies request(op(t.take(p))) == request(selected(t.take(p))) by {
        let s = t.take(p);
        assert(agree(t, s, 1) && agree(t, s, w.selected_at));
        head_reads(args.repo, t, s, 0);
        plan_reads(args.repo, args.base, t, s, 1);
        assert(op(s) == squash_flow(server, args, s, 0));
        assert(selected(s) == squash_selection_flow(args, w.plan, s, w.selected_at));
        assert(request(squash_from_flow(args, head, s, 1)) == request(selected(s)));
    }
    let ranged = ranging(args, w.plan, w.start, w.end, head, w.made_at);
    assert forall|p: int|
        w.made_at <= p <= t.len() && request(ranged(#[trigger] t.take(p))) is Some implies request(
        op(t.take(p)),
    ) == request(ranged(t.take(p))) by {
        let s = t.take(p);
        assert(agree(t, s, 1) && agree(t, s, w.selected_at) && agree(t, s, w.made_at));
        head_reads(args.repo, t, s, 0);
        plan_reads(args.repo, args.base, t, s, 1);
        squash_selection_reads(args, w.plan, t, s, w.selected_at);
        assert(op(s) == squash_flow(server, args, s, 0));
        assert(ranged(s) == squash_range_flow(args, w.plan, w.start, w.end, head, s, w.made_at));
        assert(request(squash_from_flow(args, head, s, 1)) == request(ranged(s)));
    }
}

// ---------------------------------------------------------------------------
// The selection
// ---------------------------------------------------------------------------
/// What the operation was told of the selected commits: each revision names the
/// commit of the history at its place in one unbroken range, and, where only
/// local commits may be rewritten, the commits from there on are unpublished.
pub open spec fn range_told<T>(
    operation: spec_fn(Seq<Reply>) -> FlowView<T>,
    t: Seq<Reply>,
    n: int,
    args: SquashArgsView,
    plan: HistoryPlanView,
    start: int,
) -> bool {
    &&& 0 <= start
    &&& start + args.commits.len() <= plan.commits.len()
    &&& suffix_permitted(plan, start)
    &&& forall|j: int|
        0 <= j < args.commits.len() ==> resolved(
            operation,
            t,
            n + 2 * j + 1,
            args.repo,
            #[trigger] args.commits[j],
            plan.commits[start + j].sha,
        )
    &&& args.rewrite_policy == RewritePolicy::LocalOnly ==> forall|j: int|
        start <= j < plan.commits.len() ==> seen_unpublished(
            operation,
            t,
            lookup_at(n + 2 * args.commits.len(), plan.upstream, j - start),
            args.repo,
            (#[trigger] plan.commits[j]).sha,
            plan.upstream,
        )
}

#[verifier::rlimit(40)]
proof fn lemma_selection_carries(
    args: SquashArgsView,
    plan: HistoryPlanView,
    t: Seq<Reply>,
    n: int,
)
    requires
        0 <= n <= t.len(),
        args.commits.len() > 0,
        squash_selection_flow(args, plan, t, n) is Got,
    ensures
        ({
            let error = "duplicate commit in squash request"@;
            let found = resolve_distinct_flow(
                args.repo,
                args.commits,
                0,
                Seq::empty(),
                error,
                t,
                n,
            );
            let start = squash_selection_flow(args, plan, t, n)->Got_0.0;
            let op = selecting(args, plan, n);
            &&& found is Got
            &&& carries(
                op,
                resolving_distinct(args.repo, args.commits, 0, Seq::empty(), error, n),
                t,
                n,
            )
            &&& positions(plan.commits, found->Got_0, args.base) is Ok
            &&& contiguous(positions(plan.commits, found->Got_0, args.base)->Ok_0)
            &&& start == positions(plan.commits, found->Got_0, args.base)->Ok_0[0]
            &&& suffix_permitted(plan, start)
            &&& args.rewrite_policy == RewritePolicy::LocalOnly ==> {
                &&& unpublished_suffix_flow(
                    args.repo,
                    plan.commits,
                    plan.upstream,
                    start,
                    t,
                    found->Got_1,
                ) is Got
                &&& carries(
                    op,
                    suffix_check(args.repo, plan.commits, plan.upstream, start, found->Got_1),
                    t,
                    found->Got_1,
                )
            }
        }),
{
    let error = "duplicate commit in squash request"@;
    let found = resolve_distinct_flow(args.repo, args.commits, 0, Seq::empty(), error, t, n);
    let op = selecting(args, plan, n);
    let part = resolving_distinct(args.repo, args.commits, 0, Seq::empty(), error, n);
    distinct_extent(args.repo, args.commits, 0, Seq::empty(), error, t, n);
    assert(carries(op, part, t, n)) by {
        assert forall|p: int|
            n <= p <= t.len() && request(part(#[trigger] t.take(p))) is Some implies request(
            op(t.take(p)),
        ) == request(part(t.take(p))) by {
            let s = t.take(p);
            assert(op(s) == squash_selection_flow(args, plan, s, n));
            assert(part(s) == resolve_distinct_flow(
                args.repo,
                args.commits,
                0,
                Seq::empty(),
                error,
                s,
                n,
            ));
        }
    }
    let m = found->Got_1;
    let start = squash_selection_flow(args, plan, t, n)->Got_0.0;
    let check = suffix_check(args.repo, plan.commits, plan.upstream, start, m);
    if args.rewrite_policy == RewritePolicy::LocalOnly {
        assert forall|p: int|
            m <= p <= t.len() && request(check(#[trigger] t.take(p))) is Some implies request(
            op(t.take(p)),
        ) == request(check(t.take(p))) by {
            let s = t.take(p);
            assert(agree(t, s, m));
            distinct_reads(args.repo, args.commits, 0, Seq::empty(), error, t, s, n);
            assert(op(s) == squash_selection_flow(args, plan, s, n));
            assert(check(s) == unpublished_suffix_flow(
                args.repo,
                plan.commits,
                plan.upstream,
                start,
                s,
                m,
            ));
            assert(request(
                suffix_rewrite_flow(args.repo, plan, start, args.rewrite_policy, s, m),
            ) == request(check(s)));
        }
    }
}

#[verifier::rlimit(40)]
proof fn lemma_range_told(args: SquashArgsView, plan: HistoryPlanView, t: Seq<Reply>, n: int)
    requires
        0 <= n <= t.len(),
        args.commits.len() > 0,
        squash_selection_flow(args, plan, t, n) is Got,
    ensures
        range_told(
            selecting(args, plan, n),
            t,
            n,
            args,
            plan,
            squash_selection_flow(args, plan, t, n)->Got_0.0,
        ),
{
    lemma_selection_carries(args, plan, t, n);
    law_squash_selection(args, plan, t, n);
    let error = "duplicate commit in squash request"@;
    let op = selecting(args, plan, n);
    let part = resolving_distinct(args.repo, args.commits, 0, Seq::empty(), error, n);
    lemma_distinct_resolved(args.repo, args.commits, 0, Seq::empty(), error, t, n);
    let shas = resolve_distinct_flow(
        args.repo,
        args.commits,
        0,
        Seq::empty(),
        error,
        t,
        n,
    )->Got_0;
    law_positions(plan.commits, shas, args.base);
    let all = positions(plan.commits, shas, args.base)->Ok_0;
    let start = all[0];
    assert forall|j: int| 0 <= j < args.commits.len() implies resolved(
        op,
        t,
        n + 2 * j + 1,
        args.repo,
        #[trigger] args.commits[j],
        plan.commits[start + j].sha,
    ) by {
        assert(all[j] == start + j);
        assert(plan.commits[all[j]].sha == shas[j]);
        assert(resolved(part, t, n + 2 * j + 1, args.repo, args.commits[j], shas[j]));
        lemma_answered(
            op,
            part,
            t,
            n,
            n + 2 * j + 1,
            args.repo,
            Command::ResolveCommit { revision: args.commits[j] },
        );
    }
    if args.rewrite_policy == RewritePolicy::LocalOnly {
        let m = n + 2 * args.commits.len();
        lemma_suffix_unpublished(args.repo, plan.commits, plan.upstream, start, t, m);
        let check = suffix_check(args.repo, plan.commits, plan.upstream, start, m);
        assert forall|j: int| start <= j < plan.commits.len() implies seen_unpublished(
            op,
            t,
            lookup_at(m, plan.upstream, j - start),
            args.repo,
            (#[trigger] plan.commits[j]).sha,
            plan.upstream,
        ) by {
            lemma_seen_unpublished_by(
                op,
                check,
                t,
                m,
                lookup_at(m, plan.upstream, j - start),
                args.repo,
                plan.commits[j].sha,
                plan.upstream,
            );
        }
    }
}

#[verifier::rlimit(40)]
proof fn lemma_range_told_by<T, U>(
    operation: spec_fn(Seq<Reply>) -> FlowView<T>,
    part: spec_fn(Seq<Reply>) -> FlowView<U>,
    t: Seq<Reply>,
    n: int,
    args: SquashArgsView,
    plan: HistoryPlanView,
    start: int,
)
    requires
        carries(operation, part, t, n),
        range_told(part, t, n, args, plan, start),
    ensures
        range_told(operation, t, n, args, plan, start),
{
    assert forall|j: int| 0 <= j < args.commits.len() implies resolved(
        operation,
        t,
        n + 2 * j + 1,
        args.repo,
        #[trigger] args.commits[j],
        plan.commits[start + j].sha,
    ) by {
        lemma_answered(
            operation,
            part,
            t,
            n,
            n + 2 * j + 1,
            args.repo,
            Command::ResolveCommit { revision: args.commits[j] },
        );
    }
    if args.rewrite_policy == RewritePolicy::LocalOnly {
        let m = n + 2 * args.commits.len();
        assert forall|j: int| start <= j < plan.commits.len() implies seen_unpublished(
            operation,
            t,
            lookup_at(m, plan.upstream, j - start),
            args.repo,
            (#[trigger] plan.commits[j]).sha,
            plan.upstream,
        ) by {
            lemma_seen_unpublished_by(
                operation,
                part,
                t,
                n,
                lookup_at(m, plan.upstream, j - start),
                args.repo,
                plan.commits[j].sha,
                plan.upstream,
            );
        }
    }
}

// ---------------------------------------------------------------------------
// The new commits
// ---------------------------------------------------------------------------
/// What the operation made: one commit with the tree of the last of the range,
/// the author of the first and the given message, on the first's parent; on it,
/// one commit for each that followed the range, in order, each like the one it
/// stands for; and the branch moved from the old tip to the last of them.
pub open spec fn history_made<T>(
    operation: spec_fn(Seq<Reply>) -> FlowView<T>,
    t: Seq<Reply>,
    n: int,
    args: SquashArgsView,
    plan: HistoryPlanView,
    start: int,
    head: Text,
    done: SquashedView,
) -> bool {
    let after = start + args.commits.len();
    let first = snapshot_at(t, n + 2);
    let last = snapshot_at(t, n + 5);
    let end = n + 8 + 4 * (plan.commits.len() - after);
    &&& commit_read(operation, t, n + 2, args.repo, plan.commits[start].sha)
    &&& commit_read(operation, t, n + 5, args.repo, plan.commits[after - 1].sha)
    &&& performed(operation, t, n + 6, args.repo, Command::ResolveTree { revision: head })
    &&& first.parents.len() > 0
    &&& commit_made(
        operation,
        t,
        n + 7,
        args.repo,
        first,
        last.tree,
        first.parents[0],
        args.message,
    )
    &&& done.new_commit == said(t, n + 7)
    &&& forall|j: int|
        after <= j < plan.commits.len() ==> remade(
            operation,
            t,
            n + 8 + 4 * (j - after),
            args.repo,
            (#[trigger] plan.commits[j]).sha,
            parent_at(t, n + 8, done.new_commit, j - after),
            None,
        )
    &&& done.new_head == parent_at(t, n + 8, done.new_commit, plan.commits.len() - after)
    &&& installed(operation, t, end, args.repo, plan.branch, done.new_head, head, said(t, n + 6))
    &&& done.status == output_at(t, end + 2).stdout
    &&& t.len() >= end + 3
}

#[verifier::rlimit(40)]
proof fn lemma_range_parts(
    args: SquashArgsView,
    plan: HistoryPlanView,
    start: int,
    end: int,
    head: Text,
    t: Seq<Reply>,
    n: int,
)
    requires
        0 <= n <= t.len(),
        0 <= start <= end < plan.commits.len(),
        squash_range_flow(args, plan, start, end, head, t, n) is Got,
    ensures
        ({
            let first = snapshot_at(t, n + 2);
            let last = snapshot_at(t, n + 5);
            let rest = plan.commits.len() - end - 1;
            let m = n + 8 + 4 * rest;
            let done = squash_range_flow(args, plan, start, end, head, t, n)->Got_0;
            &&& commit_snapshot_flow(args.repo, plan.commits[start].sha, t, n) == FlowView::Got(
                first,
                n + 3,
            )
            &&& commit_snapshot_flow(args.repo, plan.commits[end].sha, t, n + 3) == FlowView::Got(
                last,
                n + 6,
            )
            &&& first.parents.len() > 0
            &&& tree_sha_flow(args.repo, head, t, n + 6) == FlowView::Got(said(t, n + 6), n + 7)
            &&& create_commit_flow(
                args.repo,
                first,
                last.tree,
                first.parents[0],
                args.message,
                t,
                n + 7,
            ) == FlowView::Got(done.new_commit, n + 8)
            &&& done.new_commit == said(t, n + 7)
            &&& squash_replay_flow(
                args.repo,
                plan.commits,
                end + 1,
                done.new_commit,
                t,
                n + 8,
            ) == FlowView::Got(done.new_head, m)
            &&& done.new_head == parent_at(t, n + 8, done.new_commit, rest)
            &&& install_flow(
                args.repo,
                plan.branch,
                done.new_head,
                head,
                said(t, n + 6),
                t,
                m,
            ) == FlowView::Got(output_at(t, m + 2).stdout, m + 3)
            &&& m + 3 <= t.len()
            &&& done.status == output_at(t, m + 2).stdout
            &&& done.branch == plan.branch
            &&& done.old_head == head
            &&& done.squashed_count == args.commits.len()
            &&& done.operation == "squash_commits"@
        }),
{
    let first = snapshot_at(t, n + 2);
    let last = snapshot_at(t, n + 5);
    lemma_commit_read(args.repo, plan.commits[start].sha, t, n);
    lemma_commit_read(args.repo, plan.commits[end].sha, t, n + 3);
    assert(tree_sha_flow(args.repo, head, t, n + 6) == FlowView::Got(said(t, n + 6), n + 7));
    lemma_commit_made(args.repo, first, last.tree, first.parents[0], args.message, t, n + 7);
    let new_commit = said(t, n + 7);
    lemma_squash_tail(args.repo, plan.commits, end + 1, new_commit, t, n + 8);
    let rest = plan.commits.len() - end - 1;
    let new_head = parent_at(t, n + 8, new_commit, rest);
    let m = n + 8 + 4 * rest;
    lemma_installed(args.repo, plan.branch, new_head, head, said(t, n + 6), t, m);
}

#[verifier::rlimit(40)]
proof fn lemma_range_reads(
    args: SquashArgsView,
    plan: HistoryPlanView,
    start: int,
    end: int,
    head: Text,
    t: Seq<Reply>,
    n: int,
)
    requires
        0 <= n <= t.len(),
        0 <= start <= end < plan.commits.len(),
        squash_range_flow(args, plan, start, end, head, t, n) is Got,
    ensures
        carries(
            ranging(args, plan, start, end, head, n),
            reading(args.repo, plan.commits[start].sha, n),
            t,
            n,
        ),
        carries(
            ranging(args, plan, start, end, head, n),
            reading(args.repo, plan.commits[end].sha, n + 3),
            t,
            n + 3,
        ),
        performed(
            ranging(args, plan, start, end, head, n),
            t,
            n + 6,
            args.repo,
            Command::ResolveTree { revision: head },
        ),

{
    lemma_range_parts(args, plan, start, end, head, t, n);
    let op = ranging(args, plan, start, end, head, n);
    let first = snapshot_at(t, n + 2);
    let last = snapshot_at(t, n + 5);
    let one = reading(args.repo, plan.commits[start].sha, n);
    assert forall|p: int|
        n <= p <= t.len() && request(one(#[trigger] t.take(p))) is Some implies request(
        op(t.take(p)),
    ) == request(one(t.take(p))) by {
        let s = t.take(p);
        assert(op(s) == squash_range_flow(args, plan, start, end, head, s, n));
        assert(one(s) == commit_snapshot_flow(args.repo, plan.commits[start].sha, s, n));
    }
    let two = reading(args.repo, plan.commits[end].sha, n + 3);
    assert forall|p: int|
        n + 3 <= p <= t.len() && request(two(#[trigger] t.take(p))) is Some implies request(
        op(t.take(p)),
    ) == request(two(t.take(p))) by {
        let s = t.take(p);
        assert(op(s) == squash_range_flow(args, plan, start, end, head, s, n));
        assert(agree(t, s, n + 3));
        snapshot_reads(args.repo, plan.commits[start].sha, t, s, n);
        assert(two(s) == commit_snapshot_flow(args.repo, plan.commits[end].sha, s, n + 3));
    }
    let s = t.take(n + 6);
    assert(op(s) == squash_range_flow(args, plan, start, end, head, s, n));
    assert(agree(t, s, n + 3));
    snapshot_reads(args.repo, plan.commits[start].sha, t, s, n);
    assert(agree(t, s, n + 6));
    snapshot_reads(args.repo, plan.commits[end].sha, t, s, n + 3);
    assert(request(tree_sha_flow(args.repo, head, s, n + 6)) is Some);

}

#[verifier::rlimit(40)]
proof fn lemma_range_makes(
    args: SquashArgsView,
    plan: HistoryPlanView,
    start: int,
    end: int,
    head: Text,
    t: Seq<Reply>,
    n: int,
)
    requires
        0 <= n <= t.len(),
        0 <= start <= end < plan.commits.len(),
        squash_range_flow(args, plan, start, end, head, t, n) is Got,
    ensures
        carries(
            ranging(args, plan, start, end, head, n),
            making(
                args.repo,
                snapshot_at(t, n + 2),
                snapshot_at(t, n + 5).tree,
                snapshot_at(t, n + 2).parents[0],
                args.message,
                n + 7,
            ),
            t,
            n + 7,
        ),

{
    lemma_range_parts(args, plan, start, end, head, t, n);
    let op = ranging(args, plan, start, end, head, n);
    let first = snapshot_at(t, n + 2);
    let last = snapshot_at(t, n + 5);
    let part = making(args.repo, first, last.tree, first.parents[0], args.message, n + 7);
    assert forall|p: int|
        n + 7 <= p <= t.len() && request(part(#[trigger] t.take(p))) is Some implies request(
        op(t.take(p)),
    ) == request(part(t.take(p))) by {
        let s = t.take(p);
        assert(op(s) == squash_range_flow(args, plan, start, end, head, s, n));
        assert(agree(t, s, n + 3));
        snapshot_reads(args.repo, plan.commits[start].sha, t, s, n);
        assert(agree(t, s, n + 6));
        snapshot_reads(args.repo, plan.commits[end].sha, t, s, n + 3);
        assert(agree(t, s, n + 7));
        tree_reads(args.repo, head, t, s, n + 6);
        assert(part(s) == create_commit_flow(
            args.repo,
            first,
            last.tree,
            first.parents[0],
            args.message,
            s,
            n + 7,
        ));
    }

}

#[verifier::rlimit(40)]
proof fn lemma_range_replays(
    args: SquashArgsView,
    plan: HistoryPlanView,
    start: int,
    end: int,
    head: Text,
    t: Seq<Reply>,
    n: int,
)
    requires
        0 <= n <= t.len(),
        0 <= start <= end < plan.commits.len(),
        squash_range_flow(args, plan, start, end, head, t, n) is Got,
    ensures
        carries(
            ranging(args, plan, start, end, head, n),
            squash_tail(args.repo, plan.commits, end + 1, said(t, n + 7), n + 8),
            t,
            n + 8,
        ),

{
    lemma_range_parts(args, plan, start, end, head, t, n);
    let op = ranging(args, plan, start, end, head, n);
    let first = snapshot_at(t, n + 2);
    let last = snapshot_at(t, n + 5);
    let done = squash_range_flow(args, plan, start, end, head, t, n)->Got_0;
    let part = squash_tail(args.repo, plan.commits, end + 1, done.new_commit, n + 8);
    assert forall|p: int|
        n + 8 <= p <= t.len() && request(part(#[trigger] t.take(p))) is Some implies request(
        op(t.take(p)),
    ) == request(part(t.take(p))) by {
        let s = t.take(p);
        assert(op(s) == squash_range_flow(args, plan, start, end, head, s, n));
        assert(agree(t, s, n + 3));
        snapshot_reads(args.repo, plan.commits[start].sha, t, s, n);
        assert(agree(t, s, n + 6));
        snapshot_reads(args.repo, plan.commits[end].sha, t, s, n + 3);
        assert(agree(t, s, n + 7));
        tree_reads(args.repo, head, t, s, n + 6);
        assert(agree(t, s, n + 8));
        new_commit_reads(
            args.repo,
            first,
            last.tree,
            first.parents[0],
            args.message,
            t,
            s,
            n + 7,
        );
        assert(part(s) == squash_replay_flow(
            args.repo,
            plan.commits,
            end + 1,
            done.new_commit,
            s,
            n + 8,
        ));
    }

}

#[verifier::rlimit(40)]
proof fn lemma_range_installs(
    args: SquashArgsView,
    plan: HistoryPlanView,
    start: int,
    end: int,
    head: Text,
    t: Seq<Reply>,
    n: int,
)
    requires
        0 <= n <= t.len(),
        0 <= start <= end < plan.commits.len(),
        squash_range_flow(args, plan, start, end, head, t, n) is Got,
    ensures
        ({
            let done = squash_range_flow(args, plan, start, end, head, t, n)->Got_0;
            let m = n + 8 + 4 * (plan.commits.len() - end - 1);
            carries(
                ranging(args, plan, start, end, head, n),
                installing(args.repo, plan.branch, done.new_head, head, said(t, n + 6), m),
                t,
                m,
            )
        }),

{
    lemma_range_parts(args, plan, start, end, head, t, n);
    let op = ranging(args, plan, start, end, head, n);
    let first = snapshot_at(t, n + 2);
    let last = snapshot_at(t, n + 5);
    let done = squash_range_flow(args, plan, start, end, head, t, n)->Got_0;
    let m = n + 8 + 4 * (plan.commits.len() - end - 1);
    let tree = said(t, n + 6);
    let part = installing(args.repo, plan.branch, done.new_head, head, tree, m);
    assert forall|p: int|
        m <= p <= t.len() && request(part(#[trigger] t.take(p))) is Some implies request(
        op(t.take(p)),
    ) == request(part(t.take(p))) by {
        let s = t.take(p);
        assert(op(s) == squash_range_flow(args, plan, start, end, head, s, n));
        assert(agree(t, s, n + 3));
        snapshot_reads(args.repo, plan.commits[start].sha, t, s, n);
        assert(agree(t, s, n + 6));
        snapshot_reads(args.repo, plan.commits[end].sha, t, s, n + 3);
        assert(agree(t, s, n + 7));
        tree_reads(args.repo, head, t, s, n + 6);
        assert(agree(t, s, n + 8));
        new_commit_reads(
            args.repo,
            first,
            last.tree,
            first.parents[0],
            args.message,
            t,
            s,
            n + 7,
        );
        assert(agree(t, s, m));
        squash_replay_reads(args.repo, plan.commits, end + 1, done.new_commit, t, s, n + 8);
        assert(part(s) == install_flow(
            args.repo,
            plan.branch,
            done.new_head,
            head,
            tree,
            s,
            m,
        ));
    }

}

#[verifier::rlimit(40)]
#[verifier::spinoff_prover]
proof fn lemma_history_made(
    args: SquashArgsView,
    plan: HistoryPlanView,
    start: int,
    end: int,
    head: Text,
    t: Seq<Reply>,
    n: int,
)
    requires
        0 <= n <= t.len(),
        0 <= start <= end < plan.commits.len(),
        end - start + 1 == args.commits.len(),
        squash_range_flow(args, plan, start, end, head, t, n) is Got,
    ensures
        history_made(
            ranging(args, plan, start, end, head, n),
            t,
            n,
            args,
            plan,
            start,
            head,
            squash_range_flow(args, plan, start, end, head, t, n)->Got_0,
        ),
{
    lemma_range_parts(args, plan, start, end, head, t, n);
    lemma_range_reads(args, plan, start, end, head, t, n);
    lemma_range_makes(args, plan, start, end, head, t, n);
    lemma_range_replays(args, plan, start, end, head, t, n);
    lemma_range_installs(args, plan, start, end, head, t, n);
    let op = ranging(args, plan, start, end, head, n);
    let done = squash_range_flow(args, plan, start, end, head, t, n)->Got_0;
    let first = snapshot_at(t, n + 2);
    let last = snapshot_at(t, n + 5);
    let m = n + 8 + 4 * (plan.commits.len() - end - 1);
    let one = plan.commits[start].sha;
    let two = plan.commits[end].sha;
    lemma_commit_read(args.repo, one, t, n);
    lemma_commit_read_by(op, reading(args.repo, one, n), t, n, n + 2, args.repo, one);
    lemma_commit_read(args.repo, two, t, n + 3);
    lemma_commit_read_by(op, reading(args.repo, two, n + 3), t, n + 3, n + 5, args.repo, two);
    lemma_commit_made(args.repo, first, last.tree, first.parents[0], args.message, t, n + 7);
    lemma_answered(
        op,
        making(args.repo, first, last.tree, first.parents[0], args.message, n + 7),
        t,
        n + 7,
        n + 7,
        args.repo,
        Command::CommitTree {
            tree: last.tree,
            parent: first.parents[0],
            message: args.message,
            author_name: first.author_name,
            author_email: first.author_email,
            author_date: first.author_date,
            committer_name: first.committer_name,
            committer_email: first.committer_email,
            committer_date: first.committer_date,
        },
    );
    let after = end + 1;
    let tail = squash_tail(args.repo, plan.commits, after, done.new_commit, n + 8);
    lemma_squash_tail(args.repo, plan.commits, after, done.new_commit, t, n + 8);
    assert forall|j: int| after <= j < plan.commits.len() implies remade(
        op,
        t,
        n + 8 + 4 * (j - after),
        args.repo,
        (#[trigger] plan.commits[j]).sha,
        parent_at(t, n + 8, done.new_commit, j - after),
        None,
    ) by {
        lemma_remade_by(
            op,
            tail,
            t,
            n + 8,
            n + 8 + 4 * (j - after),
            args.repo,
            plan.commits[j].sha,
            parent_at(t, n + 8, done.new_commit, j - after),
            None,
        );
    }
    let tree = said(t, n + 6);
    lemma_installed(args.repo, plan.branch, done.new_head, head, tree, t, m);
    lemma_installed_by(
        op,
        installing(args.repo, plan.branch, done.new_head, head, tree, m),
        t,
        m,
        args.repo,
        plan.branch,
        done.new_head,
        head,
        tree,
    );
}

#[verifier::rlimit(40)]
proof fn lemma_history_made_by<T, U>(
    operation: spec_fn(Seq<Reply>) -> FlowView<T>,
    part: spec_fn(Seq<Reply>) -> FlowView<U>,
    t: Seq<Reply>,
    n: int,
    args: SquashArgsView,
    plan: HistoryPlanView,
    start: int,
    head: Text,
    done: SquashedView,
)
    requires
        carries(operation, part, t, n),
        start + args.commits.len() <= plan.commits.len(),
        history_made(part, t, n, args, plan, start, head, done),
    ensures
        history_made(operation, t, n, args, plan, start, head, done),
{
    let after = start + args.commits.len();
    let first = snapshot_at(t, n + 2);
    let last = snapshot_at(t, n + 5);
    let end = n + 8 + 4 * (plan.commits.len() - after);
    let one = plan.commits[start].sha;
    let two = plan.commits[after - 1].sha;
    lemma_commit_read_by(operation, part, t, n, n + 2, args.repo, one);
    lemma_commit_read_by(operation, part, t, n, n + 5, args.repo, two);
    lemma_answered(
        operation,
        part,
        t,
        n,
        n + 6,
        args.repo,
        Command::ResolveTree { revision: head },
    );
    lemma_answered(
        operation,
        part,
        t,
        n,
        n + 7,
        args.repo,
        Command::CommitTree {
            tree: last.tree,
            parent: first.parents[0],
            message: args.message,
            author_name: first.author_name,
            author_email: first.author_email,
            author_date: first.author_date,
            committer_name: first.committer_name,
            committer_email: first.committer_email,
            committer_date: first.committer_date,
        },
    );
    assert forall|j: int| after <= j < plan.commits.len() implies remade(
        operation,
        t,
        n + 8 + 4 * (j - after),
        args.repo,
        (#[trigger] plan.commits[j]).sha,
        parent_at(t, n + 8, done.new_commit, j - after),
        None,
    ) by {
        lemma_remade_by(
            operation,
            part,
            t,
            n,
            n + 8 + 4 * (j - after),
            args.repo,
            plan.commits[j].sha,
            parent_at(t, n + 8, done.new_commit, j - after),
            None,
        );
    }
    lemma_installed_by(
        operation,
        part,
        t,
        end,
        args.repo,
        plan.branch,
        done.new_head,
        head,
        said(t, n + 6),
    );
}

#[verifier::rlimit(40)]
proof fn lemma_plan_stage(server: GitServer, args: SquashArgsView, t: Seq<Reply>)
    requires
        squash_flow(server, args, t, 0) is Got,
        squash_flow(server, args, t, 0)->Got_0 is Done,
    ensures
        plan_told(
            squashing(server, args),
            t,
            1,
            args.repo,
            args.base,
            stages(server, args, t).plan,
        ),
        performed(squashing(server, args), t, 0, args.repo, Command::HeadCommit),
{
    lemma_stages(server, args, t);
    lemma_stages_carry(server, args, t);
    law_plan_reports(args.repo, args.base, t, 1);
    lemma_plan_told_by(
        squashing(server, args),
        planning(args.repo, args.base, 1),
        t,
        1,
        args.repo,
        args.base,
        stages(server, args, t).plan,
    );
}

#[verifier::rlimit(40)]
proof fn lemma_range_stage(server: GitServer, args: SquashArgsView, t: Seq<Reply>)
    requires
        squash_flow(server, args, t, 0) is Got,
        squash_flow(server, args, t, 0)->Got_0 is Done,
    ensures
        range_told(
            squashing(server, args),
            t,
            stages(server, args, t).selected_at,
            args,
            stages(server, args, t).plan,
            stages(server, args, t).start,
        ),
{
    lemma_stages(server, args, t);
    lemma_stages_carry(server, args, t);
    let w = stages(server, args, t);
    lemma_range_told(args, w.plan, t, w.selected_at);
    lemma_range_told_by(
        squashing(server, args),
        selecting(args, w.plan, w.selected_at),
        t,
        w.selected_at,
        args,
        w.plan,
        w.start,
    );
}

#[verifier::rlimit(40)]
proof fn lemma_made_stage(server: GitServer, args: SquashArgsView, t: Seq<Reply>)
    requires
        squash_flow(server, args, t, 0) is Got,
        squash_flow(server, args, t, 0)->Got_0 is Done,
    ensures
        ({
            let w = stages(server, args, t);
            let done = squash_flow(server, args, t, 0)->Got_0->Done_0;
            &&& history_made(
                squashing(server, args),
                t,
                w.made_at,
                args,
                w.plan,
                w.start,
                said(t, 0),
                done,
            )
            &&& done.old_head == said(t, 0)
            &&& done.branch == w.plan.branch
            &&& done.squashed_count == args.commits.len()
            &&& done.operation == "squash_commits"@
            &&& !server.read_only
            &&& 2 <= args.commits.len() <= 128
        }),
{
    lemma_stages(server, args, t);
    lemma_stages_carry(server, args, t);
    let w = stages(server, args, t);
    let head = said(t, 0);
    lemma_range_parts(args, w.plan, w.start, w.end, head, t, w.made_at);
    lemma_history_made(args, w.plan, w.start, w.end, head, t, w.made_at);
    lemma_history_made_by(
        squashing(server, args),
        ranging(args, w.plan, w.start, w.end, head, w.made_at),
        t,
        w.made_at,
        args,
        w.plan,
        w.start,
        head,
        squash_flow(server, args, t, 0)->Got_0->Done_0,
    );
}

// ---------------------------------------------------------------------------
// The law
// ---------------------------------------------------------------------------
/// Where a squash is done, its result says what was asked for and told: the
/// commit at `HEAD`; the history of the branch; that each requested revision
/// names the commit at its place in one range of that history; that one commit
/// was made for the range, with the tree of its last and the message given; and
/// that each commit after the range was made again, in order, on the one before
/// it, with its tree, its author and its whole message. The new tip stands as
/// many commits above the parent of the range as the history had, less those
/// squashed but for one, and the branch was moved to it. The law gives the
/// history and the place of the range in it, and where in the dialogue its
/// revisions were resolved and its commits made.
#[verifier::rlimit(40)]
#[verifier::spinoff_prover]
pub proof fn law_squash_keeps_later_commits(
    server: GitServer,
    args: SquashArgsView,
    t: Seq<Reply>,
) -> (stages: Stages)
    requires
        squash_flow(server, args, t, 0) is Got,
        squash_flow(server, args, t, 0)->Got_0 is Done,
    ensures
        ({
            let op = squashing(server, args);
            let done = squash_flow(server, args, t, 0)->Got_0->Done_0;
            &&& !server.read_only
            &&& 2 <= args.commits.len() <= 128
            &&& performed(op, t, 0, args.repo, Command::HeadCommit)
            &&& done.old_head == said(t, 0)
            &&& plan_told(op, t, 1, args.repo, args.base, stages.plan)
            &&& done.branch == stages.plan.branch
            &&& range_told(op, t, stages.selected_at, args, stages.plan, stages.start)
            &&& history_made(
                op,
                t,
                stages.made_at,
                args,
                stages.plan,
                stages.start,
                done.old_head,
                done,
            )
            &&& done.squashed_count == args.commits.len()
            &&& done.operation == "squash_commits"@
        }),
{
    lemma_plan_stage(server, args, t);
    lemma_range_stage(server, args, t);
    lemma_made_stage(server, args, t);
    stages(server, args, t)
}

} // verus!
