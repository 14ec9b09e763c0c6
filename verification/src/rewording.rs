//! What rewording commits comes to, held against what was asked and told.
use crate::command::Command;

use crate::dialogue::{
    carries, commit_read, lemma_answered, lemma_carried, lemma_commit_read_by, output_at, performed, request,
    said, snapshot_at,
};
use crate::extent::{
    agree, changes_extent, changes_reads, head_reads, plan_extent, plan_reads, replay_reads,
    reword_selection_extent, reword_selection_reads, snapshot_reads, tree_reads,
};
use crate::flow::{FlowView, Reply};
use crate::history::{history_plan_flow, HistoryPlanView};
use crate::planning::{
    law_plan_reports, lemma_plan_told_by, lemma_seen_unpublished_by, lemma_suffix_unpublished,
    lookup_at, plan_told, planning, seen_unpublished, suffix_check, suffix_permitted,
};
use crate::policy::conventional_verdict;
use crate::queries::{head_sha_flow, tree_sha_flow};
use crate::replaying::{
    installed, installing, lemma_commit_read, lemma_installed, lemma_installed_by,
    lemma_remade_by, lemma_reword_tail, parent_at, reading, remade, reported_rewrite, reword_tail,
};
use crate::resolving::{lemma_changes_resolved, resolved, resolving_changes};
use crate::reword::{
    any_changed, least, least_from, replay_flow, resolve_changes_flow, reword_flow,
    reword_from_flow, reword_replay_flow, reword_selection_flow, reworded, RewordArgsView,
    RewordView, RewordedView,
};
use crate::rewrite::{
    install_flow, suffix_rewrite_flow, unpublished_suffix_flow, RewriteFailureView, RewriteOutcome,
    RewritePolicy,
};
use crate::selection::{last_position, law_positions, lemma_last_position, positions};
use crate::server::GitServer;
use crate::snapshot::commit_snapshot_flow;
use crate::text::Text;
use vstd::prelude::*;

verus! {

// ---------------------------------------------------------------------------
// Parts
// ---------------------------------------------------------------------------
/// Rewording, as an operation.
pub open spec fn rewording(server: GitServer, args: RewordArgsView) -> spec_fn(
    Seq<Reply>,
) -> FlowView<RewriteOutcome<RewordedView, RewriteFailureView>> {
    |t: Seq<Reply>| reword_flow(server, args, t, 0)
}

spec fn selecting(args: RewordArgsView, plan: HistoryPlanView, n: int) -> spec_fn(
    Seq<Reply>,
) -> FlowView<(int, Seq<Text>)> {
    |t: Seq<Reply>| reword_selection_flow(args, plan, t, n)
}

spec fn remaking(
    args: RewordArgsView,
    plan: HistoryPlanView,
    from: int,
    shas: Seq<Text>,
    head: Text,
    n: int,
) -> spec_fn(Seq<Reply>) -> FlowView<RewordedView> {
    |t: Seq<Reply>| reword_replay_flow(args, plan, from, shas, head, t, n)
}

/// The stages of a rewording: what is known, where the commits are resolved and
/// where they are made.
pub struct Stages {
    pub plan: HistoryPlanView,
    /// The first commit that is made anew.
    pub from: int,
    /// The commits that the changes name.
    pub shas: Seq<Text>,
    /// Where the commits of the changes are resolved.
    pub selected_at: int,
    /// Where the commits are read and made.
    pub made_at: int,
}

#[verifier::opaque]
spec fn stages(server: GitServer, args: RewordArgsView, t: Seq<Reply>) -> Stages {
    let plan = history_plan_flow(args.repo, args.base, t, 1)->Got_0;
    let a = history_plan_flow(args.repo, args.base, t, 1)->Got_1;
    let selected = reword_selection_flow(args, plan, t, a);
    Stages {
        plan,
        from: selected->Got_0.0,
        shas: selected->Got_0.1,
        selected_at: a,
        made_at: selected->Got_1,
    }
}

#[verifier::rlimit(40)]
proof fn lemma_least_from(list: Seq<int>, i: int, found: int)
    requires
        0 <= i <= list.len(),
    ensures
        least_from(list, i, found) <= found,
        forall|k: int| i <= k < list.len() ==> least_from(list, i, found) <= #[trigger] list[k],
        least_from(list, i, found) == found || exists|k: int|
            i <= k < list.len() && #[trigger] list[k] == least_from(list, i, found),
    decreases list.len() - i,
{
    if i < list.len() {
        let next = if list[i] < found {
            list[i]
        } else {
            found
        };
        lemma_least_from(list, i + 1, next);
    }
}

/// The least of a list is one of it, and none of it is less.
#[verifier::rlimit(40)]
proof fn lemma_least(list: Seq<int>)
    requires
        list.len() > 0,
    ensures
        forall|k: int| 0 <= k < list.len() ==> least(list) <= #[trigger] list[k],
        exists|k: int| 0 <= k < list.len() && #[trigger] list[k] == least(list),
{
    lemma_least_from(list, 1, list[0]);
    assert(list[0] == list[0]);
}

/// The commits of the changes are distinct, and each new message follows
/// Conventional Commits.
#[verifier::rlimit(40)]
proof fn lemma_changes_valid(
    repo: Text,
    changes: Seq<RewordView>,
    i: int,
    found: Seq<Text>,
    t: Seq<Reply>,
    n: int,
)
    requires
        0 <= i <= changes.len(),
        found.no_duplicates(),
        resolve_changes_flow(repo, changes, i, found, t, n) is Got,
    ensures
        resolve_changes_flow(repo, changes, i, found, t, n)->Got_0.no_duplicates(),
        forall|j: int|
            i <= j < changes.len() ==> conventional_verdict((#[trigger] changes[j]).message) is Ok,
    decreases changes.len() - i,
{
    if i < changes.len() {
        let flow = crate::queries::resolve_commit_flow(repo, changes[i].commit, t, n);
        assert(flow is Got);
        let sha = flow->Got_0;
        assert(found.push(sha).no_duplicates());
        lemma_changes_valid(repo, changes, i + 1, found.push(sha), t, flow->Got_1);
    }
}

#[verifier::rlimit(40)]
proof fn lemma_selection(args: RewordArgsView, plan: HistoryPlanView, t: Seq<Reply>, n: int)
    requires
        0 <= n <= t.len(),
        args.changes.len() > 0,
        reword_selection_flow(args, plan, t, n) is Got,
    ensures
        ({
            let found = resolve_changes_flow(args.repo, args.changes, 0, Seq::empty(), t, n);
            let (from, shas) = reword_selection_flow(args, plan, t, n)->Got_0;
            &&& found == FlowView::Got(shas, n + 2 * args.changes.len())
            &&& shas.len() == args.changes.len()
            &&& shas.no_duplicates()
            &&& positions(plan.commits, shas, args.base) is Ok
            &&& from == least(positions(plan.commits, shas, args.base)->Ok_0)
            &&& 0 <= from < plan.commits.len()
            &&& suffix_permitted(plan, from)
            &&& forall|j: int|
                0 <= j < args.changes.len() ==> conventional_verdict(
                    (#[trigger] args.changes[j]).message,
                ) is Ok
            &&& forall|j: int|
                0 <= j < shas.len() ==> exists|k: int|
                    from <= k < plan.commits.len() && #[trigger] plan.commits[k].sha
                        == #[trigger] shas[j]
            &&& shas.contains(plan.commits[from].sha)
        }),
{
    let shas = resolve_changes_flow(args.repo, args.changes, 0, Seq::empty(), t, n)->Got_0;
    lemma_changes_resolved(args.repo, args.changes, 0, Seq::empty(), t, n);
    lemma_changes_valid(args.repo, args.changes, 0, Seq::empty(), t, n);
    law_positions(plan.commits, shas, args.base);
    let all = positions(plan.commits, shas, args.base)->Ok_0;
    lemma_least(all);
    let from = least(all);
    assert forall|j: int| 0 <= j < shas.len() implies exists|k: int|
        from <= k < plan.commits.len() && #[trigger] plan.commits[k].sha == #[trigger] shas[j] by {
        assert(plan.commits[all[j]].sha == shas[j]);
    }
    let k = choose|k: int| 0 <= k < all.len() && #[trigger] all[k] == from;
    assert(shas[k] == plan.commits[from].sha);
}

#[verifier::rlimit(40)]
proof fn lemma_stages(server: GitServer, args: RewordArgsView, t: Seq<Reply>)
    requires
        reword_flow(server, args, t, 0) is Got,
        reword_flow(server, args, t, 0)->Got_0 is Done,
    ensures
        ({
            let w = stages(server, args, t);
            let head = said(t, 0);
            &&& !server.read_only
            &&& head_sha_flow(args.repo, t, 0) == FlowView::Got(head, 1)
            &&& 1 <= args.changes.len() <= 64
            &&& history_plan_flow(args.repo, args.base, t, 1) == FlowView::Got(
                w.plan,
                w.selected_at,
            )
            &&& reword_selection_flow(args, w.plan, t, w.selected_at) == FlowView::Got(
                (w.from, w.shas),
                w.made_at,
            )
            &&& reword_replay_flow(
                args,
                w.plan,
                w.from,
                w.shas,
                head,
                t,
                w.made_at,
            ) matches FlowView::Got(done, _)
            &&& reword_flow(server, args, t, 0)->Got_0 == RewriteOutcome::<
                RewordedView,
                RewriteFailureView,
            >::Done(done)
            &&& 1 <= w.selected_at <= w.made_at <= t.len()
        }),
{
    reveal(stages);
    let w = stages(server, args, t);
    plan_extent(args.repo, args.base, t, 1);
    reword_selection_extent(args, w.plan, t, w.selected_at);
}

#[verifier::rlimit(40)]
proof fn lemma_stages_carry(server: GitServer, args: RewordArgsView, t: Seq<Reply>)
    requires
        reword_flow(server, args, t, 0) is Got,
        reword_flow(server, args, t, 0)->Got_0 is Done,
    ensures
        ({
            let w = stages(server, args, t);
            let op = rewording(server, args);
            &&& carries(op, planning(args.repo, args.base, 1), t, 1)
            &&& carries(op, selecting(args, w.plan, w.selected_at), t, w.selected_at)
            &&& carries(
                op,
                remaking(args, w.plan, w.from, w.shas, said(t, 0), w.made_at),
                t,
                w.made_at,
            )
            &&& performed(op, t, 0, args.repo, Command::HeadCommit)
        }),
{
    lemma_stages(server, args, t);
    let w = stages(server, args, t);
    let op = rewording(server, args);
    let head = said(t, 0);
    assert(op(t.take(0)) == reword_flow(server, args, t.take(0), 0));
    let planned = planning(args.repo, args.base, 1);
    assert forall|p: int|
        1 <= p <= t.len() && request(planned(#[trigger] t.take(p))) is Some implies request(
        op(t.take(p)),
    ) == request(planned(t.take(p))) by {
        let s = t.take(p);
        assert(op(s) == reword_flow(server, args, s, 0));
        assert(agree(t, s, 1));
        head_reads(args.repo, t, s, 0);
        assert(planned(s) == history_plan_flow(args.repo, args.base, s, 1));
        assert(request(reword_from_flow(args, head, s, 1)) == request(planned(s)));
    }
    let selected = selecting(args, w.plan, w.selected_at);
    assert forall|p: int|
        w.selected_at <= p <= t.len() && request(selected(#[trigger] t.take(p))) is Some implies request(
        op(t.take(p)),
    ) == request(selected(t.take(p))) by {
        let s = t.take(p);
        assert(op(s) == reword_flow(server, args, s, 0));
        assert(agree(t, s, 1) && agree(t, s, w.selected_at));
        head_reads(args.repo, t, s, 0);
        plan_reads(args.repo, args.base, t, s, 1);
        assert(selected(s) == reword_selection_flow(args, w.plan, s, w.selected_at));
        assert(request(reword_from_flow(args, head, s, 1)) == request(selected(s)));
    }
    let made = remaking(args, w.plan, w.from, w.shas, head, w.made_at);
    assert forall|p: int|
        w.made_at <= p <= t.len() && request(made(#[trigger] t.take(p))) is Some implies request(
        op(t.take(p)),
    ) == request(made(t.take(p))) by {
        let s = t.take(p);
        assert(op(s) == reword_flow(server, args, s, 0));
        assert(agree(t, s, 1) && agree(t, s, w.selected_at) && agree(t, s, w.made_at));
        head_reads(args.repo, t, s, 0);
        plan_reads(args.repo, args.base, t, s, 1);
        reword_selection_reads(args, w.plan, t, s, w.selected_at);
        assert(made(s) == reword_replay_flow(args, w.plan, w.from, w.shas, head, s, w.made_at));
        assert(request(reword_from_flow(args, head, s, 1)) == request(made(s)));
    }
}

// ---------------------------------------------------------------------------
// The selection
// ---------------------------------------------------------------------------
/// The change at position `j` names the commit `sha`, as its resolution told.
pub open spec fn names_commit(
    t: Seq<Reply>,
    n: int,
    changes: Seq<RewordView>,
    j: int,
    sha: Text,
) -> bool {
    0 <= j < changes.len() && said(t, n + 2 * j + 1) == sha
}

/// The message that is requested for a commit, if any change names it.
pub open spec fn requested_message(
    t: Seq<Reply>,
    n: int,
    changes: Seq<RewordView>,
    sha: Text,
) -> Option<Text> {
    if exists|j: int| names_commit(t, n, changes, j, sha) {
        Some(changes[choose|j: int| names_commit(t, n, changes, j, sha)].message)
    } else {
        None
    }
}

/// What the operation was told of the commits to reword: each change names one
/// of the history, no two the same, the first of them at `from`; and, where
/// only local commits may be rewritten, the commits from there on are
/// unpublished.
pub open spec fn changes_told<T>(
    operation: spec_fn(Seq<Reply>) -> FlowView<T>,
    t: Seq<Reply>,
    n: int,
    args: RewordArgsView,
    plan: HistoryPlanView,
    from: int,
) -> bool {
    &&& 0 <= from < plan.commits.len()
    &&& suffix_permitted(plan, from)
    &&& forall|j: int|
        0 <= j < args.changes.len() ==> {
            &&& performed(
                operation,
                t,
                n + 2 * j + 1,
                args.repo,
                Command::ResolveCommit { revision: (#[trigger] args.changes[j]).commit },
            )
            &&& exists|k: int|
                from <= k < plan.commits.len() && (#[trigger] plan.commits[k]).sha == said(
                    t,
                    n + 2 * j + 1,
                )
            &&& conventional_verdict(args.changes[j].message) is Ok
        }
    &&& forall|j: int, k: int, sha: Text|
        #![
            trigger names_commit(t, n, args.changes, j, sha),
            names_commit(t, n, args.changes, k, sha),
        ]
        names_commit(t, n, args.changes, j, sha) && names_commit(t, n, args.changes, k, sha)
            ==> j == k
    &&& requested_message(t, n, args.changes, plan.commits[from].sha) is Some
    &&& args.rewrite_policy == RewritePolicy::LocalOnly ==> forall|j: int|
        from <= j < plan.commits.len() ==> seen_unpublished(
            operation,
            t,
            lookup_at(n + 2 * args.changes.len(), plan.upstream, j - from),
            args.repo,
            (#[trigger] plan.commits[j]).sha,
            plan.upstream,
        )
}

#[verifier::rlimit(40)]
proof fn lemma_selection_carries(
    args: RewordArgsView,
    plan: HistoryPlanView,
    t: Seq<Reply>,
    n: int,
)
    requires
        0 <= n <= t.len(),
        args.changes.len() > 0,
        reword_selection_flow(args, plan, t, n) is Got,
    ensures
        ({
            let m = n + 2 * args.changes.len();
            let from = reword_selection_flow(args, plan, t, n)->Got_0.0;
            let op = selecting(args, plan, n);
            &&& carries(op, resolving_changes(args.repo, args.changes, 0, Seq::empty(), n), t, n)
            &&& args.rewrite_policy == RewritePolicy::LocalOnly ==> {
                &&& unpublished_suffix_flow(
                    args.repo,
                    plan.commits,
                    plan.upstream,
                    from,
                    t,
                    m,
                ) is Got
                &&& carries(
                    op,
                    suffix_check(args.repo, plan.commits, plan.upstream, from, m),
                    t,
                    m,
                )
            }
        }),
{
    lemma_selection(args, plan, t, n);
    changes_extent(args.repo, args.changes, 0, Seq::empty(), t, n);
    let m = n + 2 * args.changes.len();
    let from = reword_selection_flow(args, plan, t, n)->Got_0.0;
    let op = selecting(args, plan, n);
    let part = resolving_changes(args.repo, args.changes, 0, Seq::empty(), n);
    assert forall|p: int|
        n <= p <= t.len() && request(part(#[trigger] t.take(p))) is Some implies request(
        op(t.take(p)),
    ) == request(part(t.take(p))) by {
        let s = t.take(p);
        assert(op(s) == reword_selection_flow(args, plan, s, n));
        assert(part(s) == resolve_changes_flow(args.repo, args.changes, 0, Seq::empty(), s, n));
    }
    let check = suffix_check(args.repo, plan.commits, plan.upstream, from, m);
    if args.rewrite_policy == RewritePolicy::LocalOnly {
        assert forall|p: int|
            m <= p <= t.len() && request(check(#[trigger] t.take(p))) is Some implies request(
            op(t.take(p)),
        ) == request(check(t.take(p))) by {
            let s = t.take(p);
            assert(op(s) == reword_selection_flow(args, plan, s, n));
            assert(agree(t, s, m));
            changes_reads(args.repo, args.changes, 0, Seq::empty(), t, s, n);
            assert(check(s) == unpublished_suffix_flow(
                args.repo,
                plan.commits,
                plan.upstream,
                from,
                s,
                m,
            ));
            assert(request(
                suffix_rewrite_flow(args.repo, plan, from, args.rewrite_policy, s, m),
            ) == request(check(s)));
        }
    }
}

/// Each change is resolved, and told to name a commit of the history.
#[verifier::rlimit(40)]
proof fn lemma_changes_named<T>(
    operation: spec_fn(Seq<Reply>) -> FlowView<T>,
    args: RewordArgsView,
    plan: HistoryPlanView,
    t: Seq<Reply>,
    n: int,
)
    requires
        0 <= n <= t.len(),
        args.changes.len() > 0,
        reword_selection_flow(args, plan, t, n) is Got,
        carries(operation, selecting(args, plan, n), t, n),
    ensures
        ({
            let shas = reword_selection_flow(args, plan, t, n)->Got_0.1;
            &&& shas.len() == args.changes.len()
            &&& forall|j: int|
                0 <= j < args.changes.len() ==> resolved(
                    operation,
                    t,
                    n + 2 * j + 1,
                    args.repo,
                    (#[trigger] args.changes[j]).commit,
                    shas[j],
                )
        }),
{
    lemma_selection(args, plan, t, n);
    lemma_selection_carries(args, plan, t, n);
    let part = resolving_changes(args.repo, args.changes, 0, Seq::empty(), n);
    lemma_carried(operation, selecting(args, plan, n), part, t, n, n);
    lemma_changes_resolved(args.repo, args.changes, 0, Seq::empty(), t, n);
    let shas = reword_selection_flow(args, plan, t, n)->Got_0.1;
    assert forall|j: int| 0 <= j < args.changes.len() implies resolved(
        operation,
        t,
        n + 2 * j + 1,
        args.repo,
        (#[trigger] args.changes[j]).commit,
        shas[j],
    ) by {
        assert(resolved(part, t, n + 2 * j + 1, args.repo, args.changes[j].commit, shas[j]));
        lemma_answered(
            operation,
            part,
            t,
            n,
            n + 2 * j + 1,
            args.repo,
            Command::ResolveCommit { revision: args.changes[j].commit },
        );
    }
}

/// Where only local commits may be rewritten, those from the first on are
/// unpublished.
#[verifier::rlimit(40)]
proof fn lemma_changes_local<T>(
    operation: spec_fn(Seq<Reply>) -> FlowView<T>,
    args: RewordArgsView,
    plan: HistoryPlanView,
    t: Seq<Reply>,
    n: int,
)
    requires
        0 <= n <= t.len(),
        args.changes.len() > 0,
        reword_selection_flow(args, plan, t, n) is Got,
        carries(operation, selecting(args, plan, n), t, n),
        args.rewrite_policy == RewritePolicy::LocalOnly,
    ensures
        ({
            let from = reword_selection_flow(args, plan, t, n)->Got_0.0;
            forall|j: int|
                from <= j < plan.commits.len() ==> seen_unpublished(
                    operation,
                    t,
                    lookup_at(n + 2 * args.changes.len(), plan.upstream, j - from),
                    args.repo,
                    (#[trigger] plan.commits[j]).sha,
                    plan.upstream,
                )
        }),
{
    lemma_selection(args, plan, t, n);
    lemma_selection_carries(args, plan, t, n);
    lemma_changes_resolved(args.repo, args.changes, 0, Seq::empty(), t, n);
    let from = reword_selection_flow(args, plan, t, n)->Got_0.0;
    let m = n + 2 * args.changes.len();
    lemma_suffix_unpublished(args.repo, plan.commits, plan.upstream, from, t, m);
    let check = suffix_check(args.repo, plan.commits, plan.upstream, from, m);
    lemma_carried(operation, selecting(args, plan, n), check, t, n, m);
    assert forall|j: int| from <= j < plan.commits.len() implies seen_unpublished(
        operation,
        t,
        lookup_at(m, plan.upstream, j - from),
        args.repo,
        (#[trigger] plan.commits[j]).sha,
        plan.upstream,
    ) by {
        lemma_seen_unpublished_by(
            operation,
            check,
            t,
            m,
            lookup_at(m, plan.upstream, j - from),
            args.repo,
            plan.commits[j].sha,
            plan.upstream,
        );
    }
}

/// What the resolutions of the changes come to.
#[verifier::rlimit(40)]
proof fn lemma_changes_told<T>(
    operation: spec_fn(Seq<Reply>) -> FlowView<T>,
    args: RewordArgsView,
    plan: HistoryPlanView,
    from: int,
    shas: Seq<Text>,
    t: Seq<Reply>,
    n: int,
)
    requires
        0 <= from < plan.commits.len(),
        suffix_permitted(plan, from),
        shas.len() == args.changes.len(),
        shas.no_duplicates(),
        forall|j: int|
            0 <= j < args.changes.len() ==> resolved(
                operation,
                t,
                n + 2 * j + 1,
                args.repo,
                (#[trigger] args.changes[j]).commit,
                shas[j],
            ),
        forall|j: int|
            0 <= j < args.changes.len() ==> conventional_verdict(
                (#[trigger] args.changes[j]).message,
            ) is Ok,
        forall|j: int|
            0 <= j < shas.len() ==> exists|k: int|
                from <= k < plan.commits.len() && #[trigger] plan.commits[k].sha
                    == #[trigger] shas[j],
        shas.contains(plan.commits[from].sha),
        args.rewrite_policy == RewritePolicy::LocalOnly ==> forall|j: int|
            from <= j < plan.commits.len() ==> seen_unpublished(
                operation,
                t,
                lookup_at(n + 2 * args.changes.len(), plan.upstream, j - from),
                args.repo,
                (#[trigger] plan.commits[j]).sha,
                plan.upstream,
            ),
    ensures
        changes_told(operation, t, n, args, plan, from),
        forall|j: int| 0 <= j < shas.len() ==> said(t, n + 2 * j + 1) == #[trigger] shas[j],
{
    assert forall|j: int| 0 <= j < shas.len() implies said(t, n + 2 * j + 1) == #[trigger] shas[j] by {
        let change = args.changes[j];
        assert(resolved(operation, t, n + 2 * j + 1, args.repo, change.commit, shas[j]));
    }
    assert forall|j: int| 0 <= j < args.changes.len() implies {
        &&& performed(
            operation,
            t,
            n + 2 * j + 1,
            args.repo,
            Command::ResolveCommit { revision: (#[trigger] args.changes[j]).commit },
        )
        &&& exists|k: int|
            from <= k < plan.commits.len() && (#[trigger] plan.commits[k]).sha == said(
                t,
                n + 2 * j + 1,
            )
        &&& conventional_verdict(args.changes[j].message) is Ok
    } by {
        let k = choose|k: int|
            from <= k < plan.commits.len() && #[trigger] plan.commits[k].sha == shas[j];
        assert(plan.commits[k].sha == said(t, n + 2 * j + 1));
    }
    assert forall|j: int, k: int, sha: Text|
        #![
            trigger names_commit(t, n, args.changes, j, sha),
            names_commit(t, n, args.changes, k, sha),
        ]
        names_commit(t, n, args.changes, j, sha) && names_commit(
            t,
            n,
            args.changes,
            k,
            sha,
        ) implies j == k by {
        assert(shas[j] == shas[k]);
    }
    let first = plan.commits[from].sha;
    let k = choose|k: int| 0 <= k < shas.len() && shas[k] == first;
    assert(names_commit(t, n, args.changes, k, first));
}

/// What is written for a commit is the message that is requested for it.
#[verifier::rlimit(40)]
proof fn lemma_requested(
    t: Seq<Reply>,
    n: int,
    changes: Seq<RewordView>,
    shas: Seq<Text>,
    sha: Text,
)
    requires
        shas.len() == changes.len(),
        shas.no_duplicates(),
        forall|j: int| 0 <= j < shas.len() ==> said(t, n + 2 * j + 1) == #[trigger] shas[j],
    ensures
        reworded(shas, changes, sha) == requested_message(t, n, changes, sha),
{
    lemma_last_position(shas, sha);
    match last_position(shas, sha) {
        Some(i) => {
            assert(names_commit(t, n, changes, i, sha));
            let j = choose|j: int| names_commit(t, n, changes, j, sha);
            assert(shas[j] == sha);
            assert(i == j);
        },
        None => {
            assert forall|j: int| !names_commit(t, n, changes, j, sha) by {
                if 0 <= j < changes.len() {
                    assert(shas.contains(shas[j]));
                }
            }
        },
    }
}

// ---------------------------------------------------------------------------
// The new commits
// ---------------------------------------------------------------------------
/// What the operation made: one commit for each from `from` on, in order, on
/// the parent of the first, each with the tree and the author of the one it
/// stands for, and with the message that is requested for it or else the whole
/// message that was read; and the branch moved from the old tip to the last.
pub open spec fn history_made<T>(
    operation: spec_fn(Seq<Reply>) -> FlowView<T>,
    t: Seq<Reply>,
    selected_at: int,
    n: int,
    args: RewordArgsView,
    plan: HistoryPlanView,
    from: int,
    head: Text,
    done: RewordedView,
) -> bool {
    let first = snapshot_at(t, n + 3);
    let end = n + 4 + 4 * (plan.commits.len() - from);
    &&& performed(operation, t, n, args.repo, Command::ResolveTree { revision: head })
    &&& commit_read(operation, t, n + 3, args.repo, plan.commits[from].sha)
    &&& first.parents.len() > 0
    &&& done.rewritten.len() == plan.commits.len() - from
    &&& forall|j: int|
        from <= j < plan.commits.len() ==> {
            let message = requested_message(
                t,
                selected_at,
                args.changes,
                (#[trigger] plan.commits[j]).sha,
            );
            let q = n + 4 + 4 * (j - from);
            &&& remade(
                operation,
                t,
                q,
                args.repo,
                plan.commits[j].sha,
                parent_at(t, n + 4, first.parents[0], j - from),
                message,
            )
            &&& reported_rewrite(t, q, message, done.rewritten[j - from])
        }
    &&& exists|k: int|
        0 <= k < done.rewritten.len() && (#[trigger] done.rewritten[k]).message_changed
    &&& done.new_head == parent_at(t, n + 4, first.parents[0], plan.commits.len() - from)
    &&& installed(operation, t, end, args.repo, plan.branch, done.new_head, head, said(t, n))
    &&& done.status == output_at(t, end + 2).stdout
}

#[verifier::rlimit(40)]
proof fn lemma_remaking_parts(
    args: RewordArgsView,
    plan: HistoryPlanView,
    from: int,
    shas: Seq<Text>,
    head: Text,
    t: Seq<Reply>,
    n: int,
)
    requires
        0 <= n <= t.len(),
        0 <= from < plan.commits.len(),
        reword_replay_flow(args, plan, from, shas, head, t, n) is Got,
    ensures
        ({
            let first = snapshot_at(t, n + 3);
            let rest = plan.commits.len() - from;
            let m = n + 4 + 4 * rest;
            let done = reword_replay_flow(args, plan, from, shas, head, t, n)->Got_0;
            &&& tree_sha_flow(args.repo, head, t, n) == FlowView::Got(said(t, n), n + 1)
            &&& commit_snapshot_flow(args.repo, plan.commits[from].sha, t, n + 1) == FlowView::Got(
                first,
                n + 4,
            )
            &&& first.parents.len() > 0
            &&& replay_flow(
                args.repo,
                plan.commits,
                shas,
                args.changes,
                from,
                first.parents[0],
                Seq::empty(),
                t,
                n + 4,
            ) == FlowView::Got((done.new_head, done.rewritten), m)
            &&& any_changed(done.rewritten)
            &&& install_flow(
                args.repo,
                plan.branch,
                done.new_head,
                head,
                said(t, n),
                t,
                m,
            ) == FlowView::Got(output_at(t, m + 2).stdout, m + 3)
            &&& m + 3 <= t.len()
            &&& done.status == output_at(t, m + 2).stdout
            &&& done.branch == plan.branch
            &&& done.old_head == head
            &&& done.operation == "reword_commits"@
        }),
{
    let first = snapshot_at(t, n + 3);
    assert(tree_sha_flow(args.repo, head, t, n) == FlowView::Got(said(t, n), n + 1));
    lemma_commit_read(args.repo, plan.commits[from].sha, t, n + 1);
    lemma_reword_tail(
        args.repo,
        plan.commits,
        shas,
        args.changes,
        from,
        first.parents[0],
        Seq::empty(),
        t,
        n + 4,
    );
    let made = replay_flow(
        args.repo,
        plan.commits,
        shas,
        args.changes,
        from,
        first.parents[0],
        Seq::empty(),
        t,
        n + 4,
    )->Got_0;
    let m = n + 4 + 4 * (plan.commits.len() - from);
    lemma_installed(args.repo, plan.branch, made.0, head, said(t, n), t, m);
}

#[verifier::rlimit(40)]
proof fn lemma_remaking_reads(
    args: RewordArgsView,
    plan: HistoryPlanView,
    from: int,
    shas: Seq<Text>,
    head: Text,
    t: Seq<Reply>,
    n: int,
)
    requires
        0 <= n <= t.len(),
        0 <= from < plan.commits.len(),
        reword_replay_flow(args, plan, from, shas, head, t, n) is Got,
    ensures
        performed(
            remaking(args, plan, from, shas, head, n),
            t,
            n,
            args.repo,
            Command::ResolveTree { revision: head },
        ),
        carries(
            remaking(args, plan, from, shas, head, n),
            reading(args.repo, plan.commits[from].sha, n + 1),
            t,
            n + 1,
        ),
{
    lemma_remaking_parts(args, plan, from, shas, head, t, n);
    let op = remaking(args, plan, from, shas, head, n);
    let start = t.take(n);
    assert(op(start) == reword_replay_flow(args, plan, from, shas, head, start, n));
    assert(request(tree_sha_flow(args.repo, head, start, n)) is Some);
    let part = reading(args.repo, plan.commits[from].sha, n + 1);
    assert forall|p: int|
        n + 1 <= p <= t.len() && request(part(#[trigger] t.take(p))) is Some implies request(
        op(t.take(p)),
    ) == request(part(t.take(p))) by {
        let s = t.take(p);
        assert(op(s) == reword_replay_flow(args, plan, from, shas, head, s, n));
        assert(agree(t, s, n + 1));
        tree_reads(args.repo, head, t, s, n);
        assert(part(s) == commit_snapshot_flow(args.repo, plan.commits[from].sha, s, n + 1));
    }
}

#[verifier::rlimit(40)]
proof fn lemma_remaking_replays(
    args: RewordArgsView,
    plan: HistoryPlanView,
    from: int,
    shas: Seq<Text>,
    head: Text,
    t: Seq<Reply>,
    n: int,
)
    requires
        0 <= n <= t.len(),
        0 <= from < plan.commits.len(),
        reword_replay_flow(args, plan, from, shas, head, t, n) is Got,
    ensures
        carries(
            remaking(args, plan, from, shas, head, n),
            reword_tail(
                args.repo,
                plan.commits,
                shas,
                args.changes,
                from,
                snapshot_at(t, n + 3).parents[0],
                Seq::empty(),
                n + 4,
            ),
            t,
            n + 4,
        ),
{
    lemma_remaking_parts(args, plan, from, shas, head, t, n);
    let op = remaking(args, plan, from, shas, head, n);
    let parent = snapshot_at(t, n + 3).parents[0];
    let part = reword_tail(
        args.repo,
        plan.commits,
        shas,
        args.changes,
        from,
        parent,
        Seq::empty(),
        n + 4,
    );
    assert forall|p: int|
        n + 4 <= p <= t.len() && request(part(#[trigger] t.take(p))) is Some implies request(
        op(t.take(p)),
    ) == request(part(t.take(p))) by {
        let s = t.take(p);
        assert(op(s) == reword_replay_flow(args, plan, from, shas, head, s, n));
        assert(agree(t, s, n + 1));
        tree_reads(args.repo, head, t, s, n);
        assert(agree(t, s, n + 4));
        snapshot_reads(args.repo, plan.commits[from].sha, t, s, n + 1);
        assert(part(s) == replay_flow(
            args.repo,
            plan.commits,
            shas,
            args.changes,
            from,
            parent,
            Seq::empty(),
            s,
            n + 4,
        ));
    }
}

#[verifier::rlimit(40)]
proof fn lemma_remaking_installs(
    args: RewordArgsView,
    plan: HistoryPlanView,
    from: int,
    shas: Seq<Text>,
    head: Text,
    t: Seq<Reply>,
    n: int,
)
    requires
        0 <= n <= t.len(),
        0 <= from < plan.commits.len(),
        reword_replay_flow(args, plan, from, shas, head, t, n) is Got,
    ensures
        ({
            let done = reword_replay_flow(args, plan, from, shas, head, t, n)->Got_0;
            let m = n + 4 + 4 * (plan.commits.len() - from);
            carries(
                remaking(args, plan, from, shas, head, n),
                installing(args.repo, plan.branch, done.new_head, head, said(t, n), m),
                t,
                m,
            )
        }),
{
    lemma_remaking_parts(args, plan, from, shas, head, t, n);
    let op = remaking(args, plan, from, shas, head, n);
    let done = reword_replay_flow(args, plan, from, shas, head, t, n)->Got_0;
    let m = n + 4 + 4 * (plan.commits.len() - from);
    let tree = said(t, n);
    let parent = snapshot_at(t, n + 3).parents[0];
    let part = installing(args.repo, plan.branch, done.new_head, head, tree, m);
    assert forall|p: int|
        m <= p <= t.len() && request(part(#[trigger] t.take(p))) is Some implies request(
        op(t.take(p)),
    ) == request(part(t.take(p))) by {
        let s = t.take(p);
        assert(op(s) == reword_replay_flow(args, plan, from, shas, head, s, n));
        assert(agree(t, s, n + 1));
        tree_reads(args.repo, head, t, s, n);
        assert(agree(t, s, n + 4));
        snapshot_reads(args.repo, plan.commits[from].sha, t, s, n + 1);
        assert(agree(t, s, m));
        replay_reads(
            args.repo,
            plan.commits,
            shas,
            args.changes,
            from,
            parent,
            Seq::empty(),
            t,
            s,
            n + 4,
        );
        assert(part(s) == install_flow(
            args.repo,
            plan.branch,
            done.new_head,
            head,
            tree,
            s,
            m,
        ));
    }
}

/// The commits that are made anew, as the whole operation sees them.
#[verifier::rlimit(40)]
proof fn lemma_remade<T>(
    operation: spec_fn(Seq<Reply>) -> FlowView<T>,
    selected_at: int,
    args: RewordArgsView,
    plan: HistoryPlanView,
    from: int,
    shas: Seq<Text>,
    head: Text,
    t: Seq<Reply>,
    n: int,
)
    requires
        0 <= n <= t.len(),
        0 <= from < plan.commits.len(),
        reword_replay_flow(args, plan, from, shas, head, t, n) is Got,
        carries(operation, remaking(args, plan, from, shas, head, n), t, n),
        shas.len() == args.changes.len(),
        shas.no_duplicates(),
        forall|j: int|
            0 <= j < shas.len() ==> said(t, selected_at + 2 * j + 1) == #[trigger] shas[j],
    ensures
        ({
            let first = snapshot_at(t, n + 3);
            let done = reword_replay_flow(args, plan, from, shas, head, t, n)->Got_0;
            &&& done.rewritten.len() == plan.commits.len() - from
            &&& done.new_head == parent_at(
                t,
                n + 4,
                first.parents[0],
                plan.commits.len() - from,
            )
            &&& forall|j: int|
                from <= j < plan.commits.len() ==> {
                    let message = requested_message(
                        t,
                        selected_at,
                        args.changes,
                        (#[trigger] plan.commits[j]).sha,
                    );
                    let q = n + 4 + 4 * (j - from);
                    &&& remade(
                        operation,
                        t,
                        q,
                        args.repo,
                        plan.commits[j].sha,
                        parent_at(t, n + 4, first.parents[0], j - from),
                        message,
                    )
                    &&& reported_rewrite(t, q, message, done.rewritten[j - from])
                }
        }),
{
    lemma_remaking_parts(args, plan, from, shas, head, t, n);
    lemma_remaking_replays(args, plan, from, shas, head, t, n);
    let parent = snapshot_at(t, n + 3).parents[0];
    let op = remaking(args, plan, from, shas, head, n);
    let tail = reword_tail(
        args.repo,
        plan.commits,
        shas,
        args.changes,
        from,
        parent,
        Seq::empty(),
        n + 4,
    );
    lemma_carried(operation, op, tail, t, n, n + 4);
    lemma_reword_tail(
        args.repo,
        plan.commits,
        shas,
        args.changes,
        from,
        parent,
        Seq::empty(),
        t,
        n + 4,
    );
    let done = reword_replay_flow(args, plan, from, shas, head, t, n)->Got_0;
    assert forall|j: int| from <= j < plan.commits.len() implies {
        let message = requested_message(
            t,
            selected_at,
            args.changes,
            (#[trigger] plan.commits[j]).sha,
        );
        let q = n + 4 + 4 * (j - from);
        &&& remade(
            operation,
            t,
            q,
            args.repo,
            plan.commits[j].sha,
            parent_at(t, n + 4, parent, j - from),
            message,
        )
        &&& reported_rewrite(t, q, message, done.rewritten[j - from])
    } by {
        let sha = plan.commits[j].sha;
        lemma_requested(t, selected_at, args.changes, shas, sha);
        lemma_remade_by(
            operation,
            tail,
            t,
            n + 4,
            n + 4 + 4 * (j - from),
            args.repo,
            sha,
            parent_at(t, n + 4, parent, j - from),
            reworded(shas, args.changes, sha),
        );
    }
}

/// The first commit that is read, and the branch that is moved, as the whole
/// operation sees them.
#[verifier::rlimit(40)]
proof fn lemma_moved<T>(
    operation: spec_fn(Seq<Reply>) -> FlowView<T>,
    args: RewordArgsView,
    plan: HistoryPlanView,
    from: int,
    shas: Seq<Text>,
    head: Text,
    t: Seq<Reply>,
    n: int,
)
    requires
        0 <= n <= t.len(),
        0 <= from < plan.commits.len(),
        reword_replay_flow(args, plan, from, shas, head, t, n) is Got,
        carries(operation, remaking(args, plan, from, shas, head, n), t, n),
    ensures
        ({
            let end = n + 4 + 4 * (plan.commits.len() - from);
            let done = reword_replay_flow(args, plan, from, shas, head, t, n)->Got_0;
            &&& performed(operation, t, n, args.repo, Command::ResolveTree { revision: head })
            &&& commit_read(operation, t, n + 3, args.repo, plan.commits[from].sha)
            &&& installed(
                operation,
                t,
                end,
                args.repo,
                plan.branch,
                done.new_head,
                head,
                said(t, n),
            )
            &&& done.status == output_at(t, end + 2).stdout
        }),
{
    lemma_remaking_parts(args, plan, from, shas, head, t, n);
    lemma_remaking_reads(args, plan, from, shas, head, t, n);
    lemma_remaking_installs(args, plan, from, shas, head, t, n);
    let op = remaking(args, plan, from, shas, head, n);
    let end = n + 4 + 4 * (plan.commits.len() - from);
    let done = reword_replay_flow(args, plan, from, shas, head, t, n)->Got_0;
    let sha = plan.commits[from].sha;
    let one = reading(args.repo, sha, n + 1);
    let two = installing(args.repo, plan.branch, done.new_head, head, said(t, n), end);
    lemma_answered(operation, op, t, n, n, args.repo, Command::ResolveTree { revision: head });
    lemma_commit_read(args.repo, sha, t, n + 1);
    lemma_carried(operation, op, one, t, n, n + 1);
    lemma_commit_read_by(operation, one, t, n + 1, n + 3, args.repo, sha);
    lemma_installed(args.repo, plan.branch, done.new_head, head, said(t, n), t, end);
    lemma_carried(operation, op, two, t, n, end);
    lemma_installed_by(
        operation,
        two,
        t,
        end,
        args.repo,
        plan.branch,
        done.new_head,
        head,
        said(t, n),
    );
}

#[verifier::rlimit(40)]
proof fn lemma_plan_stage(server: GitServer, args: RewordArgsView, t: Seq<Reply>)
    requires
        reword_flow(server, args, t, 0) is Got,
        reword_flow(server, args, t, 0)->Got_0 is Done,
    ensures
        plan_told(
            rewording(server, args),
            t,
            1,
            args.repo,
            args.base,
            stages(server, args, t).plan,
        ),
        performed(rewording(server, args), t, 0, args.repo, Command::HeadCommit),
        !server.read_only,
        1 <= args.changes.len() <= 64,
{
    lemma_stages(server, args, t);
    lemma_stages_carry(server, args, t);
    law_plan_reports(args.repo, args.base, t, 1);
    lemma_plan_told_by(
        rewording(server, args),
        planning(args.repo, args.base, 1),
        t,
        1,
        args.repo,
        args.base,
        stages(server, args, t).plan,
    );
}

#[verifier::rlimit(40)]
proof fn lemma_changes_stage(server: GitServer, args: RewordArgsView, t: Seq<Reply>)
    requires
        reword_flow(server, args, t, 0) is Got,
        reword_flow(server, args, t, 0)->Got_0 is Done,
    ensures
        ({
            let w = stages(server, args, t);
            &&& changes_told(rewording(server, args), t, w.selected_at, args, w.plan, w.from)
            &&& w.shas.len() == args.changes.len()
            &&& w.shas.no_duplicates()
            &&& forall|j: int|
                0 <= j < w.shas.len() ==> said(t, w.selected_at + 2 * j + 1) == #[trigger] w.shas[j]
        }),
{
    lemma_stages(server, args, t);
    lemma_stages_carry(server, args, t);
    let w = stages(server, args, t);
    let op = rewording(server, args);
    lemma_selection(args, w.plan, t, w.selected_at);
    lemma_changes_named(op, args, w.plan, t, w.selected_at);
    if args.rewrite_policy == RewritePolicy::LocalOnly {
        lemma_changes_local(op, args, w.plan, t, w.selected_at);
    }
    lemma_changes_told(op, args, w.plan, w.from, w.shas, t, w.selected_at);
}

#[verifier::rlimit(40)]
proof fn lemma_names_stage(server: GitServer, args: RewordArgsView, t: Seq<Reply>)
    requires
        reword_flow(server, args, t, 0) is Got,
        reword_flow(server, args, t, 0)->Got_0 is Done,
    ensures
        ({
            let w = stages(server, args, t);
            &&& 0 <= w.from < w.plan.commits.len()
            &&& w.shas.len() == args.changes.len()
            &&& w.shas.no_duplicates()
            &&& forall|j: int|
                0 <= j < w.shas.len() ==> said(t, w.selected_at + 2 * j + 1) == #[trigger] w.shas[j]
        }),
{
    lemma_changes_stage(server, args, t);
}

#[verifier::rlimit(40)]
proof fn lemma_made_stage(server: GitServer, args: RewordArgsView, t: Seq<Reply>)
    requires
        reword_flow(server, args, t, 0) is Got,
        reword_flow(server, args, t, 0)->Got_0 is Done,
    ensures
        ({
            let w = stages(server, args, t);
            let done = reword_flow(server, args, t, 0)->Got_0->Done_0;
            &&& history_made(
                rewording(server, args),
                t,
                w.selected_at,
                w.made_at,
                args,
                w.plan,
                w.from,
                said(t, 0),
                done,
            )
            &&& done.old_head == said(t, 0)
            &&& done.branch == w.plan.branch
            &&& done.operation == "reword_commits"@
        }),
{
    lemma_stages(server, args, t);
    lemma_stages_carry(server, args, t);
    lemma_names_stage(server, args, t);
    let w = stages(server, args, t);
    let head = said(t, 0);
    let op = rewording(server, args);
    lemma_remaking_parts(args, w.plan, w.from, w.shas, head, t, w.made_at);
    lemma_remade(op, w.selected_at, args, w.plan, w.from, w.shas, head, t, w.made_at);
    lemma_moved(op, args, w.plan, w.from, w.shas, head, t, w.made_at);
}

// ---------------------------------------------------------------------------
// The law
// ---------------------------------------------------------------------------
/// Where a rewording is done, its result says what was asked for and told: the
/// commit at `HEAD`; the history of the branch; which commit of it each change
/// names; and that each commit from the first of those on was made again, in
/// order, on the one before it, with its tree and its author. The message of
/// the new commit is the requested one where a change names the commit, and
/// exactly the message that was read of it where none does; a report says that
/// the message changed exactly where the two differ. The law gives the history
/// and the first commit that was made anew, and where in the dialogue the
/// changes were resolved and the commits made.
#[verifier::rlimit(40)]
pub proof fn law_reword_keeps_other_messages(
    server: GitServer,
    args: RewordArgsView,
    t: Seq<Reply>,
) -> (stages: Stages)
    requires
        reword_flow(server, args, t, 0) is Got,
        reword_flow(server, args, t, 0)->Got_0 is Done,
    ensures
        ({
            let op = rewording(server, args);
            let done = reword_flow(server, args, t, 0)->Got_0->Done_0;
            &&& !server.read_only
            &&& 1 <= args.changes.len() <= 64
            &&& performed(op, t, 0, args.repo, Command::HeadCommit)
            &&& done.old_head == said(t, 0)
            &&& plan_told(op, t, 1, args.repo, args.base, stages.plan)
            &&& done.branch == stages.plan.branch
            &&& changes_told(op, t, stages.selected_at, args, stages.plan, stages.from)
            &&& history_made(
                op,
                t,
                stages.selected_at,
                stages.made_at,
                args,
                stages.plan,
                stages.from,
                done.old_head,
                done,
            )
            &&& done.operation == "reword_commits"@
        }),
{
    lemma_plan_stage(server, args, t);
    lemma_changes_stage(server, args, t);
    lemma_made_stage(server, args, t);
    stages(server, args, t)
}

} // verus!
