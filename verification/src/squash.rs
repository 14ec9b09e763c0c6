//! Making one commit of several.
use crate::flow::{check, checked, fail, flow, unless, Flow, FlowView, Halt, Reply};
use crate::history::{
    history_plan, history_plan_flow, HistoryCommit, HistoryCommitView, HistoryPlan,
    HistoryPlanView,
};
use crate::policy::{conventional_verdict, validate_conventional_commit_message};
use crate::queries::{tree_sha, tree_sha_flow};
use crate::rewrite::{
    ensure_suffix_rewrite_safe, install, install_flow, report, rewrite_flow, start,
    suffix_rewrite_flow, RewriteFailure, RewriteFailureView, RewriteOutcome, RewritePolicy, Start,
};
use crate::selection::{
    as_ints, find_positions, law_positions, positions, resolve_distinct, resolve_distinct_flow,
};
use crate::server::GitServer;
use crate::snapshot::{
    commit_snapshot, commit_snapshot_flow, create_commit_flow, create_commit_from_snapshot,
    SnapshotView,
};
use crate::text::Text;
use vstd::prelude::*;

verus! {

/// The fewest commits that one request may squash.
pub const MIN_SQUASH: usize = 2;

/// The most commits that one request may squash.
pub const MAX_SQUASH: usize = 128;

/// The commits of `base..HEAD` that are to become one.
#[derive(Debug)]
pub struct SquashCommitsArgs {
    pub repo: String,
    pub base: String,
    pub commits: Vec<String>,
    pub message: String,
    pub rewrite_policy: RewritePolicy,
}

/// What is to be squashed, as contracts speak of it.
pub struct SquashArgsView {
    pub repo: Text,
    pub base: Text,
    pub commits: Seq<Text>,
    pub message: Text,
    pub rewrite_policy: RewritePolicy,
}

impl DeepView for SquashCommitsArgs {
    type V = SquashArgsView;

    open spec fn deep_view(&self) -> SquashArgsView {
        SquashArgsView {
            repo: self.repo@,
            base: self.base@,
            commits: self.commits.deep_view(),
            message: self.message@,
            rewrite_policy: self.rewrite_policy,
        }
    }
}

/// A squashed history.
#[derive(Debug)]
pub struct SquashCommitsOutput {
    pub operation: String,
    pub branch: String,
    pub old_head: String,
    pub new_head: String,
    pub squashed_count: usize,
    pub new_commit: String,
    pub status: String,
}

/// A squashed history as contracts speak of it.
pub struct SquashedView {
    pub operation: Text,
    pub branch: Text,
    pub old_head: Text,
    pub new_head: Text,
    pub squashed_count: nat,
    pub new_commit: Text,
    pub status: Text,
}

impl DeepView for SquashCommitsOutput {
    type V = SquashedView;

    open spec fn deep_view(&self) -> SquashedView {
        SquashedView {
            operation: self.operation@,
            branch: self.branch@,
            old_head: self.old_head@,
            new_head: self.new_head@,
            squashed_count: self.squashed_count as nat,
            new_commit: self.new_commit@,
            status: self.status@,
        }
    }
}

// ---------------------------------------------------------------------------
// The selection
// ---------------------------------------------------------------------------
/// The numbers follow one another without a gap.
pub open spec fn contiguous(list: Seq<int>) -> bool {
    forall|k: int| 0 <= k < list.len() ==> #[trigger] list[k] == list[0] + k
}

fn is_contiguous(list: &Vec<usize>) -> (r: bool)
    requires
        list@.len() > 0,
    ensures
        r == contiguous(as_ints(list@)),
{
    let ghost all = as_ints(list@);
    let first: usize = list[0];
    let mut k: usize = 0;
    while k < list.len()
        invariant
            all == as_ints(list@),
            list@.len() > 0,
            first == list@[0],
            k <= list@.len(),
            forall|j: int| 0 <= j < k ==> #[trigger] all[j] == first + j,
        decreases list@.len() - k,
    {
        assert(all[k as int] == list@[k as int]);
        if list[k] < first || list[k] - first != k {
            return false;
        }
        k += 1;
    }
    true
}

/// The selected commits: the position of the first and of the last, which
/// together with what lies between them are the selection, in its order; the
/// commits from the first on may be rewritten.
pub open spec fn squash_selection_flow(
    args: SquashArgsView,
    plan: HistoryPlanView,
    t: Seq<Reply>,
    n: int,
) -> FlowView<(int, int)> {
    resolve_distinct_flow(
        args.repo,
        args.commits,
        0,
        Seq::empty(),
        "duplicate commit in squash request"@,
        t,
        n,
    ).and_then(
        |shas: Seq<Text>, n: int|
            checked(positions(plan.commits, shas, args.base), n).and_then(
                |found: Seq<int>, n: int|
                    unless(
                        !contiguous(found),
                        "squash commits must be one contiguous oldest-to-newest history range"@,
                        n,
                    ).and_then(
                        |_u: (), n: int|
                            suffix_rewrite_flow(
                                args.repo,
                                plan,
                                found[0],
                                args.rewrite_policy,
                                t,
                                n,
                            ).map(|_u: ()| (found[0], found.last())),
                    ),
            ),
    )
}

proof fn lemma_resolved_len(
    repo: Text,
    revisions: Seq<Text>,
    i: int,
    found: Seq<Text>,
    error: Text,
    t: Seq<Reply>,
    n: int,
)
    requires
        0 <= i <= revisions.len(),
        found.len() == i,
    ensures
        resolve_distinct_flow(repo, revisions, i, found, error, t, n) matches FlowView::Got(shas, _)
            ==> shas.len() == revisions.len(),
    decreases revisions.len() - i,
{
    if i < revisions.len() {
        if let FlowView::Got(sha, m) = crate::queries::resolve_commit_flow(
            repo,
            revisions[i],
            t,
            n,
        ) {
            lemma_resolved_len(repo, revisions, i + 1, found.push(sha), error, t, m);
        }
    }
}

/// A selection that is accepted lies in the history, first to last, and has as
/// many commits as were asked for.
pub proof fn law_squash_selection(
    args: SquashArgsView,
    plan: HistoryPlanView,
    t: Seq<Reply>,
    n: int,
)
    requires
        args.commits.len() > 0,
    ensures
        squash_selection_flow(args, plan, t, n) matches FlowView::Got(range, _) ==> {
            &&& 0 <= range.0 <= range.1 < plan.commits.len()
            &&& range.1 - range.0 + 1 == args.commits.len()
        },
{
    let error = "duplicate commit in squash request"@;
    lemma_resolved_len(args.repo, args.commits, 0, Seq::empty(), error, t, n);
    if let FlowView::Got(shas, _) = resolve_distinct_flow(
        args.repo,
        args.commits,
        0,
        Seq::empty(),
        error,
        t,
        n,
    ) {
        law_positions(plan.commits, shas, args.base);
        if let Ok(found) = positions(plan.commits, shas, args.base) {
            assert(0 <= found[0] < plan.commits.len());
            let last = found.len() - 1;
            assert(0 <= found[last] < plan.commits.len());
        }
    }
}

fn select_squash(
    args: &SquashCommitsArgs,
    plan: &crate::history::HistoryPlan,
    t: &Vec<Reply>,
    n: usize,
) -> (r: Result<(usize, usize, usize), Halt>)
    requires
        args.commits@.len() > 0,
    ensures
        match squash_selection_flow(args.deep_view(), plan.deep_view(), t@, n as int) {
            FlowView::Ask(request) => r matches Err(Halt::Ask(asked)) && asked.deep_view()
                == request,
            FlowView::Fail(error, m) => r matches Err(Halt::Fail(e, k)) && e@ == error && k == m,
            FlowView::Got(range, m) => r matches Ok((first, last, k)) && first == range.0 && last
                == range.1 && k == m,
        },
{
    let repo: &str = args.repo.as_str();
    let ghost start = n as int;
    let (shas, n) = resolve_distinct(
        repo,
        &args.commits,
        "duplicate commit in squash request",
        t,
        n,
    )?;
    let found: Vec<usize> = match find_positions(&plan.commits, &shas, args.base.as_str()) {
        Ok(found) => found,
        Err(error) => {
            return Err(Halt::Fail(error, n));
        },
    };
    proof {
        lemma_resolved_len(
            repo@,
            args.commits.deep_view(),
            0,
            Seq::empty(),
            "duplicate commit in squash request"@,
            t@,
            start,
        );
        law_positions(plan.commits.deep_view(), shas.deep_view(), args.base@);
    }
    assert(as_ints(found@).len() == found@.len());
    if !is_contiguous(&found) {
        return Err(
            Halt::Fail(
                "squash commits must be one contiguous oldest-to-newest history range".to_owned(),
                n,
            ),
        );
    }
    let (_, n) = ensure_suffix_rewrite_safe(repo, plan, found[0], args.rewrite_policy, t, n)?;
    Ok((found[0], found[found.len() - 1], n))
}

// ---------------------------------------------------------------------------
// The replay
// ---------------------------------------------------------------------------
/// Makes the commits from `i` on anew, each with its own tree and message and
/// the commit before it as its parent; the first has the parent `parent`. The
/// result is the last commit that was made.
pub open spec fn squash_replay_flow(
    repo: Text,
    commits: Seq<HistoryCommitView>,
    i: int,
    parent: Text,
    t: Seq<Reply>,
    n: int,
) -> FlowView<Text>
    decreases commits.len() - i,
{
    if i < 0 || i >= commits.len() {
        FlowView::Got(parent, n)
    } else {
        commit_snapshot_flow(repo, commits[i].sha, t, n).and_then(
            |snapshot: SnapshotView, n: int|
                unless(
                    snapshot.parents.len() != 1,
                    "merge-aware squash replay is not supported"@,
                    n,
                ).and_then(
                    |_u: (), n: int|
                        create_commit_flow(
                            repo,
                            snapshot,
                            snapshot.tree,
                            parent,
                            snapshot.message,
                            t,
                            n,
                        ).and_then(
                            |new: Text, n: int|
                                squash_replay_flow(repo, commits, i + 1, new, t, n),
                        ),
                ),
        )
    }
}

fn squash_replay(
    repo: &str,
    commits: &Vec<HistoryCommit>,
    from: usize,
    parent: String,
    t: &Vec<Reply>,
    n: usize,
) -> (r: Flow<String>)
    ensures
        flow(r) == squash_replay_flow(
            repo@,
            commits.deep_view(),
            from as int,
            parent@,
            t@,
            n as int,
        ),
{
    let ghost all = commits.deep_view();
    assert(all.len() == commits@.len());
    let ghost first = parent@;
    let mut tip: String = parent;
    let mut at: usize = n;
    let mut i: usize = from;
    while i < commits.len()
        invariant
            all == commits.deep_view(),
            all.len() == commits@.len(),
            first == parent@,
            squash_replay_flow(repo@, all, from as int, first, t@, n as int) == squash_replay_flow(
                repo@,
                all,
                i as int,
                tip@,
                t@,
                at as int,
            ),
        decreases all.len() - i,
    {
        assert(all[i as int] == commits@[i as int].deep_view());
        let (snapshot, m) = commit_snapshot(repo, commits[i].sha.as_str(), t, at)?;
        assert(snapshot.parents.deep_view().len() == snapshot.parents@.len());
        if snapshot.parents.len() != 1 {
            return fail("merge-aware squash replay is not supported", m);
        }
        let (new, m) = create_commit_from_snapshot(
            repo,
            &snapshot,
            snapshot.tree.as_str(),
            tip.as_str(),
            snapshot.message.as_str(),
            t,
            m,
        )?;
        tip = new;
        at = m;
        i += 1;
    }
    Ok((tip, at))
}

// ---------------------------------------------------------------------------
// Squashing
// ---------------------------------------------------------------------------
/// Makes one commit of those from `start` to `end`, with the parent and the
/// author of the first and the tree of the last; makes those after it anew;
/// and moves the branch to them.
pub open spec fn squash_range_flow(
    args: SquashArgsView,
    plan: HistoryPlanView,
    start: int,
    end: int,
    head: Text,
    t: Seq<Reply>,
    n: int,
) -> FlowView<SquashedView> {
    commit_snapshot_flow(args.repo, plan.commits[start].sha, t, n).and_then(
        |first: SnapshotView, n: int|
            commit_snapshot_flow(args.repo, plan.commits[end].sha, t, n).and_then(
                |last: SnapshotView, n: int|
                    unless(first.parents.len() == 0, "cannot squash a root commit"@, n).and_then(
                        |_u: (), n: int|
                            tree_sha_flow(args.repo, head, t, n).and_then(
                                |original_tree: Text, n: int|
                                    create_commit_flow(
                                        args.repo,
                                        first,
                                        last.tree,
                                        first.parents[0],
                                        args.message,
                                        t,
                                        n,
                                    ).and_then(
                                        |new_commit: Text, n: int|
                                            squash_replay_flow(
                                                args.repo,
                                                plan.commits,
                                                end + 1,
                                                new_commit,
                                                t,
                                                n,
                                            ).and_then(
                                                |new_head: Text, n: int|
                                                    install_flow(
                                                        args.repo,
                                                        plan.branch,
                                                        new_head,
                                                        head,
                                                        original_tree,
                                                        t,
                                                        n,
                                                    ).map(
                                                        |status: Text|
                                                            SquashedView {
                                                                operation: "squash_commits"@,
                                                                branch: plan.branch,
                                                                old_head: head,
                                                                new_head,
                                                                squashed_count: args.commits.len(),
                                                                new_commit,
                                                                status,
                                                            },
                                                    ),
                                            ),
                                    ),
                            ),
                    ),
            ),
    )
}

/// Squashes commits, with `HEAD` at `head`.
pub open spec fn squash_from_flow(args: SquashArgsView, head: Text, t: Seq<Reply>, n: int) -> FlowView<
    SquashedView,
> {
    unless(
        args.commits.len() < MIN_SQUASH || args.commits.len() > MAX_SQUASH,
        "squash requires 2..128 commits"@,
        n,
    ).and_then(
        |_u: (), n: int|
            checked(conventional_verdict(args.message), n).and_then(
                |_u: (), n: int|
                    history_plan_flow(args.repo, args.base, t, n).and_then(
                        |plan: HistoryPlanView, n: int|
                            squash_selection_flow(args, plan, t, n).and_then(
                                |range: (int, int), n: int|
                                    squash_range_flow(args, plan, range.0, range.1, head, t, n),
                            ),
                    ),
            ),
    )
}

fn squash_range(
    args: &SquashCommitsArgs,
    plan: &HistoryPlan,
    start: usize,
    end: usize,
    head: &str,
    t: &Vec<Reply>,
    n: usize,
) -> (r: Flow<SquashCommitsOutput>)
    requires
        start < plan.commits.len(),
        end < plan.commits.len(),
    ensures
        flow(r) == squash_range_flow(
            args.deep_view(),
            plan.deep_view(),
            start as int,
            end as int,
            head@,
            t@,
            n as int,
        ),
{
    let repo: &str = args.repo.as_str();
    assert(args.commits.deep_view().len() == args.commits@.len());
    assert(plan.commits.deep_view()[start as int] == plan.commits@[start as int].deep_view());
    assert(plan.commits.deep_view()[end as int] == plan.commits@[end as int].deep_view());
    let (first, n) = commit_snapshot(repo, plan.commits[start].sha.as_str(), t, n)?;
    let (last, n) = commit_snapshot(repo, plan.commits[end].sha.as_str(), t, n)?;
    assert(first.parents.deep_view().len() == first.parents@.len());
    if first.parents.len() == 0 {
        return fail("cannot squash a root commit", n);
    }
    assert(first.parents.deep_view()[0] == first.parents@[0]@);
    let (original_tree, n) = tree_sha(repo, head, t, n)?;
    let (new_commit, n) = create_commit_from_snapshot(
        repo,
        &first,
        last.tree.as_str(),
        first.parents[0].as_str(),
        args.message.as_str(),
        t,
        n,
    )?;
    let (new_head, n) = squash_replay(repo, &plan.commits, end + 1, new_commit.clone(), t, n)?;
    let (status, n) = install(
        repo,
        plan.branch.as_str(),
        new_head.as_str(),
        head,
        original_tree.as_str(),
        t,
        n,
    )?;
    Ok(
        (
            SquashCommitsOutput {
                operation: "squash_commits".to_owned(),
                branch: plan.branch.clone(),
                old_head: head.to_owned(),
                new_head,
                squashed_count: args.commits.len(),
                new_commit,
                status,
            },
            n,
        ),
    )
}

fn squash_from(args: &SquashCommitsArgs, head: &str, t: &Vec<Reply>, n: usize) -> (r: Flow<
    SquashCommitsOutput,
>)
    ensures
        flow(r) == squash_from_flow(args.deep_view(), head@, t@, n as int),
{
    let repo: &str = args.repo.as_str();
    assert(args.commits.deep_view().len() == args.commits@.len());
    if args.commits.len() < MIN_SQUASH || args.commits.len() > MAX_SQUASH {
        return fail("squash requires 2..128 commits", n);
    }
    check(validate_conventional_commit_message(args.message.as_str()), n)?;
    let (plan, n) = history_plan(repo, args.base.as_str(), t, n)?;
    proof {
        law_squash_selection(args.deep_view(), plan.deep_view(), t@, n as int);
    }
    let (start, end, n): (usize, usize, usize) = select_squash(args, &plan, t, n)?;
    assert(plan.commits.deep_view().len() == plan.commits@.len());
    squash_range(args, &plan, start, end, head, t, n)
}

/// Squashes commits of the current branch.
pub open spec fn squash_flow(server: GitServer, args: SquashArgsView, t: Seq<Reply>, n: int) -> FlowView<
    RewriteOutcome<SquashedView, RewriteFailureView>,
> {
    rewrite_flow(
        server,
        "squash_commits"@,
        args.repo,
        |head: Text, n: int| squash_from_flow(args, head, t, n),
        t,
        n,
    )
}

impl GitServer {
    /// Makes one commit of several that follow one another, and makes those
    /// after them anew.
    pub fn squash_commits(&self, args: &SquashCommitsArgs, t: &Vec<Reply>, n: usize) -> (r: Flow<
        RewriteOutcome<SquashCommitsOutput, RewriteFailure>,
    >)
        ensures
            flow(r) == squash_flow(*self, args.deep_view(), t@, n as int),
    {
        match start(self, "squash_commits", args.repo.as_str(), t, n)? {
            Start::Refused(failure, n) => Ok((RewriteOutcome::Failed(failure), n)),
            Start::At(head, n) => {
                let result = squash_from(args, head.as_str(), t, n);
                report(result, "squash_commits", args.repo.as_str(), head.as_str(), t)
            },
        }
    }
}

} // verus!
