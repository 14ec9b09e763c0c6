//! Rewriting the unpublished history of a work branch.
use crate::command::Command;
use crate::flow::{
    check, checked, fail, flow, git_flow, run_git, unless, Flow, FlowView, Halt, Reply,
};
use crate::history::{
    is_protected_trunk, protected_trunk, HistoryCommit, HistoryCommitView, HistoryPlan,
    HistoryPlanView,
};
use crate::output::OutputView;
use crate::policy::outcome;
use crate::queries::{
    head_sha, head_sha_flow, on_upstream, on_upstream_flow, remote_refs_containing,
    remote_refs_flow, short_status, short_status_flow, tree_sha, tree_sha_flow,
};
use crate::server::{quote, quoted, writable_verdict, GitServer};
use crate::text::{concat, concat3, join, joined, same_text, Text};
use vstd::prelude::*;

verus! {

// ---------------------------------------------------------------------------
// Failures
// ---------------------------------------------------------------------------
/// How a rewrite failed, and where that left the branch.
#[derive(Debug)]
pub struct RewriteFailure {
    pub operation: String,
    pub status: String,
    /// `HEAD` is where it was.
    pub restored: bool,
    pub original_head: String,
    pub current_head: String,
    pub error: String,
}

/// A failed rewrite as contracts speak of it.
pub struct RewriteFailureView {
    pub operation: Text,
    pub status: Text,
    pub restored: bool,
    pub original_head: Text,
    pub current_head: Text,
    pub error: Text,
}

impl DeepView for RewriteFailure {
    type V = RewriteFailureView;

    open spec fn deep_view(&self) -> RewriteFailureView {
        RewriteFailureView {
            operation: self.operation@,
            status: self.status@,
            restored: self.restored,
            original_head: self.original_head@,
            current_head: self.current_head@,
            error: self.error@,
        }
    }
}

/// How a rewrite ended.
#[derive(Debug)]
pub enum RewriteOutcome<T, F> {
    Done(T),
    Failed(F),
}

impl<T: DeepView, F: DeepView> DeepView for RewriteOutcome<T, F> {
    type V = RewriteOutcome<T::V, F::V>;

    open spec fn deep_view(&self) -> RewriteOutcome<T::V, F::V> {
        match self {
            RewriteOutcome::Done(v) => RewriteOutcome::Done(v.deep_view()),
            RewriteOutcome::Failed(f) => RewriteOutcome::Failed(f.deep_view()),
        }
    }
}

/// A rewrite that failed before anything was done.
pub open spec fn untouched(operation: Text, error: Text) -> RewriteFailureView {
    RewriteFailureView {
        operation,
        status: "failed"@,
        restored: true,
        original_head: "unknown"@,
        current_head: "unknown"@,
        error,
    }
}

fn untouched_failure(operation: &str, error: String) -> (r: RewriteFailure)
    ensures
        r.deep_view() == untouched(operation@, error@),
{
    RewriteFailure {
        operation: operation.to_owned(),
        status: "failed".to_owned(),
        restored: true,
        original_head: "unknown".to_owned(),
        current_head: "unknown".to_owned(),
        error,
    }
}

/// A rewrite that failed with `HEAD` at `current_head`.
pub open spec fn failed_at(
    operation: Text,
    original_head: Text,
    current_head: Text,
    error: Text,
) -> RewriteFailureView {
    RewriteFailureView {
        operation,
        status: if current_head == original_head {
            "failed"@
        } else {
            "repository_in_progress_state"@
        },
        restored: current_head == original_head,
        original_head,
        current_head,
        error,
    }
}

/// The report of a failed rewrite, for which `HEAD` is read once more.
pub open spec fn rewrite_failure_flow(
    operation: Text,
    repo: Text,
    original_head: Text,
    error: Text,
    t: Seq<Reply>,
    n: int,
) -> FlowView<RewriteFailureView> {
    head_sha_flow(repo, t, n).attempt().map(
        |head: Result<Text, Text>|
            failed_at(
                operation,
                original_head,
                match head {
                    Ok(sha) => sha,
                    Err(_) => "unknown"@,
                },
                error,
            ),
    )
}

/// The report of a failed rewrite, for which `HEAD` is read once more.
pub fn rewrite_failure(
    operation: &str,
    repo: &str,
    original_head: &str,
    error: String,
    t: &Vec<Reply>,
    n: usize,
) -> (r: Flow<RewriteFailure>)
    ensures
        flow(r) == rewrite_failure_flow(
            operation@,
            repo@,
            original_head@,
            error@,
            t@,
            n as int,
        ),
{
    let (current_head, m): (String, usize) = match head_sha(repo, t, n) {
        Ok((head, m)) => (head, m),
        Err(Halt::Fail(_, m)) => ("unknown".to_owned(), m),
        Err(Halt::Ask(request)) => {
            return Err(Halt::Ask(request));
        },
    };
    let restored: bool = same_text(current_head.as_str(), original_head);
    let status: String = if restored {
        "failed".to_owned()
    } else {
        "repository_in_progress_state".to_owned()
    };
    Ok(
        (
            RewriteFailure {
                operation: operation.to_owned(),
                status,
                restored,
                original_head: original_head.to_owned(),
                current_head,
                error,
            },
            m,
        ),
    )
}

/// Turns a failed rewrite into its report.
pub open spec fn reported<T>(
    result: FlowView<T>,
    operation: Text,
    repo: Text,
    original_head: Text,
    t: Seq<Reply>,
) -> FlowView<RewriteOutcome<T, RewriteFailureView>> {
    match result {
        FlowView::Ask(request) => FlowView::Ask(request),
        FlowView::Got(v, n) => FlowView::Got(RewriteOutcome::Done(v), n),
        FlowView::Fail(error, n) => rewrite_failure_flow(
            operation,
            repo,
            original_head,
            error,
            t,
            n,
        ).map(|failure: RewriteFailureView| RewriteOutcome::Failed(failure)),
    }
}

/// Reports a rewrite that has failed; of any other, passes on what there is.
pub fn report<T: DeepView>(
    result: Flow<T>,
    operation: &str,
    repo: &str,
    original_head: &str,
    t: &Vec<Reply>,
) -> (r: Flow<RewriteOutcome<T, RewriteFailure>>)
    ensures
        flow(r) == reported(flow(result), operation@, repo@, original_head@, t@),
{
    match result {
        Err(Halt::Ask(request)) => Err(Halt::Ask(request)),
        Ok((v, n)) => Ok((RewriteOutcome::Done(v), n)),
        Err(Halt::Fail(error, n)) => {
            let (failure, n) = rewrite_failure(operation, repo, original_head, error, t, n)?;
            Ok((RewriteOutcome::Failed(failure), n))
        },
    }
}

/// A rewrite: refused on a read-only server; otherwise `HEAD` is noted, and
/// `body` does the work from there.
pub open spec fn rewrite_flow<T>(
    server: GitServer,
    operation: Text,
    repo: Text,
    body: spec_fn(Text, int) -> FlowView<T>,
    t: Seq<Reply>,
    n: int,
) -> FlowView<RewriteOutcome<T, RewriteFailureView>> {
    match writable_verdict(server) {
        Err(error) => FlowView::Got(RewriteOutcome::Failed(untouched(operation, error)), n),
        Ok(_) => match head_sha_flow(repo, t, n) {
            FlowView::Ask(request) => FlowView::Ask(request),
            FlowView::Fail(error, m) => FlowView::Got(
                RewriteOutcome::Failed(untouched(operation, error)),
                m,
            ),
            FlowView::Got(head, m) => reported(body(head, m), operation, repo, head, t),
        },
    }
}

/// How a rewrite starts.
pub enum Start {
    At(String, usize),
    Refused(RewriteFailure, usize),
}

/// Starts a rewrite: refuses it on a read-only server, and otherwise notes
/// where `HEAD` is.
pub fn start(server: &GitServer, operation: &str, repo: &str, t: &Vec<Reply>, n: usize) -> (r: Result<
    Start,
    Halt,
>)
    ensures
        match writable_verdict(*server) {
            Err(error) => r matches Ok(Start::Refused(failure, k)) && failure.deep_view()
                == untouched(operation@, error) && k == n,
            Ok(_) => match head_sha_flow(repo@, t@, n as int) {
                FlowView::Ask(request) => r matches Err(Halt::Ask(asked)) && asked.deep_view()
                    == request,
                FlowView::Fail(error, m) => r matches Ok(Start::Refused(failure, k))
                    && failure.deep_view() == untouched(operation@, error) && k == m,
                FlowView::Got(head, m) => r matches Ok(Start::At(found, k)) && found@ == head && k
                    == m,
            },
        },
{
    if let Err(error) = server.ensure_writable() {
        return Ok(Start::Refused(untouched_failure(operation, error), n));
    }
    match head_sha(repo, t, n) {
        Ok((head, m)) => Ok(Start::At(head, m)),
        Err(Halt::Fail(error, m)) => Ok(Start::Refused(untouched_failure(operation, error), m)),
        Err(Halt::Ask(request)) => Err(Halt::Ask(request)),
    }
}

// ---------------------------------------------------------------------------
// What may be rewritten
// ---------------------------------------------------------------------------
/// Which commits may be rewritten.
#[derive(Debug, Clone, Copy, PartialEq, Eq, Structural)]
pub enum RewritePolicy {
    /// Only commits that neither an upstream nor a remote-tracking reference
    /// is known to contain.
    LocalOnly,
    /// Published commits too.
    AllowPublished,
}

/// Every commit from `from` on has exactly one parent.
pub open spec fn linear_from(commits: Seq<HistoryCommitView>, from: int) -> bool {
    forall|i: int| from <= i < commits.len() ==> (#[trigger] commits[i]).parents == 1
}

/// Whether the commits of a plan from `from` on may be rewritten, as far as
/// the plan alone tells.
pub open spec fn suffix_verdict(plan: HistoryPlanView, from: int) -> Result<(), Text> {
    if plan.detached_head {
        Err("history rewriting is not allowed in detached HEAD state"@)
    } else if plan.branch == protected_trunk() {
        Err("history rewriting is not allowed on protected branch `main`"@)
    } else if plan.dirty {
        Err("history rewriting requires a clean working tree and index"@)
    } else if from >= plan.commits.len() {
        Err("rewrite selection is outside branch-local history"@)
    } else if !linear_from(plan.commits, from) {
        Err(
            "rewrite suffix contains a root or merge commit; merge-aware rewriting is not supported"@,
        )
    } else {
        Ok(())
    }
}

fn check_suffix(plan: &HistoryPlan, from: usize) -> (r: Result<(), String>)
    ensures
        outcome(r) == suffix_verdict(plan.deep_view(), from as int),
{
    let ghost all = plan.commits.deep_view();
    assert(all.len() == plan.commits@.len());
    if plan.detached_head {
        return Err("history rewriting is not allowed in detached HEAD state".to_owned());
    }
    if is_protected_trunk(plan.branch.as_str()) {
        return Err("history rewriting is not allowed on protected branch `main`".to_owned());
    }
    if plan.dirty {
        return Err("history rewriting requires a clean working tree and index".to_owned());
    }
    if from >= plan.commits.len() {
        return Err("rewrite selection is outside branch-local history".to_owned());
    }
    let mut i: usize = from;
    while i < plan.commits.len()
        invariant
            all == plan.commits.deep_view(),
            all.len() == plan.commits@.len(),
            from <= i <= all.len(),
            from < all.len(),
            !plan.detached_head,
            plan.branch@ != protected_trunk(),
            !plan.dirty,
            forall|k: int| from <= k < i ==> (#[trigger] all[k]).parents == 1,
        decreases all.len() - i,
    {
        assert(all[i as int] == plan.commits@[i as int].deep_view());
        if plan.commits[i].parents != 1 {
            return Err(
                "rewrite suffix contains a root or merge commit; merge-aware rewriting is not supported".to_owned(),
            );
        }
        i += 1;
    }
    Ok(())
}

/// What is reported of a commit that a remote-tracking reference contains.
pub open spec fn published_error(sha: Text, refs: Seq<Text>) -> Text {
    "rewrite blocked: commit "@ + sha + " is already reachable from remote-tracking ref(s): "@
        + join(refs, ", "@)
}

/// What is reported of a commit that the upstream contains.
pub open spec fn upstream_error(sha: Text, upstream: Text) -> Text {
    "rewrite blocked: commit "@ + sha + " is already reachable from upstream "@ + quoted(upstream)
}

/// None of the commits from `i` on is known to be published.
pub open spec fn unpublished_suffix_flow(
    repo: Text,
    commits: Seq<HistoryCommitView>,
    upstream: Option<Text>,
    i: int,
    t: Seq<Reply>,
    n: int,
) -> FlowView<()>
    decreases commits.len() - i,
{
    if i < 0 || i >= commits.len() {
        FlowView::Got((), n)
    } else {
        remote_refs_flow(repo, commits[i].sha, t, n).and_then(
            |refs: Seq<Text>, n: int|
                if refs.len() > 0 {
                    FlowView::Fail(published_error(commits[i].sha, refs), n)
                } else {
                    on_upstream_flow(repo, commits[i].sha, upstream, t, n).and_then(
                        |contained: bool, n: int|
                            if contained && upstream is Some {
                                FlowView::Fail(upstream_error(commits[i].sha, upstream->0), n)
                            } else {
                                unpublished_suffix_flow(repo, commits, upstream, i + 1, t, n)
                            },
                    )
                },
        )
    }
}

fn ensure_unpublished_suffix(
    repo: &str,
    commits: &Vec<HistoryCommit>,
    upstream: &Option<String>,
    from: usize,
    t: &Vec<Reply>,
    n: usize,
) -> (r: Flow<()>)
    ensures
        flow(r) == unpublished_suffix_flow(
            repo@,
            commits.deep_view(),
            upstream.deep_view(),
            from as int,
            t@,
            n as int,
        ),
{
    let ghost all = commits.deep_view();
    assert(all.len() == commits@.len());
    let mut i: usize = from;
    let mut at: usize = n;
    while i < commits.len()
        invariant
            all == commits.deep_view(),
            all.len() == commits@.len(),
            unpublished_suffix_flow(repo@, all, upstream.deep_view(), from as int, t@, n as int)
                == unpublished_suffix_flow(
                repo@,
                all,
                upstream.deep_view(),
                i as int,
                t@,
                at as int,
            ),
        decreases all.len() - i,
    {
        assert(all[i as int] == commits@[i as int].deep_view());
        let sha: &str = commits[i].sha.as_str();
        let (refs, m) = remote_refs_containing(repo, sha, t, at)?;
        assert(refs.deep_view().len() == refs@.len());
        if refs.len() > 0 {
            let names: String = joined(&refs, ", ");
            let mut error: String = concat3(
                "rewrite blocked: commit ",
                sha,
                " is already reachable from remote-tracking ref(s): ",
            );
            error.append(names.as_str());
            return Err(Halt::Fail(error, m));
        }
        let (contained, m) = on_upstream(repo, sha, upstream, t, m)?;
        if contained {
            if let Some(reference) = upstream {
                let name: String = quote(reference.as_str());
                let mut error: String = concat3(
                    "rewrite blocked: commit ",
                    sha,
                    " is already reachable from upstream ",
                );
                error.append(name.as_str());
                return Err(Halt::Fail(error, m));
            }
        }
        at = m;
        i += 1;
    }
    Ok(((), at))
}

/// The commits of a plan from `from` on may be rewritten.
pub open spec fn suffix_rewrite_flow(
    repo: Text,
    plan: HistoryPlanView,
    from: int,
    policy: RewritePolicy,
    t: Seq<Reply>,
    n: int,
) -> FlowView<()> {
    checked(suffix_verdict(plan, from), n).and_then(
        |_u: (), n: int|
            if policy == RewritePolicy::LocalOnly {
                unpublished_suffix_flow(repo, plan.commits, plan.upstream, from, t, n)
            } else {
                FlowView::Got((), n)
            },
    )
}

/// Refuses to rewrite the commits of a plan from `from` on, unless the policy
/// allows it.
pub fn ensure_suffix_rewrite_safe(
    repo: &str,
    plan: &HistoryPlan,
    from: usize,
    policy: RewritePolicy,
    t: &Vec<Reply>,
    n: usize,
) -> (r: Flow<()>)
    ensures
        flow(r) == suffix_rewrite_flow(repo@, plan.deep_view(), from as int, policy, t@, n as int),
{
    check(check_suffix(plan, from), n)?;
    if policy == RewritePolicy::LocalOnly {
        ensure_unpublished_suffix(repo, &plan.commits, &plan.upstream, from, t, n)
    } else {
        Ok(((), n))
    }
}

// ---------------------------------------------------------------------------
// Putting the new history in place
// ---------------------------------------------------------------------------
/// The reference of a branch.
pub open spec fn branch_reference(branch: Text) -> Text {
    "refs/heads/"@ + branch
}

/// Moves a branch, if it still is where it was.
pub open spec fn update_branch_flow(
    repo: Text,
    branch: Text,
    new_head: Text,
    old_head: Text,
    t: Seq<Reply>,
    n: int,
) -> FlowView<()> {
    git_flow(
        repo,
        Command::UpdateRef { reference: branch_reference(branch), new: new_head, old: old_head },
        t,
        n,
    ).map(|_o: OutputView| ())
}

/// Moves a branch, if it still is where it was.
pub fn update_current_branch_ref(
    repo: &str,
    branch: &str,
    new_head: &str,
    old_head: &str,
    t: &Vec<Reply>,
    n: usize,
) -> (r: Flow<()>)
    ensures
        flow(r) == update_branch_flow(repo@, branch@, new_head@, old_head@, t@, n as int),
{
    let command = Command::UpdateRef {
        reference: concat("refs/heads/", branch),
        new: new_head.to_owned(),
        old: old_head.to_owned(),
    };
    let (_, n) = run_git(repo, command, t, n)?;
    Ok(((), n))
}

/// Moves a branch to a commit whose tree is `original_tree`, and reads the
/// status.
pub open spec fn install_flow(
    repo: Text,
    branch: Text,
    new_head: Text,
    old_head: Text,
    original_tree: Text,
    t: Seq<Reply>,
    n: int,
) -> FlowView<Text> {
    tree_sha_flow(repo, new_head, t, n).and_then(
        |new_tree: Text, n: int|
            unless(
                new_tree != original_tree,
                "tree-integrity check failed before updating branch ref"@,
                n,
            ).and_then(
                |_u: (), n: int|
                    update_branch_flow(repo, branch, new_head, old_head, t, n).and_then(
                        |_u: (), n: int| short_status_flow(repo, t, n),
                    ),
            ),
    )
}

/// Makes sure that the new head has the original tree, moves the branch to it,
/// and tells the status afterwards.
pub fn install(
    repo: &str,
    branch: &str,
    new_head: &str,
    old_head: &str,
    original_tree: &str,
    t: &Vec<Reply>,
    n: usize,
) -> (r: Flow<String>)
    ensures
        flow(r) == install_flow(
            repo@,
            branch@,
            new_head@,
            old_head@,
            original_tree@,
            t@,
            n as int,
        ),
{
    let (new_tree, n) = tree_sha(repo, new_head, t, n)?;
    if !same_text(new_tree.as_str(), original_tree) {
        return fail("tree-integrity check failed before updating branch ref", n);
    }
    let (_, n) = update_current_branch_ref(repo, branch, new_head, old_head, t, n)?;
    short_status(repo, t, n)
}

} // verus!
