//! What rewriting history, verifying publication, taking back merges and
//! replacing tags keep to, whatever Git replies.
use crate::amend::{
    amend_flow, amend_from_flow, amendable_flow, amended_message, head_unpublished_flow,
    AmendArgsView,
};
use crate::branches::{merge_flow, MergeMode};
use crate::command::{Command, CommandView};
use crate::flow::{git_flow, FlowView, Reply};
use crate::history::{
    branch_history_flow, history_plan_flow, insert_all, protected_trunk, published_refs_flow,
    HistoryCommitView, HistoryPlanView,
};
use crate::policy::conventional_verdict;
use crate::publication::{
    chosen_remote, look_up_flow, published_commits_flow, published_tags_flow, resolve_all_flow,
    merge_publication, merge_unpublished_flow, rewind_flow, rewind_from_flow, rewind_to_flow,
    rewindable_flow, validate_tags_flow, verify_unpublished_flow, PublicationArgsView,
    PublicationGuard, PublishedCommitView, PublishedTagView, RewindArgsView,
};
use crate::queries::{
    current_branch_required_flow, head_sha_flow, is_dirty_flow, listing, on_upstream_flow, remote_refs_flow,
    resolve_commit_flow, tree_sha_flow, validate_tag_name_flow,
};
use crate::reword::{
    replay_flow, resolve_changes_flow, reword_flow, reword_from_flow, reword_replay_flow,
    reword_selection_flow, reworded, rewritten_commit, RewordArgsView, RewordView, RewrittenView,
};
use crate::rewrite::{
    branch_reference, install_flow, linear_from, rewrite_flow, unpublished_suffix_flow,
    update_branch_flow, RewriteOutcome, RewritePolicy,
};
use crate::selection::resolve_distinct_flow;
use crate::server::GitServer;
use crate::snapshot::{commit_snapshot_flow, create_commit_flow, SnapshotView};
use crate::squash::{
    squash_flow, squash_from_flow, squash_range_flow, squash_replay_flow, squash_selection_flow,
    SquashArgsView,
};
use crate::tags::{
    expected_target_flow, new_target_flow, replace_tag_flow, retarget_flow, swap_tag_flow,
    tag_object_flow, tag_publication, tag_reference, tag_target_flow, tag_unpublished_flow,
    temporary_name, ReplaceTagArgsView,
};
use crate::text::{insert_sorted, Text};
use vstd::prelude::*;

verus! {

// ---------------------------------------------------------------------------
// Questions only inspect
// ---------------------------------------------------------------------------
/// Resolving a revision only inspects the repository.
pub broadcast proof fn resolving_inspects(repo: Text, value: Text, t: Seq<Reply>, n: int)
    ensures
        (#[trigger] resolve_commit_flow(repo, value, t, n)).inspects(),
{
}

broadcast proof fn remote_refs_inspect(repo: Text, commit: Text, t: Seq<Reply>, n: int)
    ensures
        (#[trigger] remote_refs_flow(repo, commit, t, n)).inspects(),
{
    broadcast use resolving_inspects;

}

/// Reading a commit only inspects the repository.
pub broadcast proof fn snapshots_inspect(repo: Text, commit: Text, t: Seq<Reply>, n: int)
    ensures
        (#[trigger] commit_snapshot_flow(repo, commit, t, n)).inspects(),
{
    broadcast use resolving_inspects;

}

broadcast proof fn publication_inspects(
    repo: Text,
    commits: Seq<HistoryCommitView>,
    upstream: Option<Text>,
    i: int,
    found: Seq<Text>,
    t: Seq<Reply>,
    n: int,
)
    ensures
        (#[trigger] published_refs_flow(repo, commits, upstream, i, found, t, n)).inspects(),
    decreases commits.len() - i,
{
    broadcast use remote_refs_inspect;

    if 0 <= i < commits.len() {
        if let FlowView::Got(refs, k) = remote_refs_flow(repo, commits[i].sha, t, n) {
            if let FlowView::Got(contained, m) = on_upstream_flow(
                repo,
                commits[i].sha,
                upstream,
                t,
                k,
            ) {
                let more = insert_all(found, refs, 0);
                publication_inspects(repo, commits, upstream, i + 1, more, t, m);
                if upstream is Some {
                    let all = insert_sorted(more, upstream->0);
                    publication_inspects(repo, commits, upstream, i + 1, all, t, m);
                }
            }
        }
    }
}

broadcast proof fn history_inspects(repo: Text, base: Text, t: Seq<Reply>, n: int)
    ensures
        (#[trigger] branch_history_flow(repo, base, t, n)).inspects(),
{
}

/// Planning a rewrite only inspects the repository.
pub broadcast proof fn plans_inspect(repo: Text, base: Text, t: Seq<Reply>, n: int)
    ensures
        (#[trigger] history_plan_flow(repo, base, t, n)).inspects(),
{
    broadcast use {publication_inspects, history_inspects};

}

broadcast proof fn suffix_inspects(
    repo: Text,
    commits: Seq<HistoryCommitView>,
    upstream: Option<Text>,
    i: int,
    t: Seq<Reply>,
    n: int,
)
    ensures
        (#[trigger] unpublished_suffix_flow(repo, commits, upstream, i, t, n)).inspects(),
    decreases commits.len() - i,
{
    broadcast use remote_refs_inspect;

    if 0 <= i < commits.len() {
        if let FlowView::Got(refs, k) = remote_refs_flow(repo, commits[i].sha, t, n) {
            if let FlowView::Got(contained, m) = on_upstream_flow(
                repo,
                commits[i].sha,
                upstream,
                t,
                k,
            ) {
                suffix_inspects(repo, commits, upstream, i + 1, t, m);
            }
        }
    }
}

broadcast group group_questions_inspect {
    resolving_inspects,
    remote_refs_inspect,
    snapshots_inspect,
    publication_inspects,
    history_inspects,
    plans_inspect,
    suffix_inspects,
}

// ---------------------------------------------------------------------------
// Published commits are not rewritten
// ---------------------------------------------------------------------------
/// The replies from position `m` on show that no remote-tracking reference
/// contains a commit, and neither does the upstream, where there is one.
pub open spec fn seen_unpublished(
    repo: Text,
    sha: Text,
    upstream: Option<Text>,
    t: Seq<Reply>,
    m: int,
) -> bool {
    &&& remote_refs_flow(repo, sha, t, m) matches FlowView::Got(refs, k)
    &&& refs.len() == 0
    &&& on_upstream_flow(repo, sha, upstream, t, k) matches FlowView::Got(contained, _)
    &&& upstream is Some ==> !contained
}

/// Where a rewrite of local history goes ahead, the replies show of each
/// commit that it replaces that the commit is not published.
pub proof fn law_rewritten_commits_unpublished(
    repo: Text,
    commits: Seq<HistoryCommitView>,
    upstream: Option<Text>,
    from: int,
    t: Seq<Reply>,
    n: int,
    j: int,
)
    requires
        0 <= from <= j < commits.len(),
        unpublished_suffix_flow(repo, commits, upstream, from, t, n) is Got,
    ensures
        exists|m: int| #[trigger] seen_unpublished(repo, commits[j].sha, upstream, t, m),
    decreases commits.len() - from,
{
    if let FlowView::Got(refs, k) = remote_refs_flow(repo, commits[from].sha, t, n) {
        if let FlowView::Got(contained, m) = on_upstream_flow(
            repo,
            commits[from].sha,
            upstream,
            t,
            k,
        ) {
            if j == from {
                assert(seen_unpublished(repo, commits[j].sha, upstream, t, n));
            } else {
                law_rewritten_commits_unpublished(repo, commits, upstream, from + 1, t, m, j);
            }
        }
    }
}

// ---------------------------------------------------------------------------
// Rewrites
// ---------------------------------------------------------------------------
proof fn lemma_rewrite_asks<T>(
    server: GitServer,
    operation: Text,
    repo: Text,
    body: spec_fn(Text, int) -> FlowView<T>,
    t: Seq<Reply>,
    n: int,
)
    ensures
        rewrite_flow(server, operation, repo, body, t, n).pending() matches Some(command) ==> (
        !command.only_inspects() ==> {
            &&& !server.read_only
            &&& head_sha_flow(repo, t, n) matches FlowView::Got(head, m)
            &&& body(head, m).pending() == Some(command)
        }),
{
}

/// A rewrite always comes to a report: it never fails without one. A report of
/// failure says that the branch is where it was exactly where `HEAD` still is
/// the commit that it was, or nothing had been done.
pub proof fn law_rewrite_reports<T>(
    server: GitServer,
    operation: Text,
    repo: Text,
    body: spec_fn(Text, int) -> FlowView<T>,
    t: Seq<Reply>,
    n: int,
)
    ensures
        rewrite_flow(server, operation, repo, body, t, n) !is Fail,
        rewrite_flow(server, operation, repo, body, t, n) matches FlowView::Got(
            RewriteOutcome::Failed(failure),
            _,
        ) ==> failure.restored == (failure.current_head == failure.original_head)
            && failure.restored == (failure.status == "failed"@),
{
    reveal_strlit("failed");
    reveal_strlit("repository_in_progress_state");
    assert("failed"@.len() != "repository_in_progress_state"@.len());
}

/// Amending changes a repository only on a server that may, on a branch other
/// than the trunk, for a commit with one parent that is not known to be
/// published. It moves the branch only from the commit that was amended to
/// another, and the commit that it makes follows Conventional Commits.
pub proof fn law_amend_asks(server: GitServer, args: AmendArgsView, t: Seq<Reply>, n: int)
    ensures
        amend_flow(server, args, t, n).pending() matches Some(command) ==> (
        !command.only_inspects() ==> {
            &&& !server.read_only
            &&& head_sha_flow(args.repo, t, n) matches FlowView::Got(head, m)
            &&& amendable_flow(args, head, t, m) matches FlowView::Got(found, _)
            &&& found.0 != protected_trunk()
            &&& found.1.parents.len() == 1
            &&& exists|k: int| #[trigger] head_unpublished_flow(args.repo, head, t, k) is Got
            &&& match command {
                Command::WriteTree => args.include_index,
                Command::CommitTree { parent, message, .. } => parent == found.1.parents[0]
                    && message == amended_message(args, found.1) && conventional_verdict(message)
                    is Ok,
                Command::UpdateRef { reference, new, old } => reference == branch_reference(found.0)
                    && old == head && new != head,
                _ => false,
            }
        }),
{
    broadcast use group_questions_inspect;

    lemma_rewrite_asks(
        server,
        "amend_commit"@,
        args.repo,
        |head: Text, n: int| amend_from_flow(args, head, t, n),
        t,
        n,
    );
}

/// The command makes a commit whose message follows Conventional Commits.
pub open spec fn makes_conventional_commit(command: CommandView) -> bool {
    command matches Command::CommitTree { message, .. } && conventional_verdict(message) is Ok
}

proof fn lemma_replay_asks(
    repo: Text,
    commits: Seq<HistoryCommitView>,
    shas: Seq<Text>,
    changes: Seq<RewordView>,
    i: int,
    parent: Text,
    made: Seq<RewrittenView>,
    t: Seq<Reply>,
    n: int,
)
    ensures
        replay_flow(repo, commits, shas, changes, i, parent, made, t, n).pending() matches Some(
            command,
        ) ==> command.only_inspects() || makes_conventional_commit(command),
    decreases commits.len() - i,
{
    broadcast use group_questions_inspect;

    if 0 <= i < commits.len() {
        if let FlowView::Got(snapshot, k) = commit_snapshot_flow(repo, commits[i].sha, t, n) {
            let request = reworded(shas, changes, commits[i].sha);
            let message = match request {
                Some(message) => message,
                None => snapshot.message,
            };
            if let FlowView::Got(new, m) = create_commit_flow(
                repo,
                snapshot,
                snapshot.tree,
                parent,
                message,
                t,
                k,
            ) {
                lemma_replay_asks(
                    repo,
                    commits,
                    shas,
                    changes,
                    i + 1,
                    new,
                    made.push(rewritten_commit(snapshot, new, request)),
                    t,
                    m,
                );
            }
        }
    }
}

proof fn lemma_squash_replay_asks(
    repo: Text,
    commits: Seq<HistoryCommitView>,
    i: int,
    parent: Text,
    t: Seq<Reply>,
    n: int,
)
    ensures
        squash_replay_flow(repo, commits, i, parent, t, n).pending() matches Some(command)
            ==> command.only_inspects() || makes_conventional_commit(command),
    decreases commits.len() - i,
{
    broadcast use group_questions_inspect;

    if 0 <= i < commits.len() {
        if let FlowView::Got(snapshot, k) = commit_snapshot_flow(repo, commits[i].sha, t, n) {
            if let FlowView::Got(new, m) = create_commit_flow(
                repo,
                snapshot,
                snapshot.tree,
                parent,
                snapshot.message,
                t,
                k,
            ) {
                lemma_squash_replay_asks(repo, commits, i + 1, new, t, m);
            }
        }
    }
}

broadcast proof fn changes_inspect(
    repo: Text,
    changes: Seq<RewordView>,
    i: int,
    found: Seq<Text>,
    t: Seq<Reply>,
    n: int,
)
    ensures
        (#[trigger] resolve_changes_flow(repo, changes, i, found, t, n)).inspects(),
    decreases changes.len() - i,
{
    if 0 <= i < changes.len() {
        if let FlowView::Got(sha, m) = resolve_commit_flow(repo, changes[i].commit, t, n) {
            changes_inspect(repo, changes, i + 1, found.push(sha), t, m);
        }
    }
}

broadcast proof fn selections_inspect(
    repo: Text,
    revisions: Seq<Text>,
    i: int,
    found: Seq<Text>,
    error: Text,
    t: Seq<Reply>,
    n: int,
)
    ensures
        (#[trigger] resolve_distinct_flow(repo, revisions, i, found, error, t, n)).inspects(),
    decreases revisions.len() - i,
{
    if 0 <= i < revisions.len() {
        if let FlowView::Got(sha, m) = resolve_commit_flow(repo, revisions[i], t, n) {
            selections_inspect(repo, revisions, i + 1, found.push(sha), error, t, m);
        }
    }
}

/// The tree of a revision, as some reply gives it.
pub open spec fn seen_tree(repo: Text, revision: Text, t: Seq<Reply>, m: int) -> Option<Text> {
    match tree_sha_flow(repo, revision, t, m) {
        FlowView::Got(tree, _) => Some(tree),
        _ => None,
    }
}

/// Two revisions were seen to have the same tree.
pub open spec fn same_tree_seen(
    repo: Text,
    a: Text,
    b: Text,
    t: Seq<Reply>,
    m: int,
    k: int,
) -> bool {
    seen_tree(repo, a, t, m) is Some && seen_tree(repo, a, t, m) == seen_tree(repo, b, t, k)
}

/// A rewrite of the commits of `plan` from `from` on, with `HEAD` at `head`,
/// asks for nothing but this: to make commits that follow Conventional
/// Commits; and to move the branch, from `head`, to a commit that was seen to
/// have the same tree.
pub open spec fn tree_preserving_rewrite(
    repo: Text,
    plan: HistoryPlanView,
    head: Text,
    command: CommandView,
    t: Seq<Reply>,
) -> bool {
    match command {
        Command::CommitTree { .. } => makes_conventional_commit(command),
        Command::UpdateRef { reference, new, old } => {
            &&& reference == branch_reference(plan.branch)
            &&& old == head
            &&& exists|m: int, k: int| #[trigger] same_tree_seen(repo, head, new, t, m, k)
        },
        _ => false,
    }
}

/// The commits of `plan` from `from` on were seen to be fit for rewriting:
/// the branch is not the trunk, nothing is changed locally, each has one
/// parent, and under the local policy none is known to be published.
pub open spec fn fit_for_rewriting(
    repo: Text,
    plan: HistoryPlanView,
    from: int,
    policy: RewritePolicy,
    t: Seq<Reply>,
) -> bool {
    &&& !plan.detached_head
    &&& plan.branch != protected_trunk()
    &&& !plan.dirty
    &&& from < plan.commits.len()
    &&& linear_from(plan.commits, from)
    &&& policy == RewritePolicy::LocalOnly ==> exists|m: int| #[trigger]
        unpublished_suffix_flow(repo, plan.commits, plan.upstream, from, t, m) is Got
}

/// Rewording changes a repository only on a server that may, for commits that
/// are fit for rewriting; and it preserves the tree.
pub proof fn law_reword_asks(server: GitServer, args: RewordArgsView, t: Seq<Reply>, n: int)
    ensures
        reword_flow(server, args, t, n).pending() matches Some(command) ==> (
        !command.only_inspects() ==> {
            &&& !server.read_only
            &&& head_sha_flow(args.repo, t, n) matches FlowView::Got(head, m)
            &&& history_plan_flow(args.repo, args.base, t, m) matches FlowView::Got(plan, k)
            &&& reword_selection_flow(args, plan, t, k) matches FlowView::Got(selected, _)
            &&& fit_for_rewriting(args.repo, plan, selected.0, args.rewrite_policy, t)
            &&& tree_preserving_rewrite(args.repo, plan, head, command, t)
        }),
{
    broadcast use {group_questions_inspect, changes_inspect};

    lemma_rewrite_asks(
        server,
        "reword_commits"@,
        args.repo,
        |head: Text, n: int| reword_from_flow(args, head, t, n),
        t,
        n,
    );
    if let FlowView::Got(head, m) = head_sha_flow(args.repo, t, n) {
        if let FlowView::Got(plan, k) = history_plan_flow(args.repo, args.base, t, m) {
            if let FlowView::Got(selected, j) = reword_selection_flow(args, plan, t, k) {
                lemma_reword_replay_asks(args, plan, selected.0, selected.1, head, t, j);
            }
        }
    }
}

proof fn lemma_reword_replay_asks(
    args: RewordArgsView,
    plan: HistoryPlanView,
    from: int,
    shas: Seq<Text>,
    head: Text,
    t: Seq<Reply>,
    n: int,
)
    ensures
        reword_replay_flow(args, plan, from, shas, head, t, n).pending() matches Some(command)
            ==> command.only_inspects() || tree_preserving_rewrite(
            args.repo,
            plan,
            head,
            command,
            t,
        ),
{
    broadcast use group_questions_inspect;

    if let FlowView::Got(original, a) = tree_sha_flow(args.repo, head, t, n) {
        if let FlowView::Got(first, b) = commit_snapshot_flow(
            args.repo,
            plan.commits[from].sha,
            t,
            a,
        ) {
            if first.parents.len() > 0 {
                let parent = first.parents[0];
                lemma_replay_asks(
                    args.repo,
                    plan.commits,
                    shas,
                    args.changes,
                    from,
                    parent,
                    Seq::empty(),
                    t,
                    b,
                );
                if let FlowView::Got(made, c) = replay_flow(
                    args.repo,
                    plan.commits,
                    shas,
                    args.changes,
                    from,
                    parent,
                    Seq::empty(),
                    t,
                    b,
                ) {
                    lemma_install_asks(args.repo, plan, made.0, head, original, n, t, c);
                }
            }
        }
    }
}

proof fn lemma_install_asks(
    repo: Text,
    plan: HistoryPlanView,
    new: Text,
    head: Text,
    original: Text,
    m: int,
    t: Seq<Reply>,
    n: int,
)
    requires
        seen_tree(repo, head, t, m) == Some(original),
    ensures
        install_flow(repo, plan.branch, new, head, original, t, n).pending() matches Some(command)
            ==> command.only_inspects() || tree_preserving_rewrite(repo, plan, head, command, t),
{
    if let FlowView::Got(new_tree, k) = tree_sha_flow(repo, new, t, n) {
        if new_tree == original {
            assert(same_tree_seen(repo, head, new, t, m, n));
            let update = Command::UpdateRef {
                reference: branch_reference(plan.branch),
                new,
                old: head,
            };
            assert(exists|m: int, k: int| #[trigger] same_tree_seen(repo, head, new, t, m, k));
            assert(update->UpdateRef_new == new);
            assert(tree_preserving_rewrite(repo, plan, head, update, t));
            assert(update_branch_flow(repo, plan.branch, new, head, t, k).pending() matches Some(
                command,
            ) ==> command == update);
        }
    }
}

/// Squashing changes a repository only on a server that may, for commits that
/// are fit for rewriting; and it preserves the tree.
pub proof fn law_squash_asks(server: GitServer, args: SquashArgsView, t: Seq<Reply>, n: int)
    ensures
        squash_flow(server, args, t, n).pending() matches Some(command) ==> (
        !command.only_inspects() ==> {
            &&& !server.read_only
            &&& head_sha_flow(args.repo, t, n) matches FlowView::Got(head, m)
            &&& history_plan_flow(args.repo, args.base, t, m) matches FlowView::Got(plan, k)
            &&& squash_selection_flow(args, plan, t, k) matches FlowView::Got(range, _)
            &&& fit_for_rewriting(args.repo, plan, range.0, args.rewrite_policy, t)
            &&& tree_preserving_rewrite(args.repo, plan, head, command, t)
        }),
{
    lemma_rewrite_asks(
        server,
        "squash_commits"@,
        args.repo,
        |head: Text, n: int| squash_from_flow(args, head, t, n),
        t,
        n,
    );
    if let FlowView::Got(head, m) = head_sha_flow(args.repo, t, n) {
        lemma_squash_from_asks(args, head, t, m);
    }
}

proof fn lemma_squash_from_asks(args: SquashArgsView, head: Text, t: Seq<Reply>, n: int)
    ensures
        squash_from_flow(args, head, t, n).pending() matches Some(command) ==> (
        !command.only_inspects() ==> {
            &&& history_plan_flow(args.repo, args.base, t, n) matches FlowView::Got(plan, k)
            &&& squash_selection_flow(args, plan, t, k) matches FlowView::Got(range, _)
            &&& fit_for_rewriting(args.repo, plan, range.0, args.rewrite_policy, t)
            &&& tree_preserving_rewrite(args.repo, plan, head, command, t)
        }),
{
    broadcast use plans_inspect;

    if let FlowView::Got(plan, k) = history_plan_flow(args.repo, args.base, t, n) {
        lemma_squash_selection_asks(args, plan, t, k);
        if let FlowView::Got(range, j) = squash_selection_flow(args, plan, t, k) {
            lemma_squash_range_asks(args, plan, range.0, range.1, head, t, j);
        }
    }
}

proof fn lemma_squash_selection_asks(
    args: SquashArgsView,
    plan: HistoryPlanView,
    t: Seq<Reply>,
    n: int,
)
    ensures
        squash_selection_flow(args, plan, t, n).inspects(),
        squash_selection_flow(args, plan, t, n) matches FlowView::Got(range, _)
            ==> fit_for_rewriting(args.repo, plan, range.0, args.rewrite_policy, t),
{
    broadcast use {suffix_inspects, selections_inspect};

}

proof fn lemma_squash_range_asks(
    args: SquashArgsView,
    plan: HistoryPlanView,
    start: int,
    end: int,
    head: Text,
    t: Seq<Reply>,
    n: int,
)
    ensures
        squash_range_flow(args, plan, start, end, head, t, n).pending() matches Some(command)
            ==> command.only_inspects() || tree_preserving_rewrite(
            args.repo,
            plan,
            head,
            command,
            t,
        ),
{
    broadcast use group_questions_inspect;

    if let FlowView::Got(first, a) = commit_snapshot_flow(
        args.repo,
        plan.commits[start].sha,
        t,
        n,
    ) {
        if let FlowView::Got(last, b) = commit_snapshot_flow(
            args.repo,
            plan.commits[end].sha,
            t,
            a,
        ) {
            if let FlowView::Got(original, c) = tree_sha_flow(args.repo, head, t, b) {
                if let FlowView::Got(new_commit, d) = create_commit_flow(
                    args.repo,
                    first,
                    last.tree,
                    first.parents[0],
                    args.message,
                    t,
                    c,
                ) {
                    lemma_squash_replay_asks(args.repo, plan.commits, end + 1, new_commit, t, d);
                    if let FlowView::Got(new, e) = squash_replay_flow(
                        args.repo,
                        plan.commits,
                        end + 1,
                        new_commit,
                        t,
                        d,
                    ) {
                        lemma_install_asks(args.repo, plan, new, head, original, b, t, e);
                    }
                }
            }
        }
    }
}

// ---------------------------------------------------------------------------
// Publication
// ---------------------------------------------------------------------------
broadcast proof fn resolving_all_inspects(
    repo: Text,
    revisions: Seq<Text>,
    i: int,
    found: Seq<Text>,
    t: Seq<Reply>,
    n: int,
)
    ensures
        (#[trigger] resolve_all_flow(repo, revisions, i, found, t, n)).inspects(),
    decreases revisions.len() - i,
{
    if 0 <= i < revisions.len() {
        if let FlowView::Got(sha, m) = resolve_commit_flow(repo, revisions[i], t, n) {
            resolving_all_inspects(repo, revisions, i + 1, found.push(sha), t, m);
        }
    }
}

broadcast proof fn tag_names_inspect(repo: Text, tags: Seq<Text>, i: int, t: Seq<Reply>, n: int)
    ensures
        (#[trigger] validate_tags_flow(repo, tags, i, t, n)).inspects(),
    decreases tags.len() - i,
{
    if 0 <= i < tags.len() {
        if let FlowView::Got(_, m) = validate_tag_name_flow(repo, tags[i], t, n) {
            tag_names_inspect(repo, tags, i + 1, t, m);
        }
    }
}

broadcast proof fn published_commits_inspect(
    repo: Text,
    remote: Text,
    commits: Seq<Text>,
    i: int,
    found: Seq<PublishedCommitView>,
    t: Seq<Reply>,
    n: int,
)
    ensures
        (#[trigger] published_commits_flow(repo, remote, commits, i, found, t, n)).inspects(),
    decreases commits.len() - i,
{
    if 0 <= i < commits.len() {
        let command = Command::RemoteRefsOf { remote, commit: commits[i] };
        if let FlowView::Got(o, m) = git_flow(repo, command, t, n) {
            let refs = listing(o.stdout);
            let more = found.push(PublishedCommitView { commit: commits[i], refs });
            published_commits_inspect(repo, remote, commits, i + 1, found, t, m);
            published_commits_inspect(repo, remote, commits, i + 1, more, t, m);
        }
    }
}

broadcast proof fn published_tags_ask(
    repo: Text,
    remote: Text,
    tags: Seq<Text>,
    i: int,
    found: Seq<PublishedTagView>,
    t: Seq<Reply>,
    n: int,
)
    ensures
        (#[trigger] published_tags_flow(repo, remote, tags, i, found, t, n)).pending() matches Some(
            command,
        ) ==> command is RemoteTag,
    decreases tags.len() - i,
{
    if 0 <= i < tags.len() {
        let command = Command::RemoteTag { remote, tag: tags[i] };
        if let FlowView::Got(o, m) = git_flow(repo, command, t, n) {
            let remote_lines = listing(o.stdout);
            let more = found.push(PublishedTagView { tag: tags[i], remote_lines });
            published_tags_ask(repo, remote, tags, i + 1, found, t, m);
            published_tags_ask(repo, remote, tags, i + 1, more, t, m);
        }
    }
}

/// The command reads from a remote in order to find out what is published.
pub open spec fn looks_at_remote(command: CommandView) -> bool {
    command is FetchTags || command is RemoteTag
}

/// Verification contacts a remote only on a server that may, and does nothing
/// there but read.
pub proof fn law_verification_asks(
    server: GitServer,
    args: PublicationArgsView,
    t: Seq<Reply>,
    n: int,
)
    ensures
        verify_unpublished_flow(server, args, t, n).pending() matches Some(command) ==> (
        !command.only_inspects() ==> {
            &&& !server.read_only
            &&& server.allow_remote_read
            &&& looks_at_remote(command)
        }),
{
    broadcast use {
        resolving_all_inspects,
        tag_names_inspect,
        published_commits_inspect,
        published_tags_ask,
    };

}

/// At position `m`, the remote was seen to have no reference that contains a
/// commit.
pub open spec fn commit_seen_absent(
    repo: Text,
    remote: Text,
    commit: Text,
    t: Seq<Reply>,
    m: int,
) -> bool {
    git_flow(repo, Command::RemoteRefsOf { remote, commit }, t, m) matches FlowView::Got(o, _)
        && listing(o.stdout).len() == 0
}

/// At position `from` or later, the remote was seen to have no reference that
/// contains a commit.
pub open spec fn commit_absent_from(
    repo: Text,
    remote: Text,
    commit: Text,
    t: Seq<Reply>,
    from: int,
) -> bool {
    exists|m: int| from <= m && #[trigger] commit_seen_absent(repo, remote, commit, t, m)
}

/// At position `m`, the remote was seen not to have a tag.
pub open spec fn tag_seen_absent(
    repo: Text,
    remote: Text,
    tag: Text,
    t: Seq<Reply>,
    m: int,
) -> bool {
    git_flow(repo, Command::RemoteTag { remote, tag }, t, m) matches FlowView::Got(o, _) && listing(
        o.stdout,
    ).len() == 0
}

/// At position `from` or later, the remote was seen not to have a tag.
pub open spec fn tag_absent_from(
    repo: Text,
    remote: Text,
    tag: Text,
    t: Seq<Reply>,
    from: int,
) -> bool {
    exists|m: int| from <= m && #[trigger] tag_seen_absent(repo, remote, tag, t, m)
}

proof fn lemma_commits_absent(
    repo: Text,
    remote: Text,
    commits: Seq<Text>,
    i: int,
    found: Seq<PublishedCommitView>,
    t: Seq<Reply>,
    n: int,
)
    requires
        0 <= i <= commits.len(),
    ensures
        published_commits_flow(repo, remote, commits, i, found, t, n) matches FlowView::Got(all, k)
            ==> {
            &&& all.len() >= found.len()
            &&& k >= n
            &&& all.len() == found.len() ==> forall|j: int|
                i <= j < commits.len() ==> commit_absent_from(
                    repo,
                    remote,
                    #[trigger] commits[j],
                    t,
                    n,
                )
        },
    decreases commits.len() - i,
{
    if i < commits.len() {
        let command = Command::RemoteRefsOf { remote, commit: commits[i] };
        if let FlowView::Got(o, m) = git_flow(repo, command, t, n) {
            let refs = listing(o.stdout);
            let more = found.push(PublishedCommitView { commit: commits[i], refs });
            lemma_commits_absent(repo, remote, commits, i + 1, found, t, m);
            lemma_commits_absent(repo, remote, commits, i + 1, more, t, m);
            if refs.len() == 0 {
                assert(commit_seen_absent(repo, remote, commits[i], t, n));
                assert(commit_absent_from(repo, remote, commits[i], t, n));
            }
            assert forall|j: int|
                i < j < commits.len() && commit_absent_from(
                    repo,
                    remote,
                    #[trigger] commits[j],
                    t,
                    m,
                ) implies commit_absent_from(repo, remote, commits[j], t, n) by {
                let p = choose|p: int|
                    m <= p && #[trigger] commit_seen_absent(repo, remote, commits[j], t, p);
                assert(n <= p && commit_seen_absent(repo, remote, commits[j], t, p));
            }
        }
    }
}

proof fn lemma_tags_absent(
    repo: Text,
    remote: Text,
    tags: Seq<Text>,
    i: int,
    found: Seq<PublishedTagView>,
    t: Seq<Reply>,
    n: int,
)
    requires
        0 <= i <= tags.len(),
    ensures
        published_tags_flow(repo, remote, tags, i, found, t, n) matches FlowView::Got(all, k) ==> {
            &&& all.len() >= found.len()
            &&& k >= n
            &&& all.len() == found.len() ==> forall|j: int|
                i <= j < tags.len() ==> tag_absent_from(repo, remote, #[trigger] tags[j], t, n)
        },
    decreases tags.len() - i,
{
    if i < tags.len() {
        let command = Command::RemoteTag { remote, tag: tags[i] };
        if let FlowView::Got(o, m) = git_flow(repo, command, t, n) {
            let remote_lines = listing(o.stdout);
            let more = found.push(PublishedTagView { tag: tags[i], remote_lines });
            lemma_tags_absent(repo, remote, tags, i + 1, found, t, m);
            lemma_tags_absent(repo, remote, tags, i + 1, more, t, m);
            if remote_lines.len() == 0 {
                assert(tag_seen_absent(repo, remote, tags[i], t, n));
                assert(tag_absent_from(repo, remote, tags[i], t, n));
            }
            assert forall|j: int|
                i < j < tags.len() && tag_absent_from(
                    repo,
                    remote,
                    #[trigger] tags[j],
                    t,
                    m,
                ) implies tag_absent_from(repo, remote, tags[j], t, n) by {
                let p = choose|p: int|
                    m <= p && #[trigger] tag_seen_absent(repo, remote, tags[j], t, p);
                assert(n <= p && tag_seen_absent(repo, remote, tags[j], t, p));
            }
        }
    }
}

/// At position `from` or later, the remote was seen to have none of the
/// commits and tags.
pub open spec fn all_absent_from(
    repo: Text,
    remote: Text,
    commits: Seq<Text>,
    tags: Seq<Text>,
    t: Seq<Reply>,
    from: int,
) -> bool {
    &&& forall|j: int|
        0 <= j < commits.len() ==> commit_absent_from(repo, remote, #[trigger] commits[j], t, from)
    &&& forall|j: int|
        0 <= j < tags.len() ==> tag_absent_from(repo, remote, #[trigger] tags[j], t, from)
}

/// The remote was fetched from with the reply at position `f`.
pub open spec fn fetched_at(repo: Text, remote: Text, t: Seq<Reply>, f: int) -> bool {
    git_flow(repo, Command::FetchTags { remote }, t, f) is Got
}

/// Verification reports its subjects as unpublished exactly where it lists
/// none of them as published; and then the replies show, after the remote was
/// fetched from, that it has none of them.
pub proof fn law_verification_proves(
    server: GitServer,
    args: PublicationArgsView,
    t: Seq<Reply>,
    n: int,
)
    ensures
        verify_unpublished_flow(server, args, t, n) matches FlowView::Got(v, _) ==> {
            &&& v.fetched
            &&& v.unpublished <==> v.published_commits.len() == 0 && v.published_tags.len() == 0
            &&& v.tags_checked == args.tags
            &&& v.unpublished ==> exists|f: int|
                {
                    &&& #[trigger] fetched_at(args.repo, v.remote, t, f)
                    &&& all_absent_from(
                        args.repo,
                        v.remote,
                        v.commits_checked,
                        v.tags_checked,
                        t,
                        f + 1,
                    )
                }
        },
{
    let remote = chosen_remote(args.remote);
    if let FlowView::Got(_, a) = git_flow(args.repo, Command::RemoteUrl { remote }, t, n) {
        if let FlowView::Got(commits, b) = resolve_all_flow(
            args.repo,
            args.commits,
            0,
            Seq::empty(),
            t,
            a,
        ) {
            if let FlowView::Got(_, f) = validate_tags_flow(args.repo, args.tags, 0, t, b) {
                lemma_look_up_proves(args.repo, remote, commits, args.tags, t, f);
                let found = look_up_flow(args.repo, remote, commits, args.tags, t, f);
                if let FlowView::Got(v, _) = found {
                    assert(fetched_at(args.repo, v.remote, t, f));
                    assert(v.commits_checked == commits && v.tags_checked == args.tags);
                }
            }
        }
    }
}

proof fn lemma_look_up_proves(
    repo: Text,
    remote: Text,
    commits: Seq<Text>,
    tags: Seq<Text>,
    t: Seq<Reply>,
    f: int,
)
    ensures
        look_up_flow(repo, remote, commits, tags, t, f) matches FlowView::Got(v, _) ==> {
            &&& fetched_at(repo, remote, t, f)
            &&& v.unpublished ==> all_absent_from(repo, remote, commits, tags, t, f + 1)
        },
{
    if let FlowView::Got(_, a) = git_flow(repo, Command::FetchTags { remote }, t, f) {
        assert(a == f + 1);
        lemma_commits_absent(repo, remote, commits, 0, Seq::empty(), t, a);
        if let FlowView::Got(published, b) = published_commits_flow(
            repo,
            remote,
            commits,
            0,
            Seq::empty(),
            t,
            a,
        ) {
            lemma_tags_absent(repo, remote, tags, 0, Seq::empty(), t, b);
            assert forall|j: int|
                0 <= j < tags.len() && tag_absent_from(
                    repo,
                    remote,
                    #[trigger] tags[j],
                    t,
                    b,
                ) implies tag_absent_from(repo, remote, tags[j], t, a) by {
                let p = choose|p: int|
                    b <= p && #[trigger] tag_seen_absent(repo, remote, tags[j], t, p);
                assert(a <= p && tag_seen_absent(repo, remote, tags[j], t, p));
            }
        }
    }
}

// ---------------------------------------------------------------------------
// Taking back a merge
// ---------------------------------------------------------------------------
/// The branch was seen to have no local changes.
pub open spec fn clean_at(repo: Text, t: Seq<Reply>, m: int) -> bool {
    is_dirty_flow(repo, t, m) matches FlowView::Got(dirty, _) && !dirty
}

/// A merge at `head` that may be taken back is the expected one, and nothing
/// is changed locally; it has two parents.
proof fn lemma_rewindable(args: RewindArgsView, head: Text, t: Seq<Reply>, n: int)
    ensures
        rewindable_flow(args, head, t, n).inspects(),
        rewindable_flow(args, head, t, n) matches FlowView::Got(found, _) ==> {
            &&& resolve_commit_flow(args.repo, args.expected_merge, t, n) matches FlowView::Got(
                expected,
                _,
            )
            &&& expected == head
            &&& exists|m: int| #[trigger] clean_at(args.repo, t, m)
            &&& exists|m: int| #[trigger] commit_read_at(args.repo, head, found.1, t, m)
            &&& found.1.parents.len() == 2
        },
{
    broadcast use {resolving_inspects, snapshots_inspect};

    if let FlowView::Got(expected, m) = resolve_commit_flow(
        args.repo,
        args.expected_merge,
        t,
        n,
    ) {
        if is_dirty_flow(args.repo, t, m) matches FlowView::Got(dirty, _) && !dirty {
            assert(clean_at(args.repo, t, m));
            let at = is_dirty_flow(args.repo, t, m)->Got_1;
            if let FlowView::Got(_, k) = current_branch_required_flow(args.repo, t, at) {
                if let FlowView::Got(snapshot, _) = commit_snapshot_flow(
                    args.repo,
                    expected,
                    t,
                    k,
                ) {
                    assert(commit_read_at(args.repo, expected, snapshot, t, k));
                    assert(rewindable_flow(args, head, t, n) matches FlowView::Got(found, _)
                        ==> found.1 == snapshot);
                }
            }
        }
    }
}

/// The merge at `head` was seen to be unpublished.
pub open spec fn merge_seen_unpublished(
    server: GitServer,
    args: RewindArgsView,
    head: Text,
    t: Seq<Reply>,
    m: int,
) -> bool {
    verify_unpublished_flow(server, merge_publication(args, head), t, m) matches FlowView::Got(v, _)
        && v.unpublished
}

/// Taking back a merge changes the branch only on a server that may, where
/// `HEAD` is the expected merge of two parents and nothing is changed locally;
/// where the remote is to be asked, only after it was seen not to have the
/// merge. It moves the branch to the first parent of the merge and nowhere
/// else. It contacts a remote only to find out what is published.
pub proof fn law_rewind_asks(server: GitServer, args: RewindArgsView, t: Seq<Reply>, n: int)
    ensures
        rewind_flow(server, args, t, n).pending() matches Some(command) ==> (
        !command.only_inspects() ==> {
            &&& !server.read_only
            &&& head_sha_flow(args.repo, t, n) matches FlowView::Got(head, m)
            &&& resolve_commit_flow(args.repo, args.expected_merge, t, m) matches FlowView::Got(
                expected,
                _,
            )
            &&& expected == head
            &&& exists|k: int| #[trigger] clean_at(args.repo, t, k)
            &&& rewindable_flow(args, head, t, m) matches FlowView::Got(found, k)
            &&& found.1.parents.len() == 2
            &&& match command {
                Command::ResetKeep { target } => {
                    &&& target == found.1.parents[0]
                    &&& args.publication_guard == PublicationGuard::VerifyRemote
                        ==> merge_seen_unpublished(server, args, head, t, k)
                },
                _ => {
                    &&& args.publication_guard == PublicationGuard::VerifyRemote
                    &&& server.allow_remote_read
                    &&& looks_at_remote(command)
                },
            }
        }),
{
    lemma_rewrite_asks(
        server,
        "rewind_merge"@,
        args.repo,
        |head: Text, n: int| rewind_from_flow(server, args, head, t, n),
        t,
        n,
    );
    if let FlowView::Got(head, m) = head_sha_flow(args.repo, t, n) {
        lemma_rewindable(args, head, t, m);
        if let FlowView::Got(found, k) = rewindable_flow(args, head, t, m) {
            law_verification_asks(server, merge_publication(args, head), t, k);
            lemma_rewind_to_asks(args.repo, found.1.parents[0], t, k);
            if let FlowView::Got(_, j) = merge_unpublished_flow(server, args, head, t, k) {
                lemma_rewind_to_asks(args.repo, found.1.parents[0], t, j);
            }
        }
    }
}

proof fn lemma_rewind_to_asks(repo: Text, first_parent: Text, t: Seq<Reply>, n: int)
    ensures
        rewind_to_flow(repo, first_parent, t, n).pending() matches Some(command)
            ==> command.only_inspects() || command == (Command::<Text, Seq<Text>>::ResetKeep {
            target: first_parent,
        }),
        rewind_to_flow(repo, first_parent, t, n) matches FlowView::Got(end, _) ==> end.0
            == first_parent && rewound_at(repo, first_parent, t, n),
{
}

/// The branch was moved to a commit with the reply at position `m`; after that,
/// `HEAD` was seen to be that commit, with nothing changed locally.
pub open spec fn rewound_at(repo: Text, target: Text, t: Seq<Reply>, m: int) -> bool {
    &&& git_flow(repo, Command::ResetKeep { target }, t, m) matches FlowView::Got(_, k)
    &&& head_sha_flow(repo, t, k) matches FlowView::Got(head, j)
    &&& head == target
    &&& clean_at(repo, t, j)
}

/// What a commit holds was read at position `m`.
pub open spec fn commit_read_at(
    repo: Text,
    commit: Text,
    snapshot: SnapshotView,
    t: Seq<Reply>,
    m: int,
) -> bool {
    commit_snapshot_flow(repo, commit, t, m) matches FlowView::Got(seen, _) && seen == snapshot
}

/// A merge that was taken back is the one that was expected, and it was at
/// `HEAD`. The branch is left at the first of the two parents that were read of
/// that merge, with nothing changed locally, as was seen afterwards.
pub proof fn law_rewind_done(server: GitServer, args: RewindArgsView, t: Seq<Reply>, n: int)
    ensures
        rewind_flow(server, args, t, n) matches FlowView::Got(RewriteOutcome::Done(done), _) ==> {
            &&& head_sha_flow(args.repo, t, n) matches FlowView::Got(head, m)
            &&& done.old_head == head
            &&& resolve_commit_flow(args.repo, args.expected_merge, t, m) matches FlowView::Got(
                expected,
                _,
            )
            &&& done.old_head == expected
            &&& rewindable_flow(args, head, t, m) matches FlowView::Got(found, _)
            &&& done.branch == found.0
            &&& exists|k: int| #[trigger] commit_read_at(args.repo, done.old_head, found.1, t, k)
            &&& found.1.parents.len() == 2
            &&& done.first_parent == found.1.parents[0]
            &&& done.new_head == done.first_parent
            &&& exists|k: int| #[trigger] rewound_at(args.repo, done.first_parent, t, k)
        },
{
    if let FlowView::Got(head, m) = head_sha_flow(args.repo, t, n) {
        lemma_rewindable(args, head, t, m);
        if let FlowView::Got(found, k) = rewindable_flow(args, head, t, m) {
            if let FlowView::Got(_, j) = merge_unpublished_flow(server, args, head, t, k) {
                let first_parent = found.1.parents[0];
                lemma_rewind_to_asks(args.repo, first_parent, t, j);
                if rewind_to_flow(args.repo, first_parent, t, j) is Got {
                    assert(rewound_at(args.repo, first_parent, t, j));
                    assert(rewind_from_flow(server, args, head, t, m) matches FlowView::Got(done, _)
                        && done.first_parent == first_parent && done.old_head == head);
                }
            }
        }
    }
}

/// Taking back a merge whose first parent is `base` brings `HEAD` back to
/// `base`.
pub proof fn law_rewind_returns(
    server: GitServer,
    args: RewindArgsView,
    base: Text,
    t: Seq<Reply>,
    n: int,
)
    requires
        ({
            &&& head_sha_flow(args.repo, t, n) matches FlowView::Got(head, m)
            &&& rewindable_flow(args, head, t, m) matches FlowView::Got(found, _)
            &&& found.1.parents[0] == base
        }),
    ensures
        rewind_flow(server, args, t, n) matches FlowView::Got(RewriteOutcome::Done(done), _) ==> {
            &&& done.first_parent == base
            &&& done.new_head == base
            &&& exists|k: int| #[trigger] rewound_at(args.repo, base, t, k)
        },
{
    law_rewind_done(server, args, t, n);
}

/// The replies from position `n` on tell that the merge `merge`, whose first
/// parent is `base`, is at `HEAD` of a branch without local changes, that it is
/// not published as far as the guard asks for that, and that the move back to
/// `base` takes effect.
pub open spec fn merge_can_be_undone(
    server: GitServer,
    args: RewindArgsView,
    merge: Text,
    base: Text,
    t: Seq<Reply>,
    n: int,
) -> bool {
    &&& head_sha_flow(args.repo, t, n) matches FlowView::Got(head, a)
    &&& head == merge
    &&& resolve_commit_flow(args.repo, merge, t, a) matches FlowView::Got(expected, b)
    &&& expected == merge
    &&& is_dirty_flow(args.repo, t, b) matches FlowView::Got(dirty, c)
    &&& !dirty
    &&& current_branch_required_flow(args.repo, t, c) matches FlowView::Got(_, d)
    &&& commit_snapshot_flow(args.repo, merge, t, d) matches FlowView::Got(snapshot, e)
    &&& snapshot.parents.len() == 2
    &&& snapshot.parents[0] == base
    &&& merge_unpublished_flow(server, args, merge, t, e) matches FlowView::Got(_, f)
    &&& rewind_to_flow(args.repo, base, t, f) is Got
}

proof fn lemma_undoable(
    server: GitServer,
    args: RewindArgsView,
    base: Text,
    t: Seq<Reply>,
    n: int,
)
    requires
        merge_can_be_undone(server, args, args.expected_merge, base, t, n),
    ensures
        ({
            &&& head_sha_flow(args.repo, t, n) matches FlowView::Got(head, a)
            &&& head == args.expected_merge
            &&& rewindable_flow(args, head, t, a) matches FlowView::Got(found, e)
            &&& found.1.parents[0] == base
            &&& merge_unpublished_flow(server, args, head, t, e) matches FlowView::Got(_, f)
            &&& rewind_to_flow(args.repo, base, t, f) is Got
        }),
{
}

/// A merge that can be undone is undone.
pub proof fn lemma_undone(server: GitServer, args: RewindArgsView, base: Text, t: Seq<Reply>, n: int)
    requires
        !server.read_only,
        merge_can_be_undone(server, args, args.expected_merge, base, t, n),
    ensures
        rewind_flow(server, args, t, n) matches FlowView::Got(RewriteOutcome::Done(done), _)
            && done.first_parent == base && done.old_head == args.expected_merge,
{
    lemma_undoable(server, args, base, t, n);
    let head = args.expected_merge;
    if let FlowView::Got(_, a) = head_sha_flow(args.repo, t, n) {
        assert(rewind_from_flow(server, args, head, t, a) matches FlowView::Got(done, _)
            && done.first_parent == base && done.old_head == head);
    }
}

proof fn lemma_only_writers_merge(
    server: GitServer,
    repo: Text,
    source: Text,
    message: Option<Text>,
    t: Seq<Reply>,
    n: int,
)
    ensures
        merge_flow(server, repo, source, MergeMode::NoFf, message, t, n) is Got
            ==> !server.read_only,
{
}

/// Taking back a merge undoes it: on the server that made the merge, and with
/// that merge expected, it succeeds wherever the merge can be undone, and
/// `HEAD` is again the commit that the merge was made on, with nothing changed
/// locally.
pub proof fn law_rewind_undoes_merge(
    server: GitServer,
    source: Text,
    message: Option<Text>,
    t: Seq<Reply>,
    n: int,
    args: RewindArgsView,
    base: Text,
    u: Seq<Reply>,
    m: int,
)
    requires
        ({
            &&& merge_flow(
                server,
                args.repo,
                source,
                MergeMode::NoFf,
                message,
                t,
                n,
            ) matches FlowView::Got(merged, _)
            &&& args.expected_merge == merged.head
            &&& merge_can_be_undone(server, args, merged.head, base, u, m)
        }),
    ensures
        rewind_flow(server, args, u, m) matches FlowView::Got(RewriteOutcome::Done(done), _) && {
            &&& done.old_head == args.expected_merge
            &&& done.first_parent == base
            &&& done.new_head == base
            &&& exists|k: int| #[trigger] rewound_at(args.repo, base, u, k)
        },
{
    lemma_only_writers_merge(server, args.repo, source, message, t, n);
    lemma_undone(server, args, base, u, m);
    law_rewind_done(server, args, u, m);
}

// ---------------------------------------------------------------------------
// Replacing a tag
// ---------------------------------------------------------------------------
/// The tag was seen to be unpublished.
pub open spec fn tag_seen_unpublished(
    server: GitServer,
    args: ReplaceTagArgsView,
    t: Seq<Reply>,
    m: int,
) -> bool {
    verify_unpublished_flow(server, tag_publication(args), t, m) matches FlowView::Got(v, _)
        && v.unpublished
}

/// The object of the tag was read.
pub open spec fn tag_object_at(repo: Text, name: Text, object: Text, t: Seq<Reply>, m: int) -> bool {
    tag_object_flow(repo, name, t, m) matches FlowView::Got(seen, _) && seen == object
}

proof fn lemma_swap_asks(
    args: ReplaceTagArgsView,
    temporary: Text,
    new_target: Text,
    old_object: Text,
    t: Seq<Reply>,
    n: int,
)
    ensures
        swap_tag_flow(args, temporary, new_target, old_object, t, n).pending() matches Some(command)
            ==> (!command.only_inspects() ==> match command {
            Command::AnnotatedTag { name, target, .. } => name == temporary && target == Some(
                new_target,
            ),
            Command::UpdateRef { reference, new, old } => reference == tag_reference(args.name)
                && old == old_object && exists|m: int| #[trigger]
                tag_object_at(args.repo, temporary, new, t, m),
            Command::DeleteTag { name } => name == temporary,
            _ => false,
        }),
{
    if let FlowView::Got(_, a) = validate_tag_name_flow(args.repo, temporary, t, n) {
        let make = Command::AnnotatedTag {
            name: temporary,
            target: Some(new_target),
            message: args.message,
        };
        if let FlowView::Got(_, b) = git_flow(args.repo, make, t, a) {
            if let FlowView::Got(new_object, c) = tag_object_flow(args.repo, temporary, t, b) {
                assert(tag_object_at(args.repo, temporary, new_object, t, b));
                let update = Command::UpdateRef {
                    reference: tag_reference(args.name),
                    new: new_object,
                    old: old_object,
                };
                assert(update->UpdateRef_new == new_object);
                assert(git_flow(args.repo, update, t, c).pending() matches Some(command) ==> command
                    == update);
            }
        }
    }
}

/// Replacing a tag changes a repository only on a server that may, where the
/// tag leads to the expected commit; where the remote is to be asked, only
/// after it was seen not to have the tag. The replacement is made under a
/// temporary name, as an annotated tag, and the tag is moved to the object of
/// that one, and only from the object that it was read to hold. It contacts a
/// remote only to find out what is published.
pub proof fn law_replace_tag_asks(
    server: GitServer,
    args: ReplaceTagArgsView,
    process: nat,
    number: nat,
    t: Seq<Reply>,
    n: int,
)
    ensures
        replace_tag_flow(server, args, process, number, t, n).pending() matches Some(command) ==> (
        !command.only_inspects() ==> {
            &&& !server.read_only
            &&& exists|m: int| #[trigger] expected_target_flow(args, t, m) is Got
            &&& looks_at_remote(command) ==> {
                &&& args.publication_guard == PublicationGuard::VerifyRemote
                &&& server.allow_remote_read
            }
            &&& !looks_at_remote(command) ==> {
                &&& args.publication_guard == PublicationGuard::VerifyRemote ==> exists|m: int|
                    #[trigger] tag_seen_unpublished(server, args, t, m)
                &&& match command {
                    Command::AnnotatedTag { name, .. } => name == temporary_name(
                        args.name,
                        process,
                        number,
                    ),
                    Command::UpdateRef { reference, new, old } => {
                        &&& reference == tag_reference(args.name)
                        &&& exists|m: int| #[trigger]
                            tag_object_at(args.repo, args.name, old, t, m)
                        &&& exists|m: int| #[trigger]
                            tag_object_at(
                                args.repo,
                                temporary_name(args.name, process, number),
                                new,
                                t,
                                m,
                            )
                    },
                    Command::DeleteTag { name } => name == temporary_name(
                        args.name,
                        process,
                        number,
                    ),
                    _ => false,
                }
            }
        }),
{
    broadcast use resolving_inspects;

    if let FlowView::Got(_, a) = validate_tag_name_flow(args.repo, args.name, t, n) {
        if let FlowView::Got(old_target, b) = expected_target_flow(args, t, a) {
            law_verification_asks(server, tag_publication(args), t, b);
            if let FlowView::Got(_, c) = tag_unpublished_flow(server, args, t, b) {
                if args.publication_guard == PublicationGuard::VerifyRemote {
                    assert(tag_seen_unpublished(server, args, t, b));
                }
                lemma_retarget_asks(args, old_target, process, number, t, c);
            }
        }
    }
}

proof fn lemma_retarget_asks(
    args: ReplaceTagArgsView,
    old_target: Text,
    process: nat,
    number: nat,
    t: Seq<Reply>,
    n: int,
)
    ensures
        retarget_flow(args, old_target, process, number, t, n).pending() matches Some(command) ==> (
        !command.only_inspects() ==> match command {
            Command::AnnotatedTag { name, .. } => name == temporary_name(
                args.name,
                process,
                number,
            ),
            Command::UpdateRef { reference, new, old } => {
                &&& reference == tag_reference(args.name)
                &&& exists|m: int| #[trigger] tag_object_at(args.repo, args.name, old, t, m)
                &&& exists|m: int| #[trigger]
                    tag_object_at(
                        args.repo,
                        temporary_name(args.name, process, number),
                        new,
                        t,
                        m,
                    )
            },
            Command::DeleteTag { name } => name == temporary_name(args.name, process, number),
            _ => false,
        }),
        retarget_flow(args, old_target, process, number, t, n) matches FlowView::Got(done, _)
            ==> exists|m: int| #[trigger]
            tag_target_at(args.repo, args.name, done.new_target, t, m),
{
    broadcast use resolving_inspects;

    let temporary = temporary_name(args.name, process, number);
    if let FlowView::Got(new_target, a) = new_target_flow(args, t, n) {
        if let FlowView::Got(old_object, b) = tag_object_flow(args.repo, args.name, t, a) {
            assert(tag_object_at(args.repo, args.name, old_object, t, a));
            lemma_swap_asks(args, temporary, new_target, old_object, t, b);
            if let FlowView::Got(_, c) = swap_tag_flow(
                args,
                temporary,
                new_target,
                old_object,
                t,
                b,
            ) {
                if let FlowView::Got(seen, _) = tag_target_flow(args.repo, args.name, t, c) {
                    assert(tag_target_at(args.repo, args.name, seen, t, c));
                    if let FlowView::Got(done, _) = retarget_flow(
                        args,
                        old_target,
                        process,
                        number,
                        t,
                        n,
                    ) {
                        assert(done.new_target == seen);
                    }
                }
            }
        }
    }
}

/// The tag was seen to lead to a commit.
pub open spec fn tag_target_at(repo: Text, name: Text, target: Text, t: Seq<Reply>, m: int) -> bool {
    tag_target_flow(repo, name, t, m) matches FlowView::Got(seen, _) && seen == target
}

/// A tag that was replaced is annotated, and was seen to lead to its new
/// target.
pub proof fn law_replace_tag_done(
    server: GitServer,
    args: ReplaceTagArgsView,
    process: nat,
    number: nat,
    t: Seq<Reply>,
    n: int,
)
    ensures
        replace_tag_flow(server, args, process, number, t, n) matches FlowView::Got(done, _) ==> {
            &&& done.name == args.name
            &&& done.annotated
            &&& exists|m: int| #[trigger] tag_target_at(args.repo, args.name, done.new_target, t, m)
        },
{
    if let FlowView::Got(_, a) = validate_tag_name_flow(args.repo, args.name, t, n) {
        if let FlowView::Got(old_target, b) = expected_target_flow(args, t, a) {
            if let FlowView::Got(_, c) = tag_unpublished_flow(server, args, t, b) {
                lemma_retarget_asks(args, old_target, process, number, t, c);
            }
        }
    }
}

} // verus!
