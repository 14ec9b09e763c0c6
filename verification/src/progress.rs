//! What operations that rewrite history keep to while replies come in: what
//! they have come to stays, and they move a branch at most once.
use crate::amend::{
    amend_flow, amend_from_flow, amendable_flow, amended_tree_flow, head_unpublished_flow,
    AmendArgsView,
};
use crate::command::CommandView;
use crate::flow::{git_flow, raw_flow, FlowView, Reply};
use crate::history::{
    branch_history_flow, history_plan_flow, insert_all, plan_upstream_flow, published_refs_flow,
    HistoryCommitView, HistoryPlanView,
};
use crate::queries::{
    current_branch_flow, current_branch_required_flow, head_sha_flow, is_ancestor_flow,
    is_dirty_flow, merge_base_flow, on_upstream_flow, remote_refs_flow, resolve_commit_flow,
    short_status_flow, tree_sha_flow, upstream_flow, validate_commitish_flow,
};
use crate::reword::{
    replay_flow, resolve_changes_flow, reword_flow, reword_from_flow, reword_replay_flow,
    reword_selection_flow, reworded, rewritten_commit, RewordArgsView, RewordView, RewrittenView,
};
use crate::rewrite::{
    install_flow, rewrite_flow, suffix_rewrite_flow, unpublished_suffix_flow, update_branch_flow,
    RewritePolicy,
};
use crate::selection::resolve_distinct_flow;
use crate::server::GitServer;
use crate::snapshot::{commit_snapshot_flow, create_commit_flow, SnapshotView};
use crate::squash::{
    squash_flow, squash_from_flow, squash_range_flow, squash_replay_flow, squash_selection_flow,
    SquashArgsView,
};
use crate::text::{insert_sorted, Text};
use vstd::prelude::*;

verus! {

// ---------------------------------------------------------------------------
// What has been reached stays
// ---------------------------------------------------------------------------
/// The replies `late` begin with the replies `early`, of which those before
/// position `n` have been read.
pub open spec fn more_replies(early: Seq<Reply>, late: Seq<Reply>, n: int) -> bool {
    early.is_prefix_of(late) && 0 <= n <= early.len()
}

/// What has to be run next moves a reference.
pub open spec fn moves_branch<T>(flow: FlowView<T>) -> bool {
    flow.pending() is Some && flow.pending()->0 is UpdateRef
}

/// What was reached with `len` replies, read from position `n` on, is reached
/// with more of them too; until then no reference is moved.
pub open spec fn stays<T>(early: FlowView<T>, late: FlowView<T>, n: int, len: int) -> bool {
    match early {
        FlowView::Ask(_) => !moves_branch(early),
        FlowView::Fail(_, m) => late == early && n <= m <= len,
        FlowView::Got(_, m) => late == early && n <= m <= len,
    }
}

broadcast proof fn raw_stays(
    repo: Text,
    command: CommandView,
    s: Seq<Reply>,
    t: Seq<Reply>,
    n: int,
)
    requires
        more_replies(s, t, n),
        command !is UpdateRef,
    ensures
        stays(
            #[trigger] raw_flow(repo, command, s, n),
            #[trigger] raw_flow(repo, command, t, n),
            n,
            s.len() as int,
        ),
{
    if n < s.len() {
        assert(s[n] == t.subrange(0, s.len() as int)[n]);
    }
}

/// What a command that moves no reference came to stays.
pub broadcast proof fn git_stays(
    repo: Text,
    command: CommandView,
    s: Seq<Reply>,
    t: Seq<Reply>,
    n: int,
)
    requires
        more_replies(s, t, n),
        command !is UpdateRef,
    ensures
        stays(
            #[trigger] git_flow(repo, command, s, n),
            #[trigger] git_flow(repo, command, t, n),
            n,
            s.len() as int,
        ),
{
    broadcast use raw_stays;

}

/// Whether a name is that of a commit stays known.
pub broadcast proof fn commitish_stays(
    repo: Text,
    value: Text,
    kind: Text,
    s: Seq<Reply>,
    t: Seq<Reply>,
    n: int,
)
    requires
        more_replies(s, t, n),
    ensures
        stays(
            #[trigger] validate_commitish_flow(repo, value, kind, s, n),
            #[trigger] validate_commitish_flow(repo, value, kind, t, n),
            n,
            s.len() as int,
        ),
{
    broadcast use git_stays;

}

/// The commit that a name was resolved to stays.
pub broadcast proof fn commit_stays(
    repo: Text,
    value: Text,
    s: Seq<Reply>,
    t: Seq<Reply>,
    n: int,
)
    requires
        more_replies(s, t, n),
    ensures
        stays(
            #[trigger] resolve_commit_flow(repo, value, s, n),
            #[trigger] resolve_commit_flow(repo, value, t, n),
            n,
            s.len() as int,
        ),
{
    broadcast use {git_stays, commitish_stays};

}

/// What `HEAD` was found to be stays.
pub broadcast proof fn head_stays(
    repo: Text,
    s: Seq<Reply>,
    t: Seq<Reply>,
    n: int,
)
    requires
        more_replies(s, t, n),
    ensures
        stays(
            #[trigger] head_sha_flow(repo, s, n),
            #[trigger] head_sha_flow(repo, t, n),
            n,
            s.len() as int,
        ),
{
    broadcast use git_stays;

}

broadcast proof fn tree_stays(
    repo: Text,
    revision: Text,
    s: Seq<Reply>,
    t: Seq<Reply>,
    n: int,
)
    requires
        more_replies(s, t, n),
    ensures
        stays(
            #[trigger] tree_sha_flow(repo, revision, s, n),
            #[trigger] tree_sha_flow(repo, revision, t, n),
            n,
            s.len() as int,
        ),
{
    broadcast use git_stays;

}

broadcast proof fn merge_base_stays(
    repo: Text,
    base: Text,
    s: Seq<Reply>,
    t: Seq<Reply>,
    n: int,
)
    requires
        more_replies(s, t, n),
    ensures
        stays(
            #[trigger] merge_base_flow(repo, base, s, n),
            #[trigger] merge_base_flow(repo, base, t, n),
            n,
            s.len() as int,
        ),
{
    broadcast use {git_stays, commitish_stays};

}

broadcast proof fn ancestor_stays(
    repo: Text,
    ancestor: Text,
    descendant: Text,
    s: Seq<Reply>,
    t: Seq<Reply>,
    n: int,
)
    requires
        more_replies(s, t, n),
    ensures
        stays(
            #[trigger] is_ancestor_flow(repo, ancestor, descendant, s, n),
            #[trigger] is_ancestor_flow(repo, ancestor, descendant, t, n),
            n,
            s.len() as int,
        ),
{
    broadcast use raw_stays;

}

broadcast proof fn branch_stays(
    repo: Text,
    s: Seq<Reply>,
    t: Seq<Reply>,
    n: int,
)
    requires
        more_replies(s, t, n),
    ensures
        stays(
            #[trigger] current_branch_flow(repo, s, n),
            #[trigger] current_branch_flow(repo, t, n),
            n,
            s.len() as int,
        ),
{
    broadcast use raw_stays;

}

/// The branch that was found stays.
pub broadcast proof fn required_branch_stays(
    repo: Text,
    s: Seq<Reply>,
    t: Seq<Reply>,
    n: int,
)
    requires
        more_replies(s, t, n),
    ensures
        stays(
            #[trigger] current_branch_required_flow(repo, s, n),
            #[trigger] current_branch_required_flow(repo, t, n),
            n,
            s.len() as int,
        ),
{
    broadcast use branch_stays;

}

broadcast proof fn upstream_stays(
    repo: Text,
    s: Seq<Reply>,
    t: Seq<Reply>,
    n: int,
)
    requires
        more_replies(s, t, n),
    ensures
        stays(
            #[trigger] upstream_flow(repo, s, n),
            #[trigger] upstream_flow(repo, t, n),
            n,
            s.len() as int,
        ),
{
    broadcast use raw_stays;

}

broadcast proof fn status_stays(
    repo: Text,
    s: Seq<Reply>,
    t: Seq<Reply>,
    n: int,
)
    requires
        more_replies(s, t, n),
    ensures
        stays(
            #[trigger] short_status_flow(repo, s, n),
            #[trigger] short_status_flow(repo, t, n),
            n,
            s.len() as int,
        ),
{
    broadcast use git_stays;

}

/// Whether something is changed locally stays known.
pub broadcast proof fn dirtiness_stays(
    repo: Text,
    s: Seq<Reply>,
    t: Seq<Reply>,
    n: int,
)
    requires
        more_replies(s, t, n),
    ensures
        stays(
            #[trigger] is_dirty_flow(repo, s, n),
            #[trigger] is_dirty_flow(repo, t, n),
            n,
            s.len() as int,
        ),
{
    broadcast use git_stays;

}

broadcast proof fn remote_refs_stay(
    repo: Text,
    commit: Text,
    s: Seq<Reply>,
    t: Seq<Reply>,
    n: int,
)
    requires
        more_replies(s, t, n),
    ensures
        stays(
            #[trigger] remote_refs_flow(repo, commit, s, n),
            #[trigger] remote_refs_flow(repo, commit, t, n),
            n,
            s.len() as int,
        ),
{
    broadcast use {git_stays, commit_stays};

}

broadcast proof fn containment_stays(
    repo: Text,
    commit: Text,
    upstream: Option<Text>,
    s: Seq<Reply>,
    t: Seq<Reply>,
    n: int,
)
    requires
        more_replies(s, t, n),
    ensures
        stays(
            #[trigger] on_upstream_flow(repo, commit, upstream, s, n),
            #[trigger] on_upstream_flow(repo, commit, upstream, t, n),
            n,
            s.len() as int,
        ),
{
    broadcast use ancestor_stays;

}

broadcast proof fn history_stays(
    repo: Text,
    base: Text,
    s: Seq<Reply>,
    t: Seq<Reply>,
    n: int,
)
    requires
        more_replies(s, t, n),
    ensures
        stays(
            #[trigger] branch_history_flow(repo, base, s, n),
            #[trigger] branch_history_flow(repo, base, t, n),
            n,
            s.len() as int,
        ),
{
    broadcast use {git_stays, commitish_stays};

}

broadcast proof fn publication_stays(
    repo: Text,
    commits: Seq<HistoryCommitView>,
    upstream: Option<Text>,
    i: int,
    found: Seq<Text>,
    s: Seq<Reply>,
    t: Seq<Reply>,
    n: int,
)
    requires
        more_replies(s, t, n),
    ensures
        stays(
            #[trigger] published_refs_flow(repo, commits, upstream, i, found, s, n),
            #[trigger] published_refs_flow(repo, commits, upstream, i, found, t, n),
            n,
            s.len() as int,
        ),
    decreases commits.len() - i,
{
    broadcast use {remote_refs_stay, containment_stays};

    if 0 <= i < commits.len() {
        if let FlowView::Got(refs, k) = remote_refs_flow(repo, commits[i].sha, s, n) {
            if let FlowView::Got(contained, m) = on_upstream_flow(
                repo,
                commits[i].sha,
                upstream,
                s,
                k,
            ) {
                let more = insert_all(found, refs, 0);
                publication_stays(repo, commits, upstream, i + 1, more, s, t, m);
                if upstream is Some {
                    let all = insert_sorted(more, upstream->0);
                    publication_stays(repo, commits, upstream, i + 1, all, s, t, m);
                }
            }
        }
    }
}

broadcast proof fn plan_upstream_stays(
    repo: Text,
    branch: Option<Text>,
    s: Seq<Reply>,
    t: Seq<Reply>,
    n: int,
)
    requires
        more_replies(s, t, n),
    ensures
        stays(
            #[trigger] plan_upstream_flow(repo, branch, s, n),
            #[trigger] plan_upstream_flow(repo, branch, t, n),
            n,
            s.len() as int,
        ),
{
    broadcast use upstream_stays;

}

broadcast proof fn plan_stays(
    repo: Text,
    base: Text,
    s: Seq<Reply>,
    t: Seq<Reply>,
    n: int,
)
    requires
        more_replies(s, t, n),
    ensures
        stays(
            #[trigger] history_plan_flow(repo, base, s, n),
            #[trigger] history_plan_flow(repo, base, t, n),
            n,
            s.len() as int,
        ),
{
    broadcast use {
        branch_stays,
        merge_base_stays,
        history_stays,
        dirtiness_stays,
        plan_upstream_stays,
        publication_stays,
    };

}

/// What was read of a commit stays.
pub broadcast proof fn snapshot_stays(
    repo: Text,
    commit: Text,
    s: Seq<Reply>,
    t: Seq<Reply>,
    n: int,
)
    requires
        more_replies(s, t, n),
    ensures
        stays(
            #[trigger] commit_snapshot_flow(repo, commit, s, n),
            #[trigger] commit_snapshot_flow(repo, commit, t, n),
            n,
            s.len() as int,
        ),
{
    broadcast use {git_stays, commit_stays};

}

broadcast proof fn new_commit_stays(
    repo: Text,
    snapshot: SnapshotView,
    tree: Text,
    parent: Text,
    message: Text,
    s: Seq<Reply>,
    t: Seq<Reply>,
    n: int,
)
    requires
        more_replies(s, t, n),
    ensures
        stays(
            #[trigger] create_commit_flow(repo, snapshot, tree, parent, message, s, n),
            #[trigger] create_commit_flow(repo, snapshot, tree, parent, message, t, n),
            n,
            s.len() as int,
        ),
{
    broadcast use git_stays;

}

broadcast proof fn unpublished_stays(
    repo: Text,
    commits: Seq<HistoryCommitView>,
    upstream: Option<Text>,
    i: int,
    s: Seq<Reply>,
    t: Seq<Reply>,
    n: int,
)
    requires
        more_replies(s, t, n),
    ensures
        stays(
            #[trigger] unpublished_suffix_flow(repo, commits, upstream, i, s, n),
            #[trigger] unpublished_suffix_flow(repo, commits, upstream, i, t, n),
            n,
            s.len() as int,
        ),
    decreases commits.len() - i,
{
    broadcast use {remote_refs_stay, containment_stays};

    if 0 <= i < commits.len() {
        if let FlowView::Got(refs, k) = remote_refs_flow(repo, commits[i].sha, s, n) {
            if let FlowView::Got(contained, m) = on_upstream_flow(
                repo,
                commits[i].sha,
                upstream,
                s,
                k,
            ) {
                unpublished_stays(repo, commits, upstream, i + 1, s, t, m);
            }
        }
    }
}

broadcast proof fn suffix_stays(
    repo: Text,
    plan: HistoryPlanView,
    from: int,
    policy: RewritePolicy,
    s: Seq<Reply>,
    t: Seq<Reply>,
    n: int,
)
    requires
        more_replies(s, t, n),
    ensures
        stays(
            #[trigger] suffix_rewrite_flow(repo, plan, from, policy, s, n),
            #[trigger] suffix_rewrite_flow(repo, plan, from, policy, t, n),
            n,
            s.len() as int,
        ),
{
    broadcast use unpublished_stays;

}

broadcast proof fn distinct_stays(
    repo: Text,
    revisions: Seq<Text>,
    i: int,
    found: Seq<Text>,
    error: Text,
    s: Seq<Reply>,
    t: Seq<Reply>,
    n: int,
)
    requires
        more_replies(s, t, n),
    ensures
        stays(
            #[trigger] resolve_distinct_flow(repo, revisions, i, found, error, s, n),
            #[trigger] resolve_distinct_flow(repo, revisions, i, found, error, t, n),
            n,
            s.len() as int,
        ),
    decreases revisions.len() - i,
{
    broadcast use commit_stays;

    if 0 <= i < revisions.len() {
        if let FlowView::Got(sha, m) = resolve_commit_flow(repo, revisions[i], s, n) {
            distinct_stays(repo, revisions, i + 1, found.push(sha), error, s, t, m);
        }
    }
}

broadcast proof fn changes_stay(
    repo: Text,
    changes: Seq<RewordView>,
    i: int,
    found: Seq<Text>,
    s: Seq<Reply>,
    t: Seq<Reply>,
    n: int,
)
    requires
        more_replies(s, t, n),
    ensures
        stays(
            #[trigger] resolve_changes_flow(repo, changes, i, found, s, n),
            #[trigger] resolve_changes_flow(repo, changes, i, found, t, n),
            n,
            s.len() as int,
        ),
    decreases changes.len() - i,
{
    broadcast use commit_stays;

    if 0 <= i < changes.len() {
        if let FlowView::Got(sha, m) = resolve_commit_flow(repo, changes[i].commit, s, n) {
            changes_stay(repo, changes, i + 1, found.push(sha), s, t, m);
        }
    }
}

broadcast proof fn replay_stays(
    repo: Text,
    commits: Seq<HistoryCommitView>,
    shas: Seq<Text>,
    changes: Seq<RewordView>,
    i: int,
    parent: Text,
    made: Seq<RewrittenView>,
    s: Seq<Reply>,
    t: Seq<Reply>,
    n: int,
)
    requires
        more_replies(s, t, n),
    ensures
        stays(
            #[trigger] replay_flow(repo, commits, shas, changes, i, parent, made, s, n),
            #[trigger] replay_flow(repo, commits, shas, changes, i, parent, made, t, n),
            n,
            s.len() as int,
        ),
    decreases commits.len() - i,
{
    broadcast use {snapshot_stays, new_commit_stays};

    if 0 <= i < commits.len() {
        if let FlowView::Got(snapshot, k) = commit_snapshot_flow(repo, commits[i].sha, s, n) {
            let request = reworded(shas, changes, commits[i].sha);
            let message = match request {
                Some(message) => message,
                None => snapshot.message,
            };
            if let FlowView::Got(new, m) = create_commit_flow(
                repo,
                snapshot,
                snapshot.tree,
                parent,
                message,
                s,
                k,
            ) {
                let more = made.push(rewritten_commit(snapshot, new, request));
                replay_stays(repo, commits, shas, changes, i + 1, new, more, s, t, m);
            }
        }
    }
}

broadcast proof fn squash_replay_stays(
    repo: Text,
    commits: Seq<HistoryCommitView>,
    i: int,
    parent: Text,
    s: Seq<Reply>,
    t: Seq<Reply>,
    n: int,
)
    requires
        more_replies(s, t, n),
    ensures
        stays(
            #[trigger] squash_replay_flow(repo, commits, i, parent, s, n),
            #[trigger] squash_replay_flow(repo, commits, i, parent, t, n),
            n,
            s.len() as int,
        ),
    decreases commits.len() - i,
{
    broadcast use {snapshot_stays, new_commit_stays};

    if 0 <= i < commits.len() {
        if let FlowView::Got(snapshot, k) = commit_snapshot_flow(repo, commits[i].sha, s, n) {
            if let FlowView::Got(new, m) = create_commit_flow(
                repo,
                snapshot,
                snapshot.tree,
                parent,
                snapshot.message,
                s,
                k,
            ) {
                squash_replay_stays(repo, commits, i + 1, new, s, t, m);
            }
        }
    }
}

broadcast proof fn head_unpublished_stays(
    repo: Text,
    head: Text,
    s: Seq<Reply>,
    t: Seq<Reply>,
    n: int,
)
    requires
        more_replies(s, t, n),
    ensures
        stays(
            #[trigger] head_unpublished_flow(repo, head, s, n),
            #[trigger] head_unpublished_flow(repo, head, t, n),
            n,
            s.len() as int,
        ),
{
    broadcast use {remote_refs_stay, upstream_stays, containment_stays};

}

broadcast proof fn amendable_stays(
    args: AmendArgsView,
    head: Text,
    s: Seq<Reply>,
    t: Seq<Reply>,
    n: int,
)
    requires
        more_replies(s, t, n),
    ensures
        stays(
            #[trigger] amendable_flow(args, head, s, n),
            #[trigger] amendable_flow(args, head, t, n),
            n,
            s.len() as int,
        ),
{
    broadcast use {required_branch_stays, snapshot_stays, head_unpublished_stays};

}

broadcast proof fn amended_tree_stays(
    args: AmendArgsView,
    snapshot: SnapshotView,
    s: Seq<Reply>,
    t: Seq<Reply>,
    n: int,
)
    requires
        more_replies(s, t, n),
    ensures
        stays(
            #[trigger] amended_tree_flow(args, snapshot, s, n),
            #[trigger] amended_tree_flow(args, snapshot, t, n),
            n,
            s.len() as int,
        ),
{
    broadcast use git_stays;

}

broadcast proof fn reword_selection_stays(
    args: RewordArgsView,
    plan: HistoryPlanView,
    s: Seq<Reply>,
    t: Seq<Reply>,
    n: int,
)
    requires
        more_replies(s, t, n),
    ensures
        stays(
            #[trigger] reword_selection_flow(args, plan, s, n),
            #[trigger] reword_selection_flow(args, plan, t, n),
            n,
            s.len() as int,
        ),
{
    broadcast use {changes_stay, suffix_stays};

}

broadcast proof fn squash_selection_stays(
    args: SquashArgsView,
    plan: HistoryPlanView,
    s: Seq<Reply>,
    t: Seq<Reply>,
    n: int,
)
    requires
        more_replies(s, t, n),
    ensures
        stays(
            #[trigger] squash_selection_flow(args, plan, s, n),
            #[trigger] squash_selection_flow(args, plan, t, n),
            n,
            s.len() as int,
        ),
{
    broadcast use {distinct_stays, suffix_stays};

}

// ---------------------------------------------------------------------------
// A branch is moved at most once
// ---------------------------------------------------------------------------
/// What was reached with `short` replies, read from position `n` on, is reached
/// with `long` of them too; and where a reference was to be moved next, none
/// is to be moved after that.
pub open spec fn proceeds<T>(
    early: FlowView<T>,
    late: FlowView<T>,
    n: int,
    short: int,
    long: int,
) -> bool {
    match early {
        FlowView::Ask(_) => moves_branch(early) && short < long ==> !moves_branch(late),
        FlowView::Fail(_, m) => late == early && n <= m <= short,
        FlowView::Got(_, m) => late == early && n <= m <= short,
    }
}

broadcast proof fn update_proceeds(
    repo: Text,
    branch: Text,
    new_head: Text,
    old_head: Text,
    s: Seq<Reply>,
    t: Seq<Reply>,
    n: int,
)
    requires
        more_replies(s, t, n),
    ensures
        proceeds(
            #[trigger] update_branch_flow(repo, branch, new_head, old_head, s, n),
            #[trigger] update_branch_flow(repo, branch, new_head, old_head, t, n),
            n,
            s.len() as int,
            t.len() as int,
        ),
{
    if n < s.len() {
        assert(s[n] == t.subrange(0, s.len() as int)[n]);
    }
}

broadcast proof fn install_proceeds(
    repo: Text,
    branch: Text,
    new_head: Text,
    old_head: Text,
    original_tree: Text,
    s: Seq<Reply>,
    t: Seq<Reply>,
    n: int,
)
    requires
        more_replies(s, t, n),
    ensures
        proceeds(
            #[trigger] install_flow(repo, branch, new_head, old_head, original_tree, s, n),
            #[trigger] install_flow(repo, branch, new_head, old_head, original_tree, t, n),
            n,
            s.len() as int,
            t.len() as int,
        ),
{
    broadcast use {tree_stays, status_stays, update_proceeds};

}

broadcast proof fn amend_proceeds(
    args: AmendArgsView,
    head: Text,
    s: Seq<Reply>,
    t: Seq<Reply>,
    n: int,
)
    requires
        more_replies(s, t, n),
    ensures
        proceeds(
            #[trigger] amend_from_flow(args, head, s, n),
            #[trigger] amend_from_flow(args, head, t, n),
            n,
            s.len() as int,
            t.len() as int,
        ),
{
    broadcast use {
        amendable_stays,
        amended_tree_stays,
        new_commit_stays,
        update_proceeds,
        status_stays,
    };

}

broadcast proof fn reword_replay_proceeds(
    args: RewordArgsView,
    plan: HistoryPlanView,
    from: int,
    shas: Seq<Text>,
    head: Text,
    s: Seq<Reply>,
    t: Seq<Reply>,
    n: int,
)
    requires
        more_replies(s, t, n),
    ensures
        proceeds(
            #[trigger] reword_replay_flow(args, plan, from, shas, head, s, n),
            #[trigger] reword_replay_flow(args, plan, from, shas, head, t, n),
            n,
            s.len() as int,
            t.len() as int,
        ),
{
    broadcast use {tree_stays, snapshot_stays, replay_stays, install_proceeds};

}

broadcast proof fn reword_proceeds(
    args: RewordArgsView,
    head: Text,
    s: Seq<Reply>,
    t: Seq<Reply>,
    n: int,
)
    requires
        more_replies(s, t, n),
    ensures
        proceeds(
            #[trigger] reword_from_flow(args, head, s, n),
            #[trigger] reword_from_flow(args, head, t, n),
            n,
            s.len() as int,
            t.len() as int,
        ),
{
    broadcast use {plan_stays, reword_selection_stays, reword_replay_proceeds};

}

broadcast proof fn squash_range_proceeds(
    args: SquashArgsView,
    plan: HistoryPlanView,
    start: int,
    end: int,
    head: Text,
    s: Seq<Reply>,
    t: Seq<Reply>,
    n: int,
)
    requires
        more_replies(s, t, n),
    ensures
        proceeds(
            #[trigger] squash_range_flow(args, plan, start, end, head, s, n),
            #[trigger] squash_range_flow(args, plan, start, end, head, t, n),
            n,
            s.len() as int,
            t.len() as int,
        ),
{
    broadcast use {
        snapshot_stays,
        tree_stays,
        new_commit_stays,
        squash_replay_stays,
        install_proceeds,
    };

}

broadcast proof fn squash_proceeds(
    args: SquashArgsView,
    head: Text,
    s: Seq<Reply>,
    t: Seq<Reply>,
    n: int,
)
    requires
        more_replies(s, t, n),
    ensures
        proceeds(
            #[trigger] squash_from_flow(args, head, s, n),
            #[trigger] squash_from_flow(args, head, t, n),
            n,
            s.len() as int,
            t.len() as int,
        ),
{
    broadcast use {plan_stays, squash_selection_stays, squash_range_proceeds};

}

proof fn lemma_rewrite_proceeds<T>(
    server: GitServer,
    operation: Text,
    repo: Text,
    early: spec_fn(Text, int) -> FlowView<T>,
    late: spec_fn(Text, int) -> FlowView<T>,
    s: Seq<Reply>,
    t: Seq<Reply>,
    n: int,
)
    requires
        more_replies(s, t, n),
        forall|head: Text, m: int|
            more_replies(s, t, m) ==> proceeds(
                #[trigger] early(head, m),
                late(head, m),
                m,
                s.len() as int,
                t.len() as int,
            ),
    ensures
        proceeds(
            rewrite_flow(server, operation, repo, early, s, n),
            rewrite_flow(server, operation, repo, late, t, n),
            n,
            s.len() as int,
            t.len() as int,
        ),
{
    broadcast use head_stays;

    if let FlowView::Got(head, m) = head_sha_flow(repo, s, n) {
        assert(proceeds(early(head, m), late(head, m), m, s.len() as int, t.len() as int));
    }
}

/// Amending moves the branch at most once: where the branch is to be moved next,
/// it is not to be moved again, whatever is replied from there on. And once
/// there is a report, it stays.
pub proof fn law_amend_moves_once(
    server: GitServer,
    args: AmendArgsView,
    s: Seq<Reply>,
    t: Seq<Reply>,
    n: int,
)
    requires
        more_replies(s, t, n),
    ensures
        s.len() < t.len() && moves_branch(amend_flow(server, args, s, n)) ==> !moves_branch(
            amend_flow(server, args, t, n),
        ),
        amend_flow(server, args, s, n) is Got ==> amend_flow(server, args, t, n) == amend_flow(
            server,
            args,
            s,
            n,
        ),
{
    broadcast use amend_proceeds;

    lemma_rewrite_proceeds(
        server,
        "amend_commit"@,
        args.repo,
        |head: Text, n: int| amend_from_flow(args, head, s, n),
        |head: Text, n: int| amend_from_flow(args, head, t, n),
        s,
        t,
        n,
    );
}

/// Rewording moves the branch at most once: where the branch is to be moved next,
/// it is not to be moved again, whatever is replied from there on. And once
/// there is a report, it stays.
pub proof fn law_reword_moves_once(
    server: GitServer,
    args: RewordArgsView,
    s: Seq<Reply>,
    t: Seq<Reply>,
    n: int,
)
    requires
        more_replies(s, t, n),
    ensures
        s.len() < t.len() && moves_branch(reword_flow(server, args, s, n)) ==> !moves_branch(
            reword_flow(server, args, t, n),
        ),
        reword_flow(server, args, s, n) is Got ==> reword_flow(server, args, t, n) == reword_flow(
            server,
            args,
            s,
            n,
        ),
{
    broadcast use reword_proceeds;

    lemma_rewrite_proceeds(
        server,
        "reword_commits"@,
        args.repo,
        |head: Text, n: int| reword_from_flow(args, head, s, n),
        |head: Text, n: int| reword_from_flow(args, head, t, n),
        s,
        t,
        n,
    );
}

/// Squashing moves the branch at most once: where the branch is to be moved next,
/// it is not to be moved again, whatever is replied from there on. And once
/// there is a report, it stays.
pub proof fn law_squash_moves_once(
    server: GitServer,
    args: SquashArgsView,
    s: Seq<Reply>,
    t: Seq<Reply>,
    n: int,
)
    requires
        more_replies(s, t, n),
    ensures
        s.len() < t.len() && moves_branch(squash_flow(server, args, s, n)) ==> !moves_branch(
            squash_flow(server, args, t, n),
        ),
        squash_flow(server, args, s, n) is Got ==> squash_flow(server, args, t, n) == squash_flow(
            server,
            args,
            s,
            n,
        ),
{
    broadcast use squash_proceeds;

    lemma_rewrite_proceeds(
        server,
        "squash_commits"@,
        args.repo,
        |head: Text, n: int| squash_from_flow(args, head, s, n),
        |head: Text, n: int| squash_from_flow(args, head, t, n),
        s,
        t,
        n,
    );
}

} // verus!
