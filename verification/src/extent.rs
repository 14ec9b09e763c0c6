//! How operations read the replies that they are given: from where they start
//! onwards, no further than there are replies, and what they have come to rests
//! on what they have read.
use crate::amend::{amendable_flow, amended_tree_flow, head_unpublished_flow, AmendArgsView};
use crate::branches::{branch_absent_flow, on_clean_trunk_flow, start_point_flow};
use crate::command::{Command, CommandView};
use crate::flow::{git_flow, raw_flow, FlowView, Reply};
use crate::history::{
    branch_history_flow, history_plan_flow, insert_all, plan_upstream_flow, published_refs_flow,
    HistoryCommitView, HistoryPlanView,
};
use crate::publication::{
    look_up_flow, merge_unpublished_flow, published_commits_flow, published_tags_flow,
    resolve_all_flow, rewindable_flow, validate_tags_flow, verify_unpublished_flow,
    PublicationArgsView, PublishedCommitView, PublishedTagView, RewindArgsView,
};
use crate::queries::{
    current_branch_flow, current_branch_required_flow, ensure_local_branch_flow, head_sha_flow,
    is_ancestor_flow, is_dirty_flow, listing, merge_base_flow, merge_in_progress_flow,
    on_upstream_flow, remote_refs_flow, resolve_commit_flow, tree_sha_flow, upstream_flow,
    validate_branch_name_flow, validate_commitish_flow, validate_tag_name_flow,
};
use crate::release::{merged_trunk_flow, tag_absent_flow};
use crate::reword::{
    replay_flow, resolve_changes_flow, reword_selection_flow, reworded, rewritten_commit,
    RewordArgsView, RewordView, RewrittenView,
};
use crate::rewrite::{
    suffix_rewrite_flow, unpublished_suffix_flow, update_branch_flow, RewritePolicy,
};
use crate::selection::resolve_distinct_flow;
use crate::server::GitServer;
use crate::snapshot::{commit_snapshot_flow, create_commit_flow, SnapshotView};
use crate::squash::{squash_replay_flow, squash_selection_flow, SquashArgsView};
use crate::tags::{
    expected_target_flow, new_target_flow, swap_tag_flow, tag_object_flow, tag_target_flow,
    tag_unpublished_flow, ReplaceTagArgsView,
};
use crate::text::{insert_sorted, Text};
use crate::tools::committable_flow;
use vstd::prelude::*;

verus! {

/// What is reached from position `n` on is reached at `n` or after it, and within
/// the `len` replies there are.
pub open spec fn within<T>(flow: FlowView<T>, n: int, len: int) -> bool {
    match flow {
        FlowView::Ask(_) => true,
        FlowView::Fail(_, m) => n <= m <= len,
        FlowView::Got(_, m) => n <= m <= len,
    }
}

/// The first `m` replies are the same.
pub open spec fn agree(t: Seq<Reply>, s: Seq<Reply>, m: int) -> bool {
    &&& m <= t.len()
    &&& m <= s.len()
    &&& forall|k: int| 0 <= k < m ==> t[k] == #[trigger] s[k]
}

/// What was reached with the replies `t` is reached with the replies `s` too,
/// where those are the same as far as they were read.
pub open spec fn decided<T>(flow: FlowView<T>, other: FlowView<T>, t: Seq<Reply>, s: Seq<Reply>) -> bool {
    match flow {
        FlowView::Ask(_) => true,
        FlowView::Fail(_, m) => agree(t, s, m) ==> other == flow,
        FlowView::Got(_, m) => agree(t, s, m) ==> other == flow,
    }
}

/// How far the replies are read; see `within`.
pub broadcast proof fn raw_extent(
    repo: Text,
    command: CommandView,
    t: Seq<Reply>,
    n: int,
)
    requires
        0 <= n <= t.len(),
    ensures
        within(#[trigger] raw_flow(repo, command, t, n), n, t.len() as int),
{
}

/// What has been read decides; see `decided`.
pub broadcast proof fn raw_reads(
    repo: Text,
    command: CommandView,
    t: Seq<Reply>,
    s: Seq<Reply>,
    n: int,
)
    requires
        0 <= n <= t.len(),
    ensures
        decided(
            #[trigger] raw_flow(repo, command, t, n),
            #[trigger] raw_flow(repo, command, s, n),
            t,
            s,
        ),
{
}

/// How far the replies are read; see `within`.
pub broadcast proof fn git_extent(
    repo: Text,
    command: CommandView,
    t: Seq<Reply>,
    n: int,
)
    requires
        0 <= n <= t.len(),
    ensures
        within(#[trigger] git_flow(repo, command, t, n), n, t.len() as int),
{
    broadcast use raw_extent;

}

/// What has been read decides; see `decided`.
pub broadcast proof fn git_reads(
    repo: Text,
    command: CommandView,
    t: Seq<Reply>,
    s: Seq<Reply>,
    n: int,
)
    requires
        0 <= n <= t.len(),
    ensures
        decided(
            #[trigger] git_flow(repo, command, t, n),
            #[trigger] git_flow(repo, command, s, n),
            t,
            s,
        ),
{
    broadcast use {raw_extent, raw_reads};

}

/// How far the replies are read; see `within`.
pub broadcast proof fn commitish_extent(
    repo: Text,
    value: Text,
    kind: Text,
    t: Seq<Reply>,
    n: int,
)
    requires
        0 <= n <= t.len(),
    ensures
        within(#[trigger] validate_commitish_flow(repo, value, kind, t, n), n, t.len() as int),
{
    broadcast use git_extent;

}

/// What has been read decides; see `decided`.
pub broadcast proof fn commitish_reads(
    repo: Text,
    value: Text,
    kind: Text,
    t: Seq<Reply>,
    s: Seq<Reply>,
    n: int,
)
    requires
        0 <= n <= t.len(),
    ensures
        decided(
            #[trigger] validate_commitish_flow(repo, value, kind, t, n),
            #[trigger] validate_commitish_flow(repo, value, kind, s, n),
            t,
            s,
        ),
{
    broadcast use {git_extent, git_reads};

}

/// How far the replies are read; see `within`.
pub broadcast proof fn commit_extent(
    repo: Text,
    value: Text,
    t: Seq<Reply>,
    n: int,
)
    requires
        0 <= n <= t.len(),
    ensures
        within(#[trigger] resolve_commit_flow(repo, value, t, n), n, t.len() as int),
{
    broadcast use {git_extent, commitish_extent};

}

/// What has been read decides; see `decided`.
pub broadcast proof fn commit_reads(
    repo: Text,
    value: Text,
    t: Seq<Reply>,
    s: Seq<Reply>,
    n: int,
)
    requires
        0 <= n <= t.len(),
    ensures
        decided(
            #[trigger] resolve_commit_flow(repo, value, t, n),
            #[trigger] resolve_commit_flow(repo, value, s, n),
            t,
            s,
        ),
{
    broadcast use {git_extent, commitish_extent, git_reads, commitish_reads};

}

/// How far the replies are read; see `within`.
pub broadcast proof fn head_extent(
    repo: Text,
    t: Seq<Reply>,
    n: int,
)
    requires
        0 <= n <= t.len(),
    ensures
        within(#[trigger] head_sha_flow(repo, t, n), n, t.len() as int),
{
    broadcast use git_extent;

}

/// What has been read decides; see `decided`.
pub broadcast proof fn head_reads(
    repo: Text,
    t: Seq<Reply>,
    s: Seq<Reply>,
    n: int,
)
    requires
        0 <= n <= t.len(),
    ensures
        decided(
            #[trigger] head_sha_flow(repo, t, n),
            #[trigger] head_sha_flow(repo, s, n),
            t,
            s,
        ),
{
    broadcast use {git_extent, git_reads};

}

/// What has been read decides; see `decided`.
pub broadcast proof fn tree_reads(
    repo: Text,
    revision: Text,
    t: Seq<Reply>,
    s: Seq<Reply>,
    n: int,
)
    requires
        0 <= n <= t.len(),
    ensures
        decided(
            #[trigger] tree_sha_flow(repo, revision, t, n),
            #[trigger] tree_sha_flow(repo, revision, s, n),
            t,
            s,
        ),
{
    broadcast use {git_extent, git_reads};

}

/// How far the replies are read; see `within`.
pub broadcast proof fn merge_base_extent(
    repo: Text,
    base: Text,
    t: Seq<Reply>,
    n: int,
)
    requires
        0 <= n <= t.len(),
    ensures
        within(#[trigger] merge_base_flow(repo, base, t, n), n, t.len() as int),
{
    broadcast use {git_extent, commitish_extent};

}

/// What has been read decides; see `decided`.
pub broadcast proof fn merge_base_reads(
    repo: Text,
    base: Text,
    t: Seq<Reply>,
    s: Seq<Reply>,
    n: int,
)
    requires
        0 <= n <= t.len(),
    ensures
        decided(
            #[trigger] merge_base_flow(repo, base, t, n),
            #[trigger] merge_base_flow(repo, base, s, n),
            t,
            s,
        ),
{
    broadcast use {git_extent, commitish_extent, git_reads, commitish_reads};

}

/// How far the replies are read; see `within`.
pub broadcast proof fn ancestor_extent(
    repo: Text,
    ancestor: Text,
    descendant: Text,
    t: Seq<Reply>,
    n: int,
)
    requires
        0 <= n <= t.len(),
    ensures
        within(#[trigger] is_ancestor_flow(repo, ancestor, descendant, t, n), n, t.len() as int),
{
    broadcast use raw_extent;

}

/// What has been read decides; see `decided`.
pub broadcast proof fn ancestor_reads(
    repo: Text,
    ancestor: Text,
    descendant: Text,
    t: Seq<Reply>,
    s: Seq<Reply>,
    n: int,
)
    requires
        0 <= n <= t.len(),
    ensures
        decided(
            #[trigger] is_ancestor_flow(repo, ancestor, descendant, t, n),
            #[trigger] is_ancestor_flow(repo, ancestor, descendant, s, n),
            t,
            s,
        ),
{
    broadcast use {raw_extent, raw_reads};

}

/// How far the replies are read; see `within`.
pub broadcast proof fn branch_extent(
    repo: Text,
    t: Seq<Reply>,
    n: int,
)
    requires
        0 <= n <= t.len(),
    ensures
        within(#[trigger] current_branch_flow(repo, t, n), n, t.len() as int),
{
    broadcast use raw_extent;

}

/// What has been read decides; see `decided`.
pub broadcast proof fn branch_reads(
    repo: Text,
    t: Seq<Reply>,
    s: Seq<Reply>,
    n: int,
)
    requires
        0 <= n <= t.len(),
    ensures
        decided(
            #[trigger] current_branch_flow(repo, t, n),
            #[trigger] current_branch_flow(repo, s, n),
            t,
            s,
        ),
{
    broadcast use {raw_extent, raw_reads};

}

/// How far the replies are read; see `within`.
pub broadcast proof fn required_branch_extent(
    repo: Text,
    t: Seq<Reply>,
    n: int,
)
    requires
        0 <= n <= t.len(),
    ensures
        within(#[trigger] current_branch_required_flow(repo, t, n), n, t.len() as int),
{
    broadcast use branch_extent;

}

/// What has been read decides; see `decided`.
pub broadcast proof fn required_branch_reads(
    repo: Text,
    t: Seq<Reply>,
    s: Seq<Reply>,
    n: int,
)
    requires
        0 <= n <= t.len(),
    ensures
        decided(
            #[trigger] current_branch_required_flow(repo, t, n),
            #[trigger] current_branch_required_flow(repo, s, n),
            t,
            s,
        ),
{
    broadcast use {branch_extent, branch_reads};

}

/// How far the replies are read; see `within`.
pub broadcast proof fn upstream_extent(
    repo: Text,
    t: Seq<Reply>,
    n: int,
)
    requires
        0 <= n <= t.len(),
    ensures
        within(#[trigger] upstream_flow(repo, t, n), n, t.len() as int),
{
    broadcast use raw_extent;

}

/// What has been read decides; see `decided`.
pub broadcast proof fn upstream_reads(
    repo: Text,
    t: Seq<Reply>,
    s: Seq<Reply>,
    n: int,
)
    requires
        0 <= n <= t.len(),
    ensures
        decided(
            #[trigger] upstream_flow(repo, t, n),
            #[trigger] upstream_flow(repo, s, n),
            t,
            s,
        ),
{
    broadcast use {raw_extent, raw_reads};

}

/// How far the replies are read; see `within`.
pub broadcast proof fn dirtiness_extent(
    repo: Text,
    t: Seq<Reply>,
    n: int,
)
    requires
        0 <= n <= t.len(),
    ensures
        within(#[trigger] is_dirty_flow(repo, t, n), n, t.len() as int),
{
    broadcast use git_extent;

}

/// What has been read decides; see `decided`.
pub broadcast proof fn dirtiness_reads(
    repo: Text,
    t: Seq<Reply>,
    s: Seq<Reply>,
    n: int,
)
    requires
        0 <= n <= t.len(),
    ensures
        decided(
            #[trigger] is_dirty_flow(repo, t, n),
            #[trigger] is_dirty_flow(repo, s, n),
            t,
            s,
        ),
{
    broadcast use {git_extent, git_reads};

}

/// How far the replies are read; see `within`.
pub broadcast proof fn remote_refs_extent(
    repo: Text,
    commit: Text,
    t: Seq<Reply>,
    n: int,
)
    requires
        0 <= n <= t.len(),
    ensures
        within(#[trigger] remote_refs_flow(repo, commit, t, n), n, t.len() as int),
{
    broadcast use {git_extent, commit_extent};

}

/// What has been read decides; see `decided`.
pub broadcast proof fn remote_refs_reads(
    repo: Text,
    commit: Text,
    t: Seq<Reply>,
    s: Seq<Reply>,
    n: int,
)
    requires
        0 <= n <= t.len(),
    ensures
        decided(
            #[trigger] remote_refs_flow(repo, commit, t, n),
            #[trigger] remote_refs_flow(repo, commit, s, n),
            t,
            s,
        ),
{
    broadcast use {git_extent, commit_extent, git_reads, commit_reads};

}

/// How far the replies are read; see `within`.
pub broadcast proof fn containment_extent(
    repo: Text,
    commit: Text,
    upstream: Option<Text>,
    t: Seq<Reply>,
    n: int,
)
    requires
        0 <= n <= t.len(),
    ensures
        within(#[trigger] on_upstream_flow(repo, commit, upstream, t, n), n, t.len() as int),
{
    broadcast use ancestor_extent;

}

/// What has been read decides; see `decided`.
pub broadcast proof fn containment_reads(
    repo: Text,
    commit: Text,
    upstream: Option<Text>,
    t: Seq<Reply>,
    s: Seq<Reply>,
    n: int,
)
    requires
        0 <= n <= t.len(),
    ensures
        decided(
            #[trigger] on_upstream_flow(repo, commit, upstream, t, n),
            #[trigger] on_upstream_flow(repo, commit, upstream, s, n),
            t,
            s,
        ),
{
    broadcast use {ancestor_extent, ancestor_reads};

}

/// How far the replies are read; see `within`.
pub broadcast proof fn history_extent(
    repo: Text,
    base: Text,
    t: Seq<Reply>,
    n: int,
)
    requires
        0 <= n <= t.len(),
    ensures
        within(#[trigger] branch_history_flow(repo, base, t, n), n, t.len() as int),
{
    broadcast use {git_extent, commitish_extent};

}

/// What has been read decides; see `decided`.
pub broadcast proof fn history_reads(
    repo: Text,
    base: Text,
    t: Seq<Reply>,
    s: Seq<Reply>,
    n: int,
)
    requires
        0 <= n <= t.len(),
    ensures
        decided(
            #[trigger] branch_history_flow(repo, base, t, n),
            #[trigger] branch_history_flow(repo, base, s, n),
            t,
            s,
        ),
{
    broadcast use {git_extent, commitish_extent, git_reads, commitish_reads};

}

/// How far the replies are read; see `within`.
pub broadcast proof fn publication_extent(
    repo: Text,
    commits: Seq<HistoryCommitView>,
    upstream: Option<Text>,
    i: int,
    found: Seq<Text>,
    t: Seq<Reply>,
    n: int,
)
    requires
        0 <= n <= t.len(),
    ensures
        within(
            #[trigger] published_refs_flow(repo, commits, upstream, i, found, t, n),
            n,
            t.len() as int,
        ),
    decreases commits.len() - i,
{
    broadcast use {remote_refs_extent, containment_extent};

    if 0 <= i < commits.len() {
        if let FlowView::Got(refs, k) = remote_refs_flow(repo, commits[i].sha, t, n) {
            if let FlowView::Got(contained, m) = on_upstream_flow(
                repo,
                commits[i].sha,
                upstream,
                t,
                k,
            ) {
                let more = insert_all(found, refs, 0);
                publication_extent(repo, commits, upstream, i + 1, more, t, m);
                if upstream is Some {
                    let all = insert_sorted(more, upstream->0);
                    publication_extent(repo, commits, upstream, i + 1, all, t, m);
                }
            }
        }
    }
}

/// What has been read decides; see `decided`.
pub broadcast proof fn publication_reads(
    repo: Text,
    commits: Seq<HistoryCommitView>,
    upstream: Option<Text>,
    i: int,
    found: Seq<Text>,
    t: Seq<Reply>,
    s: Seq<Reply>,
    n: int,
)
    requires
        0 <= n <= t.len(),
    ensures
        decided(
            #[trigger] published_refs_flow(repo, commits, upstream, i, found, t, n),
            #[trigger] published_refs_flow(repo, commits, upstream, i, found, s, n),
            t,
            s,
        ),
    decreases commits.len() - i,
{
    broadcast use {remote_refs_extent, containment_extent, remote_refs_reads, containment_reads};

    if 0 <= i < commits.len() {
        if let FlowView::Got(refs, k) = remote_refs_flow(repo, commits[i].sha, t, n) {
            if let FlowView::Got(contained, m) = on_upstream_flow(
                repo,
                commits[i].sha,
                upstream,
                t,
                k,
            ) {
                let more = insert_all(found, refs, 0);
                publication_extent(repo, commits, upstream, i + 1, more, t, m);
            publication_reads(repo, commits, upstream, i + 1, more, t, s, m);
                if upstream is Some {
                    let all = insert_sorted(more, upstream->0);
                    publication_extent(repo, commits, upstream, i + 1, all, t, m);
            publication_reads(repo, commits, upstream, i + 1, all, t, s, m);
                }
            }
        }
    }
}

/// How far the replies are read; see `within`.
pub broadcast proof fn plan_upstream_extent(
    repo: Text,
    branch: Option<Text>,
    t: Seq<Reply>,
    n: int,
)
    requires
        0 <= n <= t.len(),
    ensures
        within(#[trigger] plan_upstream_flow(repo, branch, t, n), n, t.len() as int),
{
    broadcast use upstream_extent;

}

/// What has been read decides; see `decided`.
pub broadcast proof fn plan_upstream_reads(
    repo: Text,
    branch: Option<Text>,
    t: Seq<Reply>,
    s: Seq<Reply>,
    n: int,
)
    requires
        0 <= n <= t.len(),
    ensures
        decided(
            #[trigger] plan_upstream_flow(repo, branch, t, n),
            #[trigger] plan_upstream_flow(repo, branch, s, n),
            t,
            s,
        ),
{
    broadcast use {upstream_extent, upstream_reads};

}

/// How far the replies are read; see `within`.
pub broadcast proof fn plan_extent(
    repo: Text,
    base: Text,
    t: Seq<Reply>,
    n: int,
)
    requires
        0 <= n <= t.len(),
    ensures
        within(#[trigger] history_plan_flow(repo, base, t, n), n, t.len() as int),
{
    broadcast use {
        branch_extent,
        merge_base_extent,
        history_extent,
        dirtiness_extent,
        plan_upstream_extent,
        publication_extent,
    };

}

/// What has been read decides; see `decided`.
pub broadcast proof fn plan_reads(
    repo: Text,
    base: Text,
    t: Seq<Reply>,
    s: Seq<Reply>,
    n: int,
)
    requires
        0 <= n <= t.len(),
    ensures
        decided(
            #[trigger] history_plan_flow(repo, base, t, n),
            #[trigger] history_plan_flow(repo, base, s, n),
            t,
            s,
        ),
{
    broadcast use {
        branch_extent,
        merge_base_extent,
        history_extent,
        dirtiness_extent,
        plan_upstream_extent,
        publication_extent,
        branch_reads,
        merge_base_reads,
        history_reads,
        dirtiness_reads,
        plan_upstream_reads,
        publication_reads,
    };

}

/// How far the replies are read; see `within`.
pub broadcast proof fn snapshot_extent(
    repo: Text,
    commit: Text,
    t: Seq<Reply>,
    n: int,
)
    requires
        0 <= n <= t.len(),
    ensures
        within(#[trigger] commit_snapshot_flow(repo, commit, t, n), n, t.len() as int),
{
    broadcast use {git_extent, commit_extent};

}

/// What has been read decides; see `decided`.
pub broadcast proof fn snapshot_reads(
    repo: Text,
    commit: Text,
    t: Seq<Reply>,
    s: Seq<Reply>,
    n: int,
)
    requires
        0 <= n <= t.len(),
    ensures
        decided(
            #[trigger] commit_snapshot_flow(repo, commit, t, n),
            #[trigger] commit_snapshot_flow(repo, commit, s, n),
            t,
            s,
        ),
{
    broadcast use {git_extent, commit_extent, git_reads, commit_reads};

}

/// How far the replies are read; see `within`.
pub broadcast proof fn new_commit_extent(
    repo: Text,
    snapshot: SnapshotView,
    tree: Text,
    parent: Text,
    message: Text,
    t: Seq<Reply>,
    n: int,
)
    requires
        0 <= n <= t.len(),
    ensures
        within(
            #[trigger] create_commit_flow(repo, snapshot, tree, parent, message, t, n),
            n,
            t.len() as int,
        ),
{
    broadcast use git_extent;

}

/// What has been read decides; see `decided`.
pub broadcast proof fn new_commit_reads(
    repo: Text,
    snapshot: SnapshotView,
    tree: Text,
    parent: Text,
    message: Text,
    t: Seq<Reply>,
    s: Seq<Reply>,
    n: int,
)
    requires
        0 <= n <= t.len(),
    ensures
        decided(
            #[trigger] create_commit_flow(repo, snapshot, tree, parent, message, t, n),
            #[trigger] create_commit_flow(repo, snapshot, tree, parent, message, s, n),
            t,
            s,
        ),
{
    broadcast use {git_extent, git_reads};

}

/// How far the replies are read; see `within`.
pub broadcast proof fn unpublished_extent(
    repo: Text,
    commits: Seq<HistoryCommitView>,
    upstream: Option<Text>,
    i: int,
    t: Seq<Reply>,
    n: int,
)
    requires
        0 <= n <= t.len(),
    ensures
        within(
            #[trigger] unpublished_suffix_flow(repo, commits, upstream, i, t, n),
            n,
            t.len() as int,
        ),
    decreases commits.len() - i,
{
    broadcast use {remote_refs_extent, containment_extent};

    if 0 <= i < commits.len() {
        if let FlowView::Got(refs, k) = remote_refs_flow(repo, commits[i].sha, t, n) {
            if let FlowView::Got(contained, m) = on_upstream_flow(
                repo,
                commits[i].sha,
                upstream,
                t,
                k,
            ) {
                unpublished_extent(repo, commits, upstream, i + 1, t, m);
            }
        }
    }
}

/// What has been read decides; see `decided`.
pub broadcast proof fn unpublished_reads(
    repo: Text,
    commits: Seq<HistoryCommitView>,
    upstream: Option<Text>,
    i: int,
    t: Seq<Reply>,
    s: Seq<Reply>,
    n: int,
)
    requires
        0 <= n <= t.len(),
    ensures
        decided(
            #[trigger] unpublished_suffix_flow(repo, commits, upstream, i, t, n),
            #[trigger] unpublished_suffix_flow(repo, commits, upstream, i, s, n),
            t,
            s,
        ),
    decreases commits.len() - i,
{
    broadcast use {remote_refs_extent, containment_extent, remote_refs_reads, containment_reads};

    if 0 <= i < commits.len() {
        if let FlowView::Got(refs, k) = remote_refs_flow(repo, commits[i].sha, t, n) {
            if let FlowView::Got(contained, m) = on_upstream_flow(
                repo,
                commits[i].sha,
                upstream,
                t,
                k,
            ) {
                unpublished_extent(repo, commits, upstream, i + 1, t, m);
            unpublished_reads(repo, commits, upstream, i + 1, t, s, m);
            }
        }
    }
}

/// How far the replies are read; see `within`.
pub broadcast proof fn suffix_extent(
    repo: Text,
    plan: HistoryPlanView,
    from: int,
    policy: RewritePolicy,
    t: Seq<Reply>,
    n: int,
)
    requires
        0 <= n <= t.len(),
    ensures
        within(#[trigger] suffix_rewrite_flow(repo, plan, from, policy, t, n), n, t.len() as int),
{
    broadcast use unpublished_extent;

}

/// What has been read decides; see `decided`.
pub broadcast proof fn suffix_reads(
    repo: Text,
    plan: HistoryPlanView,
    from: int,
    policy: RewritePolicy,
    t: Seq<Reply>,
    s: Seq<Reply>,
    n: int,
)
    requires
        0 <= n <= t.len(),
    ensures
        decided(
            #[trigger] suffix_rewrite_flow(repo, plan, from, policy, t, n),
            #[trigger] suffix_rewrite_flow(repo, plan, from, policy, s, n),
            t,
            s,
        ),
{
    broadcast use {unpublished_extent, unpublished_reads};

}

/// How far the replies are read; see `within`.
pub broadcast proof fn distinct_extent(
    repo: Text,
    revisions: Seq<Text>,
    i: int,
    found: Seq<Text>,
    error: Text,
    t: Seq<Reply>,
    n: int,
)
    requires
        0 <= n <= t.len(),
    ensures
        within(
            #[trigger] resolve_distinct_flow(repo, revisions, i, found, error, t, n),
            n,
            t.len() as int,
        ),
    decreases revisions.len() - i,
{
    broadcast use commit_extent;

    if 0 <= i < revisions.len() {
        if let FlowView::Got(sha, m) = resolve_commit_flow(repo, revisions[i], t, n) {
            distinct_extent(repo, revisions, i + 1, found.push(sha), error, t, m);
        }
    }
}

/// What has been read decides; see `decided`.
pub broadcast proof fn distinct_reads(
    repo: Text,
    revisions: Seq<Text>,
    i: int,
    found: Seq<Text>,
    error: Text,
    t: Seq<Reply>,
    s: Seq<Reply>,
    n: int,
)
    requires
        0 <= n <= t.len(),
    ensures
        decided(
            #[trigger] resolve_distinct_flow(repo, revisions, i, found, error, t, n),
            #[trigger] resolve_distinct_flow(repo, revisions, i, found, error, s, n),
            t,
            s,
        ),
    decreases revisions.len() - i,
{
    broadcast use {commit_extent, commit_reads};

    if 0 <= i < revisions.len() {
        if let FlowView::Got(sha, m) = resolve_commit_flow(repo, revisions[i], t, n) {
            distinct_extent(repo, revisions, i + 1, found.push(sha), error, t, m);
            distinct_reads(repo, revisions, i + 1, found.push(sha), error, t, s, m);
        }
    }
}

/// How far the replies are read; see `within`.
pub broadcast proof fn changes_extent(
    repo: Text,
    changes: Seq<RewordView>,
    i: int,
    found: Seq<Text>,
    t: Seq<Reply>,
    n: int,
)
    requires
        0 <= n <= t.len(),
    ensures
        within(#[trigger] resolve_changes_flow(repo, changes, i, found, t, n), n, t.len() as int),
    decreases changes.len() - i,
{
    broadcast use commit_extent;

    if 0 <= i < changes.len() {
        if let FlowView::Got(sha, m) = resolve_commit_flow(repo, changes[i].commit, t, n) {
            changes_extent(repo, changes, i + 1, found.push(sha), t, m);
        }
    }
}

/// What has been read decides; see `decided`.
pub broadcast proof fn changes_reads(
    repo: Text,
    changes: Seq<RewordView>,
    i: int,
    found: Seq<Text>,
    t: Seq<Reply>,
    s: Seq<Reply>,
    n: int,
)
    requires
        0 <= n <= t.len(),
    ensures
        decided(
            #[trigger] resolve_changes_flow(repo, changes, i, found, t, n),
            #[trigger] resolve_changes_flow(repo, changes, i, found, s, n),
            t,
            s,
        ),
    decreases changes.len() - i,
{
    broadcast use {commit_extent, commit_reads};

    if 0 <= i < changes.len() {
        if let FlowView::Got(sha, m) = resolve_commit_flow(repo, changes[i].commit, t, n) {
            changes_extent(repo, changes, i + 1, found.push(sha), t, m);
            changes_reads(repo, changes, i + 1, found.push(sha), t, s, m);
        }
    }
}

/// How far the replies are read; see `within`.
pub broadcast proof fn replay_extent(
    repo: Text,
    commits: Seq<HistoryCommitView>,
    shas: Seq<Text>,
    changes: Seq<RewordView>,
    i: int,
    parent: Text,
    made: Seq<RewrittenView>,
    t: Seq<Reply>,
    n: int,
)
    requires
        0 <= n <= t.len(),
    ensures
        within(
            #[trigger] replay_flow(repo, commits, shas, changes, i, parent, made, t, n),
            n,
            t.len() as int,
        ),
    decreases commits.len() - i,
{
    broadcast use {snapshot_extent, new_commit_extent};

    if 0 <= i < commits.len() {
        if let FlowView::Got(snapshot, k) = commit_snapshot_flow(repo, commits[i].sha, t, n) {
            let request = reworded(shas, changes, commits[i].sha);
            let message = match request {
                Some(message) => message,
                None => snapshot.message,
            };
            if let FlowView::Got(new, m) = create_commit_flow(
                repo,
                snapshot,
                snapshot.tree,
                parent,
                message,
                t,
                k,
            ) {
                let more = made.push(rewritten_commit(snapshot, new, request));
                replay_extent(repo, commits, shas, changes, i + 1, new, more, t, m);
            }
        }
    }
}

/// What has been read decides; see `decided`.
pub broadcast proof fn replay_reads(
    repo: Text,
    commits: Seq<HistoryCommitView>,
    shas: Seq<Text>,
    changes: Seq<RewordView>,
    i: int,
    parent: Text,
    made: Seq<RewrittenView>,
    t: Seq<Reply>,
    s: Seq<Reply>,
    n: int,
)
    requires
        0 <= n <= t.len(),
    ensures
        decided(
            #[trigger] replay_flow(repo, commits, shas, changes, i, parent, made, t, n),
            #[trigger] replay_flow(repo, commits, shas, changes, i, parent, made, s, n),
            t,
            s,
        ),
    decreases commits.len() - i,
{
    broadcast use {snapshot_extent, new_commit_extent, snapshot_reads, new_commit_reads};

    if 0 <= i < commits.len() {
        if let FlowView::Got(snapshot, k) = commit_snapshot_flow(repo, commits[i].sha, t, n) {
            let request = reworded(shas, changes, commits[i].sha);
            let message = match request {
                Some(message) => message,
                None => snapshot.message,
            };
            if let FlowView::Got(new, m) = create_commit_flow(
                repo,
                snapshot,
                snapshot.tree,
                parent,
                message,
                t,
                k,
            ) {
                let more = made.push(rewritten_commit(snapshot, new, request));
                replay_extent(repo, commits, shas, changes, i + 1, new, more, t, m);
            replay_reads(repo, commits, shas, changes, i + 1, new, more, t, s, m);
            }
        }
    }
}

/// How far the replies are read; see `within`.
pub broadcast proof fn squash_replay_extent(
    repo: Text,
    commits: Seq<HistoryCommitView>,
    i: int,
    parent: Text,
    t: Seq<Reply>,
    n: int,
)
    requires
        0 <= n <= t.len(),
    ensures
        within(#[trigger] squash_replay_flow(repo, commits, i, parent, t, n), n, t.len() as int),
    decreases commits.len() - i,
{
    broadcast use {snapshot_extent, new_commit_extent};

    if 0 <= i < commits.len() {
        if let FlowView::Got(snapshot, k) = commit_snapshot_flow(repo, commits[i].sha, t, n) {
            if let FlowView::Got(new, m) = create_commit_flow(
                repo,
                snapshot,
                snapshot.tree,
                parent,
                snapshot.message,
                t,
                k,
            ) {
                squash_replay_extent(repo, commits, i + 1, new, t, m);
            }
        }
    }
}

/// What has been read decides; see `decided`.
pub broadcast proof fn squash_replay_reads(
    repo: Text,
    commits: Seq<HistoryCommitView>,
    i: int,
    parent: Text,
    t: Seq<Reply>,
    s: Seq<Reply>,
    n: int,
)
    requires
        0 <= n <= t.len(),
    ensures
        decided(
            #[trigger] squash_replay_flow(repo, commits, i, parent, t, n),
            #[trigger] squash_replay_flow(repo, commits, i, parent, s, n),
            t,
            s,
        ),
    decreases commits.len() - i,
{
    broadcast use {snapshot_extent, new_commit_extent, snapshot_reads, new_commit_reads};

    if 0 <= i < commits.len() {
        if let FlowView::Got(snapshot, k) = commit_snapshot_flow(repo, commits[i].sha, t, n) {
            if let FlowView::Got(new, m) = create_commit_flow(
                repo,
                snapshot,
                snapshot.tree,
                parent,
                snapshot.message,
                t,
                k,
            ) {
                squash_replay_extent(repo, commits, i + 1, new, t, m);
            squash_replay_reads(repo, commits, i + 1, new, t, s, m);
            }
        }
    }
}

/// How far the replies are read; see `within`.
pub broadcast proof fn head_unpublished_extent(
    repo: Text,
    head: Text,
    t: Seq<Reply>,
    n: int,
)
    requires
        0 <= n <= t.len(),
    ensures
        within(#[trigger] head_unpublished_flow(repo, head, t, n), n, t.len() as int),
{
    broadcast use {remote_refs_extent, upstream_extent, containment_extent};

}

/// What has been read decides; see `decided`.
pub broadcast proof fn head_unpublished_reads(
    repo: Text,
    head: Text,
    t: Seq<Reply>,
    s: Seq<Reply>,
    n: int,
)
    requires
        0 <= n <= t.len(),
    ensures
        decided(
            #[trigger] head_unpublished_flow(repo, head, t, n),
            #[trigger] head_unpublished_flow(repo, head, s, n),
            t,
            s,
        ),
{
    broadcast use {
        remote_refs_extent,
        upstream_extent,
        containment_extent,
        remote_refs_reads,
        upstream_reads,
        containment_reads,
    };

}

/// What has been read decides; see `decided`.
pub broadcast proof fn amendable_reads(
    args: AmendArgsView,
    head: Text,
    t: Seq<Reply>,
    s: Seq<Reply>,
    n: int,
)
    requires
        0 <= n <= t.len(),
    ensures
        decided(
            #[trigger] amendable_flow(args, head, t, n),
            #[trigger] amendable_flow(args, head, s, n),
            t,
            s,
        ),
{
    broadcast use {
        required_branch_extent,
        snapshot_extent,
        head_unpublished_extent,
        required_branch_reads,
        snapshot_reads,
        head_unpublished_reads,
    };

}

/// What has been read decides; see `decided`.
pub broadcast proof fn amended_tree_reads(
    args: AmendArgsView,
    snapshot: SnapshotView,
    t: Seq<Reply>,
    s: Seq<Reply>,
    n: int,
)
    requires
        0 <= n <= t.len(),
    ensures
        decided(
            #[trigger] amended_tree_flow(args, snapshot, t, n),
            #[trigger] amended_tree_flow(args, snapshot, s, n),
            t,
            s,
        ),
{
    broadcast use {git_extent, git_reads};

}

/// How far the replies are read; see `within`.
pub broadcast proof fn reword_selection_extent(
    args: RewordArgsView,
    plan: HistoryPlanView,
    t: Seq<Reply>,
    n: int,
)
    requires
        0 <= n <= t.len(),
    ensures
        within(#[trigger] reword_selection_flow(args, plan, t, n), n, t.len() as int),
{
    broadcast use {changes_extent, suffix_extent};

}

/// What has been read decides; see `decided`.
pub broadcast proof fn reword_selection_reads(
    args: RewordArgsView,
    plan: HistoryPlanView,
    t: Seq<Reply>,
    s: Seq<Reply>,
    n: int,
)
    requires
        0 <= n <= t.len(),
    ensures
        decided(
            #[trigger] reword_selection_flow(args, plan, t, n),
            #[trigger] reword_selection_flow(args, plan, s, n),
            t,
            s,
        ),
{
    broadcast use {changes_extent, suffix_extent, changes_reads, suffix_reads};

}

/// How far the replies are read; see `within`.
pub broadcast proof fn squash_selection_extent(
    args: SquashArgsView,
    plan: HistoryPlanView,
    t: Seq<Reply>,
    n: int,
)
    requires
        0 <= n <= t.len(),
    ensures
        within(#[trigger] squash_selection_flow(args, plan, t, n), n, t.len() as int),
{
    broadcast use {distinct_extent, suffix_extent};

}

/// What has been read decides; see `decided`.
pub broadcast proof fn squash_selection_reads(
    args: SquashArgsView,
    plan: HistoryPlanView,
    t: Seq<Reply>,
    s: Seq<Reply>,
    n: int,
)
    requires
        0 <= n <= t.len(),
    ensures
        decided(
            #[trigger] squash_selection_flow(args, plan, t, n),
            #[trigger] squash_selection_flow(args, plan, s, n),
            t,
            s,
        ),
{
    broadcast use {distinct_extent, suffix_extent, distinct_reads, suffix_reads};

}

/// How far the replies are read; see `within`.
pub broadcast proof fn tag_name_extent(
    repo: Text,
    name: Text,
    t: Seq<Reply>,
    n: int,
)
    requires
        0 <= n <= t.len(),
    ensures
        within(#[trigger] validate_tag_name_flow(repo, name, t, n), n, t.len() as int),
{
    broadcast use git_extent;

}

/// What has been read decides; see `decided`.
pub broadcast proof fn tag_name_reads(
    repo: Text,
    name: Text,
    t: Seq<Reply>,
    s: Seq<Reply>,
    n: int,
)
    requires
        0 <= n <= t.len(),
    ensures
        decided(
            #[trigger] validate_tag_name_flow(repo, name, t, n),
            #[trigger] validate_tag_name_flow(repo, name, s, n),
            t,
            s,
        ),
{
    broadcast use {git_extent, git_reads};

}

/// How far the replies are read; see `within`.
pub broadcast proof fn commits_extent(
    repo: Text,
    revisions: Seq<Text>,
    i: int,
    found: Seq<Text>,
    t: Seq<Reply>,
    n: int,
)
    requires
        0 <= n <= t.len(),
    ensures
        within(#[trigger] resolve_all_flow(repo, revisions, i, found, t, n), n, t.len() as int),
    decreases revisions.len() - i,
{
    broadcast use commit_extent;

    if 0 <= i < revisions.len() {
        if let FlowView::Got(sha, m) = resolve_commit_flow(repo, revisions[i], t, n) {
            commits_extent(repo, revisions, i + 1, found.push(sha), t, m);
        }
    }
}

/// What has been read decides; see `decided`.
pub broadcast proof fn commits_reads(
    repo: Text,
    revisions: Seq<Text>,
    i: int,
    found: Seq<Text>,
    t: Seq<Reply>,
    s: Seq<Reply>,
    n: int,
)
    requires
        0 <= n <= t.len(),
    ensures
        decided(
            #[trigger] resolve_all_flow(repo, revisions, i, found, t, n),
            #[trigger] resolve_all_flow(repo, revisions, i, found, s, n),
            t,
            s,
        ),
    decreases revisions.len() - i,
{
    broadcast use {commit_extent, commit_reads};

    if 0 <= i < revisions.len() {
        if let FlowView::Got(sha, m) = resolve_commit_flow(repo, revisions[i], t, n) {
            commits_extent(repo, revisions, i + 1, found.push(sha), t, m);
            commits_reads(repo, revisions, i + 1, found.push(sha), t, s, m);
        }
    }
}

/// How far the replies are read; see `within`.
pub broadcast proof fn tag_names_extent(
    repo: Text,
    tags: Seq<Text>,
    i: int,
    t: Seq<Reply>,
    n: int,
)
    requires
        0 <= n <= t.len(),
    ensures
        within(#[trigger] validate_tags_flow(repo, tags, i, t, n), n, t.len() as int),
    decreases tags.len() - i,
{
    broadcast use tag_name_extent;

    if 0 <= i < tags.len() {
        if let FlowView::Got(_, m) = validate_tag_name_flow(repo, tags[i], t, n) {
            tag_names_extent(repo, tags, i + 1, t, m);
        }
    }
}

/// What has been read decides; see `decided`.
pub broadcast proof fn tag_names_reads(
    repo: Text,
    tags: Seq<Text>,
    i: int,
    t: Seq<Reply>,
    s: Seq<Reply>,
    n: int,
)
    requires
        0 <= n <= t.len(),
    ensures
        decided(
            #[trigger] validate_tags_flow(repo, tags, i, t, n),
            #[trigger] validate_tags_flow(repo, tags, i, s, n),
            t,
            s,
        ),
    decreases tags.len() - i,
{
    broadcast use {tag_name_extent, tag_name_reads};

    if 0 <= i < tags.len() {
        if let FlowView::Got(_, m) = validate_tag_name_flow(repo, tags[i], t, n) {
            tag_names_extent(repo, tags, i + 1, t, m);
            tag_names_reads(repo, tags, i + 1, t, s, m);
        }
    }
}

/// How far the replies are read; see `within`.
pub broadcast proof fn published_commits_extent(
    repo: Text,
    remote: Text,
    commits: Seq<Text>,
    i: int,
    found: Seq<PublishedCommitView>,
    t: Seq<Reply>,
    n: int,
)
    requires
        0 <= n <= t.len(),
    ensures
        within(
            #[trigger] published_commits_flow(repo, remote, commits, i, found, t, n),
            n,
            t.len() as int,
        ),
    decreases commits.len() - i,
{
    broadcast use git_extent;

    if 0 <= i < commits.len() {
        let command = Command::RemoteRefsOf { remote, commit: commits[i] };
        if let FlowView::Got(o, m) = git_flow(repo, command, t, n) {
            published_commits_extent(repo, remote, commits, i + 1, found, t, m);
            let more = found.push(
                PublishedCommitView { commit: commits[i], refs: listing(o.stdout) },
            );
            published_commits_extent(repo, remote, commits, i + 1, more, t, m);
        }
    }
}

/// What has been read decides; see `decided`.
pub broadcast proof fn published_commits_reads(
    repo: Text,
    remote: Text,
    commits: Seq<Text>,
    i: int,
    found: Seq<PublishedCommitView>,
    t: Seq<Reply>,
    s: Seq<Reply>,
    n: int,
)
    requires
        0 <= n <= t.len(),
    ensures
        decided(
            #[trigger] published_commits_flow(repo, remote, commits, i, found, t, n),
            #[trigger] published_commits_flow(repo, remote, commits, i, found, s, n),
            t,
            s,
        ),
    decreases commits.len() - i,
{
    broadcast use {git_extent, git_reads};

    if 0 <= i < commits.len() {
        let command = Command::RemoteRefsOf { remote, commit: commits[i] };
        if let FlowView::Got(o, m) = git_flow(repo, command, t, n) {
            published_commits_extent(repo, remote, commits, i + 1, found, t, m);
            published_commits_reads(repo, remote, commits, i + 1, found, t, s, m);
            let more = found.push(
                PublishedCommitView { commit: commits[i], refs: listing(o.stdout) },
            );
            published_commits_extent(repo, remote, commits, i + 1, more, t, m);
            published_commits_reads(repo, remote, commits, i + 1, more, t, s, m);
        }
    }
}

/// How far the replies are read; see `within`.
pub broadcast proof fn published_tags_extent(
    repo: Text,
    remote: Text,
    tags: Seq<Text>,
    i: int,
    found: Seq<PublishedTagView>,
    t: Seq<Reply>,
    n: int,
)
    requires
        0 <= n <= t.len(),
    ensures
        within(
            #[trigger] published_tags_flow(repo, remote, tags, i, found, t, n),
            n,
            t.len() as int,
        ),
    decreases tags.len() - i,
{
    broadcast use git_extent;

    if 0 <= i < tags.len() {
        let command = Command::RemoteTag { remote, tag: tags[i] };
        if let FlowView::Got(o, m) = git_flow(repo, command, t, n) {
            published_tags_extent(repo, remote, tags, i + 1, found, t, m);
            let more = found.push(
                PublishedTagView { tag: tags[i], remote_lines: listing(o.stdout) },
            );
            published_tags_extent(repo, remote, tags, i + 1, more, t, m);
        }
    }
}

/// What has been read decides; see `decided`.
pub broadcast proof fn published_tags_reads(
    repo: Text,
    remote: Text,
    tags: Seq<Text>,
    i: int,
    found: Seq<PublishedTagView>,
    t: Seq<Reply>,
    s: Seq<Reply>,
    n: int,
)
    requires
        0 <= n <= t.len(),
    ensures
        decided(
            #[trigger] published_tags_flow(repo, remote, tags, i, found, t, n),
            #[trigger] published_tags_flow(repo, remote, tags, i, found, s, n),
            t,
            s,
        ),
    decreases tags.len() - i,
{
    broadcast use {git_extent, git_reads};

    if 0 <= i < tags.len() {
        let command = Command::RemoteTag { remote, tag: tags[i] };
        if let FlowView::Got(o, m) = git_flow(repo, command, t, n) {
            published_tags_extent(repo, remote, tags, i + 1, found, t, m);
            published_tags_reads(repo, remote, tags, i + 1, found, t, s, m);
            let more = found.push(
                PublishedTagView { tag: tags[i], remote_lines: listing(o.stdout) },
            );
            published_tags_extent(repo, remote, tags, i + 1, more, t, m);
            published_tags_reads(repo, remote, tags, i + 1, more, t, s, m);
        }
    }
}

/// How far the replies are read; see `within`.
pub broadcast proof fn look_up_extent(
    repo: Text,
    remote: Text,
    commits: Seq<Text>,
    tags: Seq<Text>,
    t: Seq<Reply>,
    n: int,
)
    requires
        0 <= n <= t.len(),
    ensures
        within(#[trigger] look_up_flow(repo, remote, commits, tags, t, n), n, t.len() as int),
{
    broadcast use {git_extent, published_commits_extent, published_tags_extent};

}

/// What has been read decides; see `decided`.
pub broadcast proof fn look_up_reads(
    repo: Text,
    remote: Text,
    commits: Seq<Text>,
    tags: Seq<Text>,
    t: Seq<Reply>,
    s: Seq<Reply>,
    n: int,
)
    requires
        0 <= n <= t.len(),
    ensures
        decided(
            #[trigger] look_up_flow(repo, remote, commits, tags, t, n),
            #[trigger] look_up_flow(repo, remote, commits, tags, s, n),
            t,
            s,
        ),
{
    broadcast use {
        git_extent,
        published_commits_extent,
        published_tags_extent,
        git_reads,
        published_commits_reads,
        published_tags_reads,
    };

}

/// How far the replies are read; see `within`.
pub broadcast proof fn verification_extent(
    server: GitServer,
    args: PublicationArgsView,
    t: Seq<Reply>,
    n: int,
)
    requires
        0 <= n <= t.len(),
    ensures
        within(#[trigger] verify_unpublished_flow(server, args, t, n), n, t.len() as int),
{
    broadcast use {git_extent, commits_extent, tag_names_extent, look_up_extent};

}

/// What has been read decides; see `decided`.
pub broadcast proof fn verification_reads(
    server: GitServer,
    args: PublicationArgsView,
    t: Seq<Reply>,
    s: Seq<Reply>,
    n: int,
)
    requires
        0 <= n <= t.len(),
    ensures
        decided(
            #[trigger] verify_unpublished_flow(server, args, t, n),
            #[trigger] verify_unpublished_flow(server, args, s, n),
            t,
            s,
        ),
{
    broadcast use {
        git_extent,
        commits_extent,
        tag_names_extent,
        look_up_extent,
        git_reads,
        commits_reads,
        tag_names_reads,
        look_up_reads,
    };

}

/// How far the replies are read; see `within`.
pub broadcast proof fn tag_object_extent(
    repo: Text,
    name: Text,
    t: Seq<Reply>,
    n: int,
)
    requires
        0 <= n <= t.len(),
    ensures
        within(#[trigger] tag_object_flow(repo, name, t, n), n, t.len() as int),
{
    broadcast use {git_extent, tag_name_extent};

}

/// What has been read decides; see `decided`.
pub broadcast proof fn tag_object_reads(
    repo: Text,
    name: Text,
    t: Seq<Reply>,
    s: Seq<Reply>,
    n: int,
)
    requires
        0 <= n <= t.len(),
    ensures
        decided(
            #[trigger] tag_object_flow(repo, name, t, n),
            #[trigger] tag_object_flow(repo, name, s, n),
            t,
            s,
        ),
{
    broadcast use {git_extent, tag_name_extent, git_reads, tag_name_reads};

}

/// How far the replies are read; see `within`.
pub broadcast proof fn tag_target_extent(
    repo: Text,
    name: Text,
    t: Seq<Reply>,
    n: int,
)
    requires
        0 <= n <= t.len(),
    ensures
        within(#[trigger] tag_target_flow(repo, name, t, n), n, t.len() as int),
{
    broadcast use {tag_name_extent, commit_extent};

}

/// What has been read decides; see `decided`.
pub broadcast proof fn tag_target_reads(
    repo: Text,
    name: Text,
    t: Seq<Reply>,
    s: Seq<Reply>,
    n: int,
)
    requires
        0 <= n <= t.len(),
    ensures
        decided(
            #[trigger] tag_target_flow(repo, name, t, n),
            #[trigger] tag_target_flow(repo, name, s, n),
            t,
            s,
        ),
{
    broadcast use {tag_name_extent, commit_extent, tag_name_reads, commit_reads};

}

/// What has been read decides; see `decided`.
pub broadcast proof fn expected_target_reads(
    args: ReplaceTagArgsView,
    t: Seq<Reply>,
    s: Seq<Reply>,
    n: int,
)
    requires
        0 <= n <= t.len(),
    ensures
        decided(
            #[trigger] expected_target_flow(args, t, n),
            #[trigger] expected_target_flow(args, s, n),
            t,
            s,
        ),
{
    broadcast use {commit_extent, tag_target_extent, commit_reads, tag_target_reads};

}

/// What has been read decides; see `decided`.
pub broadcast proof fn tag_publication_reads(
    server: GitServer,
    args: ReplaceTagArgsView,
    t: Seq<Reply>,
    s: Seq<Reply>,
    n: int,
)
    requires
        0 <= n <= t.len(),
    ensures
        decided(
            #[trigger] tag_unpublished_flow(server, args, t, n),
            #[trigger] tag_unpublished_flow(server, args, s, n),
            t,
            s,
        ),
{
    broadcast use {verification_extent, verification_reads};

}

/// What has been read decides; see `decided`.
pub broadcast proof fn new_target_reads(
    args: ReplaceTagArgsView,
    t: Seq<Reply>,
    s: Seq<Reply>,
    n: int,
)
    requires
        0 <= n <= t.len(),
    ensures
        decided(
            #[trigger] new_target_flow(args, t, n),
            #[trigger] new_target_flow(args, s, n),
            t,
            s,
        ),
{
    broadcast use {commit_extent, head_extent, commit_reads, head_reads};

}

/// What has been read decides; see `decided`.
pub broadcast proof fn swap_reads(
    args: ReplaceTagArgsView,
    temporary: Text,
    new_target: Text,
    old_object: Text,
    t: Seq<Reply>,
    s: Seq<Reply>,
    n: int,
)
    requires
        0 <= n <= t.len(),
    ensures
        decided(
            #[trigger] swap_tag_flow(args, temporary, new_target, old_object, t, n),
            #[trigger] swap_tag_flow(args, temporary, new_target, old_object, s, n),
            t,
            s,
        ),
{
    broadcast use {
        raw_extent,
        git_extent,
        tag_name_extent,
        tag_object_extent,
        raw_reads,
        git_reads,
        tag_name_reads,
        tag_object_reads,
    };

}

/// What has been read decides; see `decided`.
pub broadcast proof fn update_reads(
    repo: Text,
    branch: Text,
    new_head: Text,
    old_head: Text,
    t: Seq<Reply>,
    s: Seq<Reply>,
    n: int,
)
    requires
        0 <= n <= t.len(),
    ensures
        decided(
            #[trigger] update_branch_flow(repo, branch, new_head, old_head, t, n),
            #[trigger] update_branch_flow(repo, branch, new_head, old_head, s, n),
            t,
            s,
        ),
{
    broadcast use {git_extent, git_reads};

}

/// What has been read decides; see `decided`.
pub broadcast proof fn rewindable_reads(
    args: RewindArgsView,
    head: Text,
    t: Seq<Reply>,
    s: Seq<Reply>,
    n: int,
)
    requires
        0 <= n <= t.len(),
    ensures
        decided(
            #[trigger] rewindable_flow(args, head, t, n),
            #[trigger] rewindable_flow(args, head, s, n),
            t,
            s,
        ),
{
    broadcast use {
        commit_extent,
        dirtiness_extent,
        required_branch_extent,
        snapshot_extent,
        commit_reads,
        dirtiness_reads,
        required_branch_reads,
        snapshot_reads,
    };

}

/// What has been read decides; see `decided`.
pub broadcast proof fn merge_publication_reads(
    server: GitServer,
    args: RewindArgsView,
    head: Text,
    t: Seq<Reply>,
    s: Seq<Reply>,
    n: int,
)
    requires
        0 <= n <= t.len(),
    ensures
        decided(
            #[trigger] merge_unpublished_flow(server, args, head, t, n),
            #[trigger] merge_unpublished_flow(server, args, head, s, n),
            t,
            s,
        ),
{
    broadcast use {verification_extent, head_extent, verification_reads, head_reads};

}

/// What has been read decides; see `decided`.
pub broadcast proof fn clean_trunk_reads(
    repo: Text,
    t: Seq<Reply>,
    s: Seq<Reply>,
    n: int,
)
    requires
        0 <= n <= t.len(),
    ensures
        decided(
            #[trigger] on_clean_trunk_flow(repo, t, n),
            #[trigger] on_clean_trunk_flow(repo, s, n),
            t,
            s,
        ),
{
    broadcast use {
        required_branch_extent,
        dirtiness_extent,
        required_branch_reads,
        dirtiness_reads,
    };

}

/// How far the replies are read; see `within`.
pub broadcast proof fn branch_name_extent(
    repo: Text,
    branch: Text,
    t: Seq<Reply>,
    n: int,
)
    requires
        0 <= n <= t.len(),
    ensures
        within(#[trigger] validate_branch_name_flow(repo, branch, t, n), n, t.len() as int),
{
    broadcast use git_extent;

}

/// What has been read decides; see `decided`.
pub broadcast proof fn branch_name_reads(
    repo: Text,
    branch: Text,
    t: Seq<Reply>,
    s: Seq<Reply>,
    n: int,
)
    requires
        0 <= n <= t.len(),
    ensures
        decided(
            #[trigger] validate_branch_name_flow(repo, branch, t, n),
            #[trigger] validate_branch_name_flow(repo, branch, s, n),
            t,
            s,
        ),
{
    broadcast use {git_extent, git_reads};

}

/// What has been read decides; see `decided`.
pub broadcast proof fn local_branch_reads(
    repo: Text,
    branch: Text,
    t: Seq<Reply>,
    s: Seq<Reply>,
    n: int,
)
    requires
        0 <= n <= t.len(),
    ensures
        decided(
            #[trigger] ensure_local_branch_flow(repo, branch, t, n),
            #[trigger] ensure_local_branch_flow(repo, branch, s, n),
            t,
            s,
        ),
{
    broadcast use {branch_name_extent, git_extent, branch_name_reads, git_reads};

}

/// What has been read decides; see `decided`.
pub broadcast proof fn branch_absence_reads(
    repo: Text,
    branch: Text,
    t: Seq<Reply>,
    s: Seq<Reply>,
    n: int,
)
    requires
        0 <= n <= t.len(),
    ensures
        decided(
            #[trigger] branch_absent_flow(repo, branch, t, n),
            #[trigger] branch_absent_flow(repo, branch, s, n),
            t,
            s,
        ),
{
    broadcast use {git_extent, git_reads};

}

/// What has been read decides; see `decided`.
pub broadcast proof fn start_point_reads(
    repo: Text,
    start_point: Option<Text>,
    t: Seq<Reply>,
    s: Seq<Reply>,
    n: int,
)
    requires
        0 <= n <= t.len(),
    ensures
        decided(
            #[trigger] start_point_flow(repo, start_point, t, n),
            #[trigger] start_point_flow(repo, start_point, s, n),
            t,
            s,
        ),
{
    broadcast use {commitish_extent, commitish_reads};

}

/// How far the replies are read; see `within`.
pub broadcast proof fn merge_head_extent(
    repo: Text,
    t: Seq<Reply>,
    n: int,
)
    requires
        0 <= n <= t.len(),
    ensures
        within(#[trigger] merge_in_progress_flow(repo, t, n), n, t.len() as int),
{
    broadcast use raw_extent;

}

/// What has been read decides; see `decided`.
pub broadcast proof fn merge_head_reads(
    repo: Text,
    t: Seq<Reply>,
    s: Seq<Reply>,
    n: int,
)
    requires
        0 <= n <= t.len(),
    ensures
        decided(
            #[trigger] merge_in_progress_flow(repo, t, n),
            #[trigger] merge_in_progress_flow(repo, s, n),
            t,
            s,
        ),
{
    broadcast use {raw_extent, raw_reads};

}

/// What has been read decides; see `decided`.
pub broadcast proof fn committable_reads(
    repo: Text,
    t: Seq<Reply>,
    s: Seq<Reply>,
    n: int,
)
    requires
        0 <= n <= t.len(),
    ensures
        decided(
            #[trigger] committable_flow(repo, t, n),
            #[trigger] committable_flow(repo, s, n),
            t,
            s,
        ),
{
    broadcast use {
        required_branch_extent,
        merge_head_extent,
        required_branch_reads,
        merge_head_reads,
    };

}

/// What has been read decides; see `decided`.
pub broadcast proof fn merged_trunk_reads(
    repo: Text,
    t: Seq<Reply>,
    s: Seq<Reply>,
    n: int,
)
    requires
        0 <= n <= t.len(),
    ensures
        decided(
            #[trigger] merged_trunk_flow(repo, t, n),
            #[trigger] merged_trunk_flow(repo, s, n),
            t,
            s,
        ),
{
    broadcast use {
        required_branch_extent,
        dirtiness_extent,
        snapshot_extent,
        required_branch_reads,
        dirtiness_reads,
        snapshot_reads,
    };

}

/// What has been read decides; see `decided`.
pub broadcast proof fn tag_absence_reads(
    repo: Text,
    name: Text,
    t: Seq<Reply>,
    s: Seq<Reply>,
    n: int,
)
    requires
        0 <= n <= t.len(),
    ensures
        decided(
            #[trigger] tag_absent_flow(repo, name, t, n),
            #[trigger] tag_absent_flow(repo, name, s, n),
            t,
            s,
        ),
{
    broadcast use {raw_extent, tag_name_extent, raw_reads, tag_name_reads};

}

} // verus!
