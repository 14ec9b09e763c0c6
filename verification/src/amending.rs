//! What amending a commit comes to, held against what was asked and told.
use crate::amend::{
    amend_flow, amend_from_flow, amendable_flow, amended_message, amended_tree_flow,
    head_unpublished_flow, AmendArgsView, AmendView,
};
use crate::command::Command;
use crate::dialogue::{
    answered, carries, commit_made, commit_read, lemma_answered, lemma_carried,
    lemma_commit_read_by, output_at, performed, request, said, snapshot_at,
};
use crate::extent::{
    agree, amendable_reads, amended_tree_reads, commit_reads, head_reads, new_commit_reads, remote_refs_reads,
    required_branch_reads, snapshot_reads, update_reads, upstream_reads,
};
use crate::flow::{git_flow, FlowView, Reply};
use crate::policy::conventional_verdict;
use crate::queries::{
    current_branch_required_flow, head_sha_flow, listing, on_upstream_flow, remote_refs_flow,
    resolve_commit_flow, short_status_flow, upstream_flow,
};
use crate::replaying::{lemma_commit_made, lemma_commit_read, making, reading};
use crate::rewrite::{update_branch_flow, RewriteFailureView, RewriteOutcome};
use crate::server::GitServer;
use crate::snapshot::{commit_snapshot_flow, create_commit_flow, SnapshotView};
use crate::text::Text;
use vstd::prelude::*;

verus! {

// ---------------------------------------------------------------------------
// Publication
// ---------------------------------------------------------------------------
spec fn inspecting(repo: Text, head: Text, n: int) -> spec_fn(Seq<Reply>) -> FlowView<()> {
    |t: Seq<Reply>| head_unpublished_flow(repo, head, t, n)
}

/// Where the operation stands when it has seen that a commit is unpublished.
pub open spec fn inspected_at(t: Seq<Reply>, n: int) -> int {
    if output_at(t, n + 3).exit_code == Some(0i32) {
        n + 5
    } else {
        n + 4
    }
}

/// The operation was told that no remote-tracking reference contains the
/// commit, and that the upstream branch does not, where there is one.
pub open spec fn head_seen_unpublished<T>(
    operation: spec_fn(Seq<Reply>) -> FlowView<T>,
    t: Seq<Reply>,
    n: int,
    repo: Text,
    head: Text,
) -> bool {
    &&& performed(operation, t, n + 1, repo, Command::ResolveCommit { revision: head })
    &&& performed(
        operation,
        t,
        n + 2,
        repo,
        Command::RemoteRefsContaining { commit: said(t, n + 1) },
    )
    &&& !output_at(t, n + 2).truncated
    &&& listing(output_at(t, n + 2).stdout).len() == 0
    &&& answered(operation, t, n + 3, repo, Command::Upstream)
    &&& output_at(t, n + 3).exit_code == Some(0i32) ==> {
        &&& answered(
            operation,
            t,
            n + 4,
            repo,
            Command::IsAncestor { ancestor: head, descendant: said(t, n + 3) },
        )
        &&& output_at(t, n + 4).exit_code == Some(1i32)
    }
}

#[verifier::rlimit(40)]
proof fn lemma_inspecting_parts(repo: Text, head: Text, t: Seq<Reply>, n: int)
    requires
        0 <= n <= t.len(),
        head_unpublished_flow(repo, head, t, n) is Got,
    ensures
        ({
            let refs = listing(output_at(t, n + 2).stdout);
            let upstream = if output_at(t, n + 3).exit_code == Some(0i32) {
                Some(said(t, n + 3))
            } else {
                None
            };
            &&& resolve_commit_flow(repo, head, t, n) == FlowView::Got(said(t, n + 1), n + 2)
            &&& git_flow(
                repo,
                Command::RemoteRefsContaining { commit: said(t, n + 1) },
                t,
                n + 2,
            ) == FlowView::Got(output_at(t, n + 2), n + 3)
            &&& remote_refs_flow(repo, head, t, n) == FlowView::Got(refs, n + 3)
            &&& refs.len() == 0
            &&& !output_at(t, n + 2).truncated
            &&& upstream_flow(repo, t, n + 3) == FlowView::Got(upstream, n + 4)
            &&& on_upstream_flow(repo, head, upstream, t, n + 4) == FlowView::Got(
                false,
                inspected_at(t, n),
            )
            &&& upstream is Some ==> {
                &&& output_at(t, n + 4).exit_code == Some(1i32)
                &&& t[n + 4] matches Reply::Git(Ok(_))
            }
            &&& inspected_at(t, n) <= t.len()
            &&& head_unpublished_flow(repo, head, t, n) == FlowView::Got((), inspected_at(t, n))
            &&& t[n + 3] matches Reply::Git(Ok(_))
        }),
{
    assert(resolve_commit_flow(repo, head, t, n) == FlowView::Got(said(t, n + 1), n + 2));
}

#[verifier::rlimit(40)]
proof fn lemma_inspecting_resolves(
    repo: Text,
    head: Text,
    t: Seq<Reply>,
    n: int,
)
    requires
        0 <= n <= t.len(),
        head_unpublished_flow(repo, head, t, n) is Got,
    ensures
        performed(
            inspecting(repo, head, n),
            t,
            n + 1,
            repo,
            Command::ResolveCommit { revision: head },
        ),
{
    lemma_inspecting_parts(repo, head, t, n);
    let op = inspecting(repo, head, n);
    let s = t.take(n + 1);
    assert(op(s) == head_unpublished_flow(repo, head, s, n));
    assert(request(resolve_commit_flow(repo, head, s, n)) is Some);
}

#[verifier::rlimit(40)]
proof fn lemma_inspecting_lists(
    repo: Text,
    head: Text,
    t: Seq<Reply>,
    n: int,
)
    requires
        0 <= n <= t.len(),
        head_unpublished_flow(repo, head, t, n) is Got,
    ensures
        performed(
            inspecting(repo, head, n),
            t,
            n + 2,
            repo,
            Command::RemoteRefsContaining { commit: said(t, n + 1) },
        ),
{
    lemma_inspecting_parts(repo, head, t, n);
    let op = inspecting(repo, head, n);
    let s = t.take(n + 2);
    assert(op(s) == head_unpublished_flow(repo, head, s, n));
    assert(agree(t, s, n + 2));
    commit_reads(repo, head, t, s, n);
}

#[verifier::rlimit(40)]
proof fn lemma_inspecting_upstream(
    repo: Text,
    head: Text,
    t: Seq<Reply>,
    n: int,
)
    requires
        0 <= n <= t.len(),
        head_unpublished_flow(repo, head, t, n) is Got,
    ensures
        answered(inspecting(repo, head, n), t, n + 3, repo, Command::Upstream),
{
    lemma_inspecting_parts(repo, head, t, n);
    let op = inspecting(repo, head, n);
    let s = t.take(n + 3);
    assert(op(s) == head_unpublished_flow(repo, head, s, n));
    assert(agree(t, s, n + 3));
    remote_refs_reads(repo, head, t, s, n);
}

#[verifier::rlimit(40)]
proof fn lemma_inspecting_contains(
    repo: Text,
    head: Text,
    t: Seq<Reply>,
    n: int,
)
    requires
        0 <= n <= t.len(),
        head_unpublished_flow(repo, head, t, n) is Got,
        output_at(t, n + 3).exit_code == Some(0i32),
    ensures
        answered(
            inspecting(repo, head, n),
            t,
            n + 4,
            repo,
            Command::IsAncestor { ancestor: head, descendant: said(t, n + 3) },
        ),
{
    lemma_inspecting_parts(repo, head, t, n);
    let op = inspecting(repo, head, n);
    let s = t.take(n + 4);
    assert(op(s) == head_unpublished_flow(repo, head, s, n));
    assert(agree(t, s, n + 3));
    remote_refs_reads(repo, head, t, s, n);
    assert(agree(t, s, n + 4));
    upstream_reads(repo, t, s, n + 3);
}

#[verifier::rlimit(40)]
proof fn lemma_inspected<T>(
    operation: spec_fn(Seq<Reply>) -> FlowView<T>,
    repo: Text,
    head: Text,
    t: Seq<Reply>,
    n: int,
)
    requires
        0 <= n <= t.len(),
        head_unpublished_flow(repo, head, t, n) is Got,
        carries(operation, inspecting(repo, head, n), t, n),
    ensures
        head_seen_unpublished(operation, t, n, repo, head),
        head_unpublished_flow(repo, head, t, n) == FlowView::Got((), inspected_at(t, n)),
        inspected_at(t, n) <= t.len(),
{
    lemma_inspecting_parts(repo, head, t, n);
    lemma_inspecting_resolves(repo, head, t, n);
    lemma_inspecting_lists(repo, head, t, n);
    lemma_inspecting_upstream(repo, head, t, n);
    let op = inspecting(repo, head, n);
    let name = Command::ResolveCommit { revision: head };
    let refs = Command::RemoteRefsContaining { commit: said(t, n + 1) };
    lemma_answered(operation, op, t, n, n + 1, repo, name);
    lemma_answered(operation, op, t, n, n + 2, repo, refs);
    lemma_answered(operation, op, t, n, n + 3, repo, Command::Upstream);
    if output_at(t, n + 3).exit_code == Some(0i32) {
        lemma_inspecting_contains(repo, head, t, n);
        let contains = Command::IsAncestor { ancestor: head, descendant: said(t, n + 3) };
        lemma_answered(operation, op, t, n, n + 4, repo, contains);
    }
}

// ---------------------------------------------------------------------------
// What may be amended
// ---------------------------------------------------------------------------
spec fn qualifying(args: AmendArgsView, head: Text, n: int) -> spec_fn(Seq<Reply>) -> FlowView<
    (Text, SnapshotView),
> {
    |t: Seq<Reply>| amendable_flow(args, head, t, n)
}

#[verifier::rlimit(40)]
proof fn lemma_qualifying_parts(args: AmendArgsView, head: Text, t: Seq<Reply>, n: int)
    requires
        0 <= n <= t.len(),
        amendable_flow(args, head, t, n) is Got,
    ensures
        current_branch_required_flow(args.repo, t, n) == FlowView::Got(said(t, n), n + 1),
        t[n] matches Reply::Git(Ok(_)),
        output_at(t, n).exit_code == Some(0i32),
        said(t, n) != "main"@,
        commit_snapshot_flow(args.repo, head, t, n + 1) == FlowView::Got(
            snapshot_at(t, n + 3),
            n + 4,
        ),
        snapshot_at(t, n + 3).parents.len() == 1,
        args.message matches Some(message) ==> conventional_verdict(message) is Ok,
        args.message is Some || args.include_index,
        head_unpublished_flow(args.repo, head, t, n + 4) is Got,
        amendable_flow(args, head, t, n) == FlowView::Got(
            (said(t, n), snapshot_at(t, n + 3)),
            head_unpublished_flow(args.repo, head, t, n + 4)->Got_1,
        ),
        n + 4 <= t.len(),
{
    lemma_commit_read(args.repo, head, t, n + 1);
}

#[verifier::rlimit(40)]
proof fn lemma_qualifying_branch(
    args: AmendArgsView,
    head: Text,
    t: Seq<Reply>,
    n: int,
)
    requires
        0 <= n <= t.len(),
        amendable_flow(args, head, t, n) is Got,
    ensures
        performed(qualifying(args, head, n), t, n, args.repo, Command::CurrentBranch),
{
    lemma_qualifying_parts(args, head, t, n);
    let op = qualifying(args, head, n);
    let s = t.take(n);
    assert(op(s) == amendable_flow(args, head, s, n));
}

#[verifier::rlimit(40)]
proof fn lemma_qualifying_reads(
    args: AmendArgsView,
    head: Text,
    t: Seq<Reply>,
    n: int,
)
    requires
        0 <= n <= t.len(),
        amendable_flow(args, head, t, n) is Got,
    ensures
        carries(qualifying(args, head, n), reading(args.repo, head, n + 1), t, n + 1),
{
    lemma_qualifying_parts(args, head, t, n);
    let op = qualifying(args, head, n);
    let part = reading(args.repo, head, n + 1);
    assert forall|p: int|
        n + 1 <= p <= t.len() && request(part(#[trigger] t.take(p))) is Some implies request(
        op(t.take(p)),
    ) == request(part(t.take(p))) by {
        let s = t.take(p);
        assert(op(s) == amendable_flow(args, head, s, n));
        assert(agree(t, s, n + 1));
        required_branch_reads(args.repo, t, s, n);
        assert(part(s) == commit_snapshot_flow(args.repo, head, s, n + 1));
    }
}

#[verifier::rlimit(40)]
proof fn lemma_qualifying_inspects(
    args: AmendArgsView,
    head: Text,
    t: Seq<Reply>,
    n: int,
)
    requires
        0 <= n <= t.len(),
        amendable_flow(args, head, t, n) is Got,
    ensures
        carries(qualifying(args, head, n), inspecting(args.repo, head, n + 4), t, n + 4),
{
    lemma_qualifying_parts(args, head, t, n);
    let op = qualifying(args, head, n);
    let part = inspecting(args.repo, head, n + 4);
    assert forall|p: int|
        n + 4 <= p <= t.len() && request(part(#[trigger] t.take(p))) is Some implies request(
        op(t.take(p)),
    ) == request(part(t.take(p))) by {
        let s = t.take(p);
        assert(op(s) == amendable_flow(args, head, s, n));
        assert(agree(t, s, n + 1));
        required_branch_reads(args.repo, t, s, n);
        assert(agree(t, s, n + 4));
        snapshot_reads(args.repo, head, t, s, n + 1);
        assert(part(s) == head_unpublished_flow(args.repo, head, s, n + 4));
    }
}

/// What the operation was told of the commit to amend: it is on a branch other
/// than the trunk, has one parent, and is unpublished.
pub open spec fn amendable_told<T>(
    operation: spec_fn(Seq<Reply>) -> FlowView<T>,
    t: Seq<Reply>,
    n: int,
    repo: Text,
    head: Text,
    branch: Text,
) -> bool {
    &&& performed(operation, t, n, repo, Command::CurrentBranch)
    &&& said(t, n) == branch
    &&& branch != "main"@
    &&& commit_read(operation, t, n + 3, repo, head)
    &&& snapshot_at(t, n + 3).parents.len() == 1
    &&& head_seen_unpublished(operation, t, n + 4, repo, head)
}

#[verifier::rlimit(40)]
proof fn lemma_qualified<T>(
    operation: spec_fn(Seq<Reply>) -> FlowView<T>,
    args: AmendArgsView,
    head: Text,
    t: Seq<Reply>,
    n: int,
)
    requires
        0 <= n <= t.len(),
        amendable_flow(args, head, t, n) is Got,
        carries(operation, qualifying(args, head, n), t, n),
    ensures
        amendable_told(operation, t, n, args.repo, head, said(t, n)),
        amendable_flow(args, head, t, n) == FlowView::Got(
            (said(t, n), snapshot_at(t, n + 3)),
            inspected_at(t, n + 4),
        ),
        inspected_at(t, n + 4) <= t.len(),
{
    lemma_qualifying_parts(args, head, t, n);
    lemma_qualifying_branch(args, head, t, n);
    lemma_qualifying_reads(args, head, t, n);
    lemma_qualifying_inspects(args, head, t, n);
    let op = qualifying(args, head, n);
    lemma_answered(operation, op, t, n, n, args.repo, Command::CurrentBranch);
    lemma_commit_read(args.repo, head, t, n + 1);
    let one = reading(args.repo, head, n + 1);
    lemma_carried(operation, op, one, t, n, n + 1);
    lemma_commit_read_by(operation, one, t, n + 1, n + 3, args.repo, head);
    let two = inspecting(args.repo, head, n + 4);
    lemma_carried(operation, op, two, t, n, n + 4);
    lemma_inspected(operation, args.repo, head, t, n + 4);
}

// ---------------------------------------------------------------------------
// The new commit
// ---------------------------------------------------------------------------
spec fn replacing(args: AmendArgsView, head: Text, n: int) -> spec_fn(Seq<Reply>) -> FlowView<
    AmendView,
> {
    |t: Seq<Reply>| amend_from_flow(args, head, t, n)
}

/// Where the new commit is made: after the tree of the index was written, where
/// it is to go into the commit.
pub open spec fn made_at(args: AmendArgsView, t: Seq<Reply>, n: int) -> int {
    if args.include_index {
        inspected_at(t, n + 4) + 1
    } else {
        inspected_at(t, n + 4)
    }
}

/// The tree of the new commit: that of the index where it is to go into the
/// commit, and otherwise the one that the commit had.
pub open spec fn new_tree(args: AmendArgsView, t: Seq<Reply>, n: int) -> Text {
    if args.include_index {
        said(t, inspected_at(t, n + 4))
    } else {
        snapshot_at(t, n + 3).tree
    }
}

/// The message of the new commit: the one given, and otherwise the whole one
/// that the commit had.
pub open spec fn new_message(args: AmendArgsView, t: Seq<Reply>, n: int) -> Text {
    match args.message {
        Some(message) => message,
        None => snapshot_at(t, n + 3).message,
    }
}

/// What the operation made: a commit on the same parent, of the same author,
/// with the new tree and message, to which the branch was moved from the old
/// one.
pub open spec fn amended<T>(
    operation: spec_fn(Seq<Reply>) -> FlowView<T>,
    t: Seq<Reply>,
    n: int,
    args: AmendArgsView,
    head: Text,
    done: AmendView,
) -> bool {
    let of = snapshot_at(t, n + 3);
    let k = made_at(args, t, n);
    &&& args.include_index ==> performed(operation, t, k - 1, args.repo, Command::WriteTree)
    &&& commit_made(
        operation,
        t,
        k,
        args.repo,
        of,
        new_tree(args, t, n),
        of.parents[0],
        new_message(args, t, n),
    )
    &&& done.new_head == said(t, k)
    &&& done.new_head != head
    &&& performed(
        operation,
        t,
        k + 1,
        args.repo,
        Command::UpdateRef {
            reference: "refs/heads/"@ + done.branch,
            new: done.new_head,
            old: head,
        },
    )
    &&& performed(operation, t, k + 2, args.repo, Command::ShortStatus)
    &&& done.status == output_at(t, k + 2).stdout
}

#[verifier::rlimit(40)]
proof fn lemma_replacing_parts(args: AmendArgsView, head: Text, t: Seq<Reply>, n: int)
    requires
        0 <= n <= t.len(),
        amend_from_flow(args, head, t, n) is Got,
    ensures
        ({
            let of = snapshot_at(t, n + 3);
            let b = inspected_at(t, n + 4);
            let k = made_at(args, t, n);
            let done = amend_from_flow(args, head, t, n)->Got_0;
            &&& amendable_flow(args, head, t, n) == FlowView::Got((said(t, n), of), b)
            &&& b <= t.len()
            &&& amended_tree_flow(args, of, t, b) == FlowView::Got(new_tree(args, t, n), k)
            &&& args.include_index ==> git_flow(args.repo, Command::WriteTree, t, b)
                == FlowView::Got(output_at(t, b), b + 1)
            &&& create_commit_flow(
                args.repo,
                of,
                new_tree(args, t, n),
                of.parents[0],
                new_message(args, t, n),
                t,
                k,
            ) == FlowView::Got(done.new_head, k + 1)
            &&& done.new_head == said(t, k)
            &&& done.new_head != head
            &&& update_branch_flow(args.repo, said(t, n), done.new_head, head, t, k + 1)
                == FlowView::Got((), k + 2)
            &&& output_at(t, k + 1).exit_code == Some(0i32)
            &&& t[k + 1] matches Reply::Git(Ok(_))
            &&& short_status_flow(args.repo, t, k + 2) == FlowView::Got(done.status, k + 3)
            &&& output_at(t, k + 2).exit_code == Some(0i32)
            &&& t[k + 2] matches Reply::Git(Ok(_))
            &&& done.status == output_at(t, k + 2).stdout
            &&& k + 3 <= t.len()
            &&& done.branch == said(t, n)
            &&& done.old_head == head
            &&& done.operation == "amend_commit"@
        }),
{
    let of = snapshot_at(t, n + 3);
    lemma_qualifying_parts(args, head, t, n);
    lemma_inspecting_parts(args.repo, head, t, n + 4);
    let b = inspected_at(t, n + 4);
    let k = made_at(args, t, n);
    assert(amended_tree_flow(args, of, t, b) == FlowView::Got(new_tree(args, t, n), k));
    assert(amended_message(args, of) == new_message(args, t, n));
    lemma_commit_made(
        args.repo,
        of,
        new_tree(args, t, n),
        of.parents[0],
        new_message(args, t, n),
        t,
        k,
    );
}

#[verifier::rlimit(40)]
proof fn lemma_replacing_qualifies(
    args: AmendArgsView,
    head: Text,
    t: Seq<Reply>,
    n: int,
)
    requires
        0 <= n <= t.len(),
        amend_from_flow(args, head, t, n) is Got,
    ensures
        carries(replacing(args, head, n), qualifying(args, head, n), t, n),
{
    lemma_replacing_parts(args, head, t, n);
    let op = replacing(args, head, n);
    let part = qualifying(args, head, n);
    assert forall|p: int|
        n <= p <= t.len() && request(part(#[trigger] t.take(p))) is Some implies request(
        op(t.take(p)),
    ) == request(part(t.take(p))) by {
        let s = t.take(p);
        assert(op(s) == amend_from_flow(args, head, s, n));
        assert(part(s) == amendable_flow(args, head, s, n));
    }
}

#[verifier::rlimit(40)]
proof fn lemma_replacing_writes(
    args: AmendArgsView,
    head: Text,
    t: Seq<Reply>,
    n: int,
)
    requires
        0 <= n <= t.len(),
        amend_from_flow(args, head, t, n) is Got,
        args.include_index,
    ensures
        performed(
            replacing(args, head, n),
            t,
            inspected_at(t, n + 4),
            args.repo,
            Command::WriteTree,
        ),
{
    lemma_replacing_parts(args, head, t, n);
    let of = snapshot_at(t, n + 3);
    let b = inspected_at(t, n + 4);
    let k = made_at(args, t, n);
    let tree = new_tree(args, t, n);
    let message = new_message(args, t, n);
    let done = amend_from_flow(args, head, t, n)->Got_0;
    let op = replacing(args, head, n);
    let s = t.take(inspected_at(t, n + 4));
    assert(op(s) == amend_from_flow(args, head, s, n));
    assert(agree(t, s, b));
    amendable_reads(args, head, t, s, n);
}

#[verifier::rlimit(40)]
proof fn lemma_replacing_makes(
    args: AmendArgsView,
    head: Text,
    t: Seq<Reply>,
    n: int,
)
    requires
        0 <= n <= t.len(),
        amend_from_flow(args, head, t, n) is Got,
    ensures
        carries(
            replacing(args, head, n),
            making(
                args.repo,
                snapshot_at(t, n + 3),
                new_tree(args, t, n),
                snapshot_at(t, n + 3).parents[0],
                new_message(args, t, n),
                made_at(args, t, n),
            ),
            t,
            made_at(args, t, n),
        ),
{
    lemma_replacing_parts(args, head, t, n);
    let of = snapshot_at(t, n + 3);
    let b = inspected_at(t, n + 4);
    let k = made_at(args, t, n);
    let tree = new_tree(args, t, n);
    let message = new_message(args, t, n);
    let done = amend_from_flow(args, head, t, n)->Got_0;
    let op = replacing(args, head, n);
    let part = making(args.repo, of, tree, of.parents[0], message, k);
    assert forall|p: int|
        k <= p <= t.len() && request(part(#[trigger] t.take(p))) is Some implies request(
        op(t.take(p)),
    ) == request(part(t.take(p))) by {
        let s = t.take(p);
        assert(op(s) == amend_from_flow(args, head, s, n));
        assert(agree(t, s, b));
        amendable_reads(args, head, t, s, n);
        assert(agree(t, s, k));
        amended_tree_reads(args, of, t, s, b);
        assert(part(s) == create_commit_flow(args.repo, of, tree, of.parents[0], message, s, k));
        assert(amended_message(args, of) == message);
    }
}

#[verifier::rlimit(40)]
proof fn lemma_replacing_moves(
    args: AmendArgsView,
    head: Text,
    t: Seq<Reply>,
    n: int,
)
    requires
        0 <= n <= t.len(),
        amend_from_flow(args, head, t, n) is Got,
    ensures
        performed(replacing(args, head, n), t, made_at(args, t, n) + 1, args.repo, Command::UpdateRef {
            reference: "refs/heads/"@ + said(t, n),
            new: said(t, made_at(args, t, n)),
            old: head,
        }),
{
    lemma_replacing_parts(args, head, t, n);
    let of = snapshot_at(t, n + 3);
    let b = inspected_at(t, n + 4);
    let k = made_at(args, t, n);
    let tree = new_tree(args, t, n);
    let message = new_message(args, t, n);
    let done = amend_from_flow(args, head, t, n)->Got_0;
    let op = replacing(args, head, n);
    let s = t.take(made_at(args, t, n) + 1);
    assert(op(s) == amend_from_flow(args, head, s, n));
    assert(agree(t, s, b));
    amendable_reads(args, head, t, s, n);
    assert(agree(t, s, k));
    amended_tree_reads(args, of, t, s, b);
    assert(agree(t, s, k + 1));
    new_commit_reads(args.repo, of, tree, of.parents[0], message, t, s, k);
    assert(amended_message(args, of) == message);
}

#[verifier::rlimit(40)]
proof fn lemma_replacing_reports(
    args: AmendArgsView,
    head: Text,
    t: Seq<Reply>,
    n: int,
)
    requires
        0 <= n <= t.len(),
        amend_from_flow(args, head, t, n) is Got,
    ensures
        performed(
            replacing(args, head, n),
            t,
            made_at(args, t, n) + 2,
            args.repo,
            Command::ShortStatus,
        ),
{
    lemma_replacing_parts(args, head, t, n);
    let of = snapshot_at(t, n + 3);
    let b = inspected_at(t, n + 4);
    let k = made_at(args, t, n);
    let tree = new_tree(args, t, n);
    let message = new_message(args, t, n);
    let done = amend_from_flow(args, head, t, n)->Got_0;
    let op = replacing(args, head, n);
    let s = t.take(made_at(args, t, n) + 2);
    assert(op(s) == amend_from_flow(args, head, s, n));
    assert(agree(t, s, b));
    amendable_reads(args, head, t, s, n);
    assert(agree(t, s, k));
    amended_tree_reads(args, of, t, s, b);
    assert(agree(t, s, k + 1));
    new_commit_reads(args.repo, of, tree, of.parents[0], message, t, s, k);
    assert(agree(t, s, k + 2));
    update_reads(args.repo, said(t, n), done.new_head, head, t, s, k + 1);
    assert(amended_message(args, of) == message);
}

#[verifier::rlimit(40)]
proof fn lemma_amended<T>(
    operation: spec_fn(Seq<Reply>) -> FlowView<T>,
    args: AmendArgsView,
    head: Text,
    t: Seq<Reply>,
    n: int,
)
    requires
        0 <= n <= t.len(),
        amend_from_flow(args, head, t, n) is Got,
        carries(operation, replacing(args, head, n), t, n),
    ensures
        amended(operation, t, n, args, head, amend_from_flow(args, head, t, n)->Got_0),
        amendable_told(operation, t, n, args.repo, head, said(t, n)),
{
    lemma_replacing_parts(args, head, t, n);
    lemma_replacing_qualifies(args, head, t, n);
    lemma_replacing_makes(args, head, t, n);
    lemma_replacing_moves(args, head, t, n);
    lemma_replacing_reports(args, head, t, n);
    let op = replacing(args, head, n);
    let of = snapshot_at(t, n + 3);
    let k = made_at(args, t, n);
    let tree = new_tree(args, t, n);
    let message = new_message(args, t, n);
    lemma_carried(operation, op, qualifying(args, head, n), t, n, n);
    lemma_qualified(operation, args, head, t, n);
    if args.include_index {
        lemma_replacing_writes(args, head, t, n);
        lemma_answered(operation, op, t, n, k - 1, args.repo, Command::WriteTree);
    }
    let part = making(args.repo, of, tree, of.parents[0], message, k);
    lemma_carried(operation, op, part, t, n, k);
    lemma_commit_made(args.repo, of, tree, of.parents[0], message, t, k);
    let new = Command::CommitTree {
        tree,
        parent: of.parents[0],
        message,
        author_name: of.author_name,
        author_email: of.author_email,
        author_date: of.author_date,
        committer_name: of.committer_name,
        committer_email: of.committer_email,
        committer_date: of.committer_date,
    };
    lemma_answered(operation, part, t, k, k, args.repo, new);
    let moved = Command::UpdateRef {
        reference: "refs/heads/"@ + said(t, n),
        new: said(t, k),
        old: head,
    };
    lemma_answered(operation, op, t, n, k + 1, args.repo, moved);
    lemma_answered(operation, op, t, n, k + 2, args.repo, Command::ShortStatus);
}

// ---------------------------------------------------------------------------
// The law
// ---------------------------------------------------------------------------
/// Amending, as an operation.
pub open spec fn amending(server: GitServer, args: AmendArgsView) -> spec_fn(
    Seq<Reply>,
) -> FlowView<RewriteOutcome<AmendView, RewriteFailureView>> {
    |t: Seq<Reply>| amend_flow(server, args, t, 0)
}

#[verifier::rlimit(40)]
proof fn lemma_amending_carries(server: GitServer, args: AmendArgsView, t: Seq<Reply>)
    requires
        amend_flow(server, args, t, 0) is Got,
        amend_flow(server, args, t, 0)->Got_0 is Done,
    ensures
        ({
            let head = said(t, 0);
            &&& !server.read_only
            &&& performed(amending(server, args), t, 0, args.repo, Command::HeadCommit)
            &&& amend_from_flow(args, head, t, 1) matches FlowView::Got(done, _)
            &&& amend_flow(server, args, t, 0)->Got_0 == RewriteOutcome::<
                AmendView,
                RewriteFailureView,
            >::Done(done)
            &&& carries(amending(server, args), replacing(args, head, 1), t, 1)
            &&& t.len() >= 1
        }),
{
    let op = amending(server, args);
    let head = said(t, 0);
    assert(head_sha_flow(args.repo, t, 0) == FlowView::Got(head, 1));
    assert(op(t.take(0)) == amend_flow(server, args, t.take(0), 0));
    let part = replacing(args, head, 1);
    assert forall|p: int|
        1 <= p <= t.len() && request(part(#[trigger] t.take(p))) is Some implies request(
        op(t.take(p)),
    ) == request(part(t.take(p))) by {
        let s = t.take(p);
        assert(op(s) == amend_flow(server, args, s, 0));
        assert(agree(t, s, 1));
        head_reads(args.repo, t, s, 0);
        assert(part(s) == amend_from_flow(args, head, s, 1));
    }
}

/// Where an amendment is done, its result says what was asked for and told: the
/// commit at `HEAD` of a branch other than the trunk, with one parent and
/// unpublished; the tree of the index, where it is to go into the commit; and a
/// new commit on that parent, of the same author, with the message given or
/// else the whole message read, and with the new tree or else the one read, to
/// which the branch was moved from the old commit.
#[verifier::rlimit(40)]
pub proof fn law_amend_replaces_head(server: GitServer, args: AmendArgsView, t: Seq<Reply>)
    requires
        amend_flow(server, args, t, 0) is Got,
        amend_flow(server, args, t, 0)->Got_0 is Done,
    ensures
        ({
            let op = amending(server, args);
            let done = amend_flow(server, args, t, 0)->Got_0->Done_0;
            &&& !server.read_only
            &&& args.message is Some || args.include_index
            &&& args.message matches Some(message) ==> conventional_verdict(message) is Ok
            &&& performed(op, t, 0, args.repo, Command::HeadCommit)
            &&& done.old_head == said(t, 0)
            &&& amendable_told(op, t, 1, args.repo, done.old_head, done.branch)
            &&& amended(op, t, 1, args, done.old_head, done)
            &&& done.operation == "amend_commit"@
        }),
{
    lemma_amending_carries(server, args, t);
    let head = said(t, 0);
    lemma_replacing_parts(args, head, t, 1);
    lemma_qualifying_parts(args, head, t, 1);
    lemma_amended(amending(server, args), args, head, t, 1);
}

} // verus!
