//! What taking back a merge comes to, held against what was asked and told.
use crate::command::Command;
use crate::dialogue::{
    carries, commit_read, lemma_answered, lemma_carried, lemma_commit_read_by, output_at,
    performed, request, said, snapshot_at,
};
use crate::extent::{
    agree, commit_reads, dirtiness_reads, git_reads, head_reads, merge_publication_reads,
    required_branch_reads, rewindable_reads, verification_reads,
};
use crate::flow::{git_flow, FlowView, Reply};
use crate::publication::{
    merge_publication, merge_unpublished_flow, rewind_flow, rewind_from_flow, rewind_to_flow,
    rewindable_flow, verify_unpublished_flow, PublicationGuard, RewindArgsView, RewoundView,
};
use crate::queries::{
    current_branch_required_flow, head_sha_flow, is_dirty_flow, listing, resolve_commit_flow,
    short_status_flow,
};
use crate::replaying::{lemma_commit_read, reading};
use crate::rewrite::{RewriteFailureView, RewriteOutcome};
use crate::server::GitServer;
use crate::snapshot::{commit_snapshot_flow, SnapshotView};
use crate::text::Text;
use crate::verifying::{commits_seen, law_verification_checks_all, remote_of, verifying};
use vstd::prelude::*;

verus! {

// ---------------------------------------------------------------------------
// What may be taken back
// ---------------------------------------------------------------------------
spec fn qualifying(args: RewindArgsView, head: Text, n: int) -> spec_fn(Seq<Reply>) -> FlowView<
    (Text, SnapshotView),
> {
    |t: Seq<Reply>| rewindable_flow(args, head, t, n)
}

/// What the operation was told of the merge: it is the one expected, nothing is
/// changed locally, it is on a branch, and it has two parents.
pub open spec fn merge_told<T>(
    operation: spec_fn(Seq<Reply>) -> FlowView<T>,
    t: Seq<Reply>,
    n: int,
    args: RewindArgsView,
    head: Text,
    branch: Text,
) -> bool {
    &&& performed(
        operation,
        t,
        n + 1,
        args.repo,
        Command::ResolveCommit { revision: args.expected_merge },
    )
    &&& said(t, n + 1) == head
    &&& performed(operation, t, n + 2, args.repo, Command::PorcelainStatus)
    &&& output_at(t, n + 2).stdout.len() == 0
    &&& performed(operation, t, n + 3, args.repo, Command::CurrentBranch)
    &&& said(t, n + 3) == branch
    &&& commit_read(operation, t, n + 6, args.repo, head)
    &&& snapshot_at(t, n + 6).parents.len() == 2
}

#[verifier::rlimit(40)]
proof fn lemma_qualifying_parts(args: RewindArgsView, head: Text, t: Seq<Reply>, n: int)
    requires
        0 <= n <= t.len(),
        rewindable_flow(args, head, t, n) is Got,
    ensures
        resolve_commit_flow(args.repo, args.expected_merge, t, n) == FlowView::Got(head, n + 2),
        said(t, n + 1) == head,
        is_dirty_flow(args.repo, t, n + 2) == FlowView::Got(false, n + 3),
        output_at(t, n + 2).stdout.len() == 0,
        output_at(t, n + 2).exit_code == Some(0i32),
        t[n + 2] matches Reply::Git(Ok(_)),
        current_branch_required_flow(args.repo, t, n + 3) == FlowView::Got(said(t, n + 3), n + 4),
        output_at(t, n + 3).exit_code == Some(0i32),
        t[n + 3] matches Reply::Git(Ok(_)),
        commit_snapshot_flow(args.repo, head, t, n + 4) == FlowView::Got(
            snapshot_at(t, n + 6),
            n + 7,
        ),
        snapshot_at(t, n + 6).parents.len() == 2,
        rewindable_flow(args, head, t, n) == FlowView::Got(
            (said(t, n + 3), snapshot_at(t, n + 6)),
            n + 7,
        ),
        n + 7 <= t.len(),
        output_at(t, n + 1).exit_code == Some(0i32),
        t[n + 1] matches Reply::Git(Ok(_)),
{
    assert(resolve_commit_flow(args.repo, args.expected_merge, t, n) == FlowView::Got(
        said(t, n + 1),
        n + 2,
    ));
    lemma_commit_read(args.repo, head, t, n + 4);
}

#[verifier::rlimit(40)]
proof fn lemma_qualifying_resolves(
    args: RewindArgsView,
    head: Text,
    t: Seq<Reply>,
    n: int,
)
    requires
        0 <= n <= t.len(),
        rewindable_flow(args, head, t, n) is Got,
    ensures
        performed(
            qualifying(args, head, n),
            t,
            n + 1,
            args.repo,
            Command::ResolveCommit { revision: args.expected_merge },
        ),
{
    lemma_qualifying_parts(args, head, t, n);
    let op = qualifying(args, head, n);
    let s = t.take(n + 1);
    assert(op(s) == rewindable_flow(args, head, s, n));
    assert(request(resolve_commit_flow(args.repo, args.expected_merge, s, n)) is Some);
}

#[verifier::rlimit(40)]
proof fn lemma_qualifying_status(
    args: RewindArgsView,
    head: Text,
    t: Seq<Reply>,
    n: int,
)
    requires
        0 <= n <= t.len(),
        rewindable_flow(args, head, t, n) is Got,
    ensures
        performed(qualifying(args, head, n), t, n + 2, args.repo, Command::PorcelainStatus),
{
    lemma_qualifying_parts(args, head, t, n);
    let op = qualifying(args, head, n);
    let s = t.take(n + 2);
    assert(op(s) == rewindable_flow(args, head, s, n));
    assert(agree(t, s, n + 2));
    commit_reads(args.repo, args.expected_merge, t, s, n);
}

#[verifier::rlimit(40)]
proof fn lemma_qualifying_branch(
    args: RewindArgsView,
    head: Text,
    t: Seq<Reply>,
    n: int,
)
    requires
        0 <= n <= t.len(),
        rewindable_flow(args, head, t, n) is Got,
    ensures
        performed(qualifying(args, head, n), t, n + 3, args.repo, Command::CurrentBranch),
{
    lemma_qualifying_parts(args, head, t, n);
    let op = qualifying(args, head, n);
    let s = t.take(n + 3);
    assert(op(s) == rewindable_flow(args, head, s, n));
    assert(agree(t, s, n + 2));
    commit_reads(args.repo, args.expected_merge, t, s, n);
    assert(agree(t, s, n + 3));
    dirtiness_reads(args.repo, t, s, n + 2);
}

#[verifier::rlimit(40)]
proof fn lemma_qualifying_reads(
    args: RewindArgsView,
    head: Text,
    t: Seq<Reply>,
    n: int,
)
    requires
        0 <= n <= t.len(),
        rewindable_flow(args, head, t, n) is Got,
    ensures
        carries(qualifying(args, head, n), reading(args.repo, head, n + 4), t, n + 4),
{
    lemma_qualifying_parts(args, head, t, n);
    let op = qualifying(args, head, n);
    let part = reading(args.repo, head, n + 4);
    assert forall|p: int|
        n + 4 <= p <= t.len() && request(part(#[trigger] t.take(p))) is Some implies request(
        op(t.take(p)),
    ) == request(part(t.take(p))) by {
        let s = t.take(p);
        assert(op(s) == rewindable_flow(args, head, s, n));
        assert(agree(t, s, n + 2));
        commit_reads(args.repo, args.expected_merge, t, s, n);
        assert(agree(t, s, n + 3));
        dirtiness_reads(args.repo, t, s, n + 2);
        assert(agree(t, s, n + 4));
        required_branch_reads(args.repo, t, s, n + 3);
        assert(part(s) == commit_snapshot_flow(args.repo, head, s, n + 4));
    }
}

#[verifier::rlimit(40)]
proof fn lemma_merge_told<T>(
    operation: spec_fn(Seq<Reply>) -> FlowView<T>,
    args: RewindArgsView,
    head: Text,
    t: Seq<Reply>,
    n: int,
)
    requires
        0 <= n <= t.len(),
        rewindable_flow(args, head, t, n) is Got,
        carries(operation, qualifying(args, head, n), t, n),
    ensures
        merge_told(operation, t, n, args, head, said(t, n + 3)),
{
    lemma_qualifying_parts(args, head, t, n);
    lemma_qualifying_resolves(args, head, t, n);
    lemma_qualifying_status(args, head, t, n);
    lemma_qualifying_branch(args, head, t, n);
    lemma_qualifying_reads(args, head, t, n);
    let op = qualifying(args, head, n);
    let expected = Command::ResolveCommit { revision: args.expected_merge };
    lemma_answered(operation, op, t, n, n + 1, args.repo, expected);
    lemma_answered(operation, op, t, n, n + 2, args.repo, Command::PorcelainStatus);
    lemma_answered(operation, op, t, n, n + 3, args.repo, Command::CurrentBranch);
    let part = reading(args.repo, head, n + 4);
    lemma_carried(operation, op, part, t, n, n + 4);
    lemma_commit_read(args.repo, head, t, n + 4);
    lemma_commit_read_by(operation, part, t, n + 4, n + 6, args.repo, head);
}

// ---------------------------------------------------------------------------
// Publication
// ---------------------------------------------------------------------------
spec fn guarding(server: GitServer, args: RewindArgsView, head: Text, n: int) -> spec_fn(
    Seq<Reply>,
) -> FlowView<()> {
    |t: Seq<Reply>| merge_unpublished_flow(server, args, head, t, n)
}

/// Where the remote is to be asked, the operation was told that it has no branch
/// that contains the merge, and that `HEAD` was still at the merge afterwards.
pub open spec fn guard_told<T>(
    operation: spec_fn(Seq<Reply>) -> FlowView<T>,
    t: Seq<Reply>,
    n: int,
    args: RewindArgsView,
    head: Text,
) -> bool {
    let remote = match args.remote {
        Some(remote) => remote,
        None => "origin"@,
    };
    &&& performed(operation, t, n, args.repo, Command::RemoteUrl { remote })
    &&& performed(operation, t, n + 2, args.repo, Command::ResolveCommit { revision: head })
    &&& performed(operation, t, n + 3, args.repo, Command::FetchTags { remote })
    &&& performed(
        operation,
        t,
        n + 4,
        args.repo,
        Command::RemoteRefsOf { remote, commit: said(t, n + 2) },
    )
    &&& listing(output_at(t, n + 4).stdout).len() == 0
    &&& performed(operation, t, n + 5, args.repo, Command::HeadCommit)
    &&& said(t, n + 5) == head
}

#[verifier::rlimit(40)]
proof fn lemma_guard_parts(
    server: GitServer,
    args: RewindArgsView,
    head: Text,
    t: Seq<Reply>,
    n: int,
)
    requires
        0 <= n <= t.len(),
        merge_unpublished_flow(server, args, head, t, n) is Got,
        args.publication_guard == PublicationGuard::VerifyRemote,
    ensures
        ({
            let asked = merge_publication(args, head);
            let op = verifying(server, asked, n);
            let remote = remote_of(asked);
            &&& verify_unpublished_flow(server, asked, t, n) is Got
            &&& verify_unpublished_flow(server, asked, t, n)->Got_1 == n + 5
            &&& head_sha_flow(args.repo, t, n + 5) == FlowView::Got(head, n + 6)
            &&& said(t, n + 5) == head
            &&& output_at(t, n + 5).exit_code == Some(0i32)
            &&& t[n + 5] matches Reply::Git(Ok(_))
            &&& merge_unpublished_flow(server, args, head, t, n) == FlowView::Got((), n + 6)
            &&& n + 6 <= t.len()
            &&& performed(op, t, n, args.repo, Command::RemoteUrl { remote })
            &&& performed(op, t, n + 2, args.repo, Command::ResolveCommit { revision: head })
            &&& performed(op, t, n + 3, args.repo, Command::FetchTags { remote })
            &&& performed(
                op,
                t,
                n + 4,
                args.repo,
                Command::RemoteRefsOf { remote, commit: said(t, n + 2) },
            )
            &&& listing(output_at(t, n + 4).stdout).len() == 0
        }),
{
    let asked = merge_publication(args, head);
    let op = verifying(server, asked, n);
    law_verification_checks_all(server, asked, t, n);
    let done = verify_unpublished_flow(server, asked, t, n)->Got_0;
    assert(asked.commits.len() == 1 && asked.tags.len() == 0);
    assert(asked.commits[0] == head);
    assert(done.commits_checked[0] == said(t, n + 2));
    let seen = commits_seen(t, n + 4, done.commits_checked);
    assert(seen[0].refs.len() == 0);
}

#[verifier::rlimit(40)]
proof fn lemma_guard_carries(
    server: GitServer,
    args: RewindArgsView,
    head: Text,
    t: Seq<Reply>,
    n: int,
)
    requires
        0 <= n <= t.len(),
        merge_unpublished_flow(server, args, head, t, n) is Got,
        args.publication_guard == PublicationGuard::VerifyRemote,
    ensures
        carries(
            guarding(server, args, head, n),
            verifying(server, merge_publication(args, head), n),
            t,
            n,
        ),
        performed(
            guarding(server, args, head, n),
            t,
            n + 5,
            args.repo,
            Command::HeadCommit,
        ),
{
    lemma_guard_parts(server, args, head, t, n);
    let asked = merge_publication(args, head);
    let op = guarding(server, args, head, n);
    let part = verifying(server, asked, n);
    assert forall|p: int|
        n <= p <= t.len() && request(part(#[trigger] t.take(p))) is Some implies request(
        op(t.take(p)),
    ) == request(part(t.take(p))) by {
        let s = t.take(p);
        assert(op(s) == merge_unpublished_flow(server, args, head, s, n));
        assert(part(s) == verify_unpublished_flow(server, asked, s, n));
    }
    let s = t.take(n + 5);
    assert(op(s) == merge_unpublished_flow(server, args, head, s, n));
    assert(agree(t, s, n + 5));
    verification_reads(server, asked, t, s, n);
}

#[verifier::rlimit(40)]
proof fn lemma_guard_told<T>(
    operation: spec_fn(Seq<Reply>) -> FlowView<T>,
    server: GitServer,
    args: RewindArgsView,
    head: Text,
    t: Seq<Reply>,
    n: int,
)
    requires
        0 <= n <= t.len(),
        merge_unpublished_flow(server, args, head, t, n) is Got,
        args.publication_guard == PublicationGuard::VerifyRemote,
        carries(operation, guarding(server, args, head, n), t, n),
    ensures
        guard_told(operation, t, n, args, head),
{
    lemma_guard_parts(server, args, head, t, n);
    lemma_guard_carries(server, args, head, t, n);
    let asked = merge_publication(args, head);
    let op = guarding(server, args, head, n);
    let part = verifying(server, asked, n);
    let remote = remote_of(asked);
    lemma_carried(operation, op, part, t, n, n);
    let name = Command::ResolveCommit { revision: head };
    let refs = Command::RemoteRefsOf { remote, commit: said(t, n + 2) };
    lemma_answered(operation, part, t, n, n, args.repo, Command::RemoteUrl { remote });
    lemma_answered(operation, part, t, n, n + 2, args.repo, name);
    lemma_answered(operation, part, t, n, n + 3, args.repo, Command::FetchTags { remote });
    lemma_answered(operation, part, t, n, n + 4, args.repo, refs);
    lemma_answered(operation, op, t, n, n + 5, args.repo, Command::HeadCommit);
}

// ---------------------------------------------------------------------------
// The way back
// ---------------------------------------------------------------------------
spec fn returning(repo: Text, first_parent: Text, n: int) -> spec_fn(Seq<Reply>) -> FlowView<
    (Text, Text),
> {
    |t: Seq<Reply>| rewind_to_flow(repo, first_parent, t, n)
}

/// What the operation did to go back: it reset to the commit, keeping local
/// changes, and was told that `HEAD` is there and that nothing is changed.
pub open spec fn returned<T>(
    operation: spec_fn(Seq<Reply>) -> FlowView<T>,
    t: Seq<Reply>,
    n: int,
    repo: Text,
    target: Text,
    status: Text,
) -> bool {
    &&& performed(operation, t, n, repo, Command::ResetKeep { target })
    &&& performed(operation, t, n + 1, repo, Command::HeadCommit)
    &&& said(t, n + 1) == target
    &&& performed(operation, t, n + 2, repo, Command::PorcelainStatus)
    &&& output_at(t, n + 2).stdout.len() == 0
    &&& performed(operation, t, n + 3, repo, Command::ShortStatus)
    &&& status == output_at(t, n + 3).stdout
}

#[verifier::rlimit(40)]
proof fn lemma_returned<T>(
    operation: spec_fn(Seq<Reply>) -> FlowView<T>,
    repo: Text,
    target: Text,
    t: Seq<Reply>,
    n: int,
)
    requires
        0 <= n <= t.len(),
        rewind_to_flow(repo, target, t, n) is Got,
        carries(operation, returning(repo, target, n), t, n),
    ensures
        returned(operation, t, n, repo, target, rewind_to_flow(repo, target, t, n)->Got_0.1),
        rewind_to_flow(repo, target, t, n)->Got_0.0 == target,
{
    let op = returning(repo, target, n);
    let reset = Command::ResetKeep { target };
    assert(git_flow(repo, reset, t, n) == FlowView::Got(output_at(t, n), n + 1));
    assert(head_sha_flow(repo, t, n + 1) == FlowView::Got(said(t, n + 1), n + 2));
    assert(is_dirty_flow(repo, t, n + 2) == FlowView::Got(false, n + 3));
    assert(short_status_flow(repo, t, n + 3) == FlowView::Got(output_at(t, n + 3).stdout, n + 4));
    let a = t.take(n);
    assert(op(a) == rewind_to_flow(repo, target, a, n));
    let b = t.take(n + 1);
    assert(op(b) == rewind_to_flow(repo, target, b, n));
    assert(agree(t, b, n + 1));
    git_reads(repo, reset, t, b, n);
    let c = t.take(n + 2);
    assert(op(c) == rewind_to_flow(repo, target, c, n));
    assert(agree(t, c, n + 1) && agree(t, c, n + 2));
    git_reads(repo, reset, t, c, n);
    head_reads(repo, t, c, n + 1);
    let d = t.take(n + 3);
    assert(op(d) == rewind_to_flow(repo, target, d, n));
    assert(agree(t, d, n + 1) && agree(t, d, n + 2) && agree(t, d, n + 3));
    git_reads(repo, reset, t, d, n);
    head_reads(repo, t, d, n + 1);
    dirtiness_reads(repo, t, d, n + 2);
    lemma_answered(operation, op, t, n, n, repo, reset);
    lemma_answered(operation, op, t, n, n + 1, repo, Command::HeadCommit);
    lemma_answered(operation, op, t, n, n + 2, repo, Command::PorcelainStatus);
    lemma_answered(operation, op, t, n, n + 3, repo, Command::ShortStatus);
}

// ---------------------------------------------------------------------------
// The whole
// ---------------------------------------------------------------------------
/// Taking back a merge, as an operation.
pub open spec fn rewinding(server: GitServer, args: RewindArgsView) -> spec_fn(
    Seq<Reply>,
) -> FlowView<RewriteOutcome<RewoundView, RewriteFailureView>> {
    |t: Seq<Reply>| rewind_flow(server, args, t, 0)
}

spec fn undoing(server: GitServer, args: RewindArgsView, head: Text) -> spec_fn(
    Seq<Reply>,
) -> FlowView<RewoundView> {
    |t: Seq<Reply>| rewind_from_flow(server, args, head, t, 1)
}

/// Where the operation goes back.
pub open spec fn returns_at(args: RewindArgsView) -> int {
    if args.publication_guard == PublicationGuard::VerifyRemote {
        14
    } else {
        8
    }
}

#[verifier::rlimit(40)]
proof fn lemma_undoing_parts(server: GitServer, args: RewindArgsView, head: Text, t: Seq<Reply>)
    requires
        1 <= t.len(),
        rewind_from_flow(server, args, head, t, 1) is Got,
    ensures
        ({
            let k = returns_at(args);
            let merge = snapshot_at(t, 7);
            let done = rewind_from_flow(server, args, head, t, 1)->Got_0;
            &&& rewindable_flow(args, head, t, 1) == FlowView::Got((said(t, 4), merge), 8)
            &&& merge_unpublished_flow(server, args, head, t, 8) == FlowView::Got((), k)
            &&& k <= t.len()
            &&& rewind_to_flow(args.repo, merge.parents[0], t, k) is Got
            &&& done.new_head == rewind_to_flow(args.repo, merge.parents[0], t, k)->Got_0.0
            &&& done.status == rewind_to_flow(args.repo, merge.parents[0], t, k)->Got_0.1
            &&& done.branch == said(t, 4)
            &&& done.old_head == head
            &&& done.first_parent == merge.parents[0]
            &&& done.publication_guard == args.publication_guard
            &&& done.operation == "rewind_merge"@
        }),
{
    lemma_qualifying_parts(args, head, t, 1);
    assert(merge_unpublished_flow(server, args, head, t, 8) is Got);
    if args.publication_guard == PublicationGuard::VerifyRemote {
        lemma_guard_parts(server, args, head, t, 8);
    }
}

#[verifier::rlimit(40)]
proof fn lemma_undoing_qualifies(
    server: GitServer,
    args: RewindArgsView,
    head: Text,
    t: Seq<Reply>,
)
    requires
        1 <= t.len(),
        rewind_from_flow(server, args, head, t, 1) is Got,
    ensures
        carries(undoing(server, args, head), qualifying(args, head, 1), t, 1),
{
    lemma_undoing_parts(server, args, head, t);
    let op = undoing(server, args, head);
    let part = qualifying(args, head, 1);
    assert forall|p: int|
        1 <= p <= t.len() && request(part(#[trigger] t.take(p))) is Some implies request(
        op(t.take(p)),
    ) == request(part(t.take(p))) by {
        let s = t.take(p);
        assert(op(s) == rewind_from_flow(server, args, head, s, 1));
        assert(part(s) == rewindable_flow(args, head, s, 1));
    }
}

#[verifier::rlimit(40)]
proof fn lemma_undoing_guards(
    server: GitServer,
    args: RewindArgsView,
    head: Text,
    t: Seq<Reply>,
)
    requires
        1 <= t.len(),
        rewind_from_flow(server, args, head, t, 1) is Got,
    ensures
        carries(undoing(server, args, head), guarding(server, args, head, 8), t, 8),
{
    lemma_undoing_parts(server, args, head, t);
    let op = undoing(server, args, head);
    let part = guarding(server, args, head, 8);
    assert forall|p: int|
        8 <= p <= t.len() && request(part(#[trigger] t.take(p))) is Some implies request(
        op(t.take(p)),
    ) == request(part(t.take(p))) by {
        let s = t.take(p);
        assert(op(s) == rewind_from_flow(server, args, head, s, 1));
        assert(agree(t, s, 8));
        rewindable_reads(args, head, t, s, 1);
        assert(part(s) == merge_unpublished_flow(server, args, head, s, 8));
    }
}

#[verifier::rlimit(40)]
proof fn lemma_undoing_returns(
    server: GitServer,
    args: RewindArgsView,
    head: Text,
    t: Seq<Reply>,
)
    requires
        1 <= t.len(),
        rewind_from_flow(server, args, head, t, 1) is Got,
    ensures
        carries(
            undoing(server, args, head),
            returning(args.repo, snapshot_at(t, 7).parents[0], returns_at(args)),
            t,
            returns_at(args),
        ),
{
    lemma_undoing_parts(server, args, head, t);
    let k = returns_at(args);
    let merge = snapshot_at(t, 7);
    let op = undoing(server, args, head);
    let part = returning(args.repo, merge.parents[0], k);
    assert forall|p: int|
        k <= p <= t.len() && request(part(#[trigger] t.take(p))) is Some implies request(
        op(t.take(p)),
    ) == request(part(t.take(p))) by {
        let s = t.take(p);
        assert(op(s) == rewind_from_flow(server, args, head, s, 1));
        assert(agree(t, s, 8));
        rewindable_reads(args, head, t, s, 1);
        assert(agree(t, s, k));
        merge_publication_reads(server, args, head, t, s, 8);
        assert(part(s) == rewind_to_flow(args.repo, merge.parents[0], s, k));
    }
}

#[verifier::rlimit(40)]
proof fn lemma_rewinding_carries(server: GitServer, args: RewindArgsView, t: Seq<Reply>)
    requires
        rewind_flow(server, args, t, 0) is Got,
        rewind_flow(server, args, t, 0)->Got_0 is Done,
    ensures
        ({
            let head = said(t, 0);
            &&& !server.read_only
            &&& t.len() >= 1
            &&& performed(rewinding(server, args), t, 0, args.repo, Command::HeadCommit)
            &&& rewind_from_flow(server, args, head, t, 1) matches FlowView::Got(done, _)
            &&& rewind_flow(server, args, t, 0)->Got_0 == RewriteOutcome::<
                RewoundView,
                RewriteFailureView,
            >::Done(done)
            &&& carries(rewinding(server, args), undoing(server, args, head), t, 1)
        }),
{
    let op = rewinding(server, args);
    let head = said(t, 0);
    assert(head_sha_flow(args.repo, t, 0) == FlowView::Got(head, 1));
    assert(op(t.take(0)) == rewind_flow(server, args, t.take(0), 0));
    let part = undoing(server, args, head);
    assert forall|p: int|
        1 <= p <= t.len() && request(part(#[trigger] t.take(p))) is Some implies request(
        op(t.take(p)),
    ) == request(part(t.take(p))) by {
        let s = t.take(p);
        assert(op(s) == rewind_flow(server, args, s, 0));
        assert(agree(t, s, 1));
        head_reads(args.repo, t, s, 0);
        assert(part(s) == rewind_from_flow(server, args, head, s, 1));
    }
}

/// Where a merge is taken back, the result says what was asked for and told: the
/// commit at `HEAD` of a branch is the merge that is expected, with two parents,
/// and nothing is changed locally; where the remote is to be asked, it has no
/// branch that contains the merge, and `HEAD` has not moved meanwhile; and the
/// branch was reset to the first parent of the merge, where `HEAD` was seen to
/// be afterwards, with nothing changed.
#[verifier::rlimit(40)]
pub proof fn law_rewind_returns_to_first_parent(
    server: GitServer,
    args: RewindArgsView,
    t: Seq<Reply>,
)
    requires
        rewind_flow(server, args, t, 0) is Got,
        rewind_flow(server, args, t, 0)->Got_0 is Done,
    ensures
        ({
            let op = rewinding(server, args);
            let done = rewind_flow(server, args, t, 0)->Got_0->Done_0;
            let k = returns_at(args);
            &&& !server.read_only
            &&& performed(op, t, 0, args.repo, Command::HeadCommit)
            &&& done.old_head == said(t, 0)
            &&& merge_told(op, t, 1, args, done.old_head, done.branch)
            &&& args.publication_guard == PublicationGuard::VerifyRemote ==> guard_told(
                op,
                t,
                8,
                args,
                done.old_head,
            )
            &&& done.first_parent == snapshot_at(t, 7).parents[0]
            &&& returned(op, t, k, args.repo, done.first_parent, done.status)
            &&& done.new_head == done.first_parent
            &&& done.publication_guard == args.publication_guard
            &&& done.operation == "rewind_merge"@
        }),
{
    lemma_rewinding_carries(server, args, t);
    let head = said(t, 0);
    let op = rewinding(server, args);
    let body = undoing(server, args, head);
    let k = returns_at(args);
    let target = snapshot_at(t, 7).parents[0];
    lemma_undoing_parts(server, args, head, t);
    lemma_undoing_qualifies(server, args, head, t);
    lemma_undoing_guards(server, args, head, t);
    lemma_undoing_returns(server, args, head, t);
    lemma_carried(op, body, qualifying(args, head, 1), t, 1, 1);
    lemma_merge_told(op, args, head, t, 1);
    lemma_carried(op, body, guarding(server, args, head, 8), t, 1, 8);
    if args.publication_guard == PublicationGuard::VerifyRemote {
        lemma_guard_told(op, server, args, head, t, 8);
    }
    lemma_carried(op, body, returning(args.repo, target, k), t, 1, k);
    lemma_returned(op, args.repo, target, t, k);
}

} // verus!
