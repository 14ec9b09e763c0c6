//! How commits are made anew, held against what was asked and told.
use crate::command::Command;
use crate::dialogue::{
    carries, commit_made, commit_read, lemma_commit_read_by, output_at, performed, request, said,
    snapshot_at,
};
use crate::extent::{agree, new_commit_reads, snapshot_reads, tree_reads, update_reads};
use crate::flow::{FlowView, Reply};
use crate::history::HistoryCommitView;
use crate::queries::tree_sha_flow;
use crate::reword::{replay_flow, reworded, rewritten_commit, RewordView, RewrittenView};
use crate::rewrite::{install_flow, update_branch_flow};
use crate::snapshot::{commit_snapshot_flow, create_commit_flow, SnapshotView};
use crate::squash::squash_replay_flow;
use crate::text::{first_line, Text};
use vstd::prelude::*;

verus! {

// ---------------------------------------------------------------------------
// One commit
// ---------------------------------------------------------------------------
/// From position `q` on the operation read a commit with one parent, and made
/// it anew on `parent`: with its own tree, author and committer, and with the
/// message `message`, or else its own.
pub open spec fn remade<T>(
    operation: spec_fn(Seq<Reply>) -> FlowView<T>,
    t: Seq<Reply>,
    q: int,
    repo: Text,
    sha: Text,
    parent: Text,
    message: Option<Text>,
) -> bool {
    let of = snapshot_at(t, q + 2);
    &&& commit_read(operation, t, q + 2, repo, sha)
    &&& of.parents.len() == 1
    &&& commit_made(
        operation,
        t,
        q + 3,
        repo,
        of,
        of.tree,
        parent,
        match message {
            Some(message) => message,
            None => of.message,
        },
    )
}

/// The commit that the `k`th commit is made on, where commits are made anew
/// from position `n` on, the first of them on `parent`.
pub open spec fn parent_at(t: Seq<Reply>, n: int, parent: Text, k: int) -> Text {
    if k == 0 {
        parent
    } else {
        said(t, n + 4 * k - 1)
    }
}

/// Reading a commit, as a part of an operation.
pub open spec fn reading(repo: Text, commit: Text, n: int) -> spec_fn(Seq<Reply>) -> FlowView<
    SnapshotView,
> {
    |t: Seq<Reply>| commit_snapshot_flow(repo, commit, t, n)
}

/// Making a commit, as a part of an operation.
pub open spec fn making(
    repo: Text,
    of: SnapshotView,
    tree: Text,
    parent: Text,
    message: Text,
    n: int,
) -> spec_fn(Seq<Reply>) -> FlowView<Text> {
    |t: Seq<Reply>| create_commit_flow(repo, of, tree, parent, message, t, n)
}

/// Reading a commit takes three replies.
#[verifier::rlimit(40)]
pub proof fn lemma_commit_read(repo: Text, commit: Text, t: Seq<Reply>, n: int)
    requires
        0 <= n <= t.len(),
        commit_snapshot_flow(repo, commit, t, n) is Got,
    ensures
        commit_snapshot_flow(repo, commit, t, n) == FlowView::Got(snapshot_at(t, n + 2), n + 3),
        n + 3 <= t.len(),
        commit_read(reading(repo, commit, n), t, n + 2, repo, commit),
        snapshot_at(t, n + 2).sha == said(t, n + 1),
{
}

/// Making a commit takes one reply.
#[verifier::rlimit(40)]
pub proof fn lemma_commit_made(
    repo: Text,
    of: SnapshotView,
    tree: Text,
    parent: Text,
    message: Text,
    t: Seq<Reply>,
    n: int,
)
    requires
        0 <= n <= t.len(),
        create_commit_flow(repo, of, tree, parent, message, t, n) is Got,
    ensures
        create_commit_flow(repo, of, tree, parent, message, t, n) == FlowView::Got(
            said(t, n),
            n + 1,
        ),
        n + 1 <= t.len(),
        commit_made(
            making(repo, of, tree, parent, message, n),
            t,
            n,
            repo,
            of,
            tree,
            parent,
            message,
        ),
{
}

/// What a part of an operation made anew, the operation made anew.
#[verifier::rlimit(40)]
pub proof fn lemma_remade_by<T, U>(
    operation: spec_fn(Seq<Reply>) -> FlowView<T>,
    part: spec_fn(Seq<Reply>) -> FlowView<U>,
    t: Seq<Reply>,
    a: int,
    q: int,
    repo: Text,
    sha: Text,
    parent: Text,
    message: Option<Text>,
)
    requires
        carries(operation, part, t, a),
        a <= q,
        remade(part, t, q, repo, sha, parent, message),
    ensures
        remade(operation, t, q, repo, sha, parent, message),
{
    lemma_commit_read_by(operation, part, t, a, q + 2, repo, sha);
    assert(request(part(t.take(q + 3))) is Some);
}

// ---------------------------------------------------------------------------
// The commits after a squashed range
// ---------------------------------------------------------------------------
/// Making anew the commits from `i` on, as a part of an operation.
pub open spec fn squash_tail(
    repo: Text,
    commits: Seq<HistoryCommitView>,
    i: int,
    parent: Text,
    n: int,
) -> spec_fn(Seq<Reply>) -> FlowView<Text> {
    |t: Seq<Reply>| squash_replay_flow(repo, commits, i, parent, t, n)
}

#[verifier::rlimit(40)]
proof fn lemma_squash_parts(
    repo: Text,
    commits: Seq<HistoryCommitView>,
    i: int,
    parent: Text,
    t: Seq<Reply>,
    n: int,
)
    requires
        0 <= n <= t.len(),
        0 <= i < commits.len(),
        squash_replay_flow(repo, commits, i, parent, t, n) is Got,
    ensures
        ({
            let op = squash_tail(repo, commits, i, parent, n);
            let of = snapshot_at(t, n + 2);
            let new = said(t, n + 3);
            &&& n + 4 <= t.len()
            &&& of.parents.len() == 1
            &&& commit_snapshot_flow(repo, commits[i].sha, t, n) == FlowView::Got(of, n + 3)
            &&& create_commit_flow(repo, of, of.tree, parent, of.message, t, n + 3)
                == FlowView::Got(new, n + 4)
            &&& squash_replay_flow(repo, commits, i, parent, t, n) == squash_replay_flow(
                repo,
                commits,
                i + 1,
                new,
                t,
                n + 4,
            )
        }),
{
    let of = snapshot_at(t, n + 2);
    lemma_commit_read(repo, commits[i].sha, t, n);
    lemma_commit_made(repo, of, of.tree, parent, of.message, t, n + 3);
}

#[verifier::rlimit(40)]
proof fn lemma_squash_carries(
    repo: Text,
    commits: Seq<HistoryCommitView>,
    i: int,
    parent: Text,
    t: Seq<Reply>,
    n: int,
)
    requires
        0 <= n <= t.len(),
        0 <= i < commits.len(),
        squash_replay_flow(repo, commits, i, parent, t, n) is Got,
    ensures
        ({
            let op = squash_tail(repo, commits, i, parent, n);
            let of = snapshot_at(t, n + 2);
            &&& carries(op, reading(repo, commits[i].sha, n), t, n)
            &&& carries(op, making(repo, of, of.tree, parent, of.message, n + 3), t, n + 3)
            &&& carries(op, squash_tail(repo, commits, i + 1, said(t, n + 3), n + 4), t, n + 4)
        }),
{
    broadcast use {snapshot_reads, new_commit_reads};

    lemma_squash_parts(repo, commits, i, parent, t, n);
    let op = squash_tail(repo, commits, i, parent, n);
    let of = snapshot_at(t, n + 2);
    let new = said(t, n + 3);
    assert forall|p: int|
        n <= p <= t.len() && request(
            reading(repo, commits[i].sha, n)(#[trigger] t.take(p)),
        ) is Some implies request(op(t.take(p))) == request(
        reading(repo, commits[i].sha, n)(t.take(p)),
    ) by {
        assert(op(t.take(p)) == squash_replay_flow(repo, commits, i, parent, t.take(p), n));
    }
    let made = making(repo, of, of.tree, parent, of.message, n + 3);
    assert forall|p: int|
        n + 3 <= p <= t.len() && request(made(#[trigger] t.take(p))) is Some implies request(
        op(t.take(p)),
    ) == request(made(t.take(p))) by {
        let s = t.take(p);
        assert(agree(t, s, n + 3));
        assert(commit_snapshot_flow(repo, commits[i].sha, s, n) == FlowView::Got(of, n + 3));
        assert(op(s) == squash_replay_flow(repo, commits, i, parent, s, n));
    }
    let inner = squash_tail(repo, commits, i + 1, new, n + 4);
    assert forall|p: int|
        n + 4 <= p <= t.len() && request(inner(#[trigger] t.take(p))) is Some implies request(
        op(t.take(p)),
    ) == request(inner(t.take(p))) by {
        let s = t.take(p);
        assert(agree(t, s, n + 3) && agree(t, s, n + 4));
        assert(commit_snapshot_flow(repo, commits[i].sha, s, n) == FlowView::Got(of, n + 3));
        assert(create_commit_flow(repo, of, of.tree, parent, of.message, s, n + 3)
            == FlowView::Got(new, n + 4));
        assert(op(s) == squash_replay_flow(repo, commits, i, parent, s, n));
        assert(inner(s) == squash_replay_flow(repo, commits, i + 1, new, s, n + 4));
    }
}

#[verifier::rlimit(40)]
proof fn lemma_squash_one(
    repo: Text,
    commits: Seq<HistoryCommitView>,
    i: int,
    parent: Text,
    t: Seq<Reply>,
    n: int,
)
    requires
        0 <= n <= t.len(),
        0 <= i < commits.len(),
        squash_replay_flow(repo, commits, i, parent, t, n) is Got,
    ensures
        remade(squash_tail(repo, commits, i, parent, n), t, n, repo, commits[i].sha, parent, None),
{
    let op = squash_tail(repo, commits, i, parent, n);
    let of = snapshot_at(t, n + 2);
    let sha = commits[i].sha;
    lemma_squash_parts(repo, commits, i, parent, t, n);
    lemma_squash_carries(repo, commits, i, parent, t, n);
    lemma_commit_read(repo, sha, t, n);
    lemma_commit_read_by(op, reading(repo, sha, n), t, n, n + 2, repo, sha);
    lemma_commit_made(repo, of, of.tree, parent, of.message, t, n + 3);
    assert(request(
        making(repo, of, of.tree, parent, of.message, n + 3)(t.take(n + 3)),
    ) is Some);
}

/// Every commit from `i` on is made anew, each on the one made before it.
#[verifier::rlimit(40)]
pub proof fn lemma_squash_tail(
    repo: Text,
    commits: Seq<HistoryCommitView>,
    i: int,
    parent: Text,
    t: Seq<Reply>,
    n: int,
)
    requires
        0 <= n <= t.len(),
        0 <= i <= commits.len(),
        squash_replay_flow(repo, commits, i, parent, t, n) is Got,
    ensures
        n + 4 * (commits.len() - i) <= t.len(),
        squash_replay_flow(repo, commits, i, parent, t, n) == FlowView::Got(
            parent_at(t, n, parent, commits.len() - i),
            n + 4 * (commits.len() - i),
        ),
        forall|j: int|
            i <= j < commits.len() ==> remade(
                squash_tail(repo, commits, i, parent, n),
                t,
                n + 4 * (j - i),
                repo,
                (#[trigger] commits[j]).sha,
                parent_at(t, n, parent, j - i),
                None,
            ),
    decreases commits.len() - i,
{
    if i < commits.len() {
        lemma_squash_parts(repo, commits, i, parent, t, n);
        lemma_squash_carries(repo, commits, i, parent, t, n);
        lemma_squash_one(repo, commits, i, parent, t, n);
        let new = said(t, n + 3);
        lemma_squash_tail(repo, commits, i + 1, new, t, n + 4);
        let outer = squash_tail(repo, commits, i, parent, n);
        let inner = squash_tail(repo, commits, i + 1, new, n + 4);
        assert forall|j: int| i <= j < commits.len() implies remade(
            outer,
            t,
            n + 4 * (j - i),
            repo,
            (#[trigger] commits[j]).sha,
            parent_at(t, n, parent, j - i),
            None,
        ) by {
            if j > i {
                let q = n + 4 + 4 * (j - (i + 1));
                let tip = parent_at(t, n + 4, new, j - (i + 1));
                assert(remade(inner, t, q, repo, commits[j].sha, tip, None));
                lemma_remade_by(outer, inner, t, n + 4, q, repo, commits[j].sha, tip, None);
                assert(q == n + 4 * (j - i));
                assert(tip == parent_at(t, n, parent, j - i));
            }
        }
    }
}

// ---------------------------------------------------------------------------
// The commits from the first reworded one on
// ---------------------------------------------------------------------------
/// What is reported of a commit that was made anew from position `q` on.
pub open spec fn reported_rewrite(
    t: Seq<Reply>,
    q: int,
    message: Option<Text>,
    report: RewrittenView,
) -> bool {
    let of = snapshot_at(t, q + 2);
    let text = match message {
        Some(message) => message,
        None => of.message,
    };
    &&& report.old == said(t, q + 1)
    &&& report.new == said(t, q + 3)
    &&& report.old_subject == first_line(of.message)
    &&& report.new_subject == first_line(text)
    &&& report.message_changed <==> text != of.message
}

/// Making anew the commits from `i` on, as a part of an operation.
pub open spec fn reword_tail(
    repo: Text,
    commits: Seq<HistoryCommitView>,
    shas: Seq<Text>,
    changes: Seq<RewordView>,
    i: int,
    parent: Text,
    made: Seq<RewrittenView>,
    n: int,
) -> spec_fn(Seq<Reply>) -> FlowView<(Text, Seq<RewrittenView>)> {
    |t: Seq<Reply>| replay_flow(repo, commits, shas, changes, i, parent, made, t, n)
}

/// The message that a commit is made with.
pub open spec fn message_of(request: Option<Text>, of: SnapshotView) -> Text {
    match request {
        Some(message) => message,
        None => of.message,
    }
}

#[verifier::rlimit(40)]
proof fn lemma_reword_parts(
    repo: Text,
    commits: Seq<HistoryCommitView>,
    shas: Seq<Text>,
    changes: Seq<RewordView>,
    i: int,
    parent: Text,
    made: Seq<RewrittenView>,
    t: Seq<Reply>,
    n: int,
)
    requires
        0 <= n <= t.len(),
        0 <= i < commits.len(),
        replay_flow(repo, commits, shas, changes, i, parent, made, t, n) is Got,
    ensures
        ({
            let of = snapshot_at(t, n + 2);
            let request = reworded(shas, changes, commits[i].sha);
            let message = message_of(request, of);
            let new = said(t, n + 3);
            &&& n + 4 <= t.len()
            &&& of.parents.len() == 1
            &&& of.sha == said(t, n + 1)
            &&& commit_snapshot_flow(repo, commits[i].sha, t, n) == FlowView::Got(of, n + 3)
            &&& create_commit_flow(repo, of, of.tree, parent, message, t, n + 3)
                == FlowView::Got(new, n + 4)
            &&& replay_flow(repo, commits, shas, changes, i, parent, made, t, n) == replay_flow(
                repo,
                commits,
                shas,
                changes,
                i + 1,
                new,
                made.push(rewritten_commit(of, new, request)),
                t,
                n + 4,
            )
        }),
{
    let of = snapshot_at(t, n + 2);
    let message = message_of(reworded(shas, changes, commits[i].sha), of);
    lemma_commit_read(repo, commits[i].sha, t, n);
    assert(of.parents.len() == 1);
    assert(create_commit_flow(repo, of, of.tree, parent, message, t, n + 3) is Got);
    lemma_commit_made(repo, of, of.tree, parent, message, t, n + 3);
}

#[verifier::rlimit(40)]
proof fn lemma_reword_carries(
    repo: Text,
    commits: Seq<HistoryCommitView>,
    shas: Seq<Text>,
    changes: Seq<RewordView>,
    i: int,
    parent: Text,
    made: Seq<RewrittenView>,
    t: Seq<Reply>,
    n: int,
)
    requires
        0 <= n <= t.len(),
        0 <= i < commits.len(),
        replay_flow(repo, commits, shas, changes, i, parent, made, t, n) is Got,
    ensures
        ({
            let op = reword_tail(repo, commits, shas, changes, i, parent, made, n);
            let of = snapshot_at(t, n + 2);
            let request = reworded(shas, changes, commits[i].sha);
            let message = message_of(request, of);
            let new = said(t, n + 3);
            let more = made.push(rewritten_commit(of, new, request));
            &&& carries(op, reading(repo, commits[i].sha, n), t, n)
            &&& carries(op, making(repo, of, of.tree, parent, message, n + 3), t, n + 3)
            &&& carries(
                op,
                reword_tail(repo, commits, shas, changes, i + 1, new, more, n + 4),
                t,
                n + 4,
            )
        }),
{
    broadcast use {snapshot_reads, new_commit_reads};

    lemma_reword_parts(repo, commits, shas, changes, i, parent, made, t, n);
    let op = reword_tail(repo, commits, shas, changes, i, parent, made, n);
    let of = snapshot_at(t, n + 2);
    let asked = reworded(shas, changes, commits[i].sha);
    let message = message_of(asked, of);
    let new = said(t, n + 3);
    let more = made.push(rewritten_commit(of, new, asked));
    let read = reading(repo, commits[i].sha, n);
    assert forall|p: int|
        n <= p <= t.len() && request(read(#[trigger] t.take(p))) is Some implies request(
        op(t.take(p)),
    ) == request(read(t.take(p))) by {
        assert(op(t.take(p)) == replay_flow(
            repo,
            commits,
            shas,
            changes,
            i,
            parent,
            made,
            t.take(p),
            n,
        ));
    }
    let written = making(repo, of, of.tree, parent, message, n + 3);
    assert forall|p: int|
        n + 3 <= p <= t.len() && request(written(#[trigger] t.take(p))) is Some implies request(
        op(t.take(p)),
    ) == request(written(t.take(p))) by {
        let s = t.take(p);
        assert(agree(t, s, n + 3));
        assert(commit_snapshot_flow(repo, commits[i].sha, s, n) == FlowView::Got(of, n + 3));
        assert(op(s) == replay_flow(repo, commits, shas, changes, i, parent, made, s, n));
    }
    let inner = reword_tail(repo, commits, shas, changes, i + 1, new, more, n + 4);
    assert forall|p: int|
        n + 4 <= p <= t.len() && request(inner(#[trigger] t.take(p))) is Some implies request(
        op(t.take(p)),
    ) == request(inner(t.take(p))) by {
        let s = t.take(p);
        assert(agree(t, s, n + 3) && agree(t, s, n + 4));
        assert(commit_snapshot_flow(repo, commits[i].sha, s, n) == FlowView::Got(of, n + 3));
        assert(create_commit_flow(repo, of, of.tree, parent, message, s, n + 3) == FlowView::Got(
            new,
            n + 4,
        ));
        assert(op(s) == replay_flow(repo, commits, shas, changes, i, parent, made, s, n));
        assert(inner(s) == replay_flow(
            repo,
            commits,
            shas,
            changes,
            i + 1,
            new,
            more,
            s,
            n + 4,
        ));
    }
}

#[verifier::rlimit(40)]
proof fn lemma_reword_one(
    repo: Text,
    commits: Seq<HistoryCommitView>,
    shas: Seq<Text>,
    changes: Seq<RewordView>,
    i: int,
    parent: Text,
    made: Seq<RewrittenView>,
    t: Seq<Reply>,
    n: int,
)
    requires
        0 <= n <= t.len(),
        0 <= i < commits.len(),
        replay_flow(repo, commits, shas, changes, i, parent, made, t, n) is Got,
    ensures
        remade(
            reword_tail(repo, commits, shas, changes, i, parent, made, n),
            t,
            n,
            repo,
            commits[i].sha,
            parent,
            reworded(shas, changes, commits[i].sha),
        ),
{
    let op = reword_tail(repo, commits, shas, changes, i, parent, made, n);
    let of = snapshot_at(t, n + 2);
    let sha = commits[i].sha;
    let message = message_of(reworded(shas, changes, sha), of);
    lemma_reword_parts(repo, commits, shas, changes, i, parent, made, t, n);
    lemma_reword_carries(repo, commits, shas, changes, i, parent, made, t, n);
    lemma_commit_read(repo, sha, t, n);
    lemma_commit_read_by(op, reading(repo, sha, n), t, n, n + 2, repo, sha);
    lemma_commit_made(repo, of, of.tree, parent, message, t, n + 3);
    assert(request(making(repo, of, of.tree, parent, message, n + 3)(t.take(n + 3))) is Some);
}

/// Every commit from `i` on is made anew, each on the one made before it, and
/// reported.
#[verifier::rlimit(40)]
pub proof fn lemma_reword_tail(
    repo: Text,
    commits: Seq<HistoryCommitView>,
    shas: Seq<Text>,
    changes: Seq<RewordView>,
    i: int,
    parent: Text,
    made: Seq<RewrittenView>,
    t: Seq<Reply>,
    n: int,
)
    requires
        0 <= n <= t.len(),
        0 <= i <= commits.len(),
        replay_flow(repo, commits, shas, changes, i, parent, made, t, n) is Got,
    ensures
        ({
            let rest = commits.len() - i;
            let (tip, all) = replay_flow(
                repo,
                commits,
                shas,
                changes,
                i,
                parent,
                made,
                t,
                n,
            )->Got_0;
            &&& n + 4 * rest <= t.len()
            &&& replay_flow(repo, commits, shas, changes, i, parent, made, t, n)->Got_1 == n + 4
                * rest
            &&& tip == parent_at(t, n, parent, rest)
            &&& all.len() == made.len() + rest
            &&& all.take(made.len() as int) =~= made
            &&& forall|j: int|
                i <= j < commits.len() ==> {
                    &&& remade(
                        reword_tail(repo, commits, shas, changes, i, parent, made, n),
                        t,
                        n + 4 * (j - i),
                        repo,
                        (#[trigger] commits[j]).sha,
                        parent_at(t, n, parent, j - i),
                        reworded(shas, changes, commits[j].sha),
                    )
                    &&& reported_rewrite(
                        t,
                        n + 4 * (j - i),
                        reworded(shas, changes, commits[j].sha),
                        all[made.len() + j - i],
                    )
                }
        }),
    decreases commits.len() - i,
{
    if i < commits.len() {
        lemma_reword_parts(repo, commits, shas, changes, i, parent, made, t, n);
        lemma_reword_carries(repo, commits, shas, changes, i, parent, made, t, n);
        lemma_reword_one(repo, commits, shas, changes, i, parent, made, t, n);
        let of = snapshot_at(t, n + 2);
        let asked = reworded(shas, changes, commits[i].sha);
        let new = said(t, n + 3);
        let more = made.push(rewritten_commit(of, new, asked));
        lemma_reword_tail(repo, commits, shas, changes, i + 1, new, more, t, n + 4);
        let outer = reword_tail(repo, commits, shas, changes, i, parent, made, n);
        let inner = reword_tail(repo, commits, shas, changes, i + 1, new, more, n + 4);
        let all = replay_flow(repo, commits, shas, changes, i, parent, made, t, n)->Got_0.1;
        assert(all.take(made.len() as int) =~= made) by {
            assert forall|k: int| 0 <= k < made.len() implies all[k] == made[k] by {
                assert(all.take(more.len() as int)[k] == more[k]);
            }
        }
        assert(all[made.len() as int] == rewritten_commit(of, new, asked)) by {
            assert(all.take(more.len() as int)[made.len() as int] == more[made.len() as int]);
        }
        assert forall|j: int| i <= j < commits.len() implies {
            &&& remade(
                outer,
                t,
                n + 4 * (j - i),
                repo,
                (#[trigger] commits[j]).sha,
                parent_at(t, n, parent, j - i),
                reworded(shas, changes, commits[j].sha),
            )
            &&& reported_rewrite(
                t,
                n + 4 * (j - i),
                reworded(shas, changes, commits[j].sha),
                all[made.len() + j - i],
            )
        } by {
            let message = reworded(shas, changes, commits[j].sha);
            if j > i {
                let q = n + 4 + 4 * (j - (i + 1));
                let tip = parent_at(t, n + 4, new, j - (i + 1));
                assert(remade(inner, t, q, repo, commits[j].sha, tip, message));
                lemma_remade_by(outer, inner, t, n + 4, q, repo, commits[j].sha, tip, message);
                assert(q == n + 4 * (j - i));
                assert(tip == parent_at(t, n, parent, j - i));
                assert(more.len() + j - (i + 1) == made.len() + j - i);
            }
        }
    }
}

// ---------------------------------------------------------------------------
// Moving the branch
// ---------------------------------------------------------------------------
/// Moving a branch to commits that were made anew, as a part of an operation.
pub open spec fn installing(
    repo: Text,
    branch: Text,
    new_head: Text,
    old_head: Text,
    tree: Text,
    n: int,
) -> spec_fn(Seq<Reply>) -> FlowView<Text> {
    |t: Seq<Reply>| install_flow(repo, branch, new_head, old_head, tree, t, n)
}

/// From position `n` on the operation saw that the new commit has the tree
/// `tree`, and moved the branch to it from the old one.
pub open spec fn installed<T>(
    operation: spec_fn(Seq<Reply>) -> FlowView<T>,
    t: Seq<Reply>,
    n: int,
    repo: Text,
    branch: Text,
    new_head: Text,
    old_head: Text,
    tree: Text,
) -> bool {
    &&& performed(operation, t, n, repo, Command::ResolveTree { revision: new_head })
    &&& said(t, n) == tree
    &&& performed(
        operation,
        t,
        n + 1,
        repo,
        Command::UpdateRef { reference: "refs/heads/"@ + branch, new: new_head, old: old_head },
    )
    &&& performed(operation, t, n + 2, repo, Command::ShortStatus)
}

/// Moving the branch takes three replies.
#[verifier::rlimit(40)]
pub proof fn lemma_installed(
    repo: Text,
    branch: Text,
    new_head: Text,
    old_head: Text,
    tree: Text,
    t: Seq<Reply>,
    n: int,
)
    requires
        0 <= n <= t.len(),
        install_flow(repo, branch, new_head, old_head, tree, t, n) is Got,
    ensures
        installed(
            installing(repo, branch, new_head, old_head, tree, n),
            t,
            n,
            repo,
            branch,
            new_head,
            old_head,
            tree,
        ),
        install_flow(repo, branch, new_head, old_head, tree, t, n) == FlowView::Got(
            output_at(t, n + 2).stdout,
            n + 3,
        ),
{
    broadcast use {tree_reads, update_reads};

    let op = installing(repo, branch, new_head, old_head, tree, n);
    assert forall|p: int| op(#[trigger] t.take(p)) == install_flow(
        repo,
        branch,
        new_head,
        old_head,
        tree,
        t.take(p),
        n,
    ) by {}
    assert(tree_sha_flow(repo, new_head, t, n) == FlowView::Got(said(t, n), n + 1));
    assert(update_branch_flow(repo, branch, new_head, old_head, t, n + 1) == FlowView::Got(
        (),
        n + 2,
    ));
    assert(agree(t, t.take(n + 1), n + 1));
    assert(agree(t, t.take(n + 2), n + 1) && agree(t, t.take(n + 2), n + 2));
}

/// What a part of an operation moved, the operation moved.
#[verifier::rlimit(40)]
pub proof fn lemma_installed_by<T, U>(
    operation: spec_fn(Seq<Reply>) -> FlowView<T>,
    part: spec_fn(Seq<Reply>) -> FlowView<U>,
    t: Seq<Reply>,
    n: int,
    repo: Text,
    branch: Text,
    new_head: Text,
    old_head: Text,
    tree: Text,
)
    requires
        carries(operation, part, t, n),
        installed(part, t, n, repo, branch, new_head, old_head, tree),
    ensures
        installed(operation, t, n, repo, branch, new_head, old_head, tree),
{
    assert(request(part(t.take(n))) is Some);
    assert(request(part(t.take(n + 1))) is Some);
    assert(request(part(t.take(n + 2))) is Some);
}

} // verus!
