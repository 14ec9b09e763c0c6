//! How revisions are resolved, held against what was asked and told.
use crate::command::Command;
use crate::dialogue::{carries, lemma_answered, performed, request, said};
use crate::extent::{agree, commit_reads};
use crate::flow::{FlowView, Reply};
use crate::publication::resolve_all_flow;
use crate::queries::resolve_commit_flow;
use crate::reword::{resolve_changes_flow, RewordView};
use crate::selection::resolve_distinct_flow;
use crate::text::Text;
use vstd::prelude::*;

verus! {

/// At position `p` the operation asked what commit a revision names, and was
/// told `sha`.
pub open spec fn resolved<T>(
    operation: spec_fn(Seq<Reply>) -> FlowView<T>,
    t: Seq<Reply>,
    p: int,
    repo: Text,
    revision: Text,
    sha: Text,
) -> bool {
    &&& performed(operation, t, p, repo, Command::ResolveCommit { revision })
    &&& said(t, p) == sha
}

/// Resolving revisions from `i` on, as a part of an operation.
pub open spec fn resolving_distinct(
    repo: Text,
    revisions: Seq<Text>,
    i: int,
    found: Seq<Text>,
    error: Text,
    n: int,
) -> spec_fn(Seq<Reply>) -> FlowView<Seq<Text>> {
    |t: Seq<Reply>| resolve_distinct_flow(repo, revisions, i, found, error, t, n)
}

#[verifier::rlimit(40)]
proof fn lemma_distinct_first(
    repo: Text,
    revisions: Seq<Text>,
    i: int,
    found: Seq<Text>,
    error: Text,
    t: Seq<Reply>,
    n: int,
)
    requires
        0 <= n <= t.len(),
        0 <= i < revisions.len(),
        resolve_distinct_flow(repo, revisions, i, found, error, t, n) is Got,
    ensures
        ({
            let op = resolving_distinct(repo, revisions, i, found, error, n);
            let sha = said(t, n + 1);
            &&& n + 2 <= t.len()
            &&& resolve_distinct_flow(repo, revisions, i, found, error, t, n)
                == resolve_distinct_flow(repo, revisions, i + 1, found.push(sha), error, t, n + 2)
            &&& performed(op, t, n + 1, repo, Command::ResolveCommit { revision: revisions[i] })
            &&& carries(
                op,
                resolving_distinct(repo, revisions, i + 1, found.push(sha), error, n + 2),
                t,
                n + 2,
            )
        }),
{
    broadcast use commit_reads;

    let op = resolving_distinct(repo, revisions, i, found, error, n);
    let sha = said(t, n + 1);
    let inner = resolving_distinct(repo, revisions, i + 1, found.push(sha), error, n + 2);
    assert(resolve_commit_flow(repo, revisions[i], t, n) == FlowView::Got(sha, n + 2));
    assert(
        op(t.take(n + 1))
            == resolve_distinct_flow(repo, revisions, i, found, error, t.take(n + 1), n)
    );
    assert forall|p: int|
        n + 2 <= p <= t.len() && request(inner(#[trigger] t.take(p))) is Some implies request(
        op(t.take(p)),
    ) == request(inner(t.take(p))) by {
        let s = t.take(p);
        assert(agree(t, s, n + 2));
        assert(resolve_commit_flow(repo, revisions[i], s, n) == FlowView::Got(sha, n + 2));
        assert(op(s) == resolve_distinct_flow(repo, revisions, i, found, error, s, n));
        assert(
            inner(s)
                == resolve_distinct_flow(repo, revisions, i + 1, found.push(sha), error, s, n + 2)
        );
    }
}

/// Every revision from `i` on is resolved, in order, and what it is resolved to
/// is added.
#[verifier::rlimit(40)]
pub proof fn lemma_distinct_resolved(
    repo: Text,
    revisions: Seq<Text>,
    i: int,
    found: Seq<Text>,
    error: Text,
    t: Seq<Reply>,
    n: int,
)
    requires
        0 <= n <= t.len(),
        0 <= i <= revisions.len(),
        resolve_distinct_flow(repo, revisions, i, found, error, t, n) is Got,
    ensures
        ({
            let rest = revisions.len() - i;
            let all = resolve_distinct_flow(repo, revisions, i, found, error, t, n)->Got_0;
            &&& n + 2 * rest <= t.len()
            &&& resolve_distinct_flow(repo, revisions, i, found, error, t, n)
                == FlowView::Got(all, n + 2 * rest)
            &&& all.len() == found.len() + rest
            &&& all.take(found.len() as int) =~= found
            &&& forall|j: int|
                i <= j < revisions.len() ==> {
                    &&& resolved(
                        resolving_distinct(repo, revisions, i, found, error, n),
                        t,
                        n + 2 * (j - i) + 1,
                        repo,
                        (#[trigger] revisions[j]),
                        all[found.len() + j - i],
                    )
                }
        }),
    decreases revisions.len() - i,
{
    if i < revisions.len() {
        lemma_distinct_first(repo, revisions, i, found, error, t, n);
        let sha = said(t, n + 1);
        let more = found.push(sha);
        lemma_distinct_resolved(repo, revisions, i + 1, found.push(sha), error, t, n + 2);
        let outer = resolving_distinct(repo, revisions, i, found, error, n);
        let inner = resolving_distinct(repo, revisions, i + 1, found.push(sha), error, n + 2);
        let all = resolve_distinct_flow(repo, revisions, i, found, error, t, n)->Got_0;
        assert(all.take(found.len() as int) =~= found) by {
            assert forall|k: int| 0 <= k < found.len() implies all[k] == found[k] by {
                assert(all.take(more.len() as int)[k] == more[k]);
            }
        }
        assert(all[found.len() as int] == sha) by {
            assert(all.take(more.len() as int)[found.len() as int] == more[found.len() as int]);
        }
        assert forall|j: int| i <= j < revisions.len() implies resolved(
            outer,
            t,
            n + 2 * (j - i) + 1,
            repo,
            (#[trigger] revisions[j]),
            all[found.len() + j - i],
        ) by {
            if j > i {
                let p = n + 2 + 2 * (j - (i + 1)) + 1;
                assert(resolved(inner, t, p, repo, revisions[j], all[more.len() + j - (i + 1)]));
                lemma_answered(
                    outer,
                    inner,
                    t,
                    n + 2,
                    p,
                    repo,
                    Command::ResolveCommit { revision: revisions[j] },
                );
                assert(p == n + 2 * (j - i) + 1);
                assert(more.len() + j - (i + 1) == found.len() + j - i);
            }
        }
    }
}

/// Resolving revisions from `i` on, as a part of an operation.
pub open spec fn resolving_changes(
    repo: Text,
    changes: Seq<RewordView>,
    i: int,
    found: Seq<Text>,
    n: int,
) -> spec_fn(Seq<Reply>) -> FlowView<Seq<Text>> {
    |t: Seq<Reply>| resolve_changes_flow(repo, changes, i, found, t, n)
}

#[verifier::rlimit(40)]
proof fn lemma_changes_first(
    repo: Text,
    changes: Seq<RewordView>,
    i: int,
    found: Seq<Text>,
    t: Seq<Reply>,
    n: int,
)
    requires
        0 <= n <= t.len(),
        0 <= i < changes.len(),
        resolve_changes_flow(repo, changes, i, found, t, n) is Got,
    ensures
        ({
            let op = resolving_changes(repo, changes, i, found, n);
            let sha = said(t, n + 1);
            &&& n + 2 <= t.len()
            &&& resolve_changes_flow(repo, changes, i, found, t, n)
                == resolve_changes_flow(repo, changes, i + 1, found.push(sha), t, n + 2)
            &&& performed(
                op,
                t,
                n + 1,
                repo,
                Command::ResolveCommit { revision: changes[i].commit },
            )
            &&& carries(
                op,
                resolving_changes(repo, changes, i + 1, found.push(sha), n + 2),
                t,
                n + 2,
            )
        }),
{
    broadcast use commit_reads;

    let op = resolving_changes(repo, changes, i, found, n);
    let sha = said(t, n + 1);
    let inner = resolving_changes(repo, changes, i + 1, found.push(sha), n + 2);
    assert(resolve_commit_flow(repo, changes[i].commit, t, n) == FlowView::Got(sha, n + 2));
    assert(op(t.take(n + 1)) == resolve_changes_flow(repo, changes, i, found, t.take(n + 1), n));
    assert forall|p: int|
        n + 2 <= p <= t.len() && request(inner(#[trigger] t.take(p))) is Some implies request(
        op(t.take(p)),
    ) == request(inner(t.take(p))) by {
        let s = t.take(p);
        assert(agree(t, s, n + 2));
        assert(resolve_commit_flow(repo, changes[i].commit, s, n) == FlowView::Got(sha, n + 2));
        assert(op(s) == resolve_changes_flow(repo, changes, i, found, s, n));
        assert(inner(s) == resolve_changes_flow(repo, changes, i + 1, found.push(sha), s, n + 2));
    }
}

/// Every revision from `i` on is resolved, in order, and what it is resolved to
/// is added.
#[verifier::rlimit(40)]
pub proof fn lemma_changes_resolved(
    repo: Text,
    changes: Seq<RewordView>,
    i: int,
    found: Seq<Text>,
    t: Seq<Reply>,
    n: int,
)
    requires
        0 <= n <= t.len(),
        0 <= i <= changes.len(),
        resolve_changes_flow(repo, changes, i, found, t, n) is Got,
    ensures
        ({
            let rest = changes.len() - i;
            let all = resolve_changes_flow(repo, changes, i, found, t, n)->Got_0;
            &&& n + 2 * rest <= t.len()
            &&& resolve_changes_flow(repo, changes, i, found, t, n)
                == FlowView::Got(all, n + 2 * rest)
            &&& all.len() == found.len() + rest
            &&& all.take(found.len() as int) =~= found
            &&& forall|j: int|
                i <= j < changes.len() ==> {
                    &&& resolved(
                        resolving_changes(repo, changes, i, found, n),
                        t,
                        n + 2 * (j - i) + 1,
                        repo,
                        (#[trigger] changes[j]).commit,
                        all[found.len() + j - i],
                    )
                }
        }),
    decreases changes.len() - i,
{
    if i < changes.len() {
        lemma_changes_first(repo, changes, i, found, t, n);
        let sha = said(t, n + 1);
        let more = found.push(sha);
        lemma_changes_resolved(repo, changes, i + 1, found.push(sha), t, n + 2);
        let outer = resolving_changes(repo, changes, i, found, n);
        let inner = resolving_changes(repo, changes, i + 1, found.push(sha), n + 2);
        let all = resolve_changes_flow(repo, changes, i, found, t, n)->Got_0;
        assert(all.take(found.len() as int) =~= found) by {
            assert forall|k: int| 0 <= k < found.len() implies all[k] == found[k] by {
                assert(all.take(more.len() as int)[k] == more[k]);
            }
        }
        assert(all[found.len() as int] == sha) by {
            assert(all.take(more.len() as int)[found.len() as int] == more[found.len() as int]);
        }
        assert forall|j: int| i <= j < changes.len() implies resolved(
            outer,
            t,
            n + 2 * (j - i) + 1,
            repo,
            (#[trigger] changes[j]).commit,
            all[found.len() + j - i],
        ) by {
            if j > i {
                let p = n + 2 + 2 * (j - (i + 1)) + 1;
                assert(
                    resolved(inner, t, p, repo, changes[j].commit, all[more.len() + j - (i + 1)])
                );
                lemma_answered(
                    outer,
                    inner,
                    t,
                    n + 2,
                    p,
                    repo,
                    Command::ResolveCommit { revision: changes[j].commit },
                );
                assert(p == n + 2 * (j - i) + 1);
                assert(more.len() + j - (i + 1) == found.len() + j - i);
            }
        }
    }
}

/// Resolving revisions from `i` on, as a part of an operation.
pub open spec fn resolving_all(
    repo: Text,
    revisions: Seq<Text>,
    i: int,
    found: Seq<Text>,
    n: int,
) -> spec_fn(Seq<Reply>) -> FlowView<Seq<Text>> {
    |t: Seq<Reply>| resolve_all_flow(repo, revisions, i, found, t, n)
}

#[verifier::rlimit(40)]
proof fn lemma_commits_first(
    repo: Text,
    revisions: Seq<Text>,
    i: int,
    found: Seq<Text>,
    t: Seq<Reply>,
    n: int,
)
    requires
        0 <= n <= t.len(),
        0 <= i < revisions.len(),
        resolve_all_flow(repo, revisions, i, found, t, n) is Got,
    ensures
        ({
            let op = resolving_all(repo, revisions, i, found, n);
            let sha = said(t, n + 1);
            &&& n + 2 <= t.len()
            &&& resolve_all_flow(repo, revisions, i, found, t, n)
                == resolve_all_flow(repo, revisions, i + 1, found.push(sha), t, n + 2)
            &&& performed(op, t, n + 1, repo, Command::ResolveCommit { revision: revisions[i] })
            &&& carries(op, resolving_all(repo, revisions, i + 1, found.push(sha), n + 2), t, n + 2)
        }),
{
    broadcast use commit_reads;

    let op = resolving_all(repo, revisions, i, found, n);
    let sha = said(t, n + 1);
    let inner = resolving_all(repo, revisions, i + 1, found.push(sha), n + 2);
    assert(resolve_commit_flow(repo, revisions[i], t, n) == FlowView::Got(sha, n + 2));
    assert(op(t.take(n + 1)) == resolve_all_flow(repo, revisions, i, found, t.take(n + 1), n));
    assert forall|p: int|
        n + 2 <= p <= t.len() && request(inner(#[trigger] t.take(p))) is Some implies request(
        op(t.take(p)),
    ) == request(inner(t.take(p))) by {
        let s = t.take(p);
        assert(agree(t, s, n + 2));
        assert(resolve_commit_flow(repo, revisions[i], s, n) == FlowView::Got(sha, n + 2));
        assert(op(s) == resolve_all_flow(repo, revisions, i, found, s, n));
        assert(inner(s) == resolve_all_flow(repo, revisions, i + 1, found.push(sha), s, n + 2));
    }
}

/// Every revision from `i` on is resolved, in order, and what it is resolved to
/// is added.
#[verifier::rlimit(40)]
pub proof fn lemma_commits_resolved(
    repo: Text,
    revisions: Seq<Text>,
    i: int,
    found: Seq<Text>,
    t: Seq<Reply>,
    n: int,
)
    requires
        0 <= n <= t.len(),
        0 <= i <= revisions.len(),
        resolve_all_flow(repo, revisions, i, found, t, n) is Got,
    ensures
        ({
            let rest = revisions.len() - i;
            let all = resolve_all_flow(repo, revisions, i, found, t, n)->Got_0;
            &&& n + 2 * rest <= t.len()
            &&& resolve_all_flow(repo, revisions, i, found, t, n)
                == FlowView::Got(all, n + 2 * rest)
            &&& all.len() == found.len() + rest
            &&& all.take(found.len() as int) =~= found
            &&& forall|j: int|
                i <= j < revisions.len() ==> {
                    &&& resolved(
                        resolving_all(repo, revisions, i, found, n),
                        t,
                        n + 2 * (j - i) + 1,
                        repo,
                        (#[trigger] revisions[j]),
                        all[found.len() + j - i],
                    )
                }
        }),
    decreases revisions.len() - i,
{
    if i < revisions.len() {
        lemma_commits_first(repo, revisions, i, found, t, n);
        let sha = said(t, n + 1);
        let more = found.push(sha);
        lemma_commits_resolved(repo, revisions, i + 1, found.push(sha), t, n + 2);
        let outer = resolving_all(repo, revisions, i, found, n);
        let inner = resolving_all(repo, revisions, i + 1, found.push(sha), n + 2);
        let all = resolve_all_flow(repo, revisions, i, found, t, n)->Got_0;
        assert(all.take(found.len() as int) =~= found) by {
            assert forall|k: int| 0 <= k < found.len() implies all[k] == found[k] by {
                assert(all.take(more.len() as int)[k] == more[k]);
            }
        }
        assert(all[found.len() as int] == sha) by {
            assert(all.take(more.len() as int)[found.len() as int] == more[found.len() as int]);
        }
        assert forall|j: int| i <= j < revisions.len() implies resolved(
            outer,
            t,
            n + 2 * (j - i) + 1,
            repo,
            (#[trigger] revisions[j]),
            all[found.len() + j - i],
        ) by {
            if j > i {
                let p = n + 2 + 2 * (j - (i + 1)) + 1;
                assert(resolved(inner, t, p, repo, revisions[j], all[more.len() + j - (i + 1)]));
                lemma_answered(
                    outer,
                    inner,
                    t,
                    n + 2,
                    p,
                    repo,
                    Command::ResolveCommit { revision: revisions[j] },
                );
                assert(p == n + 2 * (j - i) + 1);
                assert(more.len() + j - (i + 1) == found.len() + j - i);
            }
        }
    }
}

} // verus!
