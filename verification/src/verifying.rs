//! What verifying that commits and tags are unpublished comes to, held against
//! what was asked and told.
use crate::command::Command;
use crate::dialogue::{carries, lemma_answered, lemma_carried, output_at, performed, request};
use crate::extent::{agree, commits_reads, git_reads, published_commits_reads, tag_names_reads};
use crate::flow::{git_flow, FlowView, Reply};
use crate::publication::{
    look_up_flow, published_commits_flow, published_tags_flow, resolve_all_flow,
    validate_tags_flow, verify_unpublished_flow, PublicationArgsView, PublishedCommitView,
    PublishedTagView, VerificationView,
};
use crate::queries::listing;
use crate::resolving::{lemma_commits_resolved, resolved, resolving_all};
use crate::server::GitServer;
use crate::text::Text;
use vstd::prelude::*;

verus! {

/// What was told of each commit, from position `n` on: the references of the
/// remote that contain it.
pub open spec fn commits_seen(t: Seq<Reply>, n: int, commits: Seq<Text>) -> Seq<
    PublishedCommitView,
> {
    Seq::new(
        commits.len(),
        |j: int|
            PublishedCommitView {
                commit: commits[j],
                refs: listing(output_at(t, n + j).stdout),
            },
    )
}

/// What was told of each tag, from position `n` on: the lines in which the
/// remote lists it.
pub open spec fn tags_seen(t: Seq<Reply>, n: int, tags: Seq<Text>) -> Seq<PublishedTagView> {
    Seq::new(
        tags.len(),
        |j: int|
            PublishedTagView { tag: tags[j], remote_lines: listing(output_at(t, n + j).stdout) },
    )
}

// ---------------------------------------------------------------------------
// Loops
// ---------------------------------------------------------------------------

spec fn commits_part(
    repo: Text,
    remote: Text,
    commits: Seq<Text>,
    i: int,
    found: Seq<PublishedCommitView>,
    n: int,
) -> spec_fn(Seq<Reply>) -> FlowView<Seq<PublishedCommitView>> {
    |t: Seq<Reply>| published_commits_flow(repo, remote, commits, i, found, t, n)
}

#[verifier::rlimit(40)]
proof fn lemma_commits_first(
    repo: Text,
    remote: Text,
    commits: Seq<Text>,
    i: int,
    found: Seq<PublishedCommitView>,
    t: Seq<Reply>,
    n: int,
)
    requires
        0 <= n <= t.len(),
        0 <= i < commits.len(),
        published_commits_flow(repo, remote, commits, i, found, t, n) is Got,
    ensures
        ({
            let more = if listing(output_at(t, n).stdout).len() > 0 {
                found.push(
                    PublishedCommitView {
                        commit: commits[i],
                        refs: listing(output_at(t, n).stdout),
                    },
                )
            } else {
                found
            };
            &&& n + 1 <= t.len()
            &&& published_commits_flow(repo, remote, commits, i, found, t, n)
                == published_commits_flow(repo, remote, commits, i + 1, more, t, n + 1)
            &&& performed(
                commits_part(repo, remote, commits, i, found, n),
                t,
                n,
                repo,
                Command::RemoteRefsOf { remote, commit: commits[i] },
            )
            &&& carries(
                commits_part(repo, remote, commits, i, found, n),
                commits_part(repo, remote, commits, i + 1, more, n + 1),
                t,
                n + 1,
            )
        }),
{
    let more = if listing(output_at(t, n).stdout).len() > 0 {
        found.push(
            PublishedCommitView { commit: commits[i], refs: listing(output_at(t, n).stdout) },
        )
    } else {
        found
    };
    let op = commits_part(repo, remote, commits, i, found, n);
    let inner = commits_part(repo, remote, commits, i + 1, more, n + 1);
    assert(
        git_flow(repo, Command::RemoteRefsOf { remote, commit: commits[i] }, t, n)
            == FlowView::Got(output_at(t, n), n + 1)
    );
    assert(op(t.take(n)) == published_commits_flow(repo, remote, commits, i, found, t.take(n), n));
    assert forall|p: int|
        n + 1 <= p <= t.len() && request(inner(#[trigger] t.take(p))) is Some implies request(
        op(t.take(p)),
    ) == request(inner(t.take(p))) by {
        let s = t.take(p);
        assert(agree(t, s, n + 1));
        git_reads(repo, Command::RemoteRefsOf { remote, commit: commits[i] }, t, s, n);
        assert(op(s) == published_commits_flow(repo, remote, commits, i, found, s, n));
        assert(inner(s) == published_commits_flow(repo, remote, commits, i + 1, more, s, n + 1));
    }
}

/// Every commit from `i` on is looked up, in order, and those that are listed
/// are kept.
#[verifier::rlimit(40)]
proof fn lemma_commits(
    repo: Text,
    remote: Text,
    commits: Seq<Text>,
    i: int,
    found: Seq<PublishedCommitView>,
    t: Seq<Reply>,
    n: int,
)
    requires
        0 <= n <= t.len(),
        0 <= i <= commits.len(),
        published_commits_flow(repo, remote, commits, i, found, t, n) is Got,
    ensures
        n + commits.len() - i <= t.len(),
        published_commits_flow(repo, remote, commits, i, found, t, n)->Got_1
            == n + commits.len() - i,
        ({
            let seen = commits_seen(t, n - i, commits);
            let kept = |x: PublishedCommitView| x.refs.len() > 0;
            found == seen.take(i).filter(kept) ==> published_commits_flow(
                repo,
                remote,
                commits,
                i,
                found,
                t,
                n,
            )->Got_0 == seen.filter(kept)
        }),
        forall|j: int|
            i <= j < commits.len() ==> performed(
                commits_part(repo, remote, commits, i, found, n),
                t,
                n + j - i,
                repo,
                Command::RemoteRefsOf { remote, commit: #[trigger] commits[j] },
            ),
    decreases commits.len() - i,
{
    let seen = commits_seen(t, n - i, commits);
    let kept = |x: PublishedCommitView| x.refs.len() > 0;
    if i < commits.len() {
        let more = if listing(output_at(t, n).stdout).len() > 0 {
            found.push(
                PublishedCommitView { commit: commits[i], refs: listing(output_at(t, n).stdout) },
            )
        } else {
            found
        };
        lemma_commits_first(repo, remote, commits, i, found, t, n);
        lemma_commits(repo, remote, commits, i + 1, more, t, n + 1);
        assert(seen.take(i + 1) =~= seen.take(i).push(seen[i]));
        assert(seen.take(i + 1).drop_last() =~= seen.take(i));
        reveal(Seq::filter);
        assert(n + 1 - (i + 1) == n - i);
        let outer = commits_part(repo, remote, commits, i, found, n);
        let inner = commits_part(repo, remote, commits, i + 1, more, n + 1);
        assert forall|j: int| i <= j < commits.len() implies performed(
            outer,
            t,
            n + j - i,
            repo,
            Command::RemoteRefsOf { remote, commit: #[trigger] commits[j] },
        ) by {
            if j > i {
                assert(
                    performed(
                        inner,
                        t,
                        n + 1 + j - (i + 1),
                        repo,
                        Command::RemoteRefsOf { remote, commit: commits[j] },
                    )
                );
                lemma_answered(
                    outer,
                    inner,
                    t,
                    n + 1,
                    n + j - i,
                    repo,
                    Command::RemoteRefsOf { remote, commit: commits[j] },
                );
            }
        }
    } else {
        assert(seen.take(i) =~= seen);
    }
}

spec fn tags_part(
    repo: Text,
    remote: Text,
    tags: Seq<Text>,
    i: int,
    found: Seq<PublishedTagView>,
    n: int,
) -> spec_fn(Seq<Reply>) -> FlowView<Seq<PublishedTagView>> {
    |t: Seq<Reply>| published_tags_flow(repo, remote, tags, i, found, t, n)
}

#[verifier::rlimit(40)]
proof fn lemma_tags_first(
    repo: Text,
    remote: Text,
    tags: Seq<Text>,
    i: int,
    found: Seq<PublishedTagView>,
    t: Seq<Reply>,
    n: int,
)
    requires
        0 <= n <= t.len(),
        0 <= i < tags.len(),
        published_tags_flow(repo, remote, tags, i, found, t, n) is Got,
    ensures
        ({
            let more = if listing(output_at(t, n).stdout).len() > 0 {
                found.push(
                    PublishedTagView { tag: tags[i], remote_lines: listing(output_at(t, n).stdout) },
                )
            } else {
                found
            };
            &&& n + 1 <= t.len()
            &&& published_tags_flow(repo, remote, tags, i, found, t, n)
                == published_tags_flow(repo, remote, tags, i + 1, more, t, n + 1)
            &&& performed(
                tags_part(repo, remote, tags, i, found, n),
                t,
                n,
                repo,
                Command::RemoteTag { remote, tag: tags[i] },
            )
            &&& carries(
                tags_part(repo, remote, tags, i, found, n),
                tags_part(repo, remote, tags, i + 1, more, n + 1),
                t,
                n + 1,
            )
        }),
{
    let more = if listing(output_at(t, n).stdout).len() > 0 {
        found.push(PublishedTagView { tag: tags[i], remote_lines: listing(output_at(t, n).stdout) })
    } else {
        found
    };
    let op = tags_part(repo, remote, tags, i, found, n);
    let inner = tags_part(repo, remote, tags, i + 1, more, n + 1);
    assert(
        git_flow(repo, Command::RemoteTag { remote, tag: tags[i] }, t, n)
            == FlowView::Got(output_at(t, n), n + 1)
    );
    assert(op(t.take(n)) == published_tags_flow(repo, remote, tags, i, found, t.take(n), n));
    assert forall|p: int|
        n + 1 <= p <= t.len() && request(inner(#[trigger] t.take(p))) is Some implies request(
        op(t.take(p)),
    ) == request(inner(t.take(p))) by {
        let s = t.take(p);
        assert(agree(t, s, n + 1));
        git_reads(repo, Command::RemoteTag { remote, tag: tags[i] }, t, s, n);
        assert(op(s) == published_tags_flow(repo, remote, tags, i, found, s, n));
        assert(inner(s) == published_tags_flow(repo, remote, tags, i + 1, more, s, n + 1));
    }
}

/// Every tag from `i` on is looked up, in order, and those that are listed are
/// kept.
#[verifier::rlimit(40)]
proof fn lemma_tags(
    repo: Text,
    remote: Text,
    tags: Seq<Text>,
    i: int,
    found: Seq<PublishedTagView>,
    t: Seq<Reply>,
    n: int,
)
    requires
        0 <= n <= t.len(),
        0 <= i <= tags.len(),
        published_tags_flow(repo, remote, tags, i, found, t, n) is Got,
    ensures
        n + tags.len() - i <= t.len(),
        published_tags_flow(repo, remote, tags, i, found, t, n)->Got_1 == n + tags.len() - i,
        ({
            let seen = tags_seen(t, n - i, tags);
            let kept = |x: PublishedTagView| x.remote_lines.len() > 0;
            found == seen.take(i).filter(kept) ==> published_tags_flow(
                repo,
                remote,
                tags,
                i,
                found,
                t,
                n,
            )->Got_0 == seen.filter(kept)
        }),
        forall|j: int|
            i <= j < tags.len() ==> performed(
                tags_part(repo, remote, tags, i, found, n),
                t,
                n + j - i,
                repo,
                Command::RemoteTag { remote, tag: #[trigger] tags[j] },
            ),
    decreases tags.len() - i,
{
    let seen = tags_seen(t, n - i, tags);
    let kept = |x: PublishedTagView| x.remote_lines.len() > 0;
    if i < tags.len() {
        let more = if listing(output_at(t, n).stdout).len() > 0 {
            found.push(
                PublishedTagView { tag: tags[i], remote_lines: listing(output_at(t, n).stdout) },
            )
        } else {
            found
        };
        lemma_tags_first(repo, remote, tags, i, found, t, n);
        lemma_tags(repo, remote, tags, i + 1, more, t, n + 1);
        assert(seen.take(i + 1) =~= seen.take(i).push(seen[i]));
        assert(seen.take(i + 1).drop_last() =~= seen.take(i));
        reveal(Seq::filter);
        assert(n + 1 - (i + 1) == n - i);
        let outer = tags_part(repo, remote, tags, i, found, n);
        let inner = tags_part(repo, remote, tags, i + 1, more, n + 1);
        assert forall|j: int| i <= j < tags.len() implies performed(
            outer,
            t,
            n + j - i,
            repo,
            Command::RemoteTag { remote, tag: #[trigger] tags[j] },
        ) by {
            if j > i {
                assert(
                    performed(
                        inner,
                        t,
                        n + 1 + j - (i + 1),
                        repo,
                        Command::RemoteTag { remote, tag: tags[j] },
                    )
                );
                lemma_answered(
                    outer,
                    inner,
                    t,
                    n + 1,
                    n + j - i,
                    repo,
                    Command::RemoteTag { remote, tag: tags[j] },
                );
            }
        }
    } else {
        assert(seen.take(i) =~= seen);
    }
}

spec fn names_part(
    repo: Text,
    tags: Seq<Text>,
    i: int,
    n: int,
) -> spec_fn(Seq<Reply>) -> FlowView<()> {
    |t: Seq<Reply>| validate_tags_flow(repo, tags, i, t, n)
}

#[verifier::rlimit(40)]
proof fn lemma_names_first(
    repo: Text,
    tags: Seq<Text>,
    i: int,
    t: Seq<Reply>,
    n: int,
)
    requires
        0 <= n <= t.len(),
        0 <= i < tags.len(),
        validate_tags_flow(repo, tags, i, t, n) is Got,
    ensures
        ({
            &&& n + 1 <= t.len()
            &&& validate_tags_flow(repo, tags, i, t, n)
                == validate_tags_flow(repo, tags, i + 1, t, n + 1)
            &&& performed(
                names_part(repo, tags, i, n),
                t,
                n,
                repo,
                Command::CheckTagName { name: tags[i] },
            )
            &&& carries(
                names_part(repo, tags, i, n),
                names_part(repo, tags, i + 1, n + 1),
                t,
                n + 1,
            )
        }),
{
    let op = names_part(repo, tags, i, n);
    let inner = names_part(repo, tags, i + 1, n + 1);
    assert(
        git_flow(repo, Command::CheckTagName { name: tags[i] }, t, n)
            == FlowView::Got(output_at(t, n), n + 1)
    );
    assert(op(t.take(n)) == validate_tags_flow(repo, tags, i, t.take(n), n));
    assert forall|p: int|
        n + 1 <= p <= t.len() && request(inner(#[trigger] t.take(p))) is Some implies request(
        op(t.take(p)),
    ) == request(inner(t.take(p))) by {
        let s = t.take(p);
        assert(agree(t, s, n + 1));
        git_reads(repo, Command::CheckTagName { name: tags[i] }, t, s, n);
        assert(op(s) == validate_tags_flow(repo, tags, i, s, n));
        assert(inner(s) == validate_tags_flow(repo, tags, i + 1, s, n + 1));
    }
}

/// Every tag name from `i` on is checked, in order.
#[verifier::rlimit(40)]
proof fn lemma_names(
    repo: Text,
    tags: Seq<Text>,
    i: int,
    t: Seq<Reply>,
    n: int,
)
    requires
        0 <= n <= t.len(),
        0 <= i <= tags.len(),
        validate_tags_flow(repo, tags, i, t, n) is Got,
    ensures
        n + tags.len() - i <= t.len(),
        validate_tags_flow(repo, tags, i, t, n)->Got_1 == n + tags.len() - i,
        forall|j: int|
            i <= j < tags.len() ==> performed(
                names_part(repo, tags, i, n),
                t,
                n + j - i,
                repo,
                Command::CheckTagName { name: #[trigger] tags[j] },
            ),
    decreases tags.len() - i,
{
    if i < tags.len() {
        lemma_names_first(repo, tags, i, t, n);
        lemma_names(repo, tags, i + 1, t, n + 1);
        let outer = names_part(repo, tags, i, n);
        let inner = names_part(repo, tags, i + 1, n + 1);
        assert forall|j: int| i <= j < tags.len() implies performed(
            outer,
            t,
            n + j - i,
            repo,
            Command::CheckTagName { name: #[trigger] tags[j] },
        ) by {
            if j > i {
                assert(
                    performed(
                        inner,
                        t,
                        n + 1 + j - (i + 1),
                        repo,
                        Command::CheckTagName { name: tags[j] },
                    )
                );
                lemma_answered(
                    outer,
                    inner,
                    t,
                    n + 1,
                    n + j - i,
                    repo,
                    Command::CheckTagName { name: tags[j] },
                );
            }
        }
    }
}

// ---------------------------------------------------------------------------
// The whole
// ---------------------------------------------------------------------------
/// Verifying, as a part of an operation.
pub open spec fn verifying(server: GitServer, args: PublicationArgsView, n: int) -> spec_fn(
    Seq<Reply>,
) -> FlowView<VerificationView> {
    |t: Seq<Reply>| verify_unpublished_flow(server, args, t, n)
}

spec fn looking_up(
    repo: Text,
    remote: Text,
    commits: Seq<Text>,
    tags: Seq<Text>,
    n: int,
) -> spec_fn(Seq<Reply>) -> FlowView<VerificationView> {
    |t: Seq<Reply>| look_up_flow(repo, remote, commits, tags, t, n)
}

/// What the operation asked the remote for, and was told: its references were
/// fetched, and each commit and each tag was looked up among them.
pub open spec fn remote_consulted<T>(
    operation: spec_fn(Seq<Reply>) -> FlowView<T>,
    t: Seq<Reply>,
    n: int,
    repo: Text,
    remote: Text,
    commits: Seq<Text>,
    tags: Seq<Text>,
) -> bool {
    &&& performed(operation, t, n, repo, Command::FetchTags { remote })
    &&& forall|j: int|
        0 <= j < commits.len() ==> performed(
            operation,
            t,
            n + 1 + j,
            repo,
            Command::RemoteRefsOf { remote, commit: #[trigger] commits[j] },
        )
    &&& forall|j: int|
        0 <= j < tags.len() ==> performed(
            operation,
            t,
            n + 1 + commits.len() + j,
            repo,
            Command::RemoteTag { remote, tag: #[trigger] tags[j] },
        )
}

#[verifier::rlimit(40)]
proof fn lemma_look_up_carries(
    repo: Text,
    remote: Text,
    commits: Seq<Text>,
    tags: Seq<Text>,
    t: Seq<Reply>,
    n: int,
)
    requires
        0 <= n <= t.len(),
        look_up_flow(repo, remote, commits, tags, t, n) is Got,
    ensures
        ({
            let op = looking_up(repo, remote, commits, tags, n);
            let m = n + 1 + commits.len();
            let done = look_up_flow(repo, remote, commits, tags, t, n)->Got_0;
            &&& performed(op, t, n, repo, Command::FetchTags { remote })
            &&& published_commits_flow(repo, remote, commits, 0, Seq::empty(), t, n + 1)
                == FlowView::Got(done.published_commits, m)
            &&& published_tags_flow(repo, remote, tags, 0, Seq::empty(), t, m) == FlowView::Got(
                done.published_tags,
                m + tags.len(),
            )
            &&& look_up_flow(repo, remote, commits, tags, t, n)->Got_1 == m + tags.len()
            &&& m + tags.len() <= t.len()
            &&& carries(op, commits_part(repo, remote, commits, 0, Seq::empty(), n + 1), t, n + 1)
            &&& carries(op, tags_part(repo, remote, tags, 0, Seq::empty(), m), t, m)
        }),
{
    let op = looking_up(repo, remote, commits, tags, n);
    let fetch = Command::FetchTags { remote };
    assert(git_flow(repo, fetch, t, n) == FlowView::Got(output_at(t, n), n + 1));
    assert(op(t.take(n)) == look_up_flow(repo, remote, commits, tags, t.take(n), n));
    assert(published_commits_flow(repo, remote, commits, 0, Seq::empty(), t, n + 1) is Got);
    lemma_commits(repo, remote, commits, 0, Seq::empty(), t, n + 1);
    let m = n + 1 + commits.len();
    lemma_tags(repo, remote, tags, 0, Seq::empty(), t, m);
    let one = commits_part(repo, remote, commits, 0, Seq::empty(), n + 1);
    assert forall|p: int|
        n + 1 <= p <= t.len() && request(one(#[trigger] t.take(p))) is Some implies request(
        op(t.take(p)),
    ) == request(one(t.take(p))) by {
        let s = t.take(p);
        assert(op(s) == look_up_flow(repo, remote, commits, tags, s, n));
        assert(agree(t, s, n + 1));
        git_reads(repo, fetch, t, s, n);
        assert(one(s) == published_commits_flow(
            repo,
            remote,
            commits,
            0,
            Seq::empty(),
            s,
            n + 1,
        ));
    }
    let two = tags_part(repo, remote, tags, 0, Seq::empty(), m);
    assert forall|p: int|
        m <= p <= t.len() && request(two(#[trigger] t.take(p))) is Some implies request(
        op(t.take(p)),
    ) == request(two(t.take(p))) by {
        let s = t.take(p);
        assert(op(s) == look_up_flow(repo, remote, commits, tags, s, n));
        assert(agree(t, s, n + 1) && agree(t, s, m));
        git_reads(repo, fetch, t, s, n);
        published_commits_reads(repo, remote, commits, 0, Seq::empty(), t, s, n + 1);
        assert(two(s) == published_tags_flow(repo, remote, tags, 0, Seq::empty(), s, m));
    }
}

#[verifier::rlimit(40)]
proof fn lemma_look_up<T>(
    operation: spec_fn(Seq<Reply>) -> FlowView<T>,
    repo: Text,
    remote: Text,
    commits: Seq<Text>,
    tags: Seq<Text>,
    t: Seq<Reply>,
    n: int,
)
    requires
        0 <= n <= t.len(),
        look_up_flow(repo, remote, commits, tags, t, n) is Got,
        carries(operation, looking_up(repo, remote, commits, tags, n), t, n),
    ensures
        ({
            let m = n + 1 + commits.len();
            let done = look_up_flow(repo, remote, commits, tags, t, n)->Got_0;
            &&& remote_consulted(operation, t, n, repo, remote, commits, tags)
            &&& look_up_flow(repo, remote, commits, tags, t, n)->Got_1 == m + tags.len()
            &&& m + tags.len() <= t.len()
            &&& done.remote == remote
            &&& done.fetched
            &&& done.commits_checked == commits
            &&& done.tags_checked == tags
            &&& done.published_commits == commits_seen(t, n + 1, commits).filter(
                |x: PublishedCommitView| x.refs.len() > 0,
            )
            &&& done.published_tags == tags_seen(t, m, tags).filter(
                |x: PublishedTagView| x.remote_lines.len() > 0,
            )
            &&& done.unpublished <==> done.published_commits.len() == 0
                && done.published_tags.len() == 0
        }),
{
    lemma_look_up_carries(repo, remote, commits, tags, t, n);
    let op = looking_up(repo, remote, commits, tags, n);
    let m = n + 1 + commits.len();
    lemma_answered(operation, op, t, n, n, repo, Command::FetchTags { remote });
    let one = commits_part(repo, remote, commits, 0, Seq::empty(), n + 1);
    let two = tags_part(repo, remote, tags, 0, Seq::empty(), m);
    lemma_carried(operation, op, one, t, n, n + 1);
    lemma_carried(operation, op, two, t, n, m);
    lemma_commits(repo, remote, commits, 0, Seq::empty(), t, n + 1);
    lemma_tags(repo, remote, tags, 0, Seq::empty(), t, m);
    reveal(Seq::filter);
    let kept = |x: PublishedCommitView| x.refs.len() > 0;
    let kept_tags = |x: PublishedTagView| x.remote_lines.len() > 0;
    assert(commits_seen(t, n + 1, commits).take(0).filter(kept) =~= Seq::empty());
    assert(tags_seen(t, m, tags).take(0).filter(kept_tags) =~= Seq::empty());
    assert forall|j: int| 0 <= j < commits.len() implies performed(
        operation,
        t,
        n + 1 + j,
        repo,
        Command::RemoteRefsOf { remote, commit: #[trigger] commits[j] },
    ) by {
        let command = Command::RemoteRefsOf { remote, commit: commits[j] };
        assert(performed(one, t, n + 1 + j - 0, repo, command));
        lemma_answered(operation, one, t, n + 1, n + 1 + j, repo, command);
    }
    assert forall|j: int| 0 <= j < tags.len() implies performed(
        operation,
        t,
        m + j,
        repo,
        Command::RemoteTag { remote, tag: #[trigger] tags[j] },
    ) by {
        let command = Command::RemoteTag { remote, tag: tags[j] };
        assert(performed(two, t, m + j - 0, repo, command));
        lemma_answered(operation, two, t, m, m + j, repo, command);
    }
}

/// What the operation was told of what it is to verify: the remote is one of
/// the repository, each revision names a commit, and each tag name is one.
pub open spec fn names_told<T>(
    operation: spec_fn(Seq<Reply>) -> FlowView<T>,
    t: Seq<Reply>,
    n: int,
    args: PublicationArgsView,
    remote: Text,
    commits: Seq<Text>,
) -> bool {
    &&& performed(operation, t, n, args.repo, Command::RemoteUrl { remote })
    &&& commits.len() == args.commits.len()
    &&& forall|j: int|
        0 <= j < args.commits.len() ==> resolved(
            operation,
            t,
            n + 2 + 2 * j,
            args.repo,
            #[trigger] args.commits[j],
            commits[j],
        )
    &&& forall|j: int|
        0 <= j < args.tags.len() ==> performed(
            operation,
            t,
            n + 1 + 2 * args.commits.len() + j,
            args.repo,
            Command::CheckTagName { name: #[trigger] args.tags[j] },
        )
}

/// The remote that is asked where none is named is `origin`.
pub open spec fn remote_of(args: PublicationArgsView) -> Text {
    match args.remote {
        Some(remote) => remote,
        None => "origin"@,
    }
}

#[verifier::rlimit(40)]
proof fn lemma_verifying_parts(
    server: GitServer,
    args: PublicationArgsView,
    t: Seq<Reply>,
    n: int,
)
    requires
        0 <= n <= t.len(),
        verify_unpublished_flow(server, args, t, n) is Got,
    ensures
        ({
            let remote = remote_of(args);
            let done = verify_unpublished_flow(server, args, t, n)->Got_0;
            let a = n + 1 + 2 * args.commits.len();
            let b = a + args.tags.len();
            &&& server.allow_remote_read
            &&& !server.read_only
            &&& git_flow(args.repo, Command::RemoteUrl { remote }, t, n) == FlowView::Got(
                output_at(t, n),
                n + 1,
            )
            &&& resolve_all_flow(args.repo, args.commits, 0, Seq::empty(), t, n + 1)
                == FlowView::Got(done.commits_checked, a)
            &&& validate_tags_flow(args.repo, args.tags, 0, t, a) == FlowView::Got((), b)
            &&& b <= t.len()
            &&& look_up_flow(args.repo, remote, done.commits_checked, args.tags, t, b)
                == verify_unpublished_flow(server, args, t, n)
        }),
{
    let remote = remote_of(args);
    assert(git_flow(args.repo, Command::RemoteUrl { remote }, t, n) == FlowView::Got(
        output_at(t, n),
        n + 1,
    ));
    assert(resolve_all_flow(args.repo, args.commits, 0, Seq::empty(), t, n + 1) is Got);
    lemma_commits_resolved(args.repo, args.commits, 0, Seq::empty(), t, n + 1);
    let a = n + 1 + 2 * args.commits.len();
    lemma_names(args.repo, args.tags, 0, t, a);
}

#[verifier::rlimit(40)]
proof fn lemma_verifying_resolves(
    server: GitServer,
    args: PublicationArgsView,
    t: Seq<Reply>,
    n: int,
)
    requires
        0 <= n <= t.len(),
        verify_unpublished_flow(server, args, t, n) is Got,
    ensures
        performed(
            verifying(server, args, n),
            t,
            n,
            args.repo,
            Command::RemoteUrl { remote: remote_of(args) },
        ),
        carries(
            verifying(server, args, n),
            resolving_all(args.repo, args.commits, 0, Seq::empty(), n + 1),
            t,
            n + 1,
        ),
{
    lemma_verifying_parts(server, args, t, n);
    let op = verifying(server, args, n);
    let url = Command::RemoteUrl { remote: remote_of(args) };
    assert(op(t.take(n)) == verify_unpublished_flow(server, args, t.take(n), n));
    let one = resolving_all(args.repo, args.commits, 0, Seq::empty(), n + 1);
    assert forall|p: int|
        n + 1 <= p <= t.len() && request(one(#[trigger] t.take(p))) is Some implies request(
        op(t.take(p)),
    ) == request(one(t.take(p))) by {
        let s = t.take(p);
        assert(op(s) == verify_unpublished_flow(server, args, s, n));
        assert(agree(t, s, n + 1));
        git_reads(args.repo, url, t, s, n);
        assert(one(s) == resolve_all_flow(args.repo, args.commits, 0, Seq::empty(), s, n + 1));
    }
}

#[verifier::rlimit(40)]
proof fn lemma_verifying_names(
    server: GitServer,
    args: PublicationArgsView,
    t: Seq<Reply>,
    n: int,
)
    requires
        0 <= n <= t.len(),
        verify_unpublished_flow(server, args, t, n) is Got,
    ensures
        ({
            let a = n + 1 + 2 * args.commits.len();
            carries(verifying(server, args, n), names_part(args.repo, args.tags, 0, a), t, a)
        }),
{
    lemma_verifying_parts(server, args, t, n);
    let op = verifying(server, args, n);
    let a = n + 1 + 2 * args.commits.len();
    let url = Command::RemoteUrl { remote: remote_of(args) };
    let two = names_part(args.repo, args.tags, 0, a);
    assert forall|p: int|
        a <= p <= t.len() && request(two(#[trigger] t.take(p))) is Some implies request(
        op(t.take(p)),
    ) == request(two(t.take(p))) by {
        let s = t.take(p);
        assert(op(s) == verify_unpublished_flow(server, args, s, n));
        assert(agree(t, s, n + 1) && agree(t, s, a));
        git_reads(args.repo, url, t, s, n);
        commits_reads(args.repo, args.commits, 0, Seq::empty(), t, s, n + 1);
        assert(two(s) == validate_tags_flow(args.repo, args.tags, 0, s, a));
    }
}

#[verifier::rlimit(40)]
proof fn lemma_verifying_looks_up(
    server: GitServer,
    args: PublicationArgsView,
    t: Seq<Reply>,
    n: int,
)
    requires
        0 <= n <= t.len(),
        verify_unpublished_flow(server, args, t, n) is Got,
    ensures
        ({
            let done = verify_unpublished_flow(server, args, t, n)->Got_0;
            let b = n + 1 + 2 * args.commits.len() + args.tags.len();
            carries(
                verifying(server, args, n),
                looking_up(args.repo, remote_of(args), done.commits_checked, args.tags, b),
                t,
                b,
            )
        }),
{
    lemma_verifying_parts(server, args, t, n);
    let op = verifying(server, args, n);
    let remote = remote_of(args);
    let done = verify_unpublished_flow(server, args, t, n)->Got_0;
    let a = n + 1 + 2 * args.commits.len();
    let b = a + args.tags.len();
    let url = Command::RemoteUrl { remote };
    let three = looking_up(args.repo, remote, done.commits_checked, args.tags, b);
    assert forall|p: int|
        b <= p <= t.len() && request(three(#[trigger] t.take(p))) is Some implies request(
        op(t.take(p)),
    ) == request(three(t.take(p))) by {
        let s = t.take(p);
        assert(op(s) == verify_unpublished_flow(server, args, s, n));
        assert(agree(t, s, n + 1) && agree(t, s, a) && agree(t, s, b));
        git_reads(args.repo, url, t, s, n);
        commits_reads(args.repo, args.commits, 0, Seq::empty(), t, s, n + 1);
        tag_names_reads(args.repo, args.tags, 0, t, s, a);
        assert(three(s) == look_up_flow(
            args.repo,
            remote,
            done.commits_checked,
            args.tags,
            s,
            b,
        ));
    }
}

#[verifier::rlimit(40)]
proof fn lemma_names_told(server: GitServer, args: PublicationArgsView, t: Seq<Reply>, n: int)
    requires
        0 <= n <= t.len(),
        verify_unpublished_flow(server, args, t, n) is Got,
    ensures
        names_told(
            verifying(server, args, n),
            t,
            n,
            args,
            remote_of(args),
            verify_unpublished_flow(server, args, t, n)->Got_0.commits_checked,
        ),
{
    lemma_verifying_parts(server, args, t, n);
    lemma_verifying_resolves(server, args, t, n);
    lemma_verifying_names(server, args, t, n);
    let op = verifying(server, args, n);
    let commits = verify_unpublished_flow(server, args, t, n)->Got_0.commits_checked;
    let a = n + 1 + 2 * args.commits.len();
    let one = resolving_all(args.repo, args.commits, 0, Seq::empty(), n + 1);
    let two = names_part(args.repo, args.tags, 0, a);
    lemma_commits_resolved(args.repo, args.commits, 0, Seq::empty(), t, n + 1);
    lemma_names(args.repo, args.tags, 0, t, a);
    assert forall|j: int| 0 <= j < args.commits.len() implies resolved(
        op,
        t,
        n + 2 + 2 * j,
        args.repo,
        #[trigger] args.commits[j],
        commits[j],
    ) by {
        let command = Command::ResolveCommit { revision: args.commits[j] };
        assert(resolved(one, t, n + 2 + 2 * j, args.repo, args.commits[j], commits[j]));
        lemma_answered(op, one, t, n + 1, n + 2 + 2 * j, args.repo, command);
    }
    assert forall|j: int| 0 <= j < args.tags.len() implies performed(
        op,
        t,
        a + j,
        args.repo,
        Command::CheckTagName { name: #[trigger] args.tags[j] },
    ) by {
        let command = Command::CheckTagName { name: args.tags[j] };
        assert(performed(two, t, a + j - 0, args.repo, command));
        lemma_answered(op, two, t, a, a + j, args.repo, command);
    }
}

/// A verification says what was asked for and told. Every requested revision is
/// resolved, in order, and what it names is what is checked. The remote is
/// fetched from, and every one of those commits and every requested tag is
/// looked up there. Those that are reported as published are exactly those that
/// the remote lists, in order and with the lines in which it lists them, and
/// everything is unpublished exactly where it lists none.
#[verifier::rlimit(40)]
pub proof fn law_verification_checks_all(
    server: GitServer,
    args: PublicationArgsView,
    t: Seq<Reply>,
    n: int,
)
    requires
        0 <= n <= t.len(),
        verify_unpublished_flow(server, args, t, n) is Got,
    ensures
        ({
            let op = verifying(server, args, n);
            let done = verify_unpublished_flow(server, args, t, n)->Got_0;
            let b = n + 1 + 2 * args.commits.len() + args.tags.len();
            let seen = commits_seen(t, b + 1, done.commits_checked);
            let seen_tags = tags_seen(t, b + 1 + args.commits.len(), args.tags);
            &&& server.allow_remote_read && !server.read_only
            &&& done.remote == remote_of(args)
            &&& done.fetched
            &&& done.commits_checked.len() == args.commits.len()
            &&& done.tags_checked == args.tags
            &&& names_told(op, t, n, args, done.remote, done.commits_checked)
            &&& remote_consulted(
                op,
                t,
                b,
                args.repo,
                done.remote,
                done.commits_checked,
                args.tags,
            )
            &&& done.published_commits == seen.filter(|x: PublishedCommitView| x.refs.len() > 0)
            &&& done.published_tags == seen_tags.filter(
                |x: PublishedTagView| x.remote_lines.len() > 0,
            )
            &&& done.unpublished <==> {
                &&& forall|j: int|
                    0 <= j < seen.len() ==> (#[trigger] seen[j]).refs.len() == 0
                &&& forall|j: int|
                    0 <= j < seen_tags.len() ==> (#[trigger] seen_tags[j]).remote_lines.len() == 0
            }
            &&& verify_unpublished_flow(server, args, t, n)->Got_1 == b + 1 + args.commits.len()
                + args.tags.len()
        }),
{
    lemma_verifying_parts(server, args, t, n);
    lemma_names_told(server, args, t, n);
    lemma_verifying_looks_up(server, args, t, n);
    let done = verify_unpublished_flow(server, args, t, n)->Got_0;
    let b = n + 1 + 2 * args.commits.len() + args.tags.len();
    let remote = remote_of(args);
    lemma_look_up(
        verifying(server, args, n),
        args.repo,
        remote,
        done.commits_checked,
        args.tags,
        t,
        b,
    );
    let seen = commits_seen(t, b + 1, done.commits_checked);
    let seen_tags = tags_seen(t, b + 1 + args.commits.len(), args.tags);
    lemma_filter_empty(seen, |x: PublishedCommitView| x.refs.len() > 0);
    lemma_filter_empty(seen_tags, |x: PublishedTagView| x.remote_lines.len() > 0);
}

/// Nothing is kept of a list exactly where nothing of it is to be kept.
#[verifier::rlimit(40)]
proof fn lemma_filter_empty<A>(list: Seq<A>, kept: spec_fn(A) -> bool)
    ensures
        list.filter(kept).len() == 0 <==> forall|j: int|
            0 <= j < list.len() ==> !kept(#[trigger] list[j]),
    decreases list.len(),
{
    reveal(Seq::filter);
    if list.len() > 0 {
        let init = list.drop_last();
        lemma_filter_empty(init, kept);
        if list.filter(kept).len() == 0 {
            assert forall|j: int| 0 <= j < list.len() implies !kept(#[trigger] list[j]) by {
                if j < init.len() {
                    assert(init[j] == list[j]);
                }
            }
        } else if forall|j: int| 0 <= j < list.len() ==> !kept(#[trigger] list[j]) {
            assert(!kept(list[list.len() - 1]));
            assert forall|j: int| 0 <= j < init.len() implies !kept(#[trigger] init[j]) by {
                assert(init[j] == list[j]);
            }
        }
    }
}

} // verus!
