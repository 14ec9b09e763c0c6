//! When questions are answered: every item that is asked about is gone through.
use crate::dialogue::{output_at, said};
use crate::failing::succeeded;
use crate::flow::{FlowView, Reply};
use crate::history::{
    history_plan_flow, insert_all, logged_history, published_refs_flow, HistoryCommitView,
};
use crate::planning::lookup_at;
use crate::policy::is_token;
use crate::publication::{
    published_commits_flow, published_tags_flow, resolve_all_flow, validate_tags_flow,
    verify_unpublished_flow, PublicationArgsView, PublishedCommitView, PublishedTagView,
};
use crate::queries::listing;
use crate::rewrite::unpublished_suffix_flow;
use crate::selection::resolve_distinct_flow;
use crate::server::GitServer;
use crate::text::{insert_sorted, Text};
use crate::verifying::remote_of;
use vstd::prelude::*;

verus! {

/// Every command from position `a` up to position `b` succeeded.
pub open spec fn all_succeeded(t: Seq<Reply>, a: int, b: int) -> bool {
    forall|p: int| a <= p < b ==> #[trigger] succeeded(t, p)
}

/// Every one of the texts is a token.
pub open spec fn all_tokens(texts: Seq<Text>) -> bool {
    forall|i: int| 0 <= i < texts.len() ==> is_token(#[trigger] texts[i])
}

// ---------------------------------------------------------------------------
// Verifications
// ---------------------------------------------------------------------------
proof fn lemma_resolves_all(
    repo: Text,
    revisions: Seq<Text>,
    i: int,
    found: Seq<Text>,
    t: Seq<Reply>,
    n: int,
)
    requires
        0 <= i <= revisions.len(),
        0 <= n,
        all_tokens(revisions),
        all_succeeded(t, n, n + 2 * (revisions.len() - i)),
    ensures
        resolve_all_flow(repo, revisions, i, found, t, n) matches FlowView::Got(all, m) && m == n
            + 2 * (revisions.len() - i) && all.len() == found.len() + revisions.len() - i,
    decreases revisions.len() - i,
{
    if i < revisions.len() {
        assert(is_token(revisions[i]));
        assert(succeeded(t, n) && succeeded(t, n + 1));
        lemma_resolves_all(repo, revisions, i + 1, found.push(said(t, n + 1)), t, n + 2);
    }
}

proof fn lemma_checks_all(repo: Text, tags: Seq<Text>, i: int, t: Seq<Reply>, n: int)
    requires
        0 <= i <= tags.len(),
        0 <= n,
        all_tokens(tags),
        all_succeeded(t, n, n + tags.len() - i),
    ensures
        validate_tags_flow(repo, tags, i, t, n) == FlowView::Got((), n + tags.len() - i),
    decreases tags.len() - i,
{
    if i < tags.len() {
        assert(is_token(tags[i]));
        assert(succeeded(t, n));
        lemma_checks_all(repo, tags, i + 1, t, n + 1);
    }
}

proof fn lemma_looks_up_commits(
    repo: Text,
    remote: Text,
    commits: Seq<Text>,
    i: int,
    found: Seq<PublishedCommitView>,
    t: Seq<Reply>,
    n: int,
)
    requires
        0 <= i <= commits.len(),
        0 <= n,
        all_succeeded(t, n, n + commits.len() - i),
    ensures
        published_commits_flow(repo, remote, commits, i, found, t, n) matches FlowView::Got(_, m)
            && m == n + commits.len() - i,
    decreases commits.len() - i,
{
    if i < commits.len() {
        assert(succeeded(t, n));
        let refs = listing(output_at(t, n).stdout);
        let more = if refs.len() > 0 {
            found.push(PublishedCommitView { commit: commits[i], refs })
        } else {
            found
        };
        lemma_looks_up_commits(repo, remote, commits, i + 1, more, t, n + 1);
    }
}

proof fn lemma_looks_up_tags(
    repo: Text,
    remote: Text,
    tags: Seq<Text>,
    i: int,
    found: Seq<PublishedTagView>,
    t: Seq<Reply>,
    n: int,
)
    requires
        0 <= i <= tags.len(),
        0 <= n,
        all_succeeded(t, n, n + tags.len() - i),
    ensures
        published_tags_flow(repo, remote, tags, i, found, t, n) matches FlowView::Got(_, m) && m
            == n + tags.len() - i,
    decreases tags.len() - i,
{
    if i < tags.len() {
        assert(succeeded(t, n));
        let remote_lines = listing(output_at(t, n).stdout);
        let more = if remote_lines.len() > 0 {
            found.push(PublishedTagView { tag: tags[i], remote_lines })
        } else {
            found
        };
        lemma_looks_up_tags(repo, remote, tags, i + 1, more, t, n + 1);
    }
}

/// A verification is given on a server that may change repositories and read from
/// remotes, for up to 64 commits and up to 64 tags, at least one of either, all of
/// them tokens, where every command succeeds; whether they are published or not.
pub proof fn law_verification_is_given(server: GitServer, args: PublicationArgsView, t: Seq<Reply>)
    requires
        !server.read_only,
        server.allow_remote_read,
        1 <= args.commits.len() + args.tags.len(),
        args.commits.len() <= 64,
        args.tags.len() <= 64,
        is_token(remote_of(args)),
        all_tokens(args.commits),
        all_tokens(args.tags),
        all_succeeded(t, 0, 2int + 3 * args.commits.len() + 2 * args.tags.len()),
    ensures
        verify_unpublished_flow(server, args, t, 0) is Got,
{
    let repo = args.repo;
    let remote = remote_of(args);
    let a = 1int + 2 * args.commits.len();
    let b = a + args.tags.len();
    assert(succeeded(t, 0));
    lemma_resolves_all(repo, args.commits, 0, Seq::empty(), t, 1);
    let commits = resolve_all_flow(repo, args.commits, 0, Seq::empty(), t, 1)->Got_0;
    lemma_checks_all(repo, args.tags, 0, t, a);
    assert(succeeded(t, b));
    lemma_looks_up_commits(repo, remote, commits, 0, Seq::empty(), t, b + 1);
    lemma_looks_up_tags(repo, remote, args.tags, 0, Seq::empty(), t, b + 1 + commits.len());
}

// ---------------------------------------------------------------------------
// Selections
// ---------------------------------------------------------------------------
/// Revisions that are tokens are resolved, however many they are, wherever every
/// command succeeds and no two name the same commit.
pub proof fn law_distinct_revisions_resolve(
    repo: Text,
    revisions: Seq<Text>,
    i: int,
    found: Seq<Text>,
    error: Text,
    t: Seq<Reply>,
    n: int,
)
    requires
        0 <= i <= revisions.len(),
        0 <= n,
        all_tokens(revisions),
        all_succeeded(t, n, n + 2 * (revisions.len() - i)),
        forall|j: int|
            i <= j < revisions.len() ==> !found.contains(#[trigger] said(t, n + 2 * (j - i) + 1)),
        forall|j: int, k: int|
            i <= j < k < revisions.len() ==> #[trigger] said(t, n + 2 * (j - i) + 1)
                != #[trigger] said(t, n + 2 * (k - i) + 1),
    ensures
        resolve_distinct_flow(repo, revisions, i, found, error, t, n) is Got,
    decreases revisions.len() - i,
{
    if i < revisions.len() {
        assert(is_token(revisions[i]));
        assert(succeeded(t, n) && succeeded(t, n + 1));
        let sha = said(t, n + 2 * (i - i) + 1);
        assert(!found.contains(sha));
        let more = found.push(sha);
        assert forall|j: int| i + 1 <= j < revisions.len() implies !more.contains(
            #[trigger] said(t, n + 2 + 2 * (j - (i + 1)) + 1),
        ) by {
            let other = said(t, n + 2 * (j - i) + 1);
            assert(n + 2 + 2 * (j - (i + 1)) + 1 == n + 2 * (j - i) + 1);
            assert(!found.contains(other) && other != sha);
            if more.contains(other) {
                let k = choose|k: int| 0 <= k < more.len() && more[k] == other;
                assert(k < found.len() ==> found[k] == other);
            }
        }
        assert forall|j: int, k: int| i + 1 <= j < k < revisions.len() implies #[trigger] said(
            t,
            n + 2 + 2 * (j - (i + 1)) + 1,
        ) != #[trigger] said(t, n + 2 + 2 * (k - (i + 1)) + 1) by {
            assert(n + 2 + 2 * (j - (i + 1)) + 1 == n + 2 * (j - i) + 1);
            assert(n + 2 + 2 * (k - (i + 1)) + 1 == n + 2 * (k - i) + 1);
            assert(said(t, n + 2 * (j - i) + 1) != said(t, n + 2 * (k - i) + 1));
        }
        law_distinct_revisions_resolve(repo, revisions, i + 1, more, error, t, n + 2);
    }
}

// ---------------------------------------------------------------------------
// Publication
// ---------------------------------------------------------------------------
/// The replies from position `q` on answer whether a commit is published.
pub open spec fn lookup_answered(
    t: Seq<Reply>,
    q: int,
    sha: Text,
    upstream: Option<Text>,
) -> bool {
    &&& is_token(sha)
    &&& succeeded(t, q)
    &&& succeeded(t, q + 1)
    &&& succeeded(t, q + 2)
    &&& !output_at(t, q + 2).truncated
    &&& upstream is Some ==> {
        &&& q + 3 < t.len()
        &&& t[q + 3] matches Reply::Git(Ok(_))
        &&& output_at(t, q + 3).exit_code == Some(0i32) || output_at(t, q + 3).exit_code == Some(
            1i32,
        )
    }
}

/// The references that contain commits are gathered wherever each commit's
/// replies answer, published or not.
pub proof fn law_references_are_gathered(
    repo: Text,
    commits: Seq<HistoryCommitView>,
    upstream: Option<Text>,
    i: int,
    found: Seq<Text>,
    t: Seq<Reply>,
    n: int,
)
    requires
        0 <= i <= commits.len(),
        0 <= n,
        forall|j: int|
            i <= j < commits.len() ==> lookup_answered(
                t,
                lookup_at(n, upstream, j - i),
                (#[trigger] commits[j]).sha,
                upstream,
            ),
    ensures
        published_refs_flow(repo, commits, upstream, i, found, t, n) is Got,
    decreases commits.len() - i,
{
    if i < commits.len() {
        assert(lookup_answered(t, lookup_at(n, upstream, i - i), commits[i].sha, upstream));
        let next = lookup_at(n, upstream, 1);
        assert forall|j: int| i + 1 <= j < commits.len() implies lookup_answered(
            t,
            lookup_at(next, upstream, j - (i + 1)),
            (#[trigger] commits[j]).sha,
            upstream,
        ) by {
            assert(lookup_at(next, upstream, j - (i + 1)) == lookup_at(n, upstream, j - i));
        }
        let refs = listing(output_at(t, n + 2).stdout);
        let all = insert_all(found, refs, 0);
        law_references_are_gathered(repo, commits, upstream, i + 1, all, t, next);
        if upstream is Some {
            let more = insert_sorted(all, upstream->0);
            law_references_are_gathered(repo, commits, upstream, i + 1, more, t, next);
        }
    }
}

/// Commits are seen to be unpublished wherever each commit's replies answer that
/// no reference of a remote contains it, nor the upstream.
pub proof fn law_unpublished_commits_pass(
    repo: Text,
    commits: Seq<HistoryCommitView>,
    upstream: Option<Text>,
    i: int,
    t: Seq<Reply>,
    n: int,
)
    requires
        0 <= i <= commits.len(),
        0 <= n,
        forall|j: int|
            i <= j < commits.len() ==> {
                let q = lookup_at(n, upstream, j - i);
                &&& lookup_answered(t, q, (#[trigger] commits[j]).sha, upstream)
                &&& listing(output_at(t, q + 2).stdout).len() == 0
                &&& upstream is Some ==> output_at(t, q + 3).exit_code == Some(1i32)
            },
    ensures
        unpublished_suffix_flow(repo, commits, upstream, i, t, n) is Got,
    decreases commits.len() - i,
{
    if i < commits.len() {
        let q = lookup_at(n, upstream, i - i);
        assert(lookup_answered(t, q, commits[i].sha, upstream));
        let next = lookup_at(n, upstream, 1);
        assert forall|j: int| i + 1 <= j < commits.len() implies {
            let q = lookup_at(next, upstream, j - (i + 1));
            &&& lookup_answered(t, q, (#[trigger] commits[j]).sha, upstream)
            &&& listing(output_at(t, q + 2).stdout).len() == 0
            &&& upstream is Some ==> output_at(t, q + 3).exit_code == Some(1i32)
        } by {
            let q = lookup_at(n, upstream, j - i);
            assert(lookup_at(next, upstream, j - (i + 1)) == q);
            assert(lookup_answered(t, q, commits[j].sha, upstream));
            assert(listing(output_at(t, q + 2).stdout).len() == 0);
        }
        law_unpublished_commits_pass(repo, commits, upstream, i + 1, t, next);
    }
}

/// A plan is given on a branch wherever the base is a token, every command that
/// it begins with succeeds, the log can be read, and each commit's replies answer
/// whether it is published.
pub proof fn law_plan_is_given(repo: Text, base: Text, t: Seq<Reply>, upstream: Option<Text>)
    requires
        is_token(base),
        all_succeeded(t, 0, 6),
        !output_at(t, 4).truncated,
        logged_history(output_at(t, 4).stdout) matches Ok(commits) && forall|j: int|
            0 <= j < commits.len() ==> lookup_answered(
                t,
                lookup_at(7, upstream, j),
                (#[trigger] commits[j]).sha,
                upstream,
            ),
        t.len() >= 7,
        t[6] matches Reply::Git(Ok(_)),
        match upstream {
            Some(reference) => output_at(t, 6).exit_code == Some(0i32) && said(t, 6) == reference,
            None => output_at(t, 6).exit_code == Some(1i32) || output_at(t, 6).exit_code == Some(
                128i32,
            ),
        },
    ensures
        history_plan_flow(repo, base, t, 0) is Got,
{
    assert(succeeded(t, 0) && succeeded(t, 1) && succeeded(t, 2));
    assert(succeeded(t, 3) && succeeded(t, 4) && succeeded(t, 5));
    let commits = logged_history(output_at(t, 4).stdout)->Ok_0;
    law_references_are_gathered(repo, commits, upstream, 0, Seq::empty(), t, 7);
}

} // verus!
