//! When operations succeed: nothing but what was asked for stands in their way.
use crate::amend::{amend_flow, AmendArgsView};
use crate::branches::{create_branch_flow, delete_branch_flow, merge_flow, switch_flow, MergeMode};
use crate::dialogue::{output_at, said, snapshot_at};
use crate::failing::succeeded;
use crate::flow::{FlowView, Reply};
use crate::history::{history_plan_flow, HistoryCommitView, HistoryPlanView};
use crate::planning::suffix_permitted;
use crate::policy::{
    conventional_verdict, is_object_id, is_token, law_merge_message_is_conventional,
    law_object_id_is_token, message_verdict, semver_verdict,
};
use crate::publication::{
    rewind_flow, PublicationGuard, RewindArgsView,
};
use crate::queries::{head_sha_flow, listing, tree_sha_flow};
use crate::release::{release_evidence_flow, release_tag_flow, ReleaseTagArgsView};
use crate::reword::{
    any_changed, least, replay_flow, resolve_changes_flow, reword_flow, reword_replay_flow,
    reword_selection_flow, reworded, rewritten_commit, RewordArgsView, RewordView, RewrittenView,
};
use crate::rewrite::{
    install_flow, suffix_verdict, unpublished_suffix_flow, RewritePolicy,
};
use crate::selection::{
    last_position, lemma_last_position, positions, positions_from, resolve_distinct_flow, shas_of,
};
use crate::server::GitServer;
use crate::snapshot::{commit_snapshot_flow, create_commit_flow, described_commit, SnapshotView};
use crate::squash::{
    squash_flow, squash_range_flow, squash_replay_flow, squash_selection_flow, SquashArgsView,
};
use crate::tags::{replace_tag_flow, temporary_name, ReplaceTagArgsView};
use crate::text::Text;
use vstd::prelude::*;

verus! {

// ---------------------------------------------------------------------------
// Branches
// ---------------------------------------------------------------------------
/// Switching to a branch and deleting one succeed on a server that may change
/// repositories, for every name that is a token, where every command succeeds.
pub proof fn law_branch_succeeds(server: GitServer, repo: Text, branch: Text, t: Seq<Reply>)
    requires
        !server.read_only,
        is_token(branch),
        forall|p: int| 0 <= p < 6 ==> #[trigger] succeeded(t, p),
    ensures
        switch_flow(server, repo, branch, t, 0) is Got,
        delete_branch_flow(server, repo, branch, t, 0) is Got,
{
    assert(succeeded(t, 0) && succeeded(t, 1) && succeeded(t, 2));
    assert(succeeded(t, 3) && succeeded(t, 4) && succeeded(t, 5));
}

/// Creating a branch succeeds on a server that may change repositories, for every
/// name and start point that is a token, where the branch is not there and every
/// other command succeeds.
pub proof fn law_create_branch_succeeds(
    server: GitServer,
    repo: Text,
    branch: Text,
    start_point: Option<Text>,
    switch: bool,
    t: Seq<Reply>,
)
    requires
        !server.read_only,
        is_token(branch),
        start_point matches Some(revision) ==> is_token(revision),
        t.len() >= 7,
        t[1] matches Reply::Git(Ok(_)),
        output_at(t, 1).exit_code != Some(0i32),
        forall|p: int| 0 <= p < 7 && p != 1 ==> #[trigger] succeeded(t, p),
    ensures
        create_branch_flow(server, repo, branch, start_point, switch, t, 0) is Got,
{
    assert(succeeded(t, 0) && succeeded(t, 2) && succeeded(t, 3));
    assert(succeeded(t, 4) && succeeded(t, 5) && succeeded(t, 6));
}

/// A merge succeeds on a server that may change repositories, for every source
/// that is a token and every message that follows Conventional Commits, on the
/// trunk with nothing changed locally, where every command succeeds.
pub proof fn law_merge_succeeds(
    server: GitServer,
    repo: Text,
    source: Text,
    mode: MergeMode,
    message: Option<Text>,
    t: Seq<Reply>,
)
    requires
        !server.read_only,
        is_token(source),
        message matches Some(message) ==> conventional_verdict(message) is Ok,
        forall|p: int| 0 <= p < 7 ==> #[trigger] succeeded(t, p),
        said(t, 1) == "main"@,
        output_at(t, 2).stdout.len() == 0,
    ensures
        merge_flow(server, repo, source, mode, message, t, 0) is Got,
{
    law_merge_message_is_conventional(source);
    assert(succeeded(t, 0) && succeeded(t, 1) && succeeded(t, 2) && succeeded(t, 3));
    assert(succeeded(t, 4) && succeeded(t, 5) && succeeded(t, 6));
}

// ---------------------------------------------------------------------------
// Amending and taking back
// ---------------------------------------------------------------------------
/// What was told of a commit at position `p` can be read.
pub open spec fn readable(t: Seq<Reply>, p: int) -> bool {
    &&& succeeded(t, p - 2)
    &&& succeeded(t, p - 1)
    &&& succeeded(t, p)
    &&& !output_at(t, p).truncated
    &&& described_commit(said(t, p - 1), output_at(t, p).stdout) is Ok
}

/// The commit at `HEAD` of a branch other than the trunk that has one parent and
/// that no reference of a remote contains can be given a new message that follows
/// Conventional Commits, or the tree of the index, where it has no upstream and
/// every command succeeds.
pub proof fn law_amend_succeeds(server: GitServer, args: AmendArgsView, t: Seq<Reply>)
    requires
        !server.read_only,
        args.message is Some || args.include_index,
        t.len() >= 13,
        succeeded(t, 0),
        is_object_id(said(t, 0)),
        succeeded(t, 1),
        said(t, 1) != "main"@,
        readable(t, 4),
        snapshot_at(t, 4).parents.len() == 1,
        is_object_id(snapshot_at(t, 4).parents[0]),
        is_object_id(snapshot_at(t, 4).tree),
        conventional_verdict(
            match args.message {
                Some(message) => message,
                None => snapshot_at(t, 4).message,
            },
        ) is Ok,
        succeeded(t, 5),
        succeeded(t, 6),
        succeeded(t, 7),
        !output_at(t, 7).truncated,
        listing(output_at(t, 7).stdout).len() == 0,
        t[8] matches Reply::Git(Ok(_)),
        output_at(t, 8).exit_code == Some(128i32) || output_at(t, 8).exit_code == Some(1i32),
        succeeded(t, 9),
        succeeded(t, 10),
        succeeded(t, 11),
        succeeded(t, 12),
        args.include_index ==> is_object_id(said(t, 9)) && is_object_id(said(t, 10)) && said(t, 10)
            != said(t, 0),
        !args.include_index ==> is_object_id(said(t, 9)) && said(t, 9) != said(t, 0),
    ensures
        amend_flow(server, args, t, 0) is Got,
        amend_flow(server, args, t, 0)->Got_0 is Done,
{
    law_object_id_is_token(said(t, 0));
}

/// A merge at `HEAD` of a branch, with two parents and nothing changed locally,
/// is taken back where the remote is not to be asked and every command succeeds.
pub proof fn law_rewind_succeeds(server: GitServer, args: RewindArgsView, t: Seq<Reply>)
    requires
        !server.read_only,
        args.publication_guard != PublicationGuard::VerifyRemote,
        is_token(args.expected_merge),
        forall|p: int| 0 <= p < 12 ==> #[trigger] succeeded(t, p),
        is_object_id(said(t, 0)),
        said(t, 2) == said(t, 0),
        output_at(t, 3).stdout.len() == 0,
        readable(t, 7),
        snapshot_at(t, 7).parents.len() == 2,
        said(t, 9) == snapshot_at(t, 7).parents[0],
        output_at(t, 10).stdout.len() == 0,
    ensures
        rewind_flow(server, args, t, 0) is Got,
        rewind_flow(server, args, t, 0)->Got_0 is Done,
{
    law_object_id_is_token(said(t, 0));
    assert(succeeded(t, 0) && succeeded(t, 1) && succeeded(t, 2) && succeeded(t, 3));
    assert(succeeded(t, 4) && succeeded(t, 5) && succeeded(t, 6) && succeeded(t, 7));
    assert(succeeded(t, 8) && succeeded(t, 9) && succeeded(t, 10) && succeeded(t, 11));
}

// ---------------------------------------------------------------------------
// Rewriting
// ---------------------------------------------------------------------------
/// A plan permits rewriting from a commit of it on exactly where `HEAD` is on a
/// branch other than the trunk, nothing is changed locally, and each commit from
/// there on has one parent; what stands before it does not matter.
pub proof fn law_suffix_permitted(plan: HistoryPlanView, from: int)
    ensures
        suffix_verdict(plan, from) is Ok <==> from < plan.commits.len() && suffix_permitted(
            plan,
            from,
        ),
{
}

/// Commits are found in a history exactly where each of them is in it.
pub proof fn law_positions_found(
    commits: Seq<HistoryCommitView>,
    selected: Seq<Text>,
    base: Text,
)
    ensures
        positions(commits, selected, base) is Ok <==> forall|k: int|
            0 <= k < selected.len() ==> exists|j: int|
                0 <= j < commits.len() && (#[trigger] commits[j]).sha == #[trigger] selected[k],
{
    lemma_found_from(commits, selected, base, 0, Seq::empty());
}

proof fn lemma_found_from(
    commits: Seq<HistoryCommitView>,
    selected: Seq<Text>,
    base: Text,
    i: int,
    found: Seq<int>,
)
    requires
        0 <= i <= selected.len(),
    ensures
        positions_from(shas_of(commits), selected, base, i, found) is Ok <==> forall|k: int|
            i <= k < selected.len() ==> exists|j: int|
                0 <= j < commits.len() && (#[trigger] commits[j]).sha == #[trigger] selected[k],
    decreases selected.len() - i,
{
    if i < selected.len() {
        let shas = shas_of(commits);
        lemma_last_position(shas, selected[i]);
        match last_position(shas, selected[i]) {
            Some(at) => {
                assert(commits[at].sha == selected[i]);
                lemma_found_from(commits, selected, base, i + 1, found.push(at));
            },
            None => {
                assert(!exists|j: int|
                    0 <= j < commits.len() && (#[trigger] commits[j]).sha == selected[i]) by {
                    if exists|j: int|
                        0 <= j < commits.len() && (#[trigger] commits[j]).sha == selected[i] {
                        let j = choose|j: int|
                            0 <= j < commits.len() && (#[trigger] commits[j]).sha == selected[i];
                        assert(shas[j] == selected[i]);
                    }
                }
                assert(selected[i] == selected[i]);
            },
        }
    }
}

/// A commit is made wherever the message follows Conventional Commits, the tree
/// and the parent are full names of objects, and Git answers with such a name.
pub proof fn law_commit_is_made(
    repo: Text,
    of: SnapshotView,
    tree: Text,
    parent: Text,
    message: Text,
    t: Seq<Reply>,
    n: int,
)
    requires
        conventional_verdict(message) is Ok,
        is_object_id(tree),
        is_object_id(parent),
        succeeded(t, n),
        is_object_id(said(t, n)),
    ensures
        create_commit_flow(repo, of, tree, parent, message, t, n) == FlowView::Got(
            said(t, n),
            n + 1,
        ),
{
}

/// A commit is read wherever the revision is a token and Git describes it.
pub proof fn law_commit_is_read(repo: Text, revision: Text, t: Seq<Reply>, n: int)
    requires
        is_token(revision),
        readable(t, n + 2),
    ensures
        commit_snapshot_flow(repo, revision, t, n) == FlowView::Got(snapshot_at(t, n + 2), n + 3),
{
}

/// A replay goes on from a commit with one parent to the next, whichever commit
/// it is, and comes to its end after the last.
pub proof fn law_replay_goes_on(
    repo: Text,
    commits: Seq<HistoryCommitView>,
    shas: Seq<Text>,
    changes: Seq<RewordView>,
    i: int,
    parent: Text,
    made: Seq<RewrittenView>,
    t: Seq<Reply>,
    n: int,
)
    requires
        0 <= i <= commits.len(),
    ensures
        ({
            let of = snapshot_at(t, n + 2);
            let message = match reworded(shas, changes, commits[i].sha) {
                Some(message) => message,
                None => of.message,
            };
            let unchanged = {
                &&& i < commits.len()
                &&& is_token(commits[i].sha)
                &&& readable(t, n + 2)
                &&& of.parents.len() == 1
                &&& is_object_id(of.tree)
                &&& is_object_id(parent)
                &&& succeeded(t, n + 3)
                &&& is_object_id(said(t, n + 3))
            };
            let next = said(t, n + 3);
            &&& unchanged && conventional_verdict(of.message) is Ok ==> squash_replay_flow(
                repo,
                commits,
                i,
                parent,
                t,
                n,
            ) == squash_replay_flow(repo, commits, i + 1, next, t, n + 4)
            &&& unchanged && conventional_verdict(message) is Ok ==> exists|report: RewrittenView|
                replay_flow(repo, commits, shas, changes, i, parent, made, t, n)
                    == #[trigger] replay_flow(
                    repo,
                    commits,
                    shas,
                    changes,
                    i + 1,
                    next,
                    made.push(report),
                    t,
                    n + 4,
                )
            &&& i == commits.len() ==> squash_replay_flow(repo, commits, i, parent, t, n)
                == FlowView::Got(parent, n)
            &&& i == commits.len() ==> replay_flow(
                repo,
                commits,
                shas,
                changes,
                i,
                parent,
                made,
                t,
                n,
            ) == FlowView::Got((parent, made), n)
        }),
{
    if i < commits.len() && is_token(commits[i].sha) && readable(t, n + 2) {
        law_commit_is_read(repo, commits[i].sha, t, n);
        let of = snapshot_at(t, n + 2);
        let request = reworded(shas, changes, commits[i].sha);
        let message = match request {
            Some(message) => message,
            None => of.message,
        };
        if is_object_id(of.tree) && is_object_id(parent) && succeeded(t, n + 3) && is_object_id(
            said(t, n + 3),
        ) {
            if conventional_verdict(of.message) is Ok {
                law_commit_is_made(repo, of, of.tree, parent, of.message, t, n + 3);
            }
            if conventional_verdict(message) is Ok && of.parents.len() == 1 {
                law_commit_is_made(repo, of, of.tree, parent, message, t, n + 3);
                let report = rewritten_commit(of, said(t, n + 3), request);
                assert(replay_flow(repo, commits, shas, changes, i, parent, made, t, n)
                    == replay_flow(
                    repo,
                    commits,
                    shas,
                    changes,
                    i + 1,
                    said(t, n + 3),
                    made.push(report),
                    t,
                    n + 4,
                ));
            }
        }
    }
}

/// Squashing succeeds on a server that may change repositories, for two to 128
/// commits and a message that follows Conventional Commits, wherever the branch
/// has a history, the commits are distinct and one range of it, the range and
/// what follows it may be rewritten, and the commits can be read and made again.
pub proof fn law_squash_succeeds(
    server: GitServer,
    args: SquashArgsView,
    t: Seq<Reply>,
    plan: HistoryPlanView,
    shas: Seq<Text>,
    all: Seq<int>,
    at: (int, int, int, int),
    first: SnapshotView,
    last: SnapshotView,
    new_commit: Text,
    new_head: Text,
)
    requires
        !server.read_only,
        succeeded(t, 0),
        2 <= args.commits.len() <= 128,
        conventional_verdict(args.message) is Ok,
        history_plan_flow(args.repo, args.base, t, 1) == FlowView::Got(plan, at.0),
        resolve_distinct_flow(
            args.repo,
            args.commits,
            0,
            Seq::empty(),
            "duplicate commit in squash request"@,
            t,
            at.0,
        ) == FlowView::Got(shas, at.1),
        positions(plan.commits, shas, args.base) == Ok::<Seq<int>, Text>(all),
        all.len() == args.commits.len(),
        0 <= all[0] < plan.commits.len(),
        forall|k: int| 0 <= k < all.len() ==> #[trigger] all[k] == all[0] + k,
        suffix_permitted(plan, all[0]),
        args.rewrite_policy == RewritePolicy::LocalOnly ==> unpublished_suffix_flow(
            args.repo,
            plan.commits,
            plan.upstream,
            all[0],
            t,
            at.1,
        ) == FlowView::Got((), at.2),
        args.rewrite_policy != RewritePolicy::LocalOnly ==> at.1 == at.2,
        commit_snapshot_flow(args.repo, plan.commits[all[0]].sha, t, at.2) == FlowView::Got(
            first,
            at.2 + 3,
        ),
        commit_snapshot_flow(args.repo, plan.commits[all.last()].sha, t, at.2 + 3)
            == FlowView::Got(last, at.2 + 6),
        squash_replay_flow(
            args.repo,
            plan.commits,
            all.last() + 1,
            new_commit,
            t,
            at.2 + 8,
        ) == FlowView::Got(new_head, at.3),
        install_flow(
            args.repo,
            plan.branch,
            new_head,
            said(t, 0),
            said(t, at.2 + 6),
            t,
            at.3,
        ) is Got,
        first.parents.len() > 0,
        tree_sha_flow(args.repo, said(t, 0), t, at.2 + 6) == FlowView::Got(
            said(t, at.2 + 6),
            at.2 + 7,
        ),
        create_commit_flow(
            args.repo,
            first,
            last.tree,
            first.parents[0],
            args.message,
            t,
            at.2 + 7,
        ) == FlowView::Got(new_commit, at.2 + 8),
    ensures
        squash_flow(server, args, t, 0) is Got,
        squash_flow(server, args, t, 0)->Got_0 is Done,
{
    law_suffix_permitted(plan, all[0]);
    assert(head_sha_flow(args.repo, t, 0) == FlowView::Got(said(t, 0), 1));
    assert(squash_selection_flow(args, plan, t, at.0) == FlowView::Got(
        (all[0], all.last()),
        at.2,
    ));
    assert(squash_range_flow(args, plan, all[0], all.last(), said(t, 0), t, at.2) is Got);
}

/// Rewording succeeds on a server that may change repositories, for one to 64
/// changes, wherever the branch has a history, the changes name commits of it
/// that may be rewritten with what follows them, the commits can be read and made
/// again, and some message changes.
pub proof fn law_reword_succeeds(
    server: GitServer,
    args: RewordArgsView,
    t: Seq<Reply>,
    plan: HistoryPlanView,
    shas: Seq<Text>,
    all: Seq<int>,
    at: (int, int, int, int),
    first: SnapshotView,
    made: (Text, Seq<RewrittenView>),
)
    requires
        !server.read_only,
        succeeded(t, 0),
        1 <= args.changes.len() <= 64,
        history_plan_flow(args.repo, args.base, t, 1) == FlowView::Got(plan, at.0),
        resolve_changes_flow(args.repo, args.changes, 0, Seq::empty(), t, at.0) == FlowView::Got(
            shas,
            at.1,
        ),
        positions(plan.commits, shas, args.base) == Ok::<Seq<int>, Text>(all),
        0 <= least(all) < plan.commits.len(),
        suffix_permitted(plan, least(all)),
        args.rewrite_policy == RewritePolicy::LocalOnly ==> unpublished_suffix_flow(
            args.repo,
            plan.commits,
            plan.upstream,
            least(all),
            t,
            at.1,
        ) == FlowView::Got((), at.2),
        args.rewrite_policy != RewritePolicy::LocalOnly ==> at.1 == at.2,
        commit_snapshot_flow(args.repo, plan.commits[least(all)].sha, t, at.2 + 1)
            == FlowView::Got(first, at.2 + 4),
        first.parents.len() > 0,
        replay_flow(
            args.repo,
            plan.commits,
            shas,
            args.changes,
            least(all),
            first.parents[0],
            Seq::empty(),
            t,
            at.2 + 4,
        ) == FlowView::Got(made, at.3),
        install_flow(
            args.repo,
            plan.branch,
            made.0,
            said(t, 0),
            said(t, at.2),
            t,
            at.3,
        ) is Got,
        tree_sha_flow(args.repo, said(t, 0), t, at.2) == FlowView::Got(said(t, at.2), at.2 + 1),
        any_changed(made.1),
    ensures
        reword_flow(server, args, t, 0) is Got,
        reword_flow(server, args, t, 0)->Got_0 is Done,
{
    law_suffix_permitted(plan, least(all));
    assert(head_sha_flow(args.repo, t, 0) == FlowView::Got(said(t, 0), 1));
    assert(reword_selection_flow(args, plan, t, at.0) == FlowView::Got((least(all), shas), at.2));
    assert(reword_replay_flow(args, plan, least(all), shas, said(t, 0), t, at.2) is Got);
}

// ---------------------------------------------------------------------------
// Tags
// ---------------------------------------------------------------------------
/// A tag at the expected target is moved wherever the remote is not to be asked
/// and every command succeeds, whether a new target is given or not.
pub proof fn law_replacement_succeeds(
    server: GitServer,
    args: ReplaceTagArgsView,
    process: nat,
    number: nat,
    t: Seq<Reply>,
)
    requires
        !server.read_only,
        args.publication_guard != PublicationGuard::VerifyRemote,
        is_token(args.name),
        is_token(args.expected_old_target),
        is_token(temporary_name(args.name, process, number)),
        args.new_target matches Some(revision) ==> is_token(revision),
        message_verdict(args.message) is Ok,
        forall|p: int| 0 <= p < 19 ==> #[trigger] succeeded(t, p),
        said(t, 2) == said(t, 5),
        args.new_target is Some ==> is_object_id(said(t, 9)) && is_object_id(said(t, 13)) && said(
            t,
            18,
        ) == said(t, 7),
        args.new_target is None ==> is_object_id(said(t, 8)) && is_object_id(said(t, 12)) && said(
            t,
            17,
        ) == said(t, 6),
    ensures
        replace_tag_flow(server, args, process, number, t, 0) is Got,
{
    assert(succeeded(t, 0) && succeeded(t, 1) && succeeded(t, 2) && succeeded(t, 3));
    assert(succeeded(t, 4) && succeeded(t, 5) && succeeded(t, 6) && succeeded(t, 7));
    assert(succeeded(t, 8) && succeeded(t, 9) && succeeded(t, 10) && succeeded(t, 11));
    assert(succeeded(t, 12) && succeeded(t, 13) && succeeded(t, 14) && succeeded(t, 15));
    assert(succeeded(t, 16) && succeeded(t, 17) && succeeded(t, 18));
}

/// The merge at `HEAD` of the trunk is tagged as a release wherever the version
/// and the message are accepted, nothing is changed locally, the evidence is
/// there or not needed, no tag has the name, and every other command succeeds.
pub proof fn law_release_succeeds(
    server: GitServer,
    args: ReleaseTagArgsView,
    t: Seq<Reply>,
    n: int,
)
    requires
        !server.read_only,
        semver_verdict(args.version) is Ok,
        is_token("v"@ + args.version),
        message_verdict(
            match args.message {
                Some(message) => message,
                None => "Release "@ + ("v"@ + args.version),
            },
        ) is Ok,
        succeeded(t, 0),
        said(t, 0) == "main"@,
        succeeded(t, 1),
        output_at(t, 1).stdout.len() == 0,
        readable(t, 4),
        is_token("HEAD"@),
        snapshot_at(t, 4).parents.len() == 2,
        release_evidence_flow(
            server,
            args.repo,
            said(t, 3),
            args.release_evidence_path,
            t,
            5,
        ) == FlowView::Got((), n),
        succeeded(t, n),
        0 <= n + 1 < t.len(),
        t[n + 1] matches Reply::Git(Ok(_)),
        output_at(t, n + 1).exit_code != Some(0i32),
        succeeded(t, n + 2),
    ensures
        release_tag_flow(server, args, t, 0) is Got,
{
}

} // verus!
