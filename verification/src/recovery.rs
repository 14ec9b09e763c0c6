//! Merging and taking back the merge, against a Git that behaves.
//!
//! The laws of the other modules hold whatever Git replies. What an operation
//! does to a repository rests on what Git does; here that is put down for the
//! commands that merging and taking back a merge ask for.
use crate::branches::{
    chosen_merge_message, merge_flow, mutate_flow, mutation_flow, on_clean_trunk_flow, MergeMode,
    MutationView,
};
use crate::command::{Command, CommandView};
use crate::flow::{git_flow, FlowView, Reply, RequestView};
use crate::guarantees::{law_rewind_done, lemma_undone, merge_can_be_undone};
use crate::policy::{conventional_verdict, is_object_id, law_object_id_is_token};
use crate::progress::{
    commit_stays, commitish_stays, dirtiness_stays, git_stays, head_stays, more_replies,
    required_branch_stays, snapshot_stays, stays,
};
use crate::publication::{
    rewind_flow, rewind_from_flow, rewind_to_flow, rewindable_flow, PublicationGuard,
    RewindArgsView, RewoundView,
};
use crate::queries::{
    current_branch_required_flow, head_sha_flow, is_dirty_flow, resolve_commit_flow,
    short_status_flow, validate_commitish_flow,
};
use crate::rewrite::{RewriteFailureView, RewriteOutcome};
use crate::server::GitServer;
use crate::snapshot::{commit_snapshot_flow, described_commit};
use crate::text::{trim, Text};
use vstd::prelude::*;

verus! {

// ---------------------------------------------------------------------------
// Git
// ---------------------------------------------------------------------------
/// A repository with a branch checked out.
pub struct Repository {
    /// The name of the branch.
    pub branch: Text,
    /// The commit that the branch is at.
    pub head: Text,
    /// Something is changed locally.
    pub dirty: bool,
    /// The commits, each with its parents.
    pub parents: Map<Text, Seq<Text>>,
}

impl Repository {
    /// The branch is at a commit, and commits go by the names of objects.
    pub open spec fn well_formed(self) -> bool {
        &&& self.parents.contains_key(self.head)
        &&& trim(self.branch) == self.branch
        &&& forall|commit: Text| #[trigger]
            self.parents.contains_key(commit) ==> is_object_id(commit)
        &&& forall|commit: Text, i: int|
            self.parents.contains_key(commit) && 0 <= i < self.parents[commit].len()
                ==> is_object_id(#[trigger] self.parents[commit][i])
    }

    /// The repository once a merge into its branch has been committed.
    pub open spec fn merged_into(self, next: Repository) -> bool {
        &&& next.well_formed()
        &&& next.branch == self.branch
        &&& next.dirty == self.dirty
        &&& !self.parents.contains_key(next.head)
        &&& next.parents.remove(next.head) == self.parents
        &&& next.parents[next.head].len() == 2
        &&& next.parents[next.head][0] == self.head
    }
}

/// The command succeeded.
pub open spec fn succeeds(reply: Reply) -> bool {
    reply matches Reply::Git(Ok(output)) && output.exit_code == Some(0i32)
}

/// The command succeeded and printed `stdout`, all of which was kept.
pub open spec fn prints(reply: Reply, stdout: Text) -> bool {
    reply matches Reply::Git(Ok(output)) && output.exit_code == Some(0i32) && !output.truncated
        && output.stdout@ == stdout
}

/// What Git does when it is asked for a command: its reply, and the repository
/// afterwards. Of commands that neither merging nor taking back a merge asks
/// for, nothing is said.
pub open spec fn answered(
    before: Repository,
    command: CommandView,
    reply: Reply,
    after: Repository,
) -> bool {
    match command {
        Command::HeadCommit => after == before && exists|stdout: Text| #[trigger]
            prints(reply, stdout) && trim(stdout) == before.head,
        Command::CurrentBranch => after == before && exists|stdout: Text| #[trigger]
            prints(reply, stdout) && trim(stdout) == before.branch,
        Command::PorcelainStatus => after == before && exists|stdout: Text| #[trigger]
            prints(reply, stdout) && (stdout.len() > 0 <==> before.dirty),
        Command::ShortStatus => after == before && succeeds(reply),
        Command::ResolveCommit { revision } => after == before && (before.parents.contains_key(
            revision,
        ) ==> exists|stdout: Text| #[trigger] prints(reply, stdout) && trim(stdout) == revision),
        Command::CommitMetadata { commit } => after == before && (before.parents.contains_key(
            commit,
        ) ==> exists|stdout: Text| #[trigger]
            prints(reply, stdout) && (described_commit(commit, stdout) matches Ok(snapshot)
                && snapshot.parents == before.parents[commit])),
        // Where there is nothing to merge, Git succeeds without a commit.
        Command::Merge { .. } => succeeds(reply) ==> after == before || before.merged_into(after),
        Command::ResetKeep { target } => !before.dirty && before.parents.contains_key(target) ==> {
            &&& succeeds(reply)
            &&& after == Repository { head: target, ..before }
        },
        _ => true,
    }
}

/// Git: from a repository and a command to a reply and the repository
/// afterwards.
pub type Git = spec_fn(Repository, CommandView) -> (Reply, Repository);

/// Git behaves in every repository that is well formed.
pub open spec fn behaves(git: Git) -> bool {
    forall|before: Repository, command: CommandView|
        before.well_formed() ==> answered(
            before,
            command,
            (#[trigger] git(before, command)).0,
            git(before, command).1,
        )
}

/// How an operation ends that goes on from the replies `t`, and the repository
/// then, where Git is asked for as many commands as `fuel` says at most.
pub open spec fn driven<T>(
    operation: spec_fn(Seq<Reply>) -> FlowView<T>,
    git: Git,
    repository: Repository,
    t: Seq<Reply>,
    fuel: nat,
) -> (FlowView<T>, Repository)
    decreases fuel,
{
    match operation(t) {
        FlowView::Ask(RequestView::Git { repo, command }) => if fuel == 0 {
            (operation(t), repository)
        } else {
            let answer = git(repository, command);
            driven(operation, git, answer.1, t.push(answer.0), (fuel - 1) as nat)
        },
        settled => (settled, repository),
    }
}

// ---------------------------------------------------------------------------
// Merging
// ---------------------------------------------------------------------------
/// Merging, as an operation that is driven.
pub open spec fn merging(
    server: GitServer,
    repo: Text,
    source: Text,
    message: Option<Text>,
) -> spec_fn(Seq<Reply>) -> FlowView<MutationView> {
    |t: Seq<Reply>| merge_flow(server, repo, source, MergeMode::NoFf, message, t, 0)
}

proof fn lemma_step<T>(
    operation: spec_fn(Seq<Reply>) -> FlowView<T>,
    git: Git,
    repository: Repository,
    t: Seq<Reply>,
    fuel: nat,
    repo: Text,
    command: CommandView,
)
    requires
        operation(t) == FlowView::<T>::Ask(RequestView::Git { repo, command }),
        fuel > 0,
    ensures
        driven(operation, git, repository, t, fuel) == driven(
            operation,
            git,
            git(repository, command).1,
            t.push(git(repository, command).0),
            (fuel - 1) as nat,
        ),
{
}

proof fn lemma_more(t: Seq<Reply>, reply: Reply)
    ensures
        forall|n: int| 0 <= n <= t.len() ==> #[trigger] more_replies(t, t.push(reply), n),
{
    assert(t =~= t.push(reply).subrange(0, t.len() as int));
}

/// The replies that a merge has received once it asks Git to merge.
proof fn lemma_merge_prepared(
    server: GitServer,
    repo: Text,
    source: Text,
    message: Option<Text>,
    git: Git,
    before: Repository,
) -> (t: Seq<Reply>)
    requires
        behaves(git),
        before.well_formed(),
        driven(merging(server, repo, source, message), git, before, Seq::empty(), 16).0 is Got,
    ensures
        ({
            let op = merging(server, repo, source, message);
            &&& driven(op, git, before, Seq::empty(), 16) == driven(op, git, before, t, 13)
            &&& t.len() == 3
            &&& !server.read_only
            &&& conventional_verdict(chosen_merge_message(source, message)) is Ok
            &&& validate_commitish_flow(repo, source, "merge source"@, t, 0)
                == FlowView::<()>::Got((), 1)
            &&& on_clean_trunk_flow(repo, t, 1) == FlowView::<()>::Got((), 3)
        }),
{
    broadcast use {commitish_stays, required_branch_stays};

    let op = merging(server, repo, source, message);
    let t0 = Seq::<Reply>::empty();
    let c0: CommandView = Command::ResolveCommit { revision: source };
    assert(op(t0) == FlowView::<MutationView>::Ask(RequestView::Git { repo, command: c0 }));
    lemma_step(op, git, before, t0, 16, repo, c0);
    let r0 = git(before, c0).0;
    assert(git(before, c0).1 == before);
    let t1 = t0.push(r0);
    if validate_commitish_flow(repo, source, "merge source"@, t1, 0) is Fail {
        assert(op(t1) is Fail);
    }
    assert(validate_commitish_flow(repo, source, "merge source"@, t1, 0) == FlowView::<()>::Got(
        (),
        1,
    ));
    let c1: CommandView = Command::CurrentBranch;
    assert(op(t1) == FlowView::<MutationView>::Ask(RequestView::Git { repo, command: c1 }));
    lemma_step(op, git, before, t1, 15, repo, c1);
    let r1 = git(before, c1).0;
    assert(git(before, c1).1 == before);
    let t2 = t1.push(r1);
    lemma_more(t1, r1);
    assert(more_replies(t1, t2, 0));
    assert(validate_commitish_flow(repo, source, "merge source"@, t2, 0) == FlowView::<()>::Got(
        (),
        1,
    ));
    if on_clean_trunk_flow(repo, t2, 1) is Fail {
        assert(op(t2) is Fail);
    }
    assert(current_branch_required_flow(repo, t2, 1) is Got);
    let c2: CommandView = Command::PorcelainStatus;
    assert(op(t2) == FlowView::<MutationView>::Ask(RequestView::Git { repo, command: c2 }));
    lemma_step(op, git, before, t2, 14, repo, c2);
    let r2 = git(before, c2).0;
    assert(git(before, c2).1 == before);
    let t3 = t2.push(r2);
    lemma_more(t2, r2);
    assert(more_replies(t2, t3, 0) && more_replies(t2, t3, 1));
    assert(validate_commitish_flow(repo, source, "merge source"@, t3, 0) == FlowView::<()>::Got(
        (),
        1,
    ));
    assert(current_branch_required_flow(repo, t3, 1) == current_branch_required_flow(repo, t2, 1));
    if on_clean_trunk_flow(repo, t3, 1) is Fail {
        assert(op(t3) is Fail);
    }
    assert(on_clean_trunk_flow(repo, t3, 1) == FlowView::<()>::Got((), 3));
    if conventional_verdict(chosen_merge_message(source, message)) is Err {
        assert(op(t3) is Fail);
    }
    t3
}

broadcast proof fn trunk_stays(repo: Text, s: Seq<Reply>, t: Seq<Reply>, n: int)
    requires
        more_replies(s, t, n),
    ensures
        stays(
            #[trigger] on_clean_trunk_flow(repo, s, n),
            #[trigger] on_clean_trunk_flow(repo, t, n),
            n,
            s.len() as int,
        ),
{
    broadcast use {required_branch_stays, dirtiness_stays};

}

/// What a merge comes to once Git has been asked to merge.
proof fn lemma_merge_asked(
    server: GitServer,
    repo: Text,
    source: Text,
    message: Option<Text>,
    s: Seq<Reply>,
    t: Seq<Reply>,
)
    requires
        more_replies(s, t, 0),
        s.len() == 3,
        !server.read_only,
        conventional_verdict(chosen_merge_message(source, message)) is Ok,
        validate_commitish_flow(repo, source, "merge source"@, s, 0) == FlowView::<()>::Got((), 1),
        on_clean_trunk_flow(repo, s, 1) == FlowView::<()>::Got((), 3),
    ensures
        merging(server, repo, source, message)(t) == mutate_flow(
            "merge"@,
            repo,
            Command::Merge { message: chosen_merge_message(source, message), source },
            t,
            3,
        ),
{
    broadcast use {commitish_stays, trunk_stays};

    assert(more_replies(s, t, 1));
    assert(validate_commitish_flow(repo, source, "merge source"@, t, 0) == FlowView::<()>::Got(
        (),
        1,
    ));
    assert(on_clean_trunk_flow(repo, t, 1) == FlowView::<()>::Got((), 3));
}

/// A merge that was made is the commit that the branch is at afterwards; where
/// that is another one than before, the branch was at its first parent.
proof fn lemma_merge_run(
    server: GitServer,
    repo: Text,
    source: Text,
    message: Option<Text>,
    git: Git,
    before: Repository,
)
    requires
        behaves(git),
        before.well_formed(),
    ensures
        ({
            let run = driven(merging(server, repo, source, message), git, before, Seq::empty(), 16);
            run.0 matches FlowView::Got(merged, _) ==> {
                &&& !server.read_only
                &&& merged.head == run.1.head
                &&& run.1 == before || before.merged_into(run.1)
            }
        }),
{
    broadcast use {git_stays, required_branch_stays, head_stays};

    let op = merging(server, repo, source, message);
    let run = driven(op, git, before, Seq::empty(), 16);
    if run.0 is Got {
        let t3 = lemma_merge_prepared(server, repo, source, message, git, before);
        let c3: CommandView = Command::Merge {
            message: chosen_merge_message(source, message),
            source,
        };
        lemma_more(t3, git(before, c3).0);
        assert(more_replies(t3, t3, 0)) by {
            assert(t3 =~= t3.subrange(0, t3.len() as int));
        }
        lemma_merge_asked(server, repo, source, message, t3, t3);
        assert(op(t3) == FlowView::<MutationView>::Ask(RequestView::Git { repo, command: c3 }));
        lemma_step(op, git, before, t3, 13, repo, c3);
        let r3 = git(before, c3).0;
        let after = git(before, c3).1;
        assert(answered(before, c3, r3, after));
        let t4 = t3.push(r3);
        assert(more_replies(t3, t4, 0));
        lemma_merge_asked(server, repo, source, message, t3, t4);
        if git_flow(repo, c3, t4, 3) is Fail {
            assert(op(t4) is Fail);
        }
        assert(git_flow(repo, c3, t4, 3) matches FlowView::Got(_, m) && m == 4);
        assert(succeeds(r3));
        let made = git_flow(repo, c3, t4, 3)->Got_0;
        let c4: CommandView = Command::CurrentBranch;
        assert(op(t4) == FlowView::<MutationView>::Ask(RequestView::Git { repo, command: c4 }));
        lemma_step(op, git, after, t4, 12, repo, c4);
        let r4 = git(after, c4).0;
        assert(answered(after, c4, r4, git(after, c4).1));
        let t5 = t4.push(r4);
        lemma_more(t4, r4);
        assert(more_replies(t3, t5, 0)) by {
            assert(t3 =~= t5.subrange(0, t3.len() as int));
        }
        assert(more_replies(t4, t5, 3));
        lemma_merge_asked(server, repo, source, message, t3, t5);
        assert(current_branch_required_flow(repo, t5, 4) matches FlowView::Got(_, m) && m == 5);
        assert(op(t5) == mutation_flow("merge"@, repo, made, t5, 4));
        let c5: CommandView = Command::HeadCommit;
        assert(op(t5) == FlowView::<MutationView>::Ask(RequestView::Git { repo, command: c5 }));
        lemma_step(op, git, after, t5, 11, repo, c5);
        let r5 = git(after, c5).0;
        assert(answered(after, c5, r5, git(after, c5).1));
        let t6 = t5.push(r5);
        lemma_more(t5, r5);
        assert(more_replies(t3, t6, 0)) by {
            assert(t3 =~= t6.subrange(0, t3.len() as int));
        }
        assert(more_replies(t5, t6, 3) && more_replies(t5, t6, 4));
        lemma_merge_asked(server, repo, source, message, t3, t6);
        assert(head_sha_flow(repo, t6, 5) == FlowView::<Text>::Got(after.head, 6));
        assert(op(t6) == mutation_flow("merge"@, repo, made, t6, 4));
        let c6: CommandView = Command::ShortStatus;
        assert(op(t6) == FlowView::<MutationView>::Ask(RequestView::Git { repo, command: c6 }));
        lemma_step(op, git, after, t6, 10, repo, c6);
        let r6 = git(after, c6).0;
        assert(answered(after, c6, r6, git(after, c6).1));
        let t7 = t6.push(r6);
        lemma_more(t6, r6);
        assert(more_replies(t3, t7, 0)) by {
            assert(t3 =~= t7.subrange(0, t3.len() as int));
        }
        assert(more_replies(t6, t7, 3) && more_replies(t6, t7, 4) && more_replies(t6, t7, 5));
        lemma_merge_asked(server, repo, source, message, t3, t7);
        assert(short_status_flow(repo, t7, 6) is Got);
        assert(op(t7) == mutation_flow("merge"@, repo, made, t7, 4));
        assert(op(t7) matches FlowView::Got(merged, _) && merged.head == after.head);
        assert(run == (op(t7), after));
    }
}

// ---------------------------------------------------------------------------
// Taking back the merge
// ---------------------------------------------------------------------------
/// What taking back a merge comes to.
pub type RewindOutcome = RewriteOutcome<RewoundView, RewriteFailureView>;

/// Taking back a merge, as an operation that is driven.
pub open spec fn rewinding(server: GitServer, args: RewindArgsView) -> spec_fn(
    Seq<Reply>,
) -> FlowView<RewindOutcome> {
    |t: Seq<Reply>| rewind_flow(server, args, t, 0)
}

/// The replies tell that the expected merge is at `HEAD`, and that nothing is
/// changed locally.
spec fn merge_at_head(args: RewindArgsView, t: Seq<Reply>) -> bool {
    &&& head_sha_flow(args.repo, t, 0) == FlowView::<Text>::Got(args.expected_merge, 1)
    &&& resolve_commit_flow(args.repo, args.expected_merge, t, 1) == FlowView::<Text>::Got(
        args.expected_merge,
        3,
    )
    &&& is_dirty_flow(args.repo, t, 3) == FlowView::<bool>::Got(false, 4)
}

proof fn lemma_rewind_found(
    server: GitServer,
    args: RewindArgsView,
    git: Git,
    now: Repository,
) -> (t: Seq<Reply>)
    requires
        behaves(git),
        now.well_formed(),
        !now.dirty,
        !server.read_only,
        args.expected_merge == now.head,
    ensures
        ({
            let op = rewinding(server, args);
            &&& driven(op, git, now, Seq::empty(), 16) == driven(op, git, now, t, 12)
            &&& t.len() == 4
            &&& merge_at_head(args, t)
        }),
{
    broadcast use {head_stays, commit_stays, commitish_stays};

    let op = rewinding(server, args);
    let repo = args.repo;
    let merge = args.expected_merge;
    let t0 = Seq::<Reply>::empty();
    let c0: CommandView = Command::HeadCommit;
    assert(op(t0) == FlowView::<RewindOutcome>::Ask(RequestView::Git { repo, command: c0 }));
    lemma_step(op, git, now, t0, 16, repo, c0);
    let r0 = git(now, c0).0;
    assert(answered(now, c0, r0, git(now, c0).1));
    let t1 = t0.push(r0);
    lemma_more(t0, r0);
    assert(head_sha_flow(repo, t1, 0) == FlowView::<Text>::Got(merge, 1));
    law_object_id_is_token(merge);
    let c1: CommandView = Command::ResolveCommit { revision: merge };
    assert(rewind_from_flow(server, args, merge, t1, 1) == FlowView::<RewoundView>::Ask(
        RequestView::Git { repo, command: c1 },
    ));
    assert(op(t1) == FlowView::<RewindOutcome>::Ask(RequestView::Git { repo, command: c1 }));
    lemma_step(op, git, now, t1, 15, repo, c1);
    let r1 = git(now, c1).0;
    assert(answered(now, c1, r1, git(now, c1).1));
    let t2 = t1.push(r1);
    lemma_more(t1, r1);
    assert(more_replies(t1, t2, 0));
    assert(head_sha_flow(repo, t2, 0) == FlowView::<Text>::Got(merge, 1));
    assert(validate_commitish_flow(repo, merge, "commit"@, t2, 1) == FlowView::<()>::Got((), 2));
    let c2: CommandView = Command::ResolveCommit { revision: merge };
    assert(rewind_from_flow(server, args, merge, t2, 1) == FlowView::<RewoundView>::Ask(
        RequestView::Git { repo, command: c2 },
    ));
    assert(op(t2) == FlowView::<RewindOutcome>::Ask(RequestView::Git { repo, command: c2 }));
    lemma_step(op, git, now, t2, 14, repo, c2);
    let r2 = git(now, c2).0;
    assert(answered(now, c2, r2, git(now, c2).1));
    let t3 = t2.push(r2);
    lemma_more(t2, r2);
    assert(more_replies(t2, t3, 0) && more_replies(t2, t3, 1));
    assert(head_sha_flow(repo, t3, 0) == FlowView::<Text>::Got(merge, 1));
    assert(resolve_commit_flow(repo, merge, t3, 1) == FlowView::<Text>::Got(merge, 3));
    let c3: CommandView = Command::PorcelainStatus;
    assert(rewind_from_flow(server, args, merge, t3, 1) == FlowView::<RewoundView>::Ask(
        RequestView::Git { repo, command: c3 },
    ));
    assert(op(t3) == FlowView::<RewindOutcome>::Ask(RequestView::Git { repo, command: c3 }));
    lemma_step(op, git, now, t3, 13, repo, c3);
    let r3 = git(now, c3).0;
    assert(answered(now, c3, r3, git(now, c3).1));
    let t4 = t3.push(r3);
    lemma_more(t3, r3);
    assert(more_replies(t3, t4, 0) && more_replies(t3, t4, 1));
    assert(head_sha_flow(repo, t4, 0) == FlowView::<Text>::Got(merge, 1));
    assert(resolve_commit_flow(repo, merge, t4, 1) == FlowView::<Text>::Got(merge, 3));
    assert(is_dirty_flow(repo, t4, 3) == FlowView::<bool>::Got(false, 4));
    t4
}

proof fn lemma_merge_stays_at_head(args: RewindArgsView, s: Seq<Reply>, t: Seq<Reply>)
    requires
        more_replies(s, t, 0),
        s.len() >= 4,
        merge_at_head(args, s),
    ensures
        merge_at_head(args, t),
{
    broadcast use {head_stays, commit_stays, dirtiness_stays};

    assert(more_replies(s, t, 1) && more_replies(s, t, 3));
}

/// The replies tell of the expected merge what its parents are.
spec fn merge_read(args: RewindArgsView, now: Repository, t: Seq<Reply>) -> bool {
    &&& merge_at_head(args, t)
    &&& current_branch_required_flow(args.repo, t, 4) == FlowView::<Text>::Got(now.branch, 5)
    &&& commit_snapshot_flow(args.repo, args.expected_merge, t, 5) matches FlowView::Got(snapshot, m)
    &&& m == 8
    &&& snapshot.parents == now.parents[args.expected_merge]
}

proof fn lemma_merge_stays_read(
    args: RewindArgsView,
    now: Repository,
    s: Seq<Reply>,
    t: Seq<Reply>,
)
    requires
        more_replies(s, t, 0),
        s.len() >= 8,
        merge_read(args, now, s),
    ensures
        merge_read(args, now, t),
{
    broadcast use {required_branch_stays, snapshot_stays};

    lemma_merge_stays_at_head(args, s, t);
    assert(more_replies(s, t, 4) && more_replies(s, t, 5));
}

proof fn lemma_rewind_read(
    server: GitServer,
    args: RewindArgsView,
    git: Git,
    now: Repository,
) -> (t: Seq<Reply>)
    requires
        behaves(git),
        now.well_formed(),
        !now.dirty,
        !server.read_only,
        args.expected_merge == now.head,
    ensures
        ({
            let op = rewinding(server, args);
            &&& driven(op, git, now, Seq::empty(), 16) == driven(op, git, now, t, 8)
            &&& t.len() == 8
            &&& merge_read(args, now, t)
        }),
{
    broadcast use {required_branch_stays, commit_stays, commitish_stays};

    let op = rewinding(server, args);
    let repo = args.repo;
    let merge = args.expected_merge;
    let t4 = lemma_rewind_found(server, args, git, now);
    let c4: CommandView = Command::CurrentBranch;
    assert(rewind_from_flow(server, args, merge, t4, 1) == FlowView::<RewoundView>::Ask(
        RequestView::Git { repo, command: c4 },
    ));
    assert(op(t4) == FlowView::<RewindOutcome>::Ask(RequestView::Git { repo, command: c4 }));
    lemma_step(op, git, now, t4, 12, repo, c4);
    let r4 = git(now, c4).0;
    assert(answered(now, c4, r4, git(now, c4).1));
    let t5 = t4.push(r4);
    lemma_more(t4, r4);
    assert(more_replies(t4, t5, 0));
    lemma_merge_stays_at_head(args, t4, t5);
    assert(current_branch_required_flow(repo, t5, 4) == FlowView::<Text>::Got(now.branch, 5));
    law_object_id_is_token(merge);
    let c5: CommandView = Command::ResolveCommit { revision: merge };
    assert(rewind_from_flow(server, args, merge, t5, 1) == FlowView::<RewoundView>::Ask(
        RequestView::Git { repo, command: c5 },
    ));
    assert(op(t5) == FlowView::<RewindOutcome>::Ask(RequestView::Git { repo, command: c5 }));
    lemma_step(op, git, now, t5, 11, repo, c5);
    let r5 = git(now, c5).0;
    assert(answered(now, c5, r5, git(now, c5).1));
    let t6 = t5.push(r5);
    lemma_more(t5, r5);
    assert(more_replies(t5, t6, 0) && more_replies(t5, t6, 4));
    lemma_merge_stays_at_head(args, t5, t6);
    assert(current_branch_required_flow(repo, t6, 4) == FlowView::<Text>::Got(now.branch, 5));
    assert(validate_commitish_flow(repo, merge, "commit"@, t6, 5) == FlowView::<()>::Got((), 6));
    let c6: CommandView = Command::ResolveCommit { revision: merge };
    assert(rewind_from_flow(server, args, merge, t6, 1) == FlowView::<RewoundView>::Ask(
        RequestView::Git { repo, command: c6 },
    ));
    assert(op(t6) == FlowView::<RewindOutcome>::Ask(RequestView::Git { repo, command: c6 }));
    lemma_step(op, git, now, t6, 10, repo, c6);
    let r6 = git(now, c6).0;
    assert(answered(now, c6, r6, git(now, c6).1));
    let t7 = t6.push(r6);
    lemma_more(t6, r6);
    assert(more_replies(t6, t7, 0) && more_replies(t6, t7, 4) && more_replies(t6, t7, 5));
    lemma_merge_stays_at_head(args, t6, t7);
    assert(current_branch_required_flow(repo, t7, 4) == FlowView::<Text>::Got(now.branch, 5));
    assert(resolve_commit_flow(repo, merge, t7, 5) == FlowView::<Text>::Got(merge, 7));
    let c7: CommandView = Command::CommitMetadata { commit: merge };
    assert(rewind_from_flow(server, args, merge, t7, 1) == FlowView::<RewoundView>::Ask(
        RequestView::Git { repo, command: c7 },
    ));
    assert(op(t7) == FlowView::<RewindOutcome>::Ask(RequestView::Git { repo, command: c7 }));
    lemma_step(op, git, now, t7, 9, repo, c7);
    let r7 = git(now, c7).0;
    assert(answered(now, c7, r7, git(now, c7).1));
    let t8 = t7.push(r7);
    lemma_more(t7, r7);
    assert(more_replies(t7, t8, 0) && more_replies(t7, t8, 4) && more_replies(t7, t8, 5));
    lemma_merge_stays_at_head(args, t7, t8);
    assert(current_branch_required_flow(repo, t8, 4) == FlowView::<Text>::Got(now.branch, 5));
    assert(resolve_commit_flow(repo, merge, t8, 5) == FlowView::<Text>::Got(merge, 7));
    assert(commit_snapshot_flow(repo, merge, t8, 5) matches FlowView::Got(snapshot, m) && m == 8
        && snapshot.parents == now.parents[merge]);
    t8
}

/// Once the merge is known to be one, its first parent is gone back to.
proof fn lemma_rewind_reset(
    server: GitServer,
    args: RewindArgsView,
    now: Repository,
    t: Seq<Reply>,
)
    requires
        merge_read(args, now, t),
        now.parents[args.expected_merge].len() == 2,
        args.publication_guard == PublicationGuard::CallerConfirmedUnpublished,
    ensures
        ({
            let going_back = rewind_to_flow(
                args.repo,
                now.parents[args.expected_merge][0],
                t,
                8,
            );
            &&& going_back matches FlowView::Ask(request) ==> rewind_from_flow(
                server,
                args,
                args.expected_merge,
                t,
                1,
            ) == FlowView::<RewoundView>::Ask(request)
        }),
{
    assert(rewindable_flow(args, args.expected_merge, t, 1) matches FlowView::Got(found, m) && m == 8
        && found.1.parents == now.parents[args.expected_merge]);
}

/// Taking back the merge that a branch is at leaves the branch at the first
/// parent of the merge, and says so.
proof fn lemma_rewind_run(server: GitServer, args: RewindArgsView, git: Git, now: Repository)
    requires
        behaves(git),
        now.well_formed(),
        !now.dirty,
        !server.read_only,
        args.expected_merge == now.head,
        args.publication_guard == PublicationGuard::CallerConfirmedUnpublished,
        now.parents[now.head].len() == 2,
        now.parents.contains_key(now.parents[now.head][0]),
    ensures
        ({
            let base = now.parents[now.head][0];
            let run = driven(rewinding(server, args), git, now, Seq::empty(), 16);
            &&& run.0 matches FlowView::Got(RewriteOutcome::Done(done), _)
            &&& done.old_head == now.head
            &&& done.first_parent == base
            &&& done.new_head == base
            &&& run.1 == Repository { head: base, ..now }
        }),
{
    broadcast use {git_stays, head_stays, dirtiness_stays};

    let op = rewinding(server, args);
    let repo = args.repo;
    let merge = args.expected_merge;
    let base = now.parents[merge][0];
    let t8 = lemma_rewind_read(server, args, git, now);
    lemma_rewind_reset(server, args, now, t8);
    let c8: CommandView = Command::ResetKeep { target: base };
    assert(rewind_from_flow(server, args, merge, t8, 1) == FlowView::<RewoundView>::Ask(
        RequestView::Git { repo, command: c8 },
    ));
    assert(op(t8) == FlowView::<RewindOutcome>::Ask(RequestView::Git { repo, command: c8 }));
    lemma_step(op, git, now, t8, 8, repo, c8);
    let r8 = git(now, c8).0;
    assert(answered(now, c8, r8, git(now, c8).1));
    let t9 = t8.push(r8);
    lemma_more(t8, r8);
    assert(more_replies(t8, t9, 0));
    lemma_merge_stays_read(args, now, t8, t9);
    lemma_rewind_reset(server, args, now, t9);
    let back = git(now, c8).1;
    assert(back == Repository { head: base, ..now });
    assert(back.well_formed());
    assert(git_flow(repo, c8, t9, 8) matches FlowView::Got(_, m) && m == 9);
    let c9: CommandView = Command::HeadCommit;
    assert(rewind_from_flow(server, args, merge, t9, 1) == FlowView::<RewoundView>::Ask(
        RequestView::Git { repo, command: c9 },
    ));
    assert(op(t9) == FlowView::<RewindOutcome>::Ask(RequestView::Git { repo, command: c9 }));
    lemma_step(op, git, back, t9, 7, repo, c9);
    let r9 = git(back, c9).0;
    assert(answered(back, c9, r9, git(back, c9).1));
    let t10 = t9.push(r9);
    lemma_more(t9, r9);
    assert(more_replies(t9, t10, 0) && more_replies(t9, t10, 8));
    lemma_merge_stays_read(args, now, t9, t10);
    lemma_rewind_reset(server, args, now, t10);
    assert(git_flow(repo, c8, t10, 8) matches FlowView::Got(_, m) && m == 9);
    assert(head_sha_flow(repo, t10, 9) == FlowView::<Text>::Got(base, 10));
    let c10: CommandView = Command::PorcelainStatus;
    assert(rewind_from_flow(server, args, merge, t10, 1) == FlowView::<RewoundView>::Ask(
        RequestView::Git { repo, command: c10 },
    ));
    assert(op(t10) == FlowView::<RewindOutcome>::Ask(RequestView::Git { repo, command: c10 }));
    lemma_step(op, git, back, t10, 6, repo, c10);
    let r10 = git(back, c10).0;
    assert(answered(back, c10, r10, git(back, c10).1));
    let t11 = t10.push(r10);
    lemma_more(t10, r10);
    assert(more_replies(t10, t11, 0) && more_replies(t10, t11, 8) && more_replies(t10, t11, 9));
    lemma_merge_stays_read(args, now, t10, t11);
    lemma_rewind_reset(server, args, now, t11);
    assert(git_flow(repo, c8, t11, 8) matches FlowView::Got(_, m) && m == 9);
    assert(head_sha_flow(repo, t11, 9) == FlowView::<Text>::Got(base, 10));
    assert(is_dirty_flow(repo, t11, 10) == FlowView::<bool>::Got(false, 11));
    let c11: CommandView = Command::ShortStatus;
    assert(rewind_from_flow(server, args, merge, t11, 1) == FlowView::<RewoundView>::Ask(
        RequestView::Git { repo, command: c11 },
    ));
    assert(op(t11) == FlowView::<RewindOutcome>::Ask(RequestView::Git { repo, command: c11 }));
    lemma_step(op, git, back, t11, 5, repo, c11);
    let r11 = git(back, c11).0;
    assert(answered(back, c11, r11, git(back, c11).1));
    let t12 = t11.push(r11);
    lemma_more(t11, r11);
    assert(more_replies(t11, t12, 0) && more_replies(t11, t12, 8) && more_replies(t11, t12, 9) && more_replies(t11, t12, 10));
    lemma_merge_stays_read(args, now, t11, t12);
    assert(git_flow(repo, c8, t12, 8) matches FlowView::Got(_, m) && m == 9);
    assert(head_sha_flow(repo, t12, 9) == FlowView::<Text>::Got(base, 10));
    assert(is_dirty_flow(repo, t12, 10) == FlowView::<bool>::Got(false, 11));
    assert(short_status_flow(repo, t12, 11) is Got);
    assert(rewind_to_flow(repo, base, t12, 8) is Got);
    assert(merge_can_be_undone(server, args, merge, base, t12, 0));
    lemma_undone(server, args, base, t12, 0);
    law_rewind_done(server, args, t12, 0);
    assert(driven(op, git, now, Seq::empty(), 16) == (op(t12), back));
}

/// Taking back a merge undoes it. Where a merge on a branch without local
/// changes made a commit, taking back that commit succeeds, and says that it
/// went back to the commit that the branch was at before the merge. The branch
/// is then there again, with nothing changed locally. Neither operation asks Git
/// for more than sixteen commands.
pub proof fn law_merge_is_undone(
    server: GitServer,
    source: Text,
    message: Option<Text>,
    args: RewindArgsView,
    git: Git,
    before: Repository,
)
    requires
        behaves(git),
        before.well_formed(),
        !before.dirty,
        args.publication_guard == PublicationGuard::CallerConfirmedUnpublished,
        ({
            let made = driven(
                merging(server, args.repo, source, message),
                git,
                before,
                Seq::empty(),
                16,
            );
            &&& made.0 matches FlowView::Got(merged, _)
            &&& merged.head != before.head
            &&& args.expected_merge == merged.head
        }),
    ensures
        ({
            let made = driven(
                merging(server, args.repo, source, message),
                git,
                before,
                Seq::empty(),
                16,
            );
            let undone = driven(rewinding(server, args), git, made.1, Seq::empty(), 16);
            &&& undone.0 matches FlowView::Got(RewriteOutcome::Done(done), _)
            &&& done.old_head == args.expected_merge
            &&& done.first_parent == before.head
            &&& done.new_head == before.head
            &&& undone.1.head == before.head
            &&& undone.1.branch == before.branch
            &&& !undone.1.dirty
        }),
{
    let repo = args.repo;
    lemma_merge_run(server, repo, source, message, git, before);
    let now = driven(merging(server, repo, source, message), git, before, Seq::empty(), 16).1;
    assert(before.merged_into(now));
    assert(now.parents.remove(now.head).contains_key(before.head));
    lemma_rewind_run(server, args, git, now);
}

} // verus!
