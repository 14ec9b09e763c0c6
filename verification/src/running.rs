//! What the operations that run one command come to, held against what was
//! asked and told.
use crate::branches::{
    branch_absent_flow, create_branch_flow, delete_branch_flow, merge_flow, mutate_flow,
    on_clean_trunk_flow, start_point_flow, switch_flow, MergeMode, MutationView,
};
use crate::command::{Command, CommandView};
use crate::dialogue::{carries, lemma_answered, output_at, performed, request, said};
use crate::extent::{
    agree, branch_absence_reads, branch_name_reads, clean_trunk_reads, commitish_reads,
    committable_reads, git_reads, head_reads, local_branch_reads, required_branch_reads,
    start_point_reads, tag_name_reads,
};
use crate::flow::{git_flow, FlowView, Reply, RequestView};
use crate::output::OutputView;
use crate::paths::{cleaned_from, relative_path_verdict, PathStyle};
use crate::policy::{
    conventional_verdict,
    merge_message,
    message_verdict,
    refspec_verdict,
    token_verdict,
};
use crate::queries::{
    current_branch_required_flow, ensure_local_branch_flow, head_sha_flow, is_dirty_flow,
    short_status_flow, validate_branch_name_flow, validate_commitish_flow,
};
use crate::server::GitServer;
use crate::text::Text;
use crate::tools::{
    branches_flow, commit_flow, diff_flow, fetch_flow, log_flow, paths_flow, pull_flow, push_flow,
    show_flow, status_flow, tag_flow, PathAction,
};
use vstd::prelude::*;

verus! {

// ---------------------------------------------------------------------------
// One command
// ---------------------------------------------------------------------------
/// The operation asks for one command, and where the command succeeds it gives
/// what the command printed.
pub open spec fn runs(
    operation: spec_fn(Seq<Reply>) -> FlowView<OutputView>,
    repo: Text,
    command: CommandView,
) -> bool {
    &&& request(operation(Seq::empty())) == Some(RequestView::Git { repo, command })
    &&& forall|t: Seq<Reply>|
        t.len() > 0 && (t[0] matches Reply::Git(Ok(_))) && output_at(t, 0).exit_code == Some(0i32)
            ==> #[trigger] operation(t) == FlowView::Got(output_at(t, 0), 1)
}

/// The operation never asks for anything.
pub open spec fn refuses<T>(operation: spec_fn(Seq<Reply>) -> FlowView<T>) -> bool {
    forall|t: Seq<Reply>| #[trigger] operation(t) is Fail
}

/// The operations that look run the command that shows what they are asked for.
/// A log shows as many commits as are asked for, but no fewer than one and no
/// more than two hundred, and twenty where no number is given. A path, where one
/// is given, is cleaned.
pub proof fn law_questions_run(
    server: GitServer,
    repo: Text,
    staged: bool,
    path: Option<Text>,
    max_count: Option<u16>,
    revision: Text,
    stat_only: bool,
)
    ensures
        runs(|t: Seq<Reply>| status_flow(repo, t, 0), repo, Command::ShortStatus),
        runs(|t: Seq<Reply>| branches_flow(repo, t, 0), repo, Command::ListBranches),
        runs(
            |t: Seq<Reply>| log_flow(repo, max_count, t, 0),
            repo,
            Command::Log {
                count: match max_count {
                    None => 20u16,
                    Some(count) => if count == 0 {
                        1u16
                    } else if count >= 200 {
                        200u16
                    } else {
                        count
                    },
                },
            },
        ),
        token_verdict("revision"@, revision) is Ok ==> runs(
            |t: Seq<Reply>| show_flow(repo, revision, stat_only, t, 0),
            repo,
            Command::Show { revision, stat_only },
        ),
        token_verdict("revision"@, revision) is Err ==> refuses(
            |t: Seq<Reply>| show_flow(repo, revision, stat_only, t, 0),
        ),
        match path {
            None => runs(
                |t: Seq<Reply>| diff_flow(server, repo, staged, path, t, 0),
                repo,
                Command::Diff { staged, path: None },
            ),
            Some(raw) => match relative_path_verdict(raw, server.path_style) {
                Ok(clean) => runs(
                    |t: Seq<Reply>| diff_flow(server, repo, staged, path, t, 0),
                    repo,
                    Command::Diff { staged, path: Some(clean) },
                ),
                Err(_) => refuses(|t: Seq<Reply>| diff_flow(server, repo, staged, path, t, 0)),
            },
        },
{
}

#[verifier::rlimit(40)]
proof fn lemma_cleaned(paths: Seq<Text>, i: int, style: PathStyle)
    requires
        0 <= i <= paths.len(),
    ensures
        cleaned_from(paths, i, style) is Ok <==> forall|j: int|
            i <= j < paths.len() ==> relative_path_verdict(#[trigger] paths[j], style) is Ok,
        cleaned_from(paths, i, style) matches Ok(clean) ==> {
            &&& clean.len() == paths.len() - i
            &&& forall|j: int|
                i <= j < paths.len() ==> clean[j - i] == relative_path_verdict(
                    #[trigger] paths[j],
                    style,
                )->Ok_0
        },
    decreases paths.len() - i,
{
    if i < paths.len() {
        lemma_cleaned(paths, i + 1, style);
        assert(paths[i] == paths[i]);
    }
}

/// Staging, unstaging and restoring run their command on every path that is
/// given, each cleaned, in order; and they are refused on a server that may not
/// change anything, where there is no path or more than 1024, or where
/// some path cannot be cleaned.
#[verifier::rlimit(40)]
pub proof fn law_paths_run(
    server: GitServer,
    action: PathAction,
    repo: Text,
    paths: Seq<Text>,
) -> (clean: Seq<Text>)
    ensures
        ({
            let op = |t: Seq<Reply>| paths_flow(server, action, repo, paths, t, 0);
            let accepted = {
                &&& !server.read_only
                &&& 1 <= paths.len() <= 1024
                &&& forall|j: int|
                    0 <= j < paths.len() ==> relative_path_verdict(
                        #[trigger] paths[j],
                        server.path_style,
                    ) is Ok
            };
            &&& accepted ==> {
                &&& clean.len() == paths.len()
                &&& forall|j: int|
                    0 <= j < paths.len() ==> clean[j] == relative_path_verdict(
                        #[trigger] paths[j],
                        server.path_style,
                    )->Ok_0
                &&& runs(
                    op,
                    repo,
                    match action {
                        PathAction::Stage => Command::Stage { paths: clean },
                        PathAction::Unstage => Command::Unstage { paths: clean },
                        PathAction::Restore => Command::RestoreWorktree { paths: clean },
                    },
                )
            }
            &&& !accepted ==> refuses(op)
        }),
{
    lemma_cleaned(paths, 0, server.path_style);
    let clean = match cleaned_from(paths, 0, server.path_style) {
        Ok(clean) => clean,
        Err(_) => Seq::empty(),
    };
    clean
}

/// Fetching, pulling and pushing run their command for the remote that is named,
/// or for `origin` where none is, and for the branch or refspec that is given;
/// and they are refused on a server without the permission, and for names that
/// are no tokens or a refspec that forces.
pub proof fn law_remotes_run(
    server: GitServer,
    repo: Text,
    remote: Option<Text>,
    branch: Option<Text>,
    refspec: Option<Text>,
)
    ensures
        ({
            let name = match remote {
                Some(name) => name,
                None => "origin"@,
            };
            let named = token_verdict("remote"@, name) is Ok;
            let fetching = |t: Seq<Reply>| fetch_flow(server, repo, remote, t, 0);
            let pulling = |t: Seq<Reply>| pull_flow(server, repo, remote, branch, t, 0);
            let pushing = |t: Seq<Reply>| push_flow(server, repo, remote, refspec, t, 0);
            let readable = !server.read_only && server.allow_remote_read;
            let branch_named = match branch {
                Some(branch) => token_verdict("branch"@, branch) is Ok,
                None => true,
            };
            let refspec_named = match refspec {
                Some(refspec) => refspec_verdict(refspec) is Ok,
                None => true,
            };
            &&& if readable && named {
                runs(fetching, repo, Command::Fetch { remote: name })
            } else {
                refuses(fetching)
            }
            &&& if readable && named && branch_named {
                runs(pulling, repo, Command::Pull { remote: name, branch })
            } else {
                refuses(pulling)
            }
            &&& if server.allow_remote_write && named && refspec_named {
                runs(pushing, repo, Command::Push { remote: name, refspec })
            } else {
                refuses(pushing)
            }
        }),
{
}

// ---------------------------------------------------------------------------
// Commits and tags
// ---------------------------------------------------------------------------
/// Committing, as an operation.
pub open spec fn committing(server: GitServer, repo: Text, message: Text) -> spec_fn(
    Seq<Reply>,
) -> FlowView<OutputView> {
    |t: Seq<Reply>| commit_flow(server, repo, message, t, 0)
}

/// A commit is made with exactly the message given, which follows Conventional
/// Commits. The branch was asked for; where it is the trunk, a merge was seen to
/// be in progress. What the commit printed is the result. Where the replies say
/// so, it succeeds.
#[verifier::rlimit(40)]
pub proof fn law_commit_runs(server: GitServer, repo: Text, message: Text, t: Seq<Reply>)
    ensures
        ({
            let op = committing(server, repo, message);
            let k = if said(t, 0) == "main"@ {
                2int
            } else {
                1int
            };
            op(t) is Got <==> {
                &&& !server.read_only
                &&& conventional_verdict(message) is Ok
                &&& performed(op, t, 0, repo, Command::CurrentBranch)
                &&& said(t, 0) == "main"@ ==> performed(op, t, 1, repo, Command::MergeHead)
                &&& performed(op, t, k, repo, Command::Commit { message })
            }
        }),
        ({
            let k = if said(t, 0) == "main"@ {
                2int
            } else {
                1int
            };
            committing(server, repo, message)(t) matches FlowView::Got(output, _) ==> output
                == output_at(t, k)
        }),
{
    let op = committing(server, repo, message);
    let k = if said(t, 0) == "main"@ {
        2int
    } else {
        1int
    };
    assert(op(t) == commit_flow(server, repo, message, t, 0));
    if t.len() > 0 {
        let s = t.take(0);
        assert(op(s) == commit_flow(server, repo, message, s, 0));
    }
    if t.len() > 1 {
        let s = t.take(1);
        assert(op(s) == commit_flow(server, repo, message, s, 0));
        assert(agree(t, s, 1));
        required_branch_reads(repo, t, s, 0);
        committable_reads(repo, t, s, 0);
    }
    if t.len() > 2 {
        let s = t.take(2);
        assert(op(s) == commit_flow(server, repo, message, s, 0));
        assert(agree(t, s, 2));
        committable_reads(repo, t, s, 0);
    }
}

/// Tagging, as an operation.
pub open spec fn tagging(server: GitServer, repo: Text, name: Text, message: Option<Text>) -> spec_fn(
    Seq<Reply>,
) -> FlowView<OutputView> {
    |t: Seq<Reply>| tag_flow(server, repo, name, message, t, 0)
}

/// A tag is made under exactly the name given, after the name was checked: an
/// annotated one with exactly the message given, where one is, and otherwise a
/// lightweight one. What that printed is the result. Where the replies say so,
/// it succeeds.
#[verifier::rlimit(40)]
pub proof fn law_tag_runs(
    server: GitServer,
    repo: Text,
    name: Text,
    message: Option<Text>,
    t: Seq<Reply>,
)
    ensures
        ({
            let op = tagging(server, repo, name, message);
            &&& op(t) is Got <==> {
                &&& !server.read_only
                &&& token_verdict("tag name"@, name) is Ok
                &&& performed(op, t, 0, repo, Command::CheckTagName { name })
                &&& match message {
                    None => performed(op, t, 1, repo, Command::LightweightTag { name }),
                    Some(message) => {
                        &&& message_verdict(message) is Ok
                        &&& performed(
                            op,
                            t,
                            1,
                            repo,
                            Command::AnnotatedTag { name, target: None, message },
                        )
                    },
                }
            }
            &&& op(t) matches FlowView::Got(output, _) ==> output == output_at(t, 1)
        }),
{
    let op = tagging(server, repo, name, message);
    assert(op(t) == tag_flow(server, repo, name, message, t, 0));
    if t.len() > 0 {
        let s = t.take(0);
        assert(op(s) == tag_flow(server, repo, name, message, s, 0));
    }
    if t.len() > 1 {
        let s = t.take(1);
        assert(op(s) == tag_flow(server, repo, name, message, s, 0));
        assert(agree(t, s, 1));
        tag_name_reads(repo, name, t, s, 0);
    }
}

// ---------------------------------------------------------------------------
// Branches
// ---------------------------------------------------------------------------
spec fn mutating(operation: Text, repo: Text, command: CommandView, n: int) -> spec_fn(
    Seq<Reply>,
) -> FlowView<MutationView> {
    |t: Seq<Reply>| mutate_flow(operation, repo, command, t, n)
}

/// The operation ran a command at position `n`, and was told of the branch, the
/// commit at `HEAD` and the status afterwards; its result says so.
pub open spec fn mutated<T>(
    operation: spec_fn(Seq<Reply>) -> FlowView<T>,
    t: Seq<Reply>,
    n: int,
    repo: Text,
    command: CommandView,
    done: MutationView,
) -> bool {
    &&& performed(operation, t, n, repo, command)
    &&& done.stdout == output_at(t, n).stdout
    &&& done.stderr == output_at(t, n).stderr
    &&& done.truncated == output_at(t, n).truncated
    &&& performed(operation, t, n + 1, repo, Command::CurrentBranch)
    &&& done.branch == said(t, n + 1)
    &&& performed(operation, t, n + 2, repo, Command::HeadCommit)
    &&& done.head == said(t, n + 2)
    &&& performed(operation, t, n + 3, repo, Command::ShortStatus)
    &&& done.status == output_at(t, n + 3).stdout
}

#[verifier::rlimit(40)]
proof fn lemma_mutated<T>(
    operation: spec_fn(Seq<Reply>) -> FlowView<T>,
    name: Text,
    repo: Text,
    command: CommandView,
    t: Seq<Reply>,
    n: int,
)
    requires
        0 <= n <= t.len(),
        mutate_flow(name, repo, command, t, n) is Got,
        carries(operation, mutating(name, repo, command, n), t, n),
    ensures
        mutated(operation, t, n, repo, command, mutate_flow(name, repo, command, t, n)->Got_0),
        mutate_flow(name, repo, command, t, n)->Got_0.operation == name,
        mutate_flow(name, repo, command, t, n)->Got_1 == n + 4,
        n + 4 <= t.len(),
{
    let op = mutating(name, repo, command, n);
    assert(git_flow(repo, command, t, n) == FlowView::Got(output_at(t, n), n + 1));
    assert(current_branch_required_flow(repo, t, n + 1) == FlowView::Got(said(t, n + 1), n + 2));
    assert(head_sha_flow(repo, t, n + 2) == FlowView::Got(said(t, n + 2), n + 3));
    assert(short_status_flow(repo, t, n + 3) == FlowView::Got(output_at(t, n + 3).stdout, n + 4));
    let a = t.take(n);
    assert(op(a) == mutate_flow(name, repo, command, a, n));
    let b = t.take(n + 1);
    assert(op(b) == mutate_flow(name, repo, command, b, n));
    assert(agree(t, b, n + 1));
    git_reads(repo, command, t, b, n);
    let c = t.take(n + 2);
    assert(op(c) == mutate_flow(name, repo, command, c, n));
    assert(agree(t, c, n + 1) && agree(t, c, n + 2));
    git_reads(repo, command, t, c, n);
    required_branch_reads(repo, t, c, n + 1);
    let d = t.take(n + 3);
    assert(op(d) == mutate_flow(name, repo, command, d, n));
    assert(agree(t, d, n + 1) && agree(t, d, n + 2) && agree(t, d, n + 3));
    git_reads(repo, command, t, d, n);
    required_branch_reads(repo, t, d, n + 1);
    head_reads(repo, t, d, n + 2);
    lemma_answered(operation, op, t, n, n, repo, command);
    lemma_answered(operation, op, t, n, n + 1, repo, Command::CurrentBranch);
    lemma_answered(operation, op, t, n, n + 2, repo, Command::HeadCommit);
    lemma_answered(operation, op, t, n, n + 3, repo, Command::ShortStatus);
}

/// Switching, as an operation.
pub open spec fn switching(server: GitServer, repo: Text, branch: Text) -> spec_fn(
    Seq<Reply>,
) -> FlowView<MutationView> {
    |t: Seq<Reply>| switch_flow(server, repo, branch, t, 0)
}

/// Where a switch is done, it was to the branch given, which was seen to exist,
/// and the result is the state that was told afterwards.
#[verifier::rlimit(40)]
pub proof fn law_switch_runs(server: GitServer, repo: Text, branch: Text, t: Seq<Reply>)
    requires
        switch_flow(server, repo, branch, t, 0) is Got,
    ensures
        ({
            let op = switching(server, repo, branch);
            let done = switch_flow(server, repo, branch, t, 0)->Got_0;
            &&& !server.read_only
            &&& performed(op, t, 0, repo, Command::CheckBranchName { branch })
            &&& performed(op, t, 1, repo, Command::ShowBranchRef { branch })
            &&& mutated(op, t, 2, repo, Command::Switch { branch }, done)
            &&& done.operation == "switch"@
        }),
{
    let op = switching(server, repo, branch);
    let command = Command::Switch { branch };
    assert(validate_branch_name_flow(repo, branch, t, 0) == FlowView::Got((), 1));
    assert(ensure_local_branch_flow(repo, branch, t, 0) == FlowView::Got((), 2));
    let a = t.take(0);
    assert(op(a) == switch_flow(server, repo, branch, a, 0));
    let b = t.take(1);
    assert(op(b) == switch_flow(server, repo, branch, b, 0));
    assert(agree(t, b, 1));
    branch_name_reads(repo, branch, t, b, 0);
    let part = mutating("switch"@, repo, command, 2);
    assert forall|p: int|
        2 <= p <= t.len() && request(part(#[trigger] t.take(p))) is Some implies request(
        op(t.take(p)),
    ) == request(part(t.take(p))) by {
        let s = t.take(p);
        assert(op(s) == switch_flow(server, repo, branch, s, 0));
        assert(agree(t, s, 2));
        local_branch_reads(repo, branch, t, s, 0);
        assert(part(s) == mutate_flow("switch"@, repo, command, s, 2));
    }
    lemma_mutated(op, "switch"@, repo, command, t, 2);
}

/// Deleting a branch, as an operation.
pub open spec fn deleting(server: GitServer, repo: Text, branch: Text) -> spec_fn(
    Seq<Reply>,
) -> FlowView<MutationView> {
    |t: Seq<Reply>| delete_branch_flow(server, repo, branch, t, 0)
}

/// Where a branch is deleted, it is the one given, which was seen to exist, and
/// the result is the state that was told afterwards.
#[verifier::rlimit(40)]
pub proof fn law_delete_branch_runs(server: GitServer, repo: Text, branch: Text, t: Seq<Reply>)
    requires
        delete_branch_flow(server, repo, branch, t, 0) is Got,
    ensures
        ({
            let op = deleting(server, repo, branch);
            let done = delete_branch_flow(server, repo, branch, t, 0)->Got_0;
            &&& !server.read_only
            &&& performed(op, t, 0, repo, Command::CheckBranchName { branch })
            &&& performed(op, t, 1, repo, Command::ShowBranchRef { branch })
            &&& mutated(op, t, 2, repo, Command::DeleteBranch { branch }, done)
            &&& done.operation == "delete_branch"@
        }),
{
    let op = deleting(server, repo, branch);
    let command = Command::DeleteBranch { branch };
    assert(validate_branch_name_flow(repo, branch, t, 0) == FlowView::Got((), 1));
    assert(ensure_local_branch_flow(repo, branch, t, 0) == FlowView::Got((), 2));
    let a = t.take(0);
    assert(op(a) == delete_branch_flow(server, repo, branch, a, 0));
    let b = t.take(1);
    assert(op(b) == delete_branch_flow(server, repo, branch, b, 0));
    assert(agree(t, b, 1));
    branch_name_reads(repo, branch, t, b, 0);
    let part = mutating("delete_branch"@, repo, command, 2);
    assert forall|p: int|
        2 <= p <= t.len() && request(part(#[trigger] t.take(p))) is Some implies request(
        op(t.take(p)),
    ) == request(part(t.take(p))) by {
        let s = t.take(p);
        assert(op(s) == delete_branch_flow(server, repo, branch, s, 0));
        assert(agree(t, s, 2));
        local_branch_reads(repo, branch, t, s, 0);
        assert(part(s) == mutate_flow("delete_branch"@, repo, command, s, 2));
    }
    lemma_mutated(op, "delete_branch"@, repo, command, t, 2);
}

/// Creating a branch, as an operation.
pub open spec fn creating(
    server: GitServer,
    repo: Text,
    branch: Text,
    start_point: Option<Text>,
    switch: bool,
) -> spec_fn(Seq<Reply>) -> FlowView<MutationView> {
    |t: Seq<Reply>| create_branch_flow(server, repo, branch, start_point, switch, t, 0)
}

/// Where a branch is created, it has the name given, which was checked and seen
/// not to exist; it starts at the revision given, which was seen to name a
/// commit, where one is given; and it is switched to where that is asked for.
/// The result is the state that was told afterwards.
#[verifier::rlimit(40)]
pub proof fn law_create_branch_runs(
    server: GitServer,
    repo: Text,
    branch: Text,
    start_point: Option<Text>,
    switch: bool,
    t: Seq<Reply>,
)
    requires
        create_branch_flow(server, repo, branch, start_point, switch, t, 0) is Got,
    ensures
        ({
            let op = creating(server, repo, branch, start_point, switch);
            let done = create_branch_flow(server, repo, branch, start_point, switch, t, 0)->Got_0;
            let k = if start_point is Some {
                3int
            } else {
                2int
            };
            &&& !server.read_only
            &&& performed(op, t, 0, repo, Command::CheckBranchName { branch })
            &&& request(op(t.take(1))) == Some(
                RequestView::Git { repo, command: Command::ShowBranchRef { branch } },
            )
            &&& (t[1] matches Reply::Git(Ok(_))) ==> output_at(t, 1).exit_code != Some(0i32)
            &&& start_point matches Some(revision) ==> performed(
                op,
                t,
                2,
                repo,
                Command::ResolveCommit { revision },
            )
            &&& mutated(
                op,
                t,
                k,
                repo,
                if switch {
                    Command::SwitchCreate { branch, start_point }
                } else {
                    Command::CreateBranch { branch, start_point }
                },
                done,
            )
            &&& done.operation == "create_branch"@
        }),
{
    let op = creating(server, repo, branch, start_point, switch);
    let command = if switch {
        Command::SwitchCreate { branch, start_point }
    } else {
        Command::CreateBranch { branch, start_point }
    };
    let k = if start_point is Some {
        3int
    } else {
        2int
    };
    assert(validate_branch_name_flow(repo, branch, t, 0) == FlowView::Got((), 1));
    assert(branch_absent_flow(repo, branch, t, 1) == FlowView::Got((), 2));
    assert(start_point_flow(repo, start_point, t, 2) == FlowView::Got((), k));
    let a = t.take(0);
    assert(op(a) == create_branch_flow(server, repo, branch, start_point, switch, a, 0));
    let b = t.take(1);
    assert(op(b) == create_branch_flow(server, repo, branch, start_point, switch, b, 0));
    assert(agree(t, b, 1));
    branch_name_reads(repo, branch, t, b, 0);
    let c = t.take(2);
    assert(op(c) == create_branch_flow(server, repo, branch, start_point, switch, c, 0));
    assert(agree(t, c, 1) && agree(t, c, 2));
    branch_name_reads(repo, branch, t, c, 0);
    branch_absence_reads(repo, branch, t, c, 1);
    let part = mutating("create_branch"@, repo, command, k);
    assert forall|p: int|
        k <= p <= t.len() && request(part(#[trigger] t.take(p))) is Some implies request(
        op(t.take(p)),
    ) == request(part(t.take(p))) by {
        let s = t.take(p);
        assert(op(s) == create_branch_flow(server, repo, branch, start_point, switch, s, 0));
        assert(agree(t, s, 1) && agree(t, s, 2) && agree(t, s, k));
        branch_name_reads(repo, branch, t, s, 0);
        branch_absence_reads(repo, branch, t, s, 1);
        start_point_reads(repo, start_point, t, s, 2);
        assert(part(s) == mutate_flow("create_branch"@, repo, command, s, k));
    }
    lemma_mutated(op, "create_branch"@, repo, command, t, k);
}

/// Merging, as an operation.
pub open spec fn merging(
    server: GitServer,
    repo: Text,
    source: Text,
    mode: MergeMode,
    message: Option<Text>,
) -> spec_fn(Seq<Reply>) -> FlowView<MutationView> {
    |t: Seq<Reply>| merge_flow(server, repo, source, mode, message, t, 0)
}

/// Where a merge is done, it is of the source given, which was seen to name a
/// commit, with the message given, or with one derived from the source where
/// none is; the message follows Conventional Commits; the branch was seen to be
/// the trunk, and nothing to be changed locally. The result is the state that
/// was told afterwards.
#[verifier::rlimit(40)]
pub proof fn law_merge_runs(
    server: GitServer,
    repo: Text,
    source: Text,
    mode: MergeMode,
    message: Option<Text>,
    t: Seq<Reply>,
)
    requires
        merge_flow(server, repo, source, mode, message, t, 0) is Got,
    ensures
        ({
            let op = merging(server, repo, source, mode, message);
            let done = merge_flow(server, repo, source, mode, message, t, 0)->Got_0;
            let text = match message {
                Some(message) => message,
                None => merge_message(source),
            };
            &&& !server.read_only
            &&& performed(op, t, 0, repo, Command::ResolveCommit { revision: source })
            &&& performed(op, t, 1, repo, Command::CurrentBranch)
            &&& said(t, 1) == "main"@
            &&& performed(op, t, 2, repo, Command::PorcelainStatus)
            &&& output_at(t, 2).stdout.len() == 0
            &&& conventional_verdict(text) is Ok
            &&& mutated(op, t, 3, repo, Command::Merge { message: text, source }, done)
            &&& done.operation == "merge"@
        }),
{
    let op = merging(server, repo, source, mode, message);
    let text = match message {
        Some(message) => message,
        None => merge_message(source),
    };
    let command = Command::Merge { message: text, source };
    let kind = "merge source"@;
    assert(validate_commitish_flow(repo, source, kind, t, 0) == FlowView::Got((), 1));
    assert(current_branch_required_flow(repo, t, 1) == FlowView::Got(said(t, 1), 2));
    assert(is_dirty_flow(repo, t, 2) == FlowView::Got(false, 3));
    assert(on_clean_trunk_flow(repo, t, 1) == FlowView::Got((), 3));
    let a = t.take(0);
    assert(op(a) == merge_flow(server, repo, source, mode, message, a, 0));
    let b = t.take(1);
    assert(op(b) == merge_flow(server, repo, source, mode, message, b, 0));
    assert(agree(t, b, 1));
    commitish_reads(repo, source, kind, t, b, 0);
    let c = t.take(2);
    assert(op(c) == merge_flow(server, repo, source, mode, message, c, 0));
    assert(agree(t, c, 1) && agree(t, c, 2));
    commitish_reads(repo, source, kind, t, c, 0);
    required_branch_reads(repo, t, c, 1);
    let part = mutating("merge"@, repo, command, 3);
    assert forall|p: int|
        3 <= p <= t.len() && request(part(#[trigger] t.take(p))) is Some implies request(
        op(t.take(p)),
    ) == request(part(t.take(p))) by {
        let s = t.take(p);
        assert(op(s) == merge_flow(server, repo, source, mode, message, s, 0));
        assert(agree(t, s, 1) && agree(t, s, 3));
        commitish_reads(repo, source, kind, t, s, 0);
        clean_trunk_reads(repo, t, s, 1);
        assert(part(s) == mutate_flow("merge"@, repo, command, s, 3));
    }
    lemma_mutated(op, "merge"@, repo, command, t, 3);
}

// ---------------------------------------------------------------------------
// Arguments
// ---------------------------------------------------------------------------
/// Every path of a command on paths is an argument of it, in order, behind the
/// marker that ends the options; and what a command may be given or not stands
/// among its arguments exactly where it is given.
pub proof fn law_operands_are_arguments(
    paths: Seq<Text>,
    name: Text,
    other: Text,
    message: Text,
    staged: bool,
)
    ensures
        (Command::<Text, Seq<Text>>::Stage { paths }).arguments() == seq!["add"@, "--"@] + paths,
        (Command::<Text, Seq<Text>>::Unstage { paths }).arguments() == seq![
            "restore"@,
            "--staged"@,
            "--"@,
        ] + paths,
        (Command::<Text, Seq<Text>>::RestoreWorktree { paths }).arguments() == seq![
            "restore"@,
            "--worktree"@,
            "--"@,
        ] + paths,
        (Command::<Text, Seq<Text>>::Diff { staged, path: Some(name) }).arguments() == (Command::<
            Text,
            Seq<Text>,
        >::Diff { staged, path: None }).arguments().push(name),
        (Command::<Text, Seq<Text>>::Diff { staged, path: None }).arguments().contains("--cached"@)
            <==> staged,
        (Command::<Text, Seq<Text>>::Pull { remote: name, branch: Some(other) }).arguments()
            == seq!["pull"@, "--ff-only"@, "--"@, name, other],
        (Command::<Text, Seq<Text>>::Push { remote: name, refspec: Some(other) }).arguments()
            == seq!["push"@, "--"@, name, other],
        (Command::<Text, Seq<Text>>::CreateBranch {
            branch: name,
            start_point: Some(other),
        }).arguments() == seq!["branch"@, name, other],
        (Command::<Text, Seq<Text>>::SwitchCreate {
            branch: name,
            start_point: Some(other),
        }).arguments() == seq!["switch"@, "-c"@, name, other],
        (Command::<Text, Seq<Text>>::AnnotatedTag {
            name,
            target: Some(other),
            message,
        }).arguments() == seq!["tag"@, "-a"@, name, other, "-m"@, message],
        (Command::<Text, Seq<Text>>::AnnotatedTag { name, target: None, message }).arguments()
            == seq!["tag"@, "-a"@, name, "-m"@, message],
{
    reveal_strlit("diff");
    reveal_strlit("--no-ext-diff");
    reveal_strlit("--no-textconv");
    reveal_strlit("--cached");
    reveal_strlit("--");
    let all = (Command::<Text, Seq<Text>>::Diff { staged, path: None }).arguments();
    assert("diff"@.len() == 4 && "--no-ext-diff"@.len() == 13 && "--no-textconv"@.len() == 13);
    assert("--cached"@.len() == 8 && "--"@.len() == 2);
    if staged {
        assert(all[3] == "--cached"@);
    } else {
        assert(all =~= seq!["diff"@, "--no-ext-diff"@, "--no-textconv"@, "--"@]);
    }
}

} // verus!
