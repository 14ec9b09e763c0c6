//! What holds of every operation of a server, whatever Git replies.
use crate::amend::{amend_flow, AmendArgsView, AmendView};
use crate::branches::{
    branch_absent_flow, chosen_merge_message, create_branch_flow, creation, delete_branch_flow,
    merge_flow, on_clean_trunk_flow, switch_flow, MergeMode, MutationView,
};
use crate::command::{Command, CommandView};
use crate::flow::{FlowView, Reply, RequestView};
use crate::guarantees::{
    clean_at, law_amend_asks, law_replace_tag_asks, law_reword_asks, law_rewind_asks,
    law_squash_asks, law_verification_asks, plans_inspect, resolving_inspects, snapshots_inspect,
};
use crate::history::{history_plan_flow, protected_trunk};
use crate::output::{utf8_lossy, OutputView};
use crate::paths::{is_within, repo_path_verdict};
use crate::policy::{
    conventional_verdict, is_forced_refspec, law_accepted_refspec_is_not_forced, refspec_verdict,
    semver_verdict,
};
use crate::publication::{
    chosen_remote, rewind_flow, verify_unpublished_flow, PublicationArgsView, RewindArgsView,
    RewoundView, VerificationView,
};
use crate::queries::{
    current_branch_required_flow, ensure_local_branch_flow, merge_in_progress_flow,
    validate_branch_name_flow, validate_commitish_flow,
};
use crate::readiness::{dev_control_flow, merge_readiness_flow, ReadinessArgsView};
use crate::release::{
    evidence_path_verdict, merged_trunk_flow, proves_pass, read_evidence_flow,
    release_evidence_flow, release_tag_flow, release_tag_message, release_tag_name, tag_absent_flow,
    ReleaseTagArgsView,
};
use crate::reword::{reword_flow, RewordArgsView, RewordedView};
use crate::rewrite::{branch_reference, untouched, RewriteFailureView, RewriteOutcome};
use crate::server::{
    canonicalize_flow, remote_read_verdict, remote_write_verdict, resolve_repo_flow, GitServer,
};
use crate::squash::{squash_flow, SquashArgsView, SquashedView};
use crate::tags::{replace_tag_flow, tag_reference, ReplaceTagArgsView, ReplacedTagView};
use crate::text::Text;
use crate::tools::{
    branches_flow, commit_flow, diff_flow, fetch_flow, log_flow, paths_flow, pull_flow, push_flow,
    show_flow, status_flow, tag_flow, PathAction,
};
use vstd::prelude::*;

verus! {

// ---------------------------------------------------------------------------
// The trunk
// ---------------------------------------------------------------------------
/// From position `m` on, the trunk was seen to be checked out, with nothing
/// changed locally.
pub open spec fn clean_trunk_at(repo: Text, t: Seq<Reply>, m: int) -> bool {
    &&& current_branch_required_flow(repo, t, m) matches FlowView::Got(branch, k)
    &&& branch == protected_trunk()
    &&& clean_at(repo, t, k)
}

/// A merge is made only on a server that may change repositories, on the
/// trunk, with nothing changed locally, always with a merge commit, and with a
/// message that follows Conventional Commits: the given one, or one derived
/// from the name of what is merged.
pub proof fn law_merge_asks(
    server: GitServer,
    repo: Text,
    source: Text,
    mode: MergeMode,
    message: Option<Text>,
    t: Seq<Reply>,
    n: int,
)
    ensures
        merge_flow(server, repo, source, mode, message, t, n).pending() matches Some(command) ==> (
        !command.only_inspects() ==> {
            &&& !server.read_only
            &&& exists|m: int| #[trigger] clean_trunk_at(repo, t, m)
            &&& command == (Command::<Text, Seq<Text>>::Merge {
                message: chosen_merge_message(source, message),
                source,
            })
            &&& command.arguments()[1] == "--no-ff"@
            &&& conventional_verdict(chosen_merge_message(source, message)) is Ok
        }),
{
    if let FlowView::Got(_, m) = validate_commitish_flow(repo, source, "merge source"@, t, n) {
        if on_clean_trunk_flow(repo, t, m) is Got {
            assert(clean_trunk_at(repo, t, m));
        }
    }
}

/// A commit is made only on a server that may change repositories, with a
/// message that follows Conventional Commits; and on the trunk only where a
/// merge was seen to be in progress.
pub proof fn law_commit_asks(
    server: GitServer,
    repo: Text,
    message: Text,
    t: Seq<Reply>,
    n: int,
)
    ensures
        commit_flow(server, repo, message, t, n).pending() matches Some(command) ==> (
        !command.only_inspects() ==> {
            &&& !server.read_only
            &&& command == (Command::<Text, Seq<Text>>::Commit { message })
            &&& conventional_verdict(message) is Ok
            &&& current_branch_required_flow(repo, t, n) matches FlowView::Got(branch, m)
            &&& branch == protected_trunk() ==> (merge_in_progress_flow(
                repo,
                t,
                m,
            ) matches FlowView::Got(merging, _) && merging)
        }),
{
}

// ---------------------------------------------------------------------------
// Releases
// ---------------------------------------------------------------------------
/// A release is tagged only on a server that may change repositories, for a
/// version `MAJOR.MINOR.PATCH`, on the trunk, with nothing changed locally and
/// a merge of two parents at `HEAD`, with the evidence that the repository
/// needs, and where no tag of that name was seen. The tag is annotated, and is
/// called `v` and the version.
pub proof fn law_release_tag_asks(
    server: GitServer,
    args: ReleaseTagArgsView,
    t: Seq<Reply>,
    n: int,
)
    ensures
        release_tag_flow(server, args, t, n).pending() matches Some(command) ==> (
        !command.only_inspects() ==> {
            &&& !server.read_only
            &&& semver_verdict(args.version) is Ok
            &&& clean_trunk_at(args.repo, t, n)
            &&& merged_trunk_flow(args.repo, t, n) matches FlowView::Got(head, m)
            &&& head.parents.len() == 2
            &&& release_evidence_flow(
                server,
                args.repo,
                head.sha,
                args.release_evidence_path,
                t,
                m,
            ) matches FlowView::Got(_, k)
            &&& tag_absent_flow(args.repo, release_tag_name(args.version), t, k) is Got
            &&& command == (Command::<Text, Seq<Text>>::AnnotatedTag {
                name: release_tag_name(args.version),
                target: None,
                message: release_tag_message(args.version, args.message),
            })
        }),
{
    broadcast use snapshots_inspect;

    lemma_merged_trunk(args.repo, t, n);
    if let FlowView::Got(head, m) = merged_trunk_flow(args.repo, t, n) {
        lemma_evidence_asks_no_command(
            server,
            args.repo,
            head.sha,
            args.release_evidence_path,
            t,
            m,
        );
    }
}

proof fn lemma_merged_trunk(repo: Text, t: Seq<Reply>, n: int)
    ensures
        merged_trunk_flow(repo, t, n).inspects(),
        merged_trunk_flow(repo, t, n) matches FlowView::Got(head, _) ==> head.parents.len() == 2
            && clean_trunk_at(repo, t, n),
{
    broadcast use snapshots_inspect;

}

proof fn lemma_evidence_asks_no_command(
    server: GitServer,
    repo: Text,
    head: Text,
    evidence_path: Option<Text>,
    t: Seq<Reply>,
    n: int,
)
    ensures
        release_evidence_flow(server, repo, head, evidence_path, t, n).pending() is None,
{
    lemma_resolving_asks_no_command(server, repo, t);
}

proof fn lemma_resolving_asks_no_command(server: GitServer, repo: Text, t: Seq<Reply>)
    ensures
        forall|n: int| (#[trigger] resolve_repo_flow(server, repo, t, n)).pending() is None,
{
}

/// The repository is one that needs release evidence.
pub open spec fn needs_evidence(server: GitServer, repo: Text) -> bool {
    repo_path_verdict(repo, server.path_style) matches Ok(selector)
        && server.release_evidence_required_repos.deep_view().contains(selector)
}

/// For a repository that needs release evidence, none is accepted but a file
/// below the directory of evidence, which is a `PASS` for exactly the commit
/// `head` of that repository.
pub proof fn law_release_evidence(
    server: GitServer,
    repo: Text,
    head: Text,
    evidence_path: Option<Text>,
    t: Seq<Reply>,
    n: int,
)
    requires
        needs_evidence(server, repo),
        release_evidence_flow(server, repo, head, evidence_path, t, n) is Got,
    ensures
        server.release_evidence_root matches Some(directory) && (evidence_path_verdict(
            server,
            evidence_path,
        ) matches Ok(requested) && (canonicalize_flow(
            requested,
            "cannot resolve release evidence: "@,
            t,
            n,
        ) matches FlowView::Got(found, m) && is_within(found.path, directory@, server.path_style)
            && found.is_file && (read_evidence_flow(found.path, t, m) matches FlowView::Got(evidence, k) && (
        resolve_repo_flow(server, repo, t, k) matches FlowView::Got(root, _) && proves_pass(
            evidence,
            head,
            utf8_lossy(root),
        ))))),
{
}

/// For other repositories no evidence is asked for.
pub proof fn law_evidence_opt_in(
    server: GitServer,
    repo: Text,
    head: Text,
    evidence_path: Option<Text>,
    t: Seq<Reply>,
    n: int,
)
    requires
        repo_path_verdict(repo, server.path_style) is Ok,
        !needs_evidence(server, repo),
    ensures
        release_evidence_flow(server, repo, head, evidence_path, t, n) == FlowView::Got((), n),
{
}

/// Evidence is read only from below the directory of evidence.
pub proof fn law_evidence_confined(
    server: GitServer,
    repo: Text,
    head: Text,
    evidence_path: Option<Text>,
    t: Seq<Reply>,
    n: int,
)
    ensures
        release_evidence_flow(server, repo, head, evidence_path, t, n) matches FlowView::Ask(
            RequestView::ReadEvidence { path },
        ) ==> (server.release_evidence_root matches Some(directory) && is_within(
            path,
            directory@,
            server.path_style,
        )),
{
    lemma_resolving_reads_no_evidence(server, repo, t);
}

proof fn lemma_resolving_reads_no_evidence(server: GitServer, repo: Text, t: Seq<Reply>)
    ensures
        forall|n: int|
            (#[trigger] resolve_repo_flow(server, repo, t, n)) matches FlowView::Ask(request)
                ==> request !is ReadEvidence,
{
}

// ---------------------------------------------------------------------------
// Refusals
// ---------------------------------------------------------------------------
/// What a read-only server answers.
pub open spec fn read_only_error() -> Text {
    "Git MCP is running in read-only mode; local repository mutation is disabled"@
}

/// A read-only server refuses to rewrite history, without asking anything of
/// Git, and says so.
pub proof fn law_read_only_refuses_rewrites(
    server: GitServer,
    amend: AmendArgsView,
    reword: RewordArgsView,
    squash: SquashArgsView,
    rewind: RewindArgsView,
    t: Seq<Reply>,
    n: int,
)
    requires
        server.read_only,
    ensures
        amend_flow(server, amend, t, n) == FlowView::<
            RewriteOutcome<AmendView, RewriteFailureView>,
        >::Got(RewriteOutcome::Failed(untouched("amend_commit"@, read_only_error())), n),
        reword_flow(server, reword, t, n) == FlowView::<
            RewriteOutcome<RewordedView, RewriteFailureView>,
        >::Got(RewriteOutcome::Failed(untouched("reword_commits"@, read_only_error())), n),
        squash_flow(server, squash, t, n) == FlowView::<
            RewriteOutcome<SquashedView, RewriteFailureView>,
        >::Got(RewriteOutcome::Failed(untouched("squash_commits"@, read_only_error())), n),
        rewind_flow(server, rewind, t, n) == FlowView::<
            RewriteOutcome<RewoundView, RewriteFailureView>,
        >::Got(RewriteOutcome::Failed(untouched("rewind_merge"@, read_only_error())), n),
{
}

/// A read-only server refuses to change branches, commits, tags and the index,
/// and to fetch, without asking anything of Git, and says so.
pub proof fn law_read_only_refuses(
    server: GitServer,
    repo: Text,
    name: Text,
    optional: Option<Text>,
    another: Option<Text>,
    switch: bool,
    action: PathAction,
    paths: Seq<Text>,
    t: Seq<Reply>,
    n: int,
)
    requires
        server.read_only,
    ensures
        switch_flow(server, repo, name, t, n) == FlowView::<MutationView>::Fail(read_only_error(), n),
        create_branch_flow(server, repo, name, optional, switch, t, n) == FlowView::<MutationView>::Fail(
            read_only_error(),
            n,
        ),
        merge_flow(server, repo, name, MergeMode::NoFf, optional, t, n) == FlowView::<MutationView>::Fail(
            read_only_error(),
            n,
        ),
        delete_branch_flow(server, repo, name, t, n) == FlowView::<MutationView>::Fail(
            read_only_error(),
            n,
        ),
        paths_flow(server, action, repo, paths, t, n) == FlowView::<OutputView>::Fail(
            read_only_error(),
            n,
        ),
        commit_flow(server, repo, name, t, n) == FlowView::<OutputView>::Fail(read_only_error(), n),
        tag_flow(server, repo, name, optional, t, n) == FlowView::<OutputView>::Fail(read_only_error(), n),
        fetch_flow(server, repo, optional, t, n) == FlowView::<OutputView>::Fail(read_only_error(), n),
        pull_flow(server, repo, optional, another, t, n) == FlowView::<OutputView>::Fail(read_only_error(), n),
{
}

/// A read-only server refuses to verify publication, to replace a tag and to
/// tag a release, without asking anything of Git, and says so.
pub proof fn law_read_only_refuses_releases(
    server: GitServer,
    publication: PublicationArgsView,
    replacement: ReplaceTagArgsView,
    process: nat,
    number: nat,
    release: ReleaseTagArgsView,
    t: Seq<Reply>,
    n: int,
)
    requires
        server.read_only,
    ensures
        verify_unpublished_flow(server, publication, t, n) == FlowView::<VerificationView>::Fail(
            read_only_error(),
            n,
        ),
        replace_tag_flow(server, replacement, process, number, t, n) == FlowView::<
            ReplacedTagView,
        >::Fail(read_only_error(), n),
        release_tag_flow(server, release, t, n) == FlowView::<OutputView>::Fail(
            read_only_error(),
            n,
        ),
{
}

/// A server that may not contact remotes refuses to, without asking anything
/// of Git, and says so.
pub proof fn law_remote_refusals(
    server: GitServer,
    repo: Text,
    remote: Option<Text>,
    name: Option<Text>,
    publication: PublicationArgsView,
    t: Seq<Reply>,
    n: int,
)
    requires
        !server.read_only,
    ensures
        remote_read_verdict(server) matches Err(error) ==> {
            &&& fetch_flow(server, repo, remote, t, n) == FlowView::<OutputView>::Fail(error, n)
            &&& pull_flow(server, repo, remote, name, t, n) == FlowView::<OutputView>::Fail(
                error,
                n,
            )
            &&& verify_unpublished_flow(server, publication, t, n) == FlowView::<
                VerificationView,
            >::Fail(error, n)
        },
        remote_write_verdict(server) matches Err(error) ==> push_flow(
            server,
            repo,
            remote,
            name,
            t,
            n,
        ) == FlowView::<OutputView>::Fail(error, n),
        remote_read_verdict(server) is Err <==> !server.allow_remote_read,
        remote_write_verdict(server) is Err <==> !server.allow_remote_write,
{
}

// ---------------------------------------------------------------------------
// Every operation
// ---------------------------------------------------------------------------
/// An operation that a server offers.
#[allow(inconsistent_fields)]
pub enum Operation {
    Status { repo: Text },
    Diff { repo: Text, staged: bool, path: Option<Text> },
    Log { repo: Text, max_count: Option<u16> },
    Show { repo: Text, revision: Text, stat_only: bool },
    Branches { repo: Text },
    HistoryPlan { repo: Text, base: Text },
    MergeReadiness { args: ReadinessArgsView },
    DevControlReadiness { repo: Text, version: Text },
    VerifyUnpublished { args: PublicationArgsView },
    Switch { repo: Text, branch: Text },
    CreateBranch { repo: Text, branch: Text, start_point: Option<Text>, switch: bool },
    AmendCommit { args: AmendArgsView },
    RewordCommits { args: RewordArgsView },
    SquashCommits { args: SquashArgsView },
    Merge { repo: Text, source: Text, mode: MergeMode, message: Option<Text> },
    DeleteBranch { repo: Text, branch: Text },
    RewindMerge { args: RewindArgsView },
    ReplaceLocalTag { args: ReplaceTagArgsView, process: nat, number: nat },
    Paths { action: PathAction, repo: Text, paths: Seq<Text> },
    Commit { repo: Text, message: Text },
    Tag { repo: Text, name: Text, message: Option<Text> },
    ReleaseTag { args: ReleaseTagArgsView },
    Fetch { repo: Text, remote: Option<Text> },
    Pull { repo: Text, remote: Option<Text>, branch: Option<Text> },
    Push { repo: Text, remote: Option<Text>, refspec: Option<Text> },
}

/// The command that an operation asks for, after the replies in `t`.
#[verifier::opaque]
pub open spec fn asked(server: GitServer, operation: Operation, t: Seq<Reply>) -> Option<
    CommandView,
> {
    match operation {
        Operation::Status { repo } => status_flow(repo, t, 0).pending(),
        Operation::Diff { repo, staged, path } => diff_flow(server, repo, staged, path, t, 0).pending(),
        Operation::Log { repo, max_count } => log_flow(repo, max_count, t, 0).pending(),
        Operation::Show { repo, revision, stat_only } => show_flow(
            repo,
            revision,
            stat_only,
            t,
            0,
        ).pending(),
        Operation::Branches { repo } => branches_flow(repo, t, 0).pending(),
        Operation::HistoryPlan { repo, base } => history_plan_flow(repo, base, t, 0).pending(),
        Operation::MergeReadiness { args } => merge_readiness_flow(args, t, 0).pending(),
        Operation::DevControlReadiness { repo, version } => dev_control_flow(
            repo,
            version,
            t,
            0,
        ).pending(),
        Operation::VerifyUnpublished { args } => verify_unpublished_flow(
            server,
            args,
            t,
            0,
        ).pending(),
        Operation::Switch { repo, branch } => switch_flow(server, repo, branch, t, 0).pending(),
        Operation::CreateBranch { repo, branch, start_point, switch } => create_branch_flow(
            server,
            repo,
            branch,
            start_point,
            switch,
            t,
            0,
        ).pending(),
        Operation::AmendCommit { args } => amend_flow(server, args, t, 0).pending(),
        Operation::RewordCommits { args } => reword_flow(server, args, t, 0).pending(),
        Operation::SquashCommits { args } => squash_flow(server, args, t, 0).pending(),
        Operation::Merge { repo, source, mode, message } => merge_flow(
            server,
            repo,
            source,
            mode,
            message,
            t,
            0,
        ).pending(),
        Operation::DeleteBranch { repo, branch } => delete_branch_flow(
            server,
            repo,
            branch,
            t,
            0,
        ).pending(),
        Operation::RewindMerge { args } => rewind_flow(server, args, t, 0).pending(),
        Operation::ReplaceLocalTag { args, process, number } => replace_tag_flow(
            server,
            args,
            process,
            number,
            t,
            0,
        ).pending(),
        Operation::Paths { action, repo, paths } => paths_flow(
            server,
            action,
            repo,
            paths,
            t,
            0,
        ).pending(),
        Operation::Commit { repo, message } => commit_flow(server, repo, message, t, 0).pending(),
        Operation::Tag { repo, name, message } => tag_flow(
            server,
            repo,
            name,
            message,
            t,
            0,
        ).pending(),
        Operation::ReleaseTag { args } => release_tag_flow(server, args, t, 0).pending(),
        Operation::Fetch { repo, remote } => fetch_flow(server, repo, remote, t, 0).pending(),
        Operation::Pull { repo, remote, branch } => pull_flow(
            server,
            repo,
            remote,
            branch,
            t,
            0,
        ).pending(),
        Operation::Push { repo, remote, refspec } => push_flow(
            server,
            repo,
            remote,
            refspec,
            t,
            0,
        ).pending(),
    }
}

/// The server may run the command: one that changes the repository unless the
/// server is read-only, and one that contacts a remote with the permission
/// for that.
pub open spec fn permitted(server: GitServer, command: CommandView) -> bool {
    &&& command.writes_repository() ==> !server.read_only
    &&& command.reads_remote() ==> server.allow_remote_read
    &&& command.writes_remote() ==> server.allow_remote_write
}

/// Where the command makes a commit, its message follows Conventional Commits.
pub open spec fn authors_conventionally(command: CommandView) -> bool {
    match command {
        Command::Commit { message } => conventional_verdict(message) is Ok,
        Command::CommitTree { message, .. } => conventional_verdict(message) is Ok,
        Command::Merge { message, .. } => conventional_verdict(message) is Ok,
        _ => true,
    }
}

/// The command pushes with force.
pub open spec fn pushes_by_force(command: CommandView) -> bool {
    command matches Command::Push { refspec: Some(refspec), .. } && is_forced_refspec(refspec)
}

/// The command moves the reference of the trunk by `update-ref`.
pub open spec fn moves_trunk(command: CommandView) -> bool {
    command matches Command::UpdateRef { reference, .. } && reference == branch_reference(
        protected_trunk(),
    )
}

/// The command is one that the server may run, and that keeps to its rules.
pub open spec fn proper(server: GitServer, command: CommandView) -> bool {
    &&& permitted(server, command)
    &&& authors_conventionally(command)
    &&& !pushes_by_force(command)
    &&& !moves_trunk(command)
}

/// Another branch has another reference than the trunk.
proof fn lemma_branch_references(branch: Text)
    ensures
        branch != protected_trunk() ==> branch_reference(branch) != branch_reference(
            protected_trunk(),
        ),
{
    if branch_reference(branch) == branch_reference(protected_trunk()) {
        let prefix = "refs/heads/"@;
        assert((prefix + branch).skip(prefix.len() as int) =~= branch);
        assert((prefix + protected_trunk()).skip(prefix.len() as int) =~= protected_trunk());
    }
}

/// No tag has the reference of the trunk.
proof fn lemma_tag_references(name: Text)
    ensures
        tag_reference(name) != branch_reference(protected_trunk()),
{
    reveal_strlit("refs/tags/");
    reveal_strlit("refs/heads/");
    assert(tag_reference(name)[5] == 't');
    assert(branch_reference(protected_trunk())[5] == 'h');
}

/// The operation is one that only looks.
pub open spec fn is_question(operation: Operation) -> bool {
    operation is Status || operation is Diff || operation is Log || operation is Show
        || operation is Branches || operation is HistoryPlan || operation is MergeReadiness
        || operation is DevControlReadiness
}

/// Whatever Git replies, an operation that only looks neither changes a
/// repository nor contacts a remote.
pub proof fn law_questions_only_inspect(server: GitServer, operation: Operation, t: Seq<Reply>)
    requires
        is_question(operation),
    ensures
        asked(server, operation, t) matches Some(command) ==> command.only_inspects(),
{
    reveal(asked);
    broadcast use {plans_inspect, resolving_inspects};

}

/// Switching changes a repository only on a server that may, and only to
/// switch to a branch that was seen to exist.
pub proof fn law_switch_asks(server: GitServer, repo: Text, branch: Text, t: Seq<Reply>, n: int)
    ensures
        switch_flow(server, repo, branch, t, n).pending() matches Some(command)
            ==> command.only_inspects() || (!server.read_only && command == (Command::<
            Text,
            Seq<Text>,
        >::Switch { branch }) && ensure_local_branch_flow(repo, branch, t, n) is Got),
{
}

/// Creating a branch changes a repository only on a server that may, and only
/// to create that branch, which was not seen to exist.
pub proof fn law_create_branch_asks(
    server: GitServer,
    repo: Text,
    branch: Text,
    start_point: Option<Text>,
    switch: bool,
    t: Seq<Reply>,
    n: int,
)
    ensures
        create_branch_flow(server, repo, branch, start_point, switch, t, n).pending() matches Some(
            command,
        ) ==> command.only_inspects() || {
            &&& !server.read_only
            &&& command == creation(branch, start_point, switch)
            &&& validate_branch_name_flow(repo, branch, t, n) matches FlowView::Got(_, m)
            &&& branch_absent_flow(repo, branch, t, m) is Got
        },
{
}

/// Deleting a branch changes a repository only on a server that may, and only
/// to delete that branch, which was seen to exist, without force.
pub proof fn law_delete_branch_asks(
    server: GitServer,
    repo: Text,
    branch: Text,
    t: Seq<Reply>,
    n: int,
)
    ensures
        delete_branch_flow(server, repo, branch, t, n).pending() matches Some(command)
            ==> command.only_inspects() || (!server.read_only && command == (Command::<
            Text,
            Seq<Text>,
        >::DeleteBranch { branch }) && command.arguments()[1] == "-d"@ && ensure_local_branch_flow(
            repo,
            branch,
            t,
            n,
        ) is Got),
{
}

proof fn lemma_branches_proper(server: GitServer, operation: Operation, t: Seq<Reply>)
    requires
        operation is Switch || operation is CreateBranch || operation is DeleteBranch,
    ensures
        asked(server, operation, t) matches Some(command) ==> proper(server, command),
{
    match operation {
        Operation::Switch { repo, branch } => {
            law_switch_asks(server, repo, branch, t, 0);
            assert(asked(server, operation, t) == switch_flow(server, repo, branch, t, 0).pending())
                by {
                reveal(asked);
            }
        },
        Operation::CreateBranch { repo, branch, start_point, switch } => {
            law_create_branch_asks(server, repo, branch, start_point, switch, t, 0);
            assert(asked(server, operation, t) == create_branch_flow(
                server,
                repo,
                branch,
                start_point,
                switch,
                t,
                0,
            ).pending()) by {
                reveal(asked);
            }
        },
        Operation::DeleteBranch { repo, branch } => {
            law_delete_branch_asks(server, repo, branch, t, 0);
            assert(asked(server, operation, t) == delete_branch_flow(
                server,
                repo,
                branch,
                t,
                0,
            ).pending()) by {
                reveal(asked);
            }
        },
        _ => {},
    }
}

proof fn lemma_index_proper(server: GitServer, operation: Operation, t: Seq<Reply>)
    requires
        operation is Paths || operation is Tag,
    ensures
        asked(server, operation, t) matches Some(command) ==> proper(server, command),
{
    reveal(asked);
}

/// Fetching needs a server that may change repositories and read from
/// remotes.
pub proof fn law_fetch_asks(
    server: GitServer,
    repo: Text,
    remote: Option<Text>,
    t: Seq<Reply>,
    n: int,
)
    ensures
        fetch_flow(server, repo, remote, t, n).pending() matches Some(command)
            ==> !server.read_only && server.allow_remote_read && command == (Command::<
            Text,
            Seq<Text>,
        >::Fetch { remote: chosen_remote(remote) }),
{
}

/// Pulling needs a server that may change repositories and read from remotes,
/// and is fast-forward only.
pub proof fn law_pull_asks(
    server: GitServer,
    repo: Text,
    remote: Option<Text>,
    branch: Option<Text>,
    t: Seq<Reply>,
    n: int,
)
    ensures
        pull_flow(server, repo, remote, branch, t, n).pending() matches Some(command)
            ==> !server.read_only && server.allow_remote_read && command == (Command::<
            Text,
            Seq<Text>,
        >::Pull { remote: chosen_remote(remote), branch }) && command.arguments()[1]
            == "--ff-only"@,
{
}

/// Pushing needs a server that may write to remotes, and is never forced.
pub proof fn law_push_asks(
    server: GitServer,
    repo: Text,
    remote: Option<Text>,
    refspec: Option<Text>,
    t: Seq<Reply>,
    n: int,
)
    ensures
        push_flow(server, repo, remote, refspec, t, n).pending() matches Some(command)
            ==> server.allow_remote_write && command == (Command::<Text, Seq<Text>>::Push {
            remote: chosen_remote(remote),
            refspec,
        }) && (refspec matches Some(spec) ==> !is_forced_refspec(spec)),
{
    if let Some(spec) = refspec {
        if refspec_verdict(spec) is Ok {
            law_accepted_refspec_is_not_forced(spec);
        }
    }
}

proof fn lemma_remotes_proper(server: GitServer, operation: Operation, t: Seq<Reply>)
    requires
        operation is Fetch || operation is Pull || operation is Push,
    ensures
        asked(server, operation, t) matches Some(command) ==> proper(server, command),
{
    match operation {
        Operation::Fetch { repo, remote } => {
            law_fetch_asks(server, repo, remote, t, 0);
            assert(asked(server, operation, t) == fetch_flow(server, repo, remote, t, 0).pending())
                by {
                reveal(asked);
            }
        },
        Operation::Pull { repo, remote, branch } => {
            law_pull_asks(server, repo, remote, branch, t, 0);
            assert(asked(server, operation, t) == pull_flow(
                server,
                repo,
                remote,
                branch,
                t,
                0,
            ).pending()) by {
                reveal(asked);
            }
        },
        Operation::Push { repo, remote, refspec } => {
            law_push_asks(server, repo, remote, refspec, t, 0);
            assert(asked(server, operation, t) == push_flow(
                server,
                repo,
                remote,
                refspec,
                t,
                0,
            ).pending()) by {
                reveal(asked);
            }
        },
        _ => {},
    }
}

proof fn lemma_rewrites_proper(server: GitServer, operation: Operation, t: Seq<Reply>)
    requires
        operation is AmendCommit || operation is RewordCommits || operation is SquashCommits,
    ensures
        asked(server, operation, t) matches Some(command) ==> proper(server, command),
{
    assert forall|branch: Text| branch != protected_trunk() implies #[trigger] branch_reference(
        branch,
    ) != branch_reference(protected_trunk()) by {
        lemma_branch_references(branch);
    }
    match operation {
        Operation::AmendCommit { args } => {
            law_amend_asks(server, args, t, 0);
            assert(asked(server, operation, t) == amend_flow(server, args, t, 0).pending()) by {
                reveal(asked);
            }
        },
        Operation::RewordCommits { args } => {
            law_reword_asks(server, args, t, 0);
            assert(asked(server, operation, t) == reword_flow(server, args, t, 0).pending()) by {
                reveal(asked);
            }
        },
        Operation::SquashCommits { args } => {
            law_squash_asks(server, args, t, 0);
            assert(asked(server, operation, t) == squash_flow(server, args, t, 0).pending()) by {
                reveal(asked);
            }
        },
        _ => {},
    }
}

proof fn lemma_recovery_proper(server: GitServer, operation: Operation, t: Seq<Reply>)
    requires
        operation is VerifyUnpublished || operation is RewindMerge || operation is ReplaceLocalTag,
    ensures
        asked(server, operation, t) matches Some(command) ==> proper(server, command),
{
    match operation {
        Operation::VerifyUnpublished { args } => {
            law_verification_asks(server, args, t, 0);
            assert(asked(server, operation, t) == verify_unpublished_flow(
                server,
                args,
                t,
                0,
            ).pending()) by {
                reveal(asked);
            }
        },
        Operation::RewindMerge { args } => {
            law_rewind_asks(server, args, t, 0);
            assert(asked(server, operation, t) == rewind_flow(server, args, t, 0).pending()) by {
                reveal(asked);
            }
        },
        Operation::ReplaceLocalTag { args, process, number } => {
            law_replace_tag_asks(server, args, process, number, t, 0);
            lemma_tag_references(args.name);
            assert(asked(server, operation, t) == replace_tag_flow(
                server,
                args,
                process,
                number,
                t,
                0,
            ).pending()) by {
                reveal(asked);
            }
        },
        _ => {},
    }
}

proof fn lemma_commits_proper(server: GitServer, operation: Operation, t: Seq<Reply>)
    requires
        operation is Merge || operation is Commit || operation is ReleaseTag,
    ensures
        asked(server, operation, t) matches Some(command) ==> proper(server, command),
{
    match operation {
        Operation::Merge { repo, source, mode, message } => {
            law_merge_asks(server, repo, source, mode, message, t, 0);
            assert(asked(server, operation, t) == merge_flow(
                server,
                repo,
                source,
                mode,
                message,
                t,
                0,
            ).pending()) by {
                reveal(asked);
            }
        },
        Operation::Commit { repo, message } => {
            law_commit_asks(server, repo, message, t, 0);
            assert(asked(server, operation, t) == commit_flow(
                server,
                repo,
                message,
                t,
                0,
            ).pending()) by {
                reveal(asked);
            }
        },
        Operation::ReleaseTag { args } => {
            law_release_tag_asks(server, args, t, 0);
            assert(asked(server, operation, t) == release_tag_flow(server, args, t, 0).pending())
                by {
                reveal(asked);
            }
        },
        _ => {},
    }
}

/// Whatever Git replies, no operation asks for a command that the server may
/// not run: a read-only server never changes a repository, and a server
/// without the permission never reads from or writes to a remote. Every commit
/// that is made has a message that follows Conventional Commits. Nothing is
/// pushed with force. The reference of the trunk is never moved by
/// `update-ref`, so that no rewrite and no replacement of a tag touches it.
pub proof fn law_only_proper_commands(server: GitServer, operation: Operation, t: Seq<Reply>)
    ensures
        asked(server, operation, t) matches Some(command) ==> {
            &&& permitted(server, command)
            &&& authors_conventionally(command)
            &&& !pushes_by_force(command)
            &&& !moves_trunk(command)
        },
{
    match operation {
        Operation::Status { .. } | Operation::Diff { .. } | Operation::Log { .. }
        | Operation::Show { .. } | Operation::Branches { .. } | Operation::HistoryPlan { .. }
        | Operation::MergeReadiness { .. } | Operation::DevControlReadiness { .. } => {
            law_questions_only_inspect(server, operation, t);
        },
        Operation::Switch { .. } | Operation::CreateBranch { .. } | Operation::DeleteBranch {
            ..
        } => {
            lemma_branches_proper(server, operation, t);
        },
        Operation::Paths { .. } | Operation::Tag { .. } => {
            lemma_index_proper(server, operation, t);
        },
        Operation::Fetch { .. } | Operation::Pull { .. } | Operation::Push { .. } => {
            lemma_remotes_proper(server, operation, t);
        },
        Operation::AmendCommit { .. } | Operation::RewordCommits { .. }
        | Operation::SquashCommits { .. } => {
            lemma_rewrites_proper(server, operation, t);
        },
        Operation::VerifyUnpublished { .. } | Operation::RewindMerge { .. }
        | Operation::ReplaceLocalTag { .. } => {
            lemma_recovery_proper(server, operation, t);
        },
        Operation::Merge { .. } | Operation::Commit { .. } | Operation::ReleaseTag { .. } => {
            lemma_commits_proper(server, operation, t);
        },
    }
}

} // verus!
