//! Amending the commit at `HEAD`.
use crate::command::Command;
use crate::flow::{
    check, checked, fail, flow, git_flow, run_git, unless, Flow, FlowView, Halt, Reply,
};
use crate::history::{is_protected_trunk, protected_trunk};
use crate::output::OutputView;
use crate::policy::{conventional_verdict, validate_conventional_commit_message};
use crate::queries::{
    current_branch_required, current_branch_required_flow, on_upstream, on_upstream_flow,
    remote_refs_containing, remote_refs_flow, short_status, short_status_flow, upstream,
    upstream_flow,
};
use crate::rewrite::{
    report, rewrite_flow, start, update_branch_flow, update_current_branch_ref, RewriteFailure,
    RewriteFailureView, RewriteOutcome, Start,
};
use crate::server::{quote, quoted, GitServer};
use crate::snapshot::{
    commit_snapshot, commit_snapshot_flow, create_commit_flow, create_commit_from_snapshot,
    CommitSnapshot, SnapshotView,
};
use crate::text::{concat, join, joined, same_text, trim, trimmed, Text};
use vstd::prelude::*;

verus! {

/// What an amended commit is to be.
#[derive(Debug)]
pub struct AmendCommitArgs {
    pub repo: String,
    /// The new message, where it is to change.
    pub message: Option<String>,
    /// The new commit takes its tree from the index.
    pub include_index: bool,
}

/// What an amended commit is to be, as contracts speak of it.
pub struct AmendArgsView {
    pub repo: Text,
    pub message: Option<Text>,
    pub include_index: bool,
}

impl DeepView for AmendCommitArgs {
    type V = AmendArgsView;

    open spec fn deep_view(&self) -> AmendArgsView {
        AmendArgsView {
            repo: self.repo@,
            message: self.message.deep_view(),
            include_index: self.include_index,
        }
    }
}

/// An amended commit.
#[derive(Debug)]
pub struct AmendCommitOutput {
    pub operation: String,
    pub branch: String,
    pub old_head: String,
    pub new_head: String,
    pub status: String,
}

/// An amended commit as contracts speak of it.
pub struct AmendView {
    pub operation: Text,
    pub branch: Text,
    pub old_head: Text,
    pub new_head: Text,
    pub status: Text,
}

impl DeepView for AmendCommitOutput {
    type V = AmendView;

    open spec fn deep_view(&self) -> AmendView {
        AmendView {
            operation: self.operation@,
            branch: self.branch@,
            old_head: self.old_head@,
            new_head: self.new_head@,
            status: self.status@,
        }
    }
}

// ---------------------------------------------------------------------------
// Whether the commit may be amended
// ---------------------------------------------------------------------------
/// A message, where one is given, follows Conventional Commits.
pub open spec fn optional_message_verdict(message: Option<Text>) -> Result<(), Text> {
    match message {
        Some(message) => conventional_verdict(message),
        None => Ok(()),
    }
}

/// Refuses a message that does not follow Conventional Commits.
pub fn validate_optional_message(message: &Option<String>) -> (r: Result<(), String>)
    ensures
        crate::policy::outcome(r) == optional_message_verdict(message.deep_view()),
{
    match message {
        Some(message) => validate_conventional_commit_message(message.as_str()),
        None => Ok(()),
    }
}

/// The commit at `head` is not known to be published.
pub open spec fn head_unpublished_flow(repo: Text, head: Text, t: Seq<Reply>, n: int) -> FlowView<
    (),
> {
    remote_refs_flow(repo, head, t, n).and_then(
        |refs: Seq<Text>, n: int|
            unless(
                refs.len() > 0,
                "amend blocked: HEAD is already reachable from remote-tracking ref(s): "@ + join(
                    refs,
                    ", "@,
                ),
                n,
            ).and_then(
                |_u: (), n: int|
                    upstream_flow(repo, t, n).and_then(
                        |upstream: Option<Text>, n: int|
                            on_upstream_flow(repo, head, upstream, t, n).and_then(
                                |contained: bool, n: int|
                                    unless(
                                        contained && upstream is Some,
                                        "amend blocked: HEAD is already reachable from upstream "@
                                            + quoted(upstream->0),
                                        n,
                                    ),
                            ),
                    ),
            ),
    )
}

fn ensure_head_unpublished(repo: &str, head: &str, t: &Vec<Reply>, n: usize) -> (r: Flow<()>)
    ensures
        flow(r) == head_unpublished_flow(repo@, head@, t@, n as int),
{
    let (refs, n) = remote_refs_containing(repo, head, t, n)?;
    assert(refs.deep_view().len() == refs@.len());
    if refs.len() > 0 {
        let names: String = joined(&refs, ", ");
        return Err(
            Halt::Fail(
                concat(
                    "amend blocked: HEAD is already reachable from remote-tracking ref(s): ",
                    names.as_str(),
                ),
                n,
            ),
        );
    }
    let (followed, n) = upstream(repo, t, n)?;
    let (contained, n) = on_upstream(repo, head, &followed, t, n)?;
    if contained {
        if let Some(reference) = &followed {
            let name: String = quote(reference.as_str());
            return Err(
                Halt::Fail(
                    concat(
                        "amend blocked: HEAD is already reachable from upstream ",
                        name.as_str(),
                    ),
                    n,
                ),
            );
        }
    }
    Ok(((), n))
}

/// The branch and the commit at `head`, where it may be amended.
pub open spec fn amendable_flow(args: AmendArgsView, head: Text, t: Seq<Reply>, n: int) -> FlowView<
    (Text, SnapshotView),
> {
    current_branch_required_flow(args.repo, t, n).and_then(
        |branch: Text, n: int|
            unless(
                branch == protected_trunk(),
                "amend is not allowed on protected branch `main`"@,
                n,
            ).and_then(
                |_u: (), n: int|
                    commit_snapshot_flow(args.repo, head, t, n).and_then(
                        |snapshot: SnapshotView, n: int|
                            unless(
                                snapshot.parents.len() != 1,
                                "amend rejects root and merge commits"@,
                                n,
                            ).and_then(
                                |_u: (), n: int|
                                    checked(optional_message_verdict(args.message), n).and_then(
                                        |_u: (), n: int|
                                            unless(
                                                args.message is None && !args.include_index,
                                                "amend requires a new message or include_index=true"@,
                                                n,
                                            ).and_then(
                                                |_u: (), n: int|
                                                    head_unpublished_flow(
                                                        args.repo,
                                                        head,
                                                        t,
                                                        n,
                                                    ).map(|_u: ()| (branch, snapshot)),
                                            ),
                                    ),
                            ),
                    ),
            ),
    )
}

fn ensure_amendable(args: &AmendCommitArgs, head: &str, t: &Vec<Reply>, n: usize) -> (r: Flow<
    (String, CommitSnapshot),
>)
    ensures
        flow(r) == amendable_flow(args.deep_view(), head@, t@, n as int),
{
    let repo: &str = args.repo.as_str();
    let (branch, n) = current_branch_required(repo, t, n)?;
    if is_protected_trunk(branch.as_str()) {
        return fail("amend is not allowed on protected branch `main`", n);
    }
    let (snapshot, n) = commit_snapshot(repo, head, t, n)?;
    assert(snapshot.parents.deep_view().len() == snapshot.parents@.len());
    if snapshot.parents.len() != 1 {
        return fail("amend rejects root and merge commits", n);
    }
    check(validate_optional_message(&args.message), n)?;
    if args.message.is_none() && !args.include_index {
        return fail("amend requires a new message or include_index=true", n);
    }
    let (_, n) = ensure_head_unpublished(repo, head, t, n)?;
    Ok(((branch, snapshot), n))
}

// ---------------------------------------------------------------------------
// Amending
// ---------------------------------------------------------------------------
/// The tree of the amended commit.
pub open spec fn amended_tree_flow(
    args: AmendArgsView,
    snapshot: SnapshotView,
    t: Seq<Reply>,
    n: int,
) -> FlowView<Text> {
    if args.include_index {
        git_flow(args.repo, Command::WriteTree, t, n).map(|o: OutputView| trim(o.stdout))
    } else {
        FlowView::Got(snapshot.tree, n)
    }
}

/// The message of the amended commit.
pub open spec fn amended_message(args: AmendArgsView, snapshot: SnapshotView) -> Text {
    match args.message {
        Some(message) => message,
        None => snapshot.message,
    }
}

/// Replaces the commit at `head`.
pub open spec fn amend_from_flow(args: AmendArgsView, head: Text, t: Seq<Reply>, n: int) -> FlowView<
    AmendView,
> {
    amendable_flow(args, head, t, n).and_then(
        |found: (Text, SnapshotView), n: int|
            amended_tree_flow(args, found.1, t, n).and_then(
                |tree: Text, n: int|
                    create_commit_flow(
                        args.repo,
                        found.1,
                        tree,
                        found.1.parents[0],
                        amended_message(args, found.1),
                        t,
                        n,
                    ).and_then(
                        |new_head: Text, n: int|
                            unless(new_head == head, "amend produced no commit change"@, n).and_then(
                                |_u: (), n: int|
                                    update_branch_flow(
                                        args.repo,
                                        found.0,
                                        new_head,
                                        head,
                                        t,
                                        n,
                                    ).and_then(
                                        |_u: (), n: int|
                                            short_status_flow(args.repo, t, n).map(
                                                |status: Text|
                                                    AmendView {
                                                        operation: "amend_commit"@,
                                                        branch: found.0,
                                                        old_head: head,
                                                        new_head,
                                                        status,
                                                    },
                                            ),
                                    ),
                            ),
                    ),
            ),
    )
}

fn amend_from(args: &AmendCommitArgs, head: &str, t: &Vec<Reply>, n: usize) -> (r: Flow<
    AmendCommitOutput,
>)
    ensures
        flow(r) == amend_from_flow(args.deep_view(), head@, t@, n as int),
{
    let repo: &str = args.repo.as_str();
    let ((branch, snapshot), n) = ensure_amendable(args, head, t, n)?;
    assert(snapshot.parents.deep_view().len() == snapshot.parents@.len());
    assert(snapshot.parents.deep_view()[0] == snapshot.parents@[0]@);
    let (tree, n): (String, usize) = if args.include_index {
        let (output, n) = run_git(repo, Command::WriteTree, t, n)?;
        (trimmed(output.stdout.as_str()), n)
    } else {
        (snapshot.tree.clone(), n)
    };
    let message: &str = match &args.message {
        Some(message) => message.as_str(),
        None => snapshot.message.as_str(),
    };
    let (new_head, n) = create_commit_from_snapshot(
        repo,
        &snapshot,
        tree.as_str(),
        snapshot.parents[0].as_str(),
        message,
        t,
        n,
    )?;
    if same_text(new_head.as_str(), head) {
        return fail("amend produced no commit change", n);
    }
    let (_, n) = update_current_branch_ref(repo, branch.as_str(), new_head.as_str(), head, t, n)?;
    let (status, n) = short_status(repo, t, n)?;
    Ok(
        (
            AmendCommitOutput {
                operation: "amend_commit".to_owned(),
                branch,
                old_head: head.to_owned(),
                new_head,
                status,
            },
            n,
        ),
    )
}

/// Amends the commit at `HEAD`.
pub open spec fn amend_flow(server: GitServer, args: AmendArgsView, t: Seq<Reply>, n: int) -> FlowView<
    RewriteOutcome<AmendView, RewriteFailureView>,
> {
    rewrite_flow(
        server,
        "amend_commit"@,
        args.repo,
        |head: Text, n: int| amend_from_flow(args, head, t, n),
        t,
        n,
    )
}

impl GitServer {
    /// Amends the commit at `HEAD` of an unpublished work branch.
    pub fn amend_commit(&self, args: &AmendCommitArgs, t: &Vec<Reply>, n: usize) -> (r: Flow<
        RewriteOutcome<AmendCommitOutput, RewriteFailure>,
    >)
        ensures
            flow(r) == amend_flow(*self, args.deep_view(), t@, n as int),
    {
        match start(self, "amend_commit", args.repo.as_str(), t, n)? {
            Start::Refused(failure, n) => Ok((RewriteOutcome::Failed(failure), n)),
            Start::At(head, n) => {
                let result = amend_from(args, head.as_str(), t, n);
                report(result, "amend_commit", args.repo.as_str(), head.as_str(), t)
            },
        }
    }
}

} // verus!
