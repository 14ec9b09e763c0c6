//! Switching, creating, merging and deleting branches.
use crate::command::Command;
use crate::flow::{
    check, checked, fail, flow, git_flow, run_git, unless, Flow, FlowView, Halt, Reply,
};
use crate::history::{is_protected_trunk, protected_trunk};
use crate::output::{GitOutput, OutputView};
use crate::policy::{
    conventional_merge_message, conventional_verdict, merge_message,
    validate_conventional_commit_message,
};
use crate::queries::{
    current_branch_required, current_branch_required_flow, ensure_local_branch,
    ensure_local_branch_flow, head_sha, head_sha_flow, is_dirty, is_dirty_flow, short_status,
    short_status_flow, validate_branch_name, validate_branch_name_flow, validate_commitish,
    validate_commitish_flow,
};
use crate::server::{quote, quoted, writable_verdict, GitServer};
use crate::text::{clone_optional, concat, Text};
use vstd::prelude::*;

verus! {

/// What a change to the branches led to.
#[derive(Debug)]
pub struct GitMutationOutput {
    pub operation: String,
    pub branch: String,
    pub head: String,
    pub status: String,
    pub stdout: String,
    pub stderr: String,
    pub truncated: bool,
}

/// What a change led to, as contracts speak of it.
pub struct MutationView {
    pub operation: Text,
    pub branch: Text,
    pub head: Text,
    pub status: Text,
    pub stdout: Text,
    pub stderr: Text,
    pub truncated: bool,
}

impl DeepView for GitMutationOutput {
    type V = MutationView;

    open spec fn deep_view(&self) -> MutationView {
        MutationView {
            operation: self.operation@,
            branch: self.branch@,
            head: self.head@,
            status: self.status@,
            stdout: self.stdout@,
            stderr: self.stderr@,
            truncated: self.truncated,
        }
    }
}

/// The state after a change that printed `output`.
pub open spec fn mutation_flow(
    operation: Text,
    repo: Text,
    output: OutputView,
    t: Seq<Reply>,
    n: int,
) -> FlowView<MutationView> {
    current_branch_required_flow(repo, t, n).and_then(
        |branch: Text, n: int|
            head_sha_flow(repo, t, n).and_then(
                |head: Text, n: int|
                    short_status_flow(repo, t, n).map(
                        |status: Text|
                            MutationView {
                                operation,
                                branch,
                                head,
                                status,
                                stdout: output.stdout,
                                stderr: output.stderr,
                                truncated: output.truncated,
                            },
                    ),
            ),
    )
}

/// The state after a change that printed `output`.
pub fn mutation_output(
    operation: &str,
    repo: &str,
    output: GitOutput,
    t: &Vec<Reply>,
    n: usize,
) -> (r: Flow<GitMutationOutput>)
    ensures
        flow(r) == mutation_flow(operation@, repo@, output.deep_view(), t@, n as int),
{
    let (branch, n) = current_branch_required(repo, t, n)?;
    let (head, n) = head_sha(repo, t, n)?;
    let (status, n) = short_status(repo, t, n)?;
    Ok(
        (
            GitMutationOutput {
                operation: operation.to_owned(),
                branch,
                head,
                status,
                stdout: output.stdout,
                stderr: output.stderr,
                truncated: output.truncated,
            },
            n,
        ),
    )
}

/// Runs a command and reads the state that it leads to.
pub open spec fn mutate_flow(
    operation: Text,
    repo: Text,
    command: Command<Text, Seq<Text>>,
    t: Seq<Reply>,
    n: int,
) -> FlowView<MutationView> {
    git_flow(repo, command, t, n).and_then(
        |output: OutputView, n: int| mutation_flow(operation, repo, output, t, n),
    )
}

fn mutate(
    operation: &str,
    repo: &str,
    command: Command<String, Vec<String>>,
    t: &Vec<Reply>,
    n: usize,
) -> (r: Flow<GitMutationOutput>)
    ensures
        flow(r) == mutate_flow(operation@, repo@, command.deep_view(), t@, n as int),
{
    let (output, n) = run_git(repo, command, t, n)?;
    mutation_output(operation, repo, output, t, n)
}

// ---------------------------------------------------------------------------
// Switching
// ---------------------------------------------------------------------------
/// Switches to a local branch.
pub open spec fn switch_flow(
    server: GitServer,
    repo: Text,
    branch: Text,
    t: Seq<Reply>,
    n: int,
) -> FlowView<MutationView> {
    checked(writable_verdict(server), n).and_then(
        |_u: (), n: int|
            ensure_local_branch_flow(repo, branch, t, n).and_then(
                |_u: (), n: int|
                    mutate_flow("switch"@, repo, Command::Switch { branch }, t, n),
            ),
    )
}

// ---------------------------------------------------------------------------
// Creating
// ---------------------------------------------------------------------------
/// The local branch does not exist.
pub open spec fn branch_absent_flow(repo: Text, branch: Text, t: Seq<Reply>, n: int) -> FlowView<
    (),
> {
    git_flow(repo, Command::ShowBranchRef { branch }, t, n).attempt().and_then(
        |shown: Result<OutputView, Text>, n: int|
            unless(shown is Ok, "local branch already exists: "@ + quoted(branch), n),
    )
}

fn ensure_branch_absent(repo: &str, branch: &str, t: &Vec<Reply>, n: usize) -> (r: Flow<()>)
    ensures
        flow(r) == branch_absent_flow(repo@, branch@, t@, n as int),
{
    match run_git(repo, Command::ShowBranchRef { branch: branch.to_owned() }, t, n) {
        Ok((_, n)) => {
            let name: String = quote(branch);
            Err(Halt::Fail(concat("local branch already exists: ", name.as_str()), n))
        },
        Err(Halt::Fail(_, n)) => Ok(((), n)),
        Err(Halt::Ask(request)) => Err(Halt::Ask(request)),
    }
}

/// The start point of a branch, where one is given, names a commit.
pub open spec fn start_point_flow(
    repo: Text,
    start_point: Option<Text>,
    t: Seq<Reply>,
    n: int,
) -> FlowView<()> {
    match start_point {
        Some(revision) => validate_commitish_flow(repo, revision, "start point"@, t, n),
        None => FlowView::Got((), n),
    }
}

/// The command that creates a branch.
pub open spec fn creation(branch: Text, start_point: Option<Text>, switch: bool) -> Command<
    Text,
    Seq<Text>,
> {
    if switch {
        Command::SwitchCreate { branch, start_point }
    } else {
        Command::CreateBranch { branch, start_point }
    }
}

/// Creates a branch.
pub open spec fn create_branch_flow(
    server: GitServer,
    repo: Text,
    branch: Text,
    start_point: Option<Text>,
    switch: bool,
    t: Seq<Reply>,
    n: int,
) -> FlowView<MutationView> {
    checked(writable_verdict(server), n).and_then(
        |_u: (), n: int|
            validate_branch_name_flow(repo, branch, t, n).and_then(
                |_u: (), n: int|
                    branch_absent_flow(repo, branch, t, n).and_then(
                        |_u: (), n: int|
                            start_point_flow(repo, start_point, t, n).and_then(
                                |_u: (), n: int|
                                    mutate_flow(
                                        "create_branch"@,
                                        repo,
                                        creation(branch, start_point, switch),
                                        t,
                                        n,
                                    ),
                            ),
                    ),
            ),
    )
}

// ---------------------------------------------------------------------------
// Merging
// ---------------------------------------------------------------------------
/// How branches are merged.
#[derive(Debug, Clone, Copy, PartialEq, Eq, Structural)]
pub enum MergeMode {
    /// With a merge commit, even where a fast-forward is possible.
    NoFf,
}

/// The message of a merge: the given one, or one derived from the name of
/// what is merged.
pub open spec fn chosen_merge_message(source: Text, message: Option<Text>) -> Text {
    match message {
        Some(message) => message,
        None => merge_message(source),
    }
}

/// The trunk is checked out and nothing is changed locally.
pub open spec fn on_clean_trunk_flow(repo: Text, t: Seq<Reply>, n: int) -> FlowView<()> {
    current_branch_required_flow(repo, t, n).and_then(
        |branch: Text, n: int|
            unless(
                branch != protected_trunk(),
                "dev-git-control merge operation requires the current branch to be protected trunk `main`"@,
                n,
            ).and_then(
                |_u: (), n: int|
                    is_dirty_flow(repo, t, n).and_then(
                        |dirty: bool, n: int|
                            unless(dirty, "merge requires a clean working tree and index"@, n),
                    ),
            ),
    )
}

fn ensure_on_clean_trunk(repo: &str, t: &Vec<Reply>, n: usize) -> (r: Flow<()>)
    ensures
        flow(r) == on_clean_trunk_flow(repo@, t@, n as int),
{
    let (branch, n) = current_branch_required(repo, t, n)?;
    if !is_protected_trunk(branch.as_str()) {
        return fail(
            "dev-git-control merge operation requires the current branch to be protected trunk `main`",
            n,
        );
    }
    let (dirty, n) = is_dirty(repo, t, n)?;
    if dirty {
        return fail("merge requires a clean working tree and index", n);
    }
    Ok(((), n))
}

/// Merges `source` into the trunk.
pub open spec fn merge_flow(
    server: GitServer,
    repo: Text,
    source: Text,
    mode: MergeMode,
    message: Option<Text>,
    t: Seq<Reply>,
    n: int,
) -> FlowView<MutationView> {
    checked(writable_verdict(server), n).and_then(
        |_u: (), n: int|
            validate_commitish_flow(repo, source, "merge source"@, t, n).and_then(
                |_u: (), n: int|
                    on_clean_trunk_flow(repo, t, n).and_then(
                        |_u: (), n: int|
                            checked(
                                conventional_verdict(chosen_merge_message(source, message)),
                                n,
                            ).and_then(
                                |_u: (), n: int|
                                    match mode {
                                        MergeMode::NoFf => mutate_flow(
                                            "merge"@,
                                            repo,
                                            Command::Merge {
                                                message: chosen_merge_message(source, message),
                                                source,
                                            },
                                            t,
                                            n,
                                        ),
                                    },
                            ),
                    ),
            ),
    )
}

// ---------------------------------------------------------------------------
// Deleting
// ---------------------------------------------------------------------------
/// Deletes a local branch that is merged.
pub open spec fn delete_branch_flow(
    server: GitServer,
    repo: Text,
    branch: Text,
    t: Seq<Reply>,
    n: int,
) -> FlowView<MutationView> {
    checked(writable_verdict(server), n).and_then(
        |_u: (), n: int|
            ensure_local_branch_flow(repo, branch, t, n).and_then(
                |_u: (), n: int|
                    mutate_flow("delete_branch"@, repo, Command::DeleteBranch { branch }, t, n),
            ),
    )
}

impl GitServer {
    /// Switches to a local branch.
    pub fn switch_branch(&self, repo: &str, branch: &str, t: &Vec<Reply>, n: usize) -> (r: Flow<
        GitMutationOutput,
    >)
        ensures
            flow(r) == switch_flow(*self, repo@, branch@, t@, n as int),
    {
        check(self.ensure_writable(), n)?;
        let (_, n) = ensure_local_branch(repo, branch, t, n)?;
        mutate("switch", repo, Command::Switch { branch: branch.to_owned() }, t, n)
    }

    /// Creates a branch, and switches to it where that is asked for.
    pub fn create_branch(
        &self,
        repo: &str,
        branch: &str,
        start_point: &Option<String>,
        switch: bool,
        t: &Vec<Reply>,
        n: usize,
    ) -> (r: Flow<GitMutationOutput>)
        ensures
            flow(r) == create_branch_flow(
                *self,
                repo@,
                branch@,
                start_point.deep_view(),
                switch,
                t@,
                n as int,
            ),
    {
        check(self.ensure_writable(), n)?;
        let (_, n) = validate_branch_name(repo, branch, t, n)?;
        let (_, n) = ensure_branch_absent(repo, branch, t, n)?;
        let (_, n): ((), usize) = match start_point {
            Some(revision) => validate_commitish(repo, revision.as_str(), "start point", t, n)?,
            None => ((), n),
        };
        let branch: String = branch.to_owned();
        let start_point: Option<String> = clone_optional(start_point);
        let command = if switch {
            Command::SwitchCreate { branch, start_point }
        } else {
            Command::CreateBranch { branch, start_point }
        };
        mutate("create_branch", repo, command, t, n)
    }

    /// Merges `source` into the trunk with a merge commit.
    pub fn merge_branch(
        &self,
        repo: &str,
        source: &str,
        mode: MergeMode,
        message: &Option<String>,
        t: &Vec<Reply>,
        n: usize,
    ) -> (r: Flow<GitMutationOutput>)
        ensures
            flow(r) == merge_flow(
                *self,
                repo@,
                source@,
                mode,
                message.deep_view(),
                t@,
                n as int,
            ),
    {
        check(self.ensure_writable(), n)?;
        let (_, n) = validate_commitish(repo, source, "merge source", t, n)?;
        let (_, n) = ensure_on_clean_trunk(repo, t, n)?;
        let message: String = match message {
            Some(message) => message.clone(),
            None => conventional_merge_message(source),
        };
        check(validate_conventional_commit_message(message.as_str()), n)?;
        match mode {
            MergeMode::NoFf => mutate(
                "merge",
                repo,
                Command::Merge { message, source: source.to_owned() },
                t,
                n,
            ),
        }
    }

    /// Deletes a local branch that is merged.
    pub fn delete_branch(&self, repo: &str, branch: &str, t: &Vec<Reply>, n: usize) -> (r: Flow<
        GitMutationOutput,
    >)
        ensures
            flow(r) == delete_branch_flow(*self, repo@, branch@, t@, n as int),
    {
        check(self.ensure_writable(), n)?;
        let (_, n) = ensure_local_branch(repo, branch, t, n)?;
        mutate("delete_branch", repo, Command::DeleteBranch { branch: branch.to_owned() }, t, n)
    }
}

} // verus!
