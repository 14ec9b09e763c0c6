//! The operations that amount to one Git command and its conditions.
use crate::command::Command;
use crate::flow::{check, checked, fail, flow, git_flow, run_git, unless, Flow, FlowView, Reply};
use crate::history::{is_protected_trunk, protected_trunk};
use crate::output::{GitOutput, OutputView};
use crate::paths::{
    clean_paths, clean_relative_path, paths_verdict, relative_path_verdict, PathStyle,
};
use crate::policy::{
    conventional_verdict, message_verdict, outcome, refspec_verdict, token_verdict,
    validate_commit_message, validate_conventional_commit_message, validate_refspec,
    validate_revision, validate_token,
};
use crate::publication::{choose_remote, chosen_remote};
use crate::queries::{
    current_branch_required, current_branch_required_flow, merge_in_progress,
    merge_in_progress_flow, validate_tag_name, validate_tag_name_flow,
};
use crate::server::{remote_read_verdict, remote_write_verdict, writable_verdict, GitServer};
use crate::text::{clone_optional, Text};
use vstd::prelude::*;

verus! {

// ---------------------------------------------------------------------------
// Looking at a repository
// ---------------------------------------------------------------------------
/// The status of a repository.
pub open spec fn status_flow(repo: Text, t: Seq<Reply>, n: int) -> FlowView<OutputView> {
    git_flow(repo, Command::ShortStatus, t, n)
}

/// The status of a repository.
pub fn git_status(repo: &str, t: &Vec<Reply>, n: usize) -> (r: Flow<GitOutput>)
    ensures
        flow(r) == status_flow(repo@, t@, n as int),
{
    run_git(repo, Command::ShortStatus, t, n)
}

/// The path of a file, where one is given.
pub open spec fn optional_path_verdict(path: Option<Text>, style: PathStyle) -> Result<
    Option<Text>,
    Text,
> {
    match path {
        None => Ok(None),
        Some(raw) => match relative_path_verdict(raw, style) {
            Ok(clean) => Ok(Some(clean)),
            Err(error) => Err(error),
        },
    }
}

fn clean_optional_path(path: &Option<String>, style: PathStyle) -> (r: Result<
    Option<String>,
    String,
>)
    ensures
        outcome(r) == optional_path_verdict(path.deep_view(), style),
{
    match path {
        None => Ok(None),
        Some(raw) => {
            let clean: String = clean_relative_path(raw.as_str(), style)?;
            Ok(Some(clean))
        },
    }
}

/// The changes of the index, or those of the working tree.
pub open spec fn diff_flow(
    server: GitServer,
    repo: Text,
    staged: bool,
    path: Option<Text>,
    t: Seq<Reply>,
    n: int,
) -> FlowView<OutputView> {
    checked(optional_path_verdict(path, server.path_style), n).and_then(
        |path: Option<Text>, n: int| git_flow(repo, Command::Diff { staged, path }, t, n),
    )
}

impl GitServer {
    /// The changes of the index, or those of the working tree.
    pub fn git_diff(
        &self,
        repo: &str,
        staged: bool,
        path: &Option<String>,
        t: &Vec<Reply>,
        n: usize,
    ) -> (r: Flow<GitOutput>)
        ensures
            flow(r) == diff_flow(*self, repo@, staged, path.deep_view(), t@, n as int),
    {
        let (path, n) = check(clean_optional_path(path, self.path_style), n)?;
        run_git(repo, Command::Diff { staged, path }, t, n)
    }
}

/// The number of commits that a log shows.
pub open spec fn log_count(max_count: Option<u16>) -> u16 {
    match max_count {
        None => 20,
        Some(count) => if count < 1 {
            1
        } else if count > 200 {
            200
        } else {
            count
        },
    }
}

/// The most recent commits.
pub open spec fn log_flow(repo: Text, max_count: Option<u16>, t: Seq<Reply>, n: int) -> FlowView<
    OutputView,
> {
    git_flow(repo, Command::Log { count: log_count(max_count) }, t, n)
}

/// The most recent commits: 20, or as many as are asked for from 1 to 200.
pub fn git_log(repo: &str, max_count: Option<u16>, t: &Vec<Reply>, n: usize) -> (r: Flow<GitOutput>)
    ensures
        flow(r) == log_flow(repo@, max_count, t@, n as int),
{
    let count: u16 = match max_count {
        None => 20,
        Some(count) => if count < 1 {
            1
        } else if count > 200 {
            200
        } else {
            count
        },
    };
    run_git(repo, Command::Log { count }, t, n)
}

/// One revision, with its patch or with a summary of it.
pub open spec fn show_flow(
    repo: Text,
    revision: Text,
    stat_only: bool,
    t: Seq<Reply>,
    n: int,
) -> FlowView<OutputView> {
    checked(token_verdict("revision"@, revision), n).and_then(
        |_u: (), n: int| git_flow(repo, Command::Show { revision, stat_only }, t, n),
    )
}

/// One revision, with its patch or with a summary of it.
pub fn git_show(repo: &str, revision: &str, stat_only: bool, t: &Vec<Reply>, n: usize) -> (r: Flow<
    GitOutput,
>)
    ensures
        flow(r) == show_flow(repo@, revision@, stat_only, t@, n as int),
{
    check(validate_revision(revision), n)?;
    run_git(repo, Command::Show { revision: revision.to_owned(), stat_only }, t, n)
}

/// The local branches.
pub open spec fn branches_flow(repo: Text, t: Seq<Reply>, n: int) -> FlowView<OutputView> {
    git_flow(repo, Command::ListBranches, t, n)
}

/// The local branches.
pub fn git_branches(repo: &str, t: &Vec<Reply>, n: usize) -> (r: Flow<GitOutput>)
    ensures
        flow(r) == branches_flow(repo@, t@, n as int),
{
    run_git(repo, Command::ListBranches, t, n)
}

// ---------------------------------------------------------------------------
// Index, commits and tags
// ---------------------------------------------------------------------------
/// What is done with paths.
#[derive(Debug, Clone, Copy, PartialEq, Eq, Structural)]
pub enum PathAction {
    Stage,
    Unstage,
    Restore,
}

/// The command that does it.
pub open spec fn path_command(action: PathAction, paths: Seq<Text>) -> Command<Text, Seq<Text>> {
    match action {
        PathAction::Stage => Command::Stage { paths },
        PathAction::Unstage => Command::Unstage { paths },
        PathAction::Restore => Command::RestoreWorktree { paths },
    }
}

/// Stages paths, takes them out of the index, or discards their changes.
pub open spec fn paths_flow(
    server: GitServer,
    action: PathAction,
    repo: Text,
    paths: Seq<Text>,
    t: Seq<Reply>,
    n: int,
) -> FlowView<OutputView> {
    checked(writable_verdict(server), n).and_then(
        |_u: (), n: int|
            checked(paths_verdict(paths, server.path_style), n).and_then(
                |paths: Seq<Text>, n: int| git_flow(repo, path_command(action, paths), t, n),
            ),
    )
}

/// A commit may be made on this branch: on the trunk only where it completes
/// a merge.
pub open spec fn committable_flow(repo: Text, t: Seq<Reply>, n: int) -> FlowView<()> {
    current_branch_required_flow(repo, t, n).and_then(
        |branch: Text, n: int|
            if branch == protected_trunk() {
                merge_in_progress_flow(repo, t, n).and_then(
                    |merging: bool, n: int|
                        unless(
                            !merging,
                            "normal commits are not allowed directly on protected branch `main`; create/switch to a work branch first"@,
                            n,
                        ),
                )
            } else {
                FlowView::Got((), n)
            },
    )
}

fn ensure_committable(repo: &str, t: &Vec<Reply>, n: usize) -> (r: Flow<()>)
    ensures
        flow(r) == committable_flow(repo@, t@, n as int),
{
    let (branch, n) = current_branch_required(repo, t, n)?;
    if is_protected_trunk(branch.as_str()) {
        let (merging, n) = merge_in_progress(repo, t, n)?;
        if !merging {
            return fail(
                "normal commits are not allowed directly on protected branch `main`; create/switch to a work branch first",
                n,
            );
        }
        return Ok(((), n));
    }
    Ok(((), n))
}

/// Commits the index.
pub open spec fn commit_flow(
    server: GitServer,
    repo: Text,
    message: Text,
    t: Seq<Reply>,
    n: int,
) -> FlowView<OutputView> {
    checked(writable_verdict(server), n).and_then(
        |_u: (), n: int|
            checked(conventional_verdict(message), n).and_then(
                |_u: (), n: int|
                    committable_flow(repo, t, n).and_then(
                        |_u: (), n: int| git_flow(repo, Command::Commit { message }, t, n),
                    ),
            ),
    )
}

/// Makes a tag: an annotated one where a message is given.
pub open spec fn tag_flow(
    server: GitServer,
    repo: Text,
    name: Text,
    message: Option<Text>,
    t: Seq<Reply>,
    n: int,
) -> FlowView<OutputView> {
    checked(writable_verdict(server), n).and_then(
        |_u: (), n: int|
            validate_tag_name_flow(repo, name, t, n).and_then(
                |_u: (), n: int|
                    match message {
                        None => git_flow(repo, Command::LightweightTag { name }, t, n),
                        Some(message) => checked(message_verdict(message), n).and_then(
                            |_u: (), n: int|
                                git_flow(
                                    repo,
                                    Command::AnnotatedTag { name, target: None, message },
                                    t,
                                    n,
                                ),
                        ),
                    },
            ),
    )
}

impl GitServer {
    fn change_paths(
        &self,
        action: PathAction,
        repo: &str,
        paths: &Vec<String>,
        t: &Vec<Reply>,
        n: usize,
    ) -> (r: Flow<GitOutput>)
        ensures
            flow(r) == paths_flow(*self, action, repo@, paths.deep_view(), t@, n as int),
    {
        check(self.ensure_writable(), n)?;
        let (paths, n) = check(clean_paths(paths, self.path_style), n)?;
        let command = match action {
            PathAction::Stage => Command::Stage { paths },
            PathAction::Unstage => Command::Unstage { paths },
            PathAction::Restore => Command::RestoreWorktree { paths },
        };
        run_git(repo, command, t, n)
    }

    /// Stages paths.
    pub fn git_stage(&self, repo: &str, paths: &Vec<String>, t: &Vec<Reply>, n: usize) -> (r: Flow<
        GitOutput,
    >)
        ensures
            flow(r) == paths_flow(
                *self,
                PathAction::Stage,
                repo@,
                paths.deep_view(),
                t@,
                n as int,
            ),
    {
        self.change_paths(PathAction::Stage, repo, paths, t, n)
    }

    /// Takes paths out of the index.
    pub fn git_unstage(&self, repo: &str, paths: &Vec<String>, t: &Vec<Reply>, n: usize) -> (r: Flow<
        GitOutput,
    >)
        ensures
            flow(r) == paths_flow(
                *self,
                PathAction::Unstage,
                repo@,
                paths.deep_view(),
                t@,
                n as int,
            ),
    {
        self.change_paths(PathAction::Unstage, repo, paths, t, n)
    }

    /// Discards the changes of paths in the working tree.
    pub fn git_restore(&self, repo: &str, paths: &Vec<String>, t: &Vec<Reply>, n: usize) -> (r: Flow<
        GitOutput,
    >)
        ensures
            flow(r) == paths_flow(
                *self,
                PathAction::Restore,
                repo@,
                paths.deep_view(),
                t@,
                n as int,
            ),
    {
        self.change_paths(PathAction::Restore, repo, paths, t, n)
    }

    /// Commits the index; on the trunk only to complete a merge.
    pub fn git_commit(&self, repo: &str, message: &str, t: &Vec<Reply>, n: usize) -> (r: Flow<
        GitOutput,
    >)
        ensures
            flow(r) == commit_flow(*self, repo@, message@, t@, n as int),
    {
        check(self.ensure_writable(), n)?;
        check(validate_conventional_commit_message(message), n)?;
        let (_, n) = ensure_committable(repo, t, n)?;
        run_git(repo, Command::Commit { message: message.to_owned() }, t, n)
    }

    /// Makes a tag: an annotated one where a message is given.
    pub fn git_tag(
        &self,
        repo: &str,
        name: &str,
        message: &Option<String>,
        t: &Vec<Reply>,
        n: usize,
    ) -> (r: Flow<GitOutput>)
        ensures
            flow(r) == tag_flow(*self, repo@, name@, message.deep_view(), t@, n as int),
    {
        check(self.ensure_writable(), n)?;
        let (_, n) = validate_tag_name(repo, name, t, n)?;
        match message {
            None => run_git(repo, Command::LightweightTag { name: name.to_owned() }, t, n),
            Some(message) => {
                check(validate_commit_message(message.as_str()), n)?;
                let command = Command::AnnotatedTag {
                    name: name.to_owned(),
                    target: None,
                    message: message.clone(),
                };
                run_git(repo, command, t, n)
            },
        }
    }
}

// ---------------------------------------------------------------------------
// Remotes
// ---------------------------------------------------------------------------
/// The server may change the repository and read from remotes.
pub open spec fn fetchable_verdict(server: GitServer) -> Result<(), Text> {
    if writable_verdict(server) is Err {
        writable_verdict(server)
    } else {
        remote_read_verdict(server)
    }
}

/// Fetches and prunes.
pub open spec fn fetch_flow(
    server: GitServer,
    repo: Text,
    remote: Option<Text>,
    t: Seq<Reply>,
    n: int,
) -> FlowView<OutputView> {
    let name = chosen_remote(remote);
    checked(fetchable_verdict(server), n).and_then(
        |_u: (), n: int|
            checked(token_verdict("remote"@, name), n).and_then(
                |_u: (), n: int| git_flow(repo, Command::Fetch { remote: name }, t, n),
            ),
    )
}

/// A branch, where one is given, is a token.
pub open spec fn optional_branch_verdict(branch: Option<Text>) -> Result<(), Text> {
    match branch {
        None => Ok(()),
        Some(branch) => token_verdict("branch"@, branch),
    }
}

/// Pulls, fast-forward only.
pub open spec fn pull_flow(
    server: GitServer,
    repo: Text,
    remote: Option<Text>,
    branch: Option<Text>,
    t: Seq<Reply>,
    n: int,
) -> FlowView<OutputView> {
    let name = chosen_remote(remote);
    checked(fetchable_verdict(server), n).and_then(
        |_u: (), n: int|
            checked(token_verdict("remote"@, name), n).and_then(
                |_u: (), n: int|
                    checked(optional_branch_verdict(branch), n).and_then(
                        |_u: (), n: int|
                            git_flow(repo, Command::Pull { remote: name, branch }, t, n),
                    ),
            ),
    )
}

/// A refspec, where one is given, does not force.
pub open spec fn optional_refspec_verdict(refspec: Option<Text>) -> Result<(), Text> {
    match refspec {
        None => Ok(()),
        Some(refspec) => refspec_verdict(refspec),
    }
}

/// Pushes without force.
pub open spec fn push_flow(
    server: GitServer,
    repo: Text,
    remote: Option<Text>,
    refspec: Option<Text>,
    t: Seq<Reply>,
    n: int,
) -> FlowView<OutputView> {
    let name = chosen_remote(remote);
    checked(remote_write_verdict(server), n).and_then(
        |_u: (), n: int|
            checked(token_verdict("remote"@, name), n).and_then(
                |_u: (), n: int|
                    checked(optional_refspec_verdict(refspec), n).and_then(
                        |_u: (), n: int|
                            git_flow(repo, Command::Push { remote: name, refspec }, t, n),
                    ),
            ),
    )
}

impl GitServer {
    fn ensure_fetchable(&self) -> (r: Result<(), String>)
        ensures
            outcome(r) == fetchable_verdict(*self),
    {
        self.ensure_writable()?;
        self.ensure_remote_read()
    }

    /// Fetches from a remote and prunes what it no longer has.
    pub fn git_fetch(&self, repo: &str, remote: &Option<String>, t: &Vec<Reply>, n: usize) -> (r:
        Flow<GitOutput>)
        ensures
            flow(r) == fetch_flow(*self, repo@, remote.deep_view(), t@, n as int),
    {
        check(self.ensure_fetchable(), n)?;
        let remote: String = choose_remote(remote);
        check(validate_token("remote", remote.as_str()), n)?;
        run_git(repo, Command::Fetch { remote }, t, n)
    }

    /// Pulls, fast-forward only.
    pub fn git_pull(
        &self,
        repo: &str,
        remote: &Option<String>,
        branch: &Option<String>,
        t: &Vec<Reply>,
        n: usize,
    ) -> (r: Flow<GitOutput>)
        ensures
            flow(r) == pull_flow(
                *self,
                repo@,
                remote.deep_view(),
                branch.deep_view(),
                t@,
                n as int,
            ),
    {
        check(self.ensure_fetchable(), n)?;
        let remote: String = choose_remote(remote);
        check(validate_token("remote", remote.as_str()), n)?;
        if let Some(name) = branch {
            check(validate_token("branch", name.as_str()), n)?;
        }
        run_git(repo, Command::Pull { remote, branch: clone_optional(branch) }, t, n)
    }

    /// Pushes to a remote without force.
    pub fn git_push(
        &self,
        repo: &str,
        remote: &Option<String>,
        refspec: &Option<String>,
        t: &Vec<Reply>,
        n: usize,
    ) -> (r: Flow<GitOutput>)
        ensures
            flow(r) == push_flow(
                *self,
                repo@,
                remote.deep_view(),
                refspec.deep_view(),
                t@,
                n as int,
            ),
    {
        check(self.ensure_remote_write(), n)?;
        let remote: String = choose_remote(remote);
        check(validate_token("remote", remote.as_str()), n)?;
        if let Some(spec) = refspec {
            check(validate_refspec(spec.as_str()), n)?;
        }
        run_git(repo, Command::Push { remote, refspec: clone_optional(refspec) }, t, n)
    }
}

} // verus!
