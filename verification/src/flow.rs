//! Operations as deterministic functions of the replies received so far.
//!
//! An operation looks at a transcript: the replies to the requests that it has
//! made, oldest first. It reads the transcript from a given position on, and
//! either needs one more request to be performed (`Halt::Ask`), or has failed
//! (`Halt::Fail`), or is done. Whoever drives an operation performs the
//! request, appends the reply to the transcript, and asks again.
use crate::command::{CommandView, GitCommand};
use crate::output::{failure_text, format_git_failure, GitOutput, OutputView};
use crate::text::Text;
use vstd::prelude::*;

verus! {

// ---------------------------------------------------------------------------
// Requests and replies
// ---------------------------------------------------------------------------
/// What an operation may ask for.
#[derive(Debug)]
pub enum GitRequest {
    /// Execute a Git command in the repository that a selector names.
    Git { repo: String, command: GitCommand },
    /// Run `git` in a directory, with these arguments and with these
    /// environment variables added.
    Run { directory: Vec<u8>, arguments: Vec<String>, variables: Vec<(String, String)> },
    /// Resolve a path, and say what it leads to.
    Canonicalize { path: Vec<u8> },
    /// Read and parse a file of release evidence.
    ReadEvidence { path: Vec<u8> },
    /// Say whether a path leads to anything.
    Probe { path: Vec<u8> },
    /// List a directory.
    List { path: Vec<u8> },
}

/// A request as contracts speak of it.
pub enum RequestView {
    Git { repo: Text, command: CommandView },
    Run { directory: Seq<u8>, arguments: Seq<Text>, variables: Seq<(Text, Text)> },
    Canonicalize { path: Seq<u8> },
    ReadEvidence { path: Seq<u8> },
    Probe { path: Seq<u8> },
    List { path: Seq<u8> },
}

impl DeepView for GitRequest {
    type V = RequestView;

    open spec fn deep_view(&self) -> RequestView {
        match self {
            GitRequest::Git { repo, command } => RequestView::Git {
                repo: repo@,
                command: command.deep_view(),
            },
            GitRequest::Run { directory, arguments, variables } => RequestView::Run {
                directory: directory@,
                arguments: arguments.deep_view(),
                variables: variables.deep_view(),
            },
            GitRequest::Canonicalize { path } => RequestView::Canonicalize { path: path@ },
            GitRequest::ReadEvidence { path } => RequestView::ReadEvidence { path: path@ },
            GitRequest::Probe { path } => RequestView::Probe { path: path@ },
            GitRequest::List { path } => RequestView::List { path: path@ },
        }
    }
}

/// What a path leads to.
#[derive(Debug)]
pub struct PathFacts {
    /// The absolute path, free of symbolic links.
    pub path: Vec<u8>,
    pub is_dir: bool,
    pub is_file: bool,
}

/// How a process ended and what it printed.
#[derive(Debug)]
pub struct ProcessOutput {
    /// The exit code, unless a signal ended the process.
    pub exit_code: Option<i32>,
    pub stdout: Vec<u8>,
    pub stderr: Vec<u8>,
}

/// The evidence that a release gate leaves behind.
#[derive(Debug)]
pub struct ReleaseEvidence {
    pub schema_version: u32,
    pub gate: String,
    pub status: String,
    pub repo: String,
    pub project_key: String,
    pub commit: String,
    pub branch: String,
    pub analysis_id: Option<String>,
}

/// A file of release evidence.
#[derive(Debug)]
pub enum EvidenceFile {
    Parsed(ReleaseEvidence),
    /// The file could not be read.
    Unreadable(String),
    /// The file is not the expected JSON.
    Malformed(String),
}

/// An entry of a directory.
#[derive(Debug)]
pub enum DirectoryEntry {
    /// An entry and what it is, without following a symbolic link.
    Found { name: Vec<u8>, is_symlink: bool, is_dir: bool },
    /// The entry could not be read.
    Unreadable(String),
    /// The entry could be read, but not what it is.
    Uninspectable(String),
}

/// The reply to a request; the text of an error is the system's own.
#[derive(Debug)]
pub enum Reply {
    Git(Result<GitOutput, String>),
    Run(Result<ProcessOutput, String>),
    Path(Result<PathFacts, String>),
    Evidence(EvidenceFile),
    Exists(bool),
    Entries(Result<Vec<DirectoryEntry>, String>),
}

// ---------------------------------------------------------------------------
// Flows
// ---------------------------------------------------------------------------
/// Why an operation stops short of a result.
#[derive(Debug)]
pub enum Halt {
    /// The transcript is used up: this has to be performed next.
    Ask(GitRequest),
    /// The operation failed, with the transcript read up to a position.
    Fail(String, usize),
}

/// A result and the position up to which the transcript was read, or a halt.
pub type Flow<T> = Result<(T, usize), Halt>;

/// A flow as contracts speak of it.
pub enum FlowView<T> {
    Ask(RequestView),
    Fail(Text, int),
    Got(T, int),
}

/// A flow with its strings taken as text.
pub open spec fn flow<T: DeepView>(r: Flow<T>) -> FlowView<T::V> {
    match r {
        Ok((v, n)) => FlowView::Got(v.deep_view(), n as int),
        Err(Halt::Ask(request)) => FlowView::Ask(request.deep_view()),
        Err(Halt::Fail(error, n)) => FlowView::Fail(error@, n as int),
    }
}

impl<T> FlowView<T> {
    /// Goes on with `next` once there is a result.
    pub open spec fn and_then<U>(self, next: spec_fn(T, int) -> FlowView<U>) -> FlowView<U> {
        match self {
            FlowView::Ask(request) => FlowView::Ask(request),
            FlowView::Fail(error, n) => FlowView::Fail(error, n),
            FlowView::Got(v, n) => next(v, n),
        }
    }

    /// Applies `f` to the result.
    pub open spec fn map<U>(self, f: spec_fn(T) -> U) -> FlowView<U> {
        match self {
            FlowView::Ask(request) => FlowView::Ask(request),
            FlowView::Fail(error, n) => FlowView::Fail(error, n),
            FlowView::Got(v, n) => FlowView::Got(f(v), n),
        }
    }

    /// Reports `error` in place of whatever failure there is.
    pub open spec fn or_fail(self, error: Text) -> FlowView<T> {
        match self {
            FlowView::Fail(_, n) => FlowView::Fail(error, n),
            other => other,
        }
    }

    /// Takes a failure for a result.
    pub open spec fn attempt(self) -> FlowView<Result<T, Text>> {
        match self {
            FlowView::Ask(request) => FlowView::Ask(request),
            FlowView::Fail(error, n) => FlowView::Got(Err(error), n),
            FlowView::Got(v, n) => FlowView::Got(Ok(v), n),
        }
    }

    /// The command that has to be run next, if there is one.
    pub open spec fn pending(self) -> Option<CommandView> {
        match self {
            FlowView::Ask(RequestView::Git { repo, command }) => Some(command),
            _ => None,
        }
    }

    /// Whatever command has to be run next neither changes the repository nor
    /// contacts a remote.
    pub open spec fn inspects(self) -> bool {
        self.pending() matches Some(command) ==> command.only_inspects()
    }
}

/// A verdict, reached without reading the transcript.
pub open spec fn checked<T>(verdict: Result<T, Text>, n: int) -> FlowView<T> {
    match verdict {
        Ok(v) => FlowView::Got(v, n),
        Err(error) => FlowView::Fail(error, n),
    }
}

/// Fails with `error` where `bad` holds.
pub open spec fn unless(bad: bool, error: Text, n: int) -> FlowView<()> {
    if bad {
        FlowView::Fail(error, n)
    } else {
        FlowView::Got((), n)
    }
}

/// A verdict, reached without reading the transcript.
pub fn check<T: DeepView>(verdict: Result<T, String>, n: usize) -> (r: Flow<T>)
    ensures
        flow(r) == checked(crate::policy::outcome(verdict), n as int),
{
    match verdict {
        Ok(v) => Ok((v, n)),
        Err(error) => Err(Halt::Fail(error, n)),
    }
}

/// Reports `error` in place of whatever failure there is.
pub fn replace_failure<T: DeepView>(result: Flow<T>, error: String) -> (r: Flow<T>)
    ensures
        flow(r) == flow(result).or_fail(error@),
{
    match result {
        Err(Halt::Fail(_, n)) => Err(Halt::Fail(error, n)),
        other => other,
    }
}

/// A failure with a fixed message.
pub fn fail<T: DeepView>(error: &str, n: usize) -> (r: Flow<T>)
    ensures
        flow(r) == FlowView::<T::V>::Fail(error@, n as int),
{
    Err(Halt::Fail(error.to_owned(), n))
}

/// What is reported of a reply of another kind than the request called for.
pub open spec fn mismatch() -> Text {
    "reply does not answer the request"@
}

// ---------------------------------------------------------------------------
// Running Git
// ---------------------------------------------------------------------------
/// Runs a Git command, whatever its exit code.
pub open spec fn raw_flow(
    repo: Text,
    command: CommandView,
    t: Seq<Reply>,
    n: int,
) -> FlowView<OutputView> {
    if 0 <= n < t.len() {
        match t[n] {
            Reply::Git(Ok(output)) => FlowView::Got(output.deep_view(), n + 1),
            Reply::Git(Err(error)) => FlowView::Fail(error@, n + 1),
            _ => FlowView::Fail(mismatch(), n + 1),
        }
    } else {
        FlowView::Ask(RequestView::Git { repo, command })
    }
}

/// Runs a Git command and insists on exit code zero.
pub open spec fn git_flow(
    repo: Text,
    command: CommandView,
    t: Seq<Reply>,
    n: int,
) -> FlowView<OutputView> {
    raw_flow(repo, command, t, n).and_then(
        |output: OutputView, n: int|
            if output.exit_code == Some(0i32) {
                FlowView::Got(output, n)
            } else {
                FlowView::Fail(failure_text(output), n)
            },
    )
}

/// Runs a Git command, whatever its exit code.
pub fn run_git_raw(repo: &str, command: GitCommand, t: &Vec<Reply>, n: usize) -> (r: Flow<
    GitOutput,
>)
    ensures
        flow(r) == raw_flow(repo@, command.deep_view(), t@, n as int),
{
    if n < t.len() {
        match &t[n] {
            Reply::Git(Ok(output)) => Ok((output.duplicate(), n + 1)),
            Reply::Git(Err(error)) => Err(Halt::Fail(error.clone(), n + 1)),
            _ => fail("reply does not answer the request", n + 1),
        }
    } else {
        Err(Halt::Ask(GitRequest::Git { repo: repo.to_owned(), command }))
    }
}

/// Runs a Git command and insists on exit code zero.
pub fn run_git(repo: &str, command: GitCommand, t: &Vec<Reply>, n: usize) -> (r: Flow<GitOutput>)
    ensures
        flow(r) == git_flow(repo@, command.deep_view(), t@, n as int),
{
    let (output, n) = run_git_raw(repo, command, t, n)?;
    if output.exit_code == Some(0) {
        Ok((output, n))
    } else {
        Err(Halt::Fail(format_git_failure(&output), n))
    }
}

} // verus!
