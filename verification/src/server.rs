//! The configuration of the server, what it permits, and how it executes Git
//! within the workspace.
use crate::command::GitCommand;
use crate::flow::{
    check, checked, fail, flow, mismatch, Flow, FlowView, GitRequest, Halt, PathFacts,
    ProcessOutput, Reply, RequestView,
};
use crate::command::CommandView;
use crate::output::{
    bounded_text, bounded_utf8, decode_lossy, decode_strict, utf8_lossy, GitOutput, OutputView,
};
use crate::paths::{
    clean_repo_path, find_below, is_within, lies_within, path_below, repo_path_verdict, same_bytes,
    PathStyle,
};
use crate::policy::outcome;
use crate::text::{
    ascending, blank, concat, concat3, insert_sorted, insert_text, is_blank, law_insert_sorted, trim,
    trimmed, Text,
};
use vstd::prelude::*;
use vstd::utf8::{decode_utf8, encode_utf8, valid_utf8};

verus! {

/// The server: its workspace and what it permits.
#[derive(Debug)]
pub struct GitServer {
    /// How paths are written on this system.
    pub path_style: PathStyle,
    /// The resolved path of the workspace.
    pub workspace_root: Vec<u8>,
    pub read_only: bool,
    pub allow_remote_read: bool,
    pub allow_remote_write: bool,
    pub max_output_bytes: usize,
    /// The resolved path below which release evidence is found.
    pub release_evidence_root: Option<Vec<u8>>,
    /// The selectors of the repositories that need release evidence, ascending.
    pub release_evidence_required_repos: Vec<String>,
}

/// The normal forms of the selectors `repos` from `i` on, added to the
/// ascending list `found`; or why the first that is refused is refused.
pub open spec fn enrolled_from(
    repos: Seq<Text>,
    i: int,
    found: Seq<Text>,
    style: PathStyle,
) -> Result<Seq<Text>, Text>
    decreases repos.len() - i,
{
    if i < 0 || i >= repos.len() {
        Ok(found)
    } else {
        match repo_path_verdict(repos[i], style) {
            Ok(selector) => enrolled_from(repos, i + 1, insert_sorted(found, selector), style),
            Err(error) => Err(error),
        }
    }
}

fn enroll(repos: &Vec<String>, style: PathStyle) -> (r: Result<Vec<String>, String>)
    ensures
        outcome(r) == enrolled_from(repos.deep_view(), 0, Seq::empty(), style),
{
    let mut found: Vec<String> = Vec::new();
    let mut i: usize = 0;
    let ghost all = repos.deep_view();
    assert(found.deep_view() =~= Seq::<Text>::empty());
    while i < repos.len()
        invariant
            all == repos.deep_view(),
            i <= repos@.len(),
            enrolled_from(all, 0, Seq::empty(), style) == enrolled_from(
                all,
                i as int,
                found.deep_view(),
                style,
            ),
        decreases repos@.len() - i,
    {
        assert(all[i as int] == repos@[i as int]@);
        let selector: String = clean_repo_path(repos[i].as_str(), style)?;
        insert_text(&mut found, selector);
        i += 1;
    }
    Ok(found)
}

proof fn lemma_enrolled(repos: Seq<Text>, i: int, found: Seq<Text>, style: PathStyle)
    requires
        0 <= i <= repos.len(),
        ascending(found),
    ensures
        enrolled_from(repos, i, found, style) matches Ok(all) ==> {
            &&& ascending(all)
            &&& forall|name: Text| #[trigger]
                all.contains(name) <==> found.contains(name) || exists|k: int|
                    i <= k < repos.len() && repo_path_verdict(#[trigger] repos[k], style)
                        == Ok::<Text, Text>(name)
        },
    decreases repos.len() - i,
{
    if i < repos.len() {
        if let Ok(selector) = repo_path_verdict(repos[i], style) {
            law_insert_sorted(found, selector);
            lemma_enrolled(repos, i + 1, insert_sorted(found, selector), style);
        }
    }
}

/// The repositories that need release evidence are those that the server was
/// told of, in their normal form.
pub proof fn law_enrolled(repos: Seq<Text>, style: PathStyle)
    ensures
        enrolled_from(repos, 0, Seq::empty(), style) matches Ok(all) ==> {
            &&& ascending(all)
            &&& forall|name: Text| #[trigger]
                all.contains(name) <==> exists|k: int|
                    0 <= k < repos.len() && repo_path_verdict(#[trigger] repos[k], style)
                        == Ok::<Text, Text>(name)
        },
{
    lemma_enrolled(repos, 0, Seq::empty(), style);
}

/// What a read-only server reports.
pub open spec fn writable_verdict(server: GitServer) -> Result<(), Text> {
    if server.read_only {
        Err("Git MCP is running in read-only mode; local repository mutation is disabled"@)
    } else {
        Ok(())
    }
}

/// What a server without permission to read remotes reports.
pub open spec fn remote_read_verdict(server: GitServer) -> Result<(), Text> {
    if server.allow_remote_read {
        Ok(())
    } else {
        Err(
            "remote Git reads are disabled; start with --allow-remote-read (or legacy --allow-remote) to enable fetch/publication checks"@,
        )
    }
}

/// What a server without permission to write to remotes reports.
pub open spec fn remote_write_verdict(server: GitServer) -> Result<(), Text> {
    if server.allow_remote_write {
        Ok(())
    } else {
        Err(
            "remote Git writes are disabled; start with --allow-remote-write (or legacy --allow-remote) to enable push"@,
        )
    }
}

impl GitServer {
    /// A server for a workspace. The switch `allow_remote` stands for both
    /// remote permissions; at least one byte of output is always kept.
    pub fn new(
        path_style: PathStyle,
        workspace_root: Vec<u8>,
        read_only: bool,
        allow_remote: bool,
        allow_remote_read: bool,
        allow_remote_write: bool,
        max_output_bytes: usize,
        release_evidence_root: Option<Vec<u8>>,
        release_evidence_required_repos: &Vec<String>,
    ) -> (r: Result<GitServer, String>)
        ensures
            match enrolled_from(
                release_evidence_required_repos.deep_view(),
                0,
                Seq::empty(),
                path_style,
            ) {
                Ok(enrolled) => r matches Ok(server) && {
                    &&& server.path_style == path_style
                    &&& server.workspace_root == workspace_root
                    &&& server.read_only == read_only
                    &&& server.allow_remote_read == (allow_remote || allow_remote_read)
                    &&& server.allow_remote_write == (allow_remote || allow_remote_write)
                    &&& server.max_output_bytes == if max_output_bytes == 0 {
                        1
                    } else {
                        max_output_bytes
                    }
                    &&& server.release_evidence_root == release_evidence_root
                    &&& server.release_evidence_required_repos.deep_view() == enrolled
                },
                Err(error) => r matches Err(e) && e@ == error,
            },
    {
        let enrolled: Vec<String> = enroll(release_evidence_required_repos, path_style)?;
        Ok(
            GitServer {
                path_style,
                workspace_root,
                read_only,
                allow_remote_read: allow_remote || allow_remote_read,
                allow_remote_write: allow_remote || allow_remote_write,
                max_output_bytes: if max_output_bytes == 0 {
                    1
                } else {
                    max_output_bytes
                },
                release_evidence_root,
                release_evidence_required_repos: enrolled,
            },
        )
    }

    /// Refuses to change a repository in read-only mode.
    pub fn ensure_writable(&self) -> (r: Result<(), String>)
        ensures
            outcome(r) == writable_verdict(*self),
    {
        if self.read_only {
            Err(
                "Git MCP is running in read-only mode; local repository mutation is disabled".to_owned(),
            )
        } else {
            Ok(())
        }
    }

    /// Refuses to read from a remote without permission.
    pub fn ensure_remote_read(&self) -> (r: Result<(), String>)
        ensures
            outcome(r) == remote_read_verdict(*self),
    {
        if self.allow_remote_read {
            Ok(())
        } else {
            Err(
                "remote Git reads are disabled; start with --allow-remote-read (or legacy --allow-remote) to enable fetch/publication checks".to_owned(),
            )
        }
    }

    /// Refuses to write to a remote without permission.
    pub fn ensure_remote_write(&self) -> (r: Result<(), String>)
        ensures
            outcome(r) == remote_write_verdict(*self),
    {
        if self.allow_remote_write {
            Ok(())
        } else {
            Err(
                "remote Git writes are disabled; start with --allow-remote-write (or legacy --allow-remote) to enable push".to_owned(),
            )
        }
    }
}

// ---------------------------------------------------------------------------
// Asking for paths and processes
// ---------------------------------------------------------------------------
/// A resolved path as contracts speak of it.
pub struct PathView {
    pub path: Seq<u8>,
    pub is_dir: bool,
    pub is_file: bool,
}

impl DeepView for PathFacts {
    type V = PathView;

    open spec fn deep_view(&self) -> PathView {
        PathView { path: self.path@, is_dir: self.is_dir, is_file: self.is_file }
    }
}

/// The result of a process as contracts speak of it.
pub struct ProcessView {
    pub exit_code: Option<i32>,
    pub stdout: Seq<u8>,
    pub stderr: Seq<u8>,
}

impl DeepView for ProcessOutput {
    type V = ProcessView;

    open spec fn deep_view(&self) -> ProcessView {
        ProcessView { exit_code: self.exit_code, stdout: self.stdout@, stderr: self.stderr@ }
    }
}

/// Resolves a path; a failure is reported after `context`.
pub open spec fn canonicalize_flow(
    path: Seq<u8>,
    context: Text,
    t: Seq<Reply>,
    n: int,
) -> FlowView<PathView> {
    if 0 <= n < t.len() {
        match t[n] {
            Reply::Path(Ok(facts)) => FlowView::Got(facts.deep_view(), n + 1),
            Reply::Path(Err(error)) => FlowView::Fail(context + error@, n + 1),
            _ => FlowView::Fail(mismatch(), n + 1),
        }
    } else {
        FlowView::Ask(RequestView::Canonicalize { path })
    }
}

/// Resolves a path; a failure is reported after `context`.
pub fn canonicalize(path: Vec<u8>, context: &str, t: &Vec<Reply>, n: usize) -> (r: Flow<PathFacts>)
    ensures
        flow(r) == canonicalize_flow(path@, context@, t@, n as int),
{
    if n < t.len() {
        match &t[n] {
            Reply::Path(Ok(facts)) => {
                let path: Vec<u8> = facts.path.clone();
                assert(path@ =~= facts.path@);
                Ok((PathFacts { path, is_dir: facts.is_dir, is_file: facts.is_file }, n + 1))
            },
            Reply::Path(Err(error)) => Err(Halt::Fail(concat(context, error.as_str()), n + 1)),
            _ => fail("reply does not answer the request", n + 1),
        }
    } else {
        Err(Halt::Ask(GitRequest::Canonicalize { path }))
    }
}

/// Runs a process; a failure to start is reported after `context`.
pub open spec fn process_flow(
    directory: Seq<u8>,
    arguments: Seq<Text>,
    variables: Seq<(Text, Text)>,
    context: Text,
    t: Seq<Reply>,
    n: int,
) -> FlowView<ProcessView> {
    if 0 <= n < t.len() {
        match t[n] {
            Reply::Run(Ok(output)) => FlowView::Got(output.deep_view(), n + 1),
            Reply::Run(Err(error)) => FlowView::Fail(context + error@, n + 1),
            _ => FlowView::Fail(mismatch(), n + 1),
        }
    } else {
        FlowView::Ask(RequestView::Run { directory, arguments, variables })
    }
}

fn run_process(
    directory: Vec<u8>,
    arguments: Vec<String>,
    variables: Vec<(String, String)>,
    context: &str,
    t: &Vec<Reply>,
    n: usize,
) -> (r: Flow<ProcessOutput>)
    ensures
        flow(r) == process_flow(
            directory@,
            arguments.deep_view(),
            variables.deep_view(),
            context@,
            t@,
            n as int,
        ),
{
    if n < t.len() {
        match &t[n] {
            Reply::Run(Ok(output)) => {
                let stdout: Vec<u8> = output.stdout.clone();
                let stderr: Vec<u8> = output.stderr.clone();
                assert(stdout@ =~= output.stdout@);
                assert(stderr@ =~= output.stderr@);
                Ok((ProcessOutput { exit_code: output.exit_code, stdout, stderr }, n + 1))
            },
            Reply::Run(Err(error)) => Err(Halt::Fail(concat(context, error.as_str()), n + 1)),
            _ => fail("reply does not answer the request", n + 1),
        }
    } else {
        Err(Halt::Ask(GitRequest::Run { directory, arguments, variables }))
    }
}

// ---------------------------------------------------------------------------
// Repositories
// ---------------------------------------------------------------------------
/// With these arguments Git runs no hooks.
pub open spec fn no_hooks() -> Seq<Text> {
    seq!["-c"@, "core.hooksPath=/dev/null"@]
}

fn without_hooks() -> (r: Vec<String>)
    ensures
        r.deep_view() == no_hooks(),
{
    let r: Vec<String> = vec!["-c".to_owned(), "core.hooksPath=/dev/null".to_owned()];
    assert(r.deep_view() =~= no_hooks());
    r
}

/// `text` in backquotes.
pub open spec fn quoted(text: Text) -> Text {
    "`"@ + text + "`"@
}

/// `text` in backquotes.
pub fn quote(text: &str) -> (r: String)
    ensures
        r@ == quoted(text@),
{
    concat3("`", text, "`")
}

/// The message of a directory that is not a Git repository, with what Git said
/// of it.
pub open spec fn not_a_repository(repo: Text, stderr: Text) -> Text {
    if is_blank(stderr) {
        "target is not a Git repository: "@ + quoted(repo)
    } else {
        "target is not a Git repository: "@ + quoted(repo) + ": "@ + trim(stderr)
    }
}

fn report_not_a_repository(repo: &str, stderr: &str) -> (r: String)
    ensures
        r@ == not_a_repository(repo@, stderr@),
{
    let quoted_repo: String = quote(repo);
    let mut r: String = concat("target is not a Git repository: ", quoted_repo.as_str());
    if !blank(stderr) {
        r.append(": ");
        let said: String = trimmed(stderr);
        r.append(said.as_str());
    }
    r
}

/// The resolved root of the repository that a selector names. It must be a
/// directory within the workspace, and the very root of a repository.
pub open spec fn resolve_repo_flow(server: GitServer, repo: Text, t: Seq<Reply>, n: int) -> FlowView<
    Seq<u8>,
> {
    let root = server.workspace_root@;
    checked(repo_path_verdict(repo, server.path_style), n).and_then(
        |relative: Text, n: int|
            canonicalize_flow(
                path_below(root, relative, server.path_style),
                "cannot resolve repository "@ + quoted(repo) + ": "@,
                t,
                n,
            ).and_then(
                |resolved: PathView, n: int|
                    if !resolved.is_dir {
                        FlowView::Fail("repository target is not a directory: "@ + quoted(repo), n)
                    } else if !is_within(resolved.path, root, server.path_style) {
                        FlowView::Fail(
                            "repository resolves outside the configured workspace root: "@ + quoted(
                                repo,
                            ),
                            n,
                        )
                    } else {
                        process_flow(
                            resolved.path,
                            no_hooks() + seq!["rev-parse"@, "--show-toplevel"@],
                            Seq::empty(),
                            "failed to execute `git`: "@,
                            t,
                            n,
                        ).and_then(
                            |output: ProcessView, n: int|
                                toplevel_flow(server, repo, resolved.path, output, t, n),
                        )
                    },
            ),
    )
}

/// What becomes of the repository root that Git reports.
pub open spec fn toplevel_flow(
    server: GitServer,
    repo: Text,
    resolved: Seq<u8>,
    output: ProcessView,
    t: Seq<Reply>,
    n: int,
) -> FlowView<Seq<u8>> {
    if output.exit_code != Some(0i32) {
        FlowView::Fail(not_a_repository(repo, utf8_lossy(output.stderr)), n)
    } else if !valid_utf8(output.stdout) {
        FlowView::Fail("Git returned a non-UTF-8 repository path"@, n)
    } else {
        let reported = trim(decode_utf8(output.stdout));
        canonicalize_flow(
            encode_utf8(reported),
            "cannot canonicalize Git repository root "@ + quoted(reported) + ": "@,
            t,
            n,
        ).and_then(
            |root: PathView, n: int|
                if !is_within(root.path, server.workspace_root@, server.path_style) {
                    FlowView::Fail(
                        "Git repository root resolves outside the configured workspace: "@ + quoted(
                            repo,
                        ),
                        n,
                    )
                } else if root.path != resolved {
                    FlowView::Fail(
                        "repository selector must name the Git repository root, not a subdirectory: "@
                            + quoted(repo),
                        n,
                    )
                } else {
                    FlowView::Got(root.path, n)
                },
        )
    }
}

/// The variables that keep Git from waiting for a pager or an editor.
pub open spec fn unattended() -> Seq<(Text, Text)> {
    seq![("GIT_PAGER"@, "cat"@), ("PAGER"@, "cat"@), ("GIT_EDITOR"@, "true"@)]
}

/// What is kept of the output of a process.
pub open spec fn bounded_output(output: ProcessView, limit: nat) -> OutputView {
    OutputView {
        exit_code: output.exit_code,
        stdout: bounded_text(output.stdout, limit),
        stderr: bounded_text(output.stderr, limit),
        truncated: output.stdout.len() > limit || output.stderr.len() > limit,
    }
}

/// Executes a command in the repository that a selector names, without hooks,
/// pager or editor.
pub open spec fn execute_flow(
    server: GitServer,
    repo: Text,
    command: CommandView,
    t: Seq<Reply>,
    n: int,
) -> FlowView<OutputView> {
    resolve_repo_flow(server, repo, t, n).and_then(
        |root: Seq<u8>, n: int|
            process_flow(
                root,
                no_hooks() + command.arguments(),
                unattended() + command.variables(),
                "failed to execute git: "@,
                t,
                n,
            ).map(|output: ProcessView| bounded_output(output, server.max_output_bytes as nat)),
    )
}

impl GitServer {
    /// The resolved root of the repository that a selector names.
    pub fn resolve_repo(&self, repo: &str, t: &Vec<Reply>, n: usize) -> (r: Flow<Vec<u8>>)
        ensures
            flow(r) == resolve_repo_flow(*self, repo@, t@, n as int),
    {
        let (relative, n) = check(clean_repo_path(repo, self.path_style), n)?;
        let name: String = quote(repo);
        let requested: Vec<u8> = find_below(
            &self.workspace_root,
            relative.as_str(),
            self.path_style,
        );
        let context: String = concat3("cannot resolve repository ", name.as_str(), ": ");
        let (resolved, n) = canonicalize(requested, context.as_str(), t, n)?;
        if !resolved.is_dir {
            return Err(
                Halt::Fail(concat("repository target is not a directory: ", name.as_str()), n),
            );
        }
        if !lies_within(&resolved.path, &self.workspace_root, self.path_style) {
            return Err(
                Halt::Fail(
                    concat(
                        "repository resolves outside the configured workspace root: ",
                        name.as_str(),
                    ),
                    n,
                ),
            );
        }
        let mut arguments: Vec<String> = without_hooks();
        arguments.push("rev-parse".to_owned());
        arguments.push("--show-toplevel".to_owned());
        let variables: Vec<(String, String)> = Vec::new();
        let directory: Vec<u8> = resolved.path.clone();
        assert(directory@ =~= resolved.path@);
        assert(arguments.deep_view() =~= no_hooks() + seq!["rev-parse"@, "--show-toplevel"@]);
        assert(variables.deep_view() =~= Seq::<(Text, Text)>::empty());
        let (output, n) = run_process(
            directory,
            arguments,
            variables,
            "failed to execute `git`: ",
            t,
            n,
        )?;
        self.accept_toplevel(repo, &resolved.path, &output, t, n)
    }

    fn accept_toplevel(
        &self,
        repo: &str,
        resolved: &Vec<u8>,
        output: &ProcessOutput,
        t: &Vec<Reply>,
        n: usize,
    ) -> (r: Flow<Vec<u8>>)
        ensures
            flow(r) == toplevel_flow(*self, repo@, resolved@, output.deep_view(), t@, n as int),
    {
        let name: String = quote(repo);
        if output.exit_code != Some(0) {
            let stderr: String = decode_lossy(output.stderr.as_slice());
            return Err(Halt::Fail(report_not_a_repository(repo, stderr.as_str()), n));
        }
        let stdout: String = match decode_strict(&output.stdout) {
            Some(text) => text,
            None => {
                return fail("Git returned a non-UTF-8 repository path", n);
            },
        };
        let reported: String = trimmed(stdout.as_str());
        let quoted_root: String = quote(reported.as_str());
        let context: String = concat3(
            "cannot canonicalize Git repository root ",
            quoted_root.as_str(),
            ": ",
        );
        let path: Vec<u8> = reported.as_str().as_bytes_vec();
        let (root, n) = canonicalize(path, context.as_str(), t, n)?;
        if !lies_within(&root.path, &self.workspace_root, self.path_style) {
            return Err(
                Halt::Fail(
                    concat(
                        "Git repository root resolves outside the configured workspace: ",
                        name.as_str(),
                    ),
                    n,
                ),
            );
        }
        if !same_bytes(&root.path, resolved) {
            return Err(
                Halt::Fail(
                    concat(
                        "repository selector must name the Git repository root, not a subdirectory: ",
                        name.as_str(),
                    ),
                    n,
                ),
            );
        }
        assert(root.path.deep_view() =~= root.path@);
        Ok((root.path, n))
    }

    /// Executes a command in the repository that a selector names.
    pub fn execute_git(&self, repo: &str, command: &GitCommand, t: &Vec<Reply>, n: usize) -> (r: Flow<
        GitOutput,
    >)
        ensures
            flow(r) == execute_flow(*self, repo@, command.deep_view(), t@, n as int),
    {
        let (root, n) = self.resolve_repo(repo, t, n)?;
        assert(root.deep_view() =~= root@);
        let mut arguments: Vec<String> = without_hooks();
        let mut specific: Vec<String> = command.to_arguments();
        let ghost own = specific.deep_view();
        arguments.append(&mut specific);
        assert(arguments.deep_view() =~= no_hooks() + own);
        let mut variables: Vec<(String, String)> = vec![
            ("GIT_PAGER".to_owned(), "cat".to_owned()),
            ("PAGER".to_owned(), "cat".to_owned()),
            ("GIT_EDITOR".to_owned(), "true".to_owned()),
        ];
        assert(variables.deep_view() =~= unattended());
        let mut extra: Vec<(String, String)> = command.to_variables();
        let ghost added = extra.deep_view();
        variables.append(&mut extra);
        assert(variables.deep_view() =~= unattended() + added);
        let (output, n) = run_process(root, arguments, variables, "failed to execute git: ", t, n)?;
        let mut truncated: bool = false;
        let stdout: String = bounded_utf8(output.stdout, self.max_output_bytes, &mut truncated);
        let stderr: String = bounded_utf8(output.stderr, self.max_output_bytes, &mut truncated);
        Ok((GitOutput { exit_code: output.exit_code, stdout, stderr, truncated }, n))
    }
}

/// How far the request of an operation to run a command has got.
#[derive(Debug)]
pub enum Answer {
    /// The reply that the operation waits for.
    Reply(Reply),
    /// This has to be performed first.
    Ask(GitRequest),
}

impl GitServer {
    /// Answers the request of an operation to run a command, from the replies
    /// that concern this command alone. What it asks for is never another
    /// command.
    pub fn answer_git(&self, repo: &str, command: &GitCommand, t: &Vec<Reply>) -> (r: Answer)
        ensures
            match execute_flow(*self, repo@, command.deep_view(), t@, 0) {
                FlowView::Ask(request) => r matches Answer::Ask(asked) && asked.deep_view()
                    == request,
                FlowView::Got(output, _) => r matches Answer::Reply(Reply::Git(Ok(found)))
                    && found.deep_view() == output,
                FlowView::Fail(error, _) => r matches Answer::Reply(Reply::Git(Err(found)))
                    && found@ == error,
            },
            r matches Answer::Ask(asked) ==> asked !is Git,
    {
        match self.execute_git(repo, command, t, 0) {
            Ok((output, _)) => Answer::Reply(Reply::Git(Ok(output))),
            Err(Halt::Fail(error, _)) => Answer::Reply(Reply::Git(Err(error))),
            Err(Halt::Ask(request)) => Answer::Ask(request),
        }
    }
}

// ---------------------------------------------------------------------------
// Confinement
// ---------------------------------------------------------------------------
/// Whatever the file system and Git reply, a repository is only resolved to a
/// directory within the workspace, and Git is only ever run there.
pub proof fn law_repository_within_workspace(server: GitServer, repo: Text, t: Seq<Reply>, n: int)
    ensures
        match resolve_repo_flow(server, repo, t, n) {
            FlowView::Got(root, _) => is_within(root, server.workspace_root@, server.path_style),
            FlowView::Ask(RequestView::Run { directory, .. }) => is_within(
                directory,
                server.workspace_root@,
                server.path_style,
            ),
            _ => true,
        },
{
}

/// Every command is run in the resolved root of a repository within the
/// workspace, with hooks disabled.
pub proof fn law_commands_confined(
    server: GitServer,
    repo: Text,
    command: CommandView,
    t: Seq<Reply>,
    n: int,
)
    ensures
        execute_flow(server, repo, command, t, n) matches FlowView::Ask(
            RequestView::Run { directory, arguments, variables },
        ) ==> {
            &&& is_within(directory, server.workspace_root@, server.path_style)
            &&& no_hooks().is_prefix_of(arguments)
        },
{
    law_repository_within_workspace(server, repo, t, n);
    assert(no_hooks() =~= (no_hooks() + command.arguments()).subrange(0, 2));
    assert(no_hooks() =~= (no_hooks() + seq!["rev-parse"@, "--show-toplevel"@]).subrange(0, 2));
}

} // verus!
