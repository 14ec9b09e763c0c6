//! How a command is executed, held against what was asked of the machine and
//! told.
use crate::command::CommandView;
use crate::dialogue::request;
use crate::flow::{FlowView, Reply, RequestView};
use crate::output::{utf8_lossy, OutputView};
use crate::paths::{is_within, path_below, repo_path_verdict};
use crate::server::{execute_flow, resolve_repo_flow, GitServer};
use crate::text::{trim, Text};
use vstd::prelude::*;
use vstd::utf8::{decode_utf8, encode_utf8, valid_utf8};

verus! {

/// Executing a command, as an operation.
pub open spec fn executing(server: GitServer, repo: Text, command: CommandView) -> spec_fn(
    Seq<Reply>,
) -> FlowView<OutputView> {
    |t: Seq<Reply>| execute_flow(server, repo, command, t, 0)
}

/// At position `p` the operation asked for something.
pub open spec fn requested<T>(
    operation: spec_fn(Seq<Reply>) -> FlowView<T>,
    t: Seq<Reply>,
    p: int,
    asked: RequestView,
) -> bool {
    &&& 0 <= p < t.len()
    &&& request(operation(t.take(p))) == Some(asked)
}

/// What the operation was told of a repository: the path given, below the root
/// of the workspace, is a directory there, and Git says that it is the root of a
/// repository.
pub open spec fn repository_told<T>(
    operation: spec_fn(Seq<Reply>) -> FlowView<T>,
    t: Seq<Reply>,
    n: int,
    server: GitServer,
    repo: Text,
    root: Seq<u8>,
) -> bool {
    let workspace = server.workspace_root@;
    &&& repo_path_verdict(repo, server.path_style) matches Ok(relative)
    &&& requested(
        operation,
        t,
        n,
        RequestView::Canonicalize { path: path_below(workspace, relative, server.path_style) },
    )
    &&& t[n] matches Reply::Path(Ok(facts))
    &&& facts.is_dir
    &&& facts.path@ == root
    &&& is_within(root, workspace, server.path_style)
    &&& requested(
        operation,
        t,
        n + 1,
        RequestView::Run {
            directory: root,
            arguments: seq![
                "-c"@,
                "core.hooksPath=/dev/null"@,
                "rev-parse"@,
                "--show-toplevel"@,
            ],
            variables: Seq::empty(),
        },
    )
    &&& t[n + 1] matches Reply::Run(Ok(output))
    &&& output.exit_code == Some(0i32)
    &&& valid_utf8(output.stdout@)
    &&& requested(
        operation,
        t,
        n + 2,
        RequestView::Canonicalize { path: encode_utf8(trim(decode_utf8(output.stdout@))) },
    )
    &&& t[n + 2] matches Reply::Path(Ok(top))
    &&& top.path@ == root
}

/// A command that is executed is run in the root of the repository given, which
/// lies within the workspace and which Git itself names as the root, without
/// hooks, a pager or an editor, with exactly the arguments and variables of the
/// command. How it ended is how the run ended, and what it printed is what the
/// run printed, as far as the limit goes; it says that something was cut exactly
/// where either is longer.
#[verifier::rlimit(40)]
pub proof fn law_execution_reports(
    server: GitServer,
    repo: Text,
    command: CommandView,
    t: Seq<Reply>,
) -> (root: Seq<u8>)
    requires
        execute_flow(server, repo, command, t, 0) is Got,
    ensures
        ({
            let op = executing(server, repo, command);
            let done = execute_flow(server, repo, command, t, 0)->Got_0;
            let limit = server.max_output_bytes;
            &&& repository_told(op, t, 0, server, repo, root)
            &&& requested(
                op,
                t,
                3,
                RequestView::Run {
                    directory: root,
                    arguments: seq!["-c"@, "core.hooksPath=/dev/null"@] + command.arguments(),
                    variables: seq![
                        ("GIT_PAGER"@, "cat"@),
                        ("PAGER"@, "cat"@),
                        ("GIT_EDITOR"@, "true"@),
                    ] + command.variables(),
                },
            )
            &&& t[3] matches Reply::Run(Ok(output))
            &&& done.exit_code == output.exit_code
            &&& done.truncated <==> output.stdout@.len() > limit || output.stderr@.len() > limit
            &&& output.stdout@.len() <= limit ==> done.stdout == utf8_lossy(output.stdout@)
            &&& output.stderr@.len() <= limit ==> done.stderr == utf8_lossy(output.stderr@)
            &&& output.stdout@.len() > limit ==> done.stdout == utf8_lossy(
                output.stdout@.take(limit as int),
            ) + "\n[output truncated by MCP Git]\n"@
            &&& output.stderr@.len() > limit ==> done.stderr == utf8_lossy(
                output.stderr@.take(limit as int),
            ) + "\n[output truncated by MCP Git]\n"@
        }),
{
    let op = executing(server, repo, command);
    let root = resolve_repo_flow(server, repo, t, 0)->Got_0;
    assert(resolve_repo_flow(server, repo, t, 0) is Got);
    assert(seq!["-c"@, "core.hooksPath=/dev/null"@] + seq!["rev-parse"@, "--show-toplevel"@]
        =~= seq!["-c"@, "core.hooksPath=/dev/null"@, "rev-parse"@, "--show-toplevel"@]);
    assert(op(t.take(0)) == execute_flow(server, repo, command, t.take(0), 0));
    assert(op(t.take(1)) == execute_flow(server, repo, command, t.take(1), 0));
    assert(op(t.take(2)) == execute_flow(server, repo, command, t.take(2), 0));
    assert(op(t.take(3)) == execute_flow(server, repo, command, t.take(3), 0));
    root
}

} // verus!
