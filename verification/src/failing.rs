//! What a rewrite that fails reports, held against what was told.
use crate::command::Command;
use crate::dialogue::{output_at, request, said};
use crate::flow::{FlowView, Reply, RequestView};
use crate::output::{failure_fields, OutputView};
use crate::queries::head_sha_flow;
use crate::rewrite::{rewrite_flow, RewriteFailureView, RewriteOutcome};
use crate::server::GitServer;
use crate::text::{law_blank_trims_to_nothing, signed_decimal, trim, Text};
use vstd::prelude::*;

verus! {

/// A command succeeded, and printed what was told at position `p`.
pub open spec fn succeeded(t: Seq<Reply>, p: int) -> bool {
    &&& 0 <= p < t.len()
    &&& t[p] matches Reply::Git(Ok(_))
    &&& output_at(t, p).exit_code == Some(0i32)
}

/// A rewrite that fails half-way asks once more where `HEAD` is, and reports the
/// error, where `HEAD` was and where it is; it was restored exactly where the two
/// are the same. Where that cannot be told, it says so.
pub proof fn law_failed_rewrite_reports_head<T>(
    server: GitServer,
    operation: Text,
    repo: Text,
    body: spec_fn(Text, int) -> FlowView<T>,
    t: Seq<Reply>,
    error: Text,
    m: int,
)
    requires
        !server.read_only,
        succeeded(t, 0),
        body(said(t, 0), 1) == FlowView::<T>::Fail(error, m),
        0 <= m <= t.len(),
    ensures
        ({
            let flow = rewrite_flow(server, operation, repo, body, t, 0);
            let original = said(t, 0);
            let current = if succeeded(t, m) {
                said(t, m)
            } else {
                "unknown"@
            };
            if m == t.len() {
                request(flow) == Some(RequestView::Git { repo, command: Command::HeadCommit })
            } else {
                flow == FlowView::Got(
                    RewriteOutcome::<T, RewriteFailureView>::Failed(
                        RewriteFailureView {
                            operation,
                            status: if current == original {
                                "failed"@
                            } else {
                                "repository_in_progress_state"@
                            },
                            restored: current == original,
                            original_head: original,
                            current_head: current,
                            error,
                        },
                    ),
                    m + 1,
                )
            }
        }),
{
    assert(head_sha_flow(repo, t, 0) == FlowView::Got(said(t, 0), 1));
}

/// A rewrite that does not get to know where `HEAD` is has done nothing, and says
/// so: on a server that may not change anything without asking for anything.
pub proof fn law_rewrite_without_head_is_untouched<T>(
    server: GitServer,
    operation: Text,
    repo: Text,
    body: spec_fn(Text, int) -> FlowView<T>,
    t: Seq<Reply>,
)
    requires
        server.read_only || (t.len() > 0 && !succeeded(t, 0)),
    ensures
        rewrite_flow(server, operation, repo, body, t, 0) matches FlowView::Got(
            RewriteOutcome::Failed(failure),
            _,
        ) && failure.operation == operation && failure.restored && failure.status == "failed"@
            && failure.original_head == "unknown"@ && failure.current_head == "unknown"@,
{
}

/// A command that failed is reported with how it ended and with what it printed,
/// without white space around it, on either stream, where it printed anything;
/// and with nothing else.
pub proof fn law_failure_names_streams(output: OutputView)
    ensures
        ({
            let fields = failure_fields(output);
            let stderr = if trim(output.stderr).len() > 0 {
                seq![("stderr"@, trim(output.stderr))]
            } else {
                Seq::empty()
            };
            let stdout = if trim(output.stdout).len() > 0 {
                seq![("stdout"@, trim(output.stdout))]
            } else {
                Seq::empty()
            };
            &&& fields == seq![
                (
                    "exit_code"@,
                    match output.exit_code {
                        Some(code) => signed_decimal(code as int),
                        None => "signal"@,
                    },
                ),
            ] + stderr + stdout
        }),
{
    law_blank_trims_to_nothing(output.stderr);
    law_blank_trims_to_nothing(output.stdout);
}

} // verus!
