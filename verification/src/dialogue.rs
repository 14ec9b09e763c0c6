//! What an operation has asked for and what it has been told.
//!
//! An operation is a function of the replies received so far. That it asked for
//! a command at position `p` means that it asks for the command when it has
//! received the first `p` replies and no more; the reply at position `p` is
//! what it was told. What an operation has come to can be held against this,
//! whatever steps it is made of.
use crate::command::{Command, CommandView};
use crate::flow::{FlowView, Reply, RequestView};
use crate::output::OutputView;
use crate::snapshot::{described_commit, SnapshotView};
use crate::text::{trim, Text};
use vstd::prelude::*;

verus! {

/// What has to be performed next, if anything has.
pub open spec fn request<T>(flow: FlowView<T>) -> Option<RequestView> {
    match flow {
        FlowView::Ask(request) => Some(request),
        _ => None,
    }
}

/// What a command printed, and how it ended.
pub open spec fn output_at(t: Seq<Reply>, p: int) -> OutputView {
    t[p]->Git_0->Ok_0.deep_view()
}

/// What a command printed, without leading and trailing white space.
pub open spec fn said(t: Seq<Reply>, p: int) -> Text {
    trim(output_at(t, p).stdout)
}

/// At position `p` the operation asked for the command in the repository, and
/// the command was run.
pub open spec fn answered<T>(
    operation: spec_fn(Seq<Reply>) -> FlowView<T>,
    t: Seq<Reply>,
    p: int,
    repo: Text,
    command: CommandView,
) -> bool {
    &&& 0 <= p < t.len()
    &&& request(operation(t.take(p))) == Some(RequestView::Git { repo, command })
    &&& t[p] matches Reply::Git(Ok(_))
}

/// At position `p` the operation asked for the command in the repository, and
/// the command succeeded.
pub open spec fn performed<T>(
    operation: spec_fn(Seq<Reply>) -> FlowView<T>,
    t: Seq<Reply>,
    p: int,
    repo: Text,
    command: CommandView,
) -> bool {
    &&& answered(operation, t, p, repo, command)
    &&& output_at(t, p).exit_code == Some(0i32)
}

/// What was read of a commit at position `p`, after its name was resolved at
/// the position before.
pub open spec fn snapshot_at(t: Seq<Reply>, p: int) -> SnapshotView {
    described_commit(said(t, p - 1), output_at(t, p).stdout)->Ok_0
}

/// At position `p` the operation read the commit that a revision names, having
/// resolved the revision at the position before.
pub open spec fn commit_read<T>(
    operation: spec_fn(Seq<Reply>) -> FlowView<T>,
    t: Seq<Reply>,
    p: int,
    repo: Text,
    revision: Text,
) -> bool {
    &&& performed(operation, t, p - 1, repo, Command::ResolveCommit { revision })
    &&& performed(operation, t, p, repo, Command::CommitMetadata { commit: said(t, p - 1) })
    &&& described_commit(said(t, p - 1), output_at(t, p).stdout) is Ok
}

/// At position `p` the operation made a commit with the tree, the author and
/// the committer of another.
pub open spec fn commit_made<T>(
    operation: spec_fn(Seq<Reply>) -> FlowView<T>,
    t: Seq<Reply>,
    p: int,
    repo: Text,
    of: SnapshotView,
    tree: Text,
    parent: Text,
    message: Text,
) -> bool {
    performed(
        operation,
        t,
        p,
        repo,
        Command::CommitTree {
            tree,
            parent,
            message,
            author_name: of.author_name,
            author_email: of.author_email,
            author_date: of.author_date,
            committer_name: of.committer_name,
            committer_email: of.committer_email,
            committer_date: of.committer_date,
        },
    )
}

/// From position `a` on, what a part of an operation asks for is what the
/// operation asks for.
pub open spec fn carries<T, U>(
    operation: spec_fn(Seq<Reply>) -> FlowView<T>,
    part: spec_fn(Seq<Reply>) -> FlowView<U>,
    t: Seq<Reply>,
    a: int,
) -> bool {
    forall|p: int|
        a <= p <= t.len() && request(part(#[trigger] t.take(p))) is Some ==> request(
            operation(t.take(p)),
        ) == request(part(t.take(p)))
}

/// What a part of an operation asked for, the operation asked for.
pub proof fn lemma_answered<T, U>(
    operation: spec_fn(Seq<Reply>) -> FlowView<T>,
    part: spec_fn(Seq<Reply>) -> FlowView<U>,
    t: Seq<Reply>,
    a: int,
    p: int,
    repo: Text,
    command: CommandView,
)
    requires
        carries(operation, part, t, a),
        a <= p,
        answered(part, t, p, repo, command),
    ensures
        answered(operation, t, p, repo, command),
{
    assert(request(part(t.take(p))) is Some);
}

/// What a part of an operation read, the operation read.
pub proof fn lemma_commit_read_by<T, U>(
    operation: spec_fn(Seq<Reply>) -> FlowView<T>,
    part: spec_fn(Seq<Reply>) -> FlowView<U>,
    t: Seq<Reply>,
    a: int,
    p: int,
    repo: Text,
    revision: Text,
)
    requires
        carries(operation, part, t, a),
        a < p,
        commit_read(part, t, p, repo, revision),
    ensures
        commit_read(operation, t, p, repo, revision),
{
    lemma_answered(operation, part, t, a, p - 1, repo, Command::ResolveCommit { revision });
    lemma_answered(
        operation,
        part,
        t,
        a,
        p,
        repo,
        Command::CommitMetadata { commit: said(t, p - 1) },
    );
}

/// What a part of a part asks for is asked for.
pub proof fn lemma_carried<T, U, V>(
    operation: spec_fn(Seq<Reply>) -> FlowView<T>,
    part: spec_fn(Seq<Reply>) -> FlowView<U>,
    inner: spec_fn(Seq<Reply>) -> FlowView<V>,
    t: Seq<Reply>,
    a: int,
    b: int,
)
    requires
        carries(operation, part, t, a),
        carries(part, inner, t, b),
        a <= b,
    ensures
        carries(operation, inner, t, b),
{
}

} // verus!
