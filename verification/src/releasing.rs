//! What tagging a release comes to, held against what was asked and told.
use crate::command::Command;
use crate::dialogue::{
    answered, carries, commit_read, lemma_answered, lemma_carried, lemma_commit_read_by,
    output_at, performed, request, said, snapshot_at,
};
use crate::extent::{
    agree, decided, dirtiness_reads, merged_trunk_reads, required_branch_reads, tag_absence_reads,
    tag_name_reads, within,
};
use crate::executing::{repository_told, requested};
use crate::flow::{git_flow, EvidenceFile, FlowView, Reply, RequestView};
use crate::output::{utf8_lossy, OutputView};
use crate::paths::{is_within, path_below, repo_path_verdict};
use crate::policy::{message_verdict, semver_verdict};
use crate::queries::{current_branch_required_flow, is_dirty_flow, validate_tag_name_flow};
use crate::release::{
    enrolled_evidence_flow, merged_trunk_flow, release_evidence_flow, release_tag_flow,
    tag_absent_flow, ReleaseTagArgsView,
};
use crate::replaying::{lemma_commit_read, reading};
use crate::server::{resolve_repo_flow, GitServer};
use crate::snapshot::{commit_snapshot_flow, SnapshotView};
use crate::text::{law_blank_trims_to_nothing, trim, Text};
use vstd::prelude::*;

verus! {

// ---------------------------------------------------------------------------
// Evidence
// ---------------------------------------------------------------------------
/// Resolving a repository depends on the replies that it uses alone.
#[verifier::rlimit(40)]
pub proof fn lemma_repo_reads(
    server: GitServer,
    repo: Text,
    t: Seq<Reply>,
    s: Seq<Reply>,
    n: int,
)
    requires
        0 <= n <= t.len(),
    ensures
        within(resolve_repo_flow(server, repo, t, n), n, t.len() as int),
        decided(
            resolve_repo_flow(server, repo, t, n),
            resolve_repo_flow(server, repo, s, n),
            t,
            s,
        ),
{
}

#[verifier::rlimit(40)]
proof fn lemma_evidence_reads(
    server: GitServer,
    repo: Text,
    head: Text,
    evidence_path: Option<Text>,
    t: Seq<Reply>,
    s: Seq<Reply>,
    n: int,
)
    requires
        0 <= n <= t.len(),
    ensures
        within(
            release_evidence_flow(server, repo, head, evidence_path, t, n),
            n,
            t.len() as int,
        ),
        decided(
            release_evidence_flow(server, repo, head, evidence_path, t, n),
            release_evidence_flow(server, repo, head, evidence_path, s, n),
            t,
            s,
        ),
{
    if n + 2 <= t.len() {
        lemma_repo_reads(server, repo, t, s, n + 2);
    }
}

/// Asking for evidence, as a part of an operation.
pub open spec fn proving(
    server: GitServer,
    repo: Text,
    head: Text,
    evidence_path: Option<Text>,
    n: int,
) -> spec_fn(Seq<Reply>) -> FlowView<()> {
    |t: Seq<Reply>| release_evidence_flow(server, repo, head, evidence_path, t, n)
}

/// What the operation was told of the evidence: the file named, below the
/// directory of evidence, is a file there, and what was read from it is a `PASS`
/// of the release gate for the trunk of this repository at this commit.
pub open spec fn evidence_told<T>(
    operation: spec_fn(Seq<Reply>) -> FlowView<T>,
    t: Seq<Reply>,
    n: int,
    server: GitServer,
    repo: Text,
    head: Text,
    evidence_path: Option<Text>,
    root: Seq<u8>,
) -> bool {
    &&& server.release_evidence_root matches Some(directory)
    &&& evidence_path matches Some(path)
    &&& repo_path_verdict(path, server.path_style) matches Ok(relative)
    &&& requested(
        operation,
        t,
        n,
        RequestView::Canonicalize { path: path_below(directory@, relative, server.path_style) },
    )
    &&& t[n] matches Reply::Path(Ok(facts))
    &&& facts.is_file
    &&& is_within(facts.path@, directory@, server.path_style)
    &&& requested(operation, t, n + 1, RequestView::ReadEvidence { path: facts.path@ })
    &&& t[n + 1] matches Reply::Evidence(EvidenceFile::Parsed(evidence))
    &&& evidence.schema_version == 1
    &&& evidence.gate@ == "sonarqube-main"@
    &&& evidence.status@ == "PASS"@
    &&& evidence.branch@ == "main"@
    &&& evidence.commit@ == head
    &&& trim(evidence.project_key@).len() > 0
    &&& evidence.analysis_id matches Some(id)
    &&& id@.len() > 0
    &&& repository_told(operation, t, n + 2, server, repo, root)
    &&& evidence.repo@ == utf8_lossy(root)
}

/// Where a repository needs evidence, there is some exactly where the file named
/// holds a `PASS` for this commit of it, as the replies told; and where it needs
/// none, nothing is asked for. The law gives the root of the repository.
#[verifier::rlimit(40)]
pub proof fn law_evidence_is_for_this_commit(
    server: GitServer,
    repo: Text,
    head: Text,
    evidence_path: Option<Text>,
    t: Seq<Reply>,
    n: int,
) -> (root: Seq<u8>)
    requires
        0 <= n <= t.len(),
        release_evidence_flow(server, repo, head, evidence_path, t, n) is Got,
    ensures
        ({
            let op = proving(server, repo, head, evidence_path, n);
            &&& repo_path_verdict(repo, server.path_style) matches Ok(selector)
            &&& if server.release_evidence_required_repos.deep_view().contains(selector) {
                evidence_told(op, t, n, server, repo, head, evidence_path, root)
            } else {
                release_evidence_flow(server, repo, head, evidence_path, t, n)->Got_1 == n
            }
        }),
{
    let op = proving(server, repo, head, evidence_path, n);
    let root = resolve_repo_flow(server, repo, t, n + 2)->Got_0;
    let selector = repo_path_verdict(repo, server.path_style)->Ok_0;
    if server.release_evidence_required_repos.deep_view().contains(selector) {
        assert(enrolled_evidence_flow(server, repo, head, evidence_path, t, n) is Got);
        assert(resolve_repo_flow(server, repo, t, n + 2) is Got);
        let evidence = t[n + 1]->Evidence_0->Parsed_0;
        law_blank_trims_to_nothing(evidence.project_key@);
        assert(seq!["-c"@, "core.hooksPath=/dev/null"@] + seq!["rev-parse"@, "--show-toplevel"@]
            =~= seq!["-c"@, "core.hooksPath=/dev/null"@, "rev-parse"@, "--show-toplevel"@]);
        assert(op(t.take(n)) == release_evidence_flow(
            server,
            repo,
            head,
            evidence_path,
            t.take(n),
            n,
        ));
        assert(op(t.take(n + 1)) == release_evidence_flow(
            server,
            repo,
            head,
            evidence_path,
            t.take(n + 1),
            n,
        ));
        assert(op(t.take(n + 2)) == release_evidence_flow(
            server,
            repo,
            head,
            evidence_path,
            t.take(n + 2),
            n,
        ));
        assert(op(t.take(n + 3)) == release_evidence_flow(
            server,
            repo,
            head,
            evidence_path,
            t.take(n + 3),
            n,
        ));
        assert(op(t.take(n + 4)) == release_evidence_flow(
            server,
            repo,
            head,
            evidence_path,
            t.take(n + 4),
            n,
        ));
    }
    root
}

// ---------------------------------------------------------------------------
// The trunk
// ---------------------------------------------------------------------------
spec fn qualifying(repo: Text) -> spec_fn(Seq<Reply>) -> FlowView<SnapshotView> {
    |t: Seq<Reply>| merged_trunk_flow(repo, t, 0)
}

/// What the operation was told of the commit to tag: it is at `HEAD` of the
/// trunk, with nothing changed locally, and merges two parents.
pub open spec fn trunk_told<T>(
    operation: spec_fn(Seq<Reply>) -> FlowView<T>,
    t: Seq<Reply>,
    repo: Text,
) -> bool {
    &&& performed(operation, t, 0, repo, Command::CurrentBranch)
    &&& said(t, 0) == "main"@
    &&& performed(operation, t, 1, repo, Command::PorcelainStatus)
    &&& output_at(t, 1).stdout.len() == 0
    &&& commit_read(operation, t, 4, repo, "HEAD"@)
    &&& snapshot_at(t, 4).parents.len() == 2
}

#[verifier::rlimit(40)]
proof fn lemma_trunk_parts(repo: Text, t: Seq<Reply>)
    requires
        merged_trunk_flow(repo, t, 0) is Got,
    ensures
        current_branch_required_flow(repo, t, 0) == FlowView::Got(said(t, 0), 1),
        said(t, 0) == "main"@,
        output_at(t, 0).exit_code == Some(0i32),
        t[0] matches Reply::Git(Ok(_)),
        is_dirty_flow(repo, t, 1) == FlowView::Got(false, 2),
        output_at(t, 1).stdout.len() == 0,
        output_at(t, 1).exit_code == Some(0i32),
        t[1] matches Reply::Git(Ok(_)),
        commit_snapshot_flow(repo, "HEAD"@, t, 2) == FlowView::Got(snapshot_at(t, 4), 5),
        snapshot_at(t, 4).parents.len() == 2,
        snapshot_at(t, 4).sha == said(t, 3),
        merged_trunk_flow(repo, t, 0) == FlowView::Got(snapshot_at(t, 4), 5),
        5 <= t.len(),
{
    lemma_commit_read(repo, "HEAD"@, t, 2);
}

#[verifier::rlimit(40)]
proof fn lemma_trunk_branch(
    repo: Text,
    t: Seq<Reply>,
)
    requires
        merged_trunk_flow(repo, t, 0) is Got,
    ensures
        performed(qualifying(repo), t, 0, repo, Command::CurrentBranch),
{
    lemma_trunk_parts(repo, t);
    let op = qualifying(repo);
    let s = t.take(0);
    assert(op(s) == merged_trunk_flow(repo, s, 0));
}

#[verifier::rlimit(40)]
proof fn lemma_trunk_status(
    repo: Text,
    t: Seq<Reply>,
)
    requires
        merged_trunk_flow(repo, t, 0) is Got,
    ensures
        performed(qualifying(repo), t, 1, repo, Command::PorcelainStatus),
{
    lemma_trunk_parts(repo, t);
    let op = qualifying(repo);
    let s = t.take(1);
    assert(op(s) == merged_trunk_flow(repo, s, 0));
    assert(agree(t, s, 1));
    required_branch_reads(repo, t, s, 0);
}

#[verifier::rlimit(40)]
proof fn lemma_trunk_reads(
    repo: Text,
    t: Seq<Reply>,
)
    requires
        merged_trunk_flow(repo, t, 0) is Got,
    ensures
        carries(qualifying(repo), reading(repo, "HEAD"@, 2), t, 2),
{
    lemma_trunk_parts(repo, t);
    let op = qualifying(repo);
    let part = reading(repo, "HEAD"@, 2);
    assert forall|p: int|
        2 <= p <= t.len() && request(part(#[trigger] t.take(p))) is Some implies request(
        op(t.take(p)),
    ) == request(part(t.take(p))) by {
        let s = t.take(p);
        assert(op(s) == merged_trunk_flow(repo, s, 0));
        assert(agree(t, s, 1));
        required_branch_reads(repo, t, s, 0);
        assert(agree(t, s, 2));
        dirtiness_reads(repo, t, s, 1);
        assert(part(s) == commit_snapshot_flow(repo, "HEAD"@, s, 2));
    }
}

#[verifier::rlimit(40)]
proof fn lemma_trunk_told<T>(
    operation: spec_fn(Seq<Reply>) -> FlowView<T>,
    repo: Text,
    t: Seq<Reply>,
)
    requires
        merged_trunk_flow(repo, t, 0) is Got,
        carries(operation, qualifying(repo), t, 0),
    ensures
        trunk_told(operation, t, repo),
{
    lemma_trunk_parts(repo, t);
    lemma_trunk_branch(repo, t);
    lemma_trunk_status(repo, t);
    lemma_trunk_reads(repo, t);
    let op = qualifying(repo);
    lemma_answered(operation, op, t, 0, 0, repo, Command::CurrentBranch);
    lemma_answered(operation, op, t, 0, 1, repo, Command::PorcelainStatus);
    let part = reading(repo, "HEAD"@, 2);
    lemma_carried(operation, op, part, t, 0, 2);
    lemma_commit_read(repo, "HEAD"@, t, 2);
    lemma_commit_read_by(operation, part, t, 2, 4, repo, "HEAD"@);
}

// ---------------------------------------------------------------------------
// The tag
// ---------------------------------------------------------------------------
/// Tagging a release, as an operation.
pub open spec fn releasing(server: GitServer, args: ReleaseTagArgsView) -> spec_fn(
    Seq<Reply>,
) -> FlowView<OutputView> {
    |t: Seq<Reply>| release_tag_flow(server, args, t, 0)
}

/// What the operation did to tag a release: it checked the name, saw that no tag
/// has it, and made an annotated tag of that name at `HEAD`.
pub open spec fn release_tagged<T>(
    operation: spec_fn(Seq<Reply>) -> FlowView<T>,
    t: Seq<Reply>,
    n: int,
    repo: Text,
    name: Text,
    message: Text,
) -> bool {
    &&& performed(operation, t, n, repo, Command::CheckTagName { name })
    &&& answered(operation, t, n + 1, repo, Command::ShowTagRef { name })
    &&& output_at(t, n + 1).exit_code != Some(0i32)
    &&& performed(
        operation,
        t,
        n + 2,
        repo,
        Command::AnnotatedTag { name, target: None, message },
    )
}

#[verifier::rlimit(40)]
proof fn lemma_releasing_parts(server: GitServer, args: ReleaseTagArgsView, t: Seq<Reply>)
    requires
        release_tag_flow(server, args, t, 0) is Got,
    ensures
        ({
            let name = "v"@ + args.version;
            let message = match args.message {
                Some(message) => message,
                None => "Release "@ + name,
            };
            let evidence = release_evidence_flow(
                server,
                args.repo,
                said(t, 3),
                args.release_evidence_path,
                t,
                5,
            );
            let n = evidence->Got_1;
            &&& !server.read_only
            &&& semver_verdict(args.version) is Ok
            &&& message_verdict(message) is Ok
            &&& merged_trunk_flow(args.repo, t, 0) == FlowView::Got(snapshot_at(t, 4), 5)
            &&& snapshot_at(t, 4).sha == said(t, 3)
            &&& evidence == FlowView::Got((), n)
            &&& 5 <= n
            &&& n + 3 <= t.len()
            &&& validate_tag_name_flow(args.repo, name, t, n) == FlowView::Got((), n + 1)
            &&& output_at(t, n).exit_code == Some(0i32)
            &&& t[n] matches Reply::Git(Ok(_))
            &&& tag_absent_flow(args.repo, name, t, n) == FlowView::Got((), n + 2)
            &&& output_at(t, n + 1).exit_code != Some(0i32)
            &&& t[n + 1] matches Reply::Git(Ok(_))
            &&& git_flow(
                args.repo,
                Command::AnnotatedTag { name, target: None, message },
                t,
                n + 2,
            ) == FlowView::Got(output_at(t, n + 2), n + 3)
            &&& release_tag_flow(server, args, t, 0) == FlowView::Got(output_at(t, n + 2), n + 3)
        }),
{
    assert(merged_trunk_flow(args.repo, t, 0) is Got);
    lemma_trunk_parts(args.repo, t);
    let path = args.release_evidence_path;
    lemma_evidence_reads(server, args.repo, said(t, 3), path, t, t, 5);
}

#[verifier::rlimit(40)]
proof fn lemma_releasing_checks(
    server: GitServer,
    args: ReleaseTagArgsView,
    t: Seq<Reply>,
    n: int,
)
    requires
        release_tag_flow(server, args, t, 0) is Got,
        n == release_evidence_flow(
            server,
            args.repo,
            said(t, 3),
            args.release_evidence_path,
            t,
            5,
        )->Got_1,
    ensures
        performed(
            releasing(server, args),
            t,
            n,
            args.repo,
            Command::CheckTagName { name: "v"@ + args.version },
        ),
{
    lemma_releasing_parts(server, args, t);
    let name = "v"@ + args.version;
    let message = match args.message {
        Some(message) => message,
        None => "Release "@ + name,
    };
    let path = args.release_evidence_path;
    let op = releasing(server, args);
    let s = t.take(n);
    assert(op(s) == release_tag_flow(server, args, s, 0));
    assert(agree(t, s, 5));
    merged_trunk_reads(args.repo, t, s, 0);
    assert(agree(t, s, n));
    lemma_evidence_reads(server, args.repo, said(t, 3), path, t, s, 5);
}

#[verifier::rlimit(40)]
proof fn lemma_releasing_looks(
    server: GitServer,
    args: ReleaseTagArgsView,
    t: Seq<Reply>,
    n: int,
)
    requires
        release_tag_flow(server, args, t, 0) is Got,
        n == release_evidence_flow(
            server,
            args.repo,
            said(t, 3),
            args.release_evidence_path,
            t,
            5,
        )->Got_1,
    ensures
        answered(
            releasing(server, args),
            t,
            n + 1,
            args.repo,
            Command::ShowTagRef { name: "v"@ + args.version },
        ),
{
    lemma_releasing_parts(server, args, t);
    let name = "v"@ + args.version;
    let message = match args.message {
        Some(message) => message,
        None => "Release "@ + name,
    };
    let path = args.release_evidence_path;
    let op = releasing(server, args);
    let s = t.take(n + 1);
    assert(op(s) == release_tag_flow(server, args, s, 0));
    assert(agree(t, s, 5));
    merged_trunk_reads(args.repo, t, s, 0);
    assert(agree(t, s, n));
    lemma_evidence_reads(server, args.repo, said(t, 3), path, t, s, 5);
    assert(agree(t, s, n + 1));
    tag_name_reads(args.repo, name, t, s, n);
}

#[verifier::rlimit(40)]
proof fn lemma_releasing_tags(
    server: GitServer,
    args: ReleaseTagArgsView,
    t: Seq<Reply>,
    n: int,
)
    requires
        release_tag_flow(server, args, t, 0) is Got,
        n == release_evidence_flow(
            server,
            args.repo,
            said(t, 3),
            args.release_evidence_path,
            t,
            5,
        )->Got_1,
    ensures
        performed(releasing(server, args), t, n + 2, args.repo, Command::AnnotatedTag {
            name: "v"@ + args.version,
            target: None,
            message: match args.message {
                Some(message) => message,
                None => "Release "@ + ("v"@ + args.version),
            },
        }),
{
    lemma_releasing_parts(server, args, t);
    let name = "v"@ + args.version;
    let message = match args.message {
        Some(message) => message,
        None => "Release "@ + name,
    };
    let path = args.release_evidence_path;
    let op = releasing(server, args);
    let s = t.take(n + 2);
    assert(op(s) == release_tag_flow(server, args, s, 0));
    assert(agree(t, s, 5));
    merged_trunk_reads(args.repo, t, s, 0);
    assert(agree(t, s, n));
    lemma_evidence_reads(server, args.repo, said(t, 3), path, t, s, 5);
    assert(agree(t, s, n + 2));
    tag_absence_reads(args.repo, name, t, s, n);
}

/// Where a release is tagged, the result says what was asked for and told. The
/// version is `MAJOR.MINOR.PATCH`; the commit at `HEAD` of the trunk merges two
/// parents, and nothing is changed locally; the repository needs no evidence or
/// has it for exactly that commit; no tag had the name; and an annotated tag was
/// made there, named `v` and the version, with the message given or else
/// `Release` and the name. The result is what that printed. The law gives where
/// in the dialogue the tag was made.
#[verifier::rlimit(40)]
pub proof fn law_release_tags_merge(
    server: GitServer,
    args: ReleaseTagArgsView,
    t: Seq<Reply>,
) -> (n: int)
    requires
        release_tag_flow(server, args, t, 0) is Got,
    ensures
        ({
            let op = releasing(server, args);
            let name = "v"@ + args.version;
            let message = match args.message {
                Some(message) => message,
                None => "Release "@ + name,
            };
            &&& !server.read_only
            &&& semver_verdict(args.version) is Ok
            &&& message_verdict(message) is Ok
            &&& trunk_told(op, t, args.repo)
            &&& release_evidence_flow(
                server,
                args.repo,
                said(t, 3),
                args.release_evidence_path,
                t,
                5,
            ) == FlowView::Got((), n)
            &&& release_tagged(op, t, n, args.repo, name, message)
            &&& release_tag_flow(server, args, t, 0)->Got_0 == output_at(t, n + 2)
        }),
{
    lemma_releasing_parts(server, args, t);
    let op = releasing(server, args);
    let n = release_evidence_flow(
        server,
        args.repo,
        said(t, 3),
        args.release_evidence_path,
        t,
        5,
    )->Got_1;
    lemma_releasing_checks(server, args, t, n);
    lemma_releasing_looks(server, args, t, n);
    lemma_releasing_tags(server, args, t, n);
    let part = qualifying(args.repo);
    assert(carries(op, part, t, 0)) by {
        assert forall|p: int|
            0 <= p <= t.len() && request(part(#[trigger] t.take(p))) is Some implies request(
            op(t.take(p)),
        ) == request(part(t.take(p))) by {
            let s = t.take(p);
            assert(op(s) == release_tag_flow(server, args, s, 0));
            assert(part(s) == merged_trunk_flow(args.repo, s, 0));
        }
    }
    lemma_trunk_told(op, args.repo, t);
    n
}

} // verus!
