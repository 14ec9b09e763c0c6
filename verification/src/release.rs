//! Tagging releases.
use crate::command::Command;
use crate::flow::{
    check, checked, fail, flow, git_flow, mismatch, raw_flow, run_git, run_git_raw, unless,
    EvidenceFile, Flow, FlowView, GitRequest, Halt, ReleaseEvidence, Reply, RequestView,
};
use crate::history::{is_protected_trunk, protected_trunk};
use crate::output::{decode_lossy, utf8_lossy, GitOutput, OutputView};
use crate::paths::{
    clean_repo_path, find_below, is_within, lies_within, path_below, repo_path_verdict,
};
use crate::policy::{message_verdict, semver_verdict, validate_commit_message, validate_semver_core};
use crate::queries::{
    current_branch_required, current_branch_required_flow, is_dirty, is_dirty_flow,
    validate_tag_name, validate_tag_name_flow,
};
use crate::server::{
    canonicalize, canonicalize_flow, quote, quoted, resolve_repo_flow, writable_verdict, GitServer,
    PathView,
};
use crate::snapshot::{commit_snapshot, commit_snapshot_flow, CommitSnapshot, SnapshotView};
use crate::text::{
    blank, clone_optional, concat, concat3, is_blank, same_text, text_listed, Text,
};
use vstd::prelude::*;

verus! {

// ---------------------------------------------------------------------------
// Evidence
// ---------------------------------------------------------------------------
/// Release evidence as contracts speak of it.
pub struct EvidenceView {
    pub schema_version: u32,
    pub gate: Text,
    pub status: Text,
    pub repo: Text,
    pub project_key: Text,
    pub commit: Text,
    pub branch: Text,
    pub analysis_id: Option<Text>,
}

impl DeepView for ReleaseEvidence {
    type V = EvidenceView;

    open spec fn deep_view(&self) -> EvidenceView {
        EvidenceView {
            schema_version: self.schema_version,
            gate: self.gate@,
            status: self.status@,
            repo: self.repo@,
            project_key: self.project_key@,
            commit: self.commit@,
            branch: self.branch@,
            analysis_id: self.analysis_id.deep_view(),
        }
    }
}

/// The evidence is a `PASS` of the release analysis for the commit `head` on
/// the trunk of the repository at `root`.
pub open spec fn proves_pass(evidence: EvidenceView, head: Text, root: Text) -> bool {
    &&& evidence.schema_version == 1
    &&& evidence.gate == "sonarqube-main"@
    &&& evidence.status == "PASS"@
    &&& evidence.branch == protected_trunk()
    &&& evidence.commit == head
    &&& evidence.repo == root
    &&& !is_blank(evidence.project_key)
    &&& evidence.analysis_id matches Some(id)
    &&& id.len() > 0
}

/// Whether the evidence is a `PASS` of the release analysis for the commit
/// `head` on the trunk of the repository at `root`.
pub fn evidence_proves_pass(evidence: &ReleaseEvidence, head: &str, root: &str) -> (r: bool)
    ensures
        r == proves_pass(evidence.deep_view(), head@, root@),
{
    let analysed: bool = match &evidence.analysis_id {
        Some(id) => !id.as_str().is_empty(),
        None => false,
    };
    evidence.schema_version == 1 && same_text(evidence.gate.as_str(), "sonarqube-main")
        && same_text(evidence.status.as_str(), "PASS") && is_protected_trunk(
        evidence.branch.as_str(),
    ) && same_text(evidence.commit.as_str(), head) && same_text(evidence.repo.as_str(), root)
        && !blank(evidence.project_key.as_str()) && analysed
}

/// Reads a file of evidence.
pub open spec fn read_evidence_flow(path: Seq<u8>, t: Seq<Reply>, n: int) -> FlowView<EvidenceView> {
    if 0 <= n < t.len() {
        match t[n] {
            Reply::Evidence(EvidenceFile::Parsed(evidence)) => FlowView::Got(
                evidence.deep_view(),
                n + 1,
            ),
            Reply::Evidence(EvidenceFile::Unreadable(error)) => FlowView::Fail(
                "cannot read release evidence: "@ + error@,
                n + 1,
            ),
            Reply::Evidence(EvidenceFile::Malformed(error)) => FlowView::Fail(
                "invalid release evidence JSON: "@ + error@,
                n + 1,
            ),
            _ => FlowView::Fail(mismatch(), n + 1),
        }
    } else {
        FlowView::Ask(RequestView::ReadEvidence { path })
    }
}

fn read_evidence(path: Vec<u8>, t: &Vec<Reply>, n: usize) -> (r: Flow<ReleaseEvidence>)
    ensures
        flow(r) == read_evidence_flow(path@, t@, n as int),
{
    if n < t.len() {
        match &t[n] {
            Reply::Evidence(EvidenceFile::Parsed(evidence)) => Ok(
                (
                    ReleaseEvidence {
                        schema_version: evidence.schema_version,
                        gate: evidence.gate.clone(),
                        status: evidence.status.clone(),
                        repo: evidence.repo.clone(),
                        project_key: evidence.project_key.clone(),
                        commit: evidence.commit.clone(),
                        branch: evidence.branch.clone(),
                        analysis_id: clone_optional(&evidence.analysis_id),
                    },
                    n + 1,
                ),
            ),
            Reply::Evidence(EvidenceFile::Unreadable(error)) => Err(
                Halt::Fail(concat("cannot read release evidence: ", error.as_str()), n + 1),
            ),
            Reply::Evidence(EvidenceFile::Malformed(error)) => Err(
                Halt::Fail(concat("invalid release evidence JSON: ", error.as_str()), n + 1),
            ),
            _ => fail("reply does not answer the request", n + 1),
        }
    } else {
        Err(Halt::Ask(GitRequest::ReadEvidence { path }))
    }
}

/// Where a server looks for the evidence that is named, if it can look.
pub open spec fn evidence_path_verdict(server: GitServer, evidence_path: Option<Text>) -> Result<
    Seq<u8>,
    Text,
> {
    match server.release_evidence_root {
        None => Err(
            "release evidence is required for this repository but no evidence root is configured"@,
        ),
        Some(root) => match evidence_path {
            None => Err(
                "release evidence is required for this repository; provide release_evidence_path"@,
            ),
            Some(path) => match repo_path_verdict(path, server.path_style) {
                Err(error) => Err(error),
                Ok(relative) => Ok(path_below(root@, relative, server.path_style)),
            },
        },
    }
}

/// The evidence for the commit `head` of a repository that needs it.
pub open spec fn enrolled_evidence_flow(
    server: GitServer,
    repo: Text,
    head: Text,
    evidence_path: Option<Text>,
    t: Seq<Reply>,
    n: int,
) -> FlowView<()> {
    checked(evidence_path_verdict(server, evidence_path), n).and_then(
        |requested: Seq<u8>, n: int|
            canonicalize_flow(requested, "cannot resolve release evidence: "@, t, n).and_then(
                |found: PathView, n: int|
                    unless(
                        !is_within(
                            found.path,
                            server.release_evidence_root->0@,
                            server.path_style,
                        ) || !found.is_file,
                        "release evidence must be a regular file below the configured evidence root"@,
                        n,
                    ).and_then(
                        |_u: (), n: int|
                            read_evidence_flow(found.path, t, n).and_then(
                                |evidence: EvidenceView, n: int|
                                    resolve_repo_flow(server, repo, t, n).and_then(
                                        |root: Seq<u8>, n: int|
                                            unless(
                                                !proves_pass(evidence, head, utf8_lossy(root)),
                                                "release evidence does not prove a PASS for the current main HEAD"@,
                                                n,
                                            ),
                                    ),
                            ),
                    ),
            ),
    )
}

/// The evidence for the commit `head`, where the repository needs any.
pub open spec fn release_evidence_flow(
    server: GitServer,
    repo: Text,
    head: Text,
    evidence_path: Option<Text>,
    t: Seq<Reply>,
    n: int,
) -> FlowView<()> {
    checked(repo_path_verdict(repo, server.path_style), n).and_then(
        |selector: Text, n: int|
            if server.release_evidence_required_repos.deep_view().contains(selector) {
                enrolled_evidence_flow(server, repo, head, evidence_path, t, n)
            } else {
                FlowView::Got((), n)
            },
    )
}

impl GitServer {
    fn find_evidence(&self, evidence_path: &Option<String>) -> (r: Result<Vec<u8>, String>)
        ensures
            match r {
                Ok(path) => evidence_path_verdict(*self, evidence_path.deep_view()) == Ok::<
                    Seq<u8>,
                    Text,
                >(path@),
                Err(error) => evidence_path_verdict(*self, evidence_path.deep_view()) == Err::<
                    Seq<u8>,
                    Text,
                >(error@),
            },
            r is Ok ==> self.release_evidence_root is Some,
    {
        match &self.release_evidence_root {
            None => Err(
                "release evidence is required for this repository but no evidence root is configured".to_owned(),
            ),
            Some(root) => match evidence_path {
                None => Err(
                    "release evidence is required for this repository; provide release_evidence_path".to_owned(),
                ),
                Some(path) => {
                    let relative: String = clean_repo_path(path.as_str(), self.path_style)?;
                    Ok(find_below(root, relative.as_str(), self.path_style))
                },
            },
        }
    }

    /// Insists on evidence of a `PASS` for the commit `head`, where the
    /// repository needs it.
    pub fn verify_release_evidence(
        &self,
        repo: &str,
        head: &str,
        evidence_path: &Option<String>,
        t: &Vec<Reply>,
        n: usize,
    ) -> (r: Flow<()>)
        ensures
            flow(r) == release_evidence_flow(
                *self,
                repo@,
                head@,
                evidence_path.deep_view(),
                t@,
                n as int,
            ),
    {
        let (selector, n) = check(clean_repo_path(repo, self.path_style), n)?;
        if !text_listed(&self.release_evidence_required_repos, selector.as_str()) {
            return Ok(((), n));
        }
        let requested: Vec<u8> = match self.find_evidence(evidence_path) {
            Ok(path) => path,
            Err(error) => {
                return Err(Halt::Fail(error, n));
            },
        };
        let (found, n) = canonicalize(requested, "cannot resolve release evidence: ", t, n)?;
        let below: bool = match &self.release_evidence_root {
            Some(root) => lies_within(&found.path, root, self.path_style),
            None => false,
        };
        if !below || !found.is_file {
            return fail(
                "release evidence must be a regular file below the configured evidence root",
                n,
            );
        }
        let (evidence, n) = read_evidence(found.path, t, n)?;
        let (root, n) = self.resolve_repo(repo, t, n)?;
        let name: String = decode_lossy(root.as_slice());
        assert(root.deep_view() =~= root@);
        if !evidence_proves_pass(&evidence, head, name.as_str()) {
            return fail("release evidence does not prove a PASS for the current main HEAD", n);
        }
        Ok(((), n))
    }
}

// ---------------------------------------------------------------------------
// Release tags
// ---------------------------------------------------------------------------
/// The release that is to be tagged.
#[derive(Debug)]
pub struct ReleaseTagArgs {
    pub repo: String,
    pub version: String,
    pub message: Option<String>,
    /// The evidence, below the directory where the server looks for it.
    pub release_evidence_path: Option<String>,
}

/// The release that is to be tagged, as contracts speak of it.
pub struct ReleaseTagArgsView {
    pub repo: Text,
    pub version: Text,
    pub message: Option<Text>,
    pub release_evidence_path: Option<Text>,
}

impl DeepView for ReleaseTagArgs {
    type V = ReleaseTagArgsView;

    open spec fn deep_view(&self) -> ReleaseTagArgsView {
        ReleaseTagArgsView {
            repo: self.repo@,
            version: self.version@,
            message: self.message.deep_view(),
            release_evidence_path: self.release_evidence_path.deep_view(),
        }
    }
}

/// The name of the tag of a release.
pub open spec fn release_tag_name(version: Text) -> Text {
    "v"@ + version
}

/// The message of the tag of a release.
pub open spec fn release_tag_message(version: Text, message: Option<Text>) -> Text {
    match message {
        Some(message) => message,
        None => "Release "@ + release_tag_name(version),
    }
}

/// The commit at `HEAD`, where it is a merge of two parents on the trunk and
/// nothing is changed locally.
pub open spec fn merged_trunk_flow(repo: Text, t: Seq<Reply>, n: int) -> FlowView<SnapshotView> {
    current_branch_required_flow(repo, t, n).and_then(
        |branch: Text, n: int|
            unless(
                branch != protected_trunk(),
                "release tags may only be created on protected trunk `main`"@,
                n,
            ).and_then(
                |_u: (), n: int|
                    is_dirty_flow(repo, t, n).and_then(
                        |dirty: bool, n: int|
                            unless(
                                dirty,
                                "release tagging requires a clean working tree and index"@,
                                n,
                            ).and_then(
                                |_u: (), n: int|
                                    commit_snapshot_flow(repo, "HEAD"@, t, n).and_then(
                                        |head: SnapshotView, n: int|
                                            unless(
                                                head.parents.len() != 2,
                                                "release tagging requires HEAD to be the two-parent no-ff merge result"@,
                                                n,
                                            ).map(|_u: ()| head),
                                    ),
                            ),
                    ),
            ),
    )
}

fn ensure_merged_trunk(repo: &str, t: &Vec<Reply>, n: usize) -> (r: Flow<CommitSnapshot>)
    ensures
        flow(r) == merged_trunk_flow(repo@, t@, n as int),
{
    let (branch, n) = current_branch_required(repo, t, n)?;
    if !is_protected_trunk(branch.as_str()) {
        return fail("release tags may only be created on protected trunk `main`", n);
    }
    let (dirty, n) = is_dirty(repo, t, n)?;
    if dirty {
        return fail("release tagging requires a clean working tree and index", n);
    }
    let (head, n) = commit_snapshot(repo, "HEAD", t, n)?;
    assert(head.parents.deep_view().len() == head.parents@.len());
    if head.parents.len() != 2 {
        return fail(
            "release tagging requires HEAD to be the two-parent no-ff merge result",
            n,
        );
    }
    Ok((head, n))
}

/// What is reported of a release tag that exists.
pub open spec fn release_tag_exists(name: Text) -> Text {
    "release tag "@ + quoted(name)
        + " already exists; use guarded tag-recovery tooling rather than silently moving it"@
}

/// The name is one that Git accepts for a tag, and no tag has it.
pub open spec fn tag_absent_flow(repo: Text, name: Text, t: Seq<Reply>, n: int) -> FlowView<()> {
    validate_tag_name_flow(repo, name, t, n).and_then(
        |_u: (), n: int|
            raw_flow(repo, Command::ShowTagRef { name }, t, n).and_then(
                |o: OutputView, n: int|
                    unless(o.exit_code == Some(0i32), release_tag_exists(name), n),
            ),
    )
}

fn ensure_tag_absent(repo: &str, name: &str, t: &Vec<Reply>, n: usize) -> (r: Flow<()>)
    ensures
        flow(r) == tag_absent_flow(repo@, name@, t@, n as int),
{
    let (_, n) = validate_tag_name(repo, name, t, n)?;
    let (shown, n) = run_git_raw(repo, Command::ShowTagRef { name: name.to_owned() }, t, n)?;
    if shown.exit_code == Some(0) {
        let shown_name: String = quote(name);
        return Err(
            Halt::Fail(
                concat3(
                    "release tag ",
                    shown_name.as_str(),
                    " already exists; use guarded tag-recovery tooling rather than silently moving it",
                ),
                n,
            ),
        );
    }
    Ok(((), n))
}

/// Tags the merge at `HEAD` of the trunk as a release.
pub open spec fn release_tag_flow(
    server: GitServer,
    args: ReleaseTagArgsView,
    t: Seq<Reply>,
    n: int,
) -> FlowView<OutputView> {
    let name = release_tag_name(args.version);
    let message = release_tag_message(args.version, args.message);
    checked(writable_verdict(server), n).and_then(
        |_u: (), n: int|
            checked(semver_verdict(args.version), n).and_then(
                |_u: (), n: int|
                    merged_trunk_flow(args.repo, t, n).and_then(
                        |head: SnapshotView, n: int|
                            release_evidence_flow(
                                server,
                                args.repo,
                                head.sha,
                                args.release_evidence_path,
                                t,
                                n,
                            ).and_then(
                                |_u: (), n: int|
                                    tag_absent_flow(args.repo, name, t, n).and_then(
                                        |_u: (), n: int|
                                            checked(message_verdict(message), n).and_then(
                                                |_u: (), n: int|
                                                    git_flow(
                                                        args.repo,
                                                        Command::AnnotatedTag {
                                                            name,
                                                            target: None,
                                                            message,
                                                        },
                                                        t,
                                                        n,
                                                    ),
                                            ),
                                    ),
                            ),
                    ),
            ),
    )
}

impl GitServer {
    /// Tags the merge at `HEAD` of the trunk as a release.
    pub fn create_release_tag(&self, args: &ReleaseTagArgs, t: &Vec<Reply>, n: usize) -> (r: Flow<
        GitOutput,
    >)
        ensures
            flow(r) == release_tag_flow(*self, args.deep_view(), t@, n as int),
    {
        let repo: &str = args.repo.as_str();
        check(self.ensure_writable(), n)?;
        check(validate_semver_core(args.version.as_str()), n)?;
        let (head, n) = ensure_merged_trunk(repo, t, n)?;
        let (_, n) = self.verify_release_evidence(
            repo,
            head.sha.as_str(),
            &args.release_evidence_path,
            t,
            n,
        )?;
        let name: String = concat("v", args.version.as_str());
        let (_, n) = ensure_tag_absent(repo, name.as_str(), t, n)?;
        let message: String = match &args.message {
            Some(message) => message.clone(),
            None => concat("Release ", name.as_str()),
        };
        check(validate_commit_message(message.as_str()), n)?;
        run_git(repo, Command::AnnotatedTag { name, target: None, message }, t, n)
    }
}

} // verus!
