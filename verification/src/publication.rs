//! Whether commits and tags are published, and taking back a merge that is not.
use crate::command::Command;
use crate::flow::{
    check, checked, fail, flow, git_flow, run_git, unless, Flow, FlowView, Halt, Reply,
};
use crate::output::OutputView;
use crate::policy::{token_verdict, validate_token};
use crate::queries::{
    current_branch_required, current_branch_required_flow, head_sha, head_sha_flow, is_dirty,
    is_dirty_flow, listing, listing_of, resolve_commit_flow, resolve_commit_sha, short_status,
    short_status_flow, validate_tag_name, validate_tag_name_flow,
};
use crate::rewrite::{
    report, rewrite_flow, start, RewriteFailure, RewriteFailureView, RewriteOutcome, Start,
};
use crate::server::{
    quote, quoted, remote_read_verdict, writable_verdict, GitServer,
};
use crate::snapshot::{commit_snapshot, commit_snapshot_flow, SnapshotView};
use crate::text::{clone_optional, clone_texts, concat, concat3, same_text, Text};
use vstd::prelude::*;

verus! {

/// The most commits, and the most tags, that one request may ask about.
pub const MAX_PUBLICATION_CHECKS: usize = 64;

/// What is asked about, and of which remote.
#[derive(Debug)]
pub struct VerifyUnpublishedArgs {
    pub repo: String,
    pub remote: Option<String>,
    pub commits: Vec<String>,
    pub tags: Vec<String>,
}

/// What is asked about, as contracts speak of it.
pub struct PublicationArgsView {
    pub repo: Text,
    pub remote: Option<Text>,
    pub commits: Seq<Text>,
    pub tags: Seq<Text>,
}

impl DeepView for VerifyUnpublishedArgs {
    type V = PublicationArgsView;

    open spec fn deep_view(&self) -> PublicationArgsView {
        PublicationArgsView {
            repo: self.repo@,
            remote: self.remote.deep_view(),
            commits: self.commits.deep_view(),
            tags: self.tags.deep_view(),
        }
    }
}

/// A commit that references of the remote contain.
#[derive(Debug)]
pub struct PublishedCommit {
    pub commit: String,
    pub refs: Vec<String>,
}

/// A published commit as contracts speak of it.
pub struct PublishedCommitView {
    pub commit: Text,
    pub refs: Seq<Text>,
}

impl DeepView for PublishedCommit {
    type V = PublishedCommitView;

    open spec fn deep_view(&self) -> PublishedCommitView {
        PublishedCommitView { commit: self.commit@, refs: self.refs.deep_view() }
    }
}

/// A tag that the remote has.
#[derive(Debug)]
pub struct PublishedTag {
    pub tag: String,
    pub remote_lines: Vec<String>,
}

/// A published tag as contracts speak of it.
pub struct PublishedTagView {
    pub tag: Text,
    pub remote_lines: Seq<Text>,
}

impl DeepView for PublishedTag {
    type V = PublishedTagView;

    open spec fn deep_view(&self) -> PublishedTagView {
        PublishedTagView { tag: self.tag@, remote_lines: self.remote_lines.deep_view() }
    }
}

/// What a remote was found to have.
#[derive(Debug)]
pub struct PublicationVerification {
    pub remote: String,
    pub fetched: bool,
    pub unpublished: bool,
    pub commits_checked: Vec<String>,
    pub tags_checked: Vec<String>,
    pub published_commits: Vec<PublishedCommit>,
    pub published_tags: Vec<PublishedTag>,
}

/// What a remote was found to have, as contracts speak of it.
pub struct VerificationView {
    pub remote: Text,
    pub fetched: bool,
    pub unpublished: bool,
    pub commits_checked: Seq<Text>,
    pub tags_checked: Seq<Text>,
    pub published_commits: Seq<PublishedCommitView>,
    pub published_tags: Seq<PublishedTagView>,
}

impl DeepView for PublicationVerification {
    type V = VerificationView;

    open spec fn deep_view(&self) -> VerificationView {
        VerificationView {
            remote: self.remote@,
            fetched: self.fetched,
            unpublished: self.unpublished,
            commits_checked: self.commits_checked.deep_view(),
            tags_checked: self.tags_checked.deep_view(),
            published_commits: self.published_commits.deep_view(),
            published_tags: self.published_tags.deep_view(),
        }
    }
}

// ---------------------------------------------------------------------------
// What is checked
// ---------------------------------------------------------------------------
/// The remote that is meant: `origin`, unless another is named.
pub open spec fn chosen_remote(remote: Option<Text>) -> Text {
    match remote {
        Some(name) => name,
        None => "origin"@,
    }
}

/// The remote that is meant: `origin`, unless another is named.
pub fn choose_remote(remote: &Option<String>) -> (r: String)
    ensures
        r@ == chosen_remote(remote.deep_view()),
{
    match remote {
        Some(name) => name.clone(),
        None => "origin".to_owned(),
    }
}

/// The names of the commits that the revisions from `i` on name, after those
/// in `found`.
pub open spec fn resolve_all_flow(
    repo: Text,
    revisions: Seq<Text>,
    i: int,
    found: Seq<Text>,
    t: Seq<Reply>,
    n: int,
) -> FlowView<Seq<Text>>
    decreases revisions.len() - i,
{
    if i < 0 || i >= revisions.len() {
        FlowView::Got(found, n)
    } else {
        resolve_commit_flow(repo, revisions[i], t, n).and_then(
            |sha: Text, n: int|
                resolve_all_flow(repo, revisions, i + 1, found.push(sha), t, n),
        )
    }
}

fn resolve_all(repo: &str, revisions: &Vec<String>, t: &Vec<Reply>, n: usize) -> (r: Flow<
    Vec<String>,
>)
    ensures
        flow(r) == resolve_all_flow(repo@, revisions.deep_view(), 0, Seq::empty(), t@, n as int),
{
    let ghost all = revisions.deep_view();
    let mut found: Vec<String> = Vec::new();
    let mut at: usize = n;
    let mut i: usize = 0;
    assert(found.deep_view() =~= Seq::<Text>::empty());
    while i < revisions.len()
        invariant
            all == revisions.deep_view(),
            all.len() == revisions@.len(),
            i <= revisions@.len(),
            resolve_all_flow(repo@, all, 0, Seq::empty(), t@, n as int) == resolve_all_flow(
                repo@,
                all,
                i as int,
                found.deep_view(),
                t@,
                at as int,
            ),
        decreases revisions@.len() - i,
    {
        assert(all[i as int] == revisions@[i as int]@);
        let ghost before = found.deep_view();
        let (sha, m) = resolve_commit_sha(repo, revisions[i].as_str(), t, at)?;
        let ghost name = sha@;
        found.push(sha);
        assert(found.deep_view() =~= before.push(name));
        at = m;
        i += 1;
    }
    Ok((found, at))
}

/// The tags from `i` on have names that Git accepts.
pub open spec fn validate_tags_flow(
    repo: Text,
    tags: Seq<Text>,
    i: int,
    t: Seq<Reply>,
    n: int,
) -> FlowView<()>
    decreases tags.len() - i,
{
    if i < 0 || i >= tags.len() {
        FlowView::Got((), n)
    } else {
        validate_tag_name_flow(repo, tags[i], t, n).and_then(
            |_u: (), n: int| validate_tags_flow(repo, tags, i + 1, t, n),
        )
    }
}

fn validate_tags(repo: &str, tags: &Vec<String>, t: &Vec<Reply>, n: usize) -> (r: Flow<()>)
    ensures
        flow(r) == validate_tags_flow(repo@, tags.deep_view(), 0, t@, n as int),
{
    let ghost all = tags.deep_view();
    let mut at: usize = n;
    let mut i: usize = 0;
    while i < tags.len()
        invariant
            all == tags.deep_view(),
            all.len() == tags@.len(),
            i <= tags@.len(),
            validate_tags_flow(repo@, all, 0, t@, n as int) == validate_tags_flow(
                repo@,
                all,
                i as int,
                t@,
                at as int,
            ),
        decreases tags@.len() - i,
    {
        assert(all[i as int] == tags@[i as int]@);
        let (_, m) = validate_tag_name(repo, tags[i].as_str(), t, at)?;
        at = m;
        i += 1;
    }
    Ok(((), at))
}

// ---------------------------------------------------------------------------
// What is published
// ---------------------------------------------------------------------------
/// The commits from `i` on that references of the remote contain, after those
/// in `found`.
pub open spec fn published_commits_flow(
    repo: Text,
    remote: Text,
    commits: Seq<Text>,
    i: int,
    found: Seq<PublishedCommitView>,
    t: Seq<Reply>,
    n: int,
) -> FlowView<Seq<PublishedCommitView>>
    decreases commits.len() - i,
{
    if i < 0 || i >= commits.len() {
        FlowView::Got(found, n)
    } else {
        git_flow(repo, Command::RemoteRefsOf { remote, commit: commits[i] }, t, n).and_then(
            |o: OutputView, n: int|
                published_commits_flow(
                    repo,
                    remote,
                    commits,
                    i + 1,
                    if listing(o.stdout).len() > 0 {
                        found.push(
                            PublishedCommitView { commit: commits[i], refs: listing(o.stdout) },
                        )
                    } else {
                        found
                    },
                    t,
                    n,
                ),
        )
    }
}

fn find_published_commits(
    repo: &str,
    remote: &str,
    commits: &Vec<String>,
    t: &Vec<Reply>,
    n: usize,
) -> (r: Flow<Vec<PublishedCommit>>)
    ensures
        flow(r) == published_commits_flow(
            repo@,
            remote@,
            commits.deep_view(),
            0,
            Seq::empty(),
            t@,
            n as int,
        ),
{
    let ghost all = commits.deep_view();
    let mut found: Vec<PublishedCommit> = Vec::new();
    let mut at: usize = n;
    let mut i: usize = 0;
    assert(found.deep_view() =~= Seq::<PublishedCommitView>::empty());
    while i < commits.len()
        invariant
            all == commits.deep_view(),
            all.len() == commits@.len(),
            i <= commits@.len(),
            published_commits_flow(repo@, remote@, all, 0, Seq::empty(), t@, n as int)
                == published_commits_flow(
                repo@,
                remote@,
                all,
                i as int,
                found.deep_view(),
                t@,
                at as int,
            ),
        decreases commits@.len() - i,
    {
        assert(all[i as int] == commits@[i as int]@);
        let ghost before = found.deep_view();
        let command = Command::RemoteRefsOf {
            remote: remote.to_owned(),
            commit: commits[i].clone(),
        };
        let (output, m) = run_git(repo, command, t, at)?;
        let refs: Vec<String> = listing_of(output.stdout.as_str());
        assert(refs.deep_view().len() == refs@.len());
        if refs.len() > 0 {
            let published = PublishedCommit { commit: commits[i].clone(), refs };
            let ghost seen = published.deep_view();
            found.push(published);
            assert(found.deep_view() =~= before.push(seen));
        }
        at = m;
        i += 1;
    }
    Ok((found, at))
}

/// The tags from `i` on that the remote has, after those in `found`.
pub open spec fn published_tags_flow(
    repo: Text,
    remote: Text,
    tags: Seq<Text>,
    i: int,
    found: Seq<PublishedTagView>,
    t: Seq<Reply>,
    n: int,
) -> FlowView<Seq<PublishedTagView>>
    decreases tags.len() - i,
{
    if i < 0 || i >= tags.len() {
        FlowView::Got(found, n)
    } else {
        git_flow(repo, Command::RemoteTag { remote, tag: tags[i] }, t, n).and_then(
            |o: OutputView, n: int|
                published_tags_flow(
                    repo,
                    remote,
                    tags,
                    i + 1,
                    if listing(o.stdout).len() > 0 {
                        found.push(
                            PublishedTagView { tag: tags[i], remote_lines: listing(o.stdout) },
                        )
                    } else {
                        found
                    },
                    t,
                    n,
                ),
        )
    }
}

fn find_published_tags(
    repo: &str,
    remote: &str,
    tags: &Vec<String>,
    t: &Vec<Reply>,
    n: usize,
) -> (r: Flow<Vec<PublishedTag>>)
    ensures
        flow(r) == published_tags_flow(
            repo@,
            remote@,
            tags.deep_view(),
            0,
            Seq::empty(),
            t@,
            n as int,
        ),
{
    let ghost all = tags.deep_view();
    let mut found: Vec<PublishedTag> = Vec::new();
    let mut at: usize = n;
    let mut i: usize = 0;
    assert(found.deep_view() =~= Seq::<PublishedTagView>::empty());
    while i < tags.len()
        invariant
            all == tags.deep_view(),
            all.len() == tags@.len(),
            i <= tags@.len(),
            published_tags_flow(repo@, remote@, all, 0, Seq::empty(), t@, n as int)
                == published_tags_flow(
                repo@,
                remote@,
                all,
                i as int,
                found.deep_view(),
                t@,
                at as int,
            ),
        decreases tags@.len() - i,
    {
        assert(all[i as int] == tags@[i as int]@);
        let ghost before = found.deep_view();
        let command = Command::RemoteTag { remote: remote.to_owned(), tag: tags[i].clone() };
        let (output, m) = run_git(repo, command, t, at)?;
        let remote_lines: Vec<String> = listing_of(output.stdout.as_str());
        assert(remote_lines.deep_view().len() == remote_lines@.len());
        if remote_lines.len() > 0 {
            let published = PublishedTag { tag: tags[i].clone(), remote_lines };
            let ghost seen = published.deep_view();
            found.push(published);
            assert(found.deep_view() =~= before.push(seen));
        }
        at = m;
        i += 1;
    }
    Ok((found, at))
}

// ---------------------------------------------------------------------------
// Verification
// ---------------------------------------------------------------------------
/// Whether the server may ask this of a remote.
pub open spec fn publication_verdict(server: GitServer, args: PublicationArgsView) -> Result<
    (),
    Text,
> {
    if writable_verdict(server) is Err {
        writable_verdict(server)
    } else if remote_read_verdict(server) is Err {
        remote_read_verdict(server)
    } else if args.commits.len() == 0 && args.tags.len() == 0 {
        Err("publication verification requires at least one commit or tag"@)
    } else if args.commits.len() > MAX_PUBLICATION_CHECKS || args.tags.len()
        > MAX_PUBLICATION_CHECKS {
        Err("publication verification accepts at most 64 commits and 64 tags"@)
    } else {
        token_verdict("remote"@, chosen_remote(args.remote))
    }
}

/// Fetches from the remote, and looks for the commits and tags there.
pub open spec fn look_up_flow(
    repo: Text,
    remote: Text,
    commits: Seq<Text>,
    tags: Seq<Text>,
    t: Seq<Reply>,
    n: int,
) -> FlowView<VerificationView> {
    git_flow(repo, Command::FetchTags { remote }, t, n).and_then(
        |_o: OutputView, n: int|
            published_commits_flow(repo, remote, commits, 0, Seq::empty(), t, n).and_then(
                |published_commits: Seq<PublishedCommitView>, n: int|
                    published_tags_flow(repo, remote, tags, 0, Seq::empty(), t, n).map(
                        |published_tags: Seq<PublishedTagView>|
                            VerificationView {
                                remote,
                                fetched: true,
                                unpublished: published_commits.len() == 0 && published_tags.len()
                                    == 0,
                                commits_checked: commits,
                                tags_checked: tags,
                                published_commits,
                                published_tags,
                            },
                    ),
            ),
    )
}

/// Which of the commits and tags the remote has.
pub open spec fn verify_unpublished_flow(
    server: GitServer,
    args: PublicationArgsView,
    t: Seq<Reply>,
    n: int,
) -> FlowView<VerificationView> {
    let remote = chosen_remote(args.remote);
    checked(publication_verdict(server, args), n).and_then(
        |_u: (), n: int|
            git_flow(args.repo, Command::RemoteUrl { remote }, t, n).and_then(
                |_o: OutputView, n: int|
                    resolve_all_flow(args.repo, args.commits, 0, Seq::empty(), t, n).and_then(
                        |commits: Seq<Text>, n: int|
                            validate_tags_flow(args.repo, args.tags, 0, t, n).and_then(
                                |_u: (), n: int|
                                    look_up_flow(args.repo, remote, commits, args.tags, t, n),
                            ),
                    ),
            ),
    )
}

impl GitServer {
    fn check_publication_request(&self, args: &VerifyUnpublishedArgs, remote: &str) -> (r: Result<
        (),
        String,
    >)
        requires
            remote@ == chosen_remote(args.remote.deep_view()),
        ensures
            crate::policy::outcome(r) == publication_verdict(*self, args.deep_view()),
    {
        assert(args.commits.deep_view().len() == args.commits@.len());
        assert(args.tags.deep_view().len() == args.tags@.len());
        self.ensure_writable()?;
        self.ensure_remote_read()?;
        if args.commits.len() == 0 && args.tags.len() == 0 {
            return Err(
                "publication verification requires at least one commit or tag".to_owned(),
            );
        }
        if args.commits.len() > MAX_PUBLICATION_CHECKS || args.tags.len()
            > MAX_PUBLICATION_CHECKS {
            return Err(
                "publication verification accepts at most 64 commits and 64 tags".to_owned(),
            );
        }
        validate_token("remote", remote)
    }

    /// Fetches from a remote, and says which of the commits and tags it has.
    pub fn verify_unpublished(&self, args: &VerifyUnpublishedArgs, t: &Vec<Reply>, n: usize) -> (r:
        Flow<PublicationVerification>)
        ensures
            flow(r) == verify_unpublished_flow(*self, args.deep_view(), t@, n as int),
    {
        let repo: &str = args.repo.as_str();
        let remote: String = choose_remote(&args.remote);
        check(self.check_publication_request(args, remote.as_str()), n)?;
        let (_, n) = run_git(repo, Command::RemoteUrl { remote: remote.clone() }, t, n)?;
        let (commits_checked, n) = resolve_all(repo, &args.commits, t, n)?;
        let (_, n) = validate_tags(repo, &args.tags, t, n)?;
        let tags_checked: Vec<String> = clone_texts(&args.tags);
        let (_, n) = run_git(repo, Command::FetchTags { remote: remote.clone() }, t, n)?;
        let (published_commits, n) = find_published_commits(
            repo,
            remote.as_str(),
            &commits_checked,
            t,
            n,
        )?;
        let (published_tags, n) = find_published_tags(
            repo,
            remote.as_str(),
            &tags_checked,
            t,
            n,
        )?;
        assert(published_commits.deep_view().len() == published_commits@.len());
        assert(published_tags.deep_view().len() == published_tags@.len());
        Ok(
            (
                PublicationVerification {
                    remote,
                    fetched: true,
                    unpublished: published_commits.len() == 0 && published_tags.len() == 0,
                    commits_checked,
                    tags_checked,
                    published_commits,
                    published_tags,
                },
                n,
            ),
        )
    }
}

// ---------------------------------------------------------------------------
// Taking back a merge
// ---------------------------------------------------------------------------
/// How sure it has to be that nothing published is taken back.
#[derive(Debug, Clone, Copy, PartialEq, Eq, Structural)]
pub enum PublicationGuard {
    /// The remote is asked.
    VerifyRemote,
    /// The caller vouches for it.
    CallerConfirmedUnpublished,
}

/// The merge that is to be taken back.
#[derive(Debug)]
pub struct RewindMergeArgs {
    pub repo: String,
    pub expected_merge: String,
    pub remote: Option<String>,
    pub publication_guard: PublicationGuard,
}

/// The merge that is to be taken back, as contracts speak of it.
pub struct RewindArgsView {
    pub repo: Text,
    pub expected_merge: Text,
    pub remote: Option<Text>,
    pub publication_guard: PublicationGuard,
}

impl DeepView for RewindMergeArgs {
    type V = RewindArgsView;

    open spec fn deep_view(&self) -> RewindArgsView {
        RewindArgsView {
            repo: self.repo@,
            expected_merge: self.expected_merge@,
            remote: self.remote.deep_view(),
            publication_guard: self.publication_guard,
        }
    }
}

/// A merge that was taken back.
#[derive(Debug)]
pub struct RewindMergeOutput {
    pub operation: String,
    pub branch: String,
    pub old_head: String,
    pub first_parent: String,
    pub new_head: String,
    pub publication_guard: PublicationGuard,
    pub status: String,
}

/// A merge that was taken back, as contracts speak of it.
pub struct RewoundView {
    pub operation: Text,
    pub branch: Text,
    pub old_head: Text,
    pub first_parent: Text,
    pub new_head: Text,
    pub publication_guard: PublicationGuard,
    pub status: Text,
}

impl DeepView for RewindMergeOutput {
    type V = RewoundView;

    open spec fn deep_view(&self) -> RewoundView {
        RewoundView {
            operation: self.operation@,
            branch: self.branch@,
            old_head: self.old_head@,
            first_parent: self.first_parent@,
            new_head: self.new_head@,
            publication_guard: self.publication_guard,
            status: self.status@,
        }
    }
}

/// What is reported where `HEAD` is not the expected merge.
pub open spec fn unexpected_head(head: Text, expected: Text) -> Text {
    "rewind blocked: HEAD is "@ + head + ", expected merge is "@ + expected
}

/// The branch, and the merge commit at `head`, where it is the expected one
/// and nothing is changed locally.
pub open spec fn rewindable_flow(args: RewindArgsView, head: Text, t: Seq<Reply>, n: int) -> FlowView<
    (Text, SnapshotView),
> {
    resolve_commit_flow(args.repo, args.expected_merge, t, n).and_then(
        |expected: Text, n: int|
            unless(head != expected, unexpected_head(head, expected), n).and_then(
                |_u: (), n: int|
                    is_dirty_flow(args.repo, t, n).and_then(
                        |dirty: bool, n: int|
                            unless(
                                dirty,
                                "rewind requires a clean working tree and index"@,
                                n,
                            ).and_then(
                                |_u: (), n: int|
                                    current_branch_required_flow(args.repo, t, n).and_then(
                                        |branch: Text, n: int|
                                            commit_snapshot_flow(args.repo, expected, t, n).and_then(
                                                |snapshot: SnapshotView, n: int|
                                                    unless(
                                                        snapshot.parents.len() != 2,
                                                        "rewind requires HEAD to be a two-parent merge commit"@,
                                                        n,
                                                    ).map(|_u: ()| (branch, snapshot)),
                                            ),
                                    ),
                            ),
                    ),
            ),
    )
}

fn ensure_rewindable(args: &RewindMergeArgs, head: &str, t: &Vec<Reply>, n: usize) -> (r: Flow<
    (String, crate::snapshot::CommitSnapshot),
>)
    ensures
        flow(r) == rewindable_flow(args.deep_view(), head@, t@, n as int),
{
    let repo: &str = args.repo.as_str();
    let (expected, n) = resolve_commit_sha(repo, args.expected_merge.as_str(), t, n)?;
    if !same_text(head, expected.as_str()) {
        let mut error: String = concat3("rewind blocked: HEAD is ", head, ", expected merge is ");
        error.append(expected.as_str());
        return Err(Halt::Fail(error, n));
    }
    let (dirty, n) = is_dirty(repo, t, n)?;
    if dirty {
        return fail("rewind requires a clean working tree and index", n);
    }
    let (branch, n) = current_branch_required(repo, t, n)?;
    let (snapshot, n) = commit_snapshot(repo, expected.as_str(), t, n)?;
    assert(snapshot.parents.deep_view().len() == snapshot.parents@.len());
    if snapshot.parents.len() != 2 {
        return fail("rewind requires HEAD to be a two-parent merge commit", n);
    }
    Ok(((branch, snapshot), n))
}

/// The question whether the merge at `head` is published.
pub open spec fn merge_publication(args: RewindArgsView, head: Text) -> PublicationArgsView {
    PublicationArgsView {
        repo: args.repo,
        remote: args.remote,
        commits: seq![head],
        tags: Seq::empty(),
    }
}

/// The merge at `head` is not published, as far as the guard asks for that,
/// and `HEAD` has not moved meanwhile.
pub open spec fn merge_unpublished_flow(
    server: GitServer,
    args: RewindArgsView,
    head: Text,
    t: Seq<Reply>,
    n: int,
) -> FlowView<()> {
    if args.publication_guard == PublicationGuard::VerifyRemote {
        verify_unpublished_flow(server, merge_publication(args, head), t, n).and_then(
            |found: VerificationView, n: int|
                unless(
                    !found.unpublished,
                    "rewind blocked: merge commit is published on remote "@ + quoted(found.remote),
                    n,
                ).and_then(
                    |_u: (), n: int|
                        head_sha_flow(args.repo, t, n).and_then(
                            |now: Text, n: int|
                                unless(
                                    now != head,
                                    "rewind blocked: HEAD changed while publication state was being verified"@,
                                    n,
                                ),
                        ),
                ),
        )
    } else {
        FlowView::Got((), n)
    }
}

/// Moves the branch back to the first parent of the merge, and makes sure of
/// the outcome.
pub open spec fn rewind_to_flow(repo: Text, first_parent: Text, t: Seq<Reply>, n: int) -> FlowView<
    (Text, Text),
> {
    git_flow(repo, Command::ResetKeep { target: first_parent }, t, n).and_then(
        |_o: OutputView, n: int|
            head_sha_flow(repo, t, n).and_then(
                |new_head: Text, n: int|
                    unless(
                        new_head != first_parent,
                        "rewind failed integrity check: HEAD did not move to merge first parent"@,
                        n,
                    ).and_then(
                        |_u: (), n: int|
                            is_dirty_flow(repo, t, n).and_then(
                                |dirty: bool, n: int|
                                    unless(
                                        dirty,
                                        "rewind failed integrity check: working tree is not clean after reset --keep"@,
                                        n,
                                    ).and_then(
                                        |_u: (), n: int|
                                            short_status_flow(repo, t, n).map(
                                                |status: Text| (new_head, status),
                                            ),
                                    ),
                            ),
                    ),
            ),
    )
}

fn rewind_to(repo: &str, first_parent: &str, t: &Vec<Reply>, n: usize) -> (r: Flow<
    (String, String),
>)
    ensures
        flow(r) == rewind_to_flow(repo@, first_parent@, t@, n as int),
{
    let (_, n) = run_git(repo, Command::ResetKeep { target: first_parent.to_owned() }, t, n)?;
    let (new_head, n) = head_sha(repo, t, n)?;
    if !same_text(new_head.as_str(), first_parent) {
        return fail(
            "rewind failed integrity check: HEAD did not move to merge first parent",
            n,
        );
    }
    let (dirty, n) = is_dirty(repo, t, n)?;
    if dirty {
        return fail(
            "rewind failed integrity check: working tree is not clean after reset --keep",
            n,
        );
    }
    let (status, n) = short_status(repo, t, n)?;
    Ok(((new_head, status), n))
}

/// Takes back the merge at `head`.
pub open spec fn rewind_from_flow(
    server: GitServer,
    args: RewindArgsView,
    head: Text,
    t: Seq<Reply>,
    n: int,
) -> FlowView<RewoundView> {
    rewindable_flow(args, head, t, n).and_then(
        |found: (Text, SnapshotView), n: int|
            merge_unpublished_flow(server, args, head, t, n).and_then(
                |_u: (), n: int|
                    rewind_to_flow(args.repo, found.1.parents[0], t, n).map(
                        |end: (Text, Text)|
                            RewoundView {
                                operation: "rewind_merge"@,
                                branch: found.0,
                                old_head: head,
                                first_parent: found.1.parents[0],
                                new_head: end.0,
                                publication_guard: args.publication_guard,
                                status: end.1,
                            },
                    ),
            ),
    )
}

/// Takes back the merge at `HEAD`.
pub open spec fn rewind_flow(server: GitServer, args: RewindArgsView, t: Seq<Reply>, n: int) -> FlowView<
    RewriteOutcome<RewoundView, RewriteFailureView>,
> {
    rewrite_flow(
        server,
        "rewind_merge"@,
        args.repo,
        |head: Text, n: int| rewind_from_flow(server, args, head, t, n),
        t,
        n,
    )
}

impl GitServer {
    fn ensure_merge_unpublished(
        &self,
        args: &RewindMergeArgs,
        head: &str,
        t: &Vec<Reply>,
        n: usize,
    ) -> (r: Flow<()>)
        ensures
            flow(r) == merge_unpublished_flow(*self, args.deep_view(), head@, t@, n as int),
    {
        if args.publication_guard != PublicationGuard::VerifyRemote {
            return Ok(((), n));
        }
        let commits: Vec<String> = vec![head.to_owned()];
        assert(commits.deep_view() =~= seq![head@]);
        let tags: Vec<String> = Vec::new();
        assert(tags.deep_view() =~= Seq::<Text>::empty());
        let question = VerifyUnpublishedArgs {
            repo: args.repo.clone(),
            remote: clone_optional(&args.remote),
            commits,
            tags,
        };
        let (found, n) = self.verify_unpublished(&question, t, n)?;
        if !found.unpublished {
            let name: String = quote(found.remote.as_str());
            return Err(
                Halt::Fail(
                    concat("rewind blocked: merge commit is published on remote ", name.as_str()),
                    n,
                ),
            );
        }
        let (now, n) = head_sha(args.repo.as_str(), t, n)?;
        if !same_text(now.as_str(), head) {
            return fail(
                "rewind blocked: HEAD changed while publication state was being verified",
                n,
            );
        }
        Ok(((), n))
    }

    fn rewind_from(&self, args: &RewindMergeArgs, head: &str, t: &Vec<Reply>, n: usize) -> (r: Flow<
        RewindMergeOutput,
    >)
        ensures
            flow(r) == rewind_from_flow(*self, args.deep_view(), head@, t@, n as int),
    {
        let ((branch, snapshot), n) = ensure_rewindable(args, head, t, n)?;
        assert(snapshot.parents.deep_view().len() == snapshot.parents@.len());
        assert(snapshot.parents.deep_view()[0] == snapshot.parents@[0]@);
        let (_, n) = self.ensure_merge_unpublished(args, head, t, n)?;
        let first_parent: String = snapshot.parents[0].clone();
        let ((new_head, status), n) = rewind_to(args.repo.as_str(), first_parent.as_str(), t, n)?;
        Ok(
            (
                RewindMergeOutput {
                    operation: "rewind_merge".to_owned(),
                    branch,
                    old_head: head.to_owned(),
                    first_parent,
                    new_head,
                    publication_guard: args.publication_guard,
                    status,
                },
                n,
            ),
        )
    }

    /// Moves the current branch from an expected, unpublished merge commit
    /// back to the first parent of that merge.
    pub fn rewind_merge(&self, args: &RewindMergeArgs, t: &Vec<Reply>, n: usize) -> (r: Flow<
        RewriteOutcome<RewindMergeOutput, RewriteFailure>,
    >)
        ensures
            flow(r) == rewind_flow(*self, args.deep_view(), t@, n as int),
    {
        match start(self, "rewind_merge", args.repo.as_str(), t, n)? {
            Start::Refused(failure, n) => Ok((RewriteOutcome::Failed(failure), n)),
            Start::At(head, n) => {
                let result = self.rewind_from(args, head.as_str(), t, n);
                report(result, "rewind_merge", args.repo.as_str(), head.as_str(), t)
            },
        }
    }
}

} // verus!
