//! The Git commands that may be run. There is no way to ask for any other.
use crate::text::{concat, concat3, decimal, decimal_of, clone_texts, Text};
use vstd::prelude::*;

verus! {

/// A Git command over texts `S` and lists of texts `L`.
#[derive(Debug)]
#[allow(inconsistent_fields)]
pub enum Command<S, L> {
    /// Is `refs/tags/<name>` a well-formed reference name?
    CheckTagName { name: S },
    /// Is `branch` a well-formed branch name?
    CheckBranchName { branch: S },
    /// Does the local branch exist?
    ShowBranchRef { branch: S },
    /// Does the tag exist?
    ShowTagRef { name: S },
    /// The commit that a revision names.
    ResolveCommit { revision: S },
    /// The branch that `HEAD` is attached to.
    CurrentBranch,
    /// The commit at `HEAD`.
    HeadCommit,
    /// The tree of a revision.
    ResolveTree { revision: S },
    /// The short status with its branch line.
    ShortStatus,
    /// The machine-readable status.
    PorcelainStatus,
    /// The commit that is being merged.
    MergeHead,
    /// The best common ancestor of `HEAD` and `base`.
    MergeBase { base: S },
    /// The upstream of the current branch.
    Upstream,
    /// Is one commit reachable from another?
    IsAncestor { ancestor: S, descendant: S },
    /// The remote-tracking references that contain a commit.
    RemoteRefsContaining { commit: S },
    /// The references of one remote that contain a commit.
    RemoteRefsOf { remote: S, commit: S },
    /// The commits of `base..HEAD`, oldest first.
    History { base: S },
    /// The metadata of one commit.
    CommitMetadata { commit: S },
    /// Writes a commit object.
    CommitTree {
        tree: S,
        parent: S,
        message: S,
        author_name: S,
        author_email: S,
        author_date: S,
        committer_name: S,
        committer_email: S,
        committer_date: S,
    },
    /// Moves a reference from `old` to `new`, if it still is at `old`.
    UpdateRef { reference: S, new: S, old: S },
    /// Writes the index as a tree object.
    WriteTree,
    /// Switches to a branch.
    Switch { branch: S },
    /// Creates a branch and switches to it.
    SwitchCreate { branch: S, start_point: Option<S> },
    /// Creates a branch.
    CreateBranch { branch: S, start_point: Option<S> },
    /// Merges `source` with a merge commit, always.
    Merge { message: S, source: S },
    /// Deletes a merged branch.
    DeleteBranch { branch: S },
    /// The address of a remote.
    RemoteUrl { remote: S },
    /// Fetches and prunes, with the tags.
    FetchTags { remote: S },
    /// The tag as the remote has it.
    RemoteTag { remote: S, tag: S },
    /// Moves the current branch, keeping local changes.
    ResetKeep { target: S },
    /// The object that a tag reference holds.
    TagObject { name: S },
    /// Creates an annotated tag.
    AnnotatedTag { name: S, target: Option<S>, message: S },
    /// Creates a lightweight tag.
    LightweightTag { name: S },
    /// Deletes a tag.
    DeleteTag { name: S },
    /// The changes of the working tree or of the index.
    Diff { staged: bool, path: Option<S> },
    /// The most recent commits.
    Log { count: u16 },
    /// One revision.
    Show { revision: S, stat_only: bool },
    /// The local branches.
    ListBranches,
    /// Stages paths.
    Stage { paths: L },
    /// Takes paths out of the index.
    Unstage { paths: L },
    /// Discards working-tree changes.
    RestoreWorktree { paths: L },
    /// Commits the index.
    Commit { message: S },
    /// Fetches and prunes.
    Fetch { remote: S },
    /// Pulls, fast-forward only.
    Pull { remote: S, branch: Option<S> },
    /// Pushes without force.
    Push { remote: S, refspec: Option<S> },
}

/// A Git command as it is run.
pub type GitCommand = Command<String, Vec<String>>;

/// A Git command as contracts speak of it.
pub type CommandView = Command<Text, Seq<Text>>;

impl DeepView for Command<String, Vec<String>> {
    type V = Command<Text, Seq<Text>>;

    open spec fn deep_view(&self) -> CommandView {
        match self {
            Command::CheckTagName { name } => Command::CheckTagName { name: name@ },
            Command::CheckBranchName { branch } => Command::CheckBranchName { branch: branch@ },
            Command::ShowBranchRef { branch } => Command::ShowBranchRef { branch: branch@ },
            Command::ShowTagRef { name } => Command::ShowTagRef { name: name@ },
            Command::ResolveCommit { revision } => Command::ResolveCommit { revision: revision@ },
            Command::CurrentBranch => Command::CurrentBranch,
            Command::HeadCommit => Command::HeadCommit,
            Command::ResolveTree { revision } => Command::ResolveTree { revision: revision@ },
            Command::ShortStatus => Command::ShortStatus,
            Command::PorcelainStatus => Command::PorcelainStatus,
            Command::MergeHead => Command::MergeHead,
            Command::MergeBase { base } => Command::MergeBase { base: base@ },
            Command::Upstream => Command::Upstream,
            Command::IsAncestor { ancestor, descendant } => Command::IsAncestor {
                ancestor: ancestor@,
                descendant: descendant@,
            },
            Command::RemoteRefsContaining { commit } => Command::RemoteRefsContaining {
                commit: commit@,
            },
            Command::RemoteRefsOf { remote, commit } => Command::RemoteRefsOf {
                remote: remote@,
                commit: commit@,
            },
            Command::History { base } => Command::History { base: base@ },
            Command::CommitMetadata { commit } => Command::CommitMetadata { commit: commit@ },
            Command::CommitTree {
                tree,
                parent,
                message,
                author_name,
                author_email,
                author_date,
                committer_name,
                committer_email,
                committer_date,
            } => Command::CommitTree {
                tree: tree@,
                parent: parent@,
                message: message@,
                author_name: author_name@,
                author_email: author_email@,
                author_date: author_date@,
                committer_name: committer_name@,
                committer_email: committer_email@,
                committer_date: committer_date@,
            },
            Command::UpdateRef { reference, new, old } => Command::UpdateRef {
                reference: reference@,
                new: new@,
                old: old@,
            },
            Command::WriteTree => Command::WriteTree,
            Command::Switch { branch } => Command::Switch { branch: branch@ },
            Command::SwitchCreate { branch, start_point } => Command::SwitchCreate {
                branch: branch@,
                start_point: start_point.deep_view(),
            },
            Command::CreateBranch { branch, start_point } => Command::CreateBranch {
                branch: branch@,
                start_point: start_point.deep_view(),
            },
            Command::Merge { message, source } => Command::Merge {
                message: message@,
                source: source@,
            },
            Command::DeleteBranch { branch } => Command::DeleteBranch { branch: branch@ },
            Command::RemoteUrl { remote } => Command::RemoteUrl { remote: remote@ },
            Command::FetchTags { remote } => Command::FetchTags { remote: remote@ },
            Command::RemoteTag { remote, tag } => Command::RemoteTag { remote: remote@, tag: tag@ },
            Command::ResetKeep { target } => Command::ResetKeep { target: target@ },
            Command::TagObject { name } => Command::TagObject { name: name@ },
            Command::AnnotatedTag { name, target, message } => Command::AnnotatedTag {
                name: name@,
                target: target.deep_view(),
                message: message@,
            },
            Command::LightweightTag { name } => Command::LightweightTag { name: name@ },
            Command::DeleteTag { name } => Command::DeleteTag { name: name@ },
            Command::Diff { staged, path } => Command::Diff {
                staged: *staged,
                path: path.deep_view(),
            },
            Command::Log { count } => Command::Log { count: *count },
            Command::Show { revision, stat_only } => Command::Show {
                revision: revision@,
                stat_only: *stat_only,
            },
            Command::ListBranches => Command::ListBranches,
            Command::Stage { paths } => Command::Stage { paths: paths.deep_view() },
            Command::Unstage { paths } => Command::Unstage { paths: paths.deep_view() },
            Command::RestoreWorktree { paths } => Command::RestoreWorktree {
                paths: paths.deep_view(),
            },
            Command::Commit { message } => Command::Commit { message: message@ },
            Command::Fetch { remote } => Command::Fetch { remote: remote@ },
            Command::Pull { remote, branch } => Command::Pull {
                remote: remote@,
                branch: branch.deep_view(),
            },
            Command::Push { remote, refspec } => Command::Push {
                remote: remote@,
                refspec: refspec.deep_view(),
            },
        }
    }
}

/// `list` followed by `extra`, if there is one.
pub open spec fn with_optional(list: Seq<Text>, extra: Option<Text>) -> Seq<Text> {
    match extra {
        Some(x) => list.push(x),
        None => list,
    }
}

impl Command<Text, Seq<Text>> {
    /// The arguments with which Git is run.
    pub open spec fn arguments(self) -> Seq<Text> {
        match self {
            Command::CheckTagName { name } => seq!["check-ref-format"@, "refs/tags/"@ + name],
            Command::CheckBranchName { branch } => seq!["check-ref-format"@, "--branch"@, branch],
            Command::ShowBranchRef { branch } => seq![
                "show-ref"@,
                "--verify"@,
                "--quiet"@,
                "refs/heads/"@ + branch,
            ],
            Command::ShowTagRef { name } => seq![
                "show-ref"@,
                "--verify"@,
                "--quiet"@,
                "refs/tags/"@ + name,
            ],
            Command::ResolveCommit { revision } => seq![
                "rev-parse"@,
                "--verify"@,
                "--end-of-options"@,
                revision + "^{commit}"@,
            ],
            Command::CurrentBranch => seq!["symbolic-ref"@, "--quiet"@, "--short"@, "HEAD"@],
            Command::HeadCommit => seq!["rev-parse"@, "--verify"@, "HEAD"@],
            Command::ResolveTree { revision } => seq![
                "rev-parse"@,
                "--verify"@,
                "--end-of-options"@,
                revision + "^{tree}"@,
            ],
            Command::ShortStatus => seq![
                "status"@,
                "--short"@,
                "--branch"@,
                "--untracked-files=all"@,
            ],
            Command::PorcelainStatus => seq![
                "status"@,
                "--porcelain=v1"@,
                "--untracked-files=all"@,
            ],
            Command::MergeHead => seq!["rev-parse"@, "--verify"@, "--quiet"@, "MERGE_HEAD"@],
            Command::MergeBase { base } => seq!["merge-base"@, "HEAD"@, base],
            Command::Upstream => seq![
                "rev-parse"@,
                "--abbrev-ref"@,
                "--symbolic-full-name"@,
                "@{upstream}"@,
            ],
            Command::IsAncestor { ancestor, descendant } => seq![
                "merge-base"@,
                "--is-ancestor"@,
                ancestor,
                descendant,
            ],
            Command::RemoteRefsContaining { commit } => seq![
                "for-each-ref"@,
                "--format=%(refname:short)"@,
                "--contains="@ + commit,
                "refs/remotes"@,
            ],
            Command::RemoteRefsOf { remote, commit } => seq![
                "for-each-ref"@,
                "--format=%(refname:short)"@,
                "--contains="@ + commit,
                "refs/remotes/"@ + remote + "/"@,
            ],
            Command::History { base } => seq![
                "log"@,
                "--reverse"@,
                "--topo-order"@,
                "--date=iso-strict"@,
                "--pretty=format:%H%x1f%P%x1f%an%x1f%ae%x1f%aI%x1f%s"@,
                base + "..HEAD"@,
            ],
            Command::CommitMetadata { commit } => seq![
                "show"@,
                "-s"@,
                "--no-patch"@,
                "--format=%T%x1f%P%x1f%an%x1f%ae%x1f%aI%x1f%cn%x1f%ce%x1f%cI%x1f%B"@,
                "--end-of-options"@,
                commit,
            ],
            Command::CommitTree { tree, parent, message, .. } => seq![
                "commit-tree"@,
                tree,
                "-p"@,
                parent,
                "-m"@,
                message,
            ],
            Command::UpdateRef { reference, new, old } => seq!["update-ref"@, reference, new, old],
            Command::WriteTree => seq!["write-tree"@],
            Command::Switch { branch } => seq!["switch"@, "--"@, branch],
            Command::SwitchCreate { branch, start_point } => with_optional(
                seq!["switch"@, "-c"@, branch],
                start_point,
            ),
            Command::CreateBranch { branch, start_point } => with_optional(
                seq!["branch"@, branch],
                start_point,
            ),
            Command::Merge { message, source } => seq![
                "merge"@,
                "--no-ff"@,
                "-m"@,
                message,
                "--"@,
                source,
            ],
            Command::DeleteBranch { branch } => seq!["branch"@, "-d"@, "--"@, branch],
            Command::RemoteUrl { remote } => seq!["remote"@, "get-url"@, "--"@, remote],
            Command::FetchTags { remote } => seq!["fetch"@, "--prune"@, "--tags"@, "--"@, remote],
            Command::RemoteTag { remote, tag } => seq![
                "ls-remote"@,
                "--tags"@,
                "--refs"@,
                remote,
                "refs/tags/"@ + tag,
            ],
            Command::ResetKeep { target } => seq!["reset"@, "--keep"@, target],
            Command::TagObject { name } => seq![
                "rev-parse"@,
                "--verify"@,
                "--end-of-options"@,
                "refs/tags/"@ + name,
            ],
            Command::AnnotatedTag { name, target, message } => with_optional(
                seq!["tag"@, "-a"@, name],
                target,
            ).push("-m"@).push(message),
            Command::LightweightTag { name } => seq!["tag"@, name],
            Command::DeleteTag { name } => seq!["tag"@, "-d"@, "--"@, name],
            Command::Diff { staged, path } => with_optional(
                (if staged {
                    seq!["diff"@, "--no-ext-diff"@, "--no-textconv"@, "--cached"@]
                } else {
                    seq!["diff"@, "--no-ext-diff"@, "--no-textconv"@]
                }).push("--"@),
                path,
            ),
            Command::Log { count } => seq![
                "log"@,
                "--date=iso-strict"@,
                "--pretty=format:%H%x09%an%x09%ad%x09%s"@,
                "-n"@,
                decimal(count as nat),
            ],
            Command::Show { revision, stat_only } => seq![
                "show"@,
                "--no-ext-diff"@,
                "--no-textconv"@,
                "--format=fuller"@,
                if stat_only {
                    "--stat"@
                } else {
                    "--patch"@
                },
                revision,
                "--"@,
            ],
            Command::ListBranches => seq!["branch"@, "--list"@, "--verbose"@, "--no-abbrev"@],
            Command::Stage { paths } => seq!["add"@, "--"@] + paths,
            Command::Unstage { paths } => seq!["restore"@, "--staged"@, "--"@] + paths,
            Command::RestoreWorktree { paths } => seq!["restore"@, "--worktree"@, "--"@] + paths,
            Command::Commit { message } => seq!["commit"@, "-m"@, message],
            Command::Fetch { remote } => seq!["fetch"@, "--prune"@, "--"@, remote],
            Command::Pull { remote, branch } => with_optional(
                seq!["pull"@, "--ff-only"@, "--"@, remote],
                branch,
            ),
            Command::Push { remote, refspec } => with_optional(
                seq!["push"@, "--"@, remote],
                refspec,
            ),
        }
    }

    /// The environment variables that are set for the command alone.
    pub open spec fn variables(self) -> Seq<(Text, Text)> {
        match self {
            Command::CommitTree {
                author_name,
                author_email,
                author_date,
                committer_name,
                committer_email,
                committer_date,
                ..
            } => seq![
                ("GIT_AUTHOR_NAME"@, author_name),
                ("GIT_AUTHOR_EMAIL"@, author_email),
                ("GIT_AUTHOR_DATE"@, author_date),
                ("GIT_COMMITTER_NAME"@, committer_name),
                ("GIT_COMMITTER_EMAIL"@, committer_email),
                ("GIT_COMMITTER_DATE"@, committer_date),
            ],
            _ => Seq::empty(),
        }
    }

    /// The command changes the repository: its objects, references, index or
    /// working tree.
    pub open spec fn writes_repository(self) -> bool {
        match self {
            Command::CommitTree { .. } | Command::UpdateRef { .. } | Command::WriteTree
            | Command::Switch { .. } | Command::SwitchCreate { .. } | Command::CreateBranch { .. }
            | Command::Merge { .. } | Command::DeleteBranch { .. } | Command::FetchTags { .. }
            | Command::ResetKeep { .. } | Command::AnnotatedTag { .. }
            | Command::LightweightTag { .. } | Command::DeleteTag { .. } | Command::Stage { .. }
            | Command::Unstage { .. } | Command::RestoreWorktree { .. } | Command::Commit { .. }
            | Command::Fetch { .. } | Command::Pull { .. } => true,
            _ => false,
        }
    }

    /// The command reads from a remote repository.
    pub open spec fn reads_remote(self) -> bool {
        match self {
            Command::FetchTags { .. } | Command::RemoteTag { .. } | Command::Fetch { .. }
            | Command::Pull { .. } => true,
            _ => false,
        }
    }

    /// The command publishes to a remote repository.
    pub open spec fn writes_remote(self) -> bool {
        self is Push
    }

    /// The command neither changes the repository nor contacts a remote.
    pub open spec fn only_inspects(self) -> bool {
        !self.writes_repository() && !self.reads_remote() && !self.writes_remote()
    }
}

fn push_optional(list: Vec<String>, extra: &Option<String>) -> (r: Vec<String>)
    ensures
        r.deep_view() == with_optional(list.deep_view(), extra.deep_view()),
{
    let mut r: Vec<String> = list;
    let ghost before = r.deep_view();
    if let Some(x) = extra {
        r.push(x.clone());
        assert(r.deep_view() =~= before.push(x@));
    }
    r
}

fn followed_by(list: Vec<String>, more: &Vec<String>) -> (r: Vec<String>)
    ensures
        r.deep_view() == list.deep_view() + more.deep_view(),
{
    let mut r: Vec<String> = list;
    let mut tail: Vec<String> = clone_texts(more);
    let ghost a = r.deep_view();
    let ghost b = tail.deep_view();
    r.append(&mut tail);
    assert(r.deep_view() =~= a + b);
    r
}

impl Command<String, Vec<String>> {
    /// The arguments with which Git is run.
    pub fn to_arguments(&self) -> (r: Vec<String>)
        ensures
            r.deep_view() == self.deep_view().arguments(),
    {
        let ghost expected = self.deep_view().arguments();
        match self {
            Command::CheckTagName { name } => {
                let r: Vec<String> = vec![
                    "check-ref-format".to_owned(),
                    concat("refs/tags/", name.as_str()),
                ];
                assert(r.deep_view() =~= expected);
                r
            },
            Command::CheckBranchName { branch } => {
                let r: Vec<String> = vec![
                    "check-ref-format".to_owned(),
                    "--branch".to_owned(),
                    branch.clone(),
                ];
                assert(r.deep_view() =~= expected);
                r
            },
            Command::ShowBranchRef { branch } => {
                let r: Vec<String> = vec![
                    "show-ref".to_owned(),
                    "--verify".to_owned(),
                    "--quiet".to_owned(),
                    concat("refs/heads/", branch.as_str()),
                ];
                assert(r.deep_view() =~= expected);
                r
            },
            Command::ShowTagRef { name } => {
                let r: Vec<String> = vec![
                    "show-ref".to_owned(),
                    "--verify".to_owned(),
                    "--quiet".to_owned(),
                    concat("refs/tags/", name.as_str()),
                ];
                assert(r.deep_view() =~= expected);
                r
            },
            Command::ResolveCommit { revision } => {
                let r: Vec<String> = vec![
                    "rev-parse".to_owned(),
                    "--verify".to_owned(),
                    "--end-of-options".to_owned(),
                    concat(revision.as_str(), "^{commit}"),
                ];
                assert(r.deep_view() =~= expected);
                r
            },
            Command::CurrentBranch => {
                let r: Vec<String> = vec![
                    "symbolic-ref".to_owned(),
                    "--quiet".to_owned(),
                    "--short".to_owned(),
                    "HEAD".to_owned(),
                ];
                assert(r.deep_view() =~= expected);
                r
            },
            Command::HeadCommit => {
                let r: Vec<String> = vec![
                    "rev-parse".to_owned(),
                    "--verify".to_owned(),
                    "HEAD".to_owned(),
                ];
                assert(r.deep_view() =~= expected);
                r
            },
            Command::ResolveTree { revision } => {
                let r: Vec<String> = vec![
                    "rev-parse".to_owned(),
                    "--verify".to_owned(),
                    "--end-of-options".to_owned(),
                    concat(revision.as_str(), "^{tree}"),
                ];
                assert(r.deep_view() =~= expected);
                r
            },
            Command::ShortStatus => {
                let r: Vec<String> = vec![
                    "status".to_owned(),
                    "--short".to_owned(),
                    "--branch".to_owned(),
                    "--untracked-files=all".to_owned(),
                ];
                assert(r.deep_view() =~= expected);
                r
            },
            Command::PorcelainStatus => {
                let r: Vec<String> = vec![
                    "status".to_owned(),
                    "--porcelain=v1".to_owned(),
                    "--untracked-files=all".to_owned(),
                ];
                assert(r.deep_view() =~= expected);
                r
            },
            Command::MergeHead => {
                let r: Vec<String> = vec![
                    "rev-parse".to_owned(),
                    "--verify".to_owned(),
                    "--quiet".to_owned(),
                    "MERGE_HEAD".to_owned(),
                ];
                assert(r.deep_view() =~= expected);
                r
            },
            Command::MergeBase { base } => {
                let r: Vec<String> = vec!["merge-base".to_owned(), "HEAD".to_owned(), base.clone()];
                assert(r.deep_view() =~= expected);
                r
            },
            Command::Upstream => {
                let r: Vec<String> = vec![
                    "rev-parse".to_owned(),
                    "--abbrev-ref".to_owned(),
                    "--symbolic-full-name".to_owned(),
                    "@{upstream}".to_owned(),
                ];
                assert(r.deep_view() =~= expected);
                r
            },
            Command::IsAncestor { ancestor, descendant } => {
                let r: Vec<String> = vec![
                    "merge-base".to_owned(),
                    "--is-ancestor".to_owned(),
                    ancestor.clone(),
                    descendant.clone(),
                ];
                assert(r.deep_view() =~= expected);
                r
            },
            Command::RemoteRefsContaining { commit } => {
                let r: Vec<String> = vec![
                    "for-each-ref".to_owned(),
                    "--format=%(refname:short)".to_owned(),
                    concat("--contains=", commit.as_str()),
                    "refs/remotes".to_owned(),
                ];
                assert(r.deep_view() =~= expected);
                r
            },
            Command::RemoteRefsOf { remote, commit } => {
                let r: Vec<String> = vec![
                    "for-each-ref".to_owned(),
                    "--format=%(refname:short)".to_owned(),
                    concat("--contains=", commit.as_str()),
                    concat3("refs/remotes/", remote.as_str(), "/"),
                ];
                assert(r.deep_view() =~= expected);
                r
            },
            Command::History { base } => {
                let r: Vec<String> = vec![
                    "log".to_owned(),
                    "--reverse".to_owned(),
                    "--topo-order".to_owned(),
                    "--date=iso-strict".to_owned(),
                    "--pretty=format:%H%x1f%P%x1f%an%x1f%ae%x1f%aI%x1f%s".to_owned(),
                    concat(base.as_str(), "..HEAD"),
                ];
                assert(r.deep_view() =~= expected);
                r
            },
            Command::CommitMetadata { commit } => {
                let r: Vec<String> = vec![
                    "show".to_owned(),
                    "-s".to_owned(),
                    "--no-patch".to_owned(),
                    "--format=%T%x1f%P%x1f%an%x1f%ae%x1f%aI%x1f%cn%x1f%ce%x1f%cI%x1f%B".to_owned(),
                    "--end-of-options".to_owned(),
                    commit.clone(),
                ];
                assert(r.deep_view() =~= expected);
                r
            },
            Command::CommitTree { tree, parent, message, .. } => {
                let r: Vec<String> = vec![
                    "commit-tree".to_owned(),
                    tree.clone(),
                    "-p".to_owned(),
                    parent.clone(),
                    "-m".to_owned(),
                    message.clone(),
                ];
                assert(r.deep_view() =~= expected);
                r
            },
            Command::UpdateRef { reference, new, old } => {
                let r: Vec<String> = vec![
                    "update-ref".to_owned(),
                    reference.clone(),
                    new.clone(),
                    old.clone(),
                ];
                assert(r.deep_view() =~= expected);
                r
            },
            Command::WriteTree => {
                let r: Vec<String> = vec!["write-tree".to_owned()];
                assert(r.deep_view() =~= expected);
                r
            },
            Command::Switch { branch } => {
                let r: Vec<String> = vec!["switch".to_owned(), "--".to_owned(), branch.clone()];
                assert(r.deep_view() =~= expected);
                r
            },
            Command::SwitchCreate { branch, start_point } => {
                let r: Vec<String> = vec!["switch".to_owned(), "-c".to_owned(), branch.clone()];
                assert(r.deep_view() =~= seq!["switch"@, "-c"@, branch@]);
                push_optional(r, start_point)
            },
            Command::CreateBranch { branch, start_point } => {
                let r: Vec<String> = vec!["branch".to_owned(), branch.clone()];
                assert(r.deep_view() =~= seq!["branch"@, branch@]);
                push_optional(r, start_point)
            },
            Command::Merge { message, source } => {
                let r: Vec<String> = vec![
                    "merge".to_owned(),
                    "--no-ff".to_owned(),
                    "-m".to_owned(),
                    message.clone(),
                    "--".to_owned(),
                    source.clone(),
                ];
                assert(r.deep_view() =~= expected);
                r
            },
            Command::DeleteBranch { branch } => {
                let r: Vec<String> = vec![
                    "branch".to_owned(),
                    "-d".to_owned(),
                    "--".to_owned(),
                    branch.clone(),
                ];
                assert(r.deep_view() =~= expected);
                r
            },
            _ => self.to_more_arguments(),
        }
    }

    /// The arguments of the commands that concern remotes, tags, views and the
    /// index.
    fn to_more_arguments(&self) -> (r: Vec<String>)
        requires
            !(self is CheckTagName || self is CheckBranchName || self is ShowBranchRef
                || self is ShowTagRef || self is ResolveCommit || self is CurrentBranch
                || self is HeadCommit || self is ResolveTree || self is ShortStatus
                || self is PorcelainStatus || self is MergeHead || self is MergeBase
                || self is Upstream || self is IsAncestor || self is RemoteRefsContaining
                || self is RemoteRefsOf || self is History || self is CommitMetadata
                || self is CommitTree || self is UpdateRef || self is WriteTree || self is Switch
                || self is SwitchCreate || self is CreateBranch || self is Merge
                || self is DeleteBranch),
        ensures
            r.deep_view() == self.deep_view().arguments(),
    {
        let ghost expected = self.deep_view().arguments();
        match self {
            Command::RemoteUrl { remote } => {
                let r: Vec<String> = vec![
                    "remote".to_owned(),
                    "get-url".to_owned(),
                    "--".to_owned(),
                    remote.clone(),
                ];
                assert(r.deep_view() =~= expected);
                r
            },
            Command::FetchTags { remote } => {
                let r: Vec<String> = vec![
                    "fetch".to_owned(),
                    "--prune".to_owned(),
                    "--tags".to_owned(),
                    "--".to_owned(),
                    remote.clone(),
                ];
                assert(r.deep_view() =~= expected);
                r
            },
            Command::RemoteTag { remote, tag } => {
                let r: Vec<String> = vec![
                    "ls-remote".to_owned(),
                    "--tags".to_owned(),
                    "--refs".to_owned(),
                    remote.clone(),
                    concat("refs/tags/", tag.as_str()),
                ];
                assert(r.deep_view() =~= expected);
                r
            },
            Command::ResetKeep { target } => {
                let r: Vec<String> = vec!["reset".to_owned(), "--keep".to_owned(), target.clone()];
                assert(r.deep_view() =~= expected);
                r
            },
            Command::TagObject { name } => {
                let r: Vec<String> = vec![
                    "rev-parse".to_owned(),
                    "--verify".to_owned(),
                    "--end-of-options".to_owned(),
                    concat("refs/tags/", name.as_str()),
                ];
                assert(r.deep_view() =~= expected);
                r
            },
            Command::AnnotatedTag { name, target, message } => {
                let r: Vec<String> = vec!["tag".to_owned(), "-a".to_owned(), name.clone()];
                assert(r.deep_view() =~= seq!["tag"@, "-a"@, name@]);
                let mut r: Vec<String> = push_optional(r, target);
                let ghost head = r.deep_view();
                r.push("-m".to_owned());
                r.push(message.clone());
                assert(r.deep_view() =~= head.push("-m"@).push(message@));
                r
            },
            Command::LightweightTag { name } => {
                let r: Vec<String> = vec!["tag".to_owned(), name.clone()];
                assert(r.deep_view() =~= expected);
                r
            },
            Command::DeleteTag { name } => {
                let r: Vec<String> = vec![
                    "tag".to_owned(),
                    "-d".to_owned(),
                    "--".to_owned(),
                    name.clone(),
                ];
                assert(r.deep_view() =~= expected);
                r
            },
            Command::Diff { staged, path } => {
                let mut r: Vec<String> = vec![
                    "diff".to_owned(),
                    "--no-ext-diff".to_owned(),
                    "--no-textconv".to_owned(),
                ];
                if *staged {
                    r.push("--cached".to_owned());
                }
                r.push("--".to_owned());
                assert(r.deep_view() =~= (if *staged {
                    seq!["diff"@, "--no-ext-diff"@, "--no-textconv"@, "--cached"@]
                } else {
                    seq!["diff"@, "--no-ext-diff"@, "--no-textconv"@]
                }).push("--"@));
                push_optional(r, path)
            },
            Command::Log { count } => {
                let r: Vec<String> = vec![
                    "log".to_owned(),
                    "--date=iso-strict".to_owned(),
                    "--pretty=format:%H%x09%an%x09%ad%x09%s".to_owned(),
                    "-n".to_owned(),
                    decimal_of(*count as u64),
                ];
                assert(r.deep_view() =~= expected);
                r
            },
            Command::Show { revision, stat_only } => {
                let mode: String = if *stat_only {
                    "--stat".to_owned()
                } else {
                    "--patch".to_owned()
                };
                let r: Vec<String> = vec![
                    "show".to_owned(),
                    "--no-ext-diff".to_owned(),
                    "--no-textconv".to_owned(),
                    "--format=fuller".to_owned(),
                    mode,
                    revision.clone(),
                    "--".to_owned(),
                ];
                assert(r.deep_view() =~= expected);
                r
            },
            Command::ListBranches => {
                let r: Vec<String> = vec![
                    "branch".to_owned(),
                    "--list".to_owned(),
                    "--verbose".to_owned(),
                    "--no-abbrev".to_owned(),
                ];
                assert(r.deep_view() =~= expected);
                r
            },
            Command::Stage { paths } => {
                let r: Vec<String> = vec!["add".to_owned(), "--".to_owned()];
                assert(r.deep_view() =~= seq!["add"@, "--"@]);
                followed_by(r, paths)
            },
            Command::Unstage { paths } => {
                let r: Vec<String> = vec![
                    "restore".to_owned(),
                    "--staged".to_owned(),
                    "--".to_owned(),
                ];
                assert(r.deep_view() =~= seq!["restore"@, "--staged"@, "--"@]);
                followed_by(r, paths)
            },
            Command::RestoreWorktree { paths } => {
                let r: Vec<String> = vec![
                    "restore".to_owned(),
                    "--worktree".to_owned(),
                    "--".to_owned(),
                ];
                assert(r.deep_view() =~= seq!["restore"@, "--worktree"@, "--"@]);
                followed_by(r, paths)
            },
            Command::Commit { message } => {
                let r: Vec<String> = vec!["commit".to_owned(), "-m".to_owned(), message.clone()];
                assert(r.deep_view() =~= expected);
                r
            },
            Command::Fetch { remote } => {
                let r: Vec<String> = vec![
                    "fetch".to_owned(),
                    "--prune".to_owned(),
                    "--".to_owned(),
                    remote.clone(),
                ];
                assert(r.deep_view() =~= expected);
                r
            },
            Command::Pull { remote, branch } => {
                let r: Vec<String> = vec![
                    "pull".to_owned(),
                    "--ff-only".to_owned(),
                    "--".to_owned(),
                    remote.clone(),
                ];
                assert(r.deep_view() =~= seq!["pull"@, "--ff-only"@, "--"@, remote@]);
                push_optional(r, branch)
            },
            Command::Push { remote, refspec } => {
                let r: Vec<String> = vec!["push".to_owned(), "--".to_owned(), remote.clone()];
                assert(r.deep_view() =~= seq!["push"@, "--"@, remote@]);
                push_optional(r, refspec)
            },
            _ => Vec::new(),
        }
    }

    /// The environment variables that are set for the command alone.
    pub fn to_variables(&self) -> (r: Vec<(String, String)>)
        ensures
            r.deep_view() == self.deep_view().variables(),
    {
        match self {
            Command::CommitTree {
                author_name,
                author_email,
                author_date,
                committer_name,
                committer_email,
                committer_date,
                ..
            } => {
                let r: Vec<(String, String)> = vec![
                    ("GIT_AUTHOR_NAME".to_owned(), author_name.clone()),
                    ("GIT_AUTHOR_EMAIL".to_owned(), author_email.clone()),
                    ("GIT_AUTHOR_DATE".to_owned(), author_date.clone()),
                    ("GIT_COMMITTER_NAME".to_owned(), committer_name.clone()),
                    ("GIT_COMMITTER_EMAIL".to_owned(), committer_email.clone()),
                    ("GIT_COMMITTER_DATE".to_owned(), committer_date.clone()),
                ];
                assert(r.deep_view() =~= self.deep_view().variables());
                r
            },
            _ => {
                let r: Vec<(String, String)> = Vec::new();
                assert(r.deep_view() =~= Seq::<(Text, Text)>::empty());
                r
            },
        }
    }
}

} // verus!
