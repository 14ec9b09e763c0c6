use rust_mcp_git::command::{Command, GitCommand};

fn s(text: &str) -> String {
    text.to_owned()
}

fn expect(command: GitCommand, arguments: &[&str]) {
    assert_eq!(command.to_arguments(), arguments, "{command:?}");
}

#[test]
fn questions_have_their_arguments() {
    expect(
        Command::CheckTagName { name: s("v1") },
        &["check-ref-format", "refs/tags/v1"],
    );
    expect(
        Command::CheckBranchName { branch: s("b") },
        &["check-ref-format", "--branch", "b"],
    );
    expect(
        Command::ShowBranchRef { branch: s("b") },
        &["show-ref", "--verify", "--quiet", "refs/heads/b"],
    );
    expect(
        Command::ShowTagRef { name: s("v1") },
        &["show-ref", "--verify", "--quiet", "refs/tags/v1"],
    );
    expect(
        Command::ResolveCommit { revision: s("main") },
        &["rev-parse", "--verify", "--end-of-options", "main^{commit}"],
    );
    expect(
        Command::CurrentBranch,
        &["symbolic-ref", "--quiet", "--short", "HEAD"],
    );
    expect(Command::HeadCommit, &["rev-parse", "--verify", "HEAD"]);
    expect(
        Command::ResolveTree { revision: s("x") },
        &["rev-parse", "--verify", "--end-of-options", "x^{tree}"],
    );
    expect(
        Command::ShortStatus,
        &["status", "--short", "--branch", "--untracked-files=all"],
    );
    expect(
        Command::PorcelainStatus,
        &["status", "--porcelain=v1", "--untracked-files=all"],
    );
    expect(
        Command::MergeHead,
        &["rev-parse", "--verify", "--quiet", "MERGE_HEAD"],
    );
    expect(
        Command::MergeBase { base: s("main") },
        &["merge-base", "HEAD", "main"],
    );
    expect(
        Command::Upstream,
        &["rev-parse", "--abbrev-ref", "--symbolic-full-name", "@{upstream}"],
    );
    expect(
        Command::IsAncestor { ancestor: s("a"), descendant: s("d") },
        &["merge-base", "--is-ancestor", "a", "d"],
    );
    expect(
        Command::RemoteRefsContaining { commit: s("c") },
        &["for-each-ref", "--format=%(refname:short)", "--contains=c", "refs/remotes"],
    );
    expect(
        Command::RemoteRefsOf { remote: s("origin"), commit: s("c") },
        &[
            "for-each-ref",
            "--format=%(refname:short)",
            "--contains=c",
            "refs/remotes/origin/",
        ],
    );
    expect(
        Command::History { base: s("main") },
        &[
            "log",
            "--reverse",
            "--topo-order",
            "--date=iso-strict",
            "--pretty=format:%H%x1f%P%x1f%an%x1f%ae%x1f%aI%x1f%s",
            "main..HEAD",
        ],
    );
    expect(
        Command::CommitMetadata { commit: s("c") },
        &[
            "show",
            "-s",
            "--no-patch",
            "--format=%T%x1f%P%x1f%an%x1f%ae%x1f%aI%x1f%cn%x1f%ce%x1f%cI%x1f%B",
            "--end-of-options",
            "c",
        ],
    );
    expect(
        Command::TagObject { name: s("v1") },
        &["rev-parse", "--verify", "--end-of-options", "refs/tags/v1"],
    );
    expect(
        Command::RemoteUrl { remote: s("origin") },
        &["remote", "get-url", "--", "origin"],
    );
    expect(
        Command::RemoteTag { remote: s("origin"), tag: s("v1") },
        &["ls-remote", "--tags", "--refs", "origin", "refs/tags/v1"],
    );
}

#[test]
fn changes_have_their_arguments() {
    expect(
        Command::UpdateRef { reference: s("refs/heads/b"), new: s("n"), old: s("o") },
        &["update-ref", "refs/heads/b", "n", "o"],
    );
    expect(Command::WriteTree, &["write-tree"]);
    expect(Command::Switch { branch: s("b") }, &["switch", "--", "b"]);
    expect(
        Command::SwitchCreate { branch: s("b"), start_point: None },
        &["switch", "-c", "b"],
    );
    expect(
        Command::SwitchCreate { branch: s("b"), start_point: Some(s("x")) },
        &["switch", "-c", "b", "x"],
    );
    expect(
        Command::CreateBranch { branch: s("b"), start_point: None },
        &["branch", "b"],
    );
    expect(
        Command::CreateBranch { branch: s("b"), start_point: Some(s("x")) },
        &["branch", "b", "x"],
    );
    expect(
        Command::Merge { message: s("feat: m"), source: s("b") },
        &["merge", "--no-ff", "-m", "feat: m", "--", "b"],
    );
    expect(
        Command::DeleteBranch { branch: s("b") },
        &["branch", "-d", "--", "b"],
    );
    expect(
        Command::ResetKeep { target: s("p") },
        &["reset", "--keep", "p"],
    );
    expect(
        Command::AnnotatedTag { name: s("v1"), target: None, message: s("m") },
        &["tag", "-a", "v1", "-m", "m"],
    );
    expect(
        Command::AnnotatedTag { name: s("v1"), target: Some(s("c")), message: s("m") },
        &["tag", "-a", "v1", "c", "-m", "m"],
    );
    expect(Command::LightweightTag { name: s("v1") }, &["tag", "v1"]);
    expect(Command::DeleteTag { name: s("v1") }, &["tag", "-d", "--", "v1"]);
    expect(
        Command::Stage { paths: vec![s("a"), s("b")] },
        &["add", "--", "a", "b"],
    );
    expect(
        Command::Unstage { paths: vec![s("a")] },
        &["restore", "--staged", "--", "a"],
    );
    expect(
        Command::RestoreWorktree { paths: vec![s("a")] },
        &["restore", "--worktree", "--", "a"],
    );
    expect(
        Command::Commit { message: s("feat: x") },
        &["commit", "-m", "feat: x"],
    );
}

#[test]
fn views_and_remotes_have_their_arguments() {
    expect(
        Command::Diff { staged: false, path: None },
        &["diff", "--no-ext-diff", "--no-textconv", "--"],
    );
    expect(
        Command::Diff { staged: true, path: Some(s("f")) },
        &["diff", "--no-ext-diff", "--no-textconv", "--cached", "--", "f"],
    );
    expect(
        Command::Log { count: 20 },
        &[
            "log",
            "--date=iso-strict",
            "--pretty=format:%H%x09%an%x09%ad%x09%s",
            "-n",
            "20",
        ],
    );
    expect(
        Command::Show { revision: s("r"), stat_only: true },
        &[
            "show",
            "--no-ext-diff",
            "--no-textconv",
            "--format=fuller",
            "--stat",
            "r",
            "--",
        ],
    );
    expect(
        Command::Show { revision: s("r"), stat_only: false },
        &[
            "show",
            "--no-ext-diff",
            "--no-textconv",
            "--format=fuller",
            "--patch",
            "r",
            "--",
        ],
    );
    expect(
        Command::ListBranches,
        &["branch", "--list", "--verbose", "--no-abbrev"],
    );
    expect(
        Command::FetchTags { remote: s("origin") },
        &["fetch", "--prune", "--tags", "--", "origin"],
    );
    expect(
        Command::Fetch { remote: s("origin") },
        &["fetch", "--prune", "--", "origin"],
    );
    expect(
        Command::Pull { remote: s("origin"), branch: Some(s("b")) },
        &["pull", "--ff-only", "--", "origin", "b"],
    );
    expect(
        Command::Pull { remote: s("origin"), branch: None },
        &["pull", "--ff-only", "--", "origin"],
    );
    expect(
        Command::Push { remote: s("origin"), refspec: Some(s("HEAD:b")) },
        &["push", "--", "origin", "HEAD:b"],
    );
    expect(
        Command::Push { remote: s("origin"), refspec: None },
        &["push", "--", "origin"],
    );
}

#[test]
fn a_made_commit_has_its_arguments_and_variables() {
    let command: GitCommand = Command::CommitTree {
        tree: s("t"),
        parent: s("p"),
        message: s("feat: x"),
        author_name: s("A"),
        author_email: s("a@x"),
        author_date: s("ad"),
        committer_name: s("C"),
        committer_email: s("c@x"),
        committer_date: s("cd"),
    };
    assert_eq!(
        command.to_arguments(),
        ["commit-tree", "t", "-p", "p", "-m", "feat: x"]
    );
    assert_eq!(
        command.to_variables(),
        [
            (s("GIT_AUTHOR_NAME"), s("A")),
            (s("GIT_AUTHOR_EMAIL"), s("a@x")),
            (s("GIT_AUTHOR_DATE"), s("ad")),
            (s("GIT_COMMITTER_NAME"), s("C")),
            (s("GIT_COMMITTER_EMAIL"), s("c@x")),
            (s("GIT_COMMITTER_DATE"), s("cd")),
        ]
    );
    let other: GitCommand = Command::HeadCommit;
    assert!(other.to_variables().is_empty());
}
