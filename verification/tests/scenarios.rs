use std::collections::{BTreeMap, BTreeSet};

use rust_mcp_git::amend::AmendCommitArgs;
use rust_mcp_git::branches::MergeMode;
use rust_mcp_git::command::{Command, GitCommand};
use rust_mcp_git::flow::{
    EvidenceFile, Flow, GitRequest, Halt, PathFacts, ProcessOutput, ReleaseEvidence, Reply,
};
use rust_mcp_git::history::history_plan;
use rust_mcp_git::output::GitOutput;
use rust_mcp_git::paths::PathStyle;
use rust_mcp_git::publication::{PublicationGuard, RewindMergeArgs, VerifyUnpublishedArgs};
use rust_mcp_git::queries::{current_branch_required, merge_in_progress};
use rust_mcp_git::readiness::{
    dev_control_readiness, validate_merge_readiness, ValidateMergeReadinessArgs,
};
use rust_mcp_git::release::ReleaseTagArgs;
use rust_mcp_git::reword::{RewordCommit, RewordCommitsArgs};
use rust_mcp_git::rewrite::{RewriteFailure, RewriteOutcome, RewritePolicy};
use rust_mcp_git::server::GitServer;
use rust_mcp_git::squash::SquashCommitsArgs;
use rust_mcp_git::tags::ReplaceLocalTagArgs;

// ---------------------------------------------------------------------------
// A repository in memory
// ---------------------------------------------------------------------------
type Files = BTreeMap<String, String>;

#[derive(Clone, PartialEq, Eq, PartialOrd, Ord)]
struct Commit {
    tree: String,
    parents: Vec<String>,
    author: (String, String, String),
    committer: (String, String, String),
    message: String,
}

struct Tag {
    object: String,
    target: String,
    annotated: bool,
}

struct World {
    commits: BTreeMap<String, Commit>,
    trees: BTreeMap<String, Files>,
    branches: BTreeMap<String, String>,
    tags: BTreeMap<String, Tag>,
    remote_refs: BTreeMap<String, String>,
    remote_tags: BTreeSet<String>,
    upstream: Option<String>,
    head: Option<String>,
    detached_at: String,
    index: Files,
    work: Files,
    merging: bool,
    objects: u64,
    evidence: BTreeMap<Vec<u8>, EvidenceFields>,
    asked: Vec<GitCommand>,
    status_fails: bool,
    update_fails: bool,
    reset_does_nothing: bool,
}

#[derive(Clone)]
struct EvidenceFields {
    status: String,
    commit: String,
    repo: String,
    analysis_id: Option<String>,
}

fn done(stdout: &str) -> GitOutput {
    GitOutput {
        exit_code: Some(0),
        stdout: stdout.to_owned(),
        stderr: String::new(),
        truncated: false,
    }
}

fn failed(exit_code: i32, stderr: &str) -> GitOutput {
    GitOutput {
        exit_code: Some(exit_code),
        stdout: String::new(),
        stderr: stderr.to_owned(),
        truncated: false,
    }
}

impl World {
    fn new() -> World {
        let mut world = World {
            commits: BTreeMap::new(),
            trees: BTreeMap::new(),
            branches: BTreeMap::new(),
            tags: BTreeMap::new(),
            remote_refs: BTreeMap::new(),
            remote_tags: BTreeSet::new(),
            upstream: None,
            head: Some("main".to_owned()),
            detached_at: String::new(),
            index: Files::new(),
            work: Files::new(),
            merging: false,
            objects: 0,
            evidence: BTreeMap::new(),
            asked: Vec::new(),
            status_fails: false,
            update_fails: false,
            reset_does_nothing: false,
        };
        world.commit_file("tracked.txt", "base\n", "chore: initial");
        world
    }

    fn fresh(&mut self) -> String {
        self.objects += 1;
        format!("{:040x}", self.objects)
    }

    fn tree_of(&mut self, files: &Files) -> String {
        for (id, known) in &self.trees {
            if known == files {
                return id.clone();
            }
        }
        let id = self.fresh();
        self.trees.insert(id.clone(), files.clone());
        id
    }

    fn store(&mut self, commit: Commit) -> String {
        for (id, known) in &self.commits {
            if *known == commit {
                return id.clone();
            }
        }
        let id = self.fresh();
        self.commits.insert(id.clone(), commit);
        id
    }

    fn tip(&self) -> Option<String> {
        match &self.head {
            Some(branch) => self.branches.get(branch).cloned(),
            None => Some(self.detached_at.clone()),
        }
    }

    fn head_commit(&self) -> String {
        self.tip().expect("a commit at HEAD")
    }

    fn head_tree(&self) -> String {
        self.commits[&self.head_commit()].tree.clone()
    }

    fn set_tip(&mut self, commit: &str) {
        match self.head.clone() {
            Some(branch) => {
                self.branches.insert(branch, commit.to_owned());
            }
            None => self.detached_at = commit.to_owned(),
        }
    }

    fn check_out(&mut self, commit: &str) {
        let files = self.trees[&self.commits[commit].tree].clone();
        self.index = files.clone();
        self.work = files;
    }

    fn make(&mut self, files: &Files, parents: Vec<String>, message: &str) -> String {
        let tree = self.tree_of(files);
        let person = (
            "MCP Git Test".to_owned(),
            "mcp-git@example.invalid".to_owned(),
            format!("2024-01-01T00:00:{:02}Z", self.commits.len() % 60),
        );
        self.store(Commit {
            tree,
            parents,
            author: person.clone(),
            committer: person,
            message: message.to_owned(),
        })
    }

    fn commit_file(&mut self, name: &str, content: &str, message: &str) {
        self.work.insert(name.to_owned(), content.to_owned());
        self.index.insert(name.to_owned(), content.to_owned());
        let files = self.index.clone();
        let parents: Vec<String> = self.tip().into_iter().collect();
        let id = self.make(&files, parents, message);
        self.set_tip(&id);
    }

    fn start_branch(&mut self, branch: &str) {
        let tip = self.head_commit();
        self.branches.insert(branch.to_owned(), tip);
        self.head = Some(branch.to_owned());
    }

    fn resolve(&self, revision: &str) -> Option<String> {
        if revision == "HEAD" {
            return self.tip();
        }
        if let Some(tip) = self.branches.get(revision) {
            return Some(tip.clone());
        }
        if let Some(tag) = self.tags.get(revision) {
            return Some(tag.target.clone());
        }
        if let Some(tip) = self.remote_refs.get(revision) {
            return Some(tip.clone());
        }
        if self.commits.contains_key(revision) {
            return Some(revision.to_owned());
        }
        None
    }

    fn ancestors(&self, commit: &str) -> BTreeSet<String> {
        let mut seen = BTreeSet::new();
        let mut pending = vec![commit.to_owned()];
        while let Some(next) = pending.pop() {
            if seen.insert(next.clone()) {
                pending.extend(self.commits[&next].parents.iter().cloned());
            }
        }
        seen
    }

    /// The commits reachable from `HEAD` and not from `base`, parents first.
    fn range(&self, base: &str) -> Vec<String> {
        let excluded = self.ancestors(base);
        let mut order = Vec::new();
        self.visit(&self.head_commit(), &excluded, &mut order);
        order
    }

    fn visit(&self, commit: &str, excluded: &BTreeSet<String>, order: &mut Vec<String>) {
        if excluded.contains(commit) || order.iter().any(|known| known == commit) {
            return;
        }
        for parent in &self.commits[commit].parents {
            self.visit(parent, excluded, order);
        }
        order.push(commit.to_owned());
    }

    fn subjects(&self, base: &str) -> Vec<String> {
        let base = self.resolve(base).unwrap();
        self.range(&base)
            .iter()
            .map(|id| self.commits[id].message.lines().next().unwrap().to_owned())
            .collect()
    }

    fn changes(&self) -> String {
        let committed = &self.trees[&self.head_tree()];
        let mut names: BTreeSet<&String> = committed.keys().collect();
        names.extend(self.index.keys());
        names.extend(self.work.keys());
        let mut lines = String::new();
        for name in names {
            if committed.get(name) != self.work.get(name)
                || committed.get(name) != self.index.get(name)
            {
                lines.push_str(&format!(" M {name}\n"));
            }
        }
        lines
    }

    fn run(&mut self, command: GitCommand) -> GitOutput {
        match command {
            Command::CheckTagName { .. } | Command::CheckBranchName { .. } => done(""),
            Command::ShowBranchRef { branch } => {
                if self.branches.contains_key(&branch) {
                    done("")
                } else {
                    failed(1, "")
                }
            }
            Command::ShowTagRef { name } => {
                if self.tags.contains_key(&name) {
                    done("")
                } else {
                    failed(1, "")
                }
            }
            Command::ResolveCommit { revision } => match self.resolve(&revision) {
                Some(id) => done(&format!("{id}\n")),
                None => failed(128, "fatal: Needed a single revision\n"),
            },
            Command::CurrentBranch => match &self.head {
                Some(branch) => done(&format!("{branch}\n")),
                None => failed(1, ""),
            },
            Command::HeadCommit => done(&format!("{}\n", self.head_commit())),
            Command::ResolveTree { revision } => match self.resolve(&revision) {
                Some(id) => done(&format!("{}\n", self.commits[&id].tree)),
                None => failed(128, "fatal: Needed a single revision\n"),
            },
            Command::ShortStatus => {
                if self.status_fails {
                    return failed(128, "fatal: index is locked\n");
                }
                let branch = self.head.clone().unwrap_or_else(|| "HEAD (no branch)".to_owned());
                done(&format!("## {branch}\n{}", self.changes()))
            }
            Command::PorcelainStatus => done(&self.changes()),
            Command::MergeHead => {
                if self.merging {
                    done("")
                } else {
                    failed(1, "")
                }
            }
            Command::MergeBase { base } => {
                let base = self.resolve(&base).unwrap();
                let known = self.ancestors(&base);
                let mut order = Vec::new();
                self.visit(&self.head_commit(), &BTreeSet::new(), &mut order);
                match order.iter().rev().find(|id| known.contains(*id)) {
                    Some(id) => done(&format!("{id}\n")),
                    None => failed(1, ""),
                }
            }
            Command::Upstream => match &self.upstream {
                Some(name) => done(&format!("{name}\n")),
                None => failed(128, "fatal: no upstream configured\n"),
            },
            Command::IsAncestor { ancestor, descendant } => {
                let descendant = self.resolve(&descendant).unwrap();
                if self.ancestors(&descendant).contains(&ancestor) {
                    done("")
                } else {
                    failed(1, "")
                }
            }
            Command::RemoteRefsContaining { commit } => {
                let mut lines = String::new();
                for (name, tip) in &self.remote_refs {
                    if self.ancestors(tip).contains(&commit) {
                        lines.push_str(&format!("{name}\n"));
                    }
                }
                done(&lines)
            }
            Command::RemoteRefsOf { remote, commit } => {
                let mut lines = String::new();
                for (name, tip) in &self.remote_refs {
                    if name.starts_with(&format!("{remote}/"))
                        && self.ancestors(tip).contains(&commit)
                    {
                        lines.push_str(&format!("{name}\n"));
                    }
                }
                done(&lines)
            }
            Command::History { base } => {
                let base = self.resolve(&base).unwrap();
                let lines: Vec<String> = self
                    .range(&base)
                    .iter()
                    .map(|id| {
                        let commit = &self.commits[id];
                        let subject = commit.message.lines().next().unwrap_or_default();
                        [
                            id.as_str(),
                            &commit.parents.join(" "),
                            &commit.author.0,
                            &commit.author.1,
                            &commit.author.2,
                            subject,
                        ]
                        .join("\u{1f}")
                    })
                    .collect();
                done(&lines.join("\n"))
            }
            Command::CommitMetadata { commit } => {
                let c = &self.commits[&commit];
                done(
                    &[
                        c.tree.as_str(),
                        &c.parents.join(" "),
                        &c.author.0,
                        &c.author.1,
                        &c.author.2,
                        &c.committer.0,
                        &c.committer.1,
                        &c.committer.2,
                        &format!("{}\n\n", c.message),
                    ]
                    .join("\u{1f}"),
                )
            }
            Command::CommitTree {
                tree,
                parent,
                message,
                author_name,
                author_email,
                author_date,
                committer_name,
                committer_email,
                committer_date,
            } => {
                let id = self.store(Commit {
                    tree,
                    parents: vec![parent],
                    author: (author_name, author_email, author_date),
                    committer: (committer_name, committer_email, committer_date),
                    message,
                });
                done(&format!("{id}\n"))
            }
            Command::UpdateRef { reference, new, old } => {
                if self.update_fails {
                    return failed(128, "fatal: cannot lock ref\n");
                }
                if let Some(branch) = reference.strip_prefix("refs/heads/") {
                    if self.branches.get(branch) != Some(&old) {
                        return failed(128, "fatal: cannot lock ref\n");
                    }
                    self.branches.insert(branch.to_owned(), new);
                    return done("");
                }
                let name = reference.strip_prefix("refs/tags/").unwrap().to_owned();
                if self.tags[&name].object != old {
                    return failed(128, "fatal: cannot lock ref\n");
                }
                let source = self.tags.values().find(|tag| tag.object == new).unwrap();
                let moved = Tag {
                    object: source.object.clone(),
                    target: source.target.clone(),
                    annotated: source.annotated,
                };
                self.tags.insert(name, moved);
                done("")
            }
            Command::WriteTree => {
                let files = self.index.clone();
                let id = self.tree_of(&files);
                done(&format!("{id}\n"))
            }
            Command::Switch { branch } => {
                let tip = self.branches[&branch].clone();
                self.head = Some(branch);
                self.check_out(&tip);
                done("")
            }
            Command::SwitchCreate { branch, start_point } => {
                let tip = match start_point {
                    Some(revision) => self.resolve(&revision).unwrap(),
                    None => self.head_commit(),
                };
                self.branches.insert(branch.clone(), tip.clone());
                self.head = Some(branch);
                self.check_out(&tip);
                done("")
            }
            Command::CreateBranch { branch, start_point } => {
                let tip = match start_point {
                    Some(revision) => self.resolve(&revision).unwrap(),
                    None => self.head_commit(),
                };
                self.branches.insert(branch, tip);
                done("")
            }
            Command::Merge { message, source } => {
                let other = self.resolve(&source).unwrap();
                let mut files = self.trees[&self.head_tree()].clone();
                files.extend(self.trees[&self.commits[&other].tree].clone());
                let parents = vec![self.head_commit(), other];
                let id = self.make(&files, parents, &message);
                self.set_tip(&id);
                self.check_out(&id);
                done("Merge made by the 'ort' strategy.\n")
            }
            Command::DeleteBranch { branch } => {
                self.branches.remove(&branch);
                done(&format!("Deleted branch {branch}.\n"))
            }
            Command::RemoteUrl { remote } => {
                if remote == "origin" {
                    done("https://example.invalid/repo.git\n")
                } else {
                    failed(2, "error: No such remote\n")
                }
            }
            Command::FetchTags { .. } | Command::Fetch { .. } | Command::Pull { .. } => done(""),
            Command::RemoteTag { tag, .. } => {
                if self.remote_tags.contains(&tag) {
                    done(&format!("{:040x}\trefs/tags/{tag}\n", 9))
                } else {
                    done("")
                }
            }
            Command::ResetKeep { target } => {
                if self.reset_does_nothing {
                    return done("");
                }
                self.set_tip(&target);
                self.check_out(&target);
                done("")
            }
            Command::TagObject { name } => match self.tags.get(&name) {
                Some(tag) => done(&format!("{}\n", tag.object)),
                None => failed(128, "fatal: Needed a single revision\n"),
            },
            Command::AnnotatedTag { name, target, .. } => {
                let target = match target {
                    Some(revision) => self.resolve(&revision).unwrap(),
                    None => self.head_commit(),
                };
                let object = self.fresh();
                self.tags.insert(name, Tag { object, target, annotated: true });
                done("")
            }
            Command::LightweightTag { name } => {
                let target = self.head_commit();
                let object = target.clone();
                self.tags.insert(name, Tag { object, target, annotated: false });
                done("")
            }
            Command::DeleteTag { name } => {
                if self.tags.remove(&name).is_some() {
                    done("")
                } else {
                    failed(1, "error: tag not found\n")
                }
            }
            Command::Stage { paths } => {
                for path in paths {
                    let content = self.work[&path].clone();
                    self.index.insert(path, content);
                }
                done("")
            }
            Command::Commit { message } => {
                let files = self.index.clone();
                let parents = vec![self.head_commit()];
                let id = self.make(&files, parents, &message);
                self.set_tip(&id);
                done("")
            }
            Command::Diff { .. }
            | Command::Log { .. }
            | Command::Show { .. }
            | Command::ListBranches
            | Command::Unstage { .. }
            | Command::RestoreWorktree { .. }
            | Command::Push { .. } => done(""),
        }
    }

    fn perform(&mut self, request: GitRequest) -> Reply {
        match request {
            GitRequest::Git { repo, command } => {
                assert_eq!(repo, "repo");
                let output = self.run(command);
                Reply::Git(Ok(output))
            }
            GitRequest::Canonicalize { path } => Reply::Path(Ok(PathFacts {
                is_dir: !path.ends_with(b".json"),
                is_file: path.ends_with(b".json"),
                path,
            })),
            GitRequest::Run { directory, .. } => {
                let mut stdout = directory;
                stdout.push(b'\n');
                Reply::Run(Ok(ProcessOutput {
                    exit_code: Some(0),
                    stdout,
                    stderr: Vec::new(),
                }))
            }
            GitRequest::ReadEvidence { path } => match self.evidence.get(&path) {
                Some(fields) => Reply::Evidence(EvidenceFile::Parsed(ReleaseEvidence {
                    schema_version: 1,
                    gate: "sonarqube-main".to_owned(),
                    status: fields.status.clone(),
                    repo: fields.repo.clone(),
                    project_key: "repo-project".to_owned(),
                    commit: fields.commit.clone(),
                    branch: "main".to_owned(),
                    analysis_id: fields.analysis_id.clone(),
                })),
                None => Reply::Evidence(EvidenceFile::Unreadable("not found".to_owned())),
            },
            GitRequest::Probe { .. } | GitRequest::List { .. } => unreachable!(),
        }
    }

    fn drive<T>(&mut self, operation: impl Fn(&Vec<Reply>) -> Flow<T>) -> Result<T, String> {
        let mut replies: Vec<Reply> = Vec::new();
        loop {
            match operation(&replies) {
                Ok((value, read)) => {
                    assert_eq!(read, replies.len());
                    return Ok(value);
                }
                Err(Halt::Fail(error, _)) => return Err(error),
                Err(Halt::Ask(request)) => {
                    if let GitRequest::Git { command, .. } = &request {
                        self.asked.push(copy(command));
                    }
                    let reply = self.perform(request);
                    replies.push(reply);
                }
            }
        }
    }

    fn rewrite<T>(
        &mut self,
        operation: impl Fn(&Vec<Reply>) -> Flow<RewriteOutcome<T, RewriteFailure>>,
    ) -> Result<T, RewriteFailure> {
        match self.drive(operation).expect("a rewrite always reports") {
            RewriteOutcome::Done(value) => Ok(value),
            RewriteOutcome::Failed(failure) => Err(failure),
        }
    }

    fn moved_any_reference(&self) -> bool {
        self.asked.iter().any(|command| matches!(command, Command::UpdateRef { .. }))
    }
}

/// Enough of a command to tell afterwards what was asked.
fn copy(command: &GitCommand) -> GitCommand {
    match command {
        Command::UpdateRef { reference, new, old } => Command::UpdateRef {
            reference: reference.clone(),
            new: new.clone(),
            old: old.clone(),
        },
        Command::FetchTags { remote } => Command::FetchTags { remote: remote.clone() },
        Command::Commit { message } => Command::Commit { message: message.clone() },
        Command::DeleteTag { name } => Command::DeleteTag { name: name.clone() },
        _ => Command::HeadCommit,
    }
}

fn server(read_only: bool) -> GitServer {
    GitServer {
        path_style: PathStyle::Unix,
        workspace_root: b"/work".to_vec(),
        read_only,
        allow_remote_read: false,
        allow_remote_write: false,
        max_output_bytes: 1_048_576,
        release_evidence_root: None,
        release_evidence_required_repos: Vec::new(),
    }
}

fn amend_args(message: Option<&str>, include_index: bool) -> AmendCommitArgs {
    AmendCommitArgs {
        repo: "repo".to_owned(),
        message: message.map(str::to_owned),
        include_index,
    }
}

fn reword_args(changes: &[(&str, &str)]) -> RewordCommitsArgs {
    RewordCommitsArgs {
        repo: "repo".to_owned(),
        base: "main".to_owned(),
        changes: changes
            .iter()
            .map(|(commit, message)| RewordCommit {
                commit: commit.to_string(),
                message: message.to_string(),
            })
            .collect(),
        rewrite_policy: RewritePolicy::LocalOnly,
    }
}

fn squash_args(commits: &[&str], message: &str) -> SquashCommitsArgs {
    SquashCommitsArgs {
        repo: "repo".to_owned(),
        base: "main".to_owned(),
        commits: commits.iter().map(|commit| commit.to_string()).collect(),
        message: message.to_owned(),
        rewrite_policy: RewritePolicy::LocalOnly,
    }
}

fn merged_world(branch: &str) -> World {
    let mut world = World::new();
    let git = server(false);
    world
        .drive(|t| git.create_branch("repo", branch, &None, true, t, 0))
        .unwrap();
    world.commit_file("feature.txt", "feature\n", "feat: fixture");
    world.drive(|t| git.switch_branch("repo", "main", t, 0)).unwrap();
    world
        .drive(|t| git.merge_branch("repo", branch, MergeMode::NoFf, &None, t, 0))
        .unwrap();
    world
}

// ---------------------------------------------------------------------------
// History and readiness
// ---------------------------------------------------------------------------
#[test]
fn history_plan_reports_branch_local_commits_and_dirty_tree() {
    let mut world = World::new();
    world.start_branch("feature/history");
    world.commit_file("one.txt", "one\n", "feat: one");
    world.commit_file("two.txt", "two\n", "Add two");
    let plan = world.drive(|t| history_plan("repo", "main", t, 0)).unwrap();
    assert_eq!(plan.branch, "feature/history");
    assert_eq!(plan.commit_count, 2);
    assert!(!plan.published);
    assert!(plan.can_rewrite);
    assert!(plan.commits[0].conventional);
    assert!(!plan.commits[1].conventional);
    assert_eq!(plan.commits[0].author, "MCP Git Test <mcp-git@example.invalid>");
    assert_eq!(plan.commits[0].parents, 1);

    world.work.insert("dirty.txt".to_owned(), "dirty\n".to_owned());
    let dirty = world.drive(|t| history_plan("repo", "main", t, 0)).unwrap();
    assert!(dirty.dirty);
    assert!(!dirty.can_rewrite);
    assert_eq!(dirty.blocking_reasons, ["dirty_worktree_or_index"]);
}

#[test]
fn a_plan_names_every_obstacle() {
    let mut world = World::new();
    let on_main = world.drive(|t| history_plan("repo", "main", t, 0)).unwrap();
    assert_eq!(on_main.blocking_reasons, ["protected_branch_main"]);
    assert_eq!(on_main.commit_count, 0);

    world.start_branch("feature/x");
    world.commit_file("x.txt", "x\n", "feat: x");
    let tip = world.head_commit();
    world.remote_refs.insert("origin/b".to_owned(), tip.clone());
    world.remote_refs.insert("origin/a".to_owned(), tip.clone());
    let published = world.drive(|t| history_plan("repo", "main", t, 0)).unwrap();
    assert_eq!(published.published_refs, ["origin/a", "origin/b"]);
    assert_eq!(published.blocking_reasons, ["published_history"]);

    world.head = None;
    world.detached_at = tip;
    let detached = world.drive(|t| history_plan("repo", "main", t, 0)).unwrap();
    assert_eq!(detached.branch, "HEAD");
    assert_eq!(detached.blocking_reasons, ["detached_head", "published_history"]);
    assert_eq!(
        world.drive(|t| history_plan("repo", "nowhere", t, 0)).unwrap_err(),
        "base does not resolve to a commit: `nowhere`"
    );
}

#[test]
fn merge_readiness_enforces_dev_control_release_policy() {
    let mut world = World::new();
    world.start_branch("feature/readiness");
    for index in 0..4 {
        world.commit_file(
            &format!("{index}.txt"),
            &format!("{index}\n"),
            &format!("feat: commit {index}"),
        );
    }
    world.commit_file("release.txt", "release\n", "chore(release): prepare v0.12.0");
    let ready = world
        .drive(|t| dev_control_readiness("repo", "0.12.0", t, 0))
        .unwrap();
    assert!(ready.ready);
    assert!(ready.violations.is_empty());

    world.commit_file("six.txt", "six\n", "fix: after release");
    let blocked = world
        .drive(|t| dev_control_readiness("repo", "0.12.0", t, 0))
        .unwrap();
    assert!(!blocked.ready);
    assert!(!blocked.checks.commit_limit);
    assert!(!blocked.checks.release_commit_last);
    let codes: Vec<&str> = blocked.violations.iter().map(|v| v.code.as_str()).collect();
    assert_eq!(codes, ["TOO_MANY_COMMITS", "RELEASE_COMMIT_NOT_LAST"]);
    assert_eq!(blocked.violations[0].message, "6 branch commits; maximum is 5");
    assert_eq!(
        blocked.violations[1].message,
        "final work-branch commit must be `chore(release): prepare v0.12.0`"
    );
    assert_eq!(blocked.violations[1].subject.as_deref(), Some("fix: after release"));
}

#[test]
fn readiness_lists_violations_in_order() {
    let mut world = World::new();
    let args = ValidateMergeReadinessArgs {
        repo: "repo".to_owned(),
        base: "main".to_owned(),
        max_commits: Some(99),
        require_conventional_commits: true,
        require_clean_tree: true,
        require_release_commit: true,
        release_version: None,
    };
    world.work.insert("dirty.txt".to_owned(), "dirty\n".to_owned());
    let on_main = world.drive(|t| validate_merge_readiness(&args, t, 0)).unwrap();
    let codes: Vec<&str> = on_main.violations.iter().map(|v| v.code.as_str()).collect();
    assert_eq!(
        codes,
        ["PROTECTED_BRANCH", "NO_BRANCH_COMMITS", "DIRTY_TREE", "RELEASE_COMMIT_NOT_LAST"]
    );
    assert_eq!(on_main.max_allowed, 5);
    assert!(!on_main.ready);

    world.work.remove("dirty.txt");
    world.start_branch("feature/behind");
    world.commit_file("odd.txt", "odd\n", "Odd subject");
    let tip = world.head_commit();
    world.drive(|t| server(false).switch_branch("repo", "main", t, 0)).unwrap();
    world.commit_file("ahead.txt", "ahead\n", "feat: ahead");
    world.drive(|t| server(false).switch_branch("repo", "feature/behind", t, 0)).unwrap();
    let behind = world.drive(|t| validate_merge_readiness(&args, t, 0)).unwrap();
    let codes: Vec<&str> = behind.violations.iter().map(|v| v.code.as_str()).collect();
    assert_eq!(
        codes,
        ["BASE_NOT_RECONCILED", "NON_CONVENTIONAL_COMMIT", "RELEASE_COMMIT_NOT_LAST"]
    );
    assert_eq!(
        behind.violations[0].message,
        "work branch does not contain the current `main` base tip"
    );
    assert_eq!(behind.violations[1].commit.as_deref(), Some(tip.as_str()));
    assert_eq!(
        behind.violations[2].message,
        "final work-branch commit must be `chore(release): prepare vMAJOR.MINOR.PATCH`"
    );

    world.head = None;
    world.detached_at = tip;
    let detached = world.drive(|t| validate_merge_readiness(&args, t, 0)).unwrap();
    assert_eq!(detached.violations[0].code, "DETACHED_HEAD");
    assert!(world
        .drive(|t| dev_control_readiness("repo", "1.2", t, 0))
        .is_err());
}

// ---------------------------------------------------------------------------
// Rewrites
// ---------------------------------------------------------------------------
#[test]
fn amend_message_and_index_are_atomic_and_reject_main() {
    let mut world = World::new();
    let git = server(false);
    let main_head = world.head_commit();
    let blocked = world.rewrite(|t| git.amend_commit(&amend_args(Some("chore: rewritten"), false), t, 0));
    let failure = blocked.unwrap_err();
    assert_eq!(failure.error, "amend is not allowed on protected branch `main`");
    assert_eq!(failure.operation, "amend_commit");
    assert!(failure.restored);
    assert_eq!(failure.status, "failed");
    assert_eq!(world.head_commit(), main_head);

    world.start_branch("feature/amend");
    world.commit_file("one.txt", "one\n", "feat: one");
    let first_head = world.head_commit();
    let message_only = world
        .rewrite(|t| git.amend_commit(&amend_args(Some("feat: reword one"), false), t, 0))
        .unwrap();
    assert_ne!(message_only.new_head, first_head);
    assert_eq!(message_only.old_head, first_head);
    assert_eq!(world.subjects("main"), ["feat: reword one"]);

    world.work.insert("two.txt".to_owned(), "two\n".to_owned());
    world.index.insert("two.txt".to_owned(), "two\n".to_owned());
    world
        .rewrite(|t| git.amend_commit(&amend_args(None, true), t, 0))
        .unwrap();
    assert_eq!(world.changes(), "");
    assert_eq!(world.trees[&world.head_tree()]["two.txt"], "two\n");
}

#[test]
fn amend_refuses_what_it_cannot_do() {
    let mut world = World::new();
    let git = server(false);
    world.start_branch("feature/amend");
    world.commit_file("one.txt", "one\n", "feat: one");
    let tip = world.head_commit();
    let nothing = world.rewrite(|t| git.amend_commit(&amend_args(None, false), t, 0));
    assert_eq!(
        nothing.unwrap_err().error,
        "amend requires a new message or include_index=true"
    );
    let odd = world.rewrite(|t| git.amend_commit(&amend_args(Some("Odd"), false), t, 0));
    assert_eq!(
        odd.unwrap_err().error,
        "commit subject must follow Conventional Commits 1.0.0"
    );
    let same = world.rewrite(|t| git.amend_commit(&amend_args(Some("feat: one"), false), t, 0));
    assert_eq!(same.unwrap_err().error, "amend produced no commit change");
    world.remote_refs.insert("origin/x".to_owned(), tip.clone());
    let published = world.rewrite(|t| git.amend_commit(&amend_args(Some("feat: two"), false), t, 0));
    assert_eq!(
        published.unwrap_err().error,
        "amend blocked: HEAD is already reachable from remote-tracking ref(s): origin/x"
    );
    world.remote_refs.clear();
    world.branches.insert("snapshot".to_owned(), tip.clone());
    world.upstream = Some("snapshot".to_owned());
    let upstream = world.rewrite(|t| git.amend_commit(&amend_args(Some("feat: two"), false), t, 0));
    assert_eq!(
        upstream.unwrap_err().error,
        "amend blocked: HEAD is already reachable from upstream `snapshot`"
    );
    assert_eq!(world.head_commit(), tip);
    assert!(!world.moved_any_reference());
}

#[test]
fn reword_multiple_commits_preserves_final_tree_and_maps_suffix() {
    let mut world = World::new();
    let git = server(false);
    world.start_branch("feature/reword");
    world.commit_file("one.txt", "one\n", "feat: one");
    let one = world.head_commit();
    world.commit_file("two.txt", "two\n", "feat: two");
    world.commit_file("three.txt", "three\n", "feat: three");
    let three = world.head_commit();
    let tree_before = world.head_tree();
    let output = world
        .rewrite(|t| {
            git.reword_commits(
                &reword_args(&[(&one, "feat: add one"), (&three, "test: add three")]),
                t,
                0,
            )
        })
        .unwrap();
    assert_eq!(output.rewritten.len(), 3);
    assert_eq!(world.head_tree(), tree_before);
    assert_eq!(
        world.subjects("main"),
        ["feat: add one", "feat: two", "test: add three"]
    );
    assert_eq!(output.rewritten[0].old, one);
    assert_eq!(output.rewritten[2].old, three);
    assert!(output.rewritten[0].message_changed);
    assert!(!output.rewritten[1].message_changed);
    assert_eq!(output.rewritten[1].old_subject, "feat: two");
    assert_eq!(output.rewritten[2].new_subject, "test: add three");
    assert_eq!(output.new_head, world.head_commit());
    assert_eq!(output.branch, "feature/reword");
}

#[test]
fn a_rewrite_moves_its_branch_once() {
    let mut world = World::new();
    let git = server(false);
    world.start_branch("feature/once");
    world.commit_file("one.txt", "one\n", "feat: one");
    let one = world.head_commit();
    world.commit_file("two.txt", "two\n", "feat: two");
    let moves = |world: &World| {
        world
            .asked
            .iter()
            .filter(|command| matches!(command, Command::UpdateRef { .. }))
            .count()
    };
    let reworded = world
        .rewrite(|t| git.reword_commits(&reword_args(&[(&one, "feat: first")]), t, 0))
        .unwrap();
    assert_eq!(moves(&world), 1);
    let first = reworded.rewritten[0].new.clone();
    world
        .rewrite(|t| git.squash_commits(&squash_args(&[&first, "HEAD"], "feat: both"), t, 0))
        .unwrap();
    assert_eq!(moves(&world), 2);
    world
        .rewrite(|t| git.amend_commit(&amend_args(Some("feat: all"), false), t, 0))
        .unwrap();
    assert_eq!(moves(&world), 3);
    assert_eq!(world.subjects("main"), ["feat: all"]);
}

#[test]
fn reword_refuses_what_it_cannot_do() {
    let mut world = World::new();
    let git = server(false);
    let base = world.head_commit();
    let on_main = world.rewrite(|t| git.reword_commits(&reword_args(&[("main", "feat: x")]), t, 0));
    assert_eq!(
        on_main.unwrap_err().error,
        format!("commit {base} is outside branch-local history relative to `main`")
    );
    world.start_branch("feature/reword");
    world.commit_file("one.txt", "one\n", "feat: one");
    let one = world.head_commit();
    let none = world.rewrite(|t| git.reword_commits(&reword_args(&[]), t, 0));
    assert_eq!(none.unwrap_err().error, "reword requires 1..64 commit changes");
    let many: Vec<(&str, &str)> = vec![("HEAD", "feat: x"); 65];
    let too_many = world.rewrite(|t| git.reword_commits(&reword_args(&many), t, 0));
    assert_eq!(too_many.unwrap_err().error, "reword requires 1..64 commit changes");
    let twice = world.rewrite(|t| {
        git.reword_commits(&reword_args(&[("HEAD", "feat: x"), (&one, "feat: y")]), t, 0)
    });
    assert_eq!(twice.unwrap_err().error, "duplicate commit in reword request");
    let same = world.rewrite(|t| git.reword_commits(&reword_args(&[(&one, "feat: one")]), t, 0));
    assert_eq!(
        same.unwrap_err().error,
        "reword request does not change any commit message"
    );
    world.work.insert("dirty.txt".to_owned(), "dirty\n".to_owned());
    let dirty = world.rewrite(|t| git.reword_commits(&reword_args(&[(&one, "feat: x")]), t, 0));
    assert_eq!(
        dirty.unwrap_err().error,
        "history rewriting requires a clean working tree and index"
    );
    assert_eq!(world.head_commit(), one);
    assert!(!world.moved_any_reference());
}

#[test]
fn rewriting_stops_at_merges_and_detached_heads() {
    let mut world = merged_world("feature/inner");
    let git = server(false);
    let merge = world.head_commit();
    let first = world.commits[&merge].parents[0].clone();
    world.branches.insert("main".to_owned(), first);
    world.branches.insert("topic".to_owned(), merge.clone());
    world.head = Some("topic".to_owned());
    let over = world.rewrite(|t| git.reword_commits(&reword_args(&[(&merge, "feat: x")]), t, 0));
    assert_eq!(
        over.unwrap_err().error,
        "rewrite suffix contains a root or merge commit; merge-aware rewriting is not supported"
    );
    world.head = None;
    world.detached_at = merge.clone();
    let detached = world.rewrite(|t| git.reword_commits(&reword_args(&[(&merge, "feat: x")]), t, 0));
    assert_eq!(
        detached.unwrap_err().error,
        "history rewriting is not allowed in detached HEAD state"
    );
}

#[test]
fn squash_contiguous_range_preserves_final_tree_and_rejects_non_contiguous() {
    let mut world = World::new();
    let git = server(false);
    world.start_branch("feature/squash");
    world.commit_file("one.txt", "one\n", "feat: one");
    let one = world.head_commit();
    world.commit_file("two.txt", "two\n", "feat: two");
    let two = world.head_commit();
    world.commit_file("three.txt", "three\n", "feat: three");
    let three = world.head_commit();
    let tree_before = world.head_tree();
    let rejected = world
        .rewrite(|t| git.squash_commits(&squash_args(&[&one, &three], "feat: invalid squash"), t, 0));
    assert_eq!(
        rejected.unwrap_err().error,
        "squash commits must be one contiguous oldest-to-newest history range"
    );
    assert_eq!(world.head_commit(), three);

    let output = world
        .rewrite(|t| {
            git.squash_commits(&squash_args(&[&one, &two], "feat: combine one and two"), t, 0)
        })
        .unwrap();
    assert_eq!(output.squashed_count, 2);
    assert_eq!(world.head_tree(), tree_before);
    assert_eq!(
        world.subjects("main"),
        ["feat: combine one and two", "feat: three"]
    );
    assert_eq!(output.new_head, world.head_commit());
    assert_ne!(output.new_commit, output.new_head);
}

#[test]
fn squash_refuses_what_it_cannot_do() {
    let mut world = World::new();
    let git = server(false);
    world.start_branch("feature/squash");
    world.commit_file("one.txt", "one\n", "feat: one");
    let one = world.head_commit();
    world.commit_file("two.txt", "two\n", "feat: two");
    let two = world.head_commit();
    let single = world.rewrite(|t| git.squash_commits(&squash_args(&[&one], "feat: x"), t, 0));
    assert_eq!(single.unwrap_err().error, "squash requires 2..128 commits");
    let twice = world.rewrite(|t| git.squash_commits(&squash_args(&[&one, &one], "feat: x"), t, 0));
    assert_eq!(twice.unwrap_err().error, "duplicate commit in squash request");
    let backwards =
        world.rewrite(|t| git.squash_commits(&squash_args(&[&two, &one], "feat: x"), t, 0));
    assert_eq!(
        backwards.unwrap_err().error,
        "squash commits must be one contiguous oldest-to-newest history range"
    );
    let outside =
        world.rewrite(|t| git.squash_commits(&squash_args(&["main", &one], "feat: x"), t, 0));
    assert!(outside.unwrap_err().error.contains("is outside branch-local history"));
    assert_eq!(world.head_commit(), two);
    assert!(!world.moved_any_reference());
}

#[test]
fn local_only_allows_unpublished_suffix_but_blocks_upstream_commit() {
    let mut world = World::new();
    let git = server(false);
    world.start_branch("feature/published");
    world.commit_file("one.txt", "one\n", "feat: one");
    let published = world.head_commit();
    world.branches.insert("upstream-snapshot".to_owned(), published.clone());
    world.upstream = Some("upstream-snapshot".to_owned());
    world.commit_file("two.txt", "two\n", "feat: two");
    let local = world.head_commit();

    let allowed =
        world.rewrite(|t| git.reword_commits(&reword_args(&[(&local, "feat: local two")]), t, 0));
    assert!(allowed.is_ok());

    let blocked = world
        .rewrite(|t| git.reword_commits(&reword_args(&[(&published, "feat: published one")]), t, 0));
    assert_eq!(
        blocked.unwrap_err().error,
        format!("rewrite blocked: commit {published} is already reachable from upstream `upstream-snapshot`")
    );
    let mut free = reword_args(&[(&published, "feat: published one")]);
    free.rewrite_policy = RewritePolicy::AllowPublished;
    assert!(world.rewrite(|t| git.reword_commits(&free, t, 0)).is_ok());
}

#[test]
fn read_only_blocks_history_mutation() {
    let mut world = World::new();
    world.start_branch("feature/readonly");
    world.commit_file("one.txt", "one\n", "feat: one");
    let git = server(true);
    let blocked = world.rewrite(|t| git.amend_commit(&amend_args(Some("feat: blocked"), false), t, 0));
    let failure = blocked.unwrap_err();
    assert_eq!(
        failure.error,
        "Git MCP is running in read-only mode; local repository mutation is disabled"
    );
    assert_eq!(failure.current_head, "unknown");
    assert!(world.asked.is_empty());
}

#[test]
fn a_failure_tells_whether_the_branch_moved() {
    let mut world = World::new();
    let git = server(false);
    world.start_branch("feature/amend");
    world.commit_file("one.txt", "one\n", "feat: one");
    let before = world.head_commit();
    world.update_fails = true;
    let stayed = world
        .rewrite(|t| git.amend_commit(&amend_args(Some("feat: two"), false), t, 0))
        .unwrap_err();
    assert!(stayed.restored);
    assert_eq!(stayed.status, "failed");
    assert!(stayed.error.contains("cannot lock ref"));
    assert_eq!(stayed.current_head, before);
    world.update_fails = false;
    world.status_fails = true;
    let moved = world
        .rewrite(|t| git.amend_commit(&amend_args(Some("feat: two"), false), t, 0))
        .unwrap_err();
    assert!(!moved.restored);
    assert_eq!(moved.status, "repository_in_progress_state");
    assert_eq!(moved.original_head, before);
    assert_eq!(moved.current_head, world.head_commit());
    assert_ne!(moved.current_head, before);
}

// ---------------------------------------------------------------------------
// Branches and commits
// ---------------------------------------------------------------------------
#[test]
fn normal_commit_on_main_is_rejected() {
    let mut world = World::new();
    let git = server(false);
    world.work.insert("new.txt".to_owned(), "new\n".to_owned());
    world
        .drive(|t| git.git_stage("repo", &vec!["new.txt".to_owned()], t, 0))
        .unwrap();
    let before = world.head_commit();
    let branch = world.drive(|t| current_branch_required("repo", t, 0)).unwrap();
    assert_eq!(branch, "main");
    assert!(!world.drive(|t| merge_in_progress("repo", t, 0)).unwrap());
    assert_eq!(
        world
            .drive(|t| git.git_commit("repo", "feat: new", t, 0))
            .unwrap_err(),
        "normal commits are not allowed directly on protected branch `main`; create/switch to a work branch first"
    );
    assert_eq!(world.head_commit(), before);

    world.merging = true;
    world.drive(|t| git.git_commit("repo", "feat: new", t, 0)).unwrap();
    assert_ne!(world.head_commit(), before);
    world.merging = false;
    world.start_branch("feature/new");
    world.drive(|t| git.git_commit("repo", "feat: again", t, 0)).unwrap();
    assert!(world.drive(|t| git.git_commit("repo", "Again", t, 0)).is_err());
}

#[test]
fn switch_create_merge_and_delete_branch_use_no_ff_and_conventional_merge_message() {
    let mut world = World::new();
    let git = server(false);
    let original_head = world.head_commit();
    let created = world
        .drive(|t| git.create_branch("repo", "feature/no-ff", &None, true, t, 0))
        .unwrap();
    assert_eq!(created.branch, "feature/no-ff");
    assert_eq!(created.head, original_head);
    assert_eq!(created.operation, "create_branch");
    world.commit_file("feature.txt", "feature\n", "feat: feature");
    let feature_head = world.head_commit();
    assert!(world
        .drive(|t| git.merge_branch("repo", "main", MergeMode::NoFf, &None, t, 0))
        .is_err());
    world.drive(|t| git.switch_branch("repo", "main", t, 0)).unwrap();
    let result = world
        .drive(|t| git.merge_branch("repo", "feature/no-ff", MergeMode::NoFf, &None, t, 0))
        .unwrap();
    assert_eq!(result.branch, "main");
    assert_ne!(result.head, feature_head);
    assert_eq!(world.commits[&world.head_commit()].parents.len(), 2);
    assert_eq!(
        world.commits[&world.head_commit()].message,
        "feat: merge feature/no-ff"
    );
    world
        .drive(|t| git.delete_branch("repo", "feature/no-ff", t, 0))
        .unwrap();
    assert_eq!(
        world
            .drive(|t| git.delete_branch("repo", "feature/no-ff", t, 0))
            .unwrap_err(),
        "local branch does not exist: `feature/no-ff`"
    );
    assert_eq!(
        world
            .drive(|t| git.create_branch("repo", "main", &None, false, t, 0))
            .unwrap_err(),
        "local branch already exists: `main`"
    );
    assert_eq!(
        world
            .drive(|t| git.create_branch("repo", "x", &Some("gone".to_owned()), false, t, 0))
            .unwrap_err(),
        "start point does not resolve to a commit: `gone`"
    );
    world.work.insert("dirty.txt".to_owned(), "dirty\n".to_owned());
    assert_eq!(
        world
            .drive(|t| git.merge_branch("repo", "main", MergeMode::NoFf, &None, t, 0))
            .unwrap_err(),
        "merge requires a clean working tree and index"
    );
}

// ---------------------------------------------------------------------------
// Recovery
// ---------------------------------------------------------------------------
#[test]
fn guarded_rewind_moves_only_expected_merge_to_first_parent() {
    let mut world = World::new();
    let base = world.head_commit();
    let git = server(false);
    world
        .drive(|t| git.create_branch("repo", "feature/rewind", &None, true, t, 0))
        .unwrap();
    world.commit_file("feature.txt", "feature\n", "feat: rewind fixture");
    world.drive(|t| git.switch_branch("repo", "main", t, 0)).unwrap();
    let merged = world
        .drive(|t| git.merge_branch("repo", "feature/rewind", MergeMode::NoFf, &None, t, 0))
        .unwrap();
    let args = RewindMergeArgs {
        repo: "repo".to_owned(),
        expected_merge: merged.head.clone(),
        remote: None,
        publication_guard: PublicationGuard::CallerConfirmedUnpublished,
    };
    let output = world.rewrite(|t| git.rewind_merge(&args, t, 0)).unwrap();
    assert_eq!(output.operation, "rewind_merge");
    assert_eq!(output.branch, "main");
    assert_eq!(output.old_head, merged.head);
    assert_eq!(output.first_parent, base);
    assert_eq!(output.new_head, base);
    assert_eq!(world.head_commit(), base);
    assert_eq!(world.changes(), "");
}

#[test]
fn a_rewind_asks_for_the_expected_unpublished_merge() {
    let mut world = World::new();
    let base = world.head_commit();
    let git = server(false);
    world
        .drive(|t| git.create_branch("repo", "feature/rewind", &None, true, t, 0))
        .unwrap();
    world.commit_file("feature.txt", "feature\n", "feat: rewind fixture");
    world.drive(|t| git.switch_branch("repo", "main", t, 0)).unwrap();
    let merged = world
        .drive(|t| git.merge_branch("repo", "feature/rewind", MergeMode::NoFf, &None, t, 0))
        .unwrap();
    let mut args = RewindMergeArgs {
        repo: "repo".to_owned(),
        expected_merge: base.clone(),
        remote: None,
        publication_guard: PublicationGuard::CallerConfirmedUnpublished,
    };
    let unexpected = world.rewrite(|t| git.rewind_merge(&args, t, 0)).unwrap_err();
    assert_eq!(
        unexpected.error,
        format!("rewind blocked: HEAD is {}, expected merge is {base}", merged.head)
    );
    args.expected_merge = merged.head.clone();
    args.publication_guard = PublicationGuard::VerifyRemote;
    let no_permission = world.rewrite(|t| git.rewind_merge(&args, t, 0)).unwrap_err();
    assert!(no_permission.error.starts_with("remote Git reads are disabled"));
    let mut reading = server(false);
    reading.allow_remote_read = true;
    world.remote_refs.insert("origin/main".to_owned(), merged.head.clone());
    let published = world.rewrite(|t| reading.rewind_merge(&args, t, 0)).unwrap_err();
    assert_eq!(
        published.error,
        "rewind blocked: merge commit is published on remote `origin`"
    );
    assert_eq!(world.head_commit(), merged.head);
    world.remote_refs.clear();
    let output = world.rewrite(|t| reading.rewind_merge(&args, t, 0)).unwrap();
    assert_eq!(output.first_parent, base);
    assert_eq!(output.new_head, base);
    assert_eq!(world.head_commit(), base);
    assert_eq!(world.changes(), "");
    args.expected_merge = "HEAD".to_owned();
    let no_merge = world.rewrite(|t| reading.rewind_merge(&args, t, 0)).unwrap_err();
    assert_eq!(
        no_merge.error,
        "rewind requires HEAD to be a two-parent merge commit"
    );
}

#[test]
fn guarded_tag_replacement_is_atomic_and_annotated() {
    let mut world = World::new();
    let git = server(false);
    let old_target = world.head_commit();
    world
        .drive(|t| git.git_tag("repo", "v0.1.0", &Some("Release v0.1.0".to_owned()), t, 0))
        .unwrap();
    world.start_branch("feature/tag");
    world.commit_file("next.txt", "next\n", "feat: next");
    let new_target = world.head_commit();
    let mut args = ReplaceLocalTagArgs {
        repo: "repo".to_owned(),
        name: "v0.1.0".to_owned(),
        expected_old_target: new_target.clone(),
        new_target: Some(new_target.clone()),
        message: "Release v0.1.0".to_owned(),
        remote: None,
        publication_guard: PublicationGuard::CallerConfirmedUnpublished,
    };
    assert_eq!(
        world
            .drive(|t| git.replace_local_tag(&args, 7, 1, t, 0))
            .unwrap_err(),
        format!("tag replacement blocked: `v0.1.0` currently targets {old_target}, expected {new_target}")
    );
    args.expected_old_target = old_target.clone();
    let output = world
        .drive(|t| git.replace_local_tag(&args, 7, 1, t, 0))
        .unwrap();
    assert_eq!(output.new_target, new_target);
    assert_eq!(output.old_target, old_target);
    assert!(output.annotated);
    assert!(output.temporary_tag_cleanup);
    assert_eq!(world.tags["v0.1.0"].target, new_target);
    assert!(world.tags["v0.1.0"].annotated);
    assert_eq!(world.tags.len(), 1);
    assert!(world.asked.iter().any(|command| matches!(
        command,
        Command::DeleteTag { name } if name == "mcp-replacement/v0.1.0-7-1"
    )));
}

#[test]
fn a_rewind_that_has_no_effect_is_noticed() {
    let mut world = merged_world("feature/stuck");
    let git = server(false);
    world.reset_does_nothing = true;
    let args = RewindMergeArgs {
        repo: "repo".to_owned(),
        expected_merge: "HEAD".to_owned(),
        remote: None,
        publication_guard: PublicationGuard::CallerConfirmedUnpublished,
    };
    let failure = world.rewrite(|t| git.rewind_merge(&args, t, 0)).unwrap_err();
    assert_eq!(
        failure.error,
        "rewind failed integrity check: HEAD did not move to merge first parent"
    );
    assert!(failure.restored);
    world.work.insert("dirty.txt".to_owned(), "dirty\n".to_owned());
    let dirty = world.rewrite(|t| git.rewind_merge(&args, t, 0)).unwrap_err();
    assert_eq!(dirty.error, "rewind requires a clean working tree and index");
}

#[test]
fn a_failed_tag_replacement_leaves_no_temporary_tag() {
    let mut world = World::new();
    let git = server(false);
    let head = world.head_commit();
    world
        .drive(|t| git.git_tag("repo", "rel/v1", &Some("Release".to_owned()), t, 0))
        .unwrap();
    world.update_fails = true;
    let mut args = ReplaceLocalTagArgs {
        repo: "repo".to_owned(),
        name: "rel/v1".to_owned(),
        expected_old_target: head.clone(),
        new_target: None,
        message: "Release again".to_owned(),
        remote: None,
        publication_guard: PublicationGuard::CallerConfirmedUnpublished,
    };
    let error = world
        .drive(|t| git.replace_local_tag(&args, 7, 2, t, 0))
        .unwrap_err();
    assert!(error.contains("cannot lock ref"));
    assert_eq!(world.tags.len(), 1);
    assert!(world.asked.iter().any(|command| matches!(
        command,
        Command::DeleteTag { name } if name == "mcp-replacement/rel-v1-7-2"
    )));
    world.update_fails = false;
    args.publication_guard = PublicationGuard::VerifyRemote;
    let mut reading = server(false);
    reading.allow_remote_read = true;
    world.remote_tags.insert("rel/v1".to_owned());
    assert_eq!(
        world
            .drive(|t| reading.replace_local_tag(&args, 7, 3, t, 0))
            .unwrap_err(),
        "tag replacement blocked: `rel/v1` already exists on remote `origin`"
    );
    world.remote_tags.clear();
    let replaced = world
        .drive(|t| reading.replace_local_tag(&args, 7, 4, t, 0))
        .unwrap();
    assert_eq!(replaced.new_target, head);
}

#[test]
fn publication_is_verified_before_anything_is_taken_back() {
    let mut world = World::new();
    let mut git = server(false);
    let head = world.head_commit();
    let args = VerifyUnpublishedArgs {
        repo: "repo".to_owned(),
        remote: None,
        commits: vec!["HEAD".to_owned()],
        tags: vec!["v1.0.0".to_owned()],
    };
    assert!(world.drive(|t| git.verify_unpublished(&args, t, 0)).is_err());
    git.allow_remote_read = true;
    let free = world.drive(|t| git.verify_unpublished(&args, t, 0)).unwrap();
    assert!(free.unpublished && free.fetched);
    assert_eq!(free.commits_checked, [head.clone()]);
    assert!(world.asked.iter().any(|command| matches!(command, Command::FetchTags { .. })));
    world.remote_refs.insert("origin/main".to_owned(), head.clone());
    world.remote_tags.insert("v1.0.0".to_owned());
    let taken = world.drive(|t| git.verify_unpublished(&args, t, 0)).unwrap();
    assert!(!taken.unpublished);
    assert_eq!(taken.published_commits[0].commit, head);
    assert_eq!(taken.published_commits[0].refs, ["origin/main"]);
    assert_eq!(taken.published_tags[0].tag, "v1.0.0");
    let mut nothing = VerifyUnpublishedArgs {
        repo: "repo".to_owned(),
        remote: None,
        commits: Vec::new(),
        tags: Vec::new(),
    };
    assert_eq!(
        world.drive(|t| git.verify_unpublished(&nothing, t, 0)).unwrap_err(),
        "publication verification requires at least one commit or tag"
    );
    nothing.tags = vec!["t".to_owned(); 65];
    assert_eq!(
        world.drive(|t| git.verify_unpublished(&nothing, t, 0)).unwrap_err(),
        "publication verification accepts at most 64 commits and 64 tags"
    );
    nothing.tags.truncate(1);
    nothing.remote = Some("-x".to_owned());
    assert_eq!(
        world.drive(|t| git.verify_unpublished(&nothing, t, 0)).unwrap_err(),
        "invalid remote"
    );
}

// ---------------------------------------------------------------------------
// Releases
// ---------------------------------------------------------------------------
fn release_args(version: &str, evidence: Option<String>) -> ReleaseTagArgs {
    ReleaseTagArgs {
        repo: "repo".to_owned(),
        version: version.to_owned(),
        message: None,
        release_evidence_path: evidence,
    }
}

#[test]
fn release_tag_requires_clean_main_merge_head() {
    let mut world = merged_world("feature/release");
    let git = server(false);
    world
        .drive(|t| git.create_release_tag(&release_args("1.0.0", None), t, 0))
        .unwrap();
    assert_eq!(world.tags["v1.0.0"].target, world.head_commit());
    assert!(world.tags["v1.0.0"].annotated);
    assert_eq!(
        world
            .drive(|t| git.create_release_tag(&release_args("1.0.0", None), t, 0))
            .unwrap_err(),
        "release tag `v1.0.0` already exists; use guarded tag-recovery tooling rather than silently moving it"
    );
    world.work.insert("dirty.txt".to_owned(), "dirty\n".to_owned());
    assert_eq!(
        world
            .drive(|t| git.create_release_tag(&release_args("1.0.1", None), t, 0))
            .unwrap_err(),
        "release tagging requires a clean working tree and index"
    );
    world.work.remove("dirty.txt");
    world.start_branch("feature/more");
    assert_eq!(
        world
            .drive(|t| git.create_release_tag(&release_args("1.0.1", None), t, 0))
            .unwrap_err(),
        "release tags may only be created on protected trunk `main`"
    );
    let mut plain = World::new();
    assert_eq!(
        plain
            .drive(|t| git.create_release_tag(&release_args("1.0.1", None), t, 0))
            .unwrap_err(),
        "release tagging requires HEAD to be the two-parent no-ff merge result"
    );
    assert!(plain
        .drive(|t| git.create_release_tag(&release_args("1.0", None), t, 0))
        .is_err());
}

#[test]
fn release_tag_enforcement_requires_exact_pass_evidence() {
    let mut world = merged_world("feature/evidence");
    let mut git = server(false);
    git.release_evidence_root = Some(b"/work/evidence".to_vec());
    git.release_evidence_required_repos.push("repo".to_owned());

    let missing = world.drive(|t| git.create_release_tag(&release_args("1.1.0", None), t, 0));
    assert_eq!(
        missing.unwrap_err(),
        "release evidence is required for this repository; provide release_evidence_path"
    );

    let head = world.head_commit();
    let relative = format!("repo-project/{head}.json");
    let path = format!("/work/evidence/{relative}").into_bytes();
    let absent =
        world.drive(|t| git.create_release_tag(&release_args("1.1.0", Some(relative.clone())), t, 0));
    assert_eq!(absent.unwrap_err(), "cannot read release evidence: not found");
    let good = EvidenceFields {
        status: "PASS".to_owned(),
        commit: head.clone(),
        repo: "/work/repo".to_owned(),
        analysis_id: Some("analysis-1".to_owned()),
    };
    let stale = EvidenceFields { commit: "0".repeat(40), ..good.clone() };
    let failing = EvidenceFields { status: "FAIL".to_owned(), ..good.clone() };
    let elsewhere = EvidenceFields { repo: "/work/other".to_owned(), ..good.clone() };
    let unnamed = EvidenceFields { analysis_id: Some(String::new()), ..good.clone() };
    for bad in [stale, failing, elsewhere, unnamed] {
        world.evidence.insert(path.clone(), bad);
        let refused = world
            .drive(|t| git.create_release_tag(&release_args("1.1.0", Some(relative.clone())), t, 0));
        assert_eq!(
            refused.unwrap_err(),
            "release evidence does not prove a PASS for the current main HEAD"
        );
    }
    assert!(world.tags.is_empty());
    world.evidence.insert(path, good);
    world
        .drive(|t| git.create_release_tag(&release_args("1.1.0", Some(relative.clone())), t, 0))
        .unwrap();
    assert_eq!(world.tags["v1.1.0"].target, world.head_commit());
}
