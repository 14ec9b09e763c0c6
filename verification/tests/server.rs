use std::collections::BTreeMap;

use rust_mcp_git::command::Command;
use rust_mcp_git::flow::{
    EvidenceFile, Flow, GitRequest, Halt, PathFacts, ProcessOutput, ReleaseEvidence, Reply,
};
use rust_mcp_git::history::{history_plan, parse_history, MAX_HISTORY_COMMITS};
use rust_mcp_git::output::{bounded_utf8, decode_strict, format_git_failure, GitOutput};
use rust_mcp_git::paths::PathStyle;
use rust_mcp_git::queries::{head_sha, is_ancestor, remote_refs_containing, upstream};
use rust_mcp_git::readiness::clamp_commits;
use rust_mcp_git::release::evidence_proves_pass;
use rust_mcp_git::server::{Answer, GitServer};
use rust_mcp_git::snapshot::{commit_snapshot, parse_snapshot};
use rust_mcp_git::tools::{git_branches, git_log, git_show, git_status};

fn server() -> GitServer {
    GitServer::new(
        PathStyle::Unix,
        b"/work".to_vec(),
        false,
        false,
        false,
        false,
        64,
        None,
        &Vec::new(),
    )
    .unwrap()
}

fn request<T>(flow: Flow<T>) -> GitRequest {
    match flow {
        Err(Halt::Ask(request)) => request,
        Err(Halt::Fail(error, _)) => panic!("failed: {error}"),
        Ok(_) => panic!("done"),
    }
}

fn failure<T>(flow: Flow<T>) -> String {
    match flow {
        Err(Halt::Fail(error, _)) => error,
        Err(Halt::Ask(request)) => panic!("asks {request:?}"),
        Ok(_) => panic!("done"),
    }
}

fn directory(path: &str) -> Reply {
    Reply::Path(Ok(PathFacts {
        path: path.as_bytes().to_vec(),
        is_dir: true,
        is_file: false,
    }))
}

fn process(exit_code: Option<i32>, stdout: &[u8], stderr: &[u8]) -> Reply {
    Reply::Run(Ok(ProcessOutput {
        exit_code,
        stdout: stdout.to_vec(),
        stderr: stderr.to_vec(),
    }))
}

fn output(exit_code: Option<i32>, stdout: &str, stderr: &str) -> GitOutput {
    GitOutput {
        exit_code,
        stdout: stdout.to_owned(),
        stderr: stderr.to_owned(),
        truncated: false,
    }
}

fn git(exit_code: i32, stdout: &str) -> Reply {
    Reply::Git(Ok(output(Some(exit_code), stdout, "")))
}

// ---------------------------------------------------------------------------
// Servers
// ---------------------------------------------------------------------------
#[test]
fn a_server_takes_its_switches() {
    let both = GitServer::new(
        PathStyle::Unix,
        b"/w".to_vec(),
        true,
        true,
        false,
        false,
        0,
        None,
        &vec!["b".to_owned(), "./a".to_owned(), "b".to_owned()],
    )
    .unwrap();
    assert!(both.allow_remote_read && both.allow_remote_write && both.read_only);
    assert_eq!(both.max_output_bytes, 1);
    assert_eq!(both.release_evidence_required_repos, ["a", "b"]);
    assert_eq!(
        both.ensure_writable().unwrap_err(),
        "Git MCP is running in read-only mode; local repository mutation is disabled"
    );
    let plain = server();
    assert!(plain.ensure_writable().is_ok());
    assert!(plain.ensure_remote_read().unwrap_err().contains("--allow-remote-read"));
    assert!(plain.ensure_remote_write().unwrap_err().contains("--allow-remote-write"));
    assert!(both.ensure_remote_read().is_ok() && both.ensure_remote_write().is_ok());
    let refused = GitServer::new(
        PathStyle::Unix,
        b"/w".to_vec(),
        false,
        false,
        false,
        false,
        1,
        None,
        &vec!["../x".to_owned()],
    );
    assert_eq!(refused.unwrap_err(), "parent traversal (`..`) is not allowed");
}

// ---------------------------------------------------------------------------
// Repositories
// ---------------------------------------------------------------------------
#[test]
fn a_repository_is_resolved_step_by_step() {
    let git = server();
    let mut t: Vec<Reply> = Vec::new();
    match request(git.resolve_repo("repo", &t, 0)) {
        GitRequest::Canonicalize { path } => assert_eq!(path, b"/work/repo"),
        other => panic!("{other:?}"),
    }
    t.push(directory("/work/repo"));
    match request(git.resolve_repo("repo", &t, 0)) {
        GitRequest::Run { directory, arguments, variables } => {
            assert_eq!(directory, b"/work/repo");
            assert_eq!(
                arguments,
                ["-c", "core.hooksPath=/dev/null", "rev-parse", "--show-toplevel"]
            );
            assert!(variables.is_empty());
        }
        other => panic!("{other:?}"),
    }
    t.push(process(Some(0), b"/work/repo\n", b""));
    match request(git.resolve_repo("repo", &t, 0)) {
        GitRequest::Canonicalize { path } => assert_eq!(path, b"/work/repo"),
        other => panic!("{other:?}"),
    }
    t.push(directory("/work/repo"));
    let (root, read) = git.resolve_repo("repo", &t, 0).unwrap();
    assert_eq!(root, b"/work/repo");
    assert_eq!(read, 3);
}

#[test]
fn rejects_subdirectory_as_repo_selector() {
    let t = vec![
        directory("/work/repo/subdir"),
        process(Some(0), b"/work/repo\n", b""),
        directory("/work/repo"),
    ];
    assert_eq!(
        failure(server().resolve_repo("repo/subdir", &t, 0)),
        "repository selector must name the Git repository root, not a subdirectory: `repo/subdir`"
    );
}

#[test]
fn rejects_symlink_escape() {
    let t = vec![directory("/outside")];
    assert_eq!(
        failure(server().resolve_repo("escape", &t, 0)),
        "repository resolves outside the configured workspace root: `escape`"
    );
    let sibling = vec![directory("/workshop")];
    assert!(failure(server().resolve_repo("escape", &sibling, 0)).contains("outside"));
}

#[test]
fn windows_repositories_are_resolved_below_the_workspace() {
    let mut git = server();
    git.path_style = PathStyle::Windows;
    git.workspace_root = b"\\\\?\\C:\\work".to_vec();
    let asks = |repo: &str| match request(git.resolve_repo(repo, &Vec::new(), 0)) {
        GitRequest::Canonicalize { path } => String::from_utf8(path).unwrap(),
        other => panic!("{other:?}"),
    };
    assert_eq!(asks("."), "\\\\?\\C:\\work");
    assert_eq!(asks("a/b\\c"), "\\\\?\\C:\\work\\a\\b\\c");
    assert_eq!(asks("a/D:x"), "D:x");
    assert_eq!(
        failure(git.resolve_repo("..\\x", &Vec::new(), 0)),
        "parent traversal (`..`) is not allowed"
    );
    let inside = "\\\\?\\C:\\work\\a";
    let t = vec![directory(inside), process(Some(0), b"C:/work/a\n", b""), directory(inside)];
    assert_eq!(git.resolve_repo("a", &t, 0).unwrap().0, inside.as_bytes());
    let sibling = vec![directory("\\\\?\\C:\\workshop")];
    assert!(failure(git.resolve_repo("a", &sibling, 0)).contains("outside"));
}

#[test]
fn what_is_no_repository_is_reported() {
    let git = server();
    assert_eq!(
        failure(git.resolve_repo("../x", &Vec::new(), 0)),
        "parent traversal (`..`) is not allowed"
    );
    assert_eq!(
        failure(git.resolve_repo("x", &vec![Reply::Path(Err("gone".to_owned()))], 0)),
        "cannot resolve repository `x`: gone"
    );
    let file = vec![Reply::Path(Ok(PathFacts {
        path: b"/work/x".to_vec(),
        is_dir: false,
        is_file: true,
    }))];
    assert_eq!(
        failure(git.resolve_repo("x", &file, 0)),
        "repository target is not a directory: `x`"
    );
    let no_git = vec![directory("/work/x"), Reply::Run(Err("no git".to_owned()))];
    assert_eq!(
        failure(git.resolve_repo("x", &no_git, 0)),
        "failed to execute `git`: no git"
    );
    let plain = vec![directory("/work/x"), process(Some(128), b"", b" fatal: no \n")];
    assert_eq!(
        failure(git.resolve_repo("x", &plain, 0)),
        "target is not a Git repository: `x`: fatal: no"
    );
    let silent = vec![directory("/work/x"), process(None, b"", b"")];
    assert_eq!(
        failure(git.resolve_repo("x", &silent, 0)),
        "target is not a Git repository: `x`"
    );
    let garbled = vec![directory("/work/x"), process(Some(0), b"/work/\xff\n", b"")];
    assert_eq!(
        failure(git.resolve_repo("x", &garbled, 0)),
        "Git returned a non-UTF-8 repository path"
    );
    let vanished = vec![
        directory("/work/x"),
        process(Some(0), b"/work/x\n", b""),
        Reply::Path(Err("gone".to_owned())),
    ];
    assert_eq!(
        failure(git.resolve_repo("x", &vanished, 0)),
        "cannot canonicalize Git repository root `/work/x`: gone"
    );
    let elsewhere = vec![
        directory("/work/x"),
        process(Some(0), b"/else\n", b""),
        directory("/else"),
    ];
    assert_eq!(
        failure(git.resolve_repo("x", &elsewhere, 0)),
        "Git repository root resolves outside the configured workspace: `x`"
    );
    let confused = vec![git_reply_of_another_kind()];
    assert_eq!(
        failure(git.resolve_repo("x", &confused, 0)),
        "reply does not answer the request"
    );
}

fn git_reply_of_another_kind() -> Reply {
    git(0, "")
}

// ---------------------------------------------------------------------------
// Commands
// ---------------------------------------------------------------------------
#[test]
fn a_command_runs_unattended_and_without_hooks() {
    let git = server();
    let mut t = vec![
        directory("/work/repo"),
        process(Some(0), b"/work/repo\n", b""),
        directory("/work/repo"),
    ];
    match request(git.execute_git("repo", &Command::HeadCommit, &t, 0)) {
        GitRequest::Run { directory, arguments, variables } => {
            assert_eq!(directory, b"/work/repo");
            assert_eq!(
                arguments,
                ["-c", "core.hooksPath=/dev/null", "rev-parse", "--verify", "HEAD"]
            );
            let pairs: Vec<(&str, &str)> =
                variables.iter().map(|(k, v)| (k.as_str(), v.as_str())).collect();
            assert_eq!(pairs, [("GIT_PAGER", "cat"), ("PAGER", "cat"), ("GIT_EDITOR", "true")]);
        }
        other => panic!("{other:?}"),
    }
    t.push(process(Some(0), &[b'x'; 100], b"short"));
    let (ran, _) = git.execute_git("repo", &Command::HeadCommit, &t, 0).unwrap();
    assert!(ran.truncated);
    assert_eq!(ran.exit_code, Some(0));
    assert_eq!(
        ran.stdout,
        format!("{}\n[output truncated by MCP Git]\n", "x".repeat(64))
    );
    assert_eq!(ran.stderr, "short");
    match git.answer_git("repo", &Command::HeadCommit, &t) {
        Answer::Reply(Reply::Git(Ok(reply))) => assert_eq!(reply.stdout, ran.stdout),
        other => panic!("{other:?}"),
    }
    match git.answer_git("..", &Command::HeadCommit, &Vec::new()) {
        Answer::Reply(Reply::Git(Err(error))) => {
            assert_eq!(error, "parent traversal (`..`) is not allowed")
        }
        other => panic!("{other:?}"),
    }
    assert!(matches!(
        git.answer_git("repo", &Command::HeadCommit, &Vec::new()),
        Answer::Ask(GitRequest::Canonicalize { .. })
    ));
    t.pop();
    t.push(Reply::Run(Err("no git".to_owned())));
    assert_eq!(
        failure(git.execute_git("repo", &Command::HeadCommit, &t, 0)),
        "failed to execute git: no git"
    );
}

#[test]
fn output_is_decoded_and_bounded() {
    let mut truncated = false;
    assert_eq!(bounded_utf8(b"abc".to_vec(), 3, &mut truncated), "abc");
    assert!(!truncated);
    assert_eq!(bounded_utf8(b"a\xffb".to_vec(), 9, &mut truncated), "a\u{fffd}b");
    assert_eq!(
        bounded_utf8("aé".as_bytes().to_vec(), 2, &mut truncated),
        "a\u{fffd}\n[output truncated by MCP Git]\n"
    );
    assert!(truncated);
    assert_eq!(decode_strict(&"é".as_bytes().to_vec()).unwrap(), "é");
    assert!(decode_strict(&b"\xc3".to_vec()).is_none());
    assert_eq!(decode_strict(&"\u{fffd}".as_bytes().to_vec()).unwrap(), "\u{fffd}");
}

#[test]
fn failures_are_reported_as_sorted_json() {
    let report = format_git_failure(&output(Some(128), " out \n", "fatal: \"x\"\n"));
    let parsed: BTreeMap<String, String> = serde_json::from_str(&report).unwrap();
    assert_eq!(parsed["exit_code"], "128");
    assert_eq!(parsed["stderr"], "fatal: \"x\"");
    assert_eq!(parsed["stdout"], "out");
    assert_eq!(
        format_git_failure(&output(None, "", " ")),
        "{\n  \"exit_code\": \"signal\"\n}"
    );
    assert_eq!(
        format_git_failure(&output(Some(-1), "o", "e")),
        "{\n  \"exit_code\": \"-1\",\n  \"stderr\": \"e\",\n  \"stdout\": \"o\"\n}"
    );
}

// ---------------------------------------------------------------------------
// Questions
// ---------------------------------------------------------------------------
#[test]
fn replies_are_read_as_git_means_them() {
    let sha = "a".repeat(40);
    assert_eq!(head_sha("r", &vec![git(0, &format!("{sha}\n"))], 0).unwrap(), (sha, 1));
    assert!(is_ancestor("r", "a", "b", &vec![git(0, "")], 0).unwrap().0);
    assert!(!is_ancestor("r", "a", "b", &vec![git(1, "")], 0).unwrap().0);
    assert!(failure(is_ancestor("r", "a", "b", &vec![git(128, "")], 0)).contains("128"));
    assert_eq!(upstream("r", &vec![git(0, "origin/x\n")], 0).unwrap().0.unwrap(), "origin/x");
    assert!(upstream("r", &vec![git(128, "")], 0).unwrap().0.is_none());
    let listed = vec![git(0, "c\n"), git(0, "c\n"), git(0, "origin/a\n\n origin/b\n")];
    assert_eq!(
        remote_refs_containing("r", "c", &listed, 0).unwrap().0,
        ["origin/a", " origin/b"]
    );
    assert_eq!(
        failure(head_sha("r", &vec![Reply::Git(Err("refused".to_owned()))], 0)),
        "refused"
    );
    assert_eq!(
        failure(head_sha("r", &vec![directory("/x")], 0)),
        "reply does not answer the request"
    );
}

#[test]
fn histories_are_parsed_line_by_line() {
    let line = |subject: &str| format!("s\u{1f}p q\u{1f}N\u{1f}e@x\u{1f}d\u{1f}{subject}");
    let commits = parse_history(&format!("{}\n{}", line("feat: a"), line("B"))).unwrap();
    assert_eq!(commits.len(), 2);
    assert_eq!(commits[0].parents, 2);
    assert_eq!(commits[0].author, "N <e@x>");
    assert_eq!(commits[0].timestamp, "d");
    assert!(commits[0].conventional && !commits[1].conventional);
    assert_eq!(parse_history("").unwrap().len(), 0);
    assert_eq!(
        parse_history("too\u{1f}short").unwrap_err(),
        "unexpected git log output while building history plan"
    );
    let most = vec![line("feat: a"); MAX_HISTORY_COMMITS].join("\n");
    assert_eq!(parse_history(&most).unwrap().len(), 512);
    let more = vec![line("feat: a"); MAX_HISTORY_COMMITS + 1].join("\n");
    assert_eq!(
        parse_history(&more).unwrap_err(),
        "branch-local history exceeds safety limit of 512 commits"
    );
}

#[test]
fn commits_are_taken_apart_field_by_field() {
    let fields = "t\u{1f}p1 p2\u{1f}A\u{1f}a@x\u{1f}ad\u{1f}C\u{1f}c@x\u{1f}cd\u{1f}feat: x\u{1f}y\n\nbody\n\n";
    let snapshot = parse_snapshot("s".to_owned(), fields).unwrap();
    assert_eq!(snapshot.parents, ["p1", "p2"]);
    assert_eq!(snapshot.message, "feat: x\u{1f}y\n\nbody");
    assert_eq!(snapshot.subject(), "feat: x\u{1f}y");
    assert_eq!(snapshot.committer_date, "cd");
    let names = [
        "missing commit parents",
        "missing author name",
        "missing author email",
        "missing author date",
        "missing committer name",
        "missing committer email",
        "missing committer date",
        "missing commit message",
    ];
    for (count, name) in names.iter().enumerate() {
        let short = vec!["x"; count + 1].join("\u{1f}");
        assert_eq!(parse_snapshot("s".to_owned(), &short).unwrap_err(), *name);
    }
    let mut cut = output(Some(0), "t", "");
    cut.truncated = true;
    let t = vec![git(0, "s\n"), git(0, "s\n"), Reply::Git(Ok(cut))];
    assert_eq!(
        failure(commit_snapshot("r", "HEAD", &t, 0)),
        "commit metadata exceeded configured Git MCP output limit"
    );
}

#[test]
fn truncated_histories_are_refused() {
    let mut cut = output(Some(0), "", "");
    cut.truncated = true;
    let t = vec![
        git(0, "topic\n"),
        git(0, "b\n"),
        git(0, "b\n"),
        git(0, "b\n"),
        Reply::Git(Ok(cut)),
    ];
    assert_eq!(
        failure(history_plan("r", "main", &t, 0)),
        "history output exceeded configured Git MCP output limit"
    );
}

// ---------------------------------------------------------------------------
// Single commands
// ---------------------------------------------------------------------------
fn command<T>(flow: Flow<T>) -> Vec<String> {
    match request(flow) {
        GitRequest::Git { command, .. } => command.to_arguments(),
        other => panic!("{other:?}"),
    }
}

#[test]
fn views_ask_for_their_commands() {
    let t: Vec<Reply> = Vec::new();
    assert_eq!(command(git_status("r", &t, 0))[0], "status");
    assert_eq!(command(git_branches("r", &t, 0))[1], "--list");
    assert_eq!(command(git_log("r", None, &t, 0))[4], "20");
    assert_eq!(command(git_log("r", Some(0), &t, 0))[4], "1");
    assert_eq!(command(git_log("r", Some(500), &t, 0))[4], "200");
    assert_eq!(command(git_log("r", Some(7), &t, 0))[4], "7");
    assert_eq!(command(git_show("r", "HEAD", true, &t, 0))[4], "--stat");
    assert_eq!(failure(git_show("r", "-x", true, &t, 0)), "invalid revision");
    assert_eq!(
        command(server().git_diff("r", true, &Some("./a".to_owned()), &t, 0)).last().unwrap(),
        "a"
    );
    assert!(failure(server().git_diff("r", false, &Some("/a".to_owned()), &t, 0)).contains("absolute"));
}

#[test]
fn remotes_need_permission() {
    let t: Vec<Reply> = Vec::new();
    let none = server();
    assert!(failure(none.git_fetch("r", &None, &t, 0)).starts_with("remote Git reads"));
    assert!(failure(none.git_pull("r", &None, &None, &t, 0)).starts_with("remote Git reads"));
    assert!(failure(none.git_push("r", &None, &None, &t, 0)).starts_with("remote Git writes"));
    let mut all = server();
    all.allow_remote_read = true;
    all.allow_remote_write = true;
    assert_eq!(command(all.git_fetch("r", &None, &t, 0)), ["fetch", "--prune", "--", "origin"]);
    assert_eq!(
        command(all.git_pull("r", &Some("up".to_owned()), &Some("b".to_owned()), &t, 0)),
        ["pull", "--ff-only", "--", "up", "b"]
    );
    assert_eq!(
        command(all.git_push("r", &None, &Some("HEAD:b".to_owned()), &t, 0)),
        ["push", "--", "origin", "HEAD:b"]
    );
    assert_eq!(
        failure(all.git_push("r", &None, &Some("+HEAD:b".to_owned()), &t, 0)),
        "force push refspecs are not allowed"
    );
    assert_eq!(failure(all.git_push("r", &Some("-r".to_owned()), &None, &t, 0)), "invalid remote");
    assert_eq!(
        failure(all.git_pull("r", &None, &Some("-b".to_owned()), &t, 0)),
        "invalid branch"
    );
    all.read_only = true;
    assert!(failure(all.git_fetch("r", &None, &t, 0)).contains("read-only"));
    assert_eq!(command(all.git_push("r", &None, &None, &t, 0)), ["push", "--", "origin"]);
}

#[test]
fn paths_and_tags_ask_for_their_commands() {
    let t: Vec<Reply> = Vec::new();
    let git_server = server();
    let paths = vec!["./a".to_owned(), "b".to_owned()];
    assert_eq!(command(git_server.git_stage("r", &paths, &t, 0)), ["add", "--", "a", "b"]);
    assert_eq!(
        command(git_server.git_unstage("r", &paths, &t, 0)),
        ["restore", "--staged", "--", "a", "b"]
    );
    assert_eq!(
        command(git_server.git_restore("r", &paths, &t, 0)),
        ["restore", "--worktree", "--", "a", "b"]
    );
    assert_eq!(
        failure(git_server.git_stage("r", &Vec::new(), &t, 0)),
        "at least one path is required"
    );
    let named = vec![git(0, "")];
    assert_eq!(command(git_server.git_tag("r", "v1", &None, &named, 0)), ["tag", "v1"]);
    assert_eq!(
        command(git_server.git_tag("r", "v1", &Some("m".to_owned()), &named, 0)),
        ["tag", "-a", "v1", "-m", "m"]
    );
    assert_eq!(failure(git_server.git_tag("r", "-v", &None, &t, 0)), "invalid tag name");
    assert!(failure(git_server.git_tag("r", "v1", &Some(" ".to_owned()), &named, 0))
        .starts_with("commit message must be"));
}

// ---------------------------------------------------------------------------
// Evidence
// ---------------------------------------------------------------------------
fn evidence() -> ReleaseEvidence {
    ReleaseEvidence {
        schema_version: 1,
        gate: "sonarqube-main".to_owned(),
        status: "PASS".to_owned(),
        repo: "/work/repo".to_owned(),
        project_key: "key".to_owned(),
        commit: "c".to_owned(),
        branch: "main".to_owned(),
        analysis_id: Some("id".to_owned()),
    }
}

#[test]
fn evidence_has_to_match_in_every_field() {
    assert!(evidence_proves_pass(&evidence(), "c", "/work/repo"));
    assert!(!evidence_proves_pass(&evidence(), "d", "/work/repo"));
    assert!(!evidence_proves_pass(&evidence(), "c", "/work/other"));
    let changes: [fn(&mut ReleaseEvidence); 7] = [
        |e| e.schema_version = 2,
        |e| e.gate = "other".to_owned(),
        |e| e.status = "pass".to_owned(),
        |e| e.branch = "master".to_owned(),
        |e| e.project_key = " ".to_owned(),
        |e| e.analysis_id = None,
        |e| e.analysis_id = Some(String::new()),
    ];
    for change in changes {
        let mut other = evidence();
        change(&mut other);
        assert!(!evidence_proves_pass(&other, "c", "/work/repo"), "{other:?}");
    }
}

#[test]
fn evidence_is_looked_for_below_its_directory_only() {
    let mut git = server();
    let path = Some("e.json".to_owned());
    let t: Vec<Reply> = Vec::new();
    assert!(git.verify_release_evidence("repo", "c", &None, &t, 0).is_ok());
    git.release_evidence_required_repos.push("repo".to_owned());
    assert_eq!(
        failure(git.verify_release_evidence("./repo", "c", &path, &t, 0)),
        "release evidence is required for this repository but no evidence root is configured"
    );
    git.release_evidence_root = Some(b"/evidence".to_vec());
    assert!(failure(git.verify_release_evidence("repo", "c", &Some("../x".to_owned()), &t, 0))
        .contains("parent traversal"));
    match request(git.verify_release_evidence("repo", "c", &path, &t, 0)) {
        GitRequest::Canonicalize { path } => assert_eq!(path, b"/evidence/e.json"),
        other => panic!("{other:?}"),
    }
    let missing = vec![Reply::Path(Err("gone".to_owned()))];
    assert_eq!(
        failure(git.verify_release_evidence("repo", "c", &path, &missing, 0)),
        "cannot resolve release evidence: gone"
    );
    let outside = |path: &str, is_file: bool| {
        vec![Reply::Path(Ok(PathFacts { path: path.as_bytes().to_vec(), is_dir: !is_file, is_file }))]
    };
    for t in [outside("/else/e.json", true), outside("/evidence/e", false)] {
        assert_eq!(
            failure(git.verify_release_evidence("repo", "c", &path, &t, 0)),
            "release evidence must be a regular file below the configured evidence root"
        );
    }
    let mut t = outside("/evidence/e.json", true);
    match request(git.verify_release_evidence("repo", "c", &path, &t, 0)) {
        GitRequest::ReadEvidence { path } => assert_eq!(path, b"/evidence/e.json"),
        other => panic!("{other:?}"),
    }
    t.push(Reply::Evidence(EvidenceFile::Malformed("eof".to_owned())));
    assert_eq!(
        failure(git.verify_release_evidence("repo", "c", &path, &t, 0)),
        "invalid release evidence JSON: eof"
    );
}

#[test]
fn the_commit_limit_stays_within_its_bounds() {
    assert_eq!(clamp_commits(None), 5);
    assert_eq!(clamp_commits(Some(0)), 1);
    assert_eq!(clamp_commits(Some(3)), 3);
    assert_eq!(clamp_commits(Some(6)), 5);
}
