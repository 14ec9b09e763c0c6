//! Commits as they are taken apart and put together again.
use crate::command::Command;
use crate::flow::{check, checked, fail, flow, git_flow, run_git, Flow, FlowView, Reply};
use crate::history::FIELD_SEPARATOR;
use crate::output::OutputView;
use crate::policy::{
    conventional_verdict, object_id_verdict, outcome, validate_conventional_commit_message,
    validate_object_id,
};
use crate::queries::{resolve_commit_flow, resolve_commit_sha};
use crate::text::{
    first_line, first_line_of, split_limit, split_text_limit, trim, trim_end_char, trimmed,
    trimmed_end_char, words, words_of, Text,
};
use vstd::prelude::*;

verus! {

/// What a commit holds.
#[derive(Debug)]
pub struct CommitSnapshot {
    pub sha: String,
    pub tree: String,
    pub parents: Vec<String>,
    pub author_name: String,
    pub author_email: String,
    pub author_date: String,
    pub committer_name: String,
    pub committer_email: String,
    pub committer_date: String,
    pub message: String,
}

/// What a commit holds, as contracts speak of it.
pub struct SnapshotView {
    pub sha: Text,
    pub tree: Text,
    pub parents: Seq<Text>,
    pub author_name: Text,
    pub author_email: Text,
    pub author_date: Text,
    pub committer_name: Text,
    pub committer_email: Text,
    pub committer_date: Text,
    pub message: Text,
}

impl DeepView for CommitSnapshot {
    type V = SnapshotView;

    open spec fn deep_view(&self) -> SnapshotView {
        SnapshotView {
            sha: self.sha@,
            tree: self.tree@,
            parents: self.parents.deep_view(),
            author_name: self.author_name@,
            author_email: self.author_email@,
            author_date: self.author_date@,
            committer_name: self.committer_name@,
            committer_email: self.committer_email@,
            committer_date: self.committer_date@,
            message: self.message@,
        }
    }
}

impl CommitSnapshot {
    /// The first line of the message.
    pub fn subject(&self) -> (r: String)
        ensures
            r@ == first_line(self.message@),
    {
        first_line_of(self.message.as_str())
    }
}

/// The number of fields that describe a commit.
pub const SNAPSHOT_FIELDS: usize = 9;

/// What is reported where only `count` fields are there.
pub open spec fn missing_field(count: nat) -> Text {
    if count == 0 {
        "missing commit tree"@
    } else if count == 1 {
        "missing commit parents"@
    } else if count == 2 {
        "missing author name"@
    } else if count == 3 {
        "missing author email"@
    } else if count == 4 {
        "missing author date"@
    } else if count == 5 {
        "missing committer name"@
    } else if count == 6 {
        "missing committer email"@
    } else if count == 7 {
        "missing committer date"@
    } else {
        "missing commit message"@
    }
}

fn name_missing_field(count: usize) -> (r: String)
    ensures
        r@ == missing_field(count as nat),
{
    let name: &str = if count == 0 {
        "missing commit tree"
    } else if count == 1 {
        "missing commit parents"
    } else if count == 2 {
        "missing author name"
    } else if count == 3 {
        "missing author email"
    } else if count == 4 {
        "missing author date"
    } else if count == 5 {
        "missing committer name"
    } else if count == 6 {
        "missing committer email"
    } else if count == 7 {
        "missing committer date"
    } else {
        "missing commit message"
    };
    name.to_owned()
}

/// The commit `sha` as its fields describe it: tree, parents, author,
/// committer, and the message, which keeps whatever separators it holds.
pub open spec fn described_commit(sha: Text, stdout: Text) -> Result<SnapshotView, Text> {
    let fields = split_limit(stdout, FIELD_SEPARATOR, SNAPSHOT_FIELDS as nat);
    if fields.len() < SNAPSHOT_FIELDS {
        Err(missing_field(fields.len()))
    } else {
        Ok(
            SnapshotView {
                sha,
                tree: fields[0],
                parents: words(fields[1]),
                author_name: fields[2],
                author_email: fields[3],
                author_date: fields[4],
                committer_name: fields[5],
                committer_email: fields[6],
                committer_date: fields[7],
                message: trim_end_char(fields[8], '\n'),
            },
        )
    }
}

/// The commit `sha` as its fields describe it.
pub fn parse_snapshot(sha: String, stdout: &str) -> (r: Result<CommitSnapshot, String>)
    ensures
        outcome(r) == described_commit(sha@, stdout@),
{
    let fields: Vec<String> = split_text_limit(stdout, FIELD_SEPARATOR, SNAPSHOT_FIELDS);
    let ghost all = split_limit(stdout@, FIELD_SEPARATOR, SNAPSHOT_FIELDS as nat);
    assert(fields@.len() == all.len());
    if fields.len() < SNAPSHOT_FIELDS {
        return Err(name_missing_field(fields.len()));
    }
    assert(forall|k: int| 0 <= k < 9 ==> #[trigger] all[k] == fields@[k]@);
    Ok(
        CommitSnapshot {
            sha,
            tree: fields[0].clone(),
            parents: words_of(fields[1].as_str()),
            author_name: fields[2].clone(),
            author_email: fields[3].clone(),
            author_date: fields[4].clone(),
            committer_name: fields[5].clone(),
            committer_email: fields[6].clone(),
            committer_date: fields[7].clone(),
            message: trimmed_end_char(fields[8].as_str(), '\n'),
        },
    )
}

/// What the commit that a revision names holds.
pub open spec fn commit_snapshot_flow(repo: Text, commit: Text, t: Seq<Reply>, n: int) -> FlowView<
    SnapshotView,
> {
    resolve_commit_flow(repo, commit, t, n).and_then(
        |sha: Text, n: int|
            git_flow(repo, Command::CommitMetadata { commit: sha }, t, n).and_then(
                |o: OutputView, n: int|
                    if o.truncated {
                        FlowView::Fail(
                            "commit metadata exceeded configured Git MCP output limit"@,
                            n,
                        )
                    } else {
                        checked(described_commit(sha, o.stdout), n)
                    },
            ),
    )
}

/// What the commit that a revision names holds.
pub fn commit_snapshot(repo: &str, commit: &str, t: &Vec<Reply>, n: usize) -> (r: Flow<
    CommitSnapshot,
>)
    ensures
        flow(r) == commit_snapshot_flow(repo@, commit@, t@, n as int),
{
    let (sha, n) = resolve_commit_sha(repo, commit, t, n)?;
    let (output, n) = run_git(repo, Command::CommitMetadata { commit: sha.clone() }, t, n)?;
    if output.truncated {
        return fail("commit metadata exceeded configured Git MCP output limit", n);
    }
    check(parse_snapshot(sha, output.stdout.as_str()), n)
}

/// The command that makes a commit with the author and committer of `snapshot`.
pub open spec fn commit_tree_command(
    snapshot: SnapshotView,
    tree: Text,
    parent: Text,
    message: Text,
) -> Command<Text, Seq<Text>> {
    Command::CommitTree {
        tree,
        parent,
        message,
        author_name: snapshot.author_name,
        author_email: snapshot.author_email,
        author_date: snapshot.author_date,
        committer_name: snapshot.committer_name,
        committer_email: snapshot.committer_email,
        committer_date: snapshot.committer_date,
    }
}

/// Makes a commit with the author and committer of `snapshot`; no branch
/// points to it yet.
pub open spec fn create_commit_flow(
    repo: Text,
    snapshot: SnapshotView,
    tree: Text,
    parent: Text,
    message: Text,
    t: Seq<Reply>,
    n: int,
) -> FlowView<Text> {
    checked(conventional_verdict(message), n).and_then(
        |_u: (), n: int|
            checked(object_id_verdict(tree), n).and_then(
                |_u: (), n: int|
                    checked(object_id_verdict(parent), n).and_then(
                        |_u: (), n: int|
                            git_flow(
                                repo,
                                commit_tree_command(snapshot, tree, parent, message),
                                t,
                                n,
                            ).and_then(
                                |o: OutputView, n: int|
                                    checked(object_id_verdict(trim(o.stdout)), n).map(
                                        |_u: ()| trim(o.stdout),
                                    ),
                            ),
                    ),
            ),
    )
}

/// Makes a commit with the author and committer of `snapshot`; no branch
/// points to it yet.
pub fn create_commit_from_snapshot(
    repo: &str,
    snapshot: &CommitSnapshot,
    tree: &str,
    parent: &str,
    message: &str,
    t: &Vec<Reply>,
    n: usize,
) -> (r: Flow<String>)
    ensures
        flow(r) == create_commit_flow(
            repo@,
            snapshot.deep_view(),
            tree@,
            parent@,
            message@,
            t@,
            n as int,
        ),
{
    check(validate_conventional_commit_message(message), n)?;
    check(validate_object_id(tree), n)?;
    check(validate_object_id(parent), n)?;
    let command = Command::CommitTree {
        tree: tree.to_owned(),
        parent: parent.to_owned(),
        message: message.to_owned(),
        author_name: snapshot.author_name.clone(),
        author_email: snapshot.author_email.clone(),
        author_date: snapshot.author_date.clone(),
        committer_name: snapshot.committer_name.clone(),
        committer_email: snapshot.committer_email.clone(),
        committer_date: snapshot.committer_date.clone(),
    };
    let (output, n) = run_git(repo, command, t, n)?;
    let sha: String = trimmed(output.stdout.as_str());
    check(validate_object_id(sha.as_str()), n)?;
    Ok((sha, n))
}

} // verus!
