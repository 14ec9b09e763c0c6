//! The questions that operations put to a repository.
use crate::command::Command;
use crate::flow::{
    check, checked, fail, flow, git_flow, raw_flow, replace_failure, run_git, run_git_raw, Flow,
    FlowView, Halt, Reply,
};
use crate::output::{failure_text, format_git_failure, OutputView};
use crate::policy::{token_verdict, validate_revision, validate_token};
use crate::server::{quote, quoted};
use crate::text::{blank, concat, is_blank, lines, lines_of, trim, trimmed, Text};
use vstd::prelude::*;

verus! {

// ---------------------------------------------------------------------------
// Names
// ---------------------------------------------------------------------------
/// The name is a token, and Git accepts it as the name of a tag.
pub open spec fn validate_tag_name_flow(repo: Text, name: Text, t: Seq<Reply>, n: int) -> FlowView<
    (),
> {
    checked(token_verdict("tag name"@, name), n).and_then(
        |_u: (), n: int|
            git_flow(repo, Command::CheckTagName { name }, t, n).map(|_o: OutputView| ()),
    )
}

/// Refuses what cannot be the name of a tag.
pub fn validate_tag_name(repo: &str, name: &str, t: &Vec<Reply>, n: usize) -> (r: Flow<()>)
    ensures
        flow(r) == validate_tag_name_flow(repo@, name@, t@, n as int),
{
    let (_, n) = check(validate_token("tag name", name), n)?;
    let (_, n) = run_git(repo, Command::CheckTagName { name: name.to_owned() }, t, n)?;
    Ok(((), n))
}

/// The name is a token, and Git accepts it as the name of a branch.
pub open spec fn validate_branch_name_flow(
    repo: Text,
    branch: Text,
    t: Seq<Reply>,
    n: int,
) -> FlowView<()> {
    checked(token_verdict("branch"@, branch), n).and_then(
        |_u: (), n: int|
            git_flow(repo, Command::CheckBranchName { branch }, t, n).map(|_o: OutputView| ()),
    )
}

/// Refuses what cannot be the name of a branch.
pub fn validate_branch_name(repo: &str, branch: &str, t: &Vec<Reply>, n: usize) -> (r: Flow<()>)
    ensures
        flow(r) == validate_branch_name_flow(repo@, branch@, t@, n as int),
{
    let (_, n) = check(validate_token("branch", branch), n)?;
    let (_, n) = run_git(repo, Command::CheckBranchName { branch: branch.to_owned() }, t, n)?;
    Ok(((), n))
}

/// The local branch exists.
pub open spec fn ensure_local_branch_flow(
    repo: Text,
    branch: Text,
    t: Seq<Reply>,
    n: int,
) -> FlowView<()> {
    validate_branch_name_flow(repo, branch, t, n).and_then(
        |_u: (), n: int|
            git_flow(repo, Command::ShowBranchRef { branch }, t, n).map(|_o: OutputView| ()).or_fail(
                "local branch does not exist: "@ + quoted(branch),
            ),
    )
}

/// Refuses a branch that does not exist.
pub fn ensure_local_branch(repo: &str, branch: &str, t: &Vec<Reply>, n: usize) -> (r: Flow<()>)
    ensures
        flow(r) == ensure_local_branch_flow(repo@, branch@, t@, n as int),
{
    let (_, n) = validate_branch_name(repo, branch, t, n)?;
    let name: String = quote(branch);
    let shown = run_git(repo, Command::ShowBranchRef { branch: branch.to_owned() }, t, n);
    let (_, n) = replace_failure(shown, concat("local branch does not exist: ", name.as_str()))?;
    Ok(((), n))
}

// ---------------------------------------------------------------------------
// Revisions
// ---------------------------------------------------------------------------
/// The revision is a token and names a commit; `kind` says what it is for.
pub open spec fn validate_commitish_flow(
    repo: Text,
    value: Text,
    kind: Text,
    t: Seq<Reply>,
    n: int,
) -> FlowView<()> {
    checked(token_verdict("revision"@, value), n).and_then(
        |_u: (), n: int|
            git_flow(repo, Command::ResolveCommit { revision: value }, t, n).map(
                |_o: OutputView| (),
            ).or_fail(kind + " does not resolve to a commit: "@ + quoted(value)),
    )
}

/// Refuses a revision that does not name a commit.
pub fn validate_commitish(repo: &str, value: &str, kind: &str, t: &Vec<Reply>, n: usize) -> (r: Flow<
    (),
>)
    ensures
        flow(r) == validate_commitish_flow(repo@, value@, kind@, t@, n as int),
{
    let (_, n) = check(validate_revision(value), n)?;
    let mut error: String = concat(kind, " does not resolve to a commit: ");
    let name: String = quote(value);
    error.append(name.as_str());
    let resolved = run_git(repo, Command::ResolveCommit { revision: value.to_owned() }, t, n);
    let (_, n) = replace_failure(resolved, error)?;
    Ok(((), n))
}

/// The name of the commit that a revision names.
pub open spec fn resolve_commit_flow(repo: Text, value: Text, t: Seq<Reply>, n: int) -> FlowView<
    Text,
> {
    validate_commitish_flow(repo, value, "commit"@, t, n).and_then(
        |_u: (), n: int|
            git_flow(repo, Command::ResolveCommit { revision: value }, t, n).map(
                |o: OutputView| trim(o.stdout),
            ),
    )
}

/// The name of the commit that a revision names.
pub fn resolve_commit_sha(repo: &str, value: &str, t: &Vec<Reply>, n: usize) -> (r: Flow<String>)
    ensures
        flow(r) == resolve_commit_flow(repo@, value@, t@, n as int),
{
    let (_, n) = validate_commitish(repo, value, "commit", t, n)?;
    let (output, n) = run_git(repo, Command::ResolveCommit { revision: value.to_owned() }, t, n)?;
    Ok((trimmed(output.stdout.as_str()), n))
}

/// The commit at `HEAD`.
pub open spec fn head_sha_flow(repo: Text, t: Seq<Reply>, n: int) -> FlowView<Text> {
    git_flow(repo, Command::HeadCommit, t, n).map(|o: OutputView| trim(o.stdout))
}

/// The commit at `HEAD`.
pub fn head_sha(repo: &str, t: &Vec<Reply>, n: usize) -> (r: Flow<String>)
    ensures
        flow(r) == head_sha_flow(repo@, t@, n as int),
{
    let (output, n) = run_git(repo, Command::HeadCommit, t, n)?;
    Ok((trimmed(output.stdout.as_str()), n))
}

/// The tree of a revision.
pub open spec fn tree_sha_flow(repo: Text, revision: Text, t: Seq<Reply>, n: int) -> FlowView<Text> {
    git_flow(repo, Command::ResolveTree { revision }, t, n).map(|o: OutputView| trim(o.stdout))
}

/// The tree of a revision.
pub fn tree_sha(repo: &str, revision: &str, t: &Vec<Reply>, n: usize) -> (r: Flow<String>)
    ensures
        flow(r) == tree_sha_flow(repo@, revision@, t@, n as int),
{
    let (output, n) = run_git(repo, Command::ResolveTree { revision: revision.to_owned() }, t, n)?;
    Ok((trimmed(output.stdout.as_str()), n))
}

/// The best common ancestor of `HEAD` and `base`.
pub open spec fn merge_base_flow(repo: Text, base: Text, t: Seq<Reply>, n: int) -> FlowView<Text> {
    validate_commitish_flow(repo, base, "base"@, t, n).and_then(
        |_u: (), n: int|
            git_flow(repo, Command::MergeBase { base }, t, n).map(|o: OutputView| trim(o.stdout)),
    )
}

/// The best common ancestor of `HEAD` and `base`.
pub fn merge_base(repo: &str, base: &str, t: &Vec<Reply>, n: usize) -> (r: Flow<String>)
    ensures
        flow(r) == merge_base_flow(repo@, base@, t@, n as int),
{
    let (_, n) = validate_commitish(repo, base, "base", t, n)?;
    let (output, n) = run_git(repo, Command::MergeBase { base: base.to_owned() }, t, n)?;
    Ok((trimmed(output.stdout.as_str()), n))
}

/// `ancestor` is reachable from `descendant`.
pub open spec fn is_ancestor_flow(
    repo: Text,
    ancestor: Text,
    descendant: Text,
    t: Seq<Reply>,
    n: int,
) -> FlowView<bool> {
    raw_flow(repo, Command::IsAncestor { ancestor, descendant }, t, n).and_then(
        |o: OutputView, n: int|
            match o.exit_code {
                Some(0i32) => FlowView::Got(true, n),
                Some(1i32) => FlowView::Got(false, n),
                _ => FlowView::Fail(failure_text(o), n),
            },
    )
}

/// Whether `ancestor` is reachable from `descendant`.
pub fn is_ancestor(repo: &str, ancestor: &str, descendant: &str, t: &Vec<Reply>, n: usize) -> (r:
    Flow<bool>)
    ensures
        flow(r) == is_ancestor_flow(repo@, ancestor@, descendant@, t@, n as int),
{
    let command = Command::IsAncestor {
        ancestor: ancestor.to_owned(),
        descendant: descendant.to_owned(),
    };
    let (output, n) = run_git_raw(repo, command, t, n)?;
    match output.exit_code {
        Some(0) => Ok((true, n)),
        Some(1) => Ok((false, n)),
        _ => Err(Halt::Fail(format_git_failure(&output), n)),
    }
}

// ---------------------------------------------------------------------------
// Branches and working tree
// ---------------------------------------------------------------------------
/// The branch that `HEAD` is attached to, if it is.
pub open spec fn current_branch_flow(repo: Text, t: Seq<Reply>, n: int) -> FlowView<Option<Text>> {
    raw_flow(repo, Command::CurrentBranch, t, n).and_then(
        |o: OutputView, n: int|
            match o.exit_code {
                Some(0i32) => FlowView::Got(Some(trim(o.stdout)), n),
                Some(1i32) => FlowView::Got(None, n),
                _ => FlowView::Fail(failure_text(o), n),
            },
    )
}

/// The branch that `HEAD` is attached to, if it is.
pub fn current_branch(repo: &str, t: &Vec<Reply>, n: usize) -> (r: Flow<Option<String>>)
    ensures
        flow(r) == current_branch_flow(repo@, t@, n as int),
{
    let (output, n) = run_git_raw(repo, Command::CurrentBranch, t, n)?;
    match output.exit_code {
        Some(0) => Ok((Some(trimmed(output.stdout.as_str())), n)),
        Some(1) => Ok((None, n)),
        _ => Err(Halt::Fail(format_git_failure(&output), n)),
    }
}

/// The branch that `HEAD` is attached to.
pub open spec fn current_branch_required_flow(repo: Text, t: Seq<Reply>, n: int) -> FlowView<Text> {
    current_branch_flow(repo, t, n).and_then(
        |branch: Option<Text>, n: int|
            match branch {
                Some(name) => FlowView::Got(name, n),
                None => FlowView::Fail("detached HEAD is not allowed for this operation"@, n),
            },
    )
}

/// The branch that `HEAD` is attached to; a detached `HEAD` is refused.
pub fn current_branch_required(repo: &str, t: &Vec<Reply>, n: usize) -> (r: Flow<String>)
    ensures
        flow(r) == current_branch_required_flow(repo@, t@, n as int),
{
    let (branch, n) = current_branch(repo, t, n)?;
    match branch {
        Some(name) => Ok((name, n)),
        None => fail("detached HEAD is not allowed for this operation", n),
    }
}

/// The upstream of the current branch, if it has one.
pub open spec fn upstream_flow(repo: Text, t: Seq<Reply>, n: int) -> FlowView<Option<Text>> {
    raw_flow(repo, Command::Upstream, t, n).and_then(
        |o: OutputView, n: int|
            match o.exit_code {
                Some(0i32) => FlowView::Got(Some(trim(o.stdout)), n),
                Some(128i32) => FlowView::Got(None, n),
                Some(1i32) => FlowView::Got(None, n),
                _ => FlowView::Fail(failure_text(o), n),
            },
    )
}

/// The upstream of the current branch, if it has one.
pub fn upstream(repo: &str, t: &Vec<Reply>, n: usize) -> (r: Flow<Option<String>>)
    ensures
        flow(r) == upstream_flow(repo@, t@, n as int),
{
    let (output, n) = run_git_raw(repo, Command::Upstream, t, n)?;
    match output.exit_code {
        Some(0) => Ok((Some(trimmed(output.stdout.as_str())), n)),
        Some(128) => Ok((None, n)),
        Some(1) => Ok((None, n)),
        _ => Err(Halt::Fail(format_git_failure(&output), n)),
    }
}

/// The short status.
pub open spec fn short_status_flow(repo: Text, t: Seq<Reply>, n: int) -> FlowView<Text> {
    git_flow(repo, Command::ShortStatus, t, n).map(|o: OutputView| o.stdout)
}

/// The short status.
pub fn short_status(repo: &str, t: &Vec<Reply>, n: usize) -> (r: Flow<String>)
    ensures
        flow(r) == short_status_flow(repo@, t@, n as int),
{
    let (output, n) = run_git(repo, Command::ShortStatus, t, n)?;
    Ok((output.stdout, n))
}

/// The working tree or the index holds changes.
pub open spec fn is_dirty_flow(repo: Text, t: Seq<Reply>, n: int) -> FlowView<bool> {
    git_flow(repo, Command::PorcelainStatus, t, n).map(|o: OutputView| o.stdout.len() > 0)
}

/// Whether the working tree or the index holds changes.
pub fn is_dirty(repo: &str, t: &Vec<Reply>, n: usize) -> (r: Flow<bool>)
    ensures
        flow(r) == is_dirty_flow(repo@, t@, n as int),
{
    let (output, n) = run_git(repo, Command::PorcelainStatus, t, n)?;
    Ok((!output.stdout.as_str().is_empty(), n))
}

/// A merge has been started and not been completed.
pub open spec fn merge_in_progress_flow(repo: Text, t: Seq<Reply>, n: int) -> FlowView<bool> {
    raw_flow(repo, Command::MergeHead, t, n).and_then(
        |o: OutputView, n: int|
            match o.exit_code {
                Some(0i32) => FlowView::Got(true, n),
                Some(1i32) => FlowView::Got(false, n),
                Some(128i32) => FlowView::Got(false, n),
                _ => FlowView::Fail(failure_text(o), n),
            },
    )
}

/// Whether a merge has been started and not been completed.
pub fn merge_in_progress(repo: &str, t: &Vec<Reply>, n: usize) -> (r: Flow<bool>)
    ensures
        flow(r) == merge_in_progress_flow(repo@, t@, n as int),
{
    let (output, n) = run_git_raw(repo, Command::MergeHead, t, n)?;
    match output.exit_code {
        Some(0) => Ok((true, n)),
        Some(1) => Ok((false, n)),
        Some(128) => Ok((false, n)),
        _ => Err(Halt::Fail(format_git_failure(&output), n)),
    }
}

// ---------------------------------------------------------------------------
// Publication
// ---------------------------------------------------------------------------
/// The lines of a listing that are not blank.
pub open spec fn listing(stdout: Text) -> Seq<Text> {
    lines(stdout).filter(|line: Text| !is_blank(line))
}

/// The lines of a listing that are not blank.
pub fn listing_of(stdout: &str) -> (r: Vec<String>)
    ensures
        r.deep_view() == listing(stdout@),
{
    let all: Vec<String> = lines_of(stdout);
    let mut kept: Vec<String> = Vec::new();
    let mut i: usize = 0;
    let ghost text = lines(stdout@);
    let ghost keep = |line: Text| !is_blank(line);
    assert(text.take(0) =~= Seq::<Text>::empty());
    assert(kept.deep_view() =~= text.take(0).filter(keep)) by {
        reveal(Seq::filter);
    }
    while i < all.len()
        invariant
            all.deep_view() == text,
            keep == (|line: Text| !is_blank(line)),
            i <= all@.len(),
            kept.deep_view() == text.take(i as int).filter(keep),
        decreases all@.len() - i,
    {
        let ghost before = kept.deep_view();
        assert(text.take(i + 1).drop_last() =~= text.take(i as int));
        assert(text.take(i + 1).last() == text[i as int]);
        assert(text[i as int] == all@[i as int]@);
        proof {
            reveal(Seq::filter);
        }
        if !blank(all[i].as_str()) {
            kept.push(all[i].clone());
            assert(kept.deep_view() =~= before.push(text[i as int]));
        }
        i += 1;
    }
    assert(text.take(text.len() as int) =~= text);
    kept
}

/// The remote-tracking references that contain a commit.
pub open spec fn remote_refs_flow(repo: Text, commit: Text, t: Seq<Reply>, n: int) -> FlowView<
    Seq<Text>,
> {
    resolve_commit_flow(repo, commit, t, n).and_then(
        |sha: Text, n: int|
            git_flow(repo, Command::RemoteRefsContaining { commit: sha }, t, n).and_then(
                |o: OutputView, n: int|
                    if o.truncated {
                        FlowView::Fail(
                            "remote-ref output exceeded configured Git MCP output limit"@,
                            n,
                        )
                    } else {
                        FlowView::Got(listing(o.stdout), n)
                    },
            ),
    )
}

/// The remote-tracking references that contain a commit.
pub fn remote_refs_containing(repo: &str, commit: &str, t: &Vec<Reply>, n: usize) -> (r: Flow<
    Vec<String>,
>)
    ensures
        flow(r) == remote_refs_flow(repo@, commit@, t@, n as int),
{
    let (sha, n) = resolve_commit_sha(repo, commit, t, n)?;
    let (output, n) = run_git(repo, Command::RemoteRefsContaining { commit: sha }, t, n)?;
    if output.truncated {
        return fail("remote-ref output exceeded configured Git MCP output limit", n);
    }
    Ok((listing_of(output.stdout.as_str()), n))
}

/// A commit is reachable from the upstream, where there is one.
pub open spec fn on_upstream_flow(
    repo: Text,
    commit: Text,
    upstream: Option<Text>,
    t: Seq<Reply>,
    n: int,
) -> FlowView<bool> {
    match upstream {
        Some(reference) => is_ancestor_flow(repo, commit, reference, t, n),
        None => FlowView::Got(false, n),
    }
}

/// Whether a commit is reachable from the upstream, where there is one.
pub fn on_upstream(
    repo: &str,
    commit: &str,
    upstream: &Option<String>,
    t: &Vec<Reply>,
    n: usize,
) -> (r: Flow<bool>)
    ensures
        flow(r) == on_upstream_flow(repo@, commit@, upstream.deep_view(), t@, n as int),
{
    match upstream {
        Some(reference) => is_ancestor(repo, commit, reference.as_str(), t, n),
        None => Ok((false, n)),
    }
}

} // verus!
