//! The commits of a work branch, and whether they may be rewritten.
use crate::command::Command;
use crate::flow::{check, checked, fail, flow, git_flow, run_git, Flow, FlowView, Reply};
use crate::output::OutputView;
use crate::policy::{
    is_conventional_commit_subject, is_conventional_subject, outcome, token_verdict,
    validate_revision,
};
use crate::queries::{
    current_branch, current_branch_flow, is_dirty, is_dirty_flow, merge_base, merge_base_flow,
    on_upstream, on_upstream_flow, remote_refs_containing, remote_refs_flow, upstream,
    upstream_flow, validate_commitish, validate_commitish_flow,
};
use crate::text::{
    ascending, concat3, insert_sorted, insert_text, law_insert_sorted, lines, lines_of, same_text,
    split_on, split_text, words, words_of, Text,
};
use vstd::prelude::*;

verus! {

/// The branch on which history is never rewritten.
pub open spec fn protected_trunk() -> Text {
    "main"@
}

/// Whether `branch` is the protected trunk.
pub fn is_protected_trunk(branch: &str) -> (r: bool)
    ensures
        r == (branch@ == protected_trunk()),
{
    same_text(branch, "main")
}

/// The most commits that a work branch may hold.
pub const MAX_HISTORY_COMMITS: usize = 512;

// ---------------------------------------------------------------------------
// The log
// ---------------------------------------------------------------------------
/// One commit of a work branch.
#[derive(Debug)]
pub struct HistoryCommit {
    pub sha: String,
    pub subject: String,
    /// The number of parents.
    pub parents: usize,
    pub author: String,
    pub timestamp: String,
    /// The subject follows Conventional Commits.
    pub conventional: bool,
}

/// One commit of a work branch as contracts speak of it.
pub struct HistoryCommitView {
    pub sha: Text,
    pub subject: Text,
    pub parents: nat,
    pub author: Text,
    pub timestamp: Text,
    pub conventional: bool,
}

impl DeepView for HistoryCommit {
    type V = HistoryCommitView;

    open spec fn deep_view(&self) -> HistoryCommitView {
        HistoryCommitView {
            sha: self.sha@,
            subject: self.subject@,
            parents: self.parents as nat,
            author: self.author@,
            timestamp: self.timestamp@,
            conventional: self.conventional,
        }
    }
}

/// The separator between the fields of a line of the log.
pub const FIELD_SEPARATOR: char = '\u{1f}';

/// The commit that a line of the log describes, if the line has its six
/// fields: name, parents, author, address, date and subject.
pub open spec fn logged_commit(line: Text) -> Option<HistoryCommitView> {
    let fields = split_on(line, FIELD_SEPARATOR);
    if fields.len() == 6 {
        Some(
            HistoryCommitView {
                sha: fields[0],
                subject: fields[5],
                parents: words(fields[1]).len(),
                author: fields[2] + " <"@ + fields[3] + ">"@,
                timestamp: fields[4],
                conventional: is_conventional_subject(fields[5]),
            },
        )
    } else {
        None
    }
}

fn parse_logged_commit(line: &str) -> (r: Option<HistoryCommit>)
    ensures
        r.deep_view() == logged_commit(line@),
{
    let fields: Vec<String> = split_text(line, FIELD_SEPARATOR);
    let ghost all = split_on(line@, FIELD_SEPARATOR);
    assert(fields@.len() == all.len());
    if fields.len() != 6 {
        return None;
    }
    assert(forall|k: int| 0 <= k < 6 ==> #[trigger] all[k] == fields@[k]@);
    let parents: Vec<String> = words_of(fields[1].as_str());
    assert(parents@.len() == parents.deep_view().len());
    let mut author: String = concat3(fields[2].as_str(), " <", fields[3].as_str());
    author.append(">");
    let conventional: bool = is_conventional_commit_subject(fields[5].as_str());
    Some(
        HistoryCommit {
            sha: fields[0].clone(),
            subject: fields[5].clone(),
            parents: parents.len(),
            author,
            timestamp: fields[4].clone(),
            conventional,
        },
    )
}

/// The commits of the lines from `i` on, after those in `found`; or why the
/// log is refused.
pub open spec fn logged_from(
    lines: Seq<Text>,
    i: int,
    found: Seq<HistoryCommitView>,
) -> Result<Seq<HistoryCommitView>, Text>
    decreases lines.len() - i,
{
    if i < 0 || i >= lines.len() {
        Ok(found)
    } else {
        match logged_commit(lines[i]) {
            None => Err("unexpected git log output while building history plan"@),
            Some(commit) => if found.len() >= MAX_HISTORY_COMMITS {
                Err("branch-local history exceeds safety limit of 512 commits"@)
            } else {
                logged_from(lines, i + 1, found.push(commit))
            },
        }
    }
}

/// The commits that a log describes, oldest first, or why it is refused.
pub open spec fn logged_history(stdout: Text) -> Result<Seq<HistoryCommitView>, Text> {
    logged_from(lines(stdout), 0, Seq::empty())
}

/// The commits that a log describes, oldest first.
pub fn parse_history(stdout: &str) -> (r: Result<Vec<HistoryCommit>, String>)
    ensures
        outcome(r) == logged_history(stdout@),
{
    let all: Vec<String> = lines_of(stdout);
    let mut found: Vec<HistoryCommit> = Vec::new();
    let mut i: usize = 0;
    let ghost text = lines(stdout@);
    assert(found.deep_view() =~= Seq::<HistoryCommitView>::empty());
    while i < all.len()
        invariant
            all.deep_view() == text,
            text == lines(stdout@),
            i <= all@.len(),
            logged_history(stdout@) == logged_from(text, i as int, found.deep_view()),
        decreases all@.len() - i,
    {
        assert(text[i as int] == all@[i as int]@);
        let ghost before = found.deep_view();
        match parse_logged_commit(all[i].as_str()) {
            None => {
                return Err("unexpected git log output while building history plan".to_owned());
            },
            Some(commit) => {
                if found.len() >= MAX_HISTORY_COMMITS {
                    return Err(
                        "branch-local history exceeds safety limit of 512 commits".to_owned(),
                    );
                }
                let ghost seen = commit.deep_view();
                found.push(commit);
                assert(found.deep_view() =~= before.push(seen));
            },
        }
        i += 1;
    }
    Ok(found)
}

/// The commits keep the bound on their number, and each is marked as what its
/// subject is.
pub open spec fn history_well_formed(commits: Seq<HistoryCommitView>) -> bool {
    &&& commits.len() <= MAX_HISTORY_COMMITS
    &&& forall|i: int|
        0 <= i < commits.len() ==> (#[trigger] commits[i]).conventional == is_conventional_subject(
            commits[i].subject,
        )
}

proof fn lemma_logged_well_formed(lines: Seq<Text>, i: int, found: Seq<HistoryCommitView>)
    requires
        history_well_formed(found),
    ensures
        logged_from(lines, i, found) matches Ok(commits) ==> history_well_formed(commits),
    decreases lines.len() - i,
{
    if 0 <= i < lines.len() {
        if let Some(commit) = logged_commit(lines[i]) {
            if found.len() < MAX_HISTORY_COMMITS {
                lemma_logged_well_formed(lines, i + 1, found.push(commit));
            }
        }
    }
}

/// A log that is accepted has a bounded number of commits, each marked as
/// conventional exactly where its subject is.
pub proof fn law_logged_history_well_formed(stdout: Text)
    ensures
        logged_history(stdout) matches Ok(commits) ==> history_well_formed(commits),
{
    lemma_logged_well_formed(lines(stdout), 0, Seq::empty());
}

/// The commits of `base..HEAD`, oldest first.
pub open spec fn branch_history_flow(repo: Text, base: Text, t: Seq<Reply>, n: int) -> FlowView<
    Seq<HistoryCommitView>,
> {
    validate_commitish_flow(repo, base, "base"@, t, n).and_then(
        |_u: (), n: int|
            git_flow(repo, Command::History { base }, t, n).and_then(
                |o: OutputView, n: int|
                    if o.truncated {
                        FlowView::Fail(
                            "history output exceeded configured Git MCP output limit"@,
                            n,
                        )
                    } else {
                        checked(logged_history(o.stdout), n)
                    },
            ),
    )
}

/// The commits of `base..HEAD`, oldest first.
pub fn branch_history(repo: &str, base: &str, t: &Vec<Reply>, n: usize) -> (r: Flow<
    Vec<HistoryCommit>,
>)
    ensures
        flow(r) == branch_history_flow(repo@, base@, t@, n as int),
{
    let (_, n) = validate_commitish(repo, base, "base", t, n)?;
    let (output, n) = run_git(repo, Command::History { base: base.to_owned() }, t, n)?;
    if output.truncated {
        return fail("history output exceeded configured Git MCP output limit", n);
    }
    check(parse_history(output.stdout.as_str()), n)
}

// ---------------------------------------------------------------------------
// Publication
// ---------------------------------------------------------------------------
/// The ascending list `found` with the texts `more` from `i` on added.
pub open spec fn insert_all(found: Seq<Text>, more: Seq<Text>, i: int) -> Seq<Text>
    decreases more.len() - i,
{
    if i < 0 || i >= more.len() {
        found
    } else {
        insert_all(insert_sorted(found, more[i]), more, i + 1)
    }
}

/// Adds texts to an ascending list.
pub fn insert_texts(found: &mut Vec<String>, more: &Vec<String>)
    ensures
        final(found).deep_view() == insert_all(old(found).deep_view(), more.deep_view(), 0),
{
    let mut i: usize = 0;
    let ghost all = more.deep_view();
    while i < more.len()
        invariant
            all == more.deep_view(),
            i <= more@.len(),
            insert_all(old(found).deep_view(), all, 0) == insert_all(
                found.deep_view(),
                all,
                i as int,
            ),
        decreases more@.len() - i,
    {
        assert(all[i as int] == more@[i as int]@);
        insert_text(found, more[i].clone());
        i += 1;
    }
}

/// The references from which commits are known to be published, ascending:
/// `found`, and those of the commits from `i` on. A commit is published where
/// a remote-tracking reference or the upstream contains it.
pub open spec fn published_refs_flow(
    repo: Text,
    commits: Seq<HistoryCommitView>,
    upstream: Option<Text>,
    i: int,
    found: Seq<Text>,
    t: Seq<Reply>,
    n: int,
) -> FlowView<Seq<Text>>
    decreases commits.len() - i,
{
    if i < 0 || i >= commits.len() {
        FlowView::Got(found, n)
    } else {
        remote_refs_flow(repo, commits[i].sha, t, n).and_then(
            |refs: Seq<Text>, n: int|
                on_upstream_flow(repo, commits[i].sha, upstream, t, n).and_then(
                    |contained: bool, n: int|
                        published_refs_flow(
                            repo,
                            commits,
                            upstream,
                            i + 1,
                            if contained && upstream is Some {
                                insert_sorted(insert_all(found, refs, 0), upstream->0)
                            } else {
                                insert_all(found, refs, 0)
                            },
                            t,
                            n,
                        ),
                ),
        )
    }
}

fn published_refs(
    repo: &str,
    commits: &Vec<HistoryCommit>,
    upstream: &Option<String>,
    t: &Vec<Reply>,
    n: usize,
) -> (r: Flow<Vec<String>>)
    ensures
        flow(r) == published_refs_flow(
            repo@,
            commits.deep_view(),
            upstream.deep_view(),
            0,
            Seq::empty(),
            t@,
            n as int,
        ),
{
    let ghost all = commits.deep_view();
    let mut found: Vec<String> = Vec::new();
    let mut at: usize = n;
    let mut i: usize = 0;
    assert(found.deep_view() =~= Seq::<Text>::empty());
    while i < commits.len()
        invariant
            all == commits.deep_view(),
            i <= commits@.len(),
            published_refs_flow(
                repo@,
                all,
                upstream.deep_view(),
                0,
                Seq::empty(),
                t@,
                n as int,
            ) == published_refs_flow(
                repo@,
                all,
                upstream.deep_view(),
                i as int,
                found.deep_view(),
                t@,
                at as int,
            ),
        decreases commits@.len() - i,
    {
        assert(all[i as int] == commits@[i as int].deep_view());
        let (refs, m) = remote_refs_containing(repo, commits[i].sha.as_str(), t, at)?;
        let (contained, m) = on_upstream(repo, commits[i].sha.as_str(), upstream, t, m)?;
        insert_texts(&mut found, &refs);
        if contained {
            if let Some(reference) = upstream {
                insert_text(&mut found, reference.clone());
            }
        }
        at = m;
        i += 1;
    }
    Ok((found, at))
}

// ---------------------------------------------------------------------------
// The plan
// ---------------------------------------------------------------------------
/// The state of a work branch, and what stands in the way of rewriting it.
#[derive(Debug)]
pub struct HistoryPlan {
    pub branch: String,
    pub base: String,
    pub merge_base: String,
    pub detached_head: bool,
    pub dirty: bool,
    pub upstream: Option<String>,
    pub published: bool,
    pub published_refs: Vec<String>,
    pub commit_count: usize,
    pub commits: Vec<HistoryCommit>,
    pub can_rewrite: bool,
    pub blocking_reasons: Vec<String>,
}

/// A plan as contracts speak of it.
pub struct HistoryPlanView {
    pub branch: Text,
    pub base: Text,
    pub merge_base: Text,
    pub detached_head: bool,
    pub dirty: bool,
    pub upstream: Option<Text>,
    pub published: bool,
    pub published_refs: Seq<Text>,
    pub commit_count: nat,
    pub commits: Seq<HistoryCommitView>,
    pub can_rewrite: bool,
    pub blocking_reasons: Seq<Text>,
}

impl DeepView for HistoryPlan {
    type V = HistoryPlanView;

    open spec fn deep_view(&self) -> HistoryPlanView {
        HistoryPlanView {
            branch: self.branch@,
            base: self.base@,
            merge_base: self.merge_base@,
            detached_head: self.detached_head,
            dirty: self.dirty,
            upstream: self.upstream.deep_view(),
            published: self.published,
            published_refs: self.published_refs.deep_view(),
            commit_count: self.commit_count as nat,
            commits: self.commits.deep_view(),
            can_rewrite: self.can_rewrite,
            blocking_reasons: self.blocking_reasons.deep_view(),
        }
    }
}

/// Some commit has more than one parent.
pub open spec fn has_merge(commits: Seq<HistoryCommitView>) -> bool {
    exists|i: int| 0 <= i < commits.len() && (#[trigger] commits[i]).parents > 1
}

/// `reason`, where it applies.
pub open spec fn reason_if(applies: bool, reason: Text) -> Seq<Text> {
    if applies {
        seq![reason]
    } else {
        Seq::empty()
    }
}

/// What stands in the way of rewriting a branch.
pub open spec fn blocking_reasons(
    branch: Option<Text>,
    dirty: bool,
    commits: Seq<HistoryCommitView>,
    published: bool,
) -> Seq<Text> {
    reason_if(branch is None, "detached_head"@) + reason_if(
        branch == Some(protected_trunk()),
        "protected_branch_main"@,
    ) + reason_if(dirty, "dirty_worktree_or_index"@) + reason_if(
        has_merge(commits),
        "merge_commit_present"@,
    ) + reason_if(published, "published_history"@)
}

/// The plan for a branch in the given state.
pub open spec fn assembled_plan(
    branch: Option<Text>,
    base: Text,
    merge_base: Text,
    commits: Seq<HistoryCommitView>,
    dirty: bool,
    upstream: Option<Text>,
    published_refs: Seq<Text>,
) -> HistoryPlanView {
    let published = published_refs.len() > 0;
    let reasons = blocking_reasons(branch, dirty, commits, published);
    HistoryPlanView {
        branch: match branch {
            Some(name) => name,
            None => "HEAD"@,
        },
        base,
        merge_base,
        detached_head: branch is None,
        dirty,
        upstream,
        published,
        published_refs,
        commit_count: commits.len(),
        commits,
        can_rewrite: reasons.len() == 0,
        blocking_reasons: reasons,
    }
}

fn merge_among(commits: &Vec<HistoryCommit>) -> (r: bool)
    ensures
        r == has_merge(commits.deep_view()),
{
    let mut i: usize = 0;
    while i < commits.len()
        invariant
            i <= commits@.len(),
            forall|k: int| 0 <= k < i ==> (#[trigger] commits.deep_view()[k]).parents <= 1,
        decreases commits@.len() - i,
    {
        assert(commits.deep_view()[i as int] == commits@[i as int].deep_view());
        if commits[i].parents > 1 {
            return true;
        }
        i += 1;
    }
    false
}

fn add_reason(reasons: &mut Vec<String>, applies: bool, reason: &str)
    ensures
        final(reasons).deep_view() == old(reasons).deep_view() + reason_if(applies, reason@),
{
    let ghost before = reasons.deep_view();
    if applies {
        reasons.push(reason.to_owned());
    }
    assert(reasons.deep_view() =~= before + reason_if(applies, reason@));
}

/// The plan for a branch in the given state.
pub fn assemble_plan(
    branch: Option<String>,
    base: &str,
    merge_base: String,
    commits: Vec<HistoryCommit>,
    dirty: bool,
    upstream: Option<String>,
    published_refs: Vec<String>,
) -> (r: HistoryPlan)
    ensures
        r.deep_view() == assembled_plan(
            branch.deep_view(),
            base@,
            merge_base@,
            commits.deep_view(),
            dirty,
            upstream.deep_view(),
            published_refs.deep_view(),
        ),
{
    let published: bool = published_refs.len() > 0;
    let (name, detached_head, on_trunk): (String, bool, bool) = match branch {
        Some(name) => {
            let on_trunk: bool = is_protected_trunk(name.as_str());
            (name, false, on_trunk)
        },
        None => ("HEAD".to_owned(), true, false),
    };
    let mut reasons: Vec<String> = Vec::new();
    assert(reasons.deep_view() =~= Seq::<Text>::empty());
    add_reason(&mut reasons, detached_head, "detached_head");
    assert(reasons.deep_view() =~= reason_if(detached_head, "detached_head"@));
    add_reason(&mut reasons, on_trunk, "protected_branch_main");
    add_reason(&mut reasons, dirty, "dirty_worktree_or_index");
    let merge: bool = merge_among(&commits);
    add_reason(&mut reasons, merge, "merge_commit_present");
    add_reason(&mut reasons, published, "published_history");
    assert(commits.deep_view().len() == commits@.len());
    assert(reasons.deep_view().len() == reasons@.len());
    HistoryPlan {
        branch: name,
        base: base.to_owned(),
        merge_base,
        detached_head,
        dirty,
        upstream,
        published,
        published_refs,
        commit_count: commits.len(),
        commits,
        can_rewrite: reasons.len() == 0,
        blocking_reasons: reasons,
    }
}

/// The state of the current branch relative to `base`.
pub open spec fn history_plan_flow(repo: Text, base: Text, t: Seq<Reply>, n: int) -> FlowView<
    HistoryPlanView,
> {
    checked(token_verdict("revision"@, base), n).and_then(
        |_u: (), n: int|
            current_branch_flow(repo, t, n).and_then(
                |branch: Option<Text>, n: int|
                    merge_base_flow(repo, base, t, n).and_then(
                        |merge_base: Text, n: int|
                            branch_history_flow(repo, base, t, n).and_then(
                                |commits: Seq<HistoryCommitView>, n: int|
                                    is_dirty_flow(repo, t, n).and_then(
                                        |dirty: bool, n: int|
                                            plan_upstream_flow(repo, branch, t, n).and_then(
                                                |upstream: Option<Text>, n: int|
                                                    published_refs_flow(
                                                        repo,
                                                        commits,
                                                        upstream,
                                                        0,
                                                        Seq::empty(),
                                                        t,
                                                        n,
                                                    ).map(
                                                        |refs: Seq<Text>|
                                                            assembled_plan(
                                                                branch,
                                                                base,
                                                                merge_base,
                                                                commits,
                                                                dirty,
                                                                upstream,
                                                                refs,
                                                            ),
                                                    ),
                                            ),
                                    ),
                            ),
                    ),
            ),
    )
}

/// The upstream, which a detached `HEAD` does not have.
pub open spec fn plan_upstream_flow(
    repo: Text,
    branch: Option<Text>,
    t: Seq<Reply>,
    n: int,
) -> FlowView<Option<Text>> {
    if branch is None {
        FlowView::Got(None, n)
    } else {
        upstream_flow(repo, t, n)
    }
}

/// The state of the current branch relative to `base`.
pub fn history_plan(repo: &str, base: &str, t: &Vec<Reply>, n: usize) -> (r: Flow<HistoryPlan>)
    ensures
        flow(r) == history_plan_flow(repo@, base@, t@, n as int),
{
    let (_, n) = check(validate_revision(base), n)?;
    let (branch, n) = current_branch(repo, t, n)?;
    let (ancestor, n) = merge_base(repo, base, t, n)?;
    let (commits, n) = branch_history(repo, base, t, n)?;
    let (dirty, n) = is_dirty(repo, t, n)?;
    let (followed, n): (Option<String>, usize) = if branch.is_none() {
        (None, n)
    } else {
        upstream(repo, t, n)?
    };
    let (refs, n) = published_refs(repo, &commits, &followed, t, n)?;
    Ok((assemble_plan(branch, base, ancestor, commits, dirty, followed, refs), n))
}

// ---------------------------------------------------------------------------
// What every plan keeps
// ---------------------------------------------------------------------------
/// A plan permits rewriting exactly where `HEAD` is on a branch other than the
/// protected trunk, nothing is changed locally, no commit is a merge, and no
/// commit is known to be published.
pub proof fn law_plan_permits_rewriting(repo: Text, base: Text, t: Seq<Reply>, n: int)
    ensures
        history_plan_flow(repo, base, t, n) matches FlowView::Got(plan, _) ==> {
            &&& plan.can_rewrite <==> plan.blocking_reasons.len() == 0
            &&& plan.can_rewrite <==> {
                &&& !plan.detached_head
                &&& plan.branch != protected_trunk()
                &&& !plan.dirty
                &&& !has_merge(plan.commits)
                &&& !plan.published
            }
            &&& plan.published <==> plan.published_refs.len() > 0
            &&& plan.commit_count == plan.commits.len()
            &&& history_well_formed(plan.commits)
        },
{
    assert forall|stdout: Text| #[trigger]
        logged_history(stdout) is Ok implies history_well_formed(logged_history(stdout)->Ok_0) by {
        law_logged_history_well_formed(stdout);
    }
    reveal_strlit("HEAD");
    reveal_strlit("main");
    assert("HEAD"@[0] != "main"@[0]);
}

proof fn lemma_insert_all(found: Seq<Text>, more: Seq<Text>, i: int)
    requires
        ascending(found),
    ensures
        ascending(insert_all(found, more, i)),
    decreases more.len() - i,
{
    if 0 <= i < more.len() {
        law_insert_sorted(found, more[i]);
        lemma_insert_all(insert_sorted(found, more[i]), more, i + 1);
    }
}

proof fn lemma_published_refs(
    repo: Text,
    commits: Seq<HistoryCommitView>,
    upstream: Option<Text>,
    i: int,
    found: Seq<Text>,
    t: Seq<Reply>,
    n: int,
)
    requires
        ascending(found),
    ensures
        published_refs_flow(repo, commits, upstream, i, found, t, n) matches FlowView::Got(refs, _)
            ==> ascending(refs),
    decreases commits.len() - i,
{
    if 0 <= i < commits.len() {
        if let FlowView::Got(refs, k) = remote_refs_flow(repo, commits[i].sha, t, n) {
            lemma_insert_all(found, refs, 0);
            let more = insert_all(found, refs, 0);
            if let FlowView::Got(contained, m) = on_upstream_flow(
                repo,
                commits[i].sha,
                upstream,
                t,
                k,
            ) {
                lemma_published_refs(repo, commits, upstream, i + 1, more, t, m);
                if upstream is Some {
                    law_insert_sorted(more, upstream->0);
                    let all = insert_sorted(more, upstream->0);
                    lemma_published_refs(repo, commits, upstream, i + 1, all, t, m);
                }
            }
        }
    }
}

/// A plan lists the references from which commits are known to be published
/// in ascending order, each once.
pub proof fn law_published_refs_ascending(repo: Text, base: Text, t: Seq<Reply>, n: int)
    ensures
        history_plan_flow(repo, base, t, n) matches FlowView::Got(plan, _) ==> ascending(
            plan.published_refs,
        ),
{
    assert forall|commits: Seq<HistoryCommitView>, upstream: Option<Text>, m: int|
        (#[trigger] published_refs_flow(
            repo,
            commits,
            upstream,
            0,
            Seq::empty(),
            t,
            m,
        )) is Got implies ascending(
        published_refs_flow(repo, commits, upstream, 0, Seq::empty(), t, m)->Got_0,
    ) by {
        lemma_published_refs(repo, commits, upstream, 0, Seq::empty(), t, m);
    }
}

} // verus!
