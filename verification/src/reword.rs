//! Giving commits of a work branch new messages.
use crate::flow::{check, checked, fail, flow, unless, Flow, FlowView, Halt, Reply};
use crate::history::{
    history_plan, history_plan_flow, HistoryCommit, HistoryCommitView, HistoryPlan,
    HistoryPlanView,
};
use crate::policy::{conventional_verdict, validate_conventional_commit_message};
use crate::queries::{resolve_commit_flow, resolve_commit_sha, tree_sha, tree_sha_flow};
use crate::rewrite::{
    ensure_suffix_rewrite_safe, install, install_flow, report, rewrite_flow, start,
    suffix_rewrite_flow, RewriteFailure, RewriteFailureView, RewriteOutcome, RewritePolicy, Start,
};
use crate::selection::{
    as_ints, find_last, find_positions, last_position, law_positions, lemma_last_position,
    positions,
};
use crate::server::GitServer;
use crate::snapshot::{
    commit_snapshot, commit_snapshot_flow, create_commit_flow, create_commit_from_snapshot,
    SnapshotView,
};
use crate::text::{first_line, first_line_of, same_text, text_listed, Text};
use vstd::prelude::*;

verus! {

/// The most commits that one request may reword.
pub const MAX_REWORDS: usize = 64;

/// A commit and its new message.
#[derive(Debug)]
pub struct RewordCommit {
    pub commit: String,
    pub message: String,
}

/// A commit and its new message, as contracts speak of them.
pub struct RewordView {
    pub commit: Text,
    pub message: Text,
}

impl DeepView for RewordCommit {
    type V = RewordView;

    open spec fn deep_view(&self) -> RewordView {
        RewordView { commit: self.commit@, message: self.message@ }
    }
}

/// The commits of `base..HEAD` that are to have new messages.
#[derive(Debug)]
pub struct RewordCommitsArgs {
    pub repo: String,
    pub base: String,
    pub changes: Vec<RewordCommit>,
    pub rewrite_policy: RewritePolicy,
}

/// What is to be reworded, as contracts speak of it.
pub struct RewordArgsView {
    pub repo: Text,
    pub base: Text,
    pub changes: Seq<RewordView>,
    pub rewrite_policy: RewritePolicy,
}

impl DeepView for RewordCommitsArgs {
    type V = RewordArgsView;

    open spec fn deep_view(&self) -> RewordArgsView {
        RewordArgsView {
            repo: self.repo@,
            base: self.base@,
            changes: self.changes.deep_view(),
            rewrite_policy: self.rewrite_policy,
        }
    }
}

/// A commit that was made anew.
#[derive(Debug)]
pub struct RewrittenCommit {
    pub old: String,
    pub new: String,
    pub old_subject: String,
    pub new_subject: String,
    pub message_changed: bool,
}

/// A commit that was made anew, as contracts speak of it.
pub struct RewrittenView {
    pub old: Text,
    pub new: Text,
    pub old_subject: Text,
    pub new_subject: Text,
    pub message_changed: bool,
}

impl DeepView for RewrittenCommit {
    type V = RewrittenView;

    open spec fn deep_view(&self) -> RewrittenView {
        RewrittenView {
            old: self.old@,
            new: self.new@,
            old_subject: self.old_subject@,
            new_subject: self.new_subject@,
            message_changed: self.message_changed,
        }
    }
}

/// A reworded history.
#[derive(Debug)]
pub struct RewordCommitsOutput {
    pub operation: String,
    pub branch: String,
    pub old_head: String,
    pub new_head: String,
    pub rewritten: Vec<RewrittenCommit>,
    pub status: String,
}

/// A reworded history as contracts speak of it.
pub struct RewordedView {
    pub operation: Text,
    pub branch: Text,
    pub old_head: Text,
    pub new_head: Text,
    pub rewritten: Seq<RewrittenView>,
    pub status: Text,
}

impl DeepView for RewordCommitsOutput {
    type V = RewordedView;

    open spec fn deep_view(&self) -> RewordedView {
        RewordedView {
            operation: self.operation@,
            branch: self.branch@,
            old_head: self.old_head@,
            new_head: self.new_head@,
            rewritten: self.rewritten.deep_view(),
            status: self.status@,
        }
    }
}

// ---------------------------------------------------------------------------
// The selection
// ---------------------------------------------------------------------------
/// The names of the commits of the changes from `i` on, after those in
/// `found`. Each new message follows Conventional Commits, and each commit is
/// named once.
pub open spec fn resolve_changes_flow(
    repo: Text,
    changes: Seq<RewordView>,
    i: int,
    found: Seq<Text>,
    t: Seq<Reply>,
    n: int,
) -> FlowView<Seq<Text>>
    decreases changes.len() - i,
{
    if i < 0 || i >= changes.len() {
        FlowView::Got(found, n)
    } else {
        checked(conventional_verdict(changes[i].message), n).and_then(
            |_u: (), n: int|
                resolve_commit_flow(repo, changes[i].commit, t, n).and_then(
                    |sha: Text, n: int|
                        if found.contains(sha) {
                            FlowView::Fail("duplicate commit in reword request"@, n)
                        } else {
                            resolve_changes_flow(repo, changes, i + 1, found.push(sha), t, n)
                        },
                ),
        )
    }
}

fn resolve_changes(repo: &str, changes: &Vec<RewordCommit>, t: &Vec<Reply>, n: usize) -> (r: Flow<
    Vec<String>,
>)
    ensures
        flow(r) == resolve_changes_flow(repo@, changes.deep_view(), 0, Seq::empty(), t@, n as int),
        r matches Ok((shas, _)) ==> shas@.len() == changes@.len(),
{
    let ghost all = changes.deep_view();
    let mut found: Vec<String> = Vec::new();
    let mut at: usize = n;
    let mut i: usize = 0;
    assert(found.deep_view() =~= Seq::<Text>::empty());
    while i < changes.len()
        invariant
            all == changes.deep_view(),
            all.len() == changes@.len(),
            i <= changes@.len(),
            found@.len() == i,
            resolve_changes_flow(repo@, all, 0, Seq::empty(), t@, n as int)
                == resolve_changes_flow(repo@, all, i as int, found.deep_view(), t@, at as int),
        decreases changes@.len() - i,
    {
        assert(all[i as int] == changes@[i as int].deep_view());
        let ghost before = found.deep_view();
        check(validate_conventional_commit_message(changes[i].message.as_str()), at)?;
        let (sha, m) = resolve_commit_sha(repo, changes[i].commit.as_str(), t, at)?;
        if text_listed(&found, sha.as_str()) {
            return fail("duplicate commit in reword request", m);
        }
        let ghost name = sha@;
        found.push(sha);
        assert(found.deep_view() =~= before.push(name));
        at = m;
        i += 1;
    }
    Ok((found, at))
}

/// The least of the numbers from `i` on, and `least`.
pub open spec fn least_from(list: Seq<int>, i: int, least: int) -> int
    decreases list.len() - i,
{
    if i < 0 || i >= list.len() {
        least
    } else {
        least_from(
            list,
            i + 1,
            if list[i] < least {
                list[i]
            } else {
                least
            },
        )
    }
}

/// The least of a list that is not empty.
pub open spec fn least(list: Seq<int>) -> int {
    least_from(list, 1, list[0])
}

fn find_least(list: &Vec<usize>) -> (r: usize)
    requires
        list@.len() > 0,
    ensures
        r == least(as_ints(list@)),
{
    let ghost all = as_ints(list@);
    let mut found: usize = list[0];
    let mut i: usize = 1;
    while i < list.len()
        invariant
            all == as_ints(list@),
            1 <= i <= list@.len(),
            least(all) == least_from(all, i as int, found as int),
        decreases list@.len() - i,
    {
        assert(all[i as int] == list@[i as int]);
        if list[i] < found {
            found = list[i];
        }
        i += 1;
    }
    found
}

/// The new message of a commit, where it is to have one.
pub open spec fn reworded(shas: Seq<Text>, changes: Seq<RewordView>, sha: Text) -> Option<Text> {
    match last_position(shas, sha) {
        Some(k) => Some(changes[k].message),
        None => None,
    }
}

fn find_reworded<'a>(shas: &Vec<String>, changes: &'a Vec<RewordCommit>, sha: &str) -> (r: Option<
    &'a str,
>)
    requires
        shas@.len() == changes@.len(),
    ensures
        match reworded(shas.deep_view(), changes.deep_view(), sha@) {
            Some(message) => r matches Some(found) && found@ == message,
            None => r is None,
        },
{
    proof {
        lemma_last_position(shas.deep_view(), sha@);
    }
    match find_last(shas, sha) {
        Some(k) => {
            assert(changes.deep_view()[k as int] == changes@[k as int].deep_view());
            Some(changes[k].message.as_str())
        },
        None => None,
    }
}

// ---------------------------------------------------------------------------
// The replay
// ---------------------------------------------------------------------------
/// How a commit is made anew.
pub open spec fn rewritten_commit(snapshot: SnapshotView, new: Text, request: Option<Text>) -> RewrittenView {
    let message = match request {
        Some(message) => message,
        None => snapshot.message,
    };
    RewrittenView {
        old: snapshot.sha,
        new,
        old_subject: first_line(snapshot.message),
        new_subject: first_line(message),
        message_changed: message != snapshot.message,
    }
}

/// Makes the commits from `i` on anew, each with its own tree and the commit
/// before it as its parent; the first has the parent `parent`. The result is
/// the last commit that was made, and what was made.
pub open spec fn replay_flow(
    repo: Text,
    commits: Seq<HistoryCommitView>,
    shas: Seq<Text>,
    changes: Seq<RewordView>,
    i: int,
    parent: Text,
    made: Seq<RewrittenView>,
    t: Seq<Reply>,
    n: int,
) -> FlowView<(Text, Seq<RewrittenView>)>
    decreases commits.len() - i,
{
    if i < 0 || i >= commits.len() {
        FlowView::Got((parent, made), n)
    } else {
        commit_snapshot_flow(repo, commits[i].sha, t, n).and_then(
            |snapshot: SnapshotView, n: int|
                unless(
                    snapshot.parents.len() != 1,
                    "merge-aware reword is not supported"@,
                    n,
                ).and_then(
                    |_u: (), n: int|
                        create_commit_flow(
                            repo,
                            snapshot,
                            snapshot.tree,
                            parent,
                            match reworded(shas, changes, commits[i].sha) {
                                Some(message) => message,
                                None => snapshot.message,
                            },
                            t,
                            n,
                        ).and_then(
                            |new: Text, n: int|
                                replay_flow(
                                    repo,
                                    commits,
                                    shas,
                                    changes,
                                    i + 1,
                                    new,
                                    made.push(
                                        rewritten_commit(
                                            snapshot,
                                            new,
                                            reworded(shas, changes, commits[i].sha),
                                        ),
                                    ),
                                    t,
                                    n,
                                ),
                        ),
                ),
        )
    }
}

/// Some commit has a new message.
pub open spec fn any_changed(made: Seq<RewrittenView>) -> bool {
    exists|i: int| 0 <= i < made.len() && (#[trigger] made[i]).message_changed
}

fn replay(
    repo: &str,
    commits: &Vec<HistoryCommit>,
    shas: &Vec<String>,
    changes: &Vec<RewordCommit>,
    from: usize,
    parent: String,
    t: &Vec<Reply>,
    n: usize,
) -> (r: Flow<(String, Vec<RewrittenCommit>)>)
    requires
        shas@.len() == changes@.len(),
    ensures
        flow(r) == replay_flow(
            repo@,
            commits.deep_view(),
            shas.deep_view(),
            changes.deep_view(),
            from as int,
            parent@,
            Seq::empty(),
            t@,
            n as int,
        ),
{
    let ghost all = commits.deep_view();
    assert(all.len() == commits@.len());
    let ghost first = parent@;
    let mut made: Vec<RewrittenCommit> = Vec::new();
    let mut tip: String = parent;
    let mut at: usize = n;
    let mut i: usize = from;
    assert(made.deep_view() =~= Seq::<RewrittenView>::empty());
    while i < commits.len()
        invariant
            all == commits.deep_view(),
            all.len() == commits@.len(),
            shas@.len() == changes@.len(),
            first == parent@,
            replay_flow(
                repo@,
                all,
                shas.deep_view(),
                changes.deep_view(),
                from as int,
                first,
                Seq::empty(),
                t@,
                n as int,
            ) == replay_flow(
                repo@,
                all,
                shas.deep_view(),
                changes.deep_view(),
                i as int,
                tip@,
                made.deep_view(),
                t@,
                at as int,
            ),
        decreases all.len() - i,
    {
        assert(all[i as int] == commits@[i as int].deep_view());
        let ghost before = made.deep_view();
        let (snapshot, m) = commit_snapshot(repo, commits[i].sha.as_str(), t, at)?;
        assert(snapshot.parents.deep_view().len() == snapshot.parents@.len());
        if snapshot.parents.len() != 1 {
            return fail("merge-aware reword is not supported", m);
        }
        let message: &str = match find_reworded(shas, changes, commits[i].sha.as_str()) {
            Some(message) => message,
            None => snapshot.message.as_str(),
        };
        let (new, m) = create_commit_from_snapshot(
            repo,
            &snapshot,
            snapshot.tree.as_str(),
            tip.as_str(),
            message,
            t,
            m,
        )?;
        let old_subject: String = snapshot.subject();
        let new_subject: String = first_line_of(message);
        let message_changed: bool = !same_text(message, snapshot.message.as_str());
        let step = RewrittenCommit {
            old: snapshot.sha,
            new: new.clone(),
            old_subject,
            new_subject,
            message_changed,
        };
        let ghost seen = step.deep_view();
        made.push(step);
        assert(made.deep_view() =~= before.push(seen));
        tip = new;
        at = m;
        i += 1;
    }
    Ok(((tip, made), at))
}

fn changed_anything(made: &Vec<RewrittenCommit>) -> (r: bool)
    ensures
        r == any_changed(made.deep_view()),
{
    let mut i: usize = 0;
    while i < made.len()
        invariant
            i <= made@.len(),
            forall|k: int| 0 <= k < i ==> !(#[trigger] made.deep_view()[k]).message_changed,
        decreases made@.len() - i,
    {
        assert(made.deep_view()[i as int] == made@[i as int].deep_view());
        if made[i].message_changed {
            return true;
        }
        i += 1;
    }
    false
}

// ---------------------------------------------------------------------------
// Rewording
// ---------------------------------------------------------------------------
/// The position of the earliest commit that is to be reworded, and the names
/// of all of them; the commits from there on may be rewritten.
pub open spec fn reword_selection_flow(
    args: RewordArgsView,
    plan: HistoryPlanView,
    t: Seq<Reply>,
    n: int,
) -> FlowView<(int, Seq<Text>)> {
    resolve_changes_flow(args.repo, args.changes, 0, Seq::empty(), t, n).and_then(
        |shas: Seq<Text>, n: int|
            checked(positions(plan.commits, shas, args.base), n).and_then(
                |found: Seq<int>, n: int|
                    suffix_rewrite_flow(
                        args.repo,
                        plan,
                        least(found),
                        args.rewrite_policy,
                        t,
                        n,
                    ).map(|_u: ()| (least(found), shas)),
            ),
    )
}

/// Makes the commits from `from` on anew, and moves the branch to them.
pub open spec fn reword_replay_flow(
    args: RewordArgsView,
    plan: HistoryPlanView,
    from: int,
    shas: Seq<Text>,
    head: Text,
    t: Seq<Reply>,
    n: int,
) -> FlowView<RewordedView> {
    tree_sha_flow(args.repo, head, t, n).and_then(
        |original_tree: Text, n: int|
            commit_snapshot_flow(args.repo, plan.commits[from].sha, t, n).and_then(
                |first: SnapshotView, n: int|
                    unless(first.parents.len() == 0, "cannot rewrite a root commit"@, n).and_then(
                        |_u: (), n: int|
                            replay_flow(
                                args.repo,
                                plan.commits,
                                shas,
                                args.changes,
                                from,
                                first.parents[0],
                                Seq::empty(),
                                t,
                                n,
                            ).and_then(
                                |made: (Text, Seq<RewrittenView>), n: int|
                                    unless(
                                        !any_changed(made.1),
                                        "reword request does not change any commit message"@,
                                        n,
                                    ).and_then(
                                        |_u: (), n: int|
                                            install_flow(
                                                args.repo,
                                                plan.branch,
                                                made.0,
                                                head,
                                                original_tree,
                                                t,
                                                n,
                                            ).map(
                                                |status: Text|
                                                    RewordedView {
                                                        operation: "reword_commits"@,
                                                        branch: plan.branch,
                                                        old_head: head,
                                                        new_head: made.0,
                                                        rewritten: made.1,
                                                        status,
                                                    },
                                            ),
                                    ),
                            ),
                    ),
            ),
    )
}

/// Rewords commits, with `HEAD` at `head`.
pub open spec fn reword_from_flow(args: RewordArgsView, head: Text, t: Seq<Reply>, n: int) -> FlowView<
    RewordedView,
> {
    unless(
        args.changes.len() == 0 || args.changes.len() > MAX_REWORDS,
        "reword requires 1..64 commit changes"@,
        n,
    ).and_then(
        |_u: (), n: int|
            history_plan_flow(args.repo, args.base, t, n).and_then(
                |plan: HistoryPlanView, n: int|
                    reword_selection_flow(args, plan, t, n).and_then(
                        |selected: (int, Seq<Text>), n: int|
                            reword_replay_flow(args, plan, selected.0, selected.1, head, t, n),
                    ),
            ),
    )
}

fn reword_replay(
    args: &RewordCommitsArgs,
    plan: &HistoryPlan,
    from: usize,
    shas: &Vec<String>,
    head: &str,
    t: &Vec<Reply>,
    n: usize,
) -> (r: Flow<RewordCommitsOutput>)
    requires
        from < plan.commits@.len(),
        shas@.len() == args.changes@.len(),
    ensures
        flow(r) == reword_replay_flow(
            args.deep_view(),
            plan.deep_view(),
            from as int,
            shas.deep_view(),
            head@,
            t@,
            n as int,
        ),
{
    let repo: &str = args.repo.as_str();
    assert(plan.commits.deep_view()[from as int] == plan.commits@[from as int].deep_view());
    let (original_tree, n) = tree_sha(repo, head, t, n)?;
    let (first, n) = commit_snapshot(repo, plan.commits[from].sha.as_str(), t, n)?;
    assert(first.parents.deep_view().len() == first.parents@.len());
    if first.parents.len() == 0 {
        return fail("cannot rewrite a root commit", n);
    }
    assert(first.parents.deep_view()[0] == first.parents@[0]@);
    let parent: String = first.parents[0].clone();
    let ((new_head, rewritten), n) = replay(
        repo,
        &plan.commits,
        shas,
        &args.changes,
        from,
        parent,
        t,
        n,
    )?;
    if !changed_anything(&rewritten) {
        return fail("reword request does not change any commit message", n);
    }
    let (status, n) = install(
        repo,
        plan.branch.as_str(),
        new_head.as_str(),
        head,
        original_tree.as_str(),
        t,
        n,
    )?;
    Ok(
        (
            RewordCommitsOutput {
                operation: "reword_commits".to_owned(),
                branch: plan.branch.clone(),
                old_head: head.to_owned(),
                new_head,
                rewritten,
                status,
            },
            n,
        ),
    )
}

fn reword_from(args: &RewordCommitsArgs, head: &str, t: &Vec<Reply>, n: usize) -> (r: Flow<
    RewordCommitsOutput,
>)
    ensures
        flow(r) == reword_from_flow(args.deep_view(), head@, t@, n as int),
{
    let repo: &str = args.repo.as_str();
    assert(args.changes.deep_view().len() == args.changes@.len());
    if args.changes.len() == 0 || args.changes.len() > MAX_REWORDS {
        return fail("reword requires 1..64 commit changes", n);
    }
    let (plan, n) = history_plan(repo, args.base.as_str(), t, n)?;
    let (shas, n) = resolve_changes(repo, &args.changes, t, n)?;
    assert(shas.deep_view().len() == shas@.len());
    let found: Vec<usize> = match find_positions(&plan.commits, &shas, args.base.as_str()) {
        Ok(found) => found,
        Err(error) => {
            return Err(Halt::Fail(error, n));
        },
    };
    proof {
        law_positions(plan.commits.deep_view(), shas.deep_view(), args.base@);
    }
    assert(as_ints(found@).len() == found@.len());
    let from: usize = find_least(&found);
    let (_, n) = ensure_suffix_rewrite_safe(repo, &plan, from, args.rewrite_policy, t, n)?;
    assert(plan.commits.deep_view().len() == plan.commits@.len());
    reword_replay(args, &plan, from, &shas, head, t, n)
}

/// Rewords commits of the current branch.
pub open spec fn reword_flow(server: GitServer, args: RewordArgsView, t: Seq<Reply>, n: int) -> FlowView<
    RewriteOutcome<RewordedView, RewriteFailureView>,
> {
    rewrite_flow(
        server,
        "reword_commits"@,
        args.repo,
        |head: Text, n: int| reword_from_flow(args, head, t, n),
        t,
        n,
    )
}

impl GitServer {
    /// Gives commits of the current branch new messages, and makes those
    /// after them anew.
    pub fn reword_commits(&self, args: &RewordCommitsArgs, t: &Vec<Reply>, n: usize) -> (r: Flow<
        RewriteOutcome<RewordCommitsOutput, RewriteFailure>,
    >)
        ensures
            flow(r) == reword_flow(*self, args.deep_view(), t@, n as int),
    {
        match start(self, "reword_commits", args.repo.as_str(), t, n)? {
            Start::Refused(failure, n) => Ok((RewriteOutcome::Failed(failure), n)),
            Start::At(head, n) => {
                let result = reword_from(args, head.as_str(), t, n);
                report(result, "reword_commits", args.repo.as_str(), head.as_str(), t)
            },
        }
    }
}

// ---------------------------------------------------------------------------
// What a replay makes
// ---------------------------------------------------------------------------
/// A replay makes one commit for each that it replaces, in their order, and
/// ends at the last one that it made.
pub proof fn law_replay_maps_suffix(
    repo: Text,
    commits: Seq<HistoryCommitView>,
    shas: Seq<Text>,
    changes: Seq<RewordView>,
    i: int,
    parent: Text,
    made: Seq<RewrittenView>,
    t: Seq<Reply>,
    n: int,
)
    requires
        0 <= i <= commits.len(),
    ensures
        replay_flow(repo, commits, shas, changes, i, parent, made, t, n) matches FlowView::Got(
            end,
            _,
        ) ==> {
            &&& end.1.len() == made.len() + commits.len() - i
            &&& made.len() <= end.1.len() && end.1.take(made.len() as int) == made
            &&& end.0 == if i < commits.len() {
                end.1.last().new
            } else {
                parent
            }
        },
    decreases commits.len() - i,
{
    if i < commits.len() {
        if let FlowView::Got(snapshot, k) = commit_snapshot_flow(repo, commits[i].sha, t, n) {
            let request = reworded(shas, changes, commits[i].sha);
            let message = match request {
                Some(message) => message,
                None => snapshot.message,
            };
            if let FlowView::Got(new, m) = create_commit_flow(
                repo,
                snapshot,
                snapshot.tree,
                parent,
                message,
                t,
                k,
            ) {
                let more = made.push(rewritten_commit(snapshot, new, request));
                law_replay_maps_suffix(repo, commits, shas, changes, i + 1, new, more, t, m);
                if let FlowView::Got(end, _) = replay_flow(
                    repo,
                    commits,
                    shas,
                    changes,
                    i + 1,
                    new,
                    more,
                    t,
                    m,
                ) {
                    if end.1.take(more.len() as int) == more {
                        assert(end.1.take(made.len() as int) =~= more.take(made.len() as int));
                        assert(more.take(made.len() as int) =~= made);
                        assert(end.1[made.len() as int] == more[made.len() as int]);
                    }
                }
            }
        }
    } else {
        assert(made.take(made.len() as int) =~= made);
    }
}

} // verus!
