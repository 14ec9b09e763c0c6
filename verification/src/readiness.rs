//! Whether a work branch may be merged.
use crate::flow::{check, checked, flow, Flow, FlowView, Reply};
use crate::history::{
    history_plan, history_plan_flow, is_protected_trunk, law_plan_permits_rewriting,
    protected_trunk, HistoryCommit, HistoryCommitView, HistoryPlan, HistoryPlanView,
};
use crate::policy::{
    expected_release_subject, is_conventional_subject, is_release_commit_subject,
    is_release_subject, release_subject, semver_verdict, validate_semver_core,
};
use crate::queries::{resolve_commit_flow, resolve_commit_sha};
use crate::server::{quote, quoted};
use crate::text::{clone_optional, concat, concat3, decimal, decimal_of, same_text, Text};
use vstd::prelude::*;

verus! {

/// The most commits that a branch may bring into a merge.
pub const DEFAULT_MAX_MERGE_COMMITS: u32 = 5;

// ---------------------------------------------------------------------------
// What is asked
// ---------------------------------------------------------------------------
/// What a branch has to meet, and relative to which base.
#[derive(Debug)]
pub struct ValidateMergeReadinessArgs {
    pub repo: String,
    pub base: String,
    pub max_commits: Option<u32>,
    pub require_conventional_commits: bool,
    pub require_clean_tree: bool,
    pub require_release_commit: bool,
    /// The version whose release commit has to be the last one.
    pub release_version: Option<String>,
}

/// What is asked, as contracts speak of it.
pub struct ReadinessArgsView {
    pub repo: Text,
    pub base: Text,
    pub max_commits: Option<u32>,
    pub require_conventional_commits: bool,
    pub require_clean_tree: bool,
    pub require_release_commit: bool,
    pub release_version: Option<Text>,
}

impl DeepView for ValidateMergeReadinessArgs {
    type V = ReadinessArgsView;

    open spec fn deep_view(&self) -> ReadinessArgsView {
        ReadinessArgsView {
            repo: self.repo@,
            base: self.base@,
            max_commits: self.max_commits,
            require_conventional_commits: self.require_conventional_commits,
            require_clean_tree: self.require_clean_tree,
            require_release_commit: self.require_release_commit,
            release_version: self.release_version.deep_view(),
        }
    }
}

/// The number of commits that are allowed: what is asked for, within one and
/// the most that may ever be.
pub open spec fn max_allowed(max_commits: Option<u32>) -> u32 {
    match max_commits {
        None => DEFAULT_MAX_MERGE_COMMITS,
        Some(count) => if count < 1 {
            1
        } else if count > DEFAULT_MAX_MERGE_COMMITS {
            DEFAULT_MAX_MERGE_COMMITS
        } else {
            count
        },
    }
}

/// The number of commits that are allowed.
pub fn clamp_commits(max_commits: Option<u32>) -> (r: u32)
    ensures
        r == max_allowed(max_commits),
{
    match max_commits {
        None => DEFAULT_MAX_MERGE_COMMITS,
        Some(count) => if count < 1 {
            1
        } else if count > DEFAULT_MAX_MERGE_COMMITS {
            DEFAULT_MAX_MERGE_COMMITS
        } else {
            count
        },
    }
}

// ---------------------------------------------------------------------------
// What is answered
// ---------------------------------------------------------------------------
/// The outcome of each check.
#[derive(Debug, Clone, Copy)]
pub struct ReadinessChecks {
    pub not_on_main: bool,
    pub non_empty_history: bool,
    pub clean_tree: bool,
    pub base_reconciled: bool,
    pub commit_limit: bool,
    pub conventional_commits: bool,
    pub release_commit_last: bool,
}

/// A rule that the branch breaks.
#[derive(Debug)]
pub struct ReadinessViolation {
    pub code: String,
    pub message: String,
    pub commit: Option<String>,
    pub subject: Option<String>,
}

/// A broken rule as contracts speak of it.
pub struct ViolationView {
    pub code: Text,
    pub message: Text,
    pub commit: Option<Text>,
    pub subject: Option<Text>,
}

impl DeepView for ReadinessViolation {
    type V = ViolationView;

    open spec fn deep_view(&self) -> ViolationView {
        ViolationView {
            code: self.code@,
            message: self.message@,
            commit: self.commit.deep_view(),
            subject: self.subject.deep_view(),
        }
    }
}

/// Whether a branch may be merged, and if not, why.
#[derive(Debug)]
pub struct MergeReadiness {
    pub ready: bool,
    pub branch: String,
    pub base: String,
    pub commit_count: usize,
    pub max_allowed: u32,
    pub release_version: Option<String>,
    pub checks: ReadinessChecks,
    pub violations: Vec<ReadinessViolation>,
}

/// Readiness as contracts speak of it.
pub struct ReadinessView {
    pub ready: bool,
    pub branch: Text,
    pub base: Text,
    pub commit_count: nat,
    pub max_allowed: u32,
    pub release_version: Option<Text>,
    pub checks: ReadinessChecks,
    pub violations: Seq<ViolationView>,
}

impl DeepView for MergeReadiness {
    type V = ReadinessView;

    open spec fn deep_view(&self) -> ReadinessView {
        ReadinessView {
            ready: self.ready,
            branch: self.branch@,
            base: self.base@,
            commit_count: self.commit_count as nat,
            max_allowed: self.max_allowed,
            release_version: self.release_version.deep_view(),
            checks: self.checks,
            violations: self.violations.deep_view(),
        }
    }
}

// ---------------------------------------------------------------------------
// The checks
// ---------------------------------------------------------------------------
/// The last commit prepares the release that is asked for, or some release
/// where no version is given.
pub open spec fn ends_in_release(
    commits: Seq<HistoryCommitView>,
    release_version: Option<Text>,
) -> bool {
    &&& commits.len() > 0
    &&& match release_version {
        Some(version) => commits.last().subject == release_subject(version),
        None => is_release_subject(commits.last().subject),
    }
}

/// Every commit follows Conventional Commits.
pub open spec fn all_conventional(commits: Seq<HistoryCommitView>) -> bool {
    forall|i: int| 0 <= i < commits.len() ==> (#[trigger] commits[i]).conventional
}

/// The outcome of each check for a branch with this plan, where the base is
/// the commit `base_sha`.
pub open spec fn checks_of(
    plan: HistoryPlanView,
    base_sha: Text,
    args: ReadinessArgsView,
) -> ReadinessChecks {
    ReadinessChecks {
        not_on_main: !plan.detached_head && plan.branch != protected_trunk(),
        non_empty_history: plan.commits.len() > 0,
        clean_tree: !plan.dirty,
        base_reconciled: plan.merge_base == base_sha,
        commit_limit: plan.commit_count <= max_allowed(args.max_commits),
        conventional_commits: all_conventional(plan.commits),
        release_commit_last: args.require_release_commit ==> ends_in_release(
            plan.commits,
            args.release_version,
        ),
    }
}

fn release_comes_last(commits: &Vec<HistoryCommit>, release_version: &Option<String>) -> (r: bool)
    ensures
        r == ends_in_release(commits.deep_view(), release_version.deep_view()),
{
    assert(commits.deep_view().len() == commits@.len());
    if commits.len() == 0 {
        return false;
    }
    let last: &HistoryCommit = &commits[commits.len() - 1];
    assert(commits.deep_view().last() == last.deep_view());
    match release_version {
        Some(version) => {
            let expected: String = expected_release_subject(version.as_str());
            same_text(last.subject.as_str(), expected.as_str())
        },
        None => is_release_commit_subject(last.subject.as_str()),
    }
}

fn conventional_throughout(commits: &Vec<HistoryCommit>) -> (r: bool)
    ensures
        r == all_conventional(commits.deep_view()),
{
    let mut i: usize = 0;
    while i < commits.len()
        invariant
            i <= commits@.len(),
            forall|k: int| 0 <= k < i ==> (#[trigger] commits.deep_view()[k]).conventional,
        decreases commits@.len() - i,
    {
        assert(commits.deep_view()[i as int] == commits@[i as int].deep_view());
        if !commits[i].conventional {
            return false;
        }
        i += 1;
    }
    true
}

fn run_checks(plan: &HistoryPlan, base_sha: &str, args: &ValidateMergeReadinessArgs) -> (r:
    ReadinessChecks)
    ensures
        r == checks_of(plan.deep_view(), base_sha@, args.deep_view()),
{
    let limit: u32 = clamp_commits(args.max_commits);
    assert(plan.commits.deep_view().len() == plan.commits@.len());
    ReadinessChecks {
        not_on_main: !plan.detached_head && !is_protected_trunk(plan.branch.as_str()),
        non_empty_history: plan.commits.len() > 0,
        clean_tree: !plan.dirty,
        base_reconciled: same_text(plan.merge_base.as_str(), base_sha),
        commit_limit: plan.commit_count as u64 <= limit as u64,
        conventional_commits: conventional_throughout(&plan.commits),
        release_commit_last: !args.require_release_commit || release_comes_last(
            &plan.commits,
            &args.release_version,
        ),
    }
}

// ---------------------------------------------------------------------------
// The violations
// ---------------------------------------------------------------------------
/// A violation that concerns no single commit, where it applies.
pub open spec fn violation_if(applies: bool, code: Text, message: Text) -> Seq<ViolationView> {
    if applies {
        seq![ViolationView { code, message, commit: None, subject: None }]
    } else {
        Seq::empty()
    }
}

/// The violation of a commit that does not follow Conventional Commits.
pub open spec fn unconventional(commit: HistoryCommitView) -> ViolationView {
    ViolationView {
        code: "NON_CONVENTIONAL_COMMIT"@,
        message: "commit subject does not follow Conventional Commits"@,
        commit: Some(commit.sha),
        subject: Some(commit.subject),
    }
}

/// The violations of the commits that do not follow Conventional Commits, in
/// the order of the commits.
pub open spec fn unconventional_commits(commits: Seq<HistoryCommitView>) -> Seq<ViolationView> {
    commits.filter(|commit: HistoryCommitView| !commit.conventional).map_values(
        |commit: HistoryCommitView| unconventional(commit),
    )
}

/// What the last commit has to be.
pub open spec fn release_demand(release_version: Option<Text>) -> Text {
    match release_version {
        Some(version) => "final work-branch commit must be "@ + quoted(release_subject(version)),
        None =>
            "final work-branch commit must be `chore(release): prepare vMAJOR.MINOR.PATCH`"@,
    }
}

/// The violation of a branch whose last commit does not prepare the release.
pub open spec fn release_violation(
    commits: Seq<HistoryCommitView>,
    release_version: Option<Text>,
) -> ViolationView {
    ViolationView {
        code: "RELEASE_COMMIT_NOT_LAST"@,
        message: release_demand(release_version),
        commit: if commits.len() > 0 {
            Some(commits.last().sha)
        } else {
            None
        },
        subject: if commits.len() > 0 {
            Some(commits.last().subject)
        } else {
            None
        },
    }
}

/// The rules that a branch breaks, in the order in which they are reported.
pub open spec fn violations_of(
    plan: HistoryPlanView,
    checks: ReadinessChecks,
    args: ReadinessArgsView,
) -> Seq<ViolationView> {
    violation_if(
        !checks.not_on_main && plan.detached_head,
        "DETACHED_HEAD"@,
        "merge readiness requires a named work branch"@,
    ) + violation_if(
        !checks.not_on_main && !plan.detached_head,
        "PROTECTED_BRANCH"@,
        "merge readiness cannot be evaluated from protected branch `main`"@,
    ) + violation_if(
        !checks.non_empty_history,
        "NO_BRANCH_COMMITS"@,
        "work branch must contain at least one commit relative to the target base"@,
    ) + violation_if(
        args.require_clean_tree && !checks.clean_tree,
        "DIRTY_TREE"@,
        "working tree or index is not clean"@,
    ) + violation_if(
        !checks.base_reconciled,
        "BASE_NOT_RECONCILED"@,
        "work branch does not contain the current "@ + quoted(args.base) + " base tip"@,
    ) + violation_if(
        !checks.commit_limit,
        "TOO_MANY_COMMITS"@,
        decimal(plan.commit_count) + " branch commits; maximum is "@ + decimal(
            max_allowed(args.max_commits) as nat,
        ),
    ) + (if args.require_conventional_commits {
        unconventional_commits(plan.commits)
    } else {
        Seq::empty()
    }) + (if args.require_release_commit && !checks.release_commit_last {
        seq![release_violation(plan.commits, args.release_version)]
    } else {
        Seq::empty()
    })
}

fn add_violation(
    violations: &mut Vec<ReadinessViolation>,
    applies: bool,
    code: &str,
    message: String,
)
    ensures
        final(violations).deep_view() == old(violations).deep_view() + violation_if(
            applies,
            code@,
            message@,
        ),
{
    let ghost before = violations.deep_view();
    let ghost text = message@;
    if applies {
        violations.push(
            ReadinessViolation { code: code.to_owned(), message, commit: None, subject: None },
        );
    }
    assert(violations.deep_view() =~= before + violation_if(applies, code@, text));
}

fn add_unconventional(violations: &mut Vec<ReadinessViolation>, commits: &Vec<HistoryCommit>)
    ensures
        final(violations).deep_view() == old(violations).deep_view() + unconventional_commits(
            commits.deep_view(),
        ),
{
    let ghost before = violations.deep_view();
    let ghost all = commits.deep_view();
    let ghost odd = |commit: HistoryCommitView| !commit.conventional;
    let ghost report = |commit: HistoryCommitView| unconventional(commit);
    let mut i: usize = 0;
    assert(violations.deep_view() =~= before + all.take(0).filter(odd).map_values(report)) by {
        reveal(Seq::filter);
    }
    while i < commits.len()
        invariant
            all == commits.deep_view(),
            odd == (|commit: HistoryCommitView| !commit.conventional),
            report == (|commit: HistoryCommitView| unconventional(commit)),
            i <= commits@.len(),
            violations.deep_view() == before + all.take(i as int).filter(odd).map_values(report),
        decreases commits@.len() - i,
    {
        let ghost so_far = violations.deep_view();
        assert(all.take(i + 1).drop_last() =~= all.take(i as int));
        assert(all.take(i + 1).last() == all[i as int]);
        assert(all[i as int] == commits@[i as int].deep_view());
        proof {
            reveal(Seq::filter);
        }
        if !commits[i].conventional {
            violations.push(
                ReadinessViolation {
                    code: "NON_CONVENTIONAL_COMMIT".to_owned(),
                    message: "commit subject does not follow Conventional Commits".to_owned(),
                    commit: Some(commits[i].sha.clone()),
                    subject: Some(commits[i].subject.clone()),
                },
            );
            assert(violations.deep_view() =~= so_far.push(unconventional(all[i as int])));
            assert(all.take(i + 1).filter(odd) == all.take(i as int).filter(odd).push(
                all[i as int],
            ));
            assert(all.take(i + 1).filter(odd).map_values(report) =~= all.take(i as int).filter(
                odd,
            ).map_values(report).push(unconventional(all[i as int])));
            assert(violations.deep_view() =~= before + all.take(i + 1).filter(odd).map_values(
                report,
            ));
        }
        i += 1;
    }
    assert(all.take(all.len() as int) =~= all);
}

fn add_release_violation(
    violations: &mut Vec<ReadinessViolation>,
    commits: &Vec<HistoryCommit>,
    release_version: &Option<String>,
)
    ensures
        final(violations).deep_view() == old(violations).deep_view().push(
            release_violation(commits.deep_view(), release_version.deep_view()),
        ),
{
    let ghost before = violations.deep_view();
    let message: String = match release_version {
        Some(version) => {
            let expected: String = expected_release_subject(version.as_str());
            let shown: String = quote(expected.as_str());
            concat("final work-branch commit must be ", shown.as_str())
        },
        None =>
            "final work-branch commit must be `chore(release): prepare vMAJOR.MINOR.PATCH`".to_owned(),
    };
    assert(commits.deep_view().len() == commits@.len());
    let (commit, subject): (Option<String>, Option<String>) = if commits.len() > 0 {
        let last: &HistoryCommit = &commits[commits.len() - 1];
        assert(commits.deep_view().last() == last.deep_view());
        (Some(last.sha.clone()), Some(last.subject.clone()))
    } else {
        (None, None)
    };
    let violation = ReadinessViolation {
        code: "RELEASE_COMMIT_NOT_LAST".to_owned(),
        message,
        commit,
        subject,
    };
    let ghost seen = violation.deep_view();
    violations.push(violation);
    assert(violations.deep_view() =~= before.push(seen));
}

fn report_violations(
    plan: &HistoryPlan,
    checks: ReadinessChecks,
    args: &ValidateMergeReadinessArgs,
) -> (r: Vec<ReadinessViolation>)
    ensures
        r.deep_view() == violations_of(plan.deep_view(), checks, args.deep_view()),
{
    let mut found: Vec<ReadinessViolation> = Vec::new();
    add_violation(
        &mut found,
        !checks.not_on_main && plan.detached_head,
        "DETACHED_HEAD",
        "merge readiness requires a named work branch".to_owned(),
    );
    assert(found.deep_view() =~= violation_if(
        !checks.not_on_main && plan.detached_head,
        "DETACHED_HEAD"@,
        "merge readiness requires a named work branch"@,
    ));
    add_violation(
        &mut found,
        !checks.not_on_main && !plan.detached_head,
        "PROTECTED_BRANCH",
        "merge readiness cannot be evaluated from protected branch `main`".to_owned(),
    );
    add_violation(
        &mut found,
        !checks.non_empty_history,
        "NO_BRANCH_COMMITS",
        "work branch must contain at least one commit relative to the target base".to_owned(),
    );
    add_violation(
        &mut found,
        args.require_clean_tree && !checks.clean_tree,
        "DIRTY_TREE",
        "working tree or index is not clean".to_owned(),
    );
    let base: String = quote(args.base.as_str());
    add_violation(
        &mut found,
        !checks.base_reconciled,
        "BASE_NOT_RECONCILED",
        concat3("work branch does not contain the current ", base.as_str(), " base tip"),
    );
    let count: String = decimal_of(plan.commit_count as u64);
    let limit: String = decimal_of(clamp_commits(args.max_commits) as u64);
    add_violation(
        &mut found,
        !checks.commit_limit,
        "TOO_MANY_COMMITS",
        concat3(count.as_str(), " branch commits; maximum is ", limit.as_str()),
    );
    let ghost general = found.deep_view();
    if args.require_conventional_commits {
        add_unconventional(&mut found, &plan.commits);
    } else {
        assert(general + Seq::<ViolationView>::empty() =~= general);
    }
    let ghost most = found.deep_view();
    if args.require_release_commit && !checks.release_commit_last {
        add_release_violation(&mut found, &plan.commits, &args.release_version);
        assert(found.deep_view() =~= most + seq![
            release_violation(plan.commits.deep_view(), args.release_version.deep_view()),
        ]);
    } else {
        assert(most + Seq::<ViolationView>::empty() =~= most);
    }
    found
}

// ---------------------------------------------------------------------------
// Readiness
// ---------------------------------------------------------------------------
/// Readiness of a branch with this plan, where the base is the commit
/// `base_sha`.
pub open spec fn assessed(
    plan: HistoryPlanView,
    base_sha: Text,
    args: ReadinessArgsView,
) -> ReadinessView {
    let checks = checks_of(plan, base_sha, args);
    ReadinessView {
        ready: {
            &&& checks.not_on_main
            &&& checks.non_empty_history
            &&& args.require_clean_tree ==> checks.clean_tree
            &&& checks.base_reconciled
            &&& checks.commit_limit
            &&& args.require_conventional_commits ==> checks.conventional_commits
            &&& checks.release_commit_last
        },
        branch: plan.branch,
        base: plan.base,
        commit_count: plan.commit_count,
        max_allowed: max_allowed(args.max_commits),
        release_version: args.release_version,
        checks,
        violations: violations_of(plan, checks, args),
    }
}

/// Readiness of a branch with this plan, where the base is the commit
/// `base_sha`.
pub fn assess(plan: HistoryPlan, base_sha: &str, args: &ValidateMergeReadinessArgs) -> (r:
    MergeReadiness)
    ensures
        r.deep_view() == assessed(plan.deep_view(), base_sha@, args.deep_view()),
{
    let checks: ReadinessChecks = run_checks(&plan, base_sha, args);
    let violations: Vec<ReadinessViolation> = report_violations(&plan, checks, args);
    MergeReadiness {
        ready: checks.not_on_main && checks.non_empty_history && (!args.require_clean_tree
            || checks.clean_tree) && checks.base_reconciled && checks.commit_limit && (
        !args.require_conventional_commits || checks.conventional_commits)
            && checks.release_commit_last,
        branch: plan.branch,
        base: plan.base,
        commit_count: plan.commit_count,
        max_allowed: clamp_commits(args.max_commits),
        release_version: clone_optional(&args.release_version),
        checks,
        violations,
    }
}

/// A version, where one is given, is `MAJOR.MINOR.PATCH`.
pub open spec fn optional_version_verdict(version: Option<Text>) -> Result<(), Text> {
    match version {
        Some(version) => semver_verdict(version),
        None => Ok(()),
    }
}

/// Readiness of the current branch.
pub open spec fn merge_readiness_flow(args: ReadinessArgsView, t: Seq<Reply>, n: int) -> FlowView<
    ReadinessView,
> {
    checked(optional_version_verdict(args.release_version), n).and_then(
        |_u: (), n: int|
            history_plan_flow(args.repo, args.base, t, n).and_then(
                |plan: HistoryPlanView, n: int|
                    resolve_commit_flow(args.repo, args.base, t, n).map(
                        |base_sha: Text| assessed(plan, base_sha, args),
                    ),
            ),
    )
}

/// Readiness of the current branch.
pub fn validate_merge_readiness(args: &ValidateMergeReadinessArgs, t: &Vec<Reply>, n: usize) -> (r:
    Flow<MergeReadiness>)
    ensures
        flow(r) == merge_readiness_flow(args.deep_view(), t@, n as int),
{
    if let Some(version) = &args.release_version {
        check(validate_semver_core(version.as_str()), n)?;
    }
    let (plan, n) = history_plan(args.repo.as_str(), args.base.as_str(), t, n)?;
    let (base_sha, n) = resolve_commit_sha(args.repo.as_str(), args.base.as_str(), t, n)?;
    Ok((assess(plan, base_sha.as_str(), args), n))
}

/// The rules of the release workflow, for the release of `version`.
pub open spec fn dev_control_rules(repo: Text, version: Text) -> ReadinessArgsView {
    ReadinessArgsView {
        repo,
        base: protected_trunk(),
        max_commits: Some(DEFAULT_MAX_MERGE_COMMITS),
        require_conventional_commits: true,
        require_clean_tree: true,
        require_release_commit: true,
        release_version: Some(version),
    }
}

/// Readiness of the current branch for the release workflow.
pub open spec fn dev_control_flow(repo: Text, version: Text, t: Seq<Reply>, n: int) -> FlowView<
    ReadinessView,
> {
    checked(semver_verdict(version), n).and_then(
        |_u: (), n: int| merge_readiness_flow(dev_control_rules(repo, version), t, n),
    )
}

/// Readiness of the current branch for the release workflow.
pub fn dev_control_readiness(repo: &str, version: &str, t: &Vec<Reply>, n: usize) -> (r: Flow<
    MergeReadiness,
>)
    ensures
        flow(r) == dev_control_flow(repo@, version@, t@, n as int),
{
    check(validate_semver_core(version), n)?;
    let args = ValidateMergeReadinessArgs {
        repo: repo.to_owned(),
        base: "main".to_owned(),
        max_commits: Some(DEFAULT_MAX_MERGE_COMMITS),
        require_conventional_commits: true,
        require_clean_tree: true,
        require_release_commit: true,
        release_version: Some(version.to_owned()),
    };
    validate_merge_readiness(&args, t, n)
}

// ---------------------------------------------------------------------------
// What readiness means
// ---------------------------------------------------------------------------
proof fn lemma_nothing_unconventional(commits: Seq<HistoryCommitView>)
    ensures
        unconventional_commits(commits).len() == 0 <==> all_conventional(commits),
{
    let odd = |commit: HistoryCommitView| !commit.conventional;
    if all_conventional(commits) {
        if commits.filter(odd).len() > 0 {
            let first = commits.filter(odd)[0];
            assert(odd(first));
            assert(commits.filter(odd).contains(first));
            commits.lemma_filter_contains_rev(odd, first);
        }
    } else {
        let i = choose|i: int| 0 <= i < commits.len() && !(#[trigger] commits[i]).conventional;
        assert(odd(commits[i]));
        assert(commits.filter(odd).contains(commits[i]));
    }
}

/// A branch is ready exactly where no violation is reported.
pub proof fn law_ready_without_violations(
    plan: HistoryPlanView,
    base_sha: Text,
    args: ReadinessArgsView,
)
    ensures
        assessed(plan, base_sha, args).ready <==> assessed(
            plan,
            base_sha,
            args,
        ).violations.len() == 0,
{
    lemma_nothing_unconventional(plan.commits);
}

/// The number of commits that are allowed lies between one and five, whatever
/// is asked for.
pub proof fn law_commit_limit(max_commits: Option<u32>)
    ensures
        1 <= max_allowed(max_commits) <= 5,
{
}

/// A branch is ready for the release of a version exactly where `HEAD` is on a
/// branch other than the trunk, nothing is changed locally, the branch
/// contains the tip of the trunk, it has one to five commits, each follows
/// Conventional Commits, and the last is exactly the release commit of that
/// version.
pub proof fn law_dev_control_readiness(repo: Text, version: Text, t: Seq<Reply>, n: int)
    requires
        semver_verdict(version) is Ok,
    ensures
        history_plan_flow(repo, protected_trunk(), t, n) matches FlowView::Got(plan, m) ==> (
        resolve_commit_flow(repo, protected_trunk(), t, m) matches FlowView::Got(tip, end) ==> {
            &&& dev_control_flow(repo, version, t, n) matches FlowView::Got(readiness, k)
            &&& k == end
            &&& readiness.ready <==> {
                &&& !plan.detached_head && plan.branch != protected_trunk()
                &&& !plan.dirty
                &&& plan.merge_base == tip
                &&& 1 <= plan.commits.len() <= 5
                &&& forall|i: int|
                    0 <= i < plan.commits.len() ==> is_conventional_subject(
                        (#[trigger] plan.commits[i]).subject,
                    )
                &&& plan.commits.last().subject == release_subject(version)
            }
        }),
{
    law_plan_permits_rewriting(repo, protected_trunk(), t, n);
}

} // verus!
