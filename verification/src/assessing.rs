//! What an assessment of merge readiness says, held against what was asked and
//! told.
use crate::command::Command;
use crate::dialogue::{carries, performed, request, said};
use crate::extent::{agree, plan_extent, plan_reads};
use crate::flow::{FlowView, Reply};
use crate::history::{history_plan_flow, HistoryCommitView, HistoryPlanView};
use crate::planning::{
    law_plan_reports, lemma_plan_told_by, lookup_at, lookups_at, plan_told, planning,
};
use crate::policy::{is_release_subject, semver_verdict};
use crate::queries::resolve_commit_flow;
use crate::readiness::{
    assessed, merge_readiness_flow, release_violation, unconventional_commits, violation_if,
    ReadinessArgsView, ReadinessView, ViolationView,
};
use crate::server::quoted;
use crate::text::{decimal, Text};
use vstd::prelude::*;

verus! {

// ---------------------------------------------------------------------------
// Violations
// ---------------------------------------------------------------------------
/// The violations of this code, in order.
pub open spec fn of_code(violations: Seq<ViolationView>, code: Text) -> Seq<ViolationView> {
    violations.filter(|violation: ViolationView| violation.code == code)
}

/// The number of commits that are allowed where none is asked for, and the most
/// that may be asked for.
pub open spec fn allowed(max_commits: Option<u32>) -> int {
    match max_commits {
        None => 5,
        Some(count) => if count == 0 {
            1
        } else if count >= 5 {
            5
        } else {
            count as int
        },
    }
}

/// The last commit is the one that prepares the release.
pub open spec fn release_last(args: ReadinessArgsView, commits: Seq<HistoryCommitView>) -> bool {
    &&& commits.len() > 0
    &&& match args.release_version {
        Some(version) => commits.last().subject == "chore(release): prepare v"@ + version,
        None => is_release_subject(commits.last().subject),
    }
}

/// The violation of a rule that concerns no single commit.
pub open spec fn of_branch(code: Text, message: Text) -> ViolationView {
    ViolationView { code, message, commit: None, subject: None }
}

#[verifier::rlimit(40)]
proof fn lemma_codes()
    ensures
        "DETACHED_HEAD"@ != "PROTECTED_BRANCH"@,
        "DETACHED_HEAD"@ != "NO_BRANCH_COMMITS"@,
        "DETACHED_HEAD"@ != "DIRTY_TREE"@,
        "DETACHED_HEAD"@ != "BASE_NOT_RECONCILED"@,
        "DETACHED_HEAD"@ != "TOO_MANY_COMMITS"@,
        "DETACHED_HEAD"@ != "NON_CONVENTIONAL_COMMIT"@,
        "DETACHED_HEAD"@ != "RELEASE_COMMIT_NOT_LAST"@,
        "PROTECTED_BRANCH"@ != "NO_BRANCH_COMMITS"@,
        "PROTECTED_BRANCH"@ != "DIRTY_TREE"@,
        "PROTECTED_BRANCH"@ != "BASE_NOT_RECONCILED"@,
        "PROTECTED_BRANCH"@ != "TOO_MANY_COMMITS"@,
        "PROTECTED_BRANCH"@ != "NON_CONVENTIONAL_COMMIT"@,
        "PROTECTED_BRANCH"@ != "RELEASE_COMMIT_NOT_LAST"@,
        "NO_BRANCH_COMMITS"@ != "DIRTY_TREE"@,
        "NO_BRANCH_COMMITS"@ != "BASE_NOT_RECONCILED"@,
        "NO_BRANCH_COMMITS"@ != "TOO_MANY_COMMITS"@,
        "NO_BRANCH_COMMITS"@ != "NON_CONVENTIONAL_COMMIT"@,
        "NO_BRANCH_COMMITS"@ != "RELEASE_COMMIT_NOT_LAST"@,
        "DIRTY_TREE"@ != "BASE_NOT_RECONCILED"@,
        "DIRTY_TREE"@ != "TOO_MANY_COMMITS"@,
        "DIRTY_TREE"@ != "NON_CONVENTIONAL_COMMIT"@,
        "DIRTY_TREE"@ != "RELEASE_COMMIT_NOT_LAST"@,
        "BASE_NOT_RECONCILED"@ != "TOO_MANY_COMMITS"@,
        "BASE_NOT_RECONCILED"@ != "NON_CONVENTIONAL_COMMIT"@,
        "BASE_NOT_RECONCILED"@ != "RELEASE_COMMIT_NOT_LAST"@,
        "TOO_MANY_COMMITS"@ != "NON_CONVENTIONAL_COMMIT"@,
        "TOO_MANY_COMMITS"@ != "RELEASE_COMMIT_NOT_LAST"@,
        "NON_CONVENTIONAL_COMMIT"@ != "RELEASE_COMMIT_NOT_LAST"@,
{
    reveal_strlit("DETACHED_HEAD");
    assert("DETACHED_HEAD"@.len() == 13);
    reveal_strlit("PROTECTED_BRANCH");
    assert("PROTECTED_BRANCH"@.len() == 16);
    reveal_strlit("NO_BRANCH_COMMITS");
    assert("NO_BRANCH_COMMITS"@.len() == 17);
    reveal_strlit("DIRTY_TREE");
    assert("DIRTY_TREE"@.len() == 10);
    reveal_strlit("BASE_NOT_RECONCILED");
    assert("BASE_NOT_RECONCILED"@.len() == 19);
    reveal_strlit("TOO_MANY_COMMITS");
    assert("TOO_MANY_COMMITS"@.len() == 16);
    reveal_strlit("NON_CONVENTIONAL_COMMIT");
    assert("NON_CONVENTIONAL_COMMIT"@.len() == 23);
    reveal_strlit("RELEASE_COMMIT_NOT_LAST");
    assert("RELEASE_COMMIT_NOT_LAST"@.len() == 23);
    assert("PROTECTED_BRANCH"@[0] != "TOO_MANY_COMMITS"@[0]);
    assert("NON_CONVENTIONAL_COMMIT"@[0] != "RELEASE_COMMIT_NOT_LAST"@[0]);
}

#[verifier::rlimit(40)]
proof fn lemma_of_code_joined(a: Seq<ViolationView>, b: Seq<ViolationView>, code: Text)
    ensures
        of_code(a + b, code) == of_code(a, code) + of_code(b, code),
{
    Seq::filter_distributes_over_add(a, b, |violation: ViolationView| violation.code == code);
}

#[verifier::rlimit(40)]
proof fn lemma_of_code_if(applies: bool, own: Text, message: Text, code: Text)
    ensures
        of_code(violation_if(applies, own, message), code) == if applies && own == code {
            seq![of_branch(own, message)]
        } else {
            Seq::empty()
        },
{
    reveal_with_fuel(Seq::filter, 2);
    let all = violation_if(applies, own, message);
    if applies {
        assert(all.drop_last() =~= Seq::empty());
    }
}

#[verifier::rlimit(40)]
proof fn lemma_of_code_all(list: Seq<ViolationView>, own: Text, code: Text)
    requires
        forall|i: int| 0 <= i < list.len() ==> (#[trigger] list[i]).code == own,
    ensures
        of_code(list, code) == if own == code {
            list
        } else {
            Seq::empty()
        },
    decreases list.len(),
{
    reveal(Seq::filter);
    if list.len() > 0 {
        lemma_of_code_all(list.drop_last(), own, code);
        assert(list.drop_last().push(list.last()) =~= list);
    } else {
        assert(list =~= Seq::empty());
    }
}

#[verifier::opaque]
spec fn reported(plan: HistoryPlanView, tip: Text, args: ReadinessArgsView) -> Seq<ViolationView> {
    assessed(plan, tip, args).violations
}

/// The violations of one code are gathered from the rules.
#[verifier::rlimit(40)]
proof fn lemma_of_code(plan: HistoryPlanView, tip: Text, args: ReadinessArgsView, code: Text)
    requires
        plan.commit_count == plan.commits.len(),
    ensures
        ({
            let p1 = violation_if(
                plan.detached_head,
                "DETACHED_HEAD"@,
                "merge readiness requires a named work branch"@,
            );
            let p2 = violation_if(
                !plan.detached_head && plan.branch == "main"@,
                "PROTECTED_BRANCH"@,
                "merge readiness cannot be evaluated from protected branch `main`"@,
            );
            let p3 = violation_if(
                plan.commits.len() == 0,
                "NO_BRANCH_COMMITS"@,
                "work branch must contain at least one commit relative to the target base"@,
            );
            let p4 = violation_if(
                args.require_clean_tree && plan.dirty,
                "DIRTY_TREE"@,
                "working tree or index is not clean"@,
            );
            let p5 = violation_if(
                plan.merge_base != tip,
                "BASE_NOT_RECONCILED"@,
                "work branch does not contain the current "@ + quoted(args.base) + " base tip"@,
            );
            let p6 = violation_if(
                plan.commit_count > allowed(args.max_commits),
                "TOO_MANY_COMMITS"@,
                decimal(plan.commit_count) + " branch commits; maximum is "@ + decimal(
                    allowed(args.max_commits) as nat,
                ),
            );
            let p7 = if args.require_conventional_commits {
                unconventional_commits(plan.commits)
            } else {
                Seq::empty()
            };
            let p8 = if args.require_release_commit && !release_last(args, plan.commits) {
                seq![release_violation(plan.commits, args.release_version)]
            } else {
                Seq::empty()
            };
            of_code(reported(plan, tip, args), code) == of_code(p1, code) + of_code(
                p2,
                code,
            ) + of_code(p3, code) + of_code(p4, code) + of_code(p5, code) + of_code(p6, code)
                + of_code(p7, code) + of_code(p8, code)
        }),
{
    let p1 = violation_if(
        plan.detached_head,
        "DETACHED_HEAD"@,
        "merge readiness requires a named work branch"@,
    );
    let p2 = violation_if(
        !plan.detached_head && plan.branch == "main"@,
        "PROTECTED_BRANCH"@,
        "merge readiness cannot be evaluated from protected branch `main`"@,
    );
    let p3 = violation_if(
        plan.commits.len() == 0,
        "NO_BRANCH_COMMITS"@,
        "work branch must contain at least one commit relative to the target base"@,
    );
    let p4 = violation_if(
        args.require_clean_tree && plan.dirty,
        "DIRTY_TREE"@,
        "working tree or index is not clean"@,
    );
    let p5 = violation_if(
        plan.merge_base != tip,
        "BASE_NOT_RECONCILED"@,
        "work branch does not contain the current "@ + quoted(args.base) + " base tip"@,
    );
    let p6 = violation_if(
        plan.commit_count > allowed(args.max_commits),
        "TOO_MANY_COMMITS"@,
        decimal(plan.commit_count) + " branch commits; maximum is "@ + decimal(
            allowed(args.max_commits) as nat,
        ),
    );
    let p7 = if args.require_conventional_commits {
        unconventional_commits(plan.commits)
    } else {
        Seq::empty()
    };
    let p8 = if args.require_release_commit && !release_last(args, plan.commits) {
        seq![release_violation(plan.commits, args.release_version)]
    } else {
        Seq::empty()
    };
    lemma_of_code_joined(p1, p2, code);
    lemma_of_code_joined(p1 + p2, p3, code);
    lemma_of_code_joined(p1 + p2 + p3, p4, code);
    lemma_of_code_joined(p1 + p2 + p3 + p4, p5, code);
    lemma_of_code_joined(p1 + p2 + p3 + p4 + p5, p6, code);
    lemma_of_code_joined(p1 + p2 + p3 + p4 + p5 + p6, p7, code);
    lemma_of_code_joined(p1 + p2 + p3 + p4 + p5 + p6 + p7, p8, code);
    reveal(reported);
    assert(reported(plan, tip, args) == p1 + p2 + p3 + p4 + p5 + p6 + p7 + p8);
}

/// Each part of the violations has its own code.
#[verifier::rlimit(40)]
proof fn lemma_of_code_parts(
    plan: HistoryPlanView,
    tip: Text,
    args: ReadinessArgsView,
    code: Text,
)
    ensures
        ({
            let p1 = violation_if(
                plan.detached_head,
                "DETACHED_HEAD"@,
                "merge readiness requires a named work branch"@,
            );
            let p2 = violation_if(
                !plan.detached_head && plan.branch == "main"@,
                "PROTECTED_BRANCH"@,
                "merge readiness cannot be evaluated from protected branch `main`"@,
            );
            let p3 = violation_if(
                plan.commits.len() == 0,
                "NO_BRANCH_COMMITS"@,
                "work branch must contain at least one commit relative to the target base"@,
            );
            let p4 = violation_if(
                args.require_clean_tree && plan.dirty,
                "DIRTY_TREE"@,
                "working tree or index is not clean"@,
            );
            let p5 = violation_if(
                plan.merge_base != tip,
                "BASE_NOT_RECONCILED"@,
                "work branch does not contain the current "@ + quoted(args.base) + " base tip"@,
            );
            let p6 = violation_if(
                plan.commit_count > allowed(args.max_commits),
                "TOO_MANY_COMMITS"@,
                decimal(plan.commit_count) + " branch commits; maximum is "@ + decimal(
                    allowed(args.max_commits) as nat,
                ),
            );
            let p7 = if args.require_conventional_commits {
                unconventional_commits(plan.commits)
            } else {
                Seq::empty()
            };
            let p8 = if args.require_release_commit && !release_last(args, plan.commits) {
                seq![release_violation(plan.commits, args.release_version)]
            } else {
                Seq::empty()
            };
            &&& code != "DETACHED_HEAD"@ ==> of_code(p1, code) == Seq::<ViolationView>::empty()
            &&& code == "DETACHED_HEAD"@ ==> of_code(p1, code) == p1
            &&& code != "PROTECTED_BRANCH"@ ==> of_code(p2, code) == Seq::<ViolationView>::empty()
            &&& code == "PROTECTED_BRANCH"@ ==> of_code(p2, code) == p2
            &&& code != "NO_BRANCH_COMMITS"@ ==> of_code(p3, code) == Seq::<ViolationView>::empty()
            &&& code == "NO_BRANCH_COMMITS"@ ==> of_code(p3, code) == p3
            &&& code != "DIRTY_TREE"@ ==> of_code(p4, code) == Seq::<ViolationView>::empty()
            &&& code == "DIRTY_TREE"@ ==> of_code(p4, code) == p4
            &&& code != "BASE_NOT_RECONCILED"@
                ==> of_code(p5, code) == Seq::<ViolationView>::empty()
            &&& code == "BASE_NOT_RECONCILED"@ ==> of_code(p5, code) == p5
            &&& code != "TOO_MANY_COMMITS"@ ==> of_code(p6, code) == Seq::<ViolationView>::empty()
            &&& code == "TOO_MANY_COMMITS"@ ==> of_code(p6, code) == p6
            &&& code != "NON_CONVENTIONAL_COMMIT"@
                ==> of_code(p7, code) == Seq::<ViolationView>::empty()
            &&& code == "NON_CONVENTIONAL_COMMIT"@ ==> of_code(p7, code) == p7
            &&& code != "RELEASE_COMMIT_NOT_LAST"@
                ==> of_code(p8, code) == Seq::<ViolationView>::empty()
            &&& code == "RELEASE_COMMIT_NOT_LAST"@ ==> of_code(p8, code) == p8
        }),
{
    let p1 = violation_if(
        plan.detached_head,
        "DETACHED_HEAD"@,
        "merge readiness requires a named work branch"@,
    );
    let p2 = violation_if(
        !plan.detached_head && plan.branch == "main"@,
        "PROTECTED_BRANCH"@,
        "merge readiness cannot be evaluated from protected branch `main`"@,
    );
    let p3 = violation_if(
        plan.commits.len() == 0,
        "NO_BRANCH_COMMITS"@,
        "work branch must contain at least one commit relative to the target base"@,
    );
    let p4 = violation_if(
        args.require_clean_tree && plan.dirty,
        "DIRTY_TREE"@,
        "working tree or index is not clean"@,
    );
    let p5 = violation_if(
        plan.merge_base != tip,
        "BASE_NOT_RECONCILED"@,
        "work branch does not contain the current "@ + quoted(args.base) + " base tip"@,
    );
    let p6 = violation_if(
        plan.commit_count > allowed(args.max_commits),
        "TOO_MANY_COMMITS"@,
        decimal(plan.commit_count) + " branch commits; maximum is "@ + decimal(
            allowed(args.max_commits) as nat,
        ),
    );
    let p7 = if args.require_conventional_commits {
        unconventional_commits(plan.commits)
    } else {
        Seq::empty()
    };
    let p8 = if args.require_release_commit && !release_last(args, plan.commits) {
        seq![release_violation(plan.commits, args.release_version)]
    } else {
        Seq::empty()
    };
    lemma_of_code_if(
        plan.detached_head,
        "DETACHED_HEAD"@,
        "merge readiness requires a named work branch"@,
        code,
    );
    lemma_of_code_if(
        !plan.detached_head && plan.branch == "main"@,
        "PROTECTED_BRANCH"@,
        "merge readiness cannot be evaluated from protected branch `main`"@,
        code,
    );
    lemma_of_code_if(
        plan.commits.len() == 0,
        "NO_BRANCH_COMMITS"@,
        "work branch must contain at least one commit relative to the target base"@,
        code,
    );
    lemma_of_code_if(
        args.require_clean_tree && plan.dirty,
        "DIRTY_TREE"@,
        "working tree or index is not clean"@,
        code,
    );
    lemma_of_code_if(
        plan.merge_base != tip,
        "BASE_NOT_RECONCILED"@,
        "work branch does not contain the current "@ + quoted(args.base) + " base tip"@,
        code,
    );
    lemma_of_code_if(
        plan.commit_count > allowed(args.max_commits),
        "TOO_MANY_COMMITS"@,
        decimal(plan.commit_count) + " branch commits; maximum is "@ + decimal(
            allowed(args.max_commits) as nat,
        ),
        code,
    );
    let all = unconventional_commits(plan.commits);
    assert forall|i: int| 0 <= i < all.len() implies (#[trigger] all[i]).code
        == "NON_CONVENTIONAL_COMMIT"@ by {}
    lemma_of_code_all(p7, "NON_CONVENTIONAL_COMMIT"@, code);
    lemma_of_code_all(p8, "RELEASE_COMMIT_NOT_LAST"@, code);
}

/// The violations that are reported of a branch with this history, where the
/// base is at `tip`: for each rule that it breaks one, or one for each commit
/// that breaks it, and none for a rule that it keeps.
pub open spec fn violations_told(
    violations: Seq<ViolationView>,
    plan: HistoryPlanView,
    tip: Text,
    args: ReadinessArgsView,
) -> bool {
    &&& of_code(violations, "DETACHED_HEAD"@) == if plan.detached_head {
        seq![of_branch("DETACHED_HEAD"@, "merge readiness requires a named work branch"@)]
    } else {
        Seq::empty()
    }
    &&& of_code(violations, "PROTECTED_BRANCH"@) == if !plan.detached_head && plan.branch == "main"@ {
        seq![
            of_branch(
                "PROTECTED_BRANCH"@,
                "merge readiness cannot be evaluated from protected branch `main`"@,
            ),
        ]
    } else {
        Seq::empty()
    }
    &&& of_code(violations, "NO_BRANCH_COMMITS"@) == if plan.commits.len() == 0 {
        seq![
            of_branch(
                "NO_BRANCH_COMMITS"@,
                "work branch must contain at least one commit relative to the target base"@,
            ),
        ]
    } else {
        Seq::empty()
    }
    &&& of_code(violations, "DIRTY_TREE"@) == if args.require_clean_tree && plan.dirty {
        seq![of_branch("DIRTY_TREE"@, "working tree or index is not clean"@)]
    } else {
        Seq::empty()
    }
    &&& of_code(violations, "BASE_NOT_RECONCILED"@) == if plan.merge_base != tip {
        seq![
            of_branch(
                "BASE_NOT_RECONCILED"@,
                "work branch does not contain the current "@ + quoted(args.base) + " base tip"@,
            ),
        ]
    } else {
        Seq::empty()
    }
    &&& of_code(violations, "TOO_MANY_COMMITS"@) == if plan.commit_count > allowed(args.max_commits) {
        seq![of_branch("TOO_MANY_COMMITS"@, decimal(plan.commit_count) + " branch commits; maximum is "@ + decimal(
                allowed(args.max_commits) as nat,
            ))]
    } else {
        Seq::empty()
    }
    &&& of_code(violations, "NON_CONVENTIONAL_COMMIT"@) == if args.require_conventional_commits {
        plan.commits.filter(|commit: HistoryCommitView| !commit.conventional).map_values(
            |commit: HistoryCommitView|
                ViolationView {
                    code: "NON_CONVENTIONAL_COMMIT"@,
                    message: "commit subject does not follow Conventional Commits"@,
                    commit: Some(commit.sha),
                    subject: Some(commit.subject),
                },
        )
    } else {
        Seq::empty()
    }
    &&& of_code(violations, "RELEASE_COMMIT_NOT_LAST"@) == if args.require_release_commit && !release_last(
        args,
        plan.commits,
    ) {
        seq![
            ViolationView {
                code: "RELEASE_COMMIT_NOT_LAST"@,
                message: match args.release_version {
                    Some(version) => "final work-branch commit must be "@ + quoted(
                        "chore(release): prepare v"@ + version,
                    ),
                    None =>
                        "final work-branch commit must be `chore(release): prepare vMAJOR.MINOR.PATCH`"@,
                },
                commit: if plan.commits.len() > 0 {
                    Some(plan.commits.last().sha)
                } else {
                    None
                },
                subject: if plan.commits.len() > 0 {
                    Some(plan.commits.last().subject)
                } else {
                    None
                },
            },
        ]
    } else {
        Seq::empty()
    }
}

#[verifier::rlimit(40)]
proof fn lemma_detached(plan: HistoryPlanView, tip: Text, args: ReadinessArgsView)
    requires
        plan.commit_count == plan.commits.len(),
    ensures
        ({
            let violations = reported(plan, tip, args);
            of_code(violations, "DETACHED_HEAD"@) == if plan.detached_head {
                seq![of_branch("DETACHED_HEAD"@, "merge readiness requires a named work branch"@)]
            } else {
                Seq::empty()
            }
        }),
{
    lemma_codes();
    lemma_of_code(plan, tip, args, "DETACHED_HEAD"@);
    lemma_of_code_parts(plan, tip, args, "DETACHED_HEAD"@);
}

#[verifier::rlimit(40)]
proof fn lemma_protected(plan: HistoryPlanView, tip: Text, args: ReadinessArgsView)
    requires
        plan.commit_count == plan.commits.len(),
    ensures
        ({
            let violations = reported(plan, tip, args);
            of_code(violations, "PROTECTED_BRANCH"@) == if !plan.detached_head && plan.branch == "main"@ {
                seq![
                    of_branch(
                        "PROTECTED_BRANCH"@,
                        "merge readiness cannot be evaluated from protected branch `main`"@,
                    ),
                ]
            } else {
                Seq::empty()
            }
        }),
{
    lemma_codes();
    lemma_of_code(plan, tip, args, "PROTECTED_BRANCH"@);
    lemma_of_code_parts(plan, tip, args, "PROTECTED_BRANCH"@);
}

#[verifier::rlimit(40)]
proof fn lemma_empty(plan: HistoryPlanView, tip: Text, args: ReadinessArgsView)
    requires
        plan.commit_count == plan.commits.len(),
    ensures
        ({
            let violations = reported(plan, tip, args);
            of_code(violations, "NO_BRANCH_COMMITS"@) == if plan.commits.len() == 0 {
                seq![
                    of_branch(
                        "NO_BRANCH_COMMITS"@,
                        "work branch must contain at least one commit relative to the target base"@,
                    ),
                ]
            } else {
                Seq::empty()
            }
        }),
{
    lemma_codes();
    lemma_of_code(plan, tip, args, "NO_BRANCH_COMMITS"@);
    lemma_of_code_parts(plan, tip, args, "NO_BRANCH_COMMITS"@);
}

#[verifier::rlimit(40)]
proof fn lemma_dirty(plan: HistoryPlanView, tip: Text, args: ReadinessArgsView)
    requires
        plan.commit_count == plan.commits.len(),
    ensures
        ({
            let violations = reported(plan, tip, args);
            of_code(violations, "DIRTY_TREE"@) == if args.require_clean_tree && plan.dirty {
                seq![of_branch("DIRTY_TREE"@, "working tree or index is not clean"@)]
            } else {
                Seq::empty()
            }
        }),
{
    lemma_codes();
    lemma_of_code(plan, tip, args, "DIRTY_TREE"@);
    lemma_of_code_parts(plan, tip, args, "DIRTY_TREE"@);
}

#[verifier::rlimit(40)]
proof fn lemma_unreconciled(plan: HistoryPlanView, tip: Text, args: ReadinessArgsView)
    requires
        plan.commit_count == plan.commits.len(),
    ensures
        ({
            let violations = reported(plan, tip, args);
            of_code(violations, "BASE_NOT_RECONCILED"@) == if plan.merge_base != tip {
                seq![
                    of_branch(
                        "BASE_NOT_RECONCILED"@,
                        "work branch does not contain the current "@
                            + quoted(args.base)
                            + " base tip"@,
                    ),
                ]
            } else {
                Seq::empty()
            }
        }),
{
    lemma_codes();
    lemma_of_code(plan, tip, args, "BASE_NOT_RECONCILED"@);
    lemma_of_code_parts(plan, tip, args, "BASE_NOT_RECONCILED"@);
}

#[verifier::rlimit(40)]
proof fn lemma_numerous(plan: HistoryPlanView, tip: Text, args: ReadinessArgsView)
    requires
        plan.commit_count == plan.commits.len(),
    ensures
        ({
            let violations = reported(plan, tip, args);
            of_code(violations, "TOO_MANY_COMMITS"@) == if plan.commit_count > allowed(args.max_commits) {
                seq![of_branch("TOO_MANY_COMMITS"@, decimal(plan.commit_count) + " branch commits; maximum is "@ + decimal(
                        allowed(args.max_commits) as nat,
                    ))]
            } else {
                Seq::empty()
            }
        }),
{
    lemma_codes();
    lemma_of_code(plan, tip, args, "TOO_MANY_COMMITS"@);
    lemma_of_code_parts(plan, tip, args, "TOO_MANY_COMMITS"@);
}

#[verifier::rlimit(40)]
proof fn lemma_unconventional(plan: HistoryPlanView, tip: Text, args: ReadinessArgsView)
    requires
        plan.commit_count == plan.commits.len(),
    ensures
        ({
            let violations = reported(plan, tip, args);
            of_code(violations, "NON_CONVENTIONAL_COMMIT"@) == if args.require_conventional_commits {
                plan.commits.filter(|commit: HistoryCommitView| !commit.conventional).map_values(
                    |commit: HistoryCommitView|
                        ViolationView {
                            code: "NON_CONVENTIONAL_COMMIT"@,
                            message: "commit subject does not follow Conventional Commits"@,
                            commit: Some(commit.sha),
                            subject: Some(commit.subject),
                        },
                )
            } else {
                Seq::empty()
            }
        }),
{
    lemma_codes();
    lemma_of_code(plan, tip, args, "NON_CONVENTIONAL_COMMIT"@);
    lemma_of_code_parts(plan, tip, args, "NON_CONVENTIONAL_COMMIT"@);
}

#[verifier::rlimit(40)]
proof fn lemma_unreleased(plan: HistoryPlanView, tip: Text, args: ReadinessArgsView)
    requires
        plan.commit_count == plan.commits.len(),
    ensures
        ({
            let violations = reported(plan, tip, args);
            of_code(violations, "RELEASE_COMMIT_NOT_LAST"@) == if args.require_release_commit && !release_last(
                args,
                plan.commits,
            ) {
                seq![
                    ViolationView {
                        code: "RELEASE_COMMIT_NOT_LAST"@,
                        message: match args.release_version {
                            Some(version) => "final work-branch commit must be "@ + quoted(
                                "chore(release): prepare v"@ + version,
                            ),
                            None =>
                                "final work-branch commit must be `chore(release): prepare vMAJOR.MINOR.PATCH`"@,
                        },
                        commit: if plan.commits.len() > 0 {
                            Some(plan.commits.last().sha)
                        } else {
                            None
                        },
                        subject: if plan.commits.len() > 0 {
                            Some(plan.commits.last().subject)
                        } else {
                            None
                        },
                    },
                ]
            } else {
                Seq::empty()
            }
        }),
{
    lemma_codes();
    lemma_of_code(plan, tip, args, "RELEASE_COMMIT_NOT_LAST"@);
    lemma_of_code_parts(plan, tip, args, "RELEASE_COMMIT_NOT_LAST"@);
}

#[verifier::rlimit(40)]
proof fn lemma_violations_told(plan: HistoryPlanView, tip: Text, args: ReadinessArgsView)
    requires
        plan.commit_count == plan.commits.len(),
    ensures
        violations_told(reported(plan, tip, args), plan, tip, args),
{
    lemma_detached(plan, tip, args);
    lemma_protected(plan, tip, args);
    lemma_empty(plan, tip, args);
    lemma_dirty(plan, tip, args);
    lemma_unreconciled(plan, tip, args);
    lemma_numerous(plan, tip, args);
    lemma_unconventional(plan, tip, args);
    lemma_unreleased(plan, tip, args);
}

// ---------------------------------------------------------------------------
// The law
// ---------------------------------------------------------------------------
/// Assessing, as an operation.
pub open spec fn assessing(args: ReadinessArgsView, n: int) -> spec_fn(Seq<Reply>) -> FlowView<
    ReadinessView,
> {
    |t: Seq<Reply>| merge_readiness_flow(args, t, n)
}

#[verifier::rlimit(40)]
proof fn lemma_assessment_parts(args: ReadinessArgsView, t: Seq<Reply>, n: int)
    requires
        0 <= n <= t.len(),
        merge_readiness_flow(args, t, n) is Got,
    ensures
        ({
            let plan = history_plan_flow(args.repo, args.base, t, n)->Got_0;
            let m = lookup_at(lookups_at(n, plan), plan.upstream, plan.commits.len() as int);
            let tip = said(t, m + 1);
            &&& history_plan_flow(args.repo, args.base, t, n) == FlowView::Got(plan, m)
            &&& 0 <= m
            &&& m + 2 <= t.len()
            &&& plan_told(planning(args.repo, args.base, n), t, n, args.repo, args.base, plan)
            &&& resolve_commit_flow(args.repo, args.base, t, m) == FlowView::Got(tip, m + 2)
            &&& args.release_version matches Some(version) ==> semver_verdict(version) is Ok
            &&& merge_readiness_flow(args, t, n)->Got_0 == assessed(plan, tip, args)
        }),
{
    let plan = history_plan_flow(args.repo, args.base, t, n)->Got_0;
    assert(history_plan_flow(args.repo, args.base, t, n) is Got);
    law_plan_reports(args.repo, args.base, t, n);
    plan_extent(args.repo, args.base, t, n);
    let m = lookup_at(lookups_at(n, plan), plan.upstream, plan.commits.len() as int);
    assert(resolve_commit_flow(args.repo, args.base, t, m) is Got);
    assert(resolve_commit_flow(args.repo, args.base, t, m) == FlowView::Got(
        said(t, m + 1),
        m + 2,
    ));
}

#[verifier::rlimit(40)]
proof fn lemma_assessment_plan(args: ReadinessArgsView, t: Seq<Reply>, n: int)
    requires
        0 <= n <= t.len(),
        merge_readiness_flow(args, t, n) is Got,
    ensures
        plan_told(
            assessing(args, n),
            t,
            n,
            args.repo,
            args.base,
            history_plan_flow(args.repo, args.base, t, n)->Got_0,
        ),
{
    lemma_assessment_parts(args, t, n);
    let op = assessing(args, n);
    let plan = history_plan_flow(args.repo, args.base, t, n)->Got_0;
    let part = planning(args.repo, args.base, n);
    assert(carries(op, part, t, n)) by {
        assert forall|p: int|
            n <= p <= t.len() && request(part(#[trigger] t.take(p))) is Some implies request(
            op(t.take(p)),
        ) == request(part(t.take(p))) by {
            let s = t.take(p);
            assert(op(s) == merge_readiness_flow(args, s, n));
            assert(part(s) == history_plan_flow(args.repo, args.base, s, n));
        }
    }
    lemma_plan_told_by(op, part, t, n, args.repo, args.base, plan);
}

#[verifier::rlimit(40)]
#[verifier::spinoff_prover]
proof fn lemma_assessment_tip(args: ReadinessArgsView, t: Seq<Reply>, n: int)
    requires
        0 <= n <= t.len(),
        merge_readiness_flow(args, t, n) is Got,
    ensures
        ({
            let plan = history_plan_flow(args.repo, args.base, t, n)->Got_0;
            let m = lookup_at(lookups_at(n, plan), plan.upstream, plan.commits.len() as int);
            performed(
                assessing(args, n),
                t,
                m + 1,
                args.repo,
                Command::ResolveCommit { revision: args.base },
            )
        }),
{
    lemma_assessment_parts(args, t, n);
    let op = assessing(args, n);
    let plan = history_plan_flow(args.repo, args.base, t, n)->Got_0;
    let m = lookup_at(lookups_at(n, plan), plan.upstream, plan.commits.len() as int);
    let s = t.take(m + 1);
    assert(op(s) == merge_readiness_flow(args, s, n));
    assert(agree(t, s, m));
    plan_reads(args.repo, args.base, t, s, n);
    assert(request(resolve_commit_flow(args.repo, args.base, s, m)) is Some);
}

/// What is said of a branch with this history, where the base is at `tip`: each
/// check says of the history what it names, and the branch is ready exactly
/// where every check that is asked for holds.
pub open spec fn checks_told(
    r: ReadinessView,
    plan: HistoryPlanView,
    tip: Text,
    args: ReadinessArgsView,
) -> bool {
    &&& r.branch == plan.branch
    &&& r.base == args.base
    &&& r.commit_count == plan.commits.len()
    &&& r.max_allowed == allowed(args.max_commits)
    &&& r.release_version == args.release_version
    &&& r.checks.not_on_main <==> !plan.detached_head && plan.branch != "main"@
    &&& r.checks.non_empty_history <==> plan.commits.len() > 0
    &&& r.checks.clean_tree <==> !plan.dirty
    &&& r.checks.base_reconciled <==> plan.merge_base == tip
    &&& r.checks.commit_limit <==> plan.commits.len() <= allowed(args.max_commits)
    &&& r.checks.conventional_commits <==> forall|i: int|
        0 <= i < plan.commits.len() ==> (#[trigger] plan.commits[i]).conventional
    &&& r.checks.release_commit_last <==> (args.require_release_commit ==> release_last(
        args,
        plan.commits,
    ))
    &&& r.ready <==> {
        &&& r.checks.not_on_main
        &&& r.checks.non_empty_history
        &&& !args.require_clean_tree || r.checks.clean_tree
        &&& r.checks.base_reconciled
        &&& r.checks.commit_limit
        &&& !args.require_conventional_commits || r.checks.conventional_commits
        &&& r.checks.release_commit_last
    }
}

#[verifier::rlimit(40)]
proof fn lemma_checks_told(plan: HistoryPlanView, tip: Text, args: ReadinessArgsView)
    requires
        plan.commit_count == plan.commits.len(),
        plan.base == args.base,
    ensures
        checks_told(assessed(plan, tip, args), plan, tip, args),
{
}

/// An assessment says what was asked for and told: the history of the branch,
/// and the commit at which the base is. Each check says of that history what it
/// names, the branch is ready exactly where every check that is asked for holds,
/// and what is reported is one violation for each rule that is broken.
#[verifier::rlimit(40)]
pub proof fn law_assessment_reports(args: ReadinessArgsView, t: Seq<Reply>, n: int) -> (plan:
    HistoryPlanView)
    requires
        0 <= n <= t.len(),
        merge_readiness_flow(args, t, n) is Got,
    ensures
        ({
            let op = assessing(args, n);
            let r = merge_readiness_flow(args, t, n)->Got_0;
            let m = lookup_at(lookups_at(n, plan), plan.upstream, plan.commits.len() as int);
            let tip = said(t, m + 1);
            &&& plan_told(op, t, n, args.repo, args.base, plan)
            &&& performed(op, t, m + 1, args.repo, Command::ResolveCommit { revision: args.base })
            &&& args.release_version matches Some(version) ==> semver_verdict(version) is Ok
            &&& checks_told(r, plan, tip, args)
            &&& violations_told(r.violations, plan, tip, args)
        }),
{
    lemma_assessment_parts(args, t, n);
    lemma_assessment_plan(args, t, n);
    lemma_assessment_tip(args, t, n);
    let plan = history_plan_flow(args.repo, args.base, t, n)->Got_0;
    let m = lookup_at(lookups_at(n, plan), plan.upstream, plan.commits.len() as int);
    let tip = said(t, m + 1);
    lemma_violations_told(plan, tip, args);
    lemma_checks_told(plan, tip, args);
    assert(reported(plan, tip, args) == assessed(plan, tip, args).violations) by {
        reveal(reported);
    }
    plan
}

} // verus!
