//! What is said where an operation is refused, held against what was told.
use crate::amend::head_unpublished_flow;
use crate::completing::lookup_answered;
use crate::dialogue::{output_at, said};
use crate::failing::succeeded;
use crate::flow::{FlowView, Reply};
use crate::history::HistoryCommitView;
use crate::policy::is_token;
use crate::queries::listing;
use crate::rewrite::unpublished_suffix_flow;
use crate::selection::{last_position, lemma_last_position, positions, positions_from, shas_of};
use crate::text::{join, Text};
use vstd::prelude::*;

verus! {

/// A commit that is published stops a rewrite, whatever comes after it, and the
/// error names that commit and every reference of a remote that contains it, or
/// the upstream. A commit that is not published does not.
pub proof fn law_published_commit_blocks(
    repo: Text,
    commits: Seq<HistoryCommitView>,
    upstream: Option<Text>,
    i: int,
    t: Seq<Reply>,
    n: int,
)
    requires
        0 <= i < commits.len(),
        0 <= n,
        lookup_answered(t, n, commits[i].sha, upstream),
    ensures
        ({
            let refs = listing(output_at(t, n + 2).stdout);
            let flow = unpublished_suffix_flow(repo, commits, upstream, i, t, n);
            let blocked = "rewrite blocked: commit "@ + commits[i].sha;
            if refs.len() > 0 {
                flow == FlowView::<()>::Fail(
                    blocked + " is already reachable from remote-tracking ref(s): "@ + join(
                        refs,
                        ", "@,
                    ),
                    n + 3,
                )
            } else {
                match upstream {
                    Some(reference) => if output_at(t, n + 3).exit_code == Some(0i32) {
                        flow == FlowView::<()>::Fail(
                            blocked + " is already reachable from upstream "@ + ("`"@ + reference
                                + "`"@),
                            n + 4,
                        )
                    } else {
                        flow == unpublished_suffix_flow(repo, commits, upstream, i + 1, t, n + 4)
                    },
                    None => flow == unpublished_suffix_flow(
                        repo,
                        commits,
                        upstream,
                        i + 1,
                        t,
                        n + 3,
                    ),
                }
            }
        }),
{
}

/// An amendment of a commit that is published is refused, and the error names
/// every reference of a remote that contains it, or the upstream.
pub proof fn law_published_head_blocks(repo: Text, head: Text, t: Seq<Reply>, n: int)
    requires
        0 <= n,
        is_token(head),
        succeeded(t, n),
        succeeded(t, n + 1),
        succeeded(t, n + 2),
        !output_at(t, n + 2).truncated,
    ensures
        ({
            let refs = listing(output_at(t, n + 2).stdout);
            let flow = head_unpublished_flow(repo, head, t, n);
            &&& refs.len() > 0 ==> flow == FlowView::<()>::Fail(
                "amend blocked: HEAD is already reachable from remote-tracking ref(s): "@ + join(
                    refs,
                    ", "@,
                ),
                n + 3,
            )
            &&& refs.len() == 0 && succeeded(t, n + 3) && succeeded(t, n + 4) ==> flow
                == FlowView::<()>::Fail(
                "amend blocked: HEAD is already reachable from upstream "@ + ("`"@ + said(t, n + 3)
                    + "`"@),
                n + 5,
            )
        }),
{
}

/// Where some commit is not in the history, the error names the first such, in
/// the order of the request, and the base.
pub proof fn law_first_commit_outside_is_named(
    commits: Seq<HistoryCommitView>,
    selected: Seq<Text>,
    base: Text,
    k: int,
)
    requires
        0 <= k < selected.len(),
        forall|j: int| 0 <= j < commits.len() ==> (#[trigger] commits[j]).sha != selected[k],
        forall|i: int|
            0 <= i < k ==> exists|j: int|
                0 <= j < commits.len() && (#[trigger] commits[j]).sha == #[trigger] selected[i],
    ensures
        positions(commits, selected, base) == Err::<Seq<int>, Text>(
            "commit "@ + selected[k] + " is outside branch-local history relative to "@ + ("`"@
                + base + "`"@),
        ),
{
    lemma_first_outside(commits, selected, base, k, 0, Seq::empty());
}

proof fn lemma_first_outside(
    commits: Seq<HistoryCommitView>,
    selected: Seq<Text>,
    base: Text,
    k: int,
    i: int,
    found: Seq<int>,
)
    requires
        0 <= i <= k < selected.len(),
        forall|j: int| 0 <= j < commits.len() ==> (#[trigger] commits[j]).sha != selected[k],
        forall|i: int|
            0 <= i < k ==> exists|j: int|
                0 <= j < commits.len() && (#[trigger] commits[j]).sha == #[trigger] selected[i],
    ensures
        positions_from(shas_of(commits), selected, base, i, found) == Err::<Seq<int>, Text>(
            "commit "@ + selected[k] + " is outside branch-local history relative to "@ + ("`"@
                + base + "`"@),
        ),
    decreases k - i,
{
    let shas = shas_of(commits);
    lemma_last_position(shas, selected[i]);
    if i < k {
        let j = choose|j: int|
            0 <= j < commits.len() && (#[trigger] commits[j]).sha == selected[i];
        assert(shas[j] == selected[i]);
        assert(shas.contains(selected[i]));
        let at = last_position(shas, selected[i])->0;
        lemma_first_outside(commits, selected, base, k, i + 1, found.push(at));
    } else {
        if last_position(shas, selected[i]) is Some {
            let at = last_position(shas, selected[i])->0;
            assert(commits[at].sha == shas[at]);
        }
    }
}

} // verus!
