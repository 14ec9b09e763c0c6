//! Commits selected out of a branch's history.
use crate::flow::{fail, flow, Flow, FlowView, Reply};
use crate::history::{HistoryCommit, HistoryCommitView};
use crate::queries::{resolve_commit_flow, resolve_commit_sha};
use crate::server::{quote, quoted};
use crate::text::{concat3, same_text, text_listed, Text};
use vstd::prelude::*;

verus! {

/// The names of commits.
pub open spec fn shas_of(commits: Seq<HistoryCommitView>) -> Seq<Text> {
    commits.map_values(|commit: HistoryCommitView| commit.sha)
}

/// The names of commits.
pub fn commit_shas(commits: &Vec<HistoryCommit>) -> (r: Vec<String>)
    ensures
        r.deep_view() == shas_of(commits.deep_view()),
{
    let ghost all = commits.deep_view();
    let mut found: Vec<String> = Vec::new();
    let mut i: usize = 0;
    while i < commits.len()
        invariant
            all == commits.deep_view(),
            all.len() == commits@.len(),
            i <= commits@.len(),
            found.deep_view() == shas_of(all).take(i as int),
        decreases commits@.len() - i,
    {
        let ghost before = found.deep_view();
        assert(all[i as int] == commits@[i as int].deep_view());
        found.push(commits[i].sha.clone());
        assert(found.deep_view() =~= before.push(all[i as int].sha));
        assert(shas_of(all).take(i + 1) =~= before.push(all[i as int].sha));
        i += 1;
    }
    assert(shas_of(all).take(all.len() as int) =~= shas_of(all));
    found
}

/// The last position at which `x` stands in a list.
pub open spec fn last_position(list: Seq<Text>, x: Text) -> Option<int>
    decreases list.len(),
{
    if list.len() == 0 {
        None
    } else if list.last() == x {
        Some(list.len() - 1)
    } else {
        last_position(list.drop_last(), x)
    }
}

/// The last position is one at which `x` stands, and there is one exactly
/// where `x` stands in the list.
pub proof fn lemma_last_position(list: Seq<Text>, x: Text)
    ensures
        match last_position(list, x) {
            Some(i) => 0 <= i < list.len() && list[i] == x,
            None => !list.contains(x),
        },
    decreases list.len(),
{
    if list.len() > 0 && list.last() != x {
        lemma_last_position(list.drop_last(), x);
        if last_position(list, x) is None {
            assert forall|k: int| 0 <= k < list.len() implies list[k] != x by {
                if k < list.len() - 1 {
                    assert(list.drop_last()[k] == list[k]);
                }
            }
        }
    }
}

/// The last position at which `x` stands in a list.
pub fn find_last(list: &Vec<String>, x: &str) -> (r: Option<usize>)
    ensures
        match last_position(list.deep_view(), x@) {
            Some(i) => r matches Some(k) && k == i,
            None => r is None,
        },
{
    let ghost all = list.deep_view();
    let mut i: usize = list.len();
    assert(all.take(all.len() as int) =~= all);
    while i > 0
        invariant
            all == list.deep_view(),
            all.len() == list@.len(),
            i <= list@.len(),
            last_position(all, x@) == last_position(all.take(i as int), x@),
        decreases i,
    {
        assert(all.take(i as int).last() == list@[i - 1]@);
        assert(all.take(i as int).drop_last() =~= all.take(i - 1));
        if same_text(list[i - 1].as_str(), x) {
            return Some(i - 1);
        }
        i -= 1;
    }
    None
}

/// What is reported of a commit that is not in the branch's history.
pub open spec fn outside_history(sha: Text, base: Text) -> Text {
    "commit "@ + sha + " is outside branch-local history relative to "@ + quoted(base)
}

/// The positions in `shas` of the selected commits from `i` on, after those
/// in `found`.
pub open spec fn positions_from(
    shas: Seq<Text>,
    selected: Seq<Text>,
    base: Text,
    i: int,
    found: Seq<int>,
) -> Result<Seq<int>, Text>
    decreases selected.len() - i,
{
    if i < 0 || i >= selected.len() {
        Ok(found)
    } else {
        match last_position(shas, selected[i]) {
            Some(at) => positions_from(shas, selected, base, i + 1, found.push(at)),
            None => Err(outside_history(selected[i], base)),
        }
    }
}

/// The positions of the selected commits in a branch's history.
pub open spec fn positions(
    commits: Seq<HistoryCommitView>,
    selected: Seq<Text>,
    base: Text,
) -> Result<Seq<int>, Text> {
    positions_from(shas_of(commits), selected, base, 0, Seq::empty())
}

/// Numbers as contracts speak of them.
pub open spec fn as_ints(list: Seq<usize>) -> Seq<int> {
    list.map_values(|i: usize| i as int)
}

proof fn lemma_positions(
    shas: Seq<Text>,
    selected: Seq<Text>,
    base: Text,
    i: int,
    found: Seq<int>,
)
    requires
        0 <= i <= selected.len(),
        found.len() == i,
        forall|k: int|
            0 <= k < i ==> 0 <= #[trigger] found[k] < shas.len() && shas[found[k]] == selected[k],
    ensures
        positions_from(shas, selected, base, i, found) matches Ok(all) ==> all.len()
            == selected.len() && forall|k: int|
            0 <= k < selected.len() ==> 0 <= #[trigger] all[k] < shas.len() && shas[all[k]]
                == selected[k],
    decreases selected.len() - i,
{
    if i < selected.len() {
        lemma_last_position(shas, selected[i]);
        if let Some(at) = last_position(shas, selected[i]) {
            lemma_positions(shas, selected, base, i + 1, found.push(at));
        }
    }
}

/// Each selected commit stands at its position.
pub proof fn law_positions(commits: Seq<HistoryCommitView>, selected: Seq<Text>, base: Text)
    ensures
        positions(commits, selected, base) matches Ok(all) ==> all.len() == selected.len()
            && forall|k: int|
            0 <= k < selected.len() ==> 0 <= #[trigger] all[k] < commits.len()
                && commits[all[k]].sha == selected[k],
{
    lemma_positions(shas_of(commits), selected, base, 0, Seq::empty());
}

/// The positions of the selected commits in a branch's history.
pub fn find_positions(commits: &Vec<HistoryCommit>, selected: &Vec<String>, base: &str) -> (r:
    Result<Vec<usize>, String>)
    ensures
        match r {
            Ok(found) => positions(commits.deep_view(), selected.deep_view(), base@) == Ok::<
                Seq<int>,
                Text,
            >(as_ints(found@)),
            Err(error) => positions(commits.deep_view(), selected.deep_view(), base@) == Err::<
                Seq<int>,
                Text,
            >(error@),
        },
{
    let shas: Vec<String> = commit_shas(commits);
    let ghost names = shas.deep_view();
    let ghost wanted = selected.deep_view();
    let mut found: Vec<usize> = Vec::new();
    let mut i: usize = 0;
    assert(as_ints(found@) =~= Seq::<int>::empty());
    while i < selected.len()
        invariant
            names == shas.deep_view(),
            names == shas_of(commits.deep_view()),
            wanted == selected.deep_view(),
            wanted.len() == selected@.len(),
            i <= selected@.len(),
            positions(commits.deep_view(), wanted, base@) == positions_from(
                names,
                wanted,
                base@,
                i as int,
                as_ints(found@),
            ),
        decreases selected@.len() - i,
    {
        let ghost before = as_ints(found@);
        assert(wanted[i as int] == selected@[i as int]@);
        match find_last(&shas, selected[i].as_str()) {
            Some(at) => {
                found.push(at);
                assert(as_ints(found@) =~= before.push(at as int));
            },
            None => {
                let name: String = quote(base);
                let mut error: String = concat3(
                    "commit ",
                    selected[i].as_str(),
                    " is outside branch-local history relative to ",
                );
                error.append(name.as_str());
                return Err(error);
            },
        }
        i += 1;
    }
    Ok(found)
}

/// The names of the commits that the revisions from `i` on name, after those
/// in `found`; a commit may be named once only.
pub open spec fn resolve_distinct_flow(
    repo: Text,
    revisions: Seq<Text>,
    i: int,
    found: Seq<Text>,
    error: Text,
    t: Seq<Reply>,
    n: int,
) -> FlowView<Seq<Text>>
    decreases revisions.len() - i,
{
    if i < 0 || i >= revisions.len() {
        FlowView::Got(found, n)
    } else {
        resolve_commit_flow(repo, revisions[i], t, n).and_then(
            |sha: Text, n: int|
                if found.contains(sha) {
                    FlowView::Fail(error, n)
                } else {
                    resolve_distinct_flow(repo, revisions, i + 1, found.push(sha), error, t, n)
                },
        )
    }
}

/// The names of the commits that revisions name; a commit may be named once
/// only.
pub fn resolve_distinct(
    repo: &str,
    revisions: &Vec<String>,
    error: &str,
    t: &Vec<Reply>,
    n: usize,
) -> (r: Flow<Vec<String>>)
    ensures
        flow(r) == resolve_distinct_flow(
            repo@,
            revisions.deep_view(),
            0,
            Seq::empty(),
            error@,
            t@,
            n as int,
        ),
{
    let ghost all = revisions.deep_view();
    let mut found: Vec<String> = Vec::new();
    let mut at: usize = n;
    let mut i: usize = 0;
    assert(found.deep_view() =~= Seq::<Text>::empty());
    while i < revisions.len()
        invariant
            all == revisions.deep_view(),
            all.len() == revisions@.len(),
            i <= revisions@.len(),
            resolve_distinct_flow(repo@, all, 0, Seq::empty(), error@, t@, n as int)
                == resolve_distinct_flow(
                repo@,
                all,
                i as int,
                found.deep_view(),
                error@,
                t@,
                at as int,
            ),
        decreases revisions@.len() - i,
    {
        assert(all[i as int] == revisions@[i as int]@);
        let ghost before = found.deep_view();
        let (sha, m) = resolve_commit_sha(repo, revisions[i].as_str(), t, at)?;
        if text_listed(&found, sha.as_str()) {
            return fail(error, m);
        }
        let ghost name = sha@;
        found.push(sha);
        assert(found.deep_view() =~= before.push(name));
        at = m;
        i += 1;
    }
    Ok((found, at))
}

} // verus!
