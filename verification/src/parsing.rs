//! What is read from the output of Git, stated by what the output is made of.
use crate::history::{logged_commit, logged_from, logged_history, HistoryCommitView};
use crate::policy::is_conventional_subject;
use crate::queries::listing;
use crate::snapshot::{described_commit, SnapshotView};
use crate::splitting::{
    law_limited_split_keeps_rest, law_lines, law_split_undoes_join, law_words_undo_join,
};
use crate::text::{
    is_blank, is_white_space, join, lines, trim_end_char, without_carriage_return, Text,
};
use vstd::prelude::*;

verus! {

/// A list of names that are not empty and hold no white space.
pub open spec fn plain_names(names: Seq<Text>) -> bool {
    forall|i: int|
        0 <= i < names.len() ==> (#[trigger] names[i]).len() > 0 && forall|k: int|
            0 <= k < names[i].len() ==> !is_white_space(#[trigger] names[i][k])
}

/// The names, with spaces between them.
pub open spec fn spaced(names: Seq<Text>) -> Text {
    join(names, seq![' '])
}

/// The fields, with the unit separator between them.
pub open spec fn fielded(fields: Seq<Text>) -> Text {
    join(fields, seq!['\u{1f}'])
}

// ---------------------------------------------------------------------------
// Commits
// ---------------------------------------------------------------------------
/// What is read of a commit is what its description is made of: the tree, every
/// parent, the author, the committer, and the whole message, which may hold
/// anything, without the line feeds at its end.
pub proof fn law_commit_is_read_as_described(of: SnapshotView, feeds: Text)
    requires
        plain_names(of.parents),
        !of.tree.contains('\u{1f}'),
        !spaced(of.parents).contains('\u{1f}'),
        !of.author_name.contains('\u{1f}'),
        !of.author_email.contains('\u{1f}'),
        !of.author_date.contains('\u{1f}'),
        !of.committer_name.contains('\u{1f}'),
        !of.committer_email.contains('\u{1f}'),
        !of.committer_date.contains('\u{1f}'),
        of.message.len() > 0 ==> of.message.last() != '\n',
        forall|i: int| 0 <= i < feeds.len() ==> #[trigger] feeds[i] == '\n',
    ensures
        described_commit(
            of.sha,
            fielded(
                seq![
                    of.tree,
                    spaced(of.parents),
                    of.author_name,
                    of.author_email,
                    of.author_date,
                    of.committer_name,
                    of.committer_email,
                    of.committer_date,
                ],
            ) + seq!['\u{1f}'] + (of.message + feeds),
        ) == Ok::<SnapshotView, Text>(of),
{
    let parts = seq![
        of.tree,
        spaced(of.parents),
        of.author_name,
        of.author_email,
        of.author_date,
        of.committer_name,
        of.committer_email,
        of.committer_date,
    ];
    let rest = of.message + feeds;
    law_limited_split_keeps_rest(parts, rest, '\u{1f}');
    law_words_undo_join(of.parents);
    lemma_feeds(of.message, feeds);
    let fields = parts.push(rest);
    assert(fields.len() == 9);
    assert(fields[0] == of.tree);
    assert(fields[1] == spaced(of.parents));
    assert(fields[2] == of.author_name);
    assert(fields[3] == of.author_email);
    assert(fields[4] == of.author_date);
    assert(fields[5] == of.committer_name);
    assert(fields[6] == of.committer_email);
    assert(fields[7] == of.committer_date);
    assert(fields[8] == rest);
}

/// The line feeds at the end of a message are taken away, and nothing else.
proof fn lemma_feeds(message: Text, feeds: Text)
    requires
        message.len() > 0 ==> message.last() != '\n',
        forall|i: int| 0 <= i < feeds.len() ==> #[trigger] feeds[i] == '\n',
    ensures
        trim_end_char(message + feeds, '\n') == message,
    decreases feeds.len(),
{
    let s = message + feeds;
    if feeds.len() == 0 {
        assert(s =~= message);
    } else {
        assert(s.last() == feeds.last());
        assert(s.drop_last() =~= message + feeds.drop_last());
        assert forall|i: int| 0 <= i < feeds.drop_last().len() implies #[trigger] feeds.drop_last()[i]
            == '\n' by {
            assert(feeds.drop_last()[i] == feeds[i]);
        }
        lemma_feeds(message, feeds.drop_last());
    }
}

// ---------------------------------------------------------------------------
// Histories
// ---------------------------------------------------------------------------
/// A commit of a log, as Git prints it.
pub struct LoggedCommit {
    pub sha: Text,
    pub parents: Seq<Text>,
    pub author_name: Text,
    pub author_email: Text,
    pub date: Text,
    pub subject: Text,
}

/// The commit can stand on a line of a log.
pub open spec fn can_be_logged(of: LoggedCommit) -> bool {
    let line = logged_line(of);
    &&& plain_names(of.parents)
    &&& !of.sha.contains('\u{1f}')
    &&& !spaced(of.parents).contains('\u{1f}')
    &&& !of.author_name.contains('\u{1f}')
    &&& !of.author_email.contains('\u{1f}')
    &&& !of.date.contains('\u{1f}')
    &&& !of.subject.contains('\u{1f}')
    &&& !line.contains('\n')
    &&& line.last() != '\r'
}

/// The line on which a commit stands.
pub open spec fn logged_line(of: LoggedCommit) -> Text {
    fielded(
        seq![
            of.sha,
            spaced(of.parents),
            of.author_name,
            of.author_email,
            of.date,
            of.subject,
        ],
    )
}

/// What is said of a commit of the log.
pub open spec fn commit_of(of: LoggedCommit) -> HistoryCommitView {
    HistoryCommitView {
        sha: of.sha,
        subject: of.subject,
        parents: of.parents.len(),
        author: of.author_name + " <"@ + of.author_email + ">"@,
        timestamp: of.date,
        conventional: is_conventional_subject(of.subject),
    }
}

/// The log of commits, each on a line of its own.
pub open spec fn printed_log(commits: Seq<LoggedCommit>) -> Text
    decreases commits.len(),
{
    if commits.len() == 0 {
        Seq::empty()
    } else {
        logged_line(commits[0]) + seq!['\n'] + printed_log(commits.drop_first())
    }
}

proof fn lemma_logged_line(of: LoggedCommit)
    requires
        can_be_logged(of),
    ensures
        logged_commit(logged_line(of)) == Some(commit_of(of)),
        without_carriage_return(logged_line(of)) == logged_line(of),
{
    let fields = seq![
        of.sha,
        spaced(of.parents),
        of.author_name,
        of.author_email,
        of.date,
        of.subject,
    ];
    law_split_undoes_join(fields, '\u{1f}');
    law_words_undo_join(of.parents);
    assert(fields[0] == of.sha);
    assert(fields[1] == spaced(of.parents));
    assert(fields[2] == of.author_name);
    assert(fields[3] == of.author_email);
    assert(fields[4] == of.date);
    assert(fields[5] == of.subject);
}

proof fn lemma_printed_lines(commits: Seq<LoggedCommit>)
    requires
        forall|i: int| 0 <= i < commits.len() ==> can_be_logged(#[trigger] commits[i]),
    ensures
        lines(printed_log(commits)) == commits.map_values(|of: LoggedCommit| logged_line(of)),
    decreases commits.len(),
{
    let line = |of: LoggedCommit| logged_line(of);
    if commits.len() == 0 {
        law_lines(Seq::empty(), Seq::empty());
        assert(commits.map_values(line) =~= Seq::empty());
    } else {
        let rest = commits.drop_first();
        assert forall|i: int| 0 <= i < rest.len() implies can_be_logged(#[trigger] rest[i]) by {
            assert(rest[i] == commits[i + 1]);
        }
        lemma_printed_lines(rest);
        lemma_logged_line(commits[0]);
        law_lines(logged_line(commits[0]), printed_log(rest));
        assert(commits.map_values(line) =~= seq![logged_line(commits[0])] + rest.map_values(line));
    }
}

proof fn lemma_logged_from(commits: Seq<LoggedCommit>, i: int, found: Seq<HistoryCommitView>)
    requires
        0 <= i <= commits.len(),
        forall|j: int| 0 <= j < commits.len() ==> can_be_logged(#[trigger] commits[j]),
        found == commits.take(i).map_values(|of: LoggedCommit| commit_of(of)),
    ensures
        ({
            let all = commits.map_values(|of: LoggedCommit| logged_line(of));
            if commits.len() <= 512 {
                logged_from(all, i, found) == Ok::<Seq<HistoryCommitView>, Text>(
                    commits.map_values(|of: LoggedCommit| commit_of(of)),
                )
            } else {
                i <= 512 ==> logged_from(all, i, found) is Err
            }
        }),
    decreases commits.len() - i,
{
    let read = |of: LoggedCommit| commit_of(of);
    if i < commits.len() {
        lemma_logged_line(commits[i]);
        let more = found.push(commit_of(commits[i]));
        assert(more =~= commits.take(i + 1).map_values(read));
        if i < 512 {
            lemma_logged_from(commits, i + 1, more);
        }
    } else {
        assert(commits.take(i) =~= commits);
    }
}

/// A log is read as what it is made of: every commit, in order, with its name,
/// the number of its parents, its author, its date and its subject, marked as
/// conventional exactly where the subject is; unless it holds more than 512.
pub proof fn law_history_is_read_as_printed(commits: Seq<LoggedCommit>)
    requires
        forall|i: int| 0 <= i < commits.len() ==> can_be_logged(#[trigger] commits[i]),
    ensures
        commits.len() <= 512 ==> logged_history(printed_log(commits)) == Ok::<
            Seq<HistoryCommitView>,
            Text,
        >(commits.map_values(|of: LoggedCommit| commit_of(of))),
        commits.len() > 512 ==> logged_history(printed_log(commits)) is Err,
{
    lemma_printed_lines(commits);
    let none = Seq::<HistoryCommitView>::empty();
    assert(none =~= commits.take(0).map_values(|of: LoggedCommit| commit_of(of)));
    lemma_logged_from(commits, 0, none);
}

// ---------------------------------------------------------------------------
// Listings
// ---------------------------------------------------------------------------
/// Texts, each on a line of its own.
pub open spec fn printed_lines(all: Seq<Text>) -> Text
    decreases all.len(),
{
    if all.len() == 0 {
        Seq::empty()
    } else {
        all[0] + seq!['\n'] + printed_lines(all.drop_first())
    }
}

/// A listing is read as the lines that it is made of, in order, without the
/// blank ones.
pub proof fn law_listing_is_read_as_printed(all: Seq<Text>)
    requires
        forall|i: int|
            0 <= i < all.len() ==> {
                &&& !(#[trigger] all[i]).contains('\n')
                &&& all[i].len() > 0 ==> all[i].last() != '\r'
            },
    ensures
        listing(printed_lines(all)) == all.filter(|line: Text| !is_blank(line)),
{
    lemma_listed_lines(all);
}

proof fn lemma_listed_lines(all: Seq<Text>)
    requires
        forall|i: int|
            0 <= i < all.len() ==> {
                &&& !(#[trigger] all[i]).contains('\n')
                &&& all[i].len() > 0 ==> all[i].last() != '\r'
            },
    ensures
        lines(printed_lines(all)) == all,
    decreases all.len(),
{
    if all.len() == 0 {
        law_lines(Seq::empty(), Seq::empty());
        assert(all =~= Seq::empty());
    } else {
        let rest = all.drop_first();
        assert forall|i: int| 0 <= i < rest.len() implies {
            &&& !(#[trigger] rest[i]).contains('\n')
            &&& rest[i].len() > 0 ==> rest[i].last() != '\r'
        } by {
            assert(rest[i] == all[i + 1]);
        }
        lemma_listed_lines(rest);
        law_lines(all[0], printed_lines(rest));
        assert(all =~= seq![all[0]] + rest);
    }
}

} // verus!
