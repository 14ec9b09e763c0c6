//! What a scan learns of a directory, held against what was asked of the machine
//! and told.
use crate::executing::{repository_told, requested};
use crate::extent::agree;
use crate::flow::{DirectoryEntry, FlowView, Reply, RequestView};
use crate::output::utf8_lossy;
use crate::paths::{joined_path, separator_byte, PathStyle};
use crate::releasing::lemma_repo_reads;
use crate::server::{resolve_repo_flow, GitServer};
use crate::text::Text;
use crate::workspace::{tasks_from, visit_flow, TaskView, VisitView};
use vstd::prelude::*;

verus! {

/// Looking into a directory, as an operation.
pub open spec fn visiting(server: GitServer, directory: Seq<u8>) -> spec_fn(
    Seq<Reply>,
) -> FlowView<VisitView> {
    |t: Seq<Reply>| visit_flow(server, directory, t, 0)
}

/// The place of a directory of the workspace.
pub open spec fn place_of(server: GitServer, directory: Seq<u8>) -> Seq<u8> {
    if directory.len() == 0 {
        server.workspace_root@
    } else {
        joined_path(server.workspace_root@, directory, server.path_style)
    }
}

/// The name under which a directory of the workspace is reported.
pub open spec fn name_of(directory: Seq<u8>) -> Text {
    if directory.len() == 0 {
        "."@
    } else {
        utf8_lossy(directory)
    }
}

/// The entry is a directory, not a link, and not the one in which a repository
/// keeps its data, named `.git`; or it could not be read.
pub open spec fn is_looked_into(entry: DirectoryEntry) -> bool {
    match entry {
        DirectoryEntry::Found { name, is_symlink, is_dir } => {
            &&& is_dir
            &&& !is_symlink
            &&& name@ != seq![46u8, 103u8, 105u8, 116u8]
        },
        _ => true,
    }
}

/// What is done about an entry: a directory is looked into in its turn, and what
/// could not be read is reported.
pub open spec fn task_for(directory: Seq<u8>, entry: DirectoryEntry, style: PathStyle) -> TaskView {
    match entry {
        DirectoryEntry::Found { name, .. } => TaskView::Visit(
            if directory.len() == 0 {
                name@
            } else {
                directory.push(separator_byte(style)) + name@
            },
        ),
        DirectoryEntry::Unreadable(error) => TaskView::Report(
            "cannot read workspace entry: "@ + error@,
        ),
        DirectoryEntry::Uninspectable(error) => TaskView::Report(
            "cannot inspect workspace entry: "@ + error@,
        ),
    }
}

#[verifier::rlimit(40)]
proof fn lemma_tasks(
    directory: Seq<u8>,
    entries: Seq<DirectoryEntry>,
    i: int,
    style: PathStyle,
)
    requires
        0 <= i <= entries.len(),
    ensures
        tasks_from(directory, entries, i, style) == entries.skip(i).filter(
            |entry: DirectoryEntry| is_looked_into(entry),
        ).map_values(|entry: DirectoryEntry| task_for(directory, entry, style)),
    decreases entries.len() - i,
{
    let wanted = |entry: DirectoryEntry| is_looked_into(entry);
    let made = |entry: DirectoryEntry| task_for(directory, entry, style);
    if i < entries.len() {
        let first = seq![entries[i]];
        let rest = entries.skip(i + 1);
        lemma_tasks(directory, entries, i + 1, style);
        assert(entries.skip(i) =~= first + rest);
        Seq::filter_distributes_over_add(first, rest, wanted);
        assert(first.filter(wanted) =~= if wanted(entries[i]) {
            first
        } else {
            Seq::empty()
        }) by {
            reveal_with_fuel(Seq::filter, 2);
            assert(first.drop_last() =~= Seq::empty());
        }
        assert((first.filter(wanted) + rest.filter(wanted)).map_values(made) =~= first.filter(
            wanted,
        ).map_values(made) + rest.filter(wanted).map_values(made));
        if wanted(entries[i]) {
            assert(first.filter(wanted).map_values(made) =~= seq![made(entries[i])]);
        } else {
            assert(first.filter(wanted).map_values(made) =~= Seq::<TaskView>::empty());
        }
        assert(tasks_from(directory, entries, i, style) =~= (first.filter(wanted) + rest.filter(
            wanted,
        )).map_values(made));
    } else {
        assert(entries.skip(i) =~= Seq::empty());
        reveal(Seq::filter);
        assert(entries.skip(i).filter(wanted).map_values(made) =~= Seq::<TaskView>::empty());
    }
}

/// What a scan learns of a directory is what was asked of the machine and told.
/// It was asked whether the directory holds `.git`. A repository is reported only
/// where it does, and where the directory was seen to be the root of a repository
/// of the workspace, under the name that selects it. Otherwise the directory was
/// listed, and every directory in the listing that is no link and not `.git` is
/// looked into in its turn, in the order of the listing; nothing else is, but
/// what could not be read is reported.
#[verifier::rlimit(40)]
pub proof fn law_visit_reports(server: GitServer, directory: Seq<u8>, t: Seq<Reply>) -> (found: (
    Seq<u8>,
    int,
))
    requires
        visit_flow(server, directory, t, 0) is Got,
    ensures
        ({
            let op = visiting(server, directory);
            let place = place_of(server, directory);
            let style = server.path_style;
            let (root, p) = found;
            &&& requested(
                op,
                t,
                0,
                RequestView::Probe {
                    path: joined_path(place, seq![46u8, 103u8, 105u8, 116u8], style),
                },
            )
            &&& t[0] matches Reply::Exists(present)
            &&& match visit_flow(server, directory, t, 0)->Got_0 {
                VisitView::Repository(name) => {
                    &&& present
                    &&& name == name_of(directory)
                    &&& repository_told(op, t, 1, server, name, root)
                },
                VisitView::Directory(tasks) => {
                    &&& requested(op, t, p, RequestView::List { path: place })
                    &&& !present ==> p == 1
                    &&& t[p] matches Reply::Entries(Ok(entries))
                    &&& tasks == entries@.filter(
                        |entry: DirectoryEntry| is_looked_into(entry),
                    ).map_values(|entry: DirectoryEntry| task_for(directory, entry, style))
                },
            }
        }),
{
    let op = visiting(server, directory);
    let name = name_of(directory);
    let resolved = resolve_repo_flow(server, name, t, 1);
    assert(op(t.take(0)) == visit_flow(server, directory, t.take(0), 0));
    let present = t[0]->Exists_0;
    let p = if present {
        match resolved {
            FlowView::Fail(_, m) => m,
            _ => 1,
        }
    } else {
        1
    };
    assert(seq!["-c"@, "core.hooksPath=/dev/null"@] + seq!["rev-parse"@, "--show-toplevel"@]
        =~= seq!["-c"@, "core.hooksPath=/dev/null"@, "rev-parse"@, "--show-toplevel"@]);
    match visit_flow(server, directory, t, 0)->Got_0 {
        VisitView::Repository(_) => {
            assert(op(t.take(1)) == visit_flow(server, directory, t.take(1), 0));
            assert(op(t.take(2)) == visit_flow(server, directory, t.take(2), 0));
            assert(op(t.take(3)) == visit_flow(server, directory, t.take(3), 0));
        },
        VisitView::Directory(_) => {
            let s = t.take(p);
            if present {
                assert(agree(t, s, p));
                lemma_repo_reads(server, name, t, s, 1);
            }
            assert(op(s) == visit_flow(server, directory, s, 0));
            let entries = t[p]->Entries_0->Ok_0;
            lemma_tasks(directory, entries@, 0, server.path_style);
            assert(entries@.skip(0) =~= entries@);
        },
    }
    (resolved->Got_0, p)
}

} // verus!
