//! Finding the repositories of a workspace.
//!
//! A scan goes through the directories of the workspace, depth first and in
//! the order in which they are listed. It does not follow symbolic links, and
//! does not look below the root of a repository.
use crate::flow::{
    fail, flow, mismatch, DirectoryEntry, Flow, FlowView, GitRequest, Halt, Reply, RequestView,
};
use crate::output::{decode_lossy, utf8_lossy};
use crate::paths::{
    byte_of_separator, is_within, join_bytes, joined_path, same_bytes, separator_byte, PathStyle,
};
use crate::server::{law_repository_within_workspace, resolve_repo_flow, GitServer};
use crate::text::{
    ascending, clone_texts, concat, insert_sorted, insert_text, law_insert_sorted, Text,
};
use vstd::prelude::*;

verus! {

// ---------------------------------------------------------------------------
// Directories
// ---------------------------------------------------------------------------
/// The path of a directory that is named relative to the workspace; the
/// workspace itself has the empty name.
pub open spec fn directory_path(root: Seq<u8>, directory: Seq<u8>, style: PathStyle) -> Seq<u8> {
    if directory.len() == 0 {
        root
    } else {
        joined_path(root, directory, style)
    }
}

fn path_of_directory(root: &Vec<u8>, directory: &Vec<u8>, style: PathStyle) -> (r: Vec<u8>)
    ensures
        r@ == directory_path(root@, directory@, style),
{
    if directory.len() == 0 {
        let r: Vec<u8> = root.clone();
        assert(r@ =~= root@);
        r
    } else {
        join_bytes(root, directory.as_slice(), style)
    }
}

/// The name of the directory in which a repository keeps its data.
pub open spec fn git_directory() -> Seq<u8> {
    seq![46u8, 103u8, 105u8, 116u8]
}

fn name_git_directory() -> (r: Vec<u8>)
    ensures
        r@ == git_directory(),
{
    let r: Vec<u8> = vec![46u8, 103u8, 105u8, 116u8];
    assert(r@ =~= git_directory());
    r
}

/// The directory `name` in `directory`.
pub open spec fn child(directory: Seq<u8>, name: Seq<u8>, style: PathStyle) -> Seq<u8> {
    if directory.len() == 0 {
        name
    } else {
        directory.push(separator_byte(style)) + name
    }
}

fn make_child(directory: &Vec<u8>, name: &Vec<u8>, style: PathStyle) -> (r: Vec<u8>)
    ensures
        r@ == child(directory@, name@, style),
{
    let mut tail: Vec<u8> = name.clone();
    assert(tail@ =~= name@);
    if directory.len() == 0 {
        return tail;
    }
    let mut r: Vec<u8> = directory.clone();
    assert(r@ =~= directory@);
    r.push(byte_of_separator(style));
    r.append(&mut tail);
    r
}

/// The selector of the repository in a directory.
pub open spec fn selector(directory: Seq<u8>) -> Text {
    if directory.len() == 0 {
        "."@
    } else {
        utf8_lossy(directory)
    }
}

fn make_selector(directory: &Vec<u8>) -> (r: String)
    ensures
        r@ == selector(directory@),
{
    if directory.len() == 0 {
        ".".to_owned()
    } else {
        decode_lossy(directory.as_slice())
    }
}

// ---------------------------------------------------------------------------
// One directory
// ---------------------------------------------------------------------------
/// What is left to do in a scan.
#[derive(Debug)]
pub enum Task {
    /// Look into a directory.
    Visit(Vec<u8>),
    /// Give up: an entry could not be read.
    Report(String),
}

/// What is left to do, as contracts speak of it.
pub enum TaskView {
    Visit(Seq<u8>),
    Report(Text),
}

impl DeepView for Task {
    type V = TaskView;

    open spec fn deep_view(&self) -> TaskView {
        match self {
            Task::Visit(directory) => TaskView::Visit(directory@),
            Task::Report(error) => TaskView::Report(error@),
        }
    }
}

/// What an entry of a directory calls for.
pub open spec fn task_of(directory: Seq<u8>, entry: DirectoryEntry, style: PathStyle) -> Option<
    TaskView,
> {
    match entry {
        DirectoryEntry::Found { name, is_symlink, is_dir } => if is_symlink || !is_dir || name@
            == git_directory() {
            None
        } else {
            Some(TaskView::Visit(child(directory, name@, style)))
        },
        DirectoryEntry::Unreadable(error) => Some(
            TaskView::Report("cannot read workspace entry: "@ + error@),
        ),
        DirectoryEntry::Uninspectable(error) => Some(
            TaskView::Report("cannot inspect workspace entry: "@ + error@),
        ),
    }
}

fn find_task(directory: &Vec<u8>, entry: &DirectoryEntry, style: PathStyle) -> (r: Option<Task>)
    ensures
        r.deep_view() == task_of(directory@, *entry, style),
{
    match entry {
        DirectoryEntry::Found { name, is_symlink, is_dir } => {
            let hidden: Vec<u8> = name_git_directory();
            if *is_symlink || !*is_dir || same_bytes(name, &hidden) {
                None
            } else {
                Some(Task::Visit(make_child(directory, name, style)))
            }
        },
        DirectoryEntry::Unreadable(error) => Some(
            Task::Report(concat("cannot read workspace entry: ", error.as_str())),
        ),
        DirectoryEntry::Uninspectable(error) => Some(
            Task::Report(concat("cannot inspect workspace entry: ", error.as_str())),
        ),
    }
}

/// The tasks of the entries from `i` on, in their order.
pub open spec fn tasks_from(
    directory: Seq<u8>,
    entries: Seq<DirectoryEntry>,
    i: int,
    style: PathStyle,
) -> Seq<TaskView>
    decreases entries.len() - i,
{
    if i < 0 || i >= entries.len() {
        Seq::empty()
    } else {
        match task_of(directory, entries[i], style) {
            Some(task) => seq![task] + tasks_from(directory, entries, i + 1, style),
            None => tasks_from(directory, entries, i + 1, style),
        }
    }
}

/// What a directory turns out to be.
#[derive(Debug)]
pub enum Visit {
    /// The root of the repository with this selector.
    Repository(String),
    /// A directory with these tasks, the last one first.
    Directory(Vec<Task>),
}

/// What a directory turns out to be, as contracts speak of it.
pub enum VisitView {
    Repository(Text),
    /// The tasks in their order.
    Directory(Seq<TaskView>),
}

impl DeepView for Visit {
    type V = VisitView;

    open spec fn deep_view(&self) -> VisitView {
        match self {
            Visit::Repository(name) => VisitView::Repository(name@),
            Visit::Directory(tasks) => VisitView::Directory(tasks.deep_view().reverse()),
        }
    }
}

/// Asks whether a path leads to anything.
pub open spec fn probe_flow(path: Seq<u8>, t: Seq<Reply>, n: int) -> FlowView<bool> {
    if 0 <= n < t.len() {
        match t[n] {
            Reply::Exists(present) => FlowView::Got(present, n + 1),
            _ => FlowView::Fail(mismatch(), n + 1),
        }
    } else {
        FlowView::Ask(RequestView::Probe { path })
    }
}

fn probe(path: Vec<u8>, t: &Vec<Reply>, n: usize) -> (r: Flow<bool>)
    ensures
        flow(r) == probe_flow(path@, t@, n as int),
{
    if n < t.len() {
        match &t[n] {
            Reply::Exists(present) => Ok((*present, n + 1)),
            _ => fail("reply does not answer the request", n + 1),
        }
    } else {
        Err(Halt::Ask(GitRequest::Probe { path }))
    }
}

/// Lists a directory.
pub open spec fn list_flow(
    root: Seq<u8>,
    directory: Seq<u8>,
    style: PathStyle,
    t: Seq<Reply>,
    n: int,
) -> FlowView<VisitView> {
    if 0 <= n < t.len() {
        match t[n] {
            Reply::Entries(Ok(entries)) => FlowView::Got(
                VisitView::Directory(tasks_from(directory, entries@, 0, style)),
                n + 1,
            ),
            Reply::Entries(Err(error)) => FlowView::Fail(
                "cannot read workspace directory: "@ + error@,
                n + 1,
            ),
            _ => FlowView::Fail(mismatch(), n + 1),
        }
    } else {
        FlowView::Ask(RequestView::List { path: directory_path(root, directory, style) })
    }
}

fn collect_tasks(directory: &Vec<u8>, entries: &Vec<DirectoryEntry>, style: PathStyle) -> (r: Vec<
    Task,
>)
    ensures
        r.deep_view().reverse() == tasks_from(directory@, entries@, 0, style),
{
    let mut tasks: Vec<Task> = Vec::new();
    let mut i: usize = entries.len();
    assert(tasks.deep_view().reverse() =~= Seq::<TaskView>::empty());
    while i > 0
        invariant
            i <= entries@.len(),
            tasks.deep_view().reverse() == tasks_from(directory@, entries@, i as int, style),
        decreases i,
    {
        i -= 1;
        let ghost before = tasks.deep_view();
        if let Some(task) = find_task(directory, &entries[i], style) {
            let ghost seen = task.deep_view();
            tasks.push(task);
            assert(tasks.deep_view() =~= before.push(seen));
            assert(before.push(seen).reverse() =~= seq![seen] + before.reverse());
        }
    }
    tasks
}

fn list(root: &Vec<u8>, directory: &Vec<u8>, style: PathStyle, t: &Vec<Reply>, n: usize) -> (r: Flow<
    Visit,
>)
    ensures
        flow(r) == list_flow(root@, directory@, style, t@, n as int),
{
    if n < t.len() {
        match &t[n] {
            Reply::Entries(Ok(entries)) => Ok(
                (Visit::Directory(collect_tasks(directory, entries, style)), n + 1),
            ),
            Reply::Entries(Err(error)) => Err(
                Halt::Fail(concat("cannot read workspace directory: ", error.as_str()), n + 1),
            ),
            _ => fail("reply does not answer the request", n + 1),
        }
    } else {
        Err(Halt::Ask(GitRequest::List { path: path_of_directory(root, directory, style) }))
    }
}

/// Looks into a directory: it is a repository if it holds the data of one and
/// its selector names it; otherwise it is listed.
pub open spec fn visit_flow(server: GitServer, directory: Seq<u8>, t: Seq<Reply>, n: int) -> FlowView<
    VisitView,
> {
    let root = server.workspace_root@;
    let style = server.path_style;
    let place = directory_path(root, directory, style);
    probe_flow(joined_path(place, git_directory(), style), t, n).and_then(
        |present: bool, n: int|
            if present {
                resolve_repo_flow(server, selector(directory), t, n).attempt().and_then(
                    |resolved: Result<Seq<u8>, Text>, n: int|
                        if resolved is Ok {
                            FlowView::Got(VisitView::Repository(selector(directory)), n)
                        } else {
                            list_flow(root, directory, style, t, n)
                        },
                )
            } else {
                list_flow(root, directory, style, t, n)
            },
    )
}

impl GitServer {
    fn visit(&self, directory: &Vec<u8>, t: &Vec<Reply>, n: usize) -> (r: Flow<Visit>)
        ensures
            flow(r) == visit_flow(*self, directory@, t@, n as int),
    {
        let path: Vec<u8> = path_of_directory(&self.workspace_root, directory, self.path_style);
        let hidden: Vec<u8> = name_git_directory();
        let (present, n) = probe(
            join_bytes(&path, hidden.as_slice(), self.path_style),
            t,
            n,
        )?;
        if !present {
            return list(&self.workspace_root, directory, self.path_style, t, n);
        }
        let name: String = make_selector(directory);
        match self.resolve_repo(name.as_str(), t, n) {
            Ok((_, n)) => Ok((Visit::Repository(name), n)),
            Err(Halt::Fail(_, n)) => list(&self.workspace_root, directory, self.path_style, t, n),
            Err(Halt::Ask(request)) => Err(Halt::Ask(request)),
        }
    }
}

// ---------------------------------------------------------------------------
// The scan
// ---------------------------------------------------------------------------
/// A scan that is under way.
#[derive(Debug)]
pub struct Discovery {
    /// What is left to do; the last is done next.
    pub pending: Vec<Task>,
    /// The selectors of the repositories found so far, ascending.
    pub found: Vec<String>,
    /// The replies that concern the directory that is being looked into.
    pub replies: Vec<Reply>,
}

/// A scan between two directories, as contracts speak of it: the replies so far
/// concern the directory in between, and contracts name them beside the scan.
pub struct ScanView {
    pub pending: Seq<TaskView>,
    pub found: Seq<Text>,
}

impl DeepView for Discovery {
    type V = ScanView;

    open spec fn deep_view(&self) -> ScanView {
        ScanView { pending: self.pending.deep_view(), found: self.found.deep_view() }
    }
}

/// How a scan goes on.
#[derive(Debug)]
pub enum Progress {
    /// This has to be performed next.
    Ask(GitRequest),
    /// The scan is done, with these repositories.
    Done(Vec<String>),
    /// The scan has failed.
    Failed(String),
}

/// How a scan goes on, as contracts speak of it.
pub enum ProgressView {
    Ask(RequestView),
    Done(Seq<Text>),
    Failed(Text),
    /// The directory has been dealt with; the scan is now here.
    Next(ScanView),
}

/// How a scan goes on from `scan`, with these replies for its next directory.
pub open spec fn scan_step(server: GitServer, scan: ScanView, replies: Seq<Reply>) -> ProgressView {
    if scan.pending.len() == 0 {
        ProgressView::Done(scan.found)
    } else {
        match scan.pending.last() {
            TaskView::Report(error) => ProgressView::Failed(error),
            TaskView::Visit(directory) => match visit_flow(server, directory, replies, 0) {
                FlowView::Ask(request) => ProgressView::Ask(request),
                FlowView::Fail(error, _) => ProgressView::Failed(error),
                FlowView::Got(VisitView::Repository(name), _) => ProgressView::Next(
                    ScanView {
                        pending: scan.pending.drop_last(),
                        found: insert_sorted(scan.found, name),
                    },
                ),
                FlowView::Got(VisitView::Directory(tasks), _) => ProgressView::Next(
                    ScanView {
                        pending: scan.pending.drop_last() + tasks.reverse(),
                        found: scan.found,
                    },
                ),
            },
        }
    }
}

/// How a scan goes on, without the case that it goes on by itself.
pub open spec fn progress(r: Progress) -> ProgressView {
    match r {
        Progress::Ask(request) => ProgressView::Ask(request.deep_view()),
        Progress::Done(found) => ProgressView::Done(found.deep_view()),
        Progress::Failed(error) => ProgressView::Failed(error@),
    }
}

/// The scan of a workspace, before anything is known of it.
pub open spec fn scan_start() -> ScanView {
    ScanView { pending: seq![TaskView::Visit(Seq::empty())], found: Seq::empty() }
}

impl Discovery {
    /// The scan of a workspace, before anything is known of it.
    pub fn new() -> (r: Discovery)
        ensures
            r.deep_view() == scan_start(),
            r.replies@.len() == 0,
    {
        let nowhere: Vec<u8> = Vec::new();
        assert(nowhere@ =~= Seq::<u8>::empty());
        let pending: Vec<Task> = vec![Task::Visit(nowhere)];
        let found: Vec<String> = Vec::new();
        assert(pending.deep_view() =~= scan_start().pending);
        assert(found.deep_view() =~= Seq::<Text>::empty());
        Discovery { pending, found, replies: Vec::new() }
    }

    /// Takes the reply to the request that was asked for last.
    pub fn answer(&mut self, reply: Reply)
        ensures
            final(self).deep_view() == old(self).deep_view(),
            final(self).replies@ == old(self).replies@.push(reply),
    {
        self.replies.push(reply);
    }
}

impl GitServer {
    /// Deals with the next task of a scan, as far as the replies reach. There
    /// is no progress to report where the task is done.
    fn settle(&self, scan: &mut Discovery) -> (r: Option<Progress>)
        ensures
            match scan_step(*self, old(scan).deep_view(), old(scan).replies@) {
                ProgressView::Next(next) => {
                    &&& r is None
                    &&& final(scan).deep_view() == next
                    &&& final(scan).replies@.len() == 0
                },
                other => {
                    &&& r matches Some(now)
                    &&& progress(now) == other
                    &&& final(scan).deep_view() == old(scan).deep_view()
                    &&& final(scan).replies@ == old(scan).replies@
                },
            },
    {
        let ghost before = scan.deep_view();
        assert(before.pending.len() == scan.pending@.len());
        if scan.pending.len() == 0 {
            return Some(Progress::Done(clone_texts(&scan.found)));
        }
        let last: usize = scan.pending.len() - 1;
        assert(before.pending.last() == scan.pending@[last as int].deep_view());
        let visit: Flow<Visit> = match &scan.pending[last] {
            Task::Report(error) => {
                return Some(Progress::Failed(error.clone()));
            },
            Task::Visit(directory) => self.visit(directory, &scan.replies, 0),
        };
        match visit {
            Err(Halt::Ask(request)) => Some(Progress::Ask(request)),
            Err(Halt::Fail(error, _)) => Some(Progress::Failed(error)),
            Ok((Visit::Repository(name), _)) => {
                scan.pending.pop();
                assert(scan.pending.deep_view() =~= before.pending.drop_last());
                insert_text(&mut scan.found, name);
                scan.replies = Vec::new();
                None
            },
            Ok((Visit::Directory(tasks), _)) => {
                let mut tasks: Vec<Task> = tasks;
                let ghost more = tasks.deep_view();
                assert(more.reverse().reverse() =~= more);
                scan.pending.pop();
                assert(scan.pending.deep_view() =~= before.pending.drop_last());
                scan.pending.append(&mut tasks);
                assert(scan.pending.deep_view() =~= before.pending.drop_last() + more);
                scan.replies = Vec::new();
                None
            },
        }
    }

    /// How a scan goes on that has no replies yet for its next directory.
    fn upcoming(&self, scan: &Discovery) -> (r: Progress)
        ensures
            progress(r) == scan_step(*self, scan.deep_view(), Seq::empty()),
    {
        assert(scan.deep_view().pending.len() == scan.pending@.len());
        if scan.pending.len() == 0 {
            return Progress::Done(clone_texts(&scan.found));
        }
        let last: usize = scan.pending.len() - 1;
        assert(scan.deep_view().pending.last() == scan.pending@[last as int].deep_view());
        match &scan.pending[last] {
            Task::Report(error) => Progress::Failed(error.clone()),
            Task::Visit(directory) => {
                let path: Vec<u8> = path_of_directory(&self.workspace_root, directory, self.path_style);
                let hidden: Vec<u8> = name_git_directory();
                Progress::Ask(
                    GitRequest::Probe {
                        path: join_bytes(&path, hidden.as_slice(), self.path_style),
                    },
                )
            },
        }
    }

    /// Goes on with a scan of the workspace for repositories, as far as its
    /// replies reach. The list is ascending, with each repository once.
    pub fn list_repositories(&self, scan: &mut Discovery) -> (r: Progress)
        ensures
            match scan_step(*self, old(scan).deep_view(), old(scan).replies@) {
                ProgressView::Next(next) => {
                    &&& progress(r) == scan_step(*self, next, Seq::empty())
                    &&& final(scan).deep_view() == next
                    &&& final(scan).replies@.len() == 0
                },
                other => {
                    &&& progress(r) == other
                    &&& final(scan).deep_view() == old(scan).deep_view()
                    &&& final(scan).replies@ == old(scan).replies@
                },
            },
    {
        match self.settle(scan) {
            Some(now) => now,
            None => self.upcoming(scan),
        }
    }
}

// ---------------------------------------------------------------------------
// What a scan finds
// ---------------------------------------------------------------------------
/// What lies at and below a directory, as far as a scan is concerned.
pub enum Tree {
    /// The root of a repository.
    Repository,
    /// A directory that cannot be dealt with, and what is reported of it.
    Unreadable(Text),
    /// A directory with these entries, in the order of the listing.
    Directory(Seq<Node>),
}

/// An entry of a directory that a scan does not pass over.
pub enum Node {
    /// A directory.
    Child(Seq<u8>, Tree),
    /// An entry that cannot be read, and what is reported of it.
    Broken(Text),
}

/// The tasks of the entries from `i` on.
pub open spec fn node_tasks(
    directory: Seq<u8>,
    nodes: Seq<Node>,
    i: int,
    style: PathStyle,
) -> Seq<TaskView>
    decreases nodes.len() - i,
{
    if i < 0 || i >= nodes.len() {
        Seq::empty()
    } else {
        seq![
            match nodes[i] {
                Node::Child(name, _) => TaskView::Visit(child(directory, name, style)),
                Node::Broken(error) => TaskView::Report(error),
            },
        ] + node_tasks(directory, nodes, i + 1, style)
    }
}

/// Where each directory has the replies that `replies` gives for it, `tree` is
/// what lies at and below `directory`.
pub open spec fn shows(
    server: GitServer,
    replies: spec_fn(Seq<u8>) -> Seq<Reply>,
    tree: Tree,
    directory: Seq<u8>,
) -> bool
    decreases tree,
{
    let visit = visit_flow(server, directory, replies(directory), 0);
    match tree {
        Tree::Repository => visit matches FlowView::Got(VisitView::Repository(name), _) && name
            == selector(directory),
        Tree::Unreadable(error) => visit matches FlowView::Fail(e, _) && e == error,
        Tree::Directory(nodes) => {
            &&& visit matches FlowView::Got(VisitView::Directory(tasks), _)
            &&& tasks == node_tasks(directory, nodes, 0, server.path_style)
            &&& forall|i: int|
                0 <= i < nodes.len() ==> (#[trigger] nodes[i] matches Node::Child(name, below)
                    ==> shows(server, replies, below, child(directory, name, server.path_style)))
        },
    }
}

/// The repositories at and below a directory, added to those in `found`; or
/// what is reported first, in the order of the listings, of what cannot be
/// dealt with.
pub open spec fn gathered(
    tree: Tree,
    directory: Seq<u8>,
    found: Seq<Text>,
    style: PathStyle,
) -> Result<Seq<Text>, Text>
    decreases tree, 0int,
{
    match tree {
        Tree::Repository => Ok(insert_sorted(found, selector(directory))),
        Tree::Unreadable(error) => Err(error),
        Tree::Directory(nodes) => gathered_from(nodes, 0, directory, found, style),
    }
}

/// The repositories below the entries from `i` on, added to those in `found`.
pub open spec fn gathered_from(
    nodes: Seq<Node>,
    i: int,
    directory: Seq<u8>,
    found: Seq<Text>,
    style: PathStyle,
) -> Result<Seq<Text>, Text>
    decreases nodes, nodes.len() - i,
{
    if i < 0 || i >= nodes.len() {
        Ok(found)
    } else {
        match nodes[i] {
            Node::Broken(error) => Err(error),
            Node::Child(name, below) => match gathered(
                below,
                child(directory, name, style),
                found,
                style,
            ) {
                Err(error) => Err(error),
                Ok(more) => gathered_from(nodes, i + 1, directory, more, style),
            },
        }
    }
}

/// Runs a scan for as many directories as `fuel` says.
pub open spec fn scan_run(
    server: GitServer,
    replies: spec_fn(Seq<u8>) -> Seq<Reply>,
    scan: ScanView,
    fuel: nat,
) -> ProgressView
    decreases fuel,
{
    let step = if scan.pending.len() > 0 && scan.pending.last() is Visit {
        scan_step(server, scan, replies(scan.pending.last()->Visit_0))
    } else {
        scan_step(server, scan, Seq::empty())
    };
    match step {
        ProgressView::Next(next) => if fuel == 0 {
            step
        } else {
            scan_run(server, replies, next, (fuel - 1) as nat)
        },
        _ => step,
    }
}

/// The number of directories in a tree.
pub open spec fn tree_size(tree: Tree) -> nat
    decreases tree, 0int,
{
    match tree {
        Tree::Directory(nodes) => 1 + tree_size_from(nodes, 0),
        _ => 1,
    }
}

/// The number of directories below the entries from `i` on.
pub open spec fn tree_size_from(nodes: Seq<Node>, i: int) -> nat
    decreases nodes, nodes.len() - i,
{
    if i < 0 || i >= nodes.len() {
        0
    } else {
        match nodes[i] {
            Node::Broken(_) => 0,
            Node::Child(_, below) => tree_size(below) + tree_size_from(nodes, i + 1),
        }
    }
}

/// Where a scan gets from what it gathers.
pub open spec fn scan_from(
    server: GitServer,
    replies: spec_fn(Seq<u8>) -> Seq<Reply>,
    rest: Seq<TaskView>,
    found: Result<Seq<Text>, Text>,
    fuel: nat,
) -> ProgressView {
    match found {
        Err(error) => ProgressView::Failed(error),
        Ok(found) => scan_run(server, replies, ScanView { pending: rest, found }, fuel),
    }
}

proof fn lemma_scan_tree(
    server: GitServer,
    replies: spec_fn(Seq<u8>) -> Seq<Reply>,
    tree: Tree,
    directory: Seq<u8>,
    rest: Seq<TaskView>,
    found: Seq<Text>,
    fuel: nat,
)
    requires
        shows(server, replies, tree, directory),
    ensures
        scan_run(
            server,
            replies,
            ScanView { pending: rest.push(TaskView::Visit(directory)), found },
            tree_size(tree) + fuel,
        ) == scan_from(server, replies, rest, gathered(tree, directory, found, server.path_style), fuel),
    decreases tree, 0int,
{
    let scan = ScanView { pending: rest.push(TaskView::Visit(directory)), found };
    assert(scan.pending.drop_last() =~= rest);
    if let Tree::Directory(nodes) = tree {
        lemma_scan_nodes(server, replies, nodes, 0, directory, rest, found, fuel);
        assert((tree_size(tree) + fuel - 1) as nat == tree_size_from(nodes, 0) + fuel);
    }
}

proof fn lemma_scan_nodes(
    server: GitServer,
    replies: spec_fn(Seq<u8>) -> Seq<Reply>,
    nodes: Seq<Node>,
    i: int,
    directory: Seq<u8>,
    rest: Seq<TaskView>,
    found: Seq<Text>,
    fuel: nat,
)
    requires
        0 <= i <= nodes.len(),
        forall|k: int|
            0 <= k < nodes.len() ==> (#[trigger] nodes[k] matches Node::Child(name, below) ==> shows(
                server,
                replies,
                below,
                child(directory, name, server.path_style),
            )),
    ensures
        scan_run(
            server,
            replies,
            ScanView { pending: rest + node_tasks(directory, nodes, i, server.path_style).reverse(), found },
            tree_size_from(nodes, i) + fuel,
        ) == scan_from(
            server,
            replies,
            rest,
            gathered_from(nodes, i, directory, found, server.path_style),
            fuel,
        ),
    decreases nodes, nodes.len() - i,
{
    let style = server.path_style;
    let tasks = node_tasks(directory, nodes, i, style);
    if i == nodes.len() {
        assert(rest + tasks.reverse() =~= rest);
    } else {
        let more = node_tasks(directory, nodes, i + 1, style);
        let below_rest = rest + more.reverse();
        match nodes[i] {
            Node::Broken(error) => {
                assert((rest + tasks.reverse()).last() == TaskView::Report(error));
            },
            Node::Child(name, below) => {
                let place = child(directory, name, style);
                assert(rest + tasks.reverse() =~= below_rest.push(TaskView::Visit(place)));
                lemma_scan_tree(
                    server,
                    replies,
                    below,
                    place,
                    below_rest,
                    found,
                    tree_size_from(nodes, i + 1) + fuel,
                );
                if let Ok(so_far) = gathered(below, place, found, style) {
                    lemma_scan_nodes(
                        server,
                        replies,
                        nodes,
                        i + 1,
                        directory,
                        rest,
                        so_far,
                        fuel,
                    );
                }
            },
        }
    }
}

/// A scan of a workspace comes to an end, and gathers what lies in the
/// workspace: every repository, or the first thing that cannot be dealt with.
pub proof fn law_scan_gathers(
    server: GitServer,
    replies: spec_fn(Seq<u8>) -> Seq<Reply>,
    tree: Tree,
)
    requires
        shows(server, replies, tree, Seq::empty()),
    ensures
        scan_run(server, replies, scan_start(), tree_size(tree)) == match gathered(
            tree,
            Seq::empty(),
            Seq::empty(),
            server.path_style,
        ) {
            Ok(found) => ProgressView::Done(found),
            Err(error) => ProgressView::Failed(error),
        },
{
    lemma_scan_tree(server, replies, tree, Seq::empty(), Seq::empty(), Seq::empty(), 0);
    assert(scan_start().pending =~= Seq::empty().push(TaskView::Visit(Seq::empty())));
}

/// `name` is the selector of a repository at or below a directory.
pub open spec fn holds(tree: Tree, directory: Seq<u8>, name: Text, style: PathStyle) -> bool
    decreases tree, 0int,
{
    match tree {
        Tree::Repository => name == selector(directory),
        Tree::Unreadable(_) => false,
        Tree::Directory(nodes) => holds_from(nodes, 0, directory, name, style),
    }
}

/// `name` is the selector of a repository below one of the entries from `i`
/// on.
pub open spec fn holds_from(
    nodes: Seq<Node>,
    i: int,
    directory: Seq<u8>,
    name: Text,
    style: PathStyle,
) -> bool
    decreases nodes, nodes.len() - i,
{
    if i < 0 || i >= nodes.len() {
        false
    } else {
        ||| match nodes[i] {
            Node::Broken(_) => false,
            Node::Child(part, below) => holds(
                below,
                child(directory, part, style),
                name,
                style,
            ),
        }
        ||| holds_from(nodes, i + 1, directory, name, style)
    }
}

/// What is gathered is ascending and has each repository once; it is what was
/// there before and exactly the repositories at and below the directory.
pub proof fn law_gathered(tree: Tree, directory: Seq<u8>, found: Seq<Text>, style: PathStyle)
    requires
        ascending(found),
    ensures
        gathered(tree, directory, found, style) matches Ok(all) ==> ascending(all) && forall|
            name: Text,
        | #[trigger]
            all.contains(name) <==> found.contains(name) || holds(tree, directory, name, style),
    decreases tree, 0int,
{
    match tree {
        Tree::Repository => {
            law_insert_sorted(found, selector(directory));
        },
        Tree::Unreadable(_) => {},
        Tree::Directory(nodes) => {
            lemma_gathered_from(nodes, 0, directory, found, style);
        },
    }
}

proof fn lemma_gathered_from(
    nodes: Seq<Node>,
    i: int,
    directory: Seq<u8>,
    found: Seq<Text>,
    style: PathStyle,
)
    requires
        0 <= i <= nodes.len(),
        ascending(found),
    ensures
        gathered_from(nodes, i, directory, found, style) matches Ok(all) ==> ascending(all)
            && forall|name: Text| #[trigger]
            all.contains(name) <==> found.contains(name) || holds_from(
                nodes,
                i,
                directory,
                name,
                style,
            ),
    decreases nodes, nodes.len() - i,
{
    if i < nodes.len() {
        if let Node::Child(part, below) = nodes[i] {
            let place = child(directory, part, style);
            law_gathered(below, place, found, style);
            if let Ok(more) = gathered(below, place, found, style) {
                lemma_gathered_from(nodes, i + 1, directory, more, style);
            }
        }
    }
}

/// What a scan takes for a repository resolves to a directory within the
/// workspace, under the selector that the scan reports.
pub proof fn law_found_repository_resolves(
    server: GitServer,
    directory: Seq<u8>,
    t: Seq<Reply>,
    n: int,
)
    ensures
        visit_flow(server, directory, t, n) matches FlowView::Got(VisitView::Repository(name), _)
            ==> (resolve_repo_flow(server, name, t, n + 1) matches FlowView::Got(root, _)
            && is_within(root, server.workspace_root@, server.path_style)),
{
    law_repository_within_workspace(server, selector(directory), t, n + 1);
}

} // verus!
