use rust_mcp_git::flow::{DirectoryEntry, GitRequest, PathFacts, ProcessOutput, Reply};
use rust_mcp_git::paths::PathStyle;
use rust_mcp_git::server::GitServer;
use rust_mcp_git::workspace::{Discovery, Progress};

fn server() -> GitServer {
    GitServer::new(
        PathStyle::Unix,
        b"/work".to_vec(),
        true,
        false,
        false,
        false,
        9,
        None,
        &Vec::new(),
    )
    .unwrap()
}

fn entry(name: &str) -> DirectoryEntry {
    DirectoryEntry::Found {
        name: name.as_bytes().to_vec(),
        is_symlink: false,
        is_dir: true,
    }
}

/// The tree in memory: directories with their entries, and the repositories
/// among them.
struct Disk {
    directories: Vec<(&'static str, Vec<DirectoryEntry>)>,
    repositories: Vec<&'static str>,
    probed: Vec<String>,
    listed: Vec<String>,
}

impl Disk {
    fn perform(&mut self, request: GitRequest) -> Reply {
        match request {
            GitRequest::Probe { path } => {
                let path = String::from_utf8(path).unwrap();
                let directory = path.strip_suffix("/.git").unwrap().to_owned();
                let present = self.repositories.iter().any(|known| *known == directory);
                self.probed.push(directory);
                Reply::Exists(present)
            }
            GitRequest::Canonicalize { path } => Reply::Path(Ok(PathFacts {
                path,
                is_dir: true,
                is_file: false,
            })),
            GitRequest::Run { directory, .. } => {
                let broken = directory.ends_with(b"broken");
                Reply::Run(Ok(ProcessOutput {
                    exit_code: Some(if broken { 128 } else { 0 }),
                    stdout: directory,
                    stderr: Vec::new(),
                }))
            }
            GitRequest::List { path } => {
                let path = String::from_utf8(path).unwrap();
                let at = self
                    .directories
                    .iter()
                    .position(|(known, _)| *known == path);
                let reply = match at {
                    Some(at) => Reply::Entries(Ok(self.directories.remove(at).1)),
                    None => Reply::Entries(Err("denied".to_owned())),
                };
                self.listed.push(path);
                reply
            }
            other => panic!("{other:?}"),
        }
    }

    fn scan(&mut self) -> Result<Vec<String>, String> {
        let server = server();
        let mut scan = Discovery::new();
        loop {
            match server.list_repositories(&mut scan) {
                Progress::Done(found) => return Ok(found),
                Progress::Failed(error) => return Err(error),
                Progress::Ask(request) => {
                    let reply = self.perform(request);
                    scan.answer(reply);
                }
            }
        }
    }
}

fn disk(
    directories: Vec<(&'static str, Vec<DirectoryEntry>)>,
    repositories: Vec<&'static str>,
) -> Disk {
    Disk { directories, repositories, probed: Vec::new(), listed: Vec::new() }
}

#[test]
fn repositories_are_found_and_sorted() {
    let link = DirectoryEntry::Found {
        name: b"link".to_vec(),
        is_symlink: true,
        is_dir: true,
    };
    let file = DirectoryEntry::Found {
        name: b"file".to_vec(),
        is_symlink: false,
        is_dir: false,
    };
    let mut disk = disk(
        vec![
            ("/work", vec![entry("z"), link, file, entry("nested"), entry(".git")]),
            ("/work/nested", vec![entry("b"), entry("a"), entry("empty")]),
            ("/work/nested/empty", vec![]),
        ],
        vec!["/work/z", "/work/nested/b", "/work/nested/a"],
    );
    assert_eq!(disk.scan().unwrap(), ["nested/a", "nested/b", "z"]);
    assert_eq!(disk.listed, ["/work", "/work/nested", "/work/nested/empty"]);
    assert_eq!(
        disk.probed,
        [
            "/work",
            "/work/z",
            "/work/nested",
            "/work/nested/b",
            "/work/nested/a",
            "/work/nested/empty",
        ]
    );
}

#[test]
fn windows_directories_have_backslashes_between_their_names() {
    let mut server = server();
    server.path_style = PathStyle::Windows;
    server.workspace_root = b"\\\\?\\C:\\work".to_vec();
    let mut scan = Discovery::new();
    let mut asked: Vec<String> = Vec::new();
    let found = loop {
        let reply = match server.list_repositories(&mut scan) {
            Progress::Done(found) => break found,
            Progress::Failed(error) => panic!("{error}"),
            Progress::Ask(GitRequest::Probe { path }) => {
                let path = String::from_utf8(path).unwrap();
                let present = path.ends_with("\\b\\.git");
                asked.push(path);
                Reply::Exists(present)
            }
            Progress::Ask(GitRequest::List { path }) => {
                let name = if path.ends_with(b"work") { "a" } else { "b" };
                Reply::Entries(Ok(vec![entry(name)]))
            }
            Progress::Ask(GitRequest::Canonicalize { path }) => {
                Reply::Path(Ok(PathFacts { path, is_dir: true, is_file: false }))
            }
            Progress::Ask(GitRequest::Run { directory, .. }) => Reply::Run(Ok(ProcessOutput {
                exit_code: Some(0),
                stdout: directory,
                stderr: Vec::new(),
            })),
            Progress::Ask(other) => panic!("{other:?}"),
        };
        scan.answer(reply);
    };
    assert_eq!(found, ["a\\b"]);
    assert_eq!(
        asked,
        [
            "\\\\?\\C:\\work\\.git",
            "\\\\?\\C:\\work\\a\\.git",
            "\\\\?\\C:\\work\\a\\b\\.git",
        ]
    );
}

#[test]
fn the_workspace_itself_may_be_a_repository() {
    let mut disk = disk(vec![("/work", vec![entry("x")])], vec!["/work"]);
    assert_eq!(disk.scan().unwrap(), ["."]);
    assert!(disk.listed.is_empty());
}

#[test]
fn what_does_not_resolve_is_searched_further() {
    let mut disk = disk(
        vec![("/work", vec![entry("broken")]), ("/work/broken", vec![entry("in")])],
        vec!["/work/broken", "/work/broken/in"],
    );
    assert_eq!(disk.scan().unwrap(), ["broken/in"]);
}

#[test]
fn the_first_obstacle_is_reported() {
    let mut denied = disk(vec![("/work", vec![entry("a"), entry("b")])], vec![]);
    assert_eq!(denied.scan().unwrap_err(), "cannot read workspace directory: denied");
    assert_eq!(denied.listed, ["/work", "/work/a"]);
    let mut unreadable = disk(
        vec![("/work", vec![entry("a"), DirectoryEntry::Unreadable("io".to_owned())])],
        vec!["/work/a"],
    );
    assert_eq!(unreadable.scan().unwrap_err(), "cannot read workspace entry: io");
    let mut odd = disk(
        vec![("/work", vec![DirectoryEntry::Uninspectable("io".to_owned()), entry("a")])],
        vec![],
    );
    assert_eq!(odd.scan().unwrap_err(), "cannot inspect workspace entry: io");
    assert_eq!(odd.listed, ["/work"]);
}
