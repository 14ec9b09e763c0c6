# Git for a workspace

A Git server that offers typed operations on the repositories of one
workspace: looking at them, branching, committing, rewriting unpublished
history, merging into the protected trunk, tagging releases, and taking back
what has not been published.

`src/` is the library. Its contracts are proved with Verus. `app/` is the
program around it: the command line, the protocol, and the input and output
that the library asks for. How paths are written, as on Unix or as on Windows,
is a setting of the server that the program makes.

## How operations work

An operation is a deterministic function of the replies that it has received
so far. It returns `Halt::Ask` with the next request, `Halt::Fail` with an
error, or its result. The program performs the request, appends the reply, and
calls the operation again.

- `flow`: requests, replies, and how steps are put together.
- `command`: the Git commands there are, with their arguments.
- `server`: permissions, resolving repositories, running one command.
- `text`, `paths`, `policy`, `output`: strings, paths, naming and message
  rules, and what is kept of the output of Git.
- `queries`, `snapshot`, `history`, `readiness`: questions about a repository.
- `rewrite`, `selection`, `amend`, `reword`, `squash`: rewriting history.
- `branches`, `tools`: branches, and operations of a single command.
- `publication`, `tags`, `release`: what is published, taking back merges,
  replacing tags, and tagging releases.
- `workspace`: finding the repositories of a workspace.

## What is proved beyond each function

- `safety`: no operation asks for a command that the server may not run, makes
  a commit whose message does not follow Conventional Commits, pushes with
  force, or moves the reference of the trunk by `update-ref`, so that no rewrite
  and no replacement of a tag touches it; merges, commits on the trunk and
  release tags are asked for only under their conditions.
- `guarantees`: rewrites leave published commits and the final tree alone and
  move a branch only from where it was; a merge is taken back, and a tag
  replaced, only where it is the expected one and was seen to be unpublished.
- `recovery`: with a Git that behaves, taking back a merge undoes it.
- `progress`: a rewrite moves its branch at most once, and what it has come to
  stays, whatever is replied afterwards.
- `workspace`: a scan finds exactly the repositories there are, in order.

What is trusted: `String::push`, `String::from_utf8_lossy`, and
`serde_json::to_string_pretty`.
