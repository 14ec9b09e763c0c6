//! The rules of a Git server that is confined to a workspace.
//!
//! Operations do not run Git. Each is a function of the replies received so
//! far that says what has to be performed next, or how it ended; see `flow`.
//! Whoever drives it runs Git and reads the file system. What every operation
//! keeps to, whatever Git replies, is proved in `guarantees`, `progress` and
//! `safety`; what follows where Git behaves, in `recovery`. What an operation
//! comes to is held against what it asked for and was told, see `dialogue`: in
//! `squashing`, `rewording`, `amending`, `rewinding`, `verifying`, `retagging`,
//! `releasing`, `planning`, `assessing`, `running`, `executing`, `scanning` and
//! `failing`. That nothing else stands in its way is stated in `succeeding` and
//! `completing`, and what is said where something does, in `refusing`. How texts
//! and paths are taken apart, and what is accepted, is stated in `splitting`,
//! `parsing`, `locating` and `naming`.
pub mod amend;
pub mod amending;
pub mod assessing;
pub mod branches;
pub mod command;
pub mod completing;
pub mod dialogue;
pub mod executing;
pub mod extent;
pub mod failing;
pub mod flow;
pub mod guarantees;
pub mod history;
pub mod locating;
pub mod naming;
pub mod output;
pub mod parsing;
pub mod paths;
pub mod planning;
pub mod policy;
pub mod progress;
pub mod publication;
pub mod queries;
pub mod readiness;
pub mod recovery;
pub mod refusing;
pub mod release;
pub mod releasing;
pub mod replaying;
pub mod resolving;
pub mod retagging;
pub mod reword;
pub mod rewinding;
pub mod rewording;
pub mod rewrite;
pub mod running;
pub mod safety;
pub mod scanning;
pub mod selection;
pub mod server;
pub mod snapshot;
pub mod splitting;
pub mod squash;
pub mod squashing;
pub mod succeeding;
pub mod tags;
pub mod text;
pub mod tools;
pub mod verifying;
pub mod workspace;
