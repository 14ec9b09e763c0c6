//! Replacing a local tag that has not been published.
use crate::command::Command;
use crate::flow::{
    check, checked, fail, flow, git_flow, raw_flow, run_git, run_git_raw, unless, Flow, FlowView,
    Halt, Reply,
};
use crate::output::OutputView;
use crate::policy::{
    message_verdict, object_id_verdict, validate_commit_message, validate_object_id,
};
use crate::publication::{
    verify_unpublished_flow, PublicationArgsView, PublicationGuard, VerificationView,
    VerifyUnpublishedArgs,
};
use crate::queries::{
    head_sha, head_sha_flow, resolve_commit_flow, resolve_commit_sha, validate_tag_name,
    validate_tag_name_flow,
};
use crate::server::{quote, quoted, writable_verdict, GitServer};
use crate::text::{
    clone_optional, concat, concat3, decimal, decimal_of, replace_char, replaced_char, same_text,
    trim, trimmed, Text,
};
use vstd::prelude::*;

verus! {

/// The tag that is to be replaced.
#[derive(Debug)]
pub struct ReplaceLocalTagArgs {
    pub repo: String,
    pub name: String,
    pub expected_old_target: String,
    /// The new target, unless it is the commit at `HEAD`.
    pub new_target: Option<String>,
    pub message: String,
    pub remote: Option<String>,
    pub publication_guard: PublicationGuard,
}

/// The tag that is to be replaced, as contracts speak of it.
pub struct ReplaceTagArgsView {
    pub repo: Text,
    pub name: Text,
    pub expected_old_target: Text,
    pub new_target: Option<Text>,
    pub message: Text,
    pub remote: Option<Text>,
    pub publication_guard: PublicationGuard,
}

impl DeepView for ReplaceLocalTagArgs {
    type V = ReplaceTagArgsView;

    open spec fn deep_view(&self) -> ReplaceTagArgsView {
        ReplaceTagArgsView {
            repo: self.repo@,
            name: self.name@,
            expected_old_target: self.expected_old_target@,
            new_target: self.new_target.deep_view(),
            message: self.message@,
            remote: self.remote.deep_view(),
            publication_guard: self.publication_guard,
        }
    }
}

/// A tag that was replaced.
#[derive(Debug)]
pub struct ReplaceLocalTagOutput {
    pub operation: String,
    pub name: String,
    pub old_target: String,
    pub new_target: String,
    pub annotated: bool,
    pub publication_guard: PublicationGuard,
    pub temporary_tag_cleanup: bool,
}

/// A tag that was replaced, as contracts speak of it.
pub struct ReplacedTagView {
    pub operation: Text,
    pub name: Text,
    pub old_target: Text,
    pub new_target: Text,
    pub annotated: bool,
    pub publication_guard: PublicationGuard,
    pub temporary_tag_cleanup: bool,
}

impl DeepView for ReplaceLocalTagOutput {
    type V = ReplacedTagView;

    open spec fn deep_view(&self) -> ReplacedTagView {
        ReplacedTagView {
            operation: self.operation@,
            name: self.name@,
            old_target: self.old_target@,
            new_target: self.new_target@,
            annotated: self.annotated,
            publication_guard: self.publication_guard,
            temporary_tag_cleanup: self.temporary_tag_cleanup,
        }
    }
}

// ---------------------------------------------------------------------------
// Looking at tags
// ---------------------------------------------------------------------------
/// The reference of a tag.
pub open spec fn tag_reference(name: Text) -> Text {
    "refs/tags/"@ + name
}

/// The object that a tag's reference holds.
pub open spec fn tag_object_flow(repo: Text, name: Text, t: Seq<Reply>, n: int) -> FlowView<Text> {
    validate_tag_name_flow(repo, name, t, n).and_then(
        |_u: (), n: int|
            git_flow(repo, Command::TagObject { name }, t, n).and_then(
                |o: OutputView, n: int|
                    checked(object_id_verdict(trim(o.stdout)), n).map(|_u: ()| trim(o.stdout)),
            ),
    )
}

/// The object that a tag's reference holds.
pub fn tag_object_sha(repo: &str, name: &str, t: &Vec<Reply>, n: usize) -> (r: Flow<String>)
    ensures
        flow(r) == tag_object_flow(repo@, name@, t@, n as int),
{
    let (_, n) = validate_tag_name(repo, name, t, n)?;
    let (output, n) = run_git(repo, Command::TagObject { name: name.to_owned() }, t, n)?;
    let sha: String = trimmed(output.stdout.as_str());
    check(validate_object_id(sha.as_str()), n)?;
    Ok((sha, n))
}

/// The commit that a tag leads to.
pub open spec fn tag_target_flow(repo: Text, name: Text, t: Seq<Reply>, n: int) -> FlowView<Text> {
    validate_tag_name_flow(repo, name, t, n).and_then(
        |_u: (), n: int| resolve_commit_flow(repo, name, t, n),
    )
}

/// The commit that a tag leads to.
pub fn tag_target_commit(repo: &str, name: &str, t: &Vec<Reply>, n: usize) -> (r: Flow<String>)
    ensures
        flow(r) == tag_target_flow(repo@, name@, t@, n as int),
{
    let (_, n) = validate_tag_name(repo, name, t, n)?;
    resolve_commit_sha(repo, name, t, n)
}

// ---------------------------------------------------------------------------
// Whether the tag may be replaced
// ---------------------------------------------------------------------------
/// What is reported where the tag leads elsewhere than expected.
pub open spec fn unexpected_target(name: Text, actual: Text, expected: Text) -> Text {
    "tag replacement blocked: "@ + quoted(name) + " currently targets "@ + actual + ", expected "@
        + expected
}

/// The commit that the tag leads to, where it is the expected one.
pub open spec fn expected_target_flow(args: ReplaceTagArgsView, t: Seq<Reply>, n: int) -> FlowView<
    Text,
> {
    resolve_commit_flow(args.repo, args.expected_old_target, t, n).and_then(
        |expected: Text, n: int|
            tag_target_flow(args.repo, args.name, t, n).and_then(
                |actual: Text, n: int|
                    unless(
                        actual != expected,
                        unexpected_target(args.name, actual, expected),
                        n,
                    ).map(|_u: ()| actual),
            ),
    )
}

fn ensure_expected_target(args: &ReplaceLocalTagArgs, t: &Vec<Reply>, n: usize) -> (r: Flow<String>)
    ensures
        flow(r) == expected_target_flow(args.deep_view(), t@, n as int),
{
    let repo: &str = args.repo.as_str();
    let (expected, n) = resolve_commit_sha(repo, args.expected_old_target.as_str(), t, n)?;
    let (actual, n) = tag_target_commit(repo, args.name.as_str(), t, n)?;
    if !same_text(actual.as_str(), expected.as_str()) {
        let name: String = quote(args.name.as_str());
        let mut error: String = concat3(
            "tag replacement blocked: ",
            name.as_str(),
            " currently targets ",
        );
        error.append(actual.as_str());
        error.append(", expected ");
        error.append(expected.as_str());
        return Err(Halt::Fail(error, n));
    }
    Ok((actual, n))
}

/// The question whether the tag is published.
pub open spec fn tag_publication(args: ReplaceTagArgsView) -> PublicationArgsView {
    PublicationArgsView {
        repo: args.repo,
        remote: args.remote,
        commits: Seq::empty(),
        tags: seq![args.name],
    }
}

/// What is reported of a tag that the remote has.
pub open spec fn tag_published(name: Text, remote: Text) -> Text {
    "tag replacement blocked: "@ + quoted(name) + " already exists on remote "@ + quoted(remote)
}

/// The tag is not published, as far as the guard asks for that.
pub open spec fn tag_unpublished_flow(
    server: GitServer,
    args: ReplaceTagArgsView,
    t: Seq<Reply>,
    n: int,
) -> FlowView<()> {
    if args.publication_guard == PublicationGuard::VerifyRemote {
        verify_unpublished_flow(server, tag_publication(args), t, n).and_then(
            |found: VerificationView, n: int|
                unless(!found.unpublished, tag_published(args.name, found.remote), n),
        )
    } else {
        FlowView::Got((), n)
    }
}

/// The commit that the tag is to lead to.
pub open spec fn new_target_flow(args: ReplaceTagArgsView, t: Seq<Reply>, n: int) -> FlowView<Text> {
    match args.new_target {
        Some(target) => resolve_commit_flow(args.repo, target, t, n),
        None => head_sha_flow(args.repo, t, n),
    }
}

fn find_new_target(args: &ReplaceLocalTagArgs, t: &Vec<Reply>, n: usize) -> (r: Flow<String>)
    ensures
        flow(r) == new_target_flow(args.deep_view(), t@, n as int),
{
    match &args.new_target {
        Some(target) => resolve_commit_sha(args.repo.as_str(), target.as_str(), t, n),
        None => head_sha(args.repo.as_str(), t, n),
    }
}

// ---------------------------------------------------------------------------
// Replacing the tag
// ---------------------------------------------------------------------------
/// The name of the tag under which the replacement is made. The process and
/// the number keep it apart from others.
pub open spec fn temporary_name(name: Text, process: nat, number: nat) -> Text {
    "mcp-replacement/"@ + replace_char(name, '/', '-') + "-"@ + decimal(process) + "-"@ + decimal(
        number,
    )
}

fn make_temporary_name(name: &str, process: u32, number: u64) -> (r: String)
    ensures
        r@ == temporary_name(name@, process as nat, number as nat),
{
    let safe: String = replaced_char(name, '/', '-');
    let process: String = decimal_of(process as u64);
    let number: String = decimal_of(number);
    let mut r: String = concat3("mcp-replacement/", safe.as_str(), "-");
    r.append(process.as_str());
    r.append("-");
    r.append(number.as_str());
    r
}

/// Where the step before failed, deletes the temporary tag, and reports the
/// failure of the step.
pub open spec fn cleaned_up<T>(
    result: FlowView<T>,
    repo: Text,
    temporary: Text,
    t: Seq<Reply>,
) -> FlowView<T> {
    match result {
        FlowView::Fail(error, n) => raw_flow(
            repo,
            Command::DeleteTag { name: temporary },
            t,
            n,
        ).attempt().and_then(|_r: Result<OutputView, Text>, n: int| FlowView::Fail(error, n)),
        other => other,
    }
}

fn clean_up<T: DeepView>(result: Flow<T>, repo: &str, temporary: &str, t: &Vec<Reply>) -> (r: Flow<
    T,
>)
    ensures
        flow(r) == cleaned_up(flow(result), repo@, temporary@, t@),
{
    match result {
        Err(Halt::Fail(error, n)) => match run_git_raw(
            repo,
            Command::DeleteTag { name: temporary.to_owned() },
            t,
            n,
        ) {
            Ok((_, n)) => Err(Halt::Fail(error, n)),
            Err(Halt::Fail(_, n)) => Err(Halt::Fail(error, n)),
            Err(Halt::Ask(request)) => Err(Halt::Ask(request)),
        },
        other => other,
    }
}

/// Makes the replacement under a temporary name, and moves the tag to it if
/// the tag still holds `old_object`. The result says whether the temporary
/// name is gone.
pub open spec fn swap_tag_flow(
    args: ReplaceTagArgsView,
    temporary: Text,
    new_target: Text,
    old_object: Text,
    t: Seq<Reply>,
    n: int,
) -> FlowView<bool> {
    validate_tag_name_flow(args.repo, temporary, t, n).and_then(
        |_u: (), n: int|
            git_flow(
                args.repo,
                Command::AnnotatedTag {
                    name: temporary,
                    target: Some(new_target),
                    message: args.message,
                },
                t,
                n,
            ).and_then(
                |_o: OutputView, n: int|
                    cleaned_up(
                        tag_object_flow(args.repo, temporary, t, n),
                        args.repo,
                        temporary,
                        t,
                    ).and_then(
                        |new_object: Text, n: int|
                            cleaned_up(
                                git_flow(
                                    args.repo,
                                    Command::UpdateRef {
                                        reference: tag_reference(args.name),
                                        new: new_object,
                                        old: old_object,
                                    },
                                    t,
                                    n,
                                ),
                                args.repo,
                                temporary,
                                t,
                            ).and_then(
                                |_o: OutputView, n: int|
                                    raw_flow(
                                        args.repo,
                                        Command::DeleteTag { name: temporary },
                                        t,
                                        n,
                                    ).map(|o: OutputView| o.exit_code == Some(0i32)),
                            ),
                    ),
            ),
    )
}

fn swap_tag(
    args: &ReplaceLocalTagArgs,
    temporary: &str,
    new_target: &str,
    old_object: &str,
    t: &Vec<Reply>,
    n: usize,
) -> (r: Flow<bool>)
    ensures
        flow(r) == swap_tag_flow(
            args.deep_view(),
            temporary@,
            new_target@,
            old_object@,
            t@,
            n as int,
        ),
{
    let repo: &str = args.repo.as_str();
    let (_, n) = validate_tag_name(repo, temporary, t, n)?;
    let command = Command::AnnotatedTag {
        name: temporary.to_owned(),
        target: Some(new_target.to_owned()),
        message: args.message.clone(),
    };
    let (_, n) = run_git(repo, command, t, n)?;
    let found = tag_object_sha(repo, temporary, t, n);
    let (new_object, n) = clean_up(found, repo, temporary, t)?;
    let command = Command::UpdateRef {
        reference: concat("refs/tags/", args.name.as_str()),
        new: new_object,
        old: old_object.to_owned(),
    };
    let swapped = run_git(repo, command, t, n);
    let (_, n) = clean_up(swapped, repo, temporary, t)?;
    let (output, n) = run_git_raw(repo, Command::DeleteTag { name: temporary.to_owned() }, t, n)?;
    Ok((output.exit_code == Some(0), n))
}

/// Replaces a local tag.
pub open spec fn replace_tag_flow(
    server: GitServer,
    args: ReplaceTagArgsView,
    process: nat,
    number: nat,
    t: Seq<Reply>,
    n: int,
) -> FlowView<ReplacedTagView> {
    checked(writable_verdict(server), n).and_then(
        |_u: (), n: int|
            validate_tag_name_flow(args.repo, args.name, t, n).and_then(
                |_u: (), n: int|
                    checked(message_verdict(args.message), n).and_then(
                        |_u: (), n: int|
                            expected_target_flow(args, t, n).and_then(
                                |old_target: Text, n: int|
                                    tag_unpublished_flow(server, args, t, n).and_then(
                                        |_u: (), n: int|
                                            retarget_flow(
                                                args,
                                                old_target,
                                                process,
                                                number,
                                                t,
                                                n,
                                            ),
                                    ),
                            ),
                    ),
            ),
    )
}

/// Replaces a tag that may be replaced, and makes sure of the outcome.
pub open spec fn retarget_flow(
    args: ReplaceTagArgsView,
    old_target: Text,
    process: nat,
    number: nat,
    t: Seq<Reply>,
    n: int,
) -> FlowView<ReplacedTagView> {
    new_target_flow(args, t, n).and_then(
        |new_target: Text, n: int|
            tag_object_flow(args.repo, args.name, t, n).and_then(
                |old_object: Text, n: int|
                    swap_tag_flow(
                        args,
                        temporary_name(args.name, process, number),
                        new_target,
                        old_object,
                        t,
                        n,
                    ).and_then(
                        |gone: bool, n: int|
                            tag_target_flow(args.repo, args.name, t, n).and_then(
                                |confirmed: Text, n: int|
                                    unless(
                                        confirmed != new_target,
                                        "tag replacement integrity check failed: tag target does not match requested target"@,
                                        n,
                                    ).map(
                                        |_u: ()|
                                            ReplacedTagView {
                                                operation: "replace_local_tag"@,
                                                name: args.name,
                                                old_target,
                                                new_target,
                                                annotated: true,
                                                publication_guard: args.publication_guard,
                                                temporary_tag_cleanup: gone,
                                            },
                                    ),
                            ),
                    ),
            ),
    )
}

impl GitServer {
    fn ensure_tag_unpublished(&self, args: &ReplaceLocalTagArgs, t: &Vec<Reply>, n: usize) -> (r:
        Flow<()>)
        ensures
            flow(r) == tag_unpublished_flow(*self, args.deep_view(), t@, n as int),
    {
        if args.publication_guard != PublicationGuard::VerifyRemote {
            return Ok(((), n));
        }
        let commits: Vec<String> = Vec::new();
        assert(commits.deep_view() =~= Seq::<Text>::empty());
        let tags: Vec<String> = vec![args.name.clone()];
        assert(tags.deep_view() =~= seq![args.name@]);
        let question = VerifyUnpublishedArgs {
            repo: args.repo.clone(),
            remote: clone_optional(&args.remote),
            commits,
            tags,
        };
        let (found, n) = self.verify_unpublished(&question, t, n)?;
        if !found.unpublished {
            let name: String = quote(args.name.as_str());
            let remote: String = quote(found.remote.as_str());
            let mut error: String = concat3(
                "tag replacement blocked: ",
                name.as_str(),
                " already exists on remote ",
            );
            error.append(remote.as_str());
            return Err(Halt::Fail(error, n));
        }
        Ok(((), n))
    }

    /// Replaces a local tag that leads to an expected, unpublished commit.
    /// The identifier of the process, and a number that it uses once, make
    /// up a temporary name.
    pub fn replace_local_tag(
        &self,
        args: &ReplaceLocalTagArgs,
        process: u32,
        number: u64,
        t: &Vec<Reply>,
        n: usize,
    ) -> (r: Flow<ReplaceLocalTagOutput>)
        ensures
            flow(r) == replace_tag_flow(
                *self,
                args.deep_view(),
                process as nat,
                number as nat,
                t@,
                n as int,
            ),
    {
        let repo: &str = args.repo.as_str();
        let name: &str = args.name.as_str();
        check(self.ensure_writable(), n)?;
        let (_, n) = validate_tag_name(repo, name, t, n)?;
        check(validate_commit_message(args.message.as_str()), n)?;
        let (old_target, n) = ensure_expected_target(args, t, n)?;
        let (_, n) = self.ensure_tag_unpublished(args, t, n)?;
        let (new_target, n) = find_new_target(args, t, n)?;
        let (old_object, n) = tag_object_sha(repo, name, t, n)?;
        let temporary: String = make_temporary_name(name, process, number);
        let (gone, n) = swap_tag(
            args,
            temporary.as_str(),
            new_target.as_str(),
            old_object.as_str(),
            t,
            n,
        )?;
        let (confirmed, n) = tag_target_commit(repo, name, t, n)?;
        if !same_text(confirmed.as_str(), new_target.as_str()) {
            return fail(
                "tag replacement integrity check failed: tag target does not match requested target",
                n,
            );
        }
        Ok(
            (
                ReplaceLocalTagOutput {
                    operation: "replace_local_tag".to_owned(),
                    name: args.name.clone(),
                    old_target,
                    new_target,
                    annotated: true,
                    publication_guard: args.publication_guard,
                    temporary_tag_cleanup: gone,
                },
                n,
            ),
        )
    }
}

} // verus!
