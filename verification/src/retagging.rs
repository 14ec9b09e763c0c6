//! What replacing a tag comes to, held against what was asked and told.
use crate::command::Command;
use crate::dialogue::{
    answered, carries, lemma_answered, lemma_carried, output_at, performed, request, said,
};
use crate::extent::{
    agree, commit_reads, expected_target_reads, git_reads, new_target_reads, swap_reads,
    tag_name_reads, tag_object_reads, tag_publication_reads,
};
use crate::flow::{git_flow, raw_flow, FlowView, Reply};
use crate::policy::{message_verdict, object_id_verdict};
use crate::publication::{verify_unpublished_flow, PublicationGuard};
use crate::queries::{
    head_sha_flow, listing, resolve_commit_flow, validate_tag_name_flow,
};
use crate::server::GitServer;
use crate::tags::{
    cleaned_up, expected_target_flow, new_target_flow, replace_tag_flow, retarget_flow,
    swap_tag_flow, tag_object_flow, tag_publication, tag_target_flow, tag_unpublished_flow,
    temporary_name, ReplaceTagArgsView, ReplacedTagView,
};
use crate::text::{decimal, replace_char, Text};
use crate::verifying::{law_verification_checks_all, remote_of, verifying};
use vstd::prelude::*;

verus! {

// ---------------------------------------------------------------------------
// Parts
// ---------------------------------------------------------------------------
/// Replacing a tag, as an operation.
pub open spec fn replacing(
    server: GitServer,
    args: ReplaceTagArgsView,
    process: nat,
    number: nat,
) -> spec_fn(Seq<Reply>) -> FlowView<ReplacedTagView> {
    |t: Seq<Reply>| replace_tag_flow(server, args, process, number, t, 0)
}

spec fn expecting(args: ReplaceTagArgsView, n: int) -> spec_fn(Seq<Reply>) -> FlowView<Text> {
    |t: Seq<Reply>| expected_target_flow(args, t, n)
}

spec fn guarding(server: GitServer, args: ReplaceTagArgsView, n: int) -> spec_fn(
    Seq<Reply>,
) -> FlowView<()> {
    |t: Seq<Reply>| tag_unpublished_flow(server, args, t, n)
}

spec fn targeting(args: ReplaceTagArgsView, n: int) -> spec_fn(Seq<Reply>) -> FlowView<Text> {
    |t: Seq<Reply>| new_target_flow(args, t, n)
}

spec fn reading_tag(repo: Text, name: Text, n: int) -> spec_fn(Seq<Reply>) -> FlowView<Text> {
    |t: Seq<Reply>| tag_object_flow(repo, name, t, n)
}

spec fn confirming(repo: Text, name: Text, n: int) -> spec_fn(Seq<Reply>) -> FlowView<Text> {
    |t: Seq<Reply>| tag_target_flow(repo, name, t, n)
}

spec fn swapping(
    args: ReplaceTagArgsView,
    temporary: Text,
    new_target: Text,
    old_object: Text,
    n: int,
) -> spec_fn(Seq<Reply>) -> FlowView<bool> {
    |t: Seq<Reply>| swap_tag_flow(args, temporary, new_target, old_object, t, n)
}

spec fn retargeting(
    args: ReplaceTagArgsView,
    old_target: Text,
    process: nat,
    number: nat,
    n: int,
) -> spec_fn(Seq<Reply>) -> FlowView<ReplacedTagView> {
    |t: Seq<Reply>| retarget_flow(args, old_target, process, number, t, n)
}

#[verifier::rlimit(40)]
proof fn lemma_tag_object(repo: Text, name: Text, t: Seq<Reply>, n: int)
    requires
        0 <= n <= t.len(),
        tag_object_flow(repo, name, t, n) is Got,
    ensures
        n + 2 <= t.len(),
        tag_object_flow(repo, name, t, n) == FlowView::Got(said(t, n + 1), n + 2),
        performed(reading_tag(repo, name, n), t, n, repo, Command::CheckTagName { name }),
        performed(reading_tag(repo, name, n), t, n + 1, repo, Command::TagObject { name }),
        object_id_verdict(said(t, n + 1)) is Ok,
{
    let op = reading_tag(repo, name, n);
    assert(op(t.take(n)) == tag_object_flow(repo, name, t.take(n), n));
    let s = t.take(n + 1);
    assert(op(s) == tag_object_flow(repo, name, s, n));
    assert(agree(t, s, n + 1));
    tag_name_reads(repo, name, t, s, n);
}

#[verifier::rlimit(40)]
proof fn lemma_tag_target(repo: Text, name: Text, t: Seq<Reply>, n: int)
    requires
        0 <= n <= t.len(),
        tag_target_flow(repo, name, t, n) is Got,
    ensures
        n + 3 <= t.len(),
        tag_target_flow(repo, name, t, n) == FlowView::Got(said(t, n + 2), n + 3),
        performed(confirming(repo, name, n), t, n, repo, Command::CheckTagName { name }),
        performed(
            confirming(repo, name, n),
            t,
            n + 2,
            repo,
            Command::ResolveCommit { revision: name },
        ),
{
    let op = confirming(repo, name, n);
    assert(op(t.take(n)) == tag_target_flow(repo, name, t.take(n), n));
    assert(resolve_commit_flow(repo, name, t, n + 1) == FlowView::Got(said(t, n + 2), n + 3));
    let s = t.take(n + 2);
    assert(op(s) == tag_target_flow(repo, name, s, n));
    assert(agree(t, s, n + 1));
    tag_name_reads(repo, name, t, s, n);
}

// ---------------------------------------------------------------------------
// The swap
// ---------------------------------------------------------------------------
/// What the operation did to move a tag: it made an annotated tag of another
/// name at the new target, read its object, gave the tag that object where it
/// still had the old one, and took the other name away.
pub open spec fn tag_swapped<T>(
    operation: spec_fn(Seq<Reply>) -> FlowView<T>,
    t: Seq<Reply>,
    n: int,
    args: ReplaceTagArgsView,
    temporary: Text,
    new_target: Text,
    old_object: Text,
) -> bool {
    &&& performed(operation, t, n, args.repo, Command::CheckTagName { name: temporary })
    &&& performed(
        operation,
        t,
        n + 1,
        args.repo,
        Command::AnnotatedTag {
            name: temporary,
            target: Some(new_target),
            message: args.message,
        },
    )
    &&& performed(operation, t, n + 3, args.repo, Command::TagObject { name: temporary })
    &&& performed(
        operation,
        t,
        n + 4,
        args.repo,
        Command::UpdateRef {
            reference: "refs/tags/"@ + args.name,
            new: said(t, n + 3),
            old: old_object,
        },
    )
    &&& answered(operation, t, n + 5, args.repo, Command::DeleteTag { name: temporary })
}

#[verifier::rlimit(40)]
proof fn lemma_swap_parts(
    args: ReplaceTagArgsView,
    temporary: Text,
    new_target: Text,
    old_object: Text,
    t: Seq<Reply>,
    n: int,
)
    requires
        0 <= n <= t.len(),
        swap_tag_flow(args, temporary, new_target, old_object, t, n) is Got,
    ensures
        n + 6 <= t.len(),
        validate_tag_name_flow(args.repo, temporary, t, n) == FlowView::Got((), n + 1),
        git_flow(
            args.repo,
            Command::AnnotatedTag {
                name: temporary,
                target: Some(new_target),
                message: args.message,
            },
            t,
            n + 1,
        ) == FlowView::Got(output_at(t, n + 1), n + 2),
        tag_object_flow(args.repo, temporary, t, n + 2) == FlowView::Got(said(t, n + 3), n + 4),
        git_flow(
            args.repo,
            Command::UpdateRef {
                reference: "refs/tags/"@ + args.name,
                new: said(t, n + 3),
                old: old_object,
            },
            t,
            n + 4,
        ) == FlowView::Got(output_at(t, n + 4), n + 5),
        raw_flow(args.repo, Command::DeleteTag { name: temporary }, t, n + 5) == FlowView::Got(
            output_at(t, n + 5),
            n + 6,
        ),
        swap_tag_flow(args, temporary, new_target, old_object, t, n) == FlowView::Got(
            output_at(t, n + 5).exit_code == Some(0i32),
            n + 6,
        ),
{
    let make = Command::AnnotatedTag {
        name: temporary,
        target: Some(new_target),
        message: args.message,
    };
    let new_object = said(t, n + 3);
    let update = Command::UpdateRef {
        reference: "refs/tags/"@ + args.name,
        new: new_object,
        old: old_object,
    };
    assert(validate_tag_name_flow(args.repo, temporary, t, n) == FlowView::Got((), n + 1));
    assert(git_flow(args.repo, make, t, n + 1) == FlowView::Got(output_at(t, n + 1), n + 2));
    let object = tag_object_flow(args.repo, temporary, t, n + 2);
    assert(object is Got) by {
        if let FlowView::Fail(error, m) = object {
            assert(cleaned_up(object, args.repo, temporary, t) !is Got);
        }
    }
    lemma_tag_object(args.repo, temporary, t, n + 2);
    let moved = git_flow(args.repo, update, t, n + 4);
    assert(moved is Got) by {
        if let FlowView::Fail(error, m) = moved {
            assert(cleaned_up(moved, args.repo, temporary, t) !is Got);
        }
    }
    assert(moved == FlowView::Got(output_at(t, n + 4), n + 5));
}

#[verifier::rlimit(40)]
proof fn lemma_swap_asks_name(
    args: ReplaceTagArgsView,
    temporary: Text,
    new_target: Text,
    old_object: Text,
    t: Seq<Reply>,
    n: int,
)
    requires
        0 <= n <= t.len(),
        swap_tag_flow(args, temporary, new_target, old_object, t, n) is Got,
    ensures
        performed(
            swapping(args, temporary, new_target, old_object, n),
            t,
            n + 0,
            args.repo,
            Command::CheckTagName { name: temporary },
        ),
{
    lemma_swap_parts(args, temporary, new_target, old_object, t, n);
    let op = swapping(args, temporary, new_target, old_object, n);
    let s = t.take(n + 0);
    assert(op(s) == swap_tag_flow(args, temporary, new_target, old_object, s, n));
}

#[verifier::rlimit(40)]
proof fn lemma_swap_asks_make(
    args: ReplaceTagArgsView,
    temporary: Text,
    new_target: Text,
    old_object: Text,
    t: Seq<Reply>,
    n: int,
)
    requires
        0 <= n <= t.len(),
        swap_tag_flow(args, temporary, new_target, old_object, t, n) is Got,
    ensures
        performed(
            swapping(args, temporary, new_target, old_object, n),
            t,
            n + 1,
            args.repo,
            Command::AnnotatedTag {
                name: temporary,
                target: Some(new_target),
                message: args.message,
            },
        ),
{
    lemma_swap_parts(args, temporary, new_target, old_object, t, n);
    let op = swapping(args, temporary, new_target, old_object, n);
    let s = t.take(n + 1);
    assert(op(s) == swap_tag_flow(args, temporary, new_target, old_object, s, n));
    assert(agree(t, s, n + 1));
    tag_name_reads(args.repo, temporary, t, s, n);
}

#[verifier::rlimit(40)]
proof fn lemma_swap_asks_object(
    args: ReplaceTagArgsView,
    temporary: Text,
    new_target: Text,
    old_object: Text,
    t: Seq<Reply>,
    n: int,
)
    requires
        0 <= n <= t.len(),
        swap_tag_flow(args, temporary, new_target, old_object, t, n) is Got,
    ensures
        performed(
            swapping(args, temporary, new_target, old_object, n),
            t,
            n + 3,
            args.repo,
            Command::TagObject { name: temporary },
        ),
{
    lemma_swap_parts(args, temporary, new_target, old_object, t, n);
    let make = Command::AnnotatedTag {
        name: temporary,
        target: Some(new_target),
        message: args.message,
    };
    let op = swapping(args, temporary, new_target, old_object, n);
    let s = t.take(n + 3);
    assert(op(s) == swap_tag_flow(args, temporary, new_target, old_object, s, n));
    assert(agree(t, s, n + 1));
    tag_name_reads(args.repo, temporary, t, s, n);
    assert(agree(t, s, n + 2));
    git_reads(args.repo, make, t, s, n + 1);
    assert(agree(t, s, n + 3));
    lemma_tag_object(args.repo, temporary, t, n + 2);
    assert(reading_tag(args.repo, temporary, n + 2)(s) == tag_object_flow(
        args.repo,
        temporary,
        s,
        n + 2,
    ));
}

#[verifier::rlimit(40)]
proof fn lemma_swap_asks_update(
    args: ReplaceTagArgsView,
    temporary: Text,
    new_target: Text,
    old_object: Text,
    t: Seq<Reply>,
    n: int,
)
    requires
        0 <= n <= t.len(),
        swap_tag_flow(args, temporary, new_target, old_object, t, n) is Got,
    ensures
        performed(
            swapping(args, temporary, new_target, old_object, n),
            t,
            n + 4,
            args.repo,
            Command::UpdateRef {
                reference: "refs/tags/"@ + args.name,
                new: said(t, n + 3),
                old: old_object,
            },
        ),
{
    lemma_swap_parts(args, temporary, new_target, old_object, t, n);
    let make = Command::AnnotatedTag {
        name: temporary,
        target: Some(new_target),
        message: args.message,
    };
    let op = swapping(args, temporary, new_target, old_object, n);
    let s = t.take(n + 4);
    assert(op(s) == swap_tag_flow(args, temporary, new_target, old_object, s, n));
    assert(agree(t, s, n + 1));
    tag_name_reads(args.repo, temporary, t, s, n);
    assert(agree(t, s, n + 2));
    git_reads(args.repo, make, t, s, n + 1);
    assert(agree(t, s, n + 4));
    tag_object_reads(args.repo, temporary, t, s, n + 2);
}

#[verifier::rlimit(40)]
proof fn lemma_swap_asks_delete(
    args: ReplaceTagArgsView,
    temporary: Text,
    new_target: Text,
    old_object: Text,
    t: Seq<Reply>,
    n: int,
)
    requires
        0 <= n <= t.len(),
        swap_tag_flow(args, temporary, new_target, old_object, t, n) is Got,
    ensures
        answered(
            swapping(args, temporary, new_target, old_object, n),
            t,
            n + 5,
            args.repo,
            Command::DeleteTag { name: temporary },
        ),
{
    lemma_swap_parts(args, temporary, new_target, old_object, t, n);
    let make = Command::AnnotatedTag {
        name: temporary,
        target: Some(new_target),
        message: args.message,
    };
    let new_object = said(t, n + 3);
    let update = Command::UpdateRef {
        reference: "refs/tags/"@ + args.name,
        new: new_object,
        old: old_object,
    };
    let op = swapping(args, temporary, new_target, old_object, n);
    let s = t.take(n + 5);
    assert(op(s) == swap_tag_flow(args, temporary, new_target, old_object, s, n));
    assert(agree(t, s, n + 1));
    tag_name_reads(args.repo, temporary, t, s, n);
    assert(agree(t, s, n + 2));
    git_reads(args.repo, make, t, s, n + 1);
    assert(agree(t, s, n + 4));
    tag_object_reads(args.repo, temporary, t, s, n + 2);
    assert(agree(t, s, n + 5));
    git_reads(args.repo, update, t, s, n + 4);
}

#[verifier::rlimit(40)]
proof fn lemma_swapped<T>(
    operation: spec_fn(Seq<Reply>) -> FlowView<T>,
    args: ReplaceTagArgsView,
    temporary: Text,
    new_target: Text,
    old_object: Text,
    t: Seq<Reply>,
    n: int,
)
    requires
        0 <= n <= t.len(),
        swap_tag_flow(args, temporary, new_target, old_object, t, n) is Got,
        carries(operation, swapping(args, temporary, new_target, old_object, n), t, n),
    ensures
        tag_swapped(operation, t, n, args, temporary, new_target, old_object),
{
    let op = swapping(args, temporary, new_target, old_object, n);
    lemma_swap_asks_name(args, temporary, new_target, old_object, t, n);
    lemma_swap_asks_make(args, temporary, new_target, old_object, t, n);
    lemma_swap_asks_object(args, temporary, new_target, old_object, t, n);
    lemma_swap_asks_update(args, temporary, new_target, old_object, t, n);
    lemma_swap_asks_delete(args, temporary, new_target, old_object, t, n);
    let make = Command::AnnotatedTag {
        name: temporary,
        target: Some(new_target),
        message: args.message,
    };
    let new_object = said(t, n + 3);
    let update = Command::UpdateRef {
        reference: "refs/tags/"@ + args.name,
        new: new_object,
        old: old_object,
    };
    let name = Command::CheckTagName { name: temporary };
    let object = Command::TagObject { name: temporary };
    let delete = Command::DeleteTag { name: temporary };
    lemma_answered(operation, op, t, n, n, args.repo, name);
    lemma_answered(operation, op, t, n, n + 1, args.repo, make);
    lemma_answered(operation, op, t, n, n + 3, args.repo, object);
    lemma_answered(operation, op, t, n, n + 4, args.repo, update);
    lemma_answered(operation, op, t, n, n + 5, args.repo, delete);
}

// ---------------------------------------------------------------------------
// The new target
// ---------------------------------------------------------------------------
/// How many replies the new target takes.
pub open spec fn target_replies(args: ReplaceTagArgsView) -> int {
    match args.new_target {
        Some(_) => 2,
        None => 1,
    }
}

/// The commit at which the tag is to be: the one that the requested revision
/// names where one is requested, and otherwise the one at `HEAD`.
pub open spec fn target_told<T>(
    operation: spec_fn(Seq<Reply>) -> FlowView<T>,
    t: Seq<Reply>,
    n: int,
    args: ReplaceTagArgsView,
    new_target: Text,
) -> bool {
    match args.new_target {
        Some(revision) => {
            &&& performed(operation, t, n + 1, args.repo, Command::ResolveCommit { revision })
            &&& new_target == said(t, n + 1)
        },
        None => {
            &&& performed(operation, t, n, args.repo, Command::HeadCommit)
            &&& new_target == said(t, n)
        },
    }
}

#[verifier::rlimit(40)]
proof fn lemma_target_told(args: ReplaceTagArgsView, t: Seq<Reply>, n: int)
    requires
        0 <= n <= t.len(),
        new_target_flow(args, t, n) is Got,
    ensures
        target_told(targeting(args, n), t, n, args, new_target_flow(args, t, n)->Got_0),
        new_target_flow(args, t, n)->Got_1 == n + target_replies(args),
        n + target_replies(args) <= t.len(),
{
    let op = targeting(args, n);
    match args.new_target {
        Some(revision) => {
            let s = t.take(n + 1);
            assert(resolve_commit_flow(args.repo, revision, t, n) == FlowView::Got(
                said(t, n + 1),
                n + 2,
            ));
            assert(op(s) == new_target_flow(args, s, n));
            assert(op(s) == resolve_commit_flow(args.repo, revision, s, n));
        },
        None => {
            assert(head_sha_flow(args.repo, t, n) == FlowView::Got(said(t, n), n + 1));
            assert(op(t.take(n)) == new_target_flow(args, t.take(n), n));
        },
    }
}

#[verifier::rlimit(40)]
proof fn lemma_retarget_parts(
    args: ReplaceTagArgsView,
    old_target: Text,
    process: nat,
    number: nat,
    t: Seq<Reply>,
    n: int,
)
    requires
        0 <= n <= t.len(),
        retarget_flow(args, old_target, process, number, t, n) is Got,
    ensures
        ({
            let done = retarget_flow(args, old_target, process, number, t, n)->Got_0;
            let d = n + target_replies(args);
            let temporary = temporary_name(args.name, process, number);
            let old_object = said(t, d + 1);
            &&& new_target_flow(args, t, n) == FlowView::Got(done.new_target, d)
            &&& tag_object_flow(args.repo, args.name, t, d) == FlowView::Got(old_object, d + 2)
            &&& swap_tag_flow(args, temporary, done.new_target, old_object, t, d + 2)
                == FlowView::Got(output_at(t, d + 7).exit_code == Some(0i32), d + 8)
            &&& tag_target_flow(args.repo, args.name, t, d + 8) == FlowView::Got(
                done.new_target,
                d + 11,
            )
            &&& done.new_target == said(t, d + 10)
            &&& d + 11 <= t.len()
            &&& done.old_target == old_target
            &&& done.name == args.name
            &&& done.annotated
            &&& done.publication_guard == args.publication_guard
            &&& done.operation == "replace_local_tag"@
            &&& done.temporary_tag_cleanup <==> output_at(t, d + 7).exit_code == Some(0i32)
        }),
{
    let d = n + target_replies(args);
    let temporary = temporary_name(args.name, process, number);
    lemma_target_told(args, t, n);
    let new_target = new_target_flow(args, t, n)->Got_0;
    lemma_tag_object(args.repo, args.name, t, d);
    lemma_swap_parts(args, temporary, new_target, said(t, d + 1), t, d + 2);
    lemma_tag_target(args.repo, args.name, t, d + 8);
}


#[verifier::rlimit(40)]
proof fn lemma_retarget_targets(
    args: ReplaceTagArgsView,
    old_target: Text,
    process: nat,
    number: nat,
    t: Seq<Reply>,
    n: int,
)
    requires
        0 <= n <= t.len(),
        retarget_flow(args, old_target, process, number, t, n) is Got,
    ensures
        carries(
            retargeting(args, old_target, process, number, n),
            targeting(args, n),
            t,
            n,
        ),
{
    lemma_retarget_parts(args, old_target, process, number, t, n);
    let d = n + target_replies(args);
    let op = retargeting(args, old_target, process, number, n);
    let part = targeting(args, n);
    assert forall|p: int|
        n <= p <= t.len() && request(part(#[trigger] t.take(p))) is Some implies request(
        op(t.take(p)),
    ) == request(part(t.take(p))) by {
        let s = t.take(p);
        assert(op(s) == retarget_flow(args, old_target, process, number, s, n));
        assert(part(s) == new_target_flow(args, s, n));
    }
}

#[verifier::rlimit(40)]
proof fn lemma_retarget_reads(
    args: ReplaceTagArgsView,
    old_target: Text,
    process: nat,
    number: nat,
    t: Seq<Reply>,
    n: int,
)
    requires
        0 <= n <= t.len(),
        retarget_flow(args, old_target, process, number, t, n) is Got,
    ensures
        carries(
            retargeting(args, old_target, process, number, n),
            reading_tag(args.repo, args.name, n + target_replies(args)),
            t,
            n + target_replies(args),
        ),
{
    lemma_retarget_parts(args, old_target, process, number, t, n);
    let d = n + target_replies(args);
    let op = retargeting(args, old_target, process, number, n);
    let part = reading_tag(args.repo, args.name, d);
    assert forall|p: int|
        d <= p <= t.len() && request(part(#[trigger] t.take(p))) is Some implies request(
        op(t.take(p)),
    ) == request(part(t.take(p))) by {
        let s = t.take(p);
        assert(op(s) == retarget_flow(args, old_target, process, number, s, n));
        assert(agree(t, s, d));
        new_target_reads(args, t, s, n);
        assert(part(s) == tag_object_flow(args.repo, args.name, s, d));
    }
}

#[verifier::rlimit(40)]
proof fn lemma_retarget_swaps(
    args: ReplaceTagArgsView,
    old_target: Text,
    process: nat,
    number: nat,
    t: Seq<Reply>,
    n: int,
)
    requires
        0 <= n <= t.len(),
        retarget_flow(args, old_target, process, number, t, n) is Got,
    ensures
        ({
            let done = retarget_flow(args, old_target, process, number, t, n)->Got_0;
            let d = n + target_replies(args);
            let temporary = temporary_name(args.name, process, number);
            carries(
                retargeting(args, old_target, process, number, n),
                swapping(args, temporary, done.new_target, said(t, d + 1), d + 2),
                t,
                d + 2,
            )
        }),
{
    lemma_retarget_parts(args, old_target, process, number, t, n);
    let d = n + target_replies(args);
    let done = retarget_flow(args, old_target, process, number, t, n)->Got_0;
    let temporary = temporary_name(args.name, process, number);
    let old_object = said(t, d + 1);
    let op = retargeting(args, old_target, process, number, n);
    let part = swapping(args, temporary, done.new_target, old_object, d + 2);
    assert forall|p: int|
        d + 2 <= p <= t.len() && request(part(#[trigger] t.take(p))) is Some implies request(
        op(t.take(p)),
    ) == request(part(t.take(p))) by {
        let s = t.take(p);
        assert(op(s) == retarget_flow(args, old_target, process, number, s, n));
        assert(agree(t, s, d));
        new_target_reads(args, t, s, n);
        assert(agree(t, s, d + 2));
        tag_object_reads(args.repo, args.name, t, s, d);
        assert(part(s) == swap_tag_flow(args, temporary, done.new_target, old_object, s, d + 2));
    }
}

#[verifier::rlimit(40)]
proof fn lemma_retarget_confirms(
    args: ReplaceTagArgsView,
    old_target: Text,
    process: nat,
    number: nat,
    t: Seq<Reply>,
    n: int,
)
    requires
        0 <= n <= t.len(),
        retarget_flow(args, old_target, process, number, t, n) is Got,
    ensures
        ({
            let d = n + target_replies(args);
            carries(
                retargeting(args, old_target, process, number, n),
                confirming(args.repo, args.name, d + 8),
                t,
                d + 8,
            )
        }),
{
    lemma_retarget_parts(args, old_target, process, number, t, n);
    let d = n + target_replies(args);
    let done = retarget_flow(args, old_target, process, number, t, n)->Got_0;
    let temporary = temporary_name(args.name, process, number);
    let old_object = said(t, d + 1);
    let op = retargeting(args, old_target, process, number, n);
    let part = confirming(args.repo, args.name, d + 8);
    assert forall|p: int|
        d + 8 <= p <= t.len() && request(part(#[trigger] t.take(p))) is Some implies request(
        op(t.take(p)),
    ) == request(part(t.take(p))) by {
        let s = t.take(p);
        assert(op(s) == retarget_flow(args, old_target, process, number, s, n));
        assert(agree(t, s, d));
        new_target_reads(args, t, s, n);
        assert(agree(t, s, d + 2));
        tag_object_reads(args.repo, args.name, t, s, d);
        assert(agree(t, s, d + 8));
        swap_reads(args, temporary, done.new_target, old_object, t, s, d + 2);
        assert(part(s) == tag_target_flow(args.repo, args.name, s, d + 8));
    }
}

/// What the operation did to retarget a tag, from where the new target is
/// found.
pub open spec fn tag_retargeted<T>(
    operation: spec_fn(Seq<Reply>) -> FlowView<T>,
    t: Seq<Reply>,
    n: int,
    args: ReplaceTagArgsView,
    temporary: Text,
    done: ReplacedTagView,
) -> bool {
    let d = n + target_replies(args);
    &&& target_told(operation, t, n, args, done.new_target)
    &&& performed(operation, t, d + 1, args.repo, Command::TagObject { name: args.name })
    &&& tag_swapped(operation, t, d + 2, args, temporary, done.new_target, said(t, d + 1))
    &&& done.temporary_tag_cleanup <==> output_at(t, d + 7).exit_code == Some(0i32)
    &&& performed(operation, t, d + 8, args.repo, Command::CheckTagName { name: args.name })
    &&& performed(operation, t, d + 10, args.repo, Command::ResolveCommit { revision: args.name })
    &&& said(t, d + 10) == done.new_target
}

#[verifier::rlimit(40)]
proof fn lemma_retargeted<T>(
    operation: spec_fn(Seq<Reply>) -> FlowView<T>,
    args: ReplaceTagArgsView,
    old_target: Text,
    process: nat,
    number: nat,
    t: Seq<Reply>,
    n: int,
)
    requires
        0 <= n <= t.len(),
        retarget_flow(args, old_target, process, number, t, n) is Got,
        carries(operation, retargeting(args, old_target, process, number, n), t, n),
    ensures
        tag_retargeted(
            operation,
            t,
            n,
            args,
            temporary_name(args.name, process, number),
            retarget_flow(args, old_target, process, number, t, n)->Got_0,
        ),
{
    lemma_retarget_parts(args, old_target, process, number, t, n);
    lemma_retarget_targets(args, old_target, process, number, t, n);
    lemma_retarget_reads(args, old_target, process, number, t, n);
    lemma_retarget_swaps(args, old_target, process, number, t, n);
    lemma_retarget_confirms(args, old_target, process, number, t, n);
    let op = retargeting(args, old_target, process, number, n);
    let done = retarget_flow(args, old_target, process, number, t, n)->Got_0;
    let d = n + target_replies(args);
    let temporary = temporary_name(args.name, process, number);
    let old_object = said(t, d + 1);
    let one = targeting(args, n);
    lemma_carried(operation, op, one, t, n, n);
    lemma_target_told(args, t, n);
    match args.new_target {
        Some(revision) => {
            let command = Command::ResolveCommit { revision };
            lemma_answered(operation, one, t, n, n + 1, args.repo, command);
        },
        None => {
            lemma_answered(operation, one, t, n, n, args.repo, Command::HeadCommit);
        },
    }
    let two = reading_tag(args.repo, args.name, d);
    lemma_carried(operation, op, two, t, n, d);
    lemma_tag_object(args.repo, args.name, t, d);
    let object = Command::TagObject { name: args.name };
    lemma_answered(operation, two, t, d, d + 1, args.repo, object);
    let three = swapping(args, temporary, done.new_target, old_object, d + 2);
    lemma_carried(operation, op, three, t, n, d + 2);
    lemma_swapped(operation, args, temporary, done.new_target, old_object, t, d + 2);
    let four = confirming(args.repo, args.name, d + 8);
    lemma_carried(operation, op, four, t, n, d + 8);
    lemma_tag_target(args.repo, args.name, t, d + 8);
    let name = Command::CheckTagName { name: args.name };
    let target = Command::ResolveCommit { revision: args.name };
    lemma_answered(operation, four, t, d + 8, d + 8, args.repo, name);
    lemma_answered(operation, four, t, d + 8, d + 10, args.repo, target);
}

// ---------------------------------------------------------------------------
// The whole
// ---------------------------------------------------------------------------
/// Where the operation looks for the new target.
pub open spec fn retargets_at(args: ReplaceTagArgsView) -> int {
    if args.publication_guard == PublicationGuard::VerifyRemote {
        10
    } else {
        6
    }
}

/// What the operation was told of the old target: it is the one expected, and
/// where the remote is to be asked, the remote does not have the tag.
pub open spec fn tag_told<T>(
    operation: spec_fn(Seq<Reply>) -> FlowView<T>,
    t: Seq<Reply>,
    args: ReplaceTagArgsView,
    old_target: Text,
) -> bool {
    let remote = match args.remote {
        Some(remote) => remote,
        None => "origin"@,
    };
    &&& performed(operation, t, 0, args.repo, Command::CheckTagName { name: args.name })
    &&& performed(
        operation,
        t,
        2,
        args.repo,
        Command::ResolveCommit { revision: args.expected_old_target },
    )
    &&& performed(operation, t, 5, args.repo, Command::ResolveCommit { revision: args.name })
    &&& said(t, 2) == old_target
    &&& said(t, 5) == old_target
    &&& args.publication_guard == PublicationGuard::VerifyRemote ==> {
        &&& performed(operation, t, 6, args.repo, Command::RemoteUrl { remote })
        &&& performed(operation, t, 8, args.repo, Command::FetchTags { remote })
        &&& performed(operation, t, 9, args.repo, Command::RemoteTag { remote, tag: args.name })
        &&& listing(output_at(t, 9).stdout).len() == 0
    }
}

#[verifier::rlimit(40)]
proof fn lemma_expected(args: ReplaceTagArgsView, t: Seq<Reply>, n: int)
    requires
        0 <= n <= t.len(),
        expected_target_flow(args, t, n) is Got,
    ensures
        n + 5 <= t.len(),
        expected_target_flow(args, t, n) == FlowView::Got(said(t, n + 4), n + 5),
        said(t, n + 1) == said(t, n + 4),
        performed(
            expecting(args, n),
            t,
            n + 1,
            args.repo,
            Command::ResolveCommit { revision: args.expected_old_target },
        ),
        performed(
            expecting(args, n),
            t,
            n + 4,
            args.repo,
            Command::ResolveCommit { revision: args.name },
        ),
{
    let op = expecting(args, n);
    assert(resolve_commit_flow(args.repo, args.expected_old_target, t, n) == FlowView::Got(
        said(t, n + 1),
        n + 2,
    ));
    lemma_tag_target(args.repo, args.name, t, n + 2);
    let s = t.take(n + 1);
    assert(op(s) == expected_target_flow(args, s, n));
    assert(request(resolve_commit_flow(args.repo, args.expected_old_target, s, n)) is Some);
    let r = t.take(n + 4);
    assert(op(r) == expected_target_flow(args, r, n));
    assert(agree(t, r, n + 2));
    commit_reads(args.repo, args.expected_old_target, t, r, n);
    assert(confirming(args.repo, args.name, n + 2)(r) == tag_target_flow(
        args.repo,
        args.name,
        r,
        n + 2,
    ));
}

#[verifier::rlimit(40)]
proof fn lemma_guarded(server: GitServer, args: ReplaceTagArgsView, t: Seq<Reply>, n: int)
    requires
        0 <= n <= t.len(),
        tag_unpublished_flow(server, args, t, n) is Got,
        args.publication_guard == PublicationGuard::VerifyRemote,
    ensures
        ({
            let op = guarding(server, args, n);
            let remote = match args.remote {
                Some(remote) => remote,
                None => "origin"@,
            };
            &&& tag_unpublished_flow(server, args, t, n) == FlowView::Got((), n + 4)
            &&& n + 4 <= t.len()
            &&& performed(op, t, n, args.repo, Command::RemoteUrl { remote })
            &&& performed(op, t, n + 2, args.repo, Command::FetchTags { remote })
            &&& performed(op, t, n + 3, args.repo, Command::RemoteTag { remote, tag: args.name })
            &&& listing(output_at(t, n + 3).stdout).len() == 0
        }),
{
    let asked = tag_publication(args);
    let op = guarding(server, args, n);
    let part = verifying(server, asked, n);
    assert(verify_unpublished_flow(server, asked, t, n) is Got);
    law_verification_checks_all(server, asked, t, n);
    assert(asked.tags[0] == args.name);
    assert forall|p: int|
        n <= p <= t.len() && request(part(#[trigger] t.take(p))) is Some implies request(
        op(t.take(p)),
    ) == request(part(t.take(p))) by {
        let s = t.take(p);
        assert(op(s) == tag_unpublished_flow(server, args, s, n));
        assert(part(s) == verify_unpublished_flow(server, asked, s, n));
    }
    let remote = remote_of(asked);
    let done = verify_unpublished_flow(server, asked, t, n)->Got_0;
    assert(done.unpublished);
    let seen = crate::verifying::tags_seen(t, n + 3, asked.tags);
    assert(seen[0].remote_lines.len() == 0);
    assert(performed(part, t, n + 3 + 0, args.repo, Command::RemoteTag {
        remote,
        tag: asked.tags[0],
    }));
    lemma_answered(op, part, t, n, n, args.repo, Command::RemoteUrl { remote });
    lemma_answered(op, part, t, n, n + 2, args.repo, Command::FetchTags { remote });
    let tag = Command::RemoteTag { remote, tag: args.name };
    lemma_answered(op, part, t, n, n + 3, args.repo, tag);
}

#[verifier::rlimit(40)]
proof fn lemma_replace_parts(
    server: GitServer,
    args: ReplaceTagArgsView,
    process: nat,
    number: nat,
    t: Seq<Reply>,
)
    requires
        replace_tag_flow(server, args, process, number, t, 0) is Got,
    ensures
        ({
            let c = retargets_at(args);
            let old_target = said(t, 5);
            &&& !server.read_only
            &&& message_verdict(args.message) is Ok
            &&& validate_tag_name_flow(args.repo, args.name, t, 0) == FlowView::Got((), 1)
            &&& expected_target_flow(args, t, 1) == FlowView::Got(old_target, 6)
            &&& tag_unpublished_flow(server, args, t, 6) == FlowView::Got((), c)
            &&& retarget_flow(args, old_target, process, number, t, c) == replace_tag_flow(
                server,
                args,
                process,
                number,
                t,
                0,
            )
            &&& c <= t.len()
        }),
{
    assert(validate_tag_name_flow(args.repo, args.name, t, 0) == FlowView::Got((), 1));
    assert(expected_target_flow(args, t, 1) is Got);
    lemma_expected(args, t, 1);
    assert(tag_unpublished_flow(server, args, t, 6) is Got);
    if args.publication_guard == PublicationGuard::VerifyRemote {
        lemma_guarded(server, args, t, 6);
    }
}

#[verifier::rlimit(40)]
proof fn lemma_replace_begins(
    server: GitServer,
    args: ReplaceTagArgsView,
    process: nat,
    number: nat,
    t: Seq<Reply>,
)
    requires
        replace_tag_flow(server, args, process, number, t, 0) is Got,
    ensures
        ({
            let op = replacing(server, args, process, number);
            &&& performed(op, t, 0, args.repo, Command::CheckTagName { name: args.name })
            &&& carries(op, expecting(args, 1), t, 1)
        }),
{
    lemma_replace_parts(server, args, process, number, t);
    let op = replacing(server, args, process, number);
    assert(op(t.take(0)) == replace_tag_flow(server, args, process, number, t.take(0), 0));
    let one = expecting(args, 1);
    assert forall|p: int|
        1 <= p <= t.len() && request(one(#[trigger] t.take(p))) is Some implies request(
        op(t.take(p)),
    ) == request(one(t.take(p))) by {
        let s = t.take(p);
        assert(op(s) == replace_tag_flow(server, args, process, number, s, 0));
        assert(agree(t, s, 1));
        tag_name_reads(args.repo, args.name, t, s, 0);
        assert(one(s) == expected_target_flow(args, s, 1));
    }
}

#[verifier::rlimit(40)]
proof fn lemma_replace_guards(
    server: GitServer,
    args: ReplaceTagArgsView,
    process: nat,
    number: nat,
    t: Seq<Reply>,
)
    requires
        replace_tag_flow(server, args, process, number, t, 0) is Got,
    ensures
        carries(replacing(server, args, process, number), guarding(server, args, 6), t, 6),
{
    lemma_replace_parts(server, args, process, number, t);
    let op = replacing(server, args, process, number);
    let two = guarding(server, args, 6);
    assert forall|p: int|
        6 <= p <= t.len() && request(two(#[trigger] t.take(p))) is Some implies request(
        op(t.take(p)),
    ) == request(two(t.take(p))) by {
        let s = t.take(p);
        assert(op(s) == replace_tag_flow(server, args, process, number, s, 0));
        assert(agree(t, s, 1));
        tag_name_reads(args.repo, args.name, t, s, 0);
        assert(agree(t, s, 6));
        expected_target_reads(args, t, s, 1);
        assert(two(s) == tag_unpublished_flow(server, args, s, 6));
    }
}

#[verifier::rlimit(40)]
proof fn lemma_replace_retargets(
    server: GitServer,
    args: ReplaceTagArgsView,
    process: nat,
    number: nat,
    t: Seq<Reply>,
)
    requires
        replace_tag_flow(server, args, process, number, t, 0) is Got,
    ensures
        ({
            let op = replacing(server, args, process, number);
            let c = retargets_at(args);
            carries(op, retargeting(args, said(t, 5), process, number, c), t, c)
        }),
{
    lemma_replace_parts(server, args, process, number, t);
    let op = replacing(server, args, process, number);
    let c = retargets_at(args);
    let old_target = said(t, 5);
    let three = retargeting(args, old_target, process, number, c);
    assert forall|p: int|
        c <= p <= t.len() && request(three(#[trigger] t.take(p))) is Some implies request(
        op(t.take(p)),
    ) == request(three(t.take(p))) by {
        let s = t.take(p);
        assert(op(s) == replace_tag_flow(server, args, process, number, s, 0));
        assert(agree(t, s, 1));
        tag_name_reads(args.repo, args.name, t, s, 0);
        assert(agree(t, s, 6));
        expected_target_reads(args, t, s, 1);
        assert(agree(t, s, c));
        tag_publication_reads(server, args, t, s, 6);
        assert(three(s) == retarget_flow(args, old_target, process, number, s, c));
    }
}

#[verifier::rlimit(40)]
proof fn lemma_tag_told(
    server: GitServer,
    args: ReplaceTagArgsView,
    process: nat,
    number: nat,
    t: Seq<Reply>,
)
    requires
        replace_tag_flow(server, args, process, number, t, 0) is Got,
    ensures
        tag_told(replacing(server, args, process, number), t, args, said(t, 5)),
{
    lemma_replace_parts(server, args, process, number, t);
    lemma_replace_begins(server, args, process, number, t);
    lemma_replace_guards(server, args, process, number, t);
    let op = replacing(server, args, process, number);
    lemma_expected(args, t, 1);
    let one = expecting(args, 1);
    let old = Command::ResolveCommit { revision: args.expected_old_target };
    let now = Command::ResolveCommit { revision: args.name };
    lemma_answered(op, one, t, 1, 2, args.repo, old);
    lemma_answered(op, one, t, 1, 5, args.repo, now);
    if args.publication_guard == PublicationGuard::VerifyRemote {
        lemma_guarded(server, args, t, 6);
        let two = guarding(server, args, 6);
        let remote = remote_of(tag_publication(args));
        lemma_answered(op, two, t, 6, 6, args.repo, Command::RemoteUrl { remote });
        lemma_answered(op, two, t, 6, 8, args.repo, Command::FetchTags { remote });
        let tag = Command::RemoteTag { remote, tag: args.name };
        lemma_answered(op, two, t, 6, 9, args.repo, tag);
    }
}

/// Where a tag is replaced, the result says what was asked for and told. The
/// old target is the one expected, and the one that the tag had. The new target
/// is the commit that the requested revision names where one is requested, and
/// the commit at `HEAD` only where none is. An annotated tag with the given
/// message was made at that commit, and the tag was given its object in place
/// of the one it had, and seen to be at the new target afterwards. Where the
/// remote is to be asked, it was asked and did not have the tag.
#[verifier::rlimit(40)]
pub proof fn law_replacement_honours_target(
    server: GitServer,
    args: ReplaceTagArgsView,
    process: nat,
    number: nat,
    t: Seq<Reply>,
)
    requires
        replace_tag_flow(server, args, process, number, t, 0) is Got,
    ensures
        ({
            let op = replacing(server, args, process, number);
            let done = replace_tag_flow(server, args, process, number, t, 0)->Got_0;
            let temporary = "mcp-replacement/"@ + replace_char(args.name, '/', '-') + "-"@
                + decimal(process) + "-"@ + decimal(number);
            &&& !server.read_only
            &&& message_verdict(args.message) is Ok
            &&& tag_told(op, t, args, done.old_target)
            &&& tag_retargeted(op, t, retargets_at(args), args, temporary, done)
            &&& done.name == args.name
            &&& done.annotated
            &&& done.publication_guard == args.publication_guard
            &&& done.operation == "replace_local_tag"@
        }),
{
    lemma_replace_parts(server, args, process, number, t);
    lemma_replace_retargets(server, args, process, number, t);
    lemma_tag_told(server, args, process, number, t);
    let op = replacing(server, args, process, number);
    let c = retargets_at(args);
    lemma_retarget_parts(args, said(t, 5), process, number, t, c);
    lemma_retargeted(op, args, said(t, 5), process, number, t, c);
}

} // verus!
