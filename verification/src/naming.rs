//! Which names, messages and versions are accepted, stated by what they are
//! made of.
use crate::policy::{
    conventional_verdict, is_breaking_mark, is_commit_kind, is_conventional_subject,
    is_hex_digit, is_scope,
    is_subject_tail, is_version_number, merge_message, message_verdict, object_id_verdict,
    refspec_verdict, semver_verdict, token_verdict,
};
use crate::splitting::{law_join_undoes_split, law_split_undoes_join};
use crate::text::{
    byte_len, decimal, digit, first_line, is_blank, is_control_char, is_white_space, join, split_on,
    Text,
};
use vstd::prelude::*;

verus! {

// ---------------------------------------------------------------------------
// Names
// ---------------------------------------------------------------------------
/// A name is accepted exactly where it is not empty, has at most 1024 bytes, does
/// not begin with a hyphen and holds no control character; and an error names
/// what it was to be.
pub proof fn law_token_accepted(kind: Text, value: Text)
    ensures
        token_verdict(kind, value) is Ok <==> {
            &&& value.len() > 0
            &&& byte_len(value) <= 1024
            &&& value[0] != '-'
            &&& forall|i: int| 0 <= i < value.len() ==> !is_control_char(#[trigger] value[i])
        },
        token_verdict(kind, value) matches Err(error) ==> error == "invalid "@ + kind,
{
}

/// A refspec is accepted exactly where it is accepted as a name, does not begin
/// with a plus sign, and holds `--force` nowhere.
pub proof fn law_refspec_accepted(value: Text)
    ensures
        refspec_verdict(value) is Ok <==> {
            &&& token_verdict("refspec"@, value) is Ok
            &&& value[0] != '+'
            &&& forall|i: int|
                0 <= i <= value.len() ==> !"--force"@.is_prefix_of(#[trigger] value.skip(i))
        },
{
}

/// The full name of an object is accepted exactly where it is made of 40 or 64
/// hexadecimal digits of either case.
pub proof fn law_object_id_accepted(value: Text)
    ensures
        object_id_verdict(value) is Ok <==> {
            &&& value.len() == 40 || value.len() == 64
            &&& forall|i: int|
                0 <= i < value.len() ==> {
                    ||| '0' <= #[trigger] value[i] <= '9'
                    ||| 'a' <= value[i] <= 'f'
                    ||| 'A' <= value[i] <= 'F'
                }
        },
{
    if forall|i: int|
        0 <= i < value.len() ==> {
            ||| '0' <= #[trigger] value[i] <= '9'
            ||| 'a' <= value[i] <= 'f'
            ||| 'A' <= value[i] <= 'F'
        } {
        assert forall|i: int| 0 <= i < value.len() implies is_hex_digit(
            #[trigger] value[i],
        ) by {}
    }
}

// ---------------------------------------------------------------------------
// Messages
// ---------------------------------------------------------------------------
/// A message is accepted exactly where it holds something else than white space,
/// has at most 16384 bytes, and holds neither NUL nor a carriage return.
pub proof fn law_message_accepted(message: Text)
    ensures
        message_verdict(message) is Ok <==> {
            &&& exists|i: int| 0 <= i < message.len() && !is_white_space(#[trigger] message[i])
            &&& byte_len(message) <= 16384
            &&& forall|i: int|
                0 <= i < message.len() ==> #[trigger] message[i] != '\0' && message[i] != '\r'
        },
{
    if forall|i: int|
        0 <= i < message.len() ==> #[trigger] message[i] != '\0' && message[i] != '\r' {
        assert(!message.contains('\0') && !message.contains('\r'));
    }
    if message.contains('\0') || message.contains('\r') {
    } else {
        assert forall|i: int| 0 <= i < message.len() implies #[trigger] message[i] != '\0'
            && message[i] != '\r' by {
            assert(message.contains(message[i]));
        }
    }
}

/// A commit message is accepted exactly where it is accepted as a message and its
/// first line is a Conventional Commit subject.
pub proof fn law_conventional_message_accepted(message: Text)
    ensures
        conventional_verdict(message) is Ok <==> message_verdict(message) is Ok
            && is_conventional_subject(first_line(message)),
{
}

/// The types of change.
pub open spec fn change_types() -> Seq<Text> {
    seq![
        "feat"@,
        "fix"@,
        "docs"@,
        "test"@,
        "refactor"@,
        "perf"@,
        "build"@,
        "ci"@,
        "chore"@,
        "style"@,
        "revert"@,
    ]
}

/// A scope: some text that holds neither parentheses nor control characters.
pub open spec fn plain_scope(scope: Text) -> bool {
    &&& scope.len() > 0
    &&& forall|i: int|
        0 <= i < scope.len() ==> {
            &&& #[trigger] scope[i] != '('
            &&& scope[i] != ')'
            &&& !is_control_char(scope[i])
        }
}

/// The subject that is made of a type of change, a scope in parentheses where
/// there is one, an exclamation mark where the change breaks something, a colon,
/// a space and a description.
pub open spec fn composed_subject(
    kind: Text,
    scope: Option<Text>,
    breaking: bool,
    description: Text,
) -> Text {
    let scope = match scope {
        Some(scope) => seq!['('] + scope + seq![')'],
        None => Seq::empty(),
    };
    let mark = if breaking {
        seq!['!']
    } else {
        Seq::empty()
    };
    kind + (scope + mark + seq![':', ' '] + description)
}

/// Every subject that is made of a type of change, an optional scope, an optional
/// mark and a description that is not blank is a Conventional Commit subject.
pub proof fn law_composed_subject_is_conventional(
    kind: Text,
    scope: Option<Text>,
    breaking: bool,
    description: Text,
)
    requires
        change_types().contains(kind),
        scope matches Some(scope) ==> plain_scope(scope),
        !is_blank(description),
    ensures
        is_conventional_subject(composed_subject(kind, scope, breaking, description)),
{
    let subject = composed_subject(kind, scope, breaking, description);
    let wrapped = match scope {
        Some(scope) => seq!['('] + scope + seq![')'],
        None => Seq::empty(),
    };
    let mark = if breaking {
        seq!['!']
    } else {
        Seq::empty()
    };
    let tail = wrapped + mark + seq![':', ' '] + description;
    lemma_change_type(kind);
    assert(is_scope(wrapped)) by {
        if let Some(inner) = scope {
            assert forall|i: int| 1 <= i < wrapped.len() - 1 implies {
                &&& #[trigger] wrapped[i] != '('
                &&& wrapped[i] != ')'
                &&& !is_control_char(wrapped[i])
            } by {
                assert(wrapped[i] == inner[i - 1]);
            }
        }
    }
    assert(is_breaking_mark(mark));
    assert(is_subject_tail(tail));
    assert(kind =~= subject.subrange(0, kind.len() as int));
    assert(subject.skip(kind.len() as int) =~= tail);
}

/// Every Conventional Commit subject is made of a type of change, an optional
/// scope, an optional mark and a description that is not blank. The law gives
/// them.
pub proof fn law_conventional_subject_is_composed(subject: Text) -> (parts: (
    Text,
    Option<Text>,
    bool,
    Text,
))
    requires
        is_conventional_subject(subject),
    ensures
        change_types().contains(parts.0),
        parts.1 matches Some(scope) ==> plain_scope(scope),
        !is_blank(parts.3),
        subject == composed_subject(parts.0, parts.1, parts.2, parts.3),
{
    let kind = choose|kind: Text|
        {
            &&& #[trigger] is_commit_kind(kind)
            &&& kind.is_prefix_of(subject)
            &&& is_subject_tail(subject.skip(kind.len() as int))
        };
    lemma_change_type(kind);
    let tail = subject.skip(kind.len() as int);
    let (scope, mark, description) = choose|scope: Text, mark: Text, description: Text|
        #![trigger is_scope(scope), is_breaking_mark(mark), is_blank(description)]
        {
            &&& is_scope(scope)
            &&& is_breaking_mark(mark)
            &&& !is_blank(description)
            &&& tail == scope + mark + seq![':', ' '] + description
        };
    let inner = if scope.len() == 0 {
        None
    } else {
        Some(scope.subrange(1, scope.len() - 1))
    };
    let breaking = mark.len() > 0;
    if let Some(text) = inner {
        assert forall|i: int| 0 <= i < text.len() implies {
            &&& #[trigger] text[i] != '('
            &&& text[i] != ')'
            &&& !is_control_char(text[i])
        } by {
            assert(text[i] == scope[i + 1]);
        }
        assert(scope =~= seq!['('] + text + seq![')']);
    } else {
        assert(scope =~= Seq::empty());
    }
    if !breaking {
        assert(mark =~= Seq::empty());
    }
    assert(subject =~= kind + tail);
    (kind, inner, breaking, description)
}

proof fn lemma_change_type(kind: Text)
    ensures
        change_types().contains(kind) <==> is_commit_kind(kind),
{
    let all = change_types();
    assert(all[0] == "feat"@);
    assert(all[1] == "fix"@);
    assert(all[2] == "docs"@);
    assert(all[3] == "test"@);
    assert(all[4] == "refactor"@);
    assert(all[5] == "perf"@);
    assert(all[6] == "build"@);
    assert(all[7] == "ci"@);
    assert(all[8] == "chore"@);
    assert(all[9] == "style"@);
    assert(all[10] == "revert"@);
}

/// The message of a merge that has none names what is merged, after the type of
/// change that the name announces.
pub proof fn law_merge_message(rest: Text)
    ensures
        merge_message("feature/"@ + rest) == "feat"@ + ": merge "@ + ("feature/"@ + rest),
        merge_message("fix/"@ + rest) == "fix"@ + ": merge "@ + ("fix/"@ + rest),
        merge_message("docs/"@ + rest) == "docs"@ + ": merge "@ + ("docs/"@ + rest),
        merge_message("test/"@ + rest) == "test"@ + ": merge "@ + ("test/"@ + rest),
        merge_message("refactor/"@ + rest) == "refactor"@ + ": merge "@ + ("refactor/"@ + rest),
        merge_message("build/"@ + rest) == "build"@ + ": merge "@ + ("build/"@ + rest),
        merge_message("ci/"@ + rest) == "ci"@ + ": merge "@ + ("ci/"@ + rest),
        merge_message("perf/"@ + rest) == "perf"@ + ": merge "@ + ("perf/"@ + rest),
{
    reveal_strlit("feature/");
    reveal_strlit("fix/");
    reveal_strlit("docs/");
    reveal_strlit("test/");
    reveal_strlit("refactor/");
    reveal_strlit("build/");
    reveal_strlit("ci/");
    reveal_strlit("perf/");
    let s0 = "feature/"@ + rest;
    assert("feature/"@ =~= s0.subrange(0, 8));
    let s1 = "fix/"@ + rest;
    assert("fix/"@ =~= s1.subrange(0, 4));
    lemma_not_prefix("feature/"@, s1, 1);
    let s2 = "docs/"@ + rest;
    assert("docs/"@ =~= s2.subrange(0, 5));
    lemma_not_prefix("feature/"@, s2, 0);
    lemma_not_prefix("fix/"@, s2, 0);
    let s3 = "test/"@ + rest;
    assert("test/"@ =~= s3.subrange(0, 5));
    lemma_not_prefix("feature/"@, s3, 0);
    lemma_not_prefix("fix/"@, s3, 0);
    lemma_not_prefix("docs/"@, s3, 0);
    let s4 = "refactor/"@ + rest;
    assert("refactor/"@ =~= s4.subrange(0, 9));
    lemma_not_prefix("feature/"@, s4, 0);
    lemma_not_prefix("fix/"@, s4, 0);
    lemma_not_prefix("docs/"@, s4, 0);
    lemma_not_prefix("test/"@, s4, 0);
    let s5 = "build/"@ + rest;
    assert("build/"@ =~= s5.subrange(0, 6));
    lemma_not_prefix("feature/"@, s5, 0);
    lemma_not_prefix("fix/"@, s5, 0);
    lemma_not_prefix("docs/"@, s5, 0);
    lemma_not_prefix("test/"@, s5, 0);
    lemma_not_prefix("refactor/"@, s5, 0);
    let s6 = "ci/"@ + rest;
    assert("ci/"@ =~= s6.subrange(0, 3));
    lemma_not_prefix("feature/"@, s6, 0);
    lemma_not_prefix("fix/"@, s6, 0);
    lemma_not_prefix("docs/"@, s6, 0);
    lemma_not_prefix("test/"@, s6, 0);
    lemma_not_prefix("refactor/"@, s6, 0);
    lemma_not_prefix("build/"@, s6, 0);
    let s7 = "perf/"@ + rest;
    assert("perf/"@ =~= s7.subrange(0, 5));
    lemma_not_prefix("feature/"@, s7, 0);
    lemma_not_prefix("fix/"@, s7, 0);
    lemma_not_prefix("docs/"@, s7, 0);
    lemma_not_prefix("test/"@, s7, 0);
    lemma_not_prefix("refactor/"@, s7, 0);
    lemma_not_prefix("build/"@, s7, 0);
    lemma_not_prefix("ci/"@, s7, 0);
}

/// The message of the merge of anything else announces a chore.
pub proof fn law_other_merge_message(source: Text)
    requires
        !"feature/"@.is_prefix_of(source),
        !"fix/"@.is_prefix_of(source),
        !"docs/"@.is_prefix_of(source),
        !"test/"@.is_prefix_of(source),
        !"refactor/"@.is_prefix_of(source),
        !"build/"@.is_prefix_of(source),
        !"ci/"@.is_prefix_of(source),
        !"perf/"@.is_prefix_of(source),
    ensures
        merge_message(source) == "chore"@ + ": merge "@ + source,
{
}

proof fn lemma_not_prefix(prefix: Text, s: Text, i: int)
    requires
        0 <= i < prefix.len(),
        i < s.len(),
        prefix[i] != s[i],
    ensures
        !prefix.is_prefix_of(s),
{
    if prefix.is_prefix_of(s) {
        assert(prefix[i] == s.subrange(0, prefix.len() as int)[i]);
    }
}

// ---------------------------------------------------------------------------
// Versions
// ---------------------------------------------------------------------------
/// The number that decimal digits denote.
pub open spec fn denoted(digits: Text) -> nat
    decreases digits.len(),
{
    if digits.len() == 0 {
        0
    } else {
        10 * denoted(digits.drop_last()) + (digits.last() as nat - 48) as nat
    }
}

/// A decimal representation is made of digits, without a leading zero but for
/// zero itself, and denotes its number.
pub proof fn law_decimal_denotes(n: nat)
    ensures
        denoted(decimal(n)) == n,
        is_version_number(decimal(n)),
        n > 0 ==> decimal(n)[0] != '0',
    decreases n,
{
    if n < 10 {
        assert(decimal(n).drop_last() =~= Seq::empty());
        assert(denoted(Seq::empty()) == 0);
    } else {
        law_decimal_denotes(n / 10);
        let init = decimal(n / 10);
        let all = decimal(n);
        assert(all.drop_last() =~= init);
        assert forall|i: int| 0 <= i < all.len() implies '0' <= #[trigger] all[i] <= '9' by {
            if i < init.len() {
                assert(all[i] == init[i]);
            }
        }
        assert(all[0] == init[0]);
    }
}

/// Digits without a leading zero are the decimal representation of what they
/// denote.
proof fn lemma_version_number(part: Text)
    requires
        is_version_number(part),
    ensures
        part == decimal(denoted(part)),
        part.len() > 1 || part[0] != '0' ==> denoted(part) > 0,
    decreases part.len(),
{
    let init = part.drop_last();
    let d = (part.last() as nat - 48) as nat;
    assert('0' <= part[part.len() - 1] <= '9');
    assert(d < 10);
    assert(digit(d) == part.last());
    if part.len() == 1 {
        assert(init =~= Seq::empty());
        assert(denoted(Seq::<char>::empty()) == 0);
        assert(denoted(part) == d);
        assert(part =~= seq![digit(d)]);
    } else {
        assert forall|i: int| 0 <= i < init.len() implies '0' <= #[trigger] init[i] <= '9' by {
            assert(init[i] == part[i]);
        }
        assert(init[0] == part[0]);
        lemma_version_number(init);
        let n = denoted(part);
        assert(n == 10 * denoted(init) + d);
        assert(n / 10 == denoted(init) && n % 10 == d);
        assert(part =~= init.push(part.last()));
    }
}

/// The version of three numbers is the three, with dots between them.
pub open spec fn composed_version(major: nat, minor: nat, patch: nat) -> Text {
    decimal(major) + seq!['.'] + decimal(minor) + seq!['.'] + decimal(patch)
}

proof fn lemma_composed_version(major: nat, minor: nat, patch: nat)
    ensures
        composed_version(major, minor, patch) == join(
            seq![decimal(major), decimal(minor), decimal(patch)],
            seq!['.'],
        ),
{
    let parts = seq![decimal(major), decimal(minor), decimal(patch)];
    let two = parts.drop_last();
    assert(two =~= seq![decimal(major), decimal(minor)]);
    assert(two.drop_last() =~= seq![decimal(major)]);
    assert(join(two.drop_last(), seq!['.']) == decimal(major));
    assert(join(two, seq!['.']) == decimal(major) + seq!['.'] + decimal(minor));
}

/// Every version of three numbers is accepted.
pub proof fn law_composed_version_accepted(major: nat, minor: nat, patch: nat)
    ensures
        semver_verdict(composed_version(major, minor, patch)) is Ok,
{
    let parts = seq![decimal(major), decimal(minor), decimal(patch)];
    lemma_composed_version(major, minor, patch);
    law_decimal_denotes(major);
    law_decimal_denotes(minor);
    law_decimal_denotes(patch);
    assert forall|i: int| 0 <= i < parts.len() implies !(#[trigger] parts[i]).contains('.') by {
        assert(is_version_number(parts[i]));
    }
    law_split_undoes_join(parts, '.');
}

/// Every version that is accepted is one of three numbers. The law gives them.
pub proof fn law_accepted_version_is_composed(version: Text) -> (numbers: (nat, nat, nat))
    requires
        semver_verdict(version) is Ok,
    ensures
        version == composed_version(numbers.0, numbers.1, numbers.2),
{
    let parts = split_on(version, '.');
    law_join_undoes_split(version, '.');
    lemma_version_number(parts[0]);
    lemma_version_number(parts[1]);
    lemma_version_number(parts[2]);
    let numbers = (denoted(parts[0]), denoted(parts[1]), denoted(parts[2]));
    assert(parts =~= seq![decimal(numbers.0), decimal(numbers.1), decimal(numbers.2)]);
    lemma_composed_version(numbers.0, numbers.1, numbers.2);
    numbers
}

} // verus!
