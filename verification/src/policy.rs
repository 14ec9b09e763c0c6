//! The naming and message rules: which tokens, object names, versions and
//! commit messages are accepted.
use crate::text::{
    byte_len, chars_of, concat, concat3, contains_char, contains_control, contains_text,
    control_char, first_line, first_line_of, has_control, is_blank, is_control_char, blank,
    blank_from, length_in_bytes, lemma_byte_len_concat, lemma_split_whole, lines, split_on,
    split_text, starts_with, starts_with_at, string_of, text_occurs, Text,
};
use vstd::prelude::*;

verus! {

/// The longest commit or tag message, in bytes.
pub const MAX_COMMIT_MESSAGE_BYTES: usize = 16_384;

/// The longest branch, tag, remote or revision name, in bytes.
pub const MAX_TOKEN_BYTES: usize = 1_024;

/// What a fallible function reports, with its strings taken as text.
pub open spec fn outcome<T: DeepView>(r: Result<T, String>) -> Result<T::V, Text> {
    match r {
        Ok(v) => Ok(v.deep_view()),
        Err(e) => Err(e@),
    }
}

// ---------------------------------------------------------------------------
// Tokens
// ---------------------------------------------------------------------------
/// A name that may stand on a Git command line: not empty, bounded, free of
/// control characters, and not to be mistaken for an option.
pub open spec fn is_token(value: Text) -> bool {
    &&& value.len() > 0
    &&& byte_len(value) <= MAX_TOKEN_BYTES
    &&& value[0] != '-'
    &&& !has_control(value)
}

/// What `validate_token` reports.
pub open spec fn token_verdict(kind: Text, value: Text) -> Result<(), Text> {
    if is_token(value) {
        Ok(())
    } else {
        Err("invalid "@ + kind)
    }
}

/// Accepts exactly the tokens.
pub fn validate_token(kind: &str, value: &str) -> (r: Result<(), String>)
    ensures
        outcome(r) == token_verdict(kind@, value@),
{
    let chars: Vec<char> = chars_of(value);
    if chars.len() == 0 || length_in_bytes(value) > MAX_TOKEN_BYTES || chars[0] == '-'
        || contains_control(&chars) {
        return Err(concat("invalid ", kind));
    }
    Ok(())
}

/// A revision must be a token.
pub fn validate_revision(value: &str) -> (r: Result<(), String>)
    ensures
        outcome(r) == token_verdict("revision"@, value@),
{
    validate_token("revision", value)
}

/// A refspec that asks for a forced update.
pub open spec fn is_forced_refspec(value: Text) -> bool {
    value[0] == '+' || contains_text(value, "--force"@)
}

/// What `validate_refspec` reports.
pub open spec fn refspec_verdict(value: Text) -> Result<(), Text> {
    if !is_token(value) {
        Err("invalid "@ + "refspec"@)
    } else if is_forced_refspec(value) {
        Err("force push refspecs are not allowed"@)
    } else {
        Ok(())
    }
}

/// Accepts the tokens that do not ask for a forced update.
pub fn validate_refspec(value: &str) -> (r: Result<(), String>)
    ensures
        outcome(r) == refspec_verdict(value@),
{
    validate_token("refspec", value)?;
    let chars: Vec<char> = chars_of(value);
    if chars[0] == '+' || text_occurs(value, "--force") {
        return Err("force push refspecs are not allowed".to_owned());
    }
    Ok(())
}

// ---------------------------------------------------------------------------
// Object names
// ---------------------------------------------------------------------------
/// A hexadecimal digit of either case.
pub open spec fn is_hex_digit(c: char) -> bool {
    ||| '0' <= c <= '9'
    ||| 'a' <= c <= 'f'
    ||| 'A' <= c <= 'F'
}

fn hex_digit(c: char) -> (r: bool)
    ensures
        r == is_hex_digit(c),
{
    ('0' <= c && c <= '9') || ('a' <= c && c <= 'f') || ('A' <= c && c <= 'F')
}

/// A full object name: 40 or 64 hexadecimal digits.
pub open spec fn is_object_id(value: Text) -> bool {
    &&& value.len() == 40 || value.len() == 64
    &&& forall|i: int| 0 <= i < value.len() ==> is_hex_digit(#[trigger] value[i])
}

/// What `validate_object_id` reports.
pub open spec fn object_id_verdict(value: Text) -> Result<(), Text> {
    if is_object_id(value) {
        Ok(())
    } else {
        Err("invalid object id returned by Git"@)
    }
}

/// Accepts exactly the full object names.
pub fn validate_object_id(value: &str) -> (r: Result<(), String>)
    ensures
        outcome(r) == object_id_verdict(value@),
{
    let chars: Vec<char> = chars_of(value);
    if chars.len() != 40 && chars.len() != 64 {
        return Err("invalid object id returned by Git".to_owned());
    }
    let mut i: usize = 0;
    while i < chars.len()
        invariant
            chars@ == value@,
            i <= chars@.len(),
            forall|k: int| 0 <= k < i ==> is_hex_digit(#[trigger] value@[k]),
        decreases chars@.len() - i,
    {
        if !hex_digit(chars[i]) {
            assert(!is_hex_digit(value@[i as int]));
            return Err("invalid object id returned by Git".to_owned());
        }
        i += 1;
    }
    Ok(())
}

// ---------------------------------------------------------------------------
// Commit messages
// ---------------------------------------------------------------------------
/// A message that Git is given: not blank, bounded, without NUL and without
/// carriage returns.
pub open spec fn is_commit_message(message: Text) -> bool {
    &&& !is_blank(message)
    &&& byte_len(message) <= MAX_COMMIT_MESSAGE_BYTES
    &&& !message.contains('\0')
    &&& !message.contains('\r')
}

/// What `validate_commit_message` reports.
pub open spec fn message_verdict(message: Text) -> Result<(), Text> {
    if is_commit_message(message) {
        Ok(())
    } else {
        Err("commit message must be 1..16384 bytes and must not contain NUL or CR"@)
    }
}

/// Accepts exactly the commit messages.
pub fn validate_commit_message(message: &str) -> (r: Result<(), String>)
    ensures
        outcome(r) == message_verdict(message@),
{
    let chars: Vec<char> = chars_of(message);
    if blank(message) || length_in_bytes(message) > MAX_COMMIT_MESSAGE_BYTES || contains_char(
        &chars,
        '\0',
    ) || contains_char(&chars, '\r') {
        return Err(
            "commit message must be 1..16384 bytes and must not contain NUL or CR".to_owned(),
        );
    }
    Ok(())
}

/// What `validate_conventional_commit_message` reports.
pub open spec fn conventional_verdict(message: Text) -> Result<(), Text> {
    if !is_commit_message(message) {
        message_verdict(message)
    } else if is_conventional_subject(first_line(message)) {
        Ok(())
    } else {
        Err("commit subject must follow Conventional Commits 1.0.0"@)
    }
}

/// Accepts the commit messages whose first line is a Conventional Commit
/// subject.
pub fn validate_conventional_commit_message(message: &str) -> (r: Result<(), String>)
    ensures
        outcome(r) == conventional_verdict(message@),
{
    validate_commit_message(message)?;
    let subject: String = first_line_of(message);
    if !is_conventional_commit_subject(subject.as_str()) {
        return Err("commit subject must follow Conventional Commits 1.0.0".to_owned());
    }
    Ok(())
}

/// The types of change that a Conventional Commit may declare.
pub open spec fn is_commit_kind(kind: Text) -> bool {
    ||| kind == "feat"@
    ||| kind == "fix"@
    ||| kind == "docs"@
    ||| kind == "test"@
    ||| kind == "refactor"@
    ||| kind == "perf"@
    ||| kind == "build"@
    ||| kind == "ci"@
    ||| kind == "chore"@
    ||| kind == "style"@
    ||| kind == "revert"@
}

/// An optional scope: nothing, or a non-empty text in parentheses that holds
/// neither parentheses nor control characters.
pub open spec fn is_scope(scope: Text) -> bool {
    ||| scope.len() == 0
    ||| {
        &&& scope.len() > 2
        &&& scope[0] == '('
        &&& scope.last() == ')'
        &&& forall|i: int|
            1 <= i < scope.len() - 1 ==> {
                &&& #[trigger] scope[i] != '('
                &&& scope[i] != ')'
                &&& !is_control_char(scope[i])
            }
    }
}

/// An optional breaking-change mark.
pub open spec fn is_breaking_mark(mark: Text) -> bool {
    mark.len() == 0 || mark == seq!['!']
}

/// `tail` is an optional scope, an optional `!`, a colon, a space and a
/// description that is not blank.
pub open spec fn is_subject_tail(tail: Text) -> bool {
    exists|scope: Text, mark: Text, description: Text|
        #![trigger is_scope(scope), is_breaking_mark(mark), is_blank(description)]
        {
            &&& is_scope(scope)
            &&& is_breaking_mark(mark)
            &&& !is_blank(description)
            &&& tail == scope + mark + seq![':', ' '] + description
        }
}

/// A Conventional Commit subject: a type of change followed by its tail.
pub open spec fn is_conventional_subject(subject: Text) -> bool {
    exists|kind: Text|
        {
            &&& #[trigger] is_commit_kind(kind)
            &&& kind.is_prefix_of(subject)
            &&& is_subject_tail(subject.skip(kind.len() as int))
        }
}

/// No type of change is the beginning of another.
pub proof fn lemma_kinds_prefix_free(a: Text, b: Text, subject: Text)
    requires
        is_commit_kind(a),
        is_commit_kind(b),
        a.is_prefix_of(subject),
        b.is_prefix_of(subject),
    ensures
        a == b,
{
    reveal_strlit("feat");
    reveal_strlit("fix");
    reveal_strlit("docs");
    reveal_strlit("test");
    reveal_strlit("refactor");
    reveal_strlit("perf");
    reveal_strlit("build");
    reveal_strlit("ci");
    reveal_strlit("chore");
    reveal_strlit("style");
    reveal_strlit("revert");
    assert(a.len() >= 2 && b.len() >= 2);
    assert(a[0] == subject[0] && b[0] == subject[0]);
    assert(a[1] == subject[1] && b[1] == subject[1]);
    if a.len() > 2 && b.len() > 2 {
        assert(a[2] == subject[2] && b[2] == subject[2]);
    }
}

/// What the decomposition of a tail fixes: where the scope ends, whether the
/// mark is there, and what the description is.
proof fn lemma_tail_parts(tail: Text, scope: Text, mark: Text, description: Text)
    requires
        is_scope(scope),
        is_breaking_mark(mark),
        !is_blank(description),
        tail == scope + mark + seq![':', ' '] + description,
    ensures
        tail.len() > scope.len() + mark.len() + 2,
        scope.len() > 0 <==> tail[0] == '(',
        forall|k: int| 0 <= k < scope.len() ==> tail[k] == scope[k],
        scope.len() > 0 ==> (forall|k: int| 0 <= k < scope.len() - 1 ==> tail[k] != ')'),
        mark.len() > 0 <==> tail[scope.len() as int] == '!',
        tail[(scope.len() + mark.len()) as int] == ':',
        tail[(scope.len() + mark.len() + 1) as int] == ' ',
        tail.skip((scope.len() + mark.len() + 2) as int) == description,
{
    assert(description.len() > 0);
    assert(tail.skip((scope.len() + mark.len() + 2) as int) =~= description);
    assert forall|k: int| 0 <= k < scope.len() implies tail[k] == scope[k] by {}
    if scope.len() > 0 {
        assert forall|k: int| 0 <= k < scope.len() - 1 implies tail[k] != ')' by {
            assert(tail[k] == scope[k]);
        }
        assert(tail[0] == scope[0]);
    }
    assert(tail[scope.len() as int] == (mark + seq![':', ' '] + description)[0]);
}

/// Whether `s[from..]` is the tail of a Conventional Commit subject.
fn subject_tail(s: &Vec<char>, from: usize) -> (r: bool)
    requires
        from <= s@.len(),
    ensures
        r == is_subject_tail(s@.skip(from as int)),
{
    let ghost tail = s@.skip(from as int);
    let mut end: usize = from;
    if from < s.len() && s[from] == '(' {
        // The scope runs to the first closing parenthesis.
        let mut close: usize = from;
        while close < s.len() && s[close] != ')'
            invariant
                from <= close <= s@.len(),
                tail == s@.skip(from as int),
                forall|k: int| 0 <= k < close - from ==> #[trigger] tail[k] != ')',
            decreases s@.len() - close,
        {
            assert(tail[close - from] == s@[close as int]);
            close += 1;
        }
        if close == s.len() {
            proof {
                if is_subject_tail(tail) {
                    let (scope, mark, description) = choose|
                        scope: Text,
                        mark: Text,
                        description: Text,
                    |
                        #![trigger is_scope(scope), is_breaking_mark(mark), is_blank(description)]
                        is_scope(scope) && is_breaking_mark(mark) && !is_blank(description) && tail
                            == scope + mark + seq![':', ' '] + description;
                    lemma_tail_parts(tail, scope, mark, description);
                    assert(tail[0] == '(');
                    assert(tail[scope.len() - 1] == ')');
                    assert(false);
                }
            }
            return false;
        }
        assert(tail[close - from] == ')');
        assert(tail[0] == '(');
        let mut i: usize = from + 1;
        let mut sound: bool = true;
        while i < close
            invariant
                from < i,
                i <= close || close == from,
                close < s@.len(),
                tail == s@.skip(from as int),
                sound ==> forall|k: int|
                    1 <= k < i - from ==> #[trigger] tail[k] != '(' && !is_control_char(tail[k]),
                !sound ==> (exists|k: int|
                    1 <= k < close - from && (#[trigger] tail[k] == '(' || is_control_char(tail[k]))),
            decreases close - i,
        {
            assert(tail[i - from] == s@[i as int]);
            if s[i] == '(' || control_char(s[i]) {
                sound = false;
            }
            i += 1;
        }
        if !sound || close == from + 1 {
            proof {
                if is_subject_tail(tail) {
                    let (scope, mark, description) = choose|
                        scope: Text,
                        mark: Text,
                        description: Text,
                    |
                        #![trigger is_scope(scope), is_breaking_mark(mark), is_blank(description)]
                        is_scope(scope) && is_breaking_mark(mark) && !is_blank(description) && tail
                            == scope + mark + seq![':', ' '] + description;
                    lemma_tail_parts(tail, scope, mark, description);
                    assert(scope.len() - 1 == close - from);
                    if !sound {
                        let k = choose|k: int|
                            1 <= k < close - from && (#[trigger] tail[k] == '(' || is_control_char(
                                tail[k],
                            ));
                        assert(tail[k] == scope[k]);
                    }
                    assert(false);
                }
            }
            return false;
        }
        end = close + 1;
    }
    let ghost scope = tail.take(end - from);
    assert(is_scope(scope)) by {
        if end > from {
            assert forall|i: int| 1 <= i < scope.len() - 1 implies {
                &&& #[trigger] scope[i] != '('
                &&& scope[i] != ')'
                &&& !is_control_char(scope[i])
            } by {
                assert(scope[i] == tail[i]);
            }
        }
    }
    let mut colon: usize = end;
    if end < s.len() && s[end] == '!' {
        colon = end + 1;
    }
    let ghost mark = tail.subrange(end - from, colon - from);
    assert(is_breaking_mark(mark)) by {
        if colon > end {
            assert(mark =~= seq!['!']);
        }
    }
    // Whatever decomposition there is, it is this one.
    proof {
        if is_subject_tail(tail) {
            let (sc, mk, description) = choose|scope: Text, mark: Text, description: Text|
                #![trigger is_scope(scope), is_breaking_mark(mark), is_blank(description)]
                is_scope(scope) && is_breaking_mark(mark) && !is_blank(description) && tail == scope
                    + mark + seq![':', ' '] + description;
            lemma_tail_parts(tail, sc, mk, description);
            if end > from {
                assert(tail[sc.len() - 1] == ')');
                assert(sc.len() == end - from);
            } else {
                assert(sc.len() == 0);
            }
            assert(tail[end - from] == s@[end as int]);
            assert(mk.len() == colon - end);
            assert(tail[colon - from] == s@[colon as int]);
            assert(tail[colon - from + 1] == s@[colon + 1]);
            assert(tail.skip(colon - from + 2) =~= s@.skip(colon + 2));
        }
    }
    if s.len() - colon < 2 || s[colon] != ':' || s[colon + 1] != ' ' {
        return false;
    }
    let blank_rest: bool = blank_from(s, colon + 2);
    proof {
        let description = s@.skip(colon + 2);
        assert(tail =~= scope + mark + seq![':', ' '] + description);
        if !blank_rest {
            assert(is_subject_tail(tail));
        }
    }
    !blank_rest
}

/// The length of the type of change with which `s` starts, if it does.
fn kind_length(s: &Vec<char>) -> (r: Option<usize>)
    ensures
        match r {
            Some(n) => n <= s@.len() && is_commit_kind(s@.take(n as int)),
            None => forall|kind: Text|
                #[trigger] is_commit_kind(kind) ==> !kind.is_prefix_of(s@),
        },
{
    assert(s@.skip(0) =~= s@);
    let kinds: [&str; 11] = [
        "feat",
        "fix",
        "docs",
        "test",
        "refactor",
        "perf",
        "build",
        "ci",
        "chore",
        "style",
        "revert",
    ];
    let mut i: usize = 0;
    while i < 11
        invariant
            s@.skip(0) == s@,
            i <= 11,
            kinds@ == seq![
                "feat",
                "fix",
                "docs",
                "test",
                "refactor",
                "perf",
                "build",
                "ci",
                "chore",
                "style",
                "revert",
            ],
            forall|k: int| 0 <= k < i ==> !(#[trigger] kinds@[k])@.is_prefix_of(s@),
        decreases 11 - i,
    {
        if starts_with_at(s, 0, kinds[i]) {
            let kind: Vec<char> = chars_of(kinds[i]);
            assert(kind@ == kinds@[i as int]@);
            assert(s@.take(kind@.len() as int) =~= kind@);
            assert(is_commit_kind(kind@));
            return Some(kind.len());
        }
        i += 1;
    }
    assert forall|kind: Text| #[trigger] is_commit_kind(kind) implies !kind.is_prefix_of(s@) by {
        assert(kinds@[0]@ == "feat"@ && kinds@[1]@ == "fix"@ && kinds@[2]@ == "docs"@ && kinds@[3]@
            == "test"@ && kinds@[4]@ == "refactor"@ && kinds@[5]@ == "perf"@ && kinds@[6]@
            == "build"@ && kinds@[7]@ == "ci"@ && kinds@[8]@ == "chore"@ && kinds@[9]@ == "style"@
            && kinds@[10]@ == "revert"@);
    }
    None
}

/// Whether `subject` is a Conventional Commit subject.
pub fn is_conventional_commit_subject(subject: &str) -> (r: bool)
    ensures
        r == is_conventional_subject(subject@),
{
    let chars: Vec<char> = chars_of(subject);
    match kind_length(&chars) {
        Some(n) => {
            let ghost kind = subject@.take(n as int);
            let tail: bool = subject_tail(&chars, n);
            proof {
                assert(kind.is_prefix_of(subject@));
                assert(kind.len() == n);
                if is_conventional_subject(subject@) {
                    let other = choose|other: Text|
                        #[trigger] is_commit_kind(other) && other.is_prefix_of(subject@)
                            && is_subject_tail(subject@.skip(other.len() as int));
                    lemma_kinds_prefix_free(kind, other, subject@);
                }
            }
            tail
        },
        None => false,
    }
}

// ---------------------------------------------------------------------------
// Versions
// ---------------------------------------------------------------------------
/// A number of a version: decimal digits without a leading zero.
pub open spec fn is_version_number(part: Text) -> bool {
    &&& part.len() > 0
    &&& forall|i: int| 0 <= i < part.len() ==> '0' <= #[trigger] part[i] <= '9'
    &&& part.len() > 1 ==> part[0] != '0'
}

/// A plain `MAJOR.MINOR.PATCH` version.
pub open spec fn is_semver_core(version: Text) -> bool {
    let parts = split_on(version, '.');
    &&& parts.len() == 3
    &&& is_version_number(parts[0])
    &&& is_version_number(parts[1])
    &&& is_version_number(parts[2])
}

/// What `validate_semver_core` reports.
pub open spec fn semver_verdict(version: Text) -> Result<(), Text> {
    if is_semver_core(version) {
        Ok(())
    } else {
        Err(
            "version must be plain MAJOR.MINOR.PATCH with numeric components and no leading zeroes"@,
        )
    }
}

fn version_number(part: &str) -> (r: bool)
    ensures
        r == is_version_number(part@),
{
    let chars: Vec<char> = chars_of(part);
    if chars.len() == 0 || (chars.len() > 1 && chars[0] == '0') {
        return false;
    }
    let mut i: usize = 0;
    while i < chars.len()
        invariant
            chars@ == part@,
            i <= chars@.len(),
            forall|k: int| 0 <= k < i ==> '0' <= #[trigger] part@[k] <= '9',
        decreases chars@.len() - i,
    {
        if chars[i] < '0' || '9' < chars[i] {
            assert(!('0' <= part@[i as int] <= '9'));
            return false;
        }
        i += 1;
    }
    true
}

/// Accepts exactly the plain versions.
pub fn validate_semver_core(version: &str) -> (r: Result<(), String>)
    ensures
        outcome(r) == semver_verdict(version@),
{
    let parts: Vec<String> = split_text(version, '.');
    assert(parts.deep_view().len() == parts@.len());
    if parts.len() == 3 {
        assert(parts.deep_view()[0] == parts@[0]@);
        assert(parts.deep_view()[1] == parts@[1]@);
        assert(parts.deep_view()[2] == parts@[2]@);
        if version_number(parts[0].as_str()) && version_number(parts[1].as_str()) && version_number(
            parts[2].as_str(),
        ) {
            return Ok(());
        }
    }
    Err(
        "version must be plain MAJOR.MINOR.PATCH with numeric components and no leading zeroes".to_owned(),
    )
}

/// The subject of the commit that prepares the release of `version`.
pub open spec fn release_subject(version: Text) -> Text {
    "chore(release): prepare v"@ + version
}

/// The subject of the commit that prepares the release of `version`.
pub fn expected_release_subject(version: &str) -> (r: String)
    ensures
        r@ == release_subject(version@),
{
    concat("chore(release): prepare v", version)
}

/// `subject` prepares the release of some plain version.
pub open spec fn is_release_subject(subject: Text) -> bool {
    exists|version: Text| #[trigger] is_semver_core(version) && subject == release_subject(version)
}

/// Whether `subject` prepares the release of a plain version.
pub fn is_release_commit_subject(subject: &str) -> (r: bool)
    ensures
        r == is_release_subject(subject@),
{
    let prefix: &str = "chore(release): prepare v";
    let ghost n = prefix@.len() as int;
    if !starts_with(subject, prefix) {
        proof {
            assert forall|version: Text| subject@ == release_subject(version) implies false by {
                assert(prefix@ =~= subject@.subrange(0, n));
            }
        }
        return false;
    }
    let chars: Vec<char> = chars_of(subject);
    let skip: Vec<char> = chars_of(prefix);
    let version: String = string_of(&chars, skip.len(), chars.len());
    let valid: bool = validate_semver_core(version.as_str()).is_ok();
    proof {
        assert(subject@ =~= release_subject(version@));
        assert forall|other: Text| subject@ == release_subject(other) implies other == version@ by {
            assert(other =~= subject@.skip(n));
            assert(version@ =~= subject@.skip(n));
        }
        if valid {
            assert(is_semver_core(version@));
        }
    }
    valid
}

// ---------------------------------------------------------------------------
// Merge messages
// ---------------------------------------------------------------------------
/// The type of change that the name of a work branch announces.
pub open spec fn merge_kind(source: Text) -> Text {
    if "feature/"@.is_prefix_of(source) {
        "feat"@
    } else if "fix/"@.is_prefix_of(source) {
        "fix"@
    } else if "docs/"@.is_prefix_of(source) {
        "docs"@
    } else if "test/"@.is_prefix_of(source) {
        "test"@
    } else if "refactor/"@.is_prefix_of(source) {
        "refactor"@
    } else if "build/"@.is_prefix_of(source) {
        "build"@
    } else if "ci/"@.is_prefix_of(source) {
        "ci"@
    } else if "perf/"@.is_prefix_of(source) {
        "perf"@
    } else {
        "chore"@
    }
}

/// The message of the merge of `source` when none is given.
pub open spec fn merge_message(source: Text) -> Text {
    merge_kind(source) + ": merge "@ + source
}

/// The message of the merge of `source` when none is given.
pub fn conventional_merge_message(source: &str) -> (r: String)
    ensures
        r@ == merge_message(source@),
{
    let kind: &str = if starts_with(source, "feature/") {
        "feat"
    } else if starts_with(source, "fix/") {
        "fix"
    } else if starts_with(source, "docs/") {
        "docs"
    } else if starts_with(source, "test/") {
        "test"
    } else if starts_with(source, "refactor/") {
        "refactor"
    } else if starts_with(source, "build/") {
        "build"
    } else if starts_with(source, "ci/") {
        "ci"
    } else if starts_with(source, "perf/") {
        "perf"
    } else {
        "chore"
    };
    concat3(kind, ": merge ", source)
}

// ---------------------------------------------------------------------------
// How the rules fit together
// ---------------------------------------------------------------------------
/// The message derived from the name of whatever is merged reads as a
/// Conventional Commit subject.
pub proof fn law_merge_message_reads_as_subject(source: Text)
    ensures
        is_conventional_subject(merge_message(source)),
{
    let kind = merge_kind(source);
    let link = ": merge "@;
    let message = merge_message(source);
    reveal_strlit(": merge ");
    lemma_merge_kind(source);
    let tail = message.skip(kind.len() as int);
    let description = tail.skip(2);
    let none = Seq::<char>::empty();
    assert(tail =~= link + source);
    assert(description[0] == 'm');
    assert(is_scope(none) && is_breaking_mark(none) && !is_blank(description));
    assert(tail =~= none + none + seq![':', ' '] + description);
    assert(is_subject_tail(tail));
    assert(kind.is_prefix_of(message));
}

/// The message derived from any branch name that is a token is accepted as a
/// Conventional Commit message. Other names may make it too long, or bring
/// control characters into it.
pub proof fn law_merge_message_is_conventional(source: Text)
    requires
        is_token(source),
    ensures
        conventional_verdict(merge_message(source)) == Ok::<(), Text>(()),
{
    let kind = merge_kind(source);
    let link = ": merge "@;
    let message = merge_message(source);
    reveal_strlit(": merge ");
    lemma_merge_kind(source);
    lemma_byte_len_concat(kind + link, source);
    lemma_byte_len_concat(kind, link);
    lemma_byte_len_bound(kind);
    lemma_byte_len_bound(link);
    assert forall|i: int| 0 <= i < message.len() implies !is_control_char(#[trigger] message[i]) by {
        if i < kind.len() {
            assert(message[i] == kind[i]);
        } else if i < kind.len() + link.len() {
            assert(message[i] == link[i - kind.len()]);
        } else {
            assert(message[i] == source[i - kind.len() - link.len()]);
        }
    }
    assert(message[kind.len() as int] == ':');
    assert(!is_blank(message));
    lemma_single_line(message);
    law_merge_message_reads_as_subject(source);
}

/// The commit that prepares a release satisfies the Conventional Commit rule
/// as well.
pub proof fn law_release_subject_is_conventional(subject: Text)
    requires
        is_release_subject(subject),
    ensures
        is_conventional_subject(subject),
{
    let version = choose|version: Text| #[trigger]
        is_semver_core(version) && subject == release_subject(version);
    let kind = "chore"@;
    let lead = "chore(release): prepare v"@;
    reveal_strlit("chore");
    reveal_strlit("chore(release): prepare v");
    let tail = subject.skip(5);
    let scope = tail.take(9);
    let none = Seq::<char>::empty();
    let description = tail.skip(11);
    assert(is_commit_kind(kind));
    assert(kind =~= subject.subrange(0, 5));
    assert forall|i: int| 1 <= i < scope.len() - 1 implies {
        &&& #[trigger] scope[i] != '('
        &&& scope[i] != ')'
        &&& !is_control_char(scope[i])
    } by {
        assert(scope[i] == lead[i + 5]);
    }
    assert(scope[0] == lead[5] && scope[8] == lead[13]);
    assert(description[0] == lead[16]);
    assert(is_scope(scope) && is_breaking_mark(none) && !is_blank(description));
    assert(tail[9] == lead[14] && tail[10] == lead[15]);
    assert(tail =~= scope + none + seq![':', ' '] + description);
    assert(is_subject_tail(tail));
}

/// The exact subject expected for a plain version is one that prepares a
/// release, of that version and of no other.
pub proof fn law_expected_release_subject(version: Text, other: Text)
    requires
        is_semver_core(version),
    ensures
        is_release_subject(release_subject(version)),
        release_subject(version) == release_subject(other) ==> version == other,
{
    let lead = "chore(release): prepare v"@;
    assert(release_subject(version).skip(lead.len() as int) =~= version);
    assert(release_subject(other).skip(lead.len() as int) =~= other);
}

/// The full name of an object may stand on a Git command line.
pub proof fn law_object_id_is_token(value: Text)
    requires
        is_object_id(value),
    ensures
        is_token(value),
{
    lemma_byte_len_bound(value);
    assert(is_hex_digit(value[0]));
    if has_control(value) {
        let i = choose|i: int| 0 <= i < value.len() && is_control_char(#[trigger] value[i]);
        assert(is_hex_digit(value[i]));
    }
}

/// An accepted refspec cannot ask for a forced update.
pub proof fn law_accepted_refspec_is_not_forced(value: Text)
    requires
        refspec_verdict(value) is Ok,
    ensures
        is_token(value),
        value[0] != '+',
        !contains_text(value, "--force"@),
{
}

proof fn lemma_merge_kind(source: Text)
    ensures
        is_commit_kind(merge_kind(source)),
        merge_kind(source).len() <= 8,
        forall|i: int|
            0 <= i < merge_kind(source).len() ==> !is_control_char(#[trigger] merge_kind(source)[i]),
{
    reveal_strlit("feat");
    reveal_strlit("fix");
    reveal_strlit("docs");
    reveal_strlit("test");
    reveal_strlit("refactor");
    reveal_strlit("perf");
    reveal_strlit("build");
    reveal_strlit("ci");
    reveal_strlit("chore");
}

/// A scalar value takes at most four bytes.
proof fn lemma_byte_len_bound(s: Text)
    ensures
        byte_len(s) <= 4 * s.len(),
    decreases s.len(),
{
    if s.len() > 0 {
        lemma_byte_len_bound(s.drop_first());
    }
}

/// A text without line feeds is its own and only line.
proof fn lemma_single_line(s: Text)
    requires
        s.len() > 0,
        !has_control(s),
    ensures
        first_line(s) == s,
{
    lemma_split_whole(s, '\n');
    let pieces = split_on(s, '\n');
    assert(pieces.drop_last() =~= Seq::<Text>::empty());
    assert(lines(s) =~= seq![s]);
}

} // verus!
