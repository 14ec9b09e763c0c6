//! What a Git command produced, and how it is reported.
use crate::text::{
    ascending, blank, concat, is_blank, signed_decimal, signed_decimal_of, text_before, trim,
    trimmed, Text,
};
use vstd::prelude::*;
use vstd::utf8::{decode_utf8, decode_utf8_encode_utf8, encode_utf8, encode_utf8_decode_utf8,
    encode_utf8_valid_utf8, valid_utf8};

verus! {

/// The result of a Git command, decoded and bounded.
#[derive(Debug)]
pub struct GitOutput {
    /// The exit code, unless a signal ended the command.
    pub exit_code: Option<i32>,
    pub stdout: String,
    pub stderr: String,
    /// Whether one of the two streams was cut at the limit.
    pub truncated: bool,
}

/// The result of a Git command as contracts speak of it.
pub struct OutputView {
    pub exit_code: Option<i32>,
    pub stdout: Text,
    pub stderr: Text,
    pub truncated: bool,
}

impl DeepView for GitOutput {
    type V = OutputView;

    open spec fn deep_view(&self) -> OutputView {
        OutputView {
            exit_code: self.exit_code,
            stdout: self.stdout@,
            stderr: self.stderr@,
            truncated: self.truncated,
        }
    }
}

impl GitOutput {
    /// A copy of the output.
    pub fn duplicate(&self) -> (r: GitOutput)
        ensures
            r.deep_view() == self.deep_view(),
    {
        GitOutput {
            exit_code: self.exit_code,
            stdout: self.stdout.clone(),
            stderr: self.stderr.clone(),
            truncated: self.truncated,
        }
    }
}

// ---------------------------------------------------------------------------
// Decoding
// ---------------------------------------------------------------------------
/// What `String::from_utf8_lossy` makes of a sequence of bytes.
pub uninterp spec fn utf8_lossy(bytes: Seq<u8>) -> Seq<char>;

/// `String::from_utf8_lossy`, made into an owned string. The result depends on
/// the bytes alone and is called `utf8_lossy`; bytes that are valid UTF-8 are
/// decoded as they stand. What replaces the ill-formed parts of other input is
/// left unsaid.
#[verifier::external_body]
pub(crate) fn decode_lossy(bytes: &[u8]) -> (r: String)
    ensures
        r@ == utf8_lossy(bytes@),
        valid_utf8(bytes@) ==> r@ == decode_utf8(bytes@),
{
    String::from_utf8_lossy(bytes).into_owned()
}

/// The text that `bytes` encode, if they are valid UTF-8.
pub fn decode_strict(bytes: &Vec<u8>) -> (r: Option<String>)
    ensures
        r is Some <==> valid_utf8(bytes@),
        r is Some ==> r->0@ == decode_utf8(bytes@),
{
    let text: String = decode_lossy(bytes.as_slice());
    let again: &[u8] = text.as_str().as_bytes();
    proof {
        encode_utf8_valid_utf8(text@);
        encode_utf8_decode_utf8(text@);
        if valid_utf8(bytes@) {
            decode_utf8_encode_utf8(bytes@);
        }
    }
    if again.len() != bytes.len() {
        return None;
    }
    let mut i: usize = 0;
    while i < bytes.len()
        invariant
            again@ == encode_utf8(text@),
            again@.len() == bytes@.len(),
            valid_utf8(bytes@) ==> again@ == bytes@,
            i <= bytes@.len(),
            forall|k: int| 0 <= k < i ==> again@[k] == bytes@[k],
        decreases bytes@.len() - i,
    {
        if again[i] != bytes[i] {
            return None;
        }
        i += 1;
    }
    assert(again@ =~= bytes@);
    Some(text)
}

/// What is appended to a stream that was cut.
pub open spec fn truncation_mark() -> Text {
    "\n[output truncated by MCP Git]\n"@
}

/// `text` with the mark of a cut stream.
pub fn mark_truncated(text: String) -> (r: String)
    ensures
        r@ == text@ + truncation_mark(),
{
    concat(text.as_str(), "\n[output truncated by MCP Git]\n")
}

/// A stream, decoded, of which at most `limit` bytes are kept.
pub open spec fn bounded_text(bytes: Seq<u8>, limit: nat) -> Text {
    if bytes.len() <= limit {
        utf8_lossy(bytes)
    } else {
        utf8_lossy(bytes.take(limit as int)) + truncation_mark()
    }
}

/// Decodes a stream, keeps at most `limit` bytes of it, and notes in
/// `truncated` whether anything was cut.
pub fn bounded_utf8(bytes: Vec<u8>, limit: usize, truncated: &mut bool) -> (r: String)
    ensures
        r@ == bounded_text(bytes@, limit as nat),
        *final(truncated) == (*old(truncated) || bytes@.len() > limit),
{
    if bytes.len() <= limit {
        return decode_lossy(bytes.as_slice());
    }
    *truncated = true;
    let kept: &[u8] = &bytes.as_slice()[0..limit];
    assert(kept@ =~= bytes@.take(limit as int));
    mark_truncated(decode_lossy(kept))
}

// ---------------------------------------------------------------------------
// Failures
// ---------------------------------------------------------------------------
/// `serde_json::Error`, of which nothing is said.
#[verifier::external_type_specification]
#[verifier::external_body]
pub struct ExJsonError(serde_json::Error);

/// What `serde_json::to_string_pretty` makes of a map with these entries.
pub uninterp spec fn pretty_json(fields: Seq<(Seq<char>, Seq<char>)>) -> Option<Seq<char>>;

/// `serde_json::to_string_pretty` on an ordered map from strings to strings,
/// which holds the fields as they stand: their names ascend. The result depends
/// on the entries alone and is called `pretty_json`; it is `None` where
/// serialisation fails. The layout of the text is left unsaid.
#[verifier::external_body]
fn render_json(fields: &Vec<(String, String)>) -> (r: Result<String, serde_json::Error>)
    requires
        ascending(fields.deep_view().map_values(|f: (Text, Text)| f.0)),
    ensures
        match r {
            Ok(text) => pretty_json(fields.deep_view()) == Some(text@),
            Err(_) => pretty_json(fields.deep_view()) is None,
        },
{
    let map: std::collections::BTreeMap<&String, &String> =
        fields.iter().map(|field| (&field.0, &field.1)).collect();
    serde_json::to_string_pretty(&map)
}

/// The exit code as text.
pub open spec fn exit_code_text(exit_code: Option<i32>) -> Text {
    match exit_code {
        Some(code) => signed_decimal(code as int),
        None => "signal"@,
    }
}

/// What is reported of a command that failed: its exit code, and each of the
/// two streams that is not blank, trimmed.
pub open spec fn failure_fields(output: OutputView) -> Seq<(Text, Text)> {
    let code = seq![("exit_code"@, exit_code_text(output.exit_code))];
    let stderr = if is_blank(output.stderr) {
        Seq::empty()
    } else {
        seq![("stderr"@, trim(output.stderr))]
    };
    let stdout = if is_blank(output.stdout) {
        Seq::empty()
    } else {
        seq![("stdout"@, trim(output.stdout))]
    };
    code + stderr + stdout
}

/// The fields that are reported of a command that failed.
pub fn fields_of_failure(output: &GitOutput) -> (r: Vec<(String, String)>)
    ensures
        r.deep_view() == failure_fields(output.deep_view()),
{
    let code: String = match output.exit_code {
        Some(code) => signed_decimal_of(code),
        None => "signal".to_owned(),
    };
    let mut fields: Vec<(String, String)> = vec![("exit_code".to_owned(), code)];
    let ghost one = fields.deep_view();
    assert(one =~= seq![("exit_code"@, exit_code_text(output.exit_code))]);
    if !blank(output.stderr.as_str()) {
        fields.push(("stderr".to_owned(), trimmed(output.stderr.as_str())));
        assert(fields.deep_view() =~= one + seq![("stderr"@, trim(output.stderr@))]);
    } else {
        assert(one =~= one + Seq::<(Text, Text)>::empty());
    }
    let ghost two = fields.deep_view();
    if !blank(output.stdout.as_str()) {
        fields.push(("stdout".to_owned(), trimmed(output.stdout.as_str())));
        assert(fields.deep_view() =~= two + seq![("stdout"@, trim(output.stdout@))]);
    } else {
        assert(two =~= two + Seq::<(Text, Text)>::empty());
    }
    fields
}

/// The report, given how its fields were rendered.
pub open spec fn failure_report(rendered: Option<Text>) -> Text {
    match rendered {
        Some(text) => text,
        None => "git command failed"@,
    }
}

/// The report, given how its fields were rendered.
pub fn report_of_failure(rendered: Option<String>) -> (r: String)
    ensures
        r@ == failure_report(rendered.deep_view()),
{
    match rendered {
        Some(text) => text,
        None => "git command failed".to_owned(),
    }
}

/// The report of a command that failed.
pub open spec fn failure_text(output: OutputView) -> Text {
    failure_report(pretty_json(failure_fields(output)))
}

/// The report of a command that failed, as a JSON object.
pub fn format_git_failure(output: &GitOutput) -> (r: String)
    ensures
        r@ == failure_text(output.deep_view()),
{
    let fields: Vec<(String, String)> = fields_of_failure(output);
    proof {
        reveal_strlit("exit_code");
        reveal_strlit("stderr");
        reveal_strlit("stdout");
        reveal_with_fuel(text_before, 4);
        let keys = fields.deep_view().map_values(|f: (Text, Text)| f.0);
        assert(text_before("exit_code"@, "stderr"@));
        assert(text_before("exit_code"@, "stdout"@));
        assert(text_before("stderr"@, "stdout"@));
        assert(ascending(keys));
    }
    match render_json(&fields) {
        Ok(text) => report_of_failure(Some(text)),
        Err(_) => report_of_failure(None),
    }
}

} // verus!
