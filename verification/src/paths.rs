//! Paths. Selectors and repository-relative paths are text; the paths that the
//! file system reports are bytes. How both are taken apart and put together
//! depends on the system.
use crate::policy::outcome;
use crate::text::{
    byte_len, chars_of, concat, concat3, contains_control, has_control, join, lemma_split_not_empty,
    lemma_split_whole, length_in_bytes, replace_char, replaced_char, same_text, split_on, split_text,
    Text,
};
use vstd::prelude::*;
use vstd::utf8::encode_utf8;

verus! {

/// The longest path that is accepted, in bytes.
pub const MAX_PATH_BYTES: usize = 4_096;

/// The most paths that one operation accepts.
pub const MAX_PATHS: usize = 1_024;

// ---------------------------------------------------------------------------
// Systems
// ---------------------------------------------------------------------------
/// How paths are written.
#[derive(Debug, Clone, Copy, PartialEq, Eq, Structural)]
pub enum PathStyle {
    /// `/` separates the parts of a path.
    Unix,
    /// `\` separates the parts of a path, and where people write one, so does
    /// `/`. A path may name a drive.
    Windows,
}

/// What stands between the parts of a path.
pub open spec fn separator(style: PathStyle) -> Text {
    match style {
        PathStyle::Unix => "/"@,
        PathStyle::Windows => "\\"@,
    }
}

/// What stands between the parts of a path.
pub fn separator_of(style: PathStyle) -> (r: &'static str)
    ensures
        r@ == separator(style),
{
    match style {
        PathStyle::Unix => "/",
        PathStyle::Windows => "\\",
    }
}

/// What stands between the names of a path of the file system.
pub open spec fn separator_byte(style: PathStyle) -> u8 {
    match style {
        PathStyle::Unix => 47u8,
        PathStyle::Windows => 92u8,
    }
}

/// What stands between the names of a path of the file system.
pub fn byte_of_separator(style: PathStyle) -> (r: u8)
    ensures
        r == separator_byte(style),
{
    match style {
        PathStyle::Unix => 47,
        PathStyle::Windows => 92,
    }
}

/// A letter that may name a drive.
pub open spec fn is_drive_letter(c: char) -> bool {
    'a' <= c <= 'z' || 'A' <= c <= 'Z'
}

/// The text starts with the name of a drive.
pub open spec fn names_drive(text: Text, style: PathStyle) -> bool {
    style == PathStyle::Windows && text.len() >= 2 && is_drive_letter(text[0]) && text[1] == ':'
}

fn drive_named(text: &str, style: PathStyle) -> (r: bool)
    ensures
        r == names_drive(text@, style),
{
    let chars: Vec<char> = chars_of(text);
    style == PathStyle::Windows && chars.len() >= 2 && (('a' <= chars[0] && chars[0] <= 'z') || (
    'A' <= chars[0] && chars[0] <= 'Z')) && chars[1] == ':'
}

// ---------------------------------------------------------------------------
// Relative paths
// ---------------------------------------------------------------------------
/// A path with `/` for each of its separators.
pub open spec fn unified(raw: Text, style: PathStyle) -> Text {
    match style {
        PathStyle::Unix => raw,
        PathStyle::Windows => replace_char(raw, '\\', '/'),
    }
}

fn unify(raw: &str, style: PathStyle) -> (r: String)
    ensures
        r@ == unified(raw@, style),
{
    match style {
        PathStyle::Unix => raw.to_owned(),
        PathStyle::Windows => replaced_char(raw, '\\', '/'),
    }
}

/// A part of a path that leads somewhere: neither empty nor `.`.
pub open spec fn is_path_part(part: Text) -> bool {
    part.len() > 0 && part != "."@
}

/// The parts of a path that lead somewhere.
pub open spec fn path_parts(raw: Text, style: PathStyle) -> Seq<Text> {
    split_on(unified(raw, style), '/').filter(|part: Text| is_path_part(part))
}

/// The path starts at the root of the file system, or names a drive.
pub open spec fn is_absolute(raw: Text, style: PathStyle) -> bool {
    ||| raw.len() > 0 && unified(raw, style)[0] == '/'
    ||| names_drive(raw, style)
}

/// A path with another part at its end. A part that names a drive takes the
/// place of what was there; the bare name of a drive is followed by no
/// separator.
pub open spec fn pushed(path: Text, part: Text, style: PathStyle) -> Text {
    if path.len() == 0 || names_drive(part, style) {
        part
    } else if path.len() == 2 && names_drive(path, style) {
        path + part
    } else {
        path + separator(style) + part
    }
}

fn push_part(path: &str, part: &str, style: PathStyle) -> (r: String)
    ensures
        r@ == pushed(path@, part@, style),
{
    let chars: Vec<char> = chars_of(path);
    if chars.len() == 0 || drive_named(part, style) {
        part.to_owned()
    } else if chars.len() == 2 && drive_named(path, style) {
        concat(path, part)
    } else {
        concat3(path, separator_of(style), part)
    }
}

/// The path with these parts.
pub open spec fn assembled(parts: Seq<Text>, style: PathStyle) -> Text
    decreases parts.len(),
{
    if parts.len() == 0 {
        Seq::empty()
    } else {
        pushed(assembled(parts.drop_last(), style), parts.last(), style)
    }
}

/// The normal form of a relative path, or why it is refused: absolute paths,
/// parent traversal, and paths that lead nowhere are. Where `allow_dot` is
/// set, the path `.` stands for itself.
pub open spec fn clean_verdict(raw: Text, allow_dot: bool, style: PathStyle) -> Result<Text, Text> {
    if is_absolute(raw, style) {
        Err("absolute paths are not allowed"@)
    } else if path_parts(raw, style).contains(".."@) {
        Err("parent traversal (`..`) is not allowed"@)
    } else if path_parts(raw, style).len() > 0 {
        Ok(assembled(path_parts(raw, style), style))
    } else if allow_dot && raw == "."@ {
        Ok("."@)
    } else {
        Err("path must resolve below the configured root"@)
    }
}

/// Brings a relative path into normal form.
pub fn clean_path(raw: &str, allow_dot: bool, style: PathStyle) -> (r: Result<String, String>)
    ensures
        outcome(r) == clean_verdict(raw@, allow_dot, style),
{
    let plain: String = unify(raw, style);
    let chars: Vec<char> = chars_of(plain.as_str());
    assert(chars@.len() == raw@.len());
    if (chars.len() > 0 && chars[0] == '/') || drive_named(raw, style) {
        return Err("absolute paths are not allowed".to_owned());
    }
    let pieces: Vec<String> = split_text(plain.as_str(), '/');
    let mut cleaned: String = String::new();
    let mut count: usize = 0;
    let mut i: usize = 0;
    let ghost all = split_on(plain@, '/');
    let ghost leads = |part: Text| is_path_part(part);
    assert(all.take(0) =~= Seq::<Text>::empty());
    assert(all.take(0).filter(leads) =~= Seq::<Text>::empty()) by {
        reveal(Seq::filter);
    }
    assert(cleaned@ =~= Seq::<char>::empty());
    while i < pieces.len()
        invariant
            plain@ == unified(raw@, style),
            pieces.deep_view() == all,
            leads == (|part: Text| is_path_part(part)),
            count <= i <= pieces@.len(),
            count == all.take(i as int).filter(leads).len(),
            cleaned@ == assembled(all.take(i as int).filter(leads), style),
            !all.take(i as int).filter(leads).contains(".."@),
            all == split_on(plain@, '/'),
            !is_absolute(raw@, style),
        decreases pieces@.len() - i,
    {
        let ghost before = all.take(i as int).filter(leads);
        let ghost part = all[i as int];
        assert(all.take(i + 1).drop_last() =~= all.take(i as int));
        assert(all.take(i + 1).last() == part);
        assert(part == pieces@[i as int]@);
        proof {
            reveal(Seq::filter);
            reveal_strlit("..");
            reveal_strlit(".");
        }
        if same_text(pieces[i].as_str(), "..") {
            proof {
                assert(leads(part));
                all.lemma_filter_contains(leads, i as int);
            }
            return Err("parent traversal (`..`) is not allowed".to_owned());
        }
        if !pieces[i].as_str().is_empty() && !same_text(pieces[i].as_str(), ".") {
            cleaned = push_part(cleaned.as_str(), pieces[i].as_str(), style);
            count += 1;
            assert(leads(part));
            let ghost after = before.push(part);
            assert(all.take(i + 1).filter(leads) == after);
            assert(after.drop_last() =~= before);
            assert forall|k: int| 0 <= k < after.len() implies after[k] != ".."@ by {
                if k < before.len() {
                    assert(before.contains(before[k]));
                }
            }
        }
        i += 1;
    }
    assert(all.take(all.len() as int) =~= all);
    if count == 0 {
        if allow_dot && same_text(raw, ".") {
            return Ok(".".to_owned());
        }
        return Err("path must resolve below the configured root".to_owned());
    }
    Ok(cleaned)
}

/// A path that is worth looking at: not empty, bounded, and free of control
/// characters.
pub open spec fn is_plain_path(raw: Text) -> bool {
    &&& raw.len() > 0
    &&& byte_len(raw) <= MAX_PATH_BYTES
    &&& !has_control(raw)
}

fn plain_path(raw: &str) -> (r: bool)
    ensures
        r == is_plain_path(raw@),
{
    let chars: Vec<char> = chars_of(raw);
    chars.len() > 0 && length_in_bytes(raw) <= MAX_PATH_BYTES && !contains_control(&chars)
}

/// What `clean_repo_path` reports.
pub open spec fn repo_path_verdict(raw: Text, style: PathStyle) -> Result<Text, Text> {
    if is_plain_path(raw) {
        clean_verdict(raw, true, style)
    } else {
        Err("repo must be a non-empty, bounded path without control characters"@)
    }
}

/// The normal form of a repository selector.
pub fn clean_repo_path(raw: &str, style: PathStyle) -> (r: Result<String, String>)
    ensures
        outcome(r) == repo_path_verdict(raw@, style),
{
    if !plain_path(raw) {
        return Err(
            "repo must be a non-empty, bounded path without control characters".to_owned(),
        );
    }
    clean_path(raw, true, style)
}

/// What `clean_relative_path` reports.
pub open spec fn relative_path_verdict(raw: Text, style: PathStyle) -> Result<Text, Text> {
    if is_plain_path(raw) {
        clean_verdict(raw, false, style)
    } else {
        Err("path must be a non-empty, bounded path without control characters"@)
    }
}

/// The normal form of a path within a repository.
pub fn clean_relative_path(raw: &str, style: PathStyle) -> (r: Result<String, String>)
    ensures
        outcome(r) == relative_path_verdict(raw@, style),
{
    if !plain_path(raw) {
        return Err(
            "path must be a non-empty, bounded path without control characters".to_owned(),
        );
    }
    clean_path(raw, false, style)
}

/// The normal forms of `paths` from `i` on, or why the first of them that is
/// refused is refused.
pub open spec fn cleaned_from(paths: Seq<Text>, i: int, style: PathStyle) -> Result<
    Seq<Text>,
    Text,
>
    decreases paths.len() - i,
{
    if i < 0 || i >= paths.len() {
        Ok(Seq::empty())
    } else {
        match relative_path_verdict(paths[i], style) {
            Err(e) => Err(e),
            Ok(first) => match cleaned_from(paths, i + 1, style) {
                Err(e) => Err(e),
                Ok(rest) => Ok(seq![first] + rest),
            },
        }
    }
}

/// What `clean_paths` reports.
pub open spec fn paths_verdict(paths: Seq<Text>, style: PathStyle) -> Result<Seq<Text>, Text> {
    if paths.len() == 0 {
        Err("at least one path is required"@)
    } else if paths.len() > MAX_PATHS {
        Err("too many paths"@)
    } else {
        cleaned_from(paths, 0, style)
    }
}

/// The normal forms of the paths of one operation.
pub fn clean_paths(paths: &Vec<String>, style: PathStyle) -> (r: Result<Vec<String>, String>)
    ensures
        outcome(r) == paths_verdict(paths.deep_view(), style),
{
    let ghost all = paths.deep_view();
    if paths.len() == 0 {
        return Err("at least one path is required".to_owned());
    }
    if paths.len() > MAX_PATHS {
        return Err("too many paths".to_owned());
    }
    let mut cleaned: Vec<String> = Vec::new();
    let mut i: usize = 0;
    proof {
        assert(cleaned.deep_view() =~= Seq::<Text>::empty());
        if cleaned_from(all, 0, style) is Ok {
            let cleaned_all = cleaned_from(all, 0, style)->Ok_0;
            assert(cleaned.deep_view() + cleaned_all =~= cleaned_all);
        }
    }
    while i < paths.len()
        invariant
            all == paths.deep_view(),
            0 < all.len() <= MAX_PATHS,
            i <= paths@.len(),
            match cleaned_from(all, i as int, style) {
                Err(e) => cleaned_from(all, 0, style) == Err::<Seq<Text>, Text>(e),
                Ok(rest) => cleaned_from(all, 0, style) == Ok::<Seq<Text>, Text>(
                    cleaned.deep_view() + rest,
                ),
            },
        decreases paths@.len() - i,
    {
        assert(all[i as int] == paths@[i as int]@);
        let ghost before = cleaned.deep_view();
        match clean_relative_path(paths[i].as_str(), style) {
            Err(e) => {
                return Err(e);
            },
            Ok(path) => {
                let ghost first = path@;
                cleaned.push(path);
                proof {
                    assert(cleaned.deep_view() =~= before.push(first));
                    if let Ok(rest) = cleaned_from(all, i + 1, style) {
                        assert(before + (seq![first] + rest) =~= cleaned.deep_view() + rest);
                    }
                }
            },
        }
        i += 1;
    }
    assert(cleaned.deep_view() + Seq::<Text>::empty() =~= cleaned.deep_view());
    Ok(cleaned)
}

/// No part of a path names a drive.
pub open spec fn without_drives(raw: Text, style: PathStyle) -> bool {
    forall|i: int|
        0 <= i < path_parts(raw, style).len() ==> !names_drive(
            #[trigger] path_parts(raw, style)[i],
            style,
        )
}

/// The parts of an accepted path lead downwards only, and there is at least
/// one: the normal form cannot name anything outside of the directory that it
/// is taken from, unless one of its parts names a drive.
pub proof fn law_clean_path_stays_below(raw: Text, allow_dot: bool, style: PathStyle)
    requires
        clean_verdict(raw, allow_dot, style) is Ok,
        without_drives(raw, style),
    ensures
        ({
            let parts = path_parts(raw, style);
            let clean = clean_verdict(raw, allow_dot, style)->Ok_0;
            ||| parts.len() == 0 && allow_dot && clean == "."@
            ||| {
                &&& parts.len() > 0
                &&& clean == join(parts, separator(style))
                &&& forall|i: int|
                    0 <= i < parts.len() ==> {
                        &&& #[trigger] parts[i] != ".."@
                        &&& parts[i] != "."@
                        &&& parts[i].len() > 0
                        &&& !parts[i].contains('/')
                        &&& style == PathStyle::Windows ==> !parts[i].contains('\\')
                    }
            }
        }),
{
    let parts = path_parts(raw, style);
    let plain = unified(raw, style);
    let leads = |part: Text| is_path_part(part);
    assert forall|i: int| 0 <= i < parts.len() implies {
        &&& #[trigger] parts[i] != ".."@
        &&& parts[i] != "."@
        &&& parts[i].len() > 0
        &&& !parts[i].contains('/')
        &&& style == PathStyle::Windows ==> !parts[i].contains('\\')
    } by {
        split_on(plain, '/').lemma_filter_pred(leads, i);
        split_on(plain, '/').lemma_filter_contains_rev(leads, parts[i]);
        lemma_pieces_without_separator(plain, '/');
        let k = choose|k: int|
            0 <= k < split_on(plain, '/').len() && split_on(plain, '/')[k] == parts[i];
        if style == PathStyle::Windows && parts[i].contains('\\') {
            lemma_pieces_of_text(plain, '/', k, '\\');
            let m = choose|m: int| 0 <= m < plain.len() && plain[m] == '\\';
            assert(plain[m] != '\\');
        }
    }
    if parts.len() > 0 {
        lemma_assembled_joined(parts, style);
    }
}

/// A piece of a split holds only what the text holds.
proof fn lemma_pieces_of_text(s: Text, sep: char, k: int, c: char)
    requires
        0 <= k < split_on(s, sep).len(),
        split_on(s, sep)[k].contains(c),
    ensures
        s.contains(c),
    decreases s.len(),
{
    if s.len() > 0 {
        let head = s.drop_last();
        let before = split_on(head, sep);
        let piece = split_on(s, sep)[k];
        lemma_split_not_empty(head, sep);
        let m = choose|m: int| 0 <= m < piece.len() && piece[m] == c;
        if k < before.len() && m < before[k].len() {
            assert(before[k][m] == c);
            lemma_pieces_of_text(head, sep, k, c);
            let j = choose|j: int| 0 <= j < head.len() && head[j] == c;
            assert(s[j] == c);
        } else {
            assert(s[s.len() - 1] == c);
        }
    }
}

/// Where no part names a drive, a path is its parts with separators between
/// them.
proof fn lemma_assembled_joined(parts: Seq<Text>, style: PathStyle)
    requires
        parts.len() > 0,
        forall|i: int|
            0 <= i < parts.len() ==> (#[trigger] parts[i]).len() > 0 && !names_drive(
                parts[i],
                style,
            ),
    ensures
        assembled(parts, style) == join(parts, separator(style)),
    decreases parts.len(),
{
    let front = parts.drop_last();
    assert(parts.last() == parts[parts.len() - 1]);
    if parts.len() == 1 {
        assert(assembled(front, style) =~= Seq::<char>::empty());
    } else {
        assert forall|i: int| 0 <= i < front.len() implies (#[trigger] front[i]).len() > 0
            && !names_drive(front[i], style) by {
            assert(front[i] == parts[i]);
        }
        lemma_assembled_joined(front, style);
        lemma_join_starts(front, style);
    }
}

/// No piece of a split holds the separator.
pub proof fn lemma_pieces_without_separator(s: Text, sep: char)
    ensures
        forall|i: int|
            0 <= i < split_on(s, sep).len() ==> !(#[trigger] split_on(s, sep)[i]).contains(sep),
    decreases s.len(),
{
    if s.len() > 0 {
        lemma_pieces_without_separator(s.drop_last(), sep);
        lemma_split_not_empty(s.drop_last(), sep);
        let before = split_on(s.drop_last(), sep);
        let after = split_on(s, sep);
        assert forall|i: int| 0 <= i < after.len() implies !(#[trigger] after[i]).contains(sep) by {
            if i < before.len() - 1 {
                assert(after[i] == before[i]);
            } else if s.last() == sep {
                if i < before.len() {
                    assert(after[i] == before[i]);
                } else {
                    assert(after[i] =~= Seq::<char>::empty());
                }
            } else {
                let last = before.last();
                assert(before[before.len() - 1] == last);
                assert(after[i] == last.push(s.last()));
                if after[i].contains(sep) {
                    let k = choose|k: int| 0 <= k < after[i].len() && after[i][k] == sep;
                    assert(last[k] == sep);
                }
            }
        }
    }
}

proof fn lemma_split_tail(a: Text, sep: char, b: Text)
    requires
        !b.contains(sep),
    ensures
        split_on(a.push(sep) + b, sep) == split_on(a, sep).push(b),
    decreases b.len(),
{
    let whole = a.push(sep) + b;
    let pieces = split_on(a, sep);
    if b.len() == 0 {
        assert(whole.drop_last() =~= a);
        assert(b =~= Seq::<char>::empty());
    } else {
        let head = b.drop_last();
        assert(!head.contains(sep)) by {
            if head.contains(sep) {
                let k = choose|k: int| 0 <= k < head.len() && head[k] == sep;
                assert(b[k] == sep);
            }
        }
        lemma_split_tail(a, sep, head);
        assert(whole.drop_last() =~= a.push(sep) + head);
        assert(b[b.len() - 1] == whole.last());
        assert(pieces.push(head).drop_last() =~= pieces);
        assert(head.push(b.last()) =~= b);
    }
}

/// Splitting takes apart again what was joined.
proof fn lemma_split_joined(parts: Seq<Text>)
    requires
        parts.len() > 0,
        forall|i: int| 0 <= i < parts.len() ==> !(#[trigger] parts[i]).contains('/'),
    ensures
        split_on(join(parts, "/"@), '/') == parts,
    decreases parts.len(),
{
    reveal_strlit("/");
    assert(!parts.last().contains('/')) by {
        assert(!parts[parts.len() - 1].contains('/'));
    }
    if parts.len() == 1 {
        lemma_split_whole(parts[0], '/');
        assert(seq![parts[0]] =~= parts);
    } else {
        let front = parts.drop_last();
        assert forall|i: int| 0 <= i < front.len() implies !(#[trigger] front[i]).contains('/') by {
            assert(front[i] == parts[i]);
        }
        lemma_split_joined(front);
        lemma_split_tail(join(front, "/"@), '/', parts.last());
        assert(join(front, "/"@) + "/"@ + parts.last() =~= join(front, "/"@).push('/')
            + parts.last());
        assert(front.push(parts.last()) =~= parts);
    }
}

proof fn lemma_filter_all(s: Seq<Text>, keep: spec_fn(Text) -> bool)
    requires
        forall|i: int| 0 <= i < s.len() ==> keep(#[trigger] s[i]),
    ensures
        s.filter(keep) == s,
    decreases s.len(),
{
    reveal(Seq::filter);
    if s.len() > 0 {
        let front = s.drop_last();
        assert forall|i: int| 0 <= i < front.len() implies keep(#[trigger] front[i]) by {
            assert(front[i] == s[i]);
        }
        lemma_filter_all(front, keep);
        assert(keep(s[s.len() - 1]));
        assert(front.push(s.last()) =~= s);
    } else {
        assert(s.filter(keep) =~= s);
    }
}

/// What is joined starts as its first part does, and names no drive where that
/// names none.
proof fn lemma_join_starts(parts: Seq<Text>, style: PathStyle)
    requires
        parts.len() > 0,
        parts[0].len() > 0,
        !names_drive(parts[0], style),
    ensures
        join(parts, separator(style)).len() > 0,
        join(parts, separator(style))[0] == parts[0][0],
        !names_drive(join(parts, separator(style)), style),
    decreases parts.len(),
{
    reveal_strlit("/");
    reveal_strlit("\\");
    if parts.len() > 1 {
        lemma_join_starts(parts.drop_last(), style);
    }
}

/// What is joined has the separators that stand between its parts.
proof fn lemma_unified_join(parts: Seq<Text>, style: PathStyle)
    requires
        style == PathStyle::Windows ==> forall|i: int|
            0 <= i < parts.len() ==> !(#[trigger] parts[i]).contains('\\'),
    ensures
        unified(join(parts, separator(style)), style) == join(parts, "/"@),
    decreases parts.len(),
{
    reveal_strlit("/");
    reveal_strlit("\\");
    if style == PathStyle::Windows {
        if parts.len() == 0 {
            assert(unified(join(parts, separator(style)), style) =~= join(parts, "/"@));
        } else {
            let last = parts.last();
            assert(last == parts[parts.len() - 1]);
            assert forall|k: int| 0 <= k < last.len() implies last[k] != '\\' by {
                if last[k] == '\\' {
                    assert(last.contains('\\'));
                }
            }
            assert(unified(last, style) =~= last);
            if parts.len() > 1 {
                let front = parts.drop_last();
                assert forall|i: int| 0 <= i < front.len() implies !(
                #[trigger] front[i]).contains('\\') by {
                    assert(front[i] == parts[i]);
                }
                lemma_unified_join(front, style);
                let lead = join(front, separator(style));
                assert(unified(lead + separator(style) + last, style) =~= unified(lead, style)
                    + "/"@ + last);
            }
        }
    }
}

/// The normal form of a path is its own normal form, unless one of its parts
/// names a drive.
pub proof fn law_clean_path_idempotent(raw: Text, allow_dot: bool, style: PathStyle)
    requires
        without_drives(raw, style),
    ensures
        clean_verdict(raw, allow_dot, style) matches Ok(clean) ==> clean_verdict(
            clean,
            allow_dot,
            style,
        ) == Ok::<Text, Text>(clean),
{
    if let Ok(clean) = clean_verdict(raw, allow_dot, style) {
        let parts = path_parts(raw, style);
        if parts.len() > 0 {
            law_clean_path_stays_below(raw, allow_dot, style);
            let leads = |part: Text| is_path_part(part);
            lemma_unified_join(parts, style);
            lemma_split_joined(parts);
            assert forall|i: int| 0 <= i < parts.len() implies leads(#[trigger] parts[i]) by {}
            lemma_filter_all(parts, leads);
            assert(path_parts(clean, style) == parts);
            lemma_join_starts(parts, style);
            assert(parts[0].contains(parts[0][0]));
            lemma_assembled_joined(parts, style);
        }
    }
}

// ---------------------------------------------------------------------------
// Paths of the file system
// ---------------------------------------------------------------------------
/// The names of a path of the file system, from the root down.
pub open spec fn components(path: Seq<u8>, style: PathStyle) -> Seq<Seq<u8>>
    decreases path.len(),
{
    if path.len() == 0 {
        Seq::empty()
    } else {
        let found = components(path.drop_last(), style);
        if path.last() == separator_byte(style) {
            found
        } else if path.len() == 1 || path[path.len() - 2] == separator_byte(style) {
            found.push(seq![path.last()])
        } else {
            found.drop_last().push(found.last().push(path.last()))
        }
    }
}

/// The names of `path`.
pub fn components_of(path: &Vec<u8>, style: PathStyle) -> (r: Vec<Vec<u8>>)
    ensures
        r.deep_view() == components(path@, style),
{
    let mut done: Vec<Vec<u8>> = Vec::new();
    let mut current: Vec<u8> = Vec::new();
    let mut open: bool = false;
    let mut i: usize = 0;
    let separator: u8 = byte_of_separator(style);
    assert(done.deep_view() =~= Seq::<Seq<u8>>::empty());
    while i < path.len()
        invariant
            i <= path@.len(),
            separator == separator_byte(style),
            open == (i > 0 && path@[i - 1] != separator),
            open ==> done.deep_view().push(current@) == components(path@.take(i as int), style),
            !open ==> done.deep_view() == components(path@.take(i as int), style) && current@.len() == 0,
        decreases path@.len() - i,
    {
        let ghost before = done.deep_view();
        let ghost extended = path@.take(i + 1);
        assert(extended.drop_last() =~= path@.take(i as int));
        assert(before.push(current@).drop_last() =~= before);
        let byte: u8 = path[i];
        if byte == separator {
            if open {
                let ghost piece = current@;
                assert(current.deep_view() =~= current@);
                done.push(current);
                assert(done.deep_view() =~= before.push(piece));
                current = Vec::new();
                open = false;
            }
        } else {
            current.push(byte);
            if !open {
                assert(current@ =~= seq![byte]);
                assert(extended.len() == 1 || extended[extended.len() - 2] == separator);
            } else {
                assert(extended[extended.len() - 2] != separator);
            }
            open = true;
        }
        i += 1;
    }
    assert(path@.take(path@.len() as int) =~= path@);
    if open {
        let ghost before = done.deep_view();
        let ghost piece = current@;
        assert(current.deep_view() =~= current@);
        done.push(current);
        assert(done.deep_view() =~= before.push(piece));
    }
    done
}

/// `path` is `root` or lies below it.
pub open spec fn is_within(path: Seq<u8>, root: Seq<u8>, style: PathStyle) -> bool {
    components(root, style).is_prefix_of(components(path, style))
}

/// Whether two byte strings are equal.
pub fn same_bytes(a: &Vec<u8>, b: &Vec<u8>) -> (r: bool)
    ensures
        r == (a@ == b@),
{
    if a.len() != b.len() {
        return false;
    }
    let mut i: usize = 0;
    while i < a.len()
        invariant
            a@.len() == b@.len(),
            i <= a@.len(),
            forall|k: int| 0 <= k < i ==> a@[k] == b@[k],
        decreases a@.len() - i,
    {
        if a[i] != b[i] {
            return false;
        }
        i += 1;
    }
    assert(a@ =~= b@);
    true
}

/// Whether `path` is `root` or lies below it.
pub fn lies_within(path: &Vec<u8>, root: &Vec<u8>, style: PathStyle) -> (r: bool)
    ensures
        r == is_within(path@, root@, style),
{
    let p: Vec<Vec<u8>> = components_of(path, style);
    let q: Vec<Vec<u8>> = components_of(root, style);
    let ghost ps = components(path@, style);
    let ghost qs = components(root@, style);
    assert(p@.len() == ps.len() && q@.len() == qs.len());
    if q.len() > p.len() {
        return false;
    }
    let mut i: usize = 0;
    while i < q.len()
        invariant
            p.deep_view() == ps,
            ps == components(path@, style),
            q.deep_view() == qs,
            qs == components(root@, style),
            p@.len() == ps.len() >= q@.len() == qs.len(),
            i <= q@.len(),
            forall|k: int| 0 <= k < i ==> #[trigger] qs[k] == ps[k],
        decreases q@.len() - i,
    {
        assert(p.deep_view()[i as int] == p@[i as int].deep_view());
        assert(q.deep_view()[i as int] == q@[i as int].deep_view());
        assert(p@[i as int].deep_view() =~= p@[i as int]@);
        assert(q@[i as int].deep_view() =~= q@[i as int]@);
        if !same_bytes(&p[i], &q[i]) {
            assert(qs[i as int] != ps.subrange(0, qs.len() as int)[i as int]);
            return false;
        }
        i += 1;
    }
    assert(qs =~= ps.subrange(0, qs.len() as int));
    true
}

/// The path `relative` taken from the directory `root`.
pub open spec fn joined_path(root: Seq<u8>, relative: Seq<u8>, style: PathStyle) -> Seq<u8> {
    if root.len() == 0 || root.last() == separator_byte(style) {
        root + relative
    } else {
        root.push(separator_byte(style)) + relative
    }
}

/// The path `relative` taken from the directory `root`.
pub fn join_bytes(root: &Vec<u8>, relative: &[u8], style: PathStyle) -> (r: Vec<u8>)
    ensures
        r@ == joined_path(root@, relative@, style),
{
    let mut r: Vec<u8> = root.clone();
    assert(r@ =~= root@);
    let separator: u8 = byte_of_separator(style);
    if root.len() > 0 && root[root.len() - 1] != separator {
        r.push(separator);
    }
    let ghost base = r@;
    let mut i: usize = 0;
    while i < relative.len()
        invariant
            i <= relative@.len(),
            r@ == base + relative@.take(i as int),
        decreases relative@.len() - i,
    {
        r.push(relative[i]);
        assert(base + relative@.take(i + 1) =~= (base + relative@.take(i as int)).push(
            relative@[i as int],
        ));
        i += 1;
    }
    assert(relative@.take(relative@.len() as int) =~= relative@);
    r
}

/// What a path in normal form leads to from the resolved directory `root`. On
/// Windows a resolved directory takes no `.` behind it, and a path that names a
/// drive is not taken from the directory.
pub open spec fn path_below(root: Seq<u8>, relative: Text, style: PathStyle) -> Seq<u8> {
    if style == PathStyle::Windows && relative == "."@ {
        root
    } else if names_drive(relative, style) {
        encode_utf8(relative)
    } else {
        joined_path(root, encode_utf8(relative), style)
    }
}

/// What a path in normal form leads to from the resolved directory `root`.
pub fn find_below(root: &Vec<u8>, relative: &str, style: PathStyle) -> (r: Vec<u8>)
    ensures
        r@ == path_below(root@, relative@, style),
{
    if style == PathStyle::Windows && same_text(relative, ".") {
        let r: Vec<u8> = root.clone();
        assert(r@ =~= root@);
        r
    } else if drive_named(relative, style) {
        relative.as_bytes_vec()
    } else {
        join_bytes(root, relative.as_bytes(), style)
    }
}

} // verus!
