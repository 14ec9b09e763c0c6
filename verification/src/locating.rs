//! How paths are taken apart and put together, stated by what they are made of.
use crate::paths::{
    assembled, components, is_path_part, is_within, joined_path, names_drive, path_below,
    path_parts, relative_path_verdict, repo_path_verdict, separator_byte, unified, PathStyle,
};
use crate::splitting::law_split_at_separator;
use crate::text::{byte_len, is_control_char, lemma_split_whole, replace_char, split_on, Text};
use vstd::prelude::*;
use vstd::utf8::encode_utf8;

verus! {

// ---------------------------------------------------------------------------
// Paths that are given
// ---------------------------------------------------------------------------
/// The parts of what stands before a slash and of what stands after it are the
/// parts of the whole.
pub proof fn law_path_parts_at_slash(a: Text, b: Text, style: PathStyle)
    ensures
        path_parts(a + seq!['/'] + b, style) == path_parts(a, style) + path_parts(b, style),
{
    let whole = a + seq!['/'] + b;
    assert(unified(whole, style) =~= unified(a, style) + seq!['/'] + unified(b, style));
    law_split_at_separator(unified(a, style), unified(b, style), '/');
    Seq::filter_distributes_over_add(
        split_on(unified(a, style), '/'),
        split_on(unified(b, style), '/'),
        |part: Text| is_path_part(part),
    );
}

/// What holds no separator is its own only part, unless it is empty or a dot.
pub proof fn law_path_part(part: Text, style: PathStyle)
    requires
        !part.contains('/'),
        style == PathStyle::Windows ==> !part.contains('\\'),
    ensures
        path_parts(part, style) == if part.len() == 0 || part == "."@ {
            Seq::<Text>::empty()
        } else {
            seq![part]
        },
{
    if style == PathStyle::Windows {
        assert forall|i: int| 0 <= i < part.len() implies part[i] != '\\' by {
            assert(part.contains(part[i]));
        }
        assert(replace_char(part, '\\', '/') =~= part);
    }
    assert(unified(part, style) =~= part);
    lemma_split_whole(part, '/');
    reveal_with_fuel(Seq::filter, 2);
    assert(seq![part].drop_last() =~= Seq::<Text>::empty());
}

/// A path is accepted exactly where it is not empty, has at most 4096 bytes, holds
/// no control character, does not begin with a slash or, on Windows, with a
/// backslash or a drive, has no part `..`, and has some part; a repository may
/// also be named by a dot.
pub proof fn law_path_accepted(raw: Text, style: PathStyle)
    ensures
        ({
            let parts = path_parts(raw, style);
            let plain = {
                &&& raw.len() > 0
                &&& byte_len(raw) <= 4096
                &&& forall|i: int| 0 <= i < raw.len() ==> !is_control_char(#[trigger] raw[i])
                &&& raw[0] != '/'
                &&& style == PathStyle::Windows ==> raw[0] != '\\' && !(raw.len() >= 2 && raw[1]
                    == ':' && ('a' <= raw[0] <= 'z' || 'A' <= raw[0] <= 'Z'))
                &&& !parts.contains(".."@)
            };
            &&& relative_path_verdict(raw, style) is Ok <==> plain && parts.len() > 0
            &&& repo_path_verdict(raw, style) is Ok <==> plain && (parts.len() > 0 || raw == "."@)
            &&& relative_path_verdict(raw, style) matches Ok(clean) ==> clean == assembled(
                parts,
                style,
            )
            &&& repo_path_verdict(raw, style) matches Ok(clean) ==> clean == if parts.len() > 0 {
                assembled(parts, style)
            } else {
                "."@
            }
        }),
{
}

// ---------------------------------------------------------------------------
// Paths of the file system
// ---------------------------------------------------------------------------
proof fn lemma_components_end(path: Seq<u8>, style: PathStyle)
    requires
        path.len() > 0,
        path.last() != separator_byte(style),
    ensures
        components(path, style).len() > 0,
{
}

/// The names of what stands before a separator and of what stands after it are
/// the names of the whole.
pub proof fn law_components_at_separator(a: Seq<u8>, b: Seq<u8>, style: PathStyle)
    ensures
        components(a.push(separator_byte(style)) + b, style) == components(a, style) + components(
            b,
            style,
        ),
    decreases b.len(),
{
    let sep = separator_byte(style);
    let s = a.push(sep) + b;
    if b.len() == 0 {
        assert(s =~= a.push(sep));
        assert(s.drop_last() =~= a);
        assert(components(s, style) =~= components(a, style) + components(b, style));
    } else {
        law_components_at_separator(a, b.drop_last(), style);
        assert(s.drop_last() =~= a.push(sep) + b.drop_last());
        assert(s.last() == b.last());
        if b.last() == sep {
            assert(components(s, style) =~= components(a, style) + components(b, style));
        } else if b.len() == 1 {
            assert(s[s.len() - 2] == sep);
            assert(components(b.drop_last(), style) =~= Seq::empty());
            assert(components(s, style) =~= components(a, style) + components(b, style));
        } else {
            assert(s[s.len() - 2] == b[b.len() - 2]);
            if b[b.len() - 2] != sep {
                lemma_components_end(b.drop_last(), style);
            }
            assert(components(s, style) =~= components(a, style) + components(b, style));
        }
    }
}

/// What holds no separator is its own only name, unless it is empty.
pub proof fn law_component(name: Seq<u8>, style: PathStyle)
    requires
        !name.contains(separator_byte(style)),
    ensures
        components(name, style) == if name.len() == 0 {
            Seq::<Seq<u8>>::empty()
        } else {
            seq![name]
        },
    decreases name.len(),
{
    if name.len() > 0 {
        let init = name.drop_last();
        assert(name.contains(name.last()));
        assert forall|i: int| 0 <= i < init.len() implies init[i] != separator_byte(style) by {
            assert(init[i] == name[i]);
            assert(name.contains(name[i]));
        }
        assert(!init.contains(separator_byte(style)));
        law_component(init, style);
        if name.len() == 1 {
            assert(name =~= seq![name.last()]);
            assert(components(name, style) =~= seq![name]);
        } else {
            assert(name.contains(name[name.len() - 2]));
            assert(init.push(name.last()) =~= name);
            assert(components(name, style) =~= seq![name]);
        }
    }
}

/// A path that is taken from a directory has the names of the directory and
/// those of the path, and so lies within the directory.
pub proof fn law_joined_path_lies_below(root: Seq<u8>, relative: Seq<u8>, style: PathStyle)
    ensures
        components(joined_path(root, relative, style), style) == components(root, style)
            + components(relative, style),
        is_within(joined_path(root, relative, style), root, style),
{
    let sep = separator_byte(style);
    let all = components(root, style) + components(relative, style);
    if root.len() == 0 {
        assert(root + relative =~= relative);
        assert(components(root, style) + components(relative, style) =~= components(
            relative,
            style,
        ));
    } else if root.last() == sep {
        let init = root.drop_last();
        assert(init.push(sep) =~= root);
        law_components_at_separator(init, relative, style);
        law_components_at_separator(init, Seq::empty(), style);
        assert(init.push(sep) + Seq::<u8>::empty() =~= root);
        assert(components(init, style) + components(Seq::empty(), style) =~= components(
            init,
            style,
        ));
    } else {
        law_components_at_separator(root, relative, style);
    }
    assert(components(root, style) =~= all.subrange(0, components(root, style).len() as int));
}

/// What a path in normal form leads to from a directory lies within the
/// directory, unless it names a drive.
pub proof fn law_path_below_lies_within(root: Seq<u8>, relative: Text, style: PathStyle)
    requires
        !names_drive(relative, style),
    ensures
        is_within(path_below(root, relative, style), root, style),
        !(style == PathStyle::Windows && relative == "."@) ==> components(
            path_below(root, relative, style),
            style,
        ) == components(root, style) + components(encode_utf8(relative), style),
{
    law_joined_path_lies_below(root, encode_utf8(relative), style);
    assert(components(root, style) =~= components(root, style).subrange(
        0,
        components(root, style).len() as int,
    ));
}

} // verus!
