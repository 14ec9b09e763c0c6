//! How texts are taken apart, stated by how they are put together again.
use crate::text::{
    is_blank, is_white_space, join, lemma_split_not_empty, lemma_split_whole, lines, split_limit,
    split_on, trim, trim_end, trim_end_char, trim_start, without_carriage_return, words, Text,
};
use vstd::prelude::*;

verus! {

// ---------------------------------------------------------------------------
// Trimming
// ---------------------------------------------------------------------------
proof fn lemma_trim_start(s: Text) -> (k: int)
    ensures
        0 <= k <= s.len(),
        is_blank(s.take(k)),
        trim_start(s) == s.skip(k),
        trim_start(s).len() > 0 ==> !is_white_space(trim_start(s)[0]),
    decreases s.len(),
{
    if s.len() > 0 && is_white_space(s[0]) {
        let k = lemma_trim_start(s.drop_first());
        assert(s.drop_first().skip(k) =~= s.skip(k + 1));
        assert forall|i: int| 0 <= i < s.take(k + 1).len() implies is_white_space(
            #[trigger] s.take(k + 1)[i],
        ) by {
            if i > 0 {
                assert(s.take(k + 1)[i] == s.drop_first().take(k)[i - 1]);
            }
        }
        k + 1
    } else {
        assert(s.skip(0) =~= s);
        0
    }
}

proof fn lemma_trim_end(s: Text) -> (k: int)
    ensures
        0 <= k <= s.len(),
        is_blank(s.skip(k)),
        trim_end(s) == s.take(k),
        trim_end(s).len() > 0 ==> !is_white_space(trim_end(s).last()),
    decreases s.len(),
{
    if s.len() > 0 && is_white_space(s.last()) {
        let k = lemma_trim_end(s.drop_last());
        assert(s.drop_last().take(k) =~= s.take(k));
        assert forall|i: int| 0 <= i < s.skip(k).len() implies is_white_space(
            #[trigger] s.skip(k)[i],
        ) by {
            if k + i < s.len() - 1 {
                assert(s.skip(k)[i] == s.drop_last().skip(k)[i]);
            }
        }
        k
    } else {
        assert(s.take(s.len() as int) =~= s);
        s.len() as int
    }
}

/// A trimmed text is the text without white space before and after it, and
/// neither begins nor ends with white space. The law gives what was taken away.
pub proof fn law_trim_takes_outer_white_space(s: Text) -> (around: (Text, Text))
    ensures
        s == around.0 + trim(s) + around.1,
        is_blank(around.0),
        is_blank(around.1),
        trim(s).len() > 0 ==> !is_white_space(trim(s)[0]) && !is_white_space(trim(s).last()),
{
    let k = lemma_trim_start(s);
    let rest = trim_start(s);
    let m = lemma_trim_end(rest);
    assert(s =~= s.take(k) + rest.take(m) + rest.skip(m));
    (s.take(k), rest.skip(m))
}

/// A text without the characters `c` at its end is the text up to them, and does
/// not end with `c`.
pub proof fn law_trim_end_char_takes_last(s: Text, c: char)
    ensures
        trim_end_char(s, c).is_prefix_of(s),
        forall|i: int| trim_end_char(s, c).len() <= i < s.len() ==> #[trigger] s[i] == c,
        trim_end_char(s, c).len() > 0 ==> trim_end_char(s, c).last() != c,
    decreases s.len(),
{
    if s.len() > 0 && s.last() == c {
        let r = trim_end_char(s, c);
        law_trim_end_char_takes_last(s.drop_last(), c);
        assert forall|i: int| r.len() <= i < s.len() implies #[trigger] s[i] == c by {
            if i < s.len() - 1 {
                assert(s.drop_last()[i] == s[i]);
            }
        }
        assert(r =~= s.subrange(0, r.len() as int)) by {
            assert(r =~= s.drop_last().subrange(0, r.len() as int));
        }
    } else {
        assert(s =~= s.subrange(0, s.len() as int));
    }
}

// ---------------------------------------------------------------------------
// Splitting
// ---------------------------------------------------------------------------
/// What stands before a separator and what stands after it are split each on its
/// own.
pub proof fn law_split_at_separator(a: Text, b: Text, sep: char)
    ensures
        split_on(a + seq![sep] + b, sep) == split_on(a, sep) + split_on(b, sep),
    decreases b.len(),
{
    let s = a + seq![sep] + b;
    lemma_split_not_empty(a, sep);
    lemma_split_not_empty(b, sep);
    if b.len() == 0 {
        assert(s.drop_last() =~= a);
        assert(split_on(s, sep) =~= split_on(a, sep) + split_on(b, sep));
    } else {
        law_split_at_separator(a, b.drop_last(), sep);
        lemma_split_not_empty(b.drop_last(), sep);
        assert(s.drop_last() =~= a + seq![sep] + b.drop_last());
        assert(s.last() == b.last());
        assert(split_on(s, sep) =~= split_on(a, sep) + split_on(b, sep));
    }
}

/// Texts without the separator that are joined by it are what the joined text is
/// split into.
pub proof fn law_split_undoes_join(parts: Seq<Text>, sep: char)
    requires
        parts.len() > 0,
        forall|i: int| 0 <= i < parts.len() ==> !(#[trigger] parts[i]).contains(sep),
    ensures
        split_on(join(parts, seq![sep]), sep) == parts,
    decreases parts.len(),
{
    if parts.len() == 1 {
        lemma_split_whole(parts[0], sep);
        assert(parts =~= seq![parts[0]]);
    } else {
        let init = parts.drop_last();
        assert forall|i: int| 0 <= i < init.len() implies !(#[trigger] init[i]).contains(sep) by {
            assert(init[i] == parts[i]);
        }
        law_split_undoes_join(init, sep);
        law_split_at_separator(join(init, seq![sep]), parts.last(), sep);
        lemma_split_whole(parts.last(), sep);
        assert(init + seq![parts.last()] =~= parts);
    }
}

/// What a text is split into gives the text again when it is joined, and no
/// piece holds the separator.
pub proof fn law_join_undoes_split(s: Text, sep: char)
    ensures
        join(split_on(s, sep), seq![sep]) == s,
        forall|i: int|
            0 <= i < split_on(s, sep).len() ==> !(#[trigger] split_on(s, sep)[i]).contains(sep),
    decreases s.len(),
{
    let pieces = split_on(s, sep);
    lemma_split_not_empty(s, sep);
    if s.len() == 0 {
        assert(join(pieces, seq![sep]) =~= s);
    } else {
        let init = split_on(s.drop_last(), sep);
        lemma_split_not_empty(s.drop_last(), sep);
        law_join_undoes_split(s.drop_last(), sep);
        if s.last() == sep {
            assert(pieces.drop_last() =~= init);
            assert(join(pieces, seq![sep]) =~= s);
        } else {
            assert(pieces.drop_last() =~= init.drop_last());
            assert(pieces.last() == init.last().push(s.last()));
            assert(join(pieces, seq![sep]) =~= join(init, seq![sep]).push(s.last()));
            assert(join(pieces, seq![sep]) =~= s);
            assert forall|i: int| 0 <= i < pieces.len() implies !(#[trigger] pieces[i]).contains(
                sep,
            ) by {
                if i < pieces.len() - 1 {
                    assert(pieces[i] == init[i]);
                } else {
                    assert(!init[i].contains(sep));
                    if pieces[i].contains(sep) {
                        let k = choose|k: int| 0 <= k < pieces[i].len() && pieces[i][k] == sep;
                        assert(init[i][k] == sep);
                    }
                }
            }
        }
    }
}

/// As long as fewer pieces are there than are allowed, a limit does not matter.
proof fn lemma_limited_below(s: Text, sep: char, limit: nat)
    requires
        split_on(s, sep).len() <= limit,
    ensures
        split_limit(s, sep, limit) == split_on(s, sep),
    decreases s.len(),
{
    if s.len() > 0 {
        lemma_split_not_empty(s.drop_last(), sep);
        lemma_limited_below(s.drop_last(), sep, limit);
    }
}

/// Once the pieces that are allowed are there, the last takes what follows.
proof fn lemma_limited_rest(a: Text, b: Text, sep: char, limit: nat)
    requires
        limit > 0,
        split_limit(a, sep, limit).len() == limit,
    ensures
        split_limit(a + b, sep, limit) == split_limit(a, sep, limit).drop_last().push(
            split_limit(a, sep, limit).last() + b,
        ),
    decreases b.len(),
{
    let s = a + b;
    let pieces = split_limit(a, sep, limit);
    if b.len() == 0 {
        assert(s =~= a);
        assert(pieces.last() + b =~= pieces.last());
        assert(pieces =~= pieces.drop_last().push(pieces.last() + b));
    } else {
        lemma_limited_rest(a, b.drop_last(), sep, limit);
        assert(s.drop_last() =~= a + b.drop_last());
        assert((pieces.last() + b.drop_last()).push(b.last()) =~= pieces.last() + b);
        assert(split_limit(s, sep, limit) =~= pieces.drop_last().push(pieces.last() + b));
    }
}

/// Texts without the separator and one more text, joined by the separator, are
/// what the joined text is split into where that many pieces are allowed: the
/// last piece keeps whatever separators it holds.
pub proof fn law_limited_split_keeps_rest(parts: Seq<Text>, rest: Text, sep: char)
    requires
        parts.len() > 0,
        forall|i: int| 0 <= i < parts.len() ==> !(#[trigger] parts[i]).contains(sep),
    ensures
        split_limit(join(parts, seq![sep]) + seq![sep] + rest, sep, parts.len() + 1)
            == parts.push(rest),
{
    let limit = parts.len() + 1;
    let head = join(parts, seq![sep]);
    let a = head + seq![sep];
    let none = Seq::<char>::empty();
    law_split_undoes_join(parts, sep);
    assert(a =~= head + seq![sep] + none);
    law_split_at_separator(head, none, sep);
    assert(split_on(none, sep) =~= seq![none]);
    assert(split_on(a, sep) =~= parts.push(none));
    lemma_limited_below(a, sep, limit);
    lemma_limited_rest(a, rest, sep, limit);
    assert(parts.push(none).drop_last() =~= parts);
    assert(none + rest =~= rest);
}

// ---------------------------------------------------------------------------
// Lines and words
// ---------------------------------------------------------------------------
/// The lines of a text that begins with a line and a line feed are that line,
/// without a carriage return at its end, and the lines of what follows. A text
/// without a line feed is one line, unless it is empty.
pub proof fn law_lines(line: Text, rest: Text)
    requires
        !line.contains('\n'),
    ensures
        lines(line + seq!['\n'] + rest) == seq![without_carriage_return(line)] + lines(rest),
        line.len() > 0 ==> lines(line) == seq![line],
        lines(Seq::empty()) == Seq::<Text>::empty(),
{
    law_split_at_separator(line, rest, '\n');
    lemma_split_whole(line, '\n');
    lemma_split_not_empty(rest, '\n');
    let after = split_on(rest, '\n');
    let pieces = split_on(line + seq!['\n'] + rest, '\n');
    let cut = |line: Text| without_carriage_return(line);
    assert(pieces =~= seq![line] + after);
    assert(pieces.drop_last() =~= seq![line] + after.drop_last());
    assert(pieces.drop_last().map_values(cut) =~= seq![without_carriage_return(line)]
        + after.drop_last().map_values(cut));
    assert(lines(line + seq!['\n'] + rest) =~= seq![without_carriage_return(line)] + lines(rest));
    assert(seq![line].drop_last().map_values(cut) =~= Seq::empty());
    assert(line.len() > 0 ==> lines(line) =~= seq![line]);
    assert(lines(Seq::empty()) =~= Seq::<Text>::empty());
}

proof fn lemma_words_end(s: Text)
    requires
        s.len() > 0,
        !is_white_space(s.last()),
    ensures
        words(s).len() > 0,
    decreases s.len(),
{
}

/// The words of what stands before a white space character and of what stands
/// after it are the words of the whole. A text without white space is one word,
/// unless it is empty.
pub proof fn law_words_at_white_space(a: Text, c: char, b: Text)
    requires
        is_white_space(c),
    ensures
        words(a + seq![c] + b) == words(a) + words(b),
    decreases b.len(),
{
    let s = a + seq![c] + b;
    if b.len() == 0 {
        assert(s.drop_last() =~= a);
        assert(words(s) =~= words(a) + words(b));
    } else {
        law_words_at_white_space(a, c, b.drop_last());
        assert(s.drop_last() =~= a + seq![c] + b.drop_last());
        assert(s.last() == b.last());
        if is_white_space(b.last()) {
            assert(words(s) =~= words(a) + words(b));
        } else if b.len() == 1 {
            assert(s[s.len() - 2] == c);
            assert(words(b.drop_last()) =~= Seq::empty());
            assert(words(s) =~= words(a) + words(b));
        } else {
            assert(s[s.len() - 2] == b[b.len() - 2]);
            if !is_white_space(b[b.len() - 2]) {
                lemma_words_end(b.drop_last());
            }
            assert(words(s) =~= words(a) + words(b));
        }
    }
}

/// A text without white space is one word, unless it is empty.
pub proof fn law_word(s: Text)
    requires
        forall|i: int| 0 <= i < s.len() ==> !is_white_space(#[trigger] s[i]),
    ensures
        words(s) == if s.len() > 0 {
            seq![s]
        } else {
            Seq::empty()
        },
    decreases s.len(),
{
    if s.len() > 1 {
        let init = s.drop_last();
        assert forall|i: int| 0 <= i < init.len() implies !is_white_space(#[trigger] init[i]) by {
            assert(init[i] == s[i]);
        }
        law_word(init);
        assert(init.push(s.last()) =~= s);
        assert(words(s) =~= seq![s]);
    } else if s.len() == 1 {
        assert(words(s.drop_last()) =~= Seq::empty());
        assert(s =~= seq![s.last()]);
        assert(words(s) =~= seq![s]);
    }
}

/// Words that are joined by spaces are the words of the joined text.
pub proof fn law_words_undo_join(parts: Seq<Text>)
    requires
        forall|i: int|
            0 <= i < parts.len() ==> (#[trigger] parts[i]).len() > 0 && forall|k: int|
                0 <= k < parts[i].len() ==> !is_white_space(#[trigger] parts[i][k]),
    ensures
        words(join(parts, seq![' '])) == parts,
    decreases parts.len(),
{
    if parts.len() == 0 {
        assert(words(join(parts, seq![' '])) =~= parts);
    } else if parts.len() == 1 {
        law_word(parts[0]);
        assert(parts =~= seq![parts[0]]);
    } else {
        let init = parts.drop_last();
        assert forall|i: int| 0 <= i < init.len() implies (#[trigger] init[i]).len() > 0
            && forall|k: int| 0 <= k < init[i].len() ==> !is_white_space(#[trigger] init[i][k]) by {
            assert(init[i] == parts[i]);
        }
        law_words_undo_join(init);
        law_words_at_white_space(join(init, seq![' ']), ' ', parts.last());
        law_word(parts.last());
        assert(init + seq![parts.last()] =~= parts);
    }
}

} // verus!
