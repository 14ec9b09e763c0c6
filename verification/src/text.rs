//! Text as sequences of Unicode scalar values: the vocabulary in which every
//! rule of this crate is stated, and its executable counterpart.
use vstd::prelude::*;
use vstd::utf8::encode_utf8;

verus! {

/// The mathematical content of a string.
pub type Text = Seq<char>;

// ---------------------------------------------------------------------------
// Building strings
// ---------------------------------------------------------------------------
/// `String::push` appends one scalar value to the end of the string.
pub assume_specification[ String::push ](s: &mut String, c: char)
    ensures
        final(s)@ == old(s)@.push(c),
;

/// The scalar values of `s`, in order.
pub fn chars_of(s: &str) -> (r: Vec<char>)
    ensures
        r@ == s@,
{
    let mut r: Vec<char> = Vec::new();
    for c in it: s.chars()
        invariant
            it.seq() == s@,
            r@ == s@.take(it.index() as int),
    {
        r.push(c);
    }
    assert(s@.take(s@.len() as int) =~= s@);
    r
}

/// The string made of the scalar values `v[from..to]`.
pub fn string_of(v: &Vec<char>, from: usize, to: usize) -> (r: String)
    requires
        from <= to <= v@.len(),
    ensures
        r@ == v@.subrange(from as int, to as int),
{
    let mut r: String = String::new();
    let mut i: usize = from;
    assert(v@.subrange(from as int, from as int) =~= Seq::<char>::empty());
    while i < to
        invariant
            from <= i <= to <= v@.len(),
            r@ == v@.subrange(from as int, i as int),
        decreases to - i,
    {
        r.push(v[i]);
        assert(v@.subrange(from as int, i + 1) =~= v@.subrange(from as int, i as int).push(v@[i as int]));
        i += 1;
    }
    r
}

/// `a` followed by `b`.
pub fn concat(a: &str, b: &str) -> (r: String)
    ensures
        r@ == a@ + b@,
{
    let mut r: String = a.to_owned();
    r.append(b);
    r
}

/// `a`, `b` and `c` one after the other.
pub fn concat3(a: &str, b: &str, c: &str) -> (r: String)
    ensures
        r@ == a@ + b@ + c@,
{
    let mut r: String = concat(a, b);
    r.append(c);
    r
}

/// Whether two strings hold the same text.
pub fn same_text(a: &str, b: &str) -> (r: bool)
    ensures
        r == (a@ == b@),
{
    a.to_owned() == b.to_owned()
}

/// A copy of an optional string.
pub fn clone_optional(s: &Option<String>) -> (r: Option<String>)
    ensures
        r.deep_view() == s.deep_view(),
{
    match s {
        Some(s) => Some(s.clone()),
        None => None,
    }
}

/// A copy of a list of strings.
pub fn clone_texts(v: &Vec<String>) -> (r: Vec<String>)
    ensures
        r.deep_view() == v.deep_view(),
{
    let mut r: Vec<String> = Vec::new();
    let mut i: usize = 0;
    while i < v.len()
        invariant
            i <= v@.len(),
            r@.len() == i,
            forall|k: int| 0 <= k < i ==> (#[trigger] r@[k])@ == v@[k]@,
        decreases v@.len() - i,
    {
        r.push(v[i].clone());
        i += 1;
    }
    assert(r.deep_view() =~= v.deep_view());
    r
}

// ---------------------------------------------------------------------------
// Character classes
// ---------------------------------------------------------------------------
/// The Unicode property `White_Space`.
pub open spec fn is_white_space(c: char) -> bool {
    ||| '\u{9}' <= c <= '\u{d}'
    ||| c == ' '
    ||| c == '\u{85}'
    ||| c == '\u{a0}'
    ||| c == '\u{1680}'
    ||| '\u{2000}' <= c <= '\u{200a}'
    ||| c == '\u{2028}'
    ||| c == '\u{2029}'
    ||| c == '\u{202f}'
    ||| c == '\u{205f}'
    ||| c == '\u{3000}'
}

/// Whether `c` is white space.
pub fn white_space(c: char) -> (r: bool)
    ensures
        r == is_white_space(c),
{
    ('\u{9}' <= c && c <= '\u{d}') || c == ' ' || c == '\u{85}' || c == '\u{a0}' || c == '\u{1680}'
        || ('\u{2000}' <= c && c <= '\u{200a}') || c == '\u{2028}' || c == '\u{2029}' || c
        == '\u{202f}' || c == '\u{205f}' || c == '\u{3000}'
}

/// The Unicode general category `Cc`: the C0 controls, DEL and the C1 controls.
pub open spec fn is_control_char(c: char) -> bool {
    ||| c <= '\u{1f}'
    ||| '\u{7f}' <= c <= '\u{9f}'
}

/// Whether `c` is a control character.
pub fn control_char(c: char) -> (r: bool)
    ensures
        r == is_control_char(c),
{
    c <= '\u{1f}' || ('\u{7f}' <= c && c <= '\u{9f}')
}

/// Some control character occurs in `s`.
pub open spec fn has_control(s: Text) -> bool {
    exists|i: int| 0 <= i < s.len() && is_control_char(#[trigger] s[i])
}

/// Whether some control character occurs in `s`.
pub fn contains_control(s: &Vec<char>) -> (r: bool)
    ensures
        r == has_control(s@),
{
    let mut i: usize = 0;
    while i < s.len()
        invariant
            i <= s@.len(),
            forall|k: int| 0 <= k < i ==> !is_control_char(#[trigger] s@[k]),
        decreases s@.len() - i,
    {
        if control_char(s[i]) {
            assert(is_control_char(s@[i as int]));
            return true;
        }
        i += 1;
    }
    false
}

/// Whether `c` occurs in `s`.
pub fn contains_char(s: &Vec<char>, c: char) -> (r: bool)
    ensures
        r == s@.contains(c),
{
    let mut i: usize = 0;
    while i < s.len()
        invariant
            i <= s@.len(),
            forall|k: int| 0 <= k < i ==> s@[k] != c,
        decreases s@.len() - i,
    {
        if s[i] == c {
            assert(s@[i as int] == c);
            return true;
        }
        i += 1;
    }
    false
}

// ---------------------------------------------------------------------------
// Sizes
// ---------------------------------------------------------------------------
/// The length of `s` in UTF-8 bytes.
pub open spec fn byte_len(s: Text) -> nat {
    encode_utf8(s).len()
}

/// The length of `s` in UTF-8 bytes.
pub fn length_in_bytes(s: &str) -> (r: usize)
    ensures
        r == byte_len(s@),
{
    s.as_bytes().len()
}

/// The byte length of a concatenation is the sum of the byte lengths.
pub proof fn lemma_byte_len_concat(a: Text, b: Text)
    ensures
        byte_len(a + b) == byte_len(a) + byte_len(b),
    decreases a.len(),
{
    if a.len() == 0 {
        assert(a + b =~= b);
    } else {
        lemma_byte_len_concat(a.drop_first(), b);
        assert((a + b).drop_first() =~= a.drop_first() + b);
        assert((a + b)[0] == a[0]);
    }
}

// ---------------------------------------------------------------------------
// Trimming
// ---------------------------------------------------------------------------
/// `s` without its leading white space.
pub open spec fn trim_start(s: Text) -> Text
    decreases s.len(),
{
    if s.len() > 0 && is_white_space(s[0]) {
        trim_start(s.drop_first())
    } else {
        s
    }
}

/// `s` without its trailing white space.
pub open spec fn trim_end(s: Text) -> Text
    decreases s.len(),
{
    if s.len() > 0 && is_white_space(s.last()) {
        trim_end(s.drop_last())
    } else {
        s
    }
}

/// `s` without leading and trailing white space.
pub open spec fn trim(s: Text) -> Text {
    trim_end(trim_start(s))
}

/// A copy of `s` without leading and trailing white space.
pub fn trimmed(s: &str) -> (r: String)
    ensures
        r@ == trim(s@),
{
    let v: Vec<char> = chars_of(s);
    let mut i: usize = 0;
    assert(s@.skip(0) =~= s@);
    while i < v.len() && white_space(v[i])
        invariant
            v@ == s@,
            i <= v@.len(),
            trim_start(s@) == trim_start(s@.skip(i as int)),
        decreases v@.len() - i,
    {
        assert(s@.skip(i as int).drop_first() =~= s@.skip(i + 1));
        i += 1;
    }
    assert(trim_start(s@) == s@.skip(i as int));
    let mut j: usize = v.len();
    assert(s@.subrange(i as int, j as int) =~= s@.skip(i as int));
    while i < j && white_space(v[j - 1])
        invariant
            v@ == s@,
            i <= j <= v@.len(),
            trim(s@) == trim_end(s@.subrange(i as int, j as int)),
        decreases j,
    {
        assert(s@.subrange(i as int, j as int).drop_last() =~= s@.subrange(i as int, j - 1));
        j -= 1;
    }
    string_of(&v, i, j)
}

/// A text is blank when it holds nothing but white space.
pub open spec fn is_blank(s: Text) -> bool {
    forall|i: int| 0 <= i < s.len() ==> is_white_space(#[trigger] s[i])
}

/// Whether `s` holds nothing but white space.
pub fn blank(s: &str) -> (r: bool)
    ensures
        r == is_blank(s@),
{
    assert(s@.skip(0) =~= s@);
    blank_from(&chars_of(s), 0)
}

/// Whether `s[from..]` holds nothing but white space.
pub fn blank_from(s: &Vec<char>, from: usize) -> (r: bool)
    requires
        from <= s@.len(),
    ensures
        r == is_blank(s@.skip(from as int)),
{
    let mut i: usize = from;
    while i < s.len()
        invariant
            from <= i <= s@.len(),
            forall|k: int| 0 <= k < i - from ==> is_white_space(#[trigger] s@.skip(from as int)[k]),
        decreases s@.len() - i,
    {
        if !white_space(s[i]) {
            assert(!is_white_space(s@.skip(from as int)[i - from]));
            return false;
        }
        i += 1;
    }
    true
}

proof fn lemma_trim_start_blank(s: Text)
    ensures
        is_blank(s) <==> trim_start(s).len() == 0,
        trim_start(s).len() > 0 ==> !is_white_space(trim_start(s)[0]),
    decreases s.len(),
{
    if s.len() > 0 && is_white_space(s[0]) {
        lemma_trim_start_blank(s.drop_first());
        if is_blank(s.drop_first()) {
            assert forall|i: int| 0 <= i < s.len() implies is_white_space(#[trigger] s[i]) by {
                if i > 0 {
                    assert(s.drop_first()[i - 1] == s[i]);
                }
            }
        }
        if is_blank(s) {
            assert forall|i: int| 0 <= i < s.len() - 1 implies is_white_space(
                #[trigger] s.drop_first()[i],
            ) by {
                assert(s.drop_first()[i] == s[i + 1]);
            }
        }
    }
}

proof fn lemma_trim_end_blank(s: Text)
    ensures
        is_blank(s) <==> trim_end(s).len() == 0,
    decreases s.len(),
{
    if s.len() > 0 && is_white_space(s.last()) {
        lemma_trim_end_blank(s.drop_last());
        if is_blank(s.drop_last()) {
            assert forall|i: int| 0 <= i < s.len() implies is_white_space(#[trigger] s[i]) by {
                if i < s.len() - 1 {
                    assert(s.drop_last()[i] == s[i]);
                }
            }
        }
        if is_blank(s) {
            assert forall|i: int| 0 <= i < s.len() - 1 implies is_white_space(
                #[trigger] s.drop_last()[i],
            ) by {
                assert(s.drop_last()[i] == s[i]);
            }
        }
    } else if s.len() > 0 {
        assert(!is_white_space(s[s.len() - 1]));
    }
}

/// A text is blank exactly where nothing is left of it without its leading and
/// trailing white space.
pub proof fn law_blank_trims_to_nothing(s: Text)
    ensures
        is_blank(s) <==> trim(s).len() == 0,
{
    lemma_trim_start_blank(s);
    lemma_trim_end_blank(trim_start(s));
}

/// `s` without the characters `c` at its end.
pub open spec fn trim_end_char(s: Text, c: char) -> Text
    decreases s.len(),
{
    if s.len() > 0 && s.last() == c {
        trim_end_char(s.drop_last(), c)
    } else {
        s
    }
}

/// A copy of `s` without the characters `c` at its end.
pub fn trimmed_end_char(s: &str, c: char) -> (r: String)
    ensures
        r@ == trim_end_char(s@, c),
{
    let v: Vec<char> = chars_of(s);
    let mut j: usize = v.len();
    assert(s@.take(j as int) =~= s@);
    while 0 < j && v[j - 1] == c
        invariant
            v@ == s@,
            j <= v@.len(),
            trim_end_char(s@, c) == trim_end_char(s@.take(j as int), c),
        decreases j,
    {
        assert(s@.take(j as int).drop_last() =~= s@.take(j - 1));
        j -= 1;
    }
    assert(s@.take(j as int) =~= s@.subrange(0, j as int));
    string_of(&v, 0, j)
}

// ---------------------------------------------------------------------------
// Splitting
// ---------------------------------------------------------------------------
/// The pieces of `s` between the occurrences of `sep`, of which at most the
/// first `limit - 1` are taken: the last piece holds the rest.
pub open spec fn split_limit(s: Text, sep: char, limit: nat) -> Seq<Text>
    decreases s.len(),
{
    if s.len() == 0 {
        seq![Seq::<char>::empty()]
    } else {
        let pieces = split_limit(s.drop_last(), sep, limit);
        if s.last() == sep && pieces.len() < limit {
            pieces.push(Seq::<char>::empty())
        } else {
            pieces.drop_last().push(pieces.last().push(s.last()))
        }
    }
}

/// All the pieces of `s` between the occurrences of `sep`.
pub open spec fn split_on(s: Text, sep: char) -> Seq<Text>
    decreases s.len(),
{
    if s.len() == 0 {
        seq![Seq::<char>::empty()]
    } else {
        let pieces = split_on(s.drop_last(), sep);
        if s.last() == sep {
            pieces.push(Seq::<char>::empty())
        } else {
            pieces.drop_last().push(pieces.last().push(s.last()))
        }
    }
}

/// A split never loses its last piece.
pub proof fn lemma_split_not_empty(s: Text, sep: char)
    ensures
        split_on(s, sep).len() >= 1,
    decreases s.len(),
{
    if s.len() > 0 {
        lemma_split_not_empty(s.drop_last(), sep);
    }
}

/// A text in which the separator does not occur is its own and only piece.
pub proof fn lemma_split_whole(s: Text, sep: char)
    requires
        !s.contains(sep),
    ensures
        split_on(s, sep) == seq![s],
    decreases s.len(),
{
    if s.len() == 0 {
        assert(s =~= Seq::<char>::empty());
    } else {
        let head = s.drop_last();
        assert(!head.contains(sep)) by {
            if head.contains(sep) {
                let k = choose|k: int| 0 <= k < head.len() && head[k] == sep;
                assert(s[k] == sep);
            }
        }
        lemma_split_whole(head, sep);
        assert(s[s.len() - 1] == s.last());
        assert(seq![head].drop_last().push(head.push(s.last())) =~= seq![s]) by {
            assert(head.push(s.last()) =~= s);
        }
    }
}

/// The pieces of `s` between the occurrences of `sep`.
pub fn split_text(s: &str, sep: char) -> (r: Vec<String>)
    ensures
        r.deep_view() == split_on(s@, sep),
{
    let mut done: Vec<String> = Vec::new();
    let mut current: String = String::new();
    assert(done.deep_view() =~= Seq::<Text>::empty());
    assert(done.deep_view().push(current@) =~= split_on(s@.take(0), sep));
    for c in it: s.chars()
        invariant
            it.seq() == s@,
            done.deep_view().push(current@) == split_on(s@.take(it.index() as int), sep),
    {
        let ghost before = done.deep_view();
        let ghost head = s@.take(it.index() as int);
        assert(s@.take(it.index() + 1).drop_last() =~= head);
        assert(before.push(current@).drop_last() =~= before);
        if c == sep {
            let ghost piece = current@;
            done.push(current);
            current = String::new();
            assert(done.deep_view() =~= before.push(piece));
        } else {
            current.push(c);
        }
    }
    assert(s@.take(s@.len() as int) =~= s@);
    let ghost before = done.deep_view();
    let ghost piece = current@;
    done.push(current);
    assert(done.deep_view() =~= before.push(piece));
    done
}

/// The pieces of `s` at the first `limit - 1` occurrences of `sep`.
pub fn split_text_limit(s: &str, sep: char, limit: usize) -> (r: Vec<String>)
    ensures
        r.deep_view() == split_limit(s@, sep, limit as nat),
{
    let mut done: Vec<String> = Vec::new();
    let mut current: String = String::new();
    assert(done.deep_view() =~= Seq::<Text>::empty());
    assert(done.deep_view().push(current@) =~= split_limit(s@.take(0), sep, limit as nat));
    for c in it: s.chars()
        invariant
            it.seq() == s@,
            done.deep_view().push(current@) == split_limit(
                s@.take(it.index() as int),
                sep,
                limit as nat,
            ),
    {
        let ghost before = done.deep_view();
        let ghost head = s@.take(it.index() as int);
        assert(s@.take(it.index() + 1).drop_last() =~= head);
        assert(before.push(current@).drop_last() =~= before);
        if c == sep && done.len() < limit && limit - done.len() > 1 {
            let ghost piece = current@;
            done.push(current);
            current = String::new();
            assert(done.deep_view() =~= before.push(piece));
        } else {
            current.push(c);
        }
    }
    assert(s@.take(s@.len() as int) =~= s@);
    let ghost before = done.deep_view();
    let ghost piece = current@;
    done.push(current);
    assert(done.deep_view() =~= before.push(piece));
    done
}

/// A line of text, of which the line feed has been removed, without the
/// carriage return that stood before the line feed.
pub open spec fn without_carriage_return(line: Text) -> Text {
    if line.len() > 0 && line.last() == '\r' {
        line.drop_last()
    } else {
        line
    }
}

/// The lines of `s`. A line ends with a line feed or with a carriage return
/// and a line feed; the last line may go without.
pub open spec fn lines(s: Text) -> Seq<Text> {
    let pieces = split_on(s, '\n');
    let ended = pieces.drop_last().map_values(|line: Text| without_carriage_return(line));
    if pieces.last().len() == 0 {
        ended
    } else {
        ended.push(pieces.last())
    }
}

fn strip_carriage_return(line: &String) -> (r: String)
    ensures
        r@ == without_carriage_return(line@),
{
    let v: Vec<char> = chars_of(line.as_str());
    if v.len() > 0 && v[v.len() - 1] == '\r' {
        let r: String = string_of(&v, 0, v.len() - 1);
        assert(r@ =~= line@.drop_last());
        r
    } else {
        line.clone()
    }
}

/// The lines of `s`.
pub fn lines_of(s: &str) -> (r: Vec<String>)
    ensures
        r.deep_view() == lines(s@),
{
    let pieces: Vec<String> = split_text(s, '\n');
    proof {
        lemma_split_not_empty(s@, '\n');
    }
    let ghost all = split_on(s@, '\n');
    let ghost ended = all.drop_last().map_values(|line: Text| without_carriage_return(line));
    let mut r: Vec<String> = Vec::new();
    let mut i: usize = 0;
    assert(pieces@.len() == all.len());
    while i < pieces.len() - 1
        invariant
            pieces.deep_view() == all,
            pieces@.len() == all.len() >= 1,
            ended == all.drop_last().map_values(|line: Text| without_carriage_return(line)),
            i <= pieces@.len() - 1,
            r@.len() == i,
            forall|k: int| 0 <= k < i ==> (#[trigger] r@[k])@ == ended[k],
        decreases pieces@.len() - i,
    {
        assert(pieces@[i as int]@ == all[i as int]);
        r.push(strip_carriage_return(&pieces[i]));
        i += 1;
    }
    assert(r.deep_view() =~= ended);
    assert(pieces@[i as int]@ == all.last());
    if !pieces[i].as_str().is_empty() {
        r.push(pieces[i].clone());
        assert(r.deep_view() =~= ended.push(all.last()));
    }
    r
}

/// The first line of `s`, empty when there is none.
pub open spec fn first_line(s: Text) -> Text {
    if lines(s).len() > 0 {
        lines(s)[0]
    } else {
        Seq::empty()
    }
}

/// The first line of `s`, empty when there is none.
pub fn first_line_of(s: &str) -> (r: String)
    ensures
        r@ == first_line(s@),
{
    let all: Vec<String> = lines_of(s);
    assert(all.deep_view().len() == all@.len());
    if all.len() > 0 {
        assert(all.deep_view()[0] == all@[0]@);
        all[0].clone()
    } else {
        let r: String = String::new();
        assert(r@ =~= Seq::<char>::empty());
        r
    }
}

/// The maximal runs of characters of `s` that are not white space.
pub open spec fn words(s: Text) -> Seq<Text>
    decreases s.len(),
{
    if s.len() == 0 {
        Seq::empty()
    } else {
        let found = words(s.drop_last());
        if is_white_space(s.last()) {
            found
        } else if s.len() == 1 || is_white_space(s[s.len() - 2]) {
            found.push(seq![s.last()])
        } else {
            found.drop_last().push(found.last().push(s.last()))
        }
    }
}

/// The runs of characters of `s` that are not white space.
pub fn words_of(s: &str) -> (r: Vec<String>)
    ensures
        r.deep_view() == words(s@),
{
    let mut done: Vec<String> = Vec::new();
    let mut current: String = String::new();
    let mut open: bool = false;
    assert(done.deep_view() =~= Seq::<Text>::empty());
    assert(words(s@.take(0)) =~= Seq::<Text>::empty());
    for c in it: s.chars()
        invariant
            it.seq() == s@,
            open == (it.index() > 0 && !is_white_space(s@[it.index() - 1])),
            open ==> done.deep_view().push(current@) == words(s@.take(it.index() as int)),
            !open ==> done.deep_view() == words(s@.take(it.index() as int)) && current@.len() == 0,
    {
        let ghost before = done.deep_view();
        let ghost so_far = s@.take(it.index() as int);
        let ghost extended = s@.take(it.index() + 1);
        assert(extended.drop_last() =~= so_far);
        assert(before.push(current@).drop_last() =~= before);
        if white_space(c) {
            if open {
                let ghost piece = current@;
                done.push(current);
                assert(done.deep_view() =~= before.push(piece));
                current = String::new();
                open = false;
            }
        } else {
            let ghost piece = current@;
            current.push(c);
            if !open {
                assert(current@ =~= seq![c]);
                assert(extended.len() == 1 || is_white_space(extended[extended.len() - 2]));
            } else {
                assert(!is_white_space(extended[extended.len() - 2]));
            }
            open = true;
        }
    }
    assert(s@.take(s@.len() as int) =~= s@);
    if open {
        let ghost before = done.deep_view();
        let ghost piece = current@;
        done.push(current);
        assert(done.deep_view() =~= before.push(piece));
    }
    done
}

// ---------------------------------------------------------------------------
// Searching
// ---------------------------------------------------------------------------
/// Whether `s[from..]` starts with `p`.
pub fn starts_with_at(s: &Vec<char>, from: usize, p: &str) -> (r: bool)
    requires
        from <= s@.len(),
    ensures
        r == p@.is_prefix_of(s@.skip(from as int)),
{
    let q: Vec<char> = chars_of(p);
    let ghost rest = s@.skip(from as int);
    if s.len() - from < q.len() {
        return false;
    }
    let mut i: usize = 0;
    while i < q.len()
        invariant
            q@ == p@,
            rest == s@.skip(from as int),
            from <= s@.len() == s.len(),
            q@.len() <= s@.len() - from,
            i <= q@.len(),
            forall|k: int| 0 <= k < i ==> q@[k] == #[trigger] rest[k],
        decreases q@.len() - i,
    {
        if q[i] != s[from + i] {
            assert(p@[i as int] != rest.subrange(0, p@.len() as int)[i as int]);
            return false;
        }
        i += 1;
    }
    assert(p@ =~= rest.subrange(0, p@.len() as int));
    true
}

/// Whether `s` starts with `p`.
pub fn starts_with(s: &str, p: &str) -> (r: bool)
    ensures
        r == p@.is_prefix_of(s@),
{
    assert(s@.skip(0) =~= s@);
    starts_with_at(&chars_of(s), 0, p)
}

/// `p` occurs somewhere in `s`.
pub open spec fn contains_text(s: Text, p: Text) -> bool {
    exists|i: int| 0 <= i <= s.len() && p.is_prefix_of(#[trigger] s.skip(i))
}

/// Whether `p` occurs somewhere in `s`.
pub fn text_occurs(s: &str, p: &str) -> (r: bool)
    ensures
        r == contains_text(s@, p@),
{
    let v: Vec<char> = chars_of(s);
    let mut i: usize = 0;
    while i < v.len()
        invariant
            v@ == s@,
            i <= v@.len(),
            forall|k: int| 0 <= k < i ==> !p@.is_prefix_of(#[trigger] s@.skip(k)),
        decreases v@.len() - i,
    {
        if starts_with_at(&v, i, p) {
            return true;
        }
        i += 1;
    }
    let last: bool = starts_with_at(&v, i, p);
    assert(last == p@.is_prefix_of(s@.skip(i as int)));
    last
}

/// `s` with every `from` replaced by `to`.
pub open spec fn replace_char(s: Text, from: char, to: char) -> Text {
    s.map_values(
        |c: char|
            if c == from {
                to
            } else {
                c
            },
    )
}

/// A copy of `s` with every `from` replaced by `to`.
pub fn replaced_char(s: &str, from: char, to: char) -> (r: String)
    ensures
        r@ == replace_char(s@, from, to),
{
    let mut r: String = String::new();
    for c in it: s.chars()
        invariant
            it.seq() == s@,
            r@ == replace_char(s@.take(it.index() as int), from, to),
    {
        let ghost so_far = s@.take(it.index() as int);
        if c == from {
            r.push(to);
        } else {
            r.push(c);
        }
        assert(r@ =~= replace_char(s@.take(it.index() + 1), from, to));
    }
    assert(s@.take(s@.len() as int) =~= s@);
    r
}

// ---------------------------------------------------------------------------
// Lists of texts
// ---------------------------------------------------------------------------
/// The texts of `parts` with `sep` between them.
pub open spec fn join(parts: Seq<Text>, sep: Text) -> Text
    decreases parts.len(),
{
    if parts.len() == 0 {
        Seq::empty()
    } else if parts.len() == 1 {
        parts[0]
    } else {
        join(parts.drop_last(), sep) + sep + parts.last()
    }
}

/// The texts of `parts` with `sep` between them.
pub fn joined(parts: &Vec<String>, sep: &str) -> (r: String)
    ensures
        r@ == join(parts.deep_view(), sep@),
{
    let mut r: String = String::new();
    let mut i: usize = 0;
    let ghost all = parts.deep_view();
    assert(all.take(0) =~= Seq::<Text>::empty());
    assert(r@ =~= join(all.take(0), sep@));
    while i < parts.len()
        invariant
            all == parts.deep_view(),
            i <= parts@.len(),
            i == 0 ==> r@.len() == 0,
            r@ == join(all.take(i as int), sep@),
        decreases parts@.len() - i,
    {
        assert(all.take(i + 1).drop_last() =~= all.take(i as int));
        assert(all[i as int] == parts@[i as int]@);
        if i > 0 {
            r.append(sep);
        }
        r.append(parts[i].as_str());
        if i == 0 {
            assert(r@ =~= all[0]);
        }
        i += 1;
    }
    assert(all.take(all.len() as int) =~= all);
    r
}

/// Whether `x` is one of `list`.
pub fn text_listed(list: &Vec<String>, x: &str) -> (r: bool)
    ensures
        r == list.deep_view().contains(x@),
{
    let mut i: usize = 0;
    while i < list.len()
        invariant
            i <= list@.len(),
            forall|k: int| 0 <= k < i ==> #[trigger] list.deep_view()[k] != x@,
        decreases list@.len() - i,
    {
        assert(list.deep_view()[i as int] == list@[i as int]@);
        if same_text(list[i].as_str(), x) {
            return true;
        }
        i += 1;
    }
    false
}

/// `a` comes strictly before `b` in the lexicographic order of scalar values,
/// which is the order of the UTF-8 encodings.
pub open spec fn text_before(a: Text, b: Text) -> bool
    decreases a.len(),
{
    if b.len() == 0 {
        false
    } else if a.len() == 0 {
        true
    } else if a[0] == b[0] {
        text_before(a.drop_first(), b.drop_first())
    } else {
        a[0] < b[0]
    }
}

/// Whether `a` comes strictly before `b`.
pub fn comes_before(a: &str, b: &str) -> (r: bool)
    ensures
        r == text_before(a@, b@),
{
    let x: Vec<char> = chars_of(a);
    let y: Vec<char> = chars_of(b);
    let mut i: usize = 0;
    assert(x@.skip(0) =~= x@);
    assert(y@.skip(0) =~= y@);
    while i < x.len() && i < y.len() && x[i] == y[i]
        invariant
            x@ == a@,
            y@ == b@,
            i <= x@.len(),
            i <= y@.len(),
            text_before(a@, b@) == text_before(x@.skip(i as int), y@.skip(i as int)),
        decreases x@.len() - i,
    {
        assert(x@.skip(i as int).drop_first() =~= x@.skip(i + 1));
        assert(y@.skip(i as int).drop_first() =~= y@.skip(i + 1));
        i += 1;
    }
    if i >= y.len() {
        false
    } else if i >= x.len() {
        true
    } else {
        x[i] < y[i]
    }
}

/// The strictly ascending list `list` with `x` added at its place, unless it
/// is there already.
pub open spec fn insert_sorted(list: Seq<Text>, x: Text) -> Seq<Text>
    decreases list.len(),
{
    if list.len() == 0 {
        seq![x]
    } else if list.last() == x {
        list
    } else if text_before(list.last(), x) {
        list.push(x)
    } else {
        insert_sorted(list.drop_last(), x).push(list.last())
    }
}

/// Adds `x` at its place in a strictly ascending list, unless it is there.
pub fn insert_text(list: &mut Vec<String>, x: String)
    ensures
        final(list).deep_view() == insert_sorted(old(list).deep_view(), x@),
{
    let mut i: usize = list.len();
    let ghost all = list.deep_view();
    let ghost whole = insert_sorted(all, x@);
    assert(all.take(i as int) =~= all);
    assert(all.skip(i as int) =~= Seq::<Text>::empty());
    assert(insert_sorted(all.take(i as int), x@) + all.skip(i as int) =~= whole);
    while i > 0
        invariant
            all == list.deep_view(),
            whole == insert_sorted(all, x@),
            list@ == old(list)@,
            i <= list@.len(),
            insert_sorted(all.take(i as int), x@) + all.skip(i as int) == whole,
        decreases i,
    {
        let ghost head = all.take(i as int);
        assert(head.last() == list@[i - 1]@);
        assert(head.drop_last() =~= all.take(i - 1));
        if list[i - 1] == x {
            assert(whole =~= all);
            return;
        }
        if comes_before(list[i - 1].as_str(), x.as_str()) {
            assert(whole =~= all.insert(i as int, x@));
            list.insert(i, x);
            assert(list.deep_view() =~= all.insert(i as int, x@));
            return;
        }
        assert(insert_sorted(all.take(i - 1), x@) + all.skip(i - 1) =~= whole);
        i -= 1;
    }
    assert(all.take(0) =~= Seq::<Text>::empty());
    assert(whole =~= all.insert(0, x@));
    list.insert(0, x);
    assert(list.deep_view() =~= all.insert(0, x@));
}

/// Every text comes before those that follow it.
pub open spec fn ascending(list: Seq<Text>) -> bool {
    forall|i: int, j: int| 0 <= i < j < list.len() ==> text_before(list[i], list[j])
}

/// The order of texts is strict: none comes before itself, and two texts that
/// come before each other do not exist.
pub proof fn law_text_order_strict(a: Text, b: Text)
    ensures
        !(text_before(a, b) && text_before(b, a)),
        a == b ==> !text_before(a, b),
    decreases a.len(),
{
    if a.len() > 0 && b.len() > 0 && a[0] == b[0] {
        law_text_order_strict(a.drop_first(), b.drop_first());
    }
}

/// The order of texts is total: of two different texts one comes first.
pub proof fn law_text_order_total(a: Text, b: Text)
    ensures
        a != b ==> text_before(a, b) || text_before(b, a),
    decreases a.len(),
{
    if a.len() > 0 && b.len() > 0 && a[0] == b[0] {
        law_text_order_total(a.drop_first(), b.drop_first());
        if a.drop_first() == b.drop_first() {
            assert(a =~= seq![a[0]] + a.drop_first());
            assert(b =~= seq![b[0]] + b.drop_first());
        }
    } else if a.len() == 0 && b.len() == 0 {
        assert(a =~= b);
    }
}

/// The order of texts is transitive.
pub proof fn law_text_order_transitive(a: Text, b: Text, c: Text)
    requires
        text_before(a, b),
        text_before(b, c),
    ensures
        text_before(a, c),
    decreases a.len(),
{
    if a.len() > 0 && a[0] == b[0] && b[0] == c[0] {
        law_text_order_transitive(a.drop_first(), b.drop_first(), c.drop_first());
    }
}

/// Adding a text to an ascending list gives an ascending list with exactly
/// that text more.
pub proof fn law_insert_sorted(list: Seq<Text>, x: Text)
    requires
        ascending(list),
    ensures
        ascending(insert_sorted(list, x)),
        forall|y: Text| #[trigger]
            insert_sorted(list, x).contains(y) <==> list.contains(y) || y == x,
    decreases list.len(),
{
    let whole = insert_sorted(list, x);
    if list.len() == 0 {
        assert(whole[0] == x);
    } else if list.last() == x {
        assert(list[list.len() - 1] == x);
    } else if text_before(list.last(), x) {
        assert forall|i: int, j: int| 0 <= i < j < whole.len() implies text_before(
            whole[i],
            whole[j],
        ) by {
            if j == list.len() && i < list.len() - 1 {
                assert(text_before(list[i], list[list.len() - 1]));
                law_text_order_transitive(list[i], list.last(), x);
            }
        }
        assert forall|y: Text| #[trigger] whole.contains(y) <==> list.contains(y) || y == x by {
            assert(whole[list.len() as int] == x);
            if list.contains(y) {
                let k = choose|k: int| 0 <= k < list.len() && list[k] == y;
                assert(whole[k] == y);
            }
        }
    } else {
        let head = list.drop_last();
        assert(ascending(head));
        law_insert_sorted(head, x);
        law_text_order_total(list.last(), x);
        let front = insert_sorted(head, x);
        assert(whole =~= front.push(list.last()));
        assert forall|i: int, j: int| 0 <= i < j < whole.len() implies text_before(
            whole[i],
            whole[j],
        ) by {
            if j == front.len() {
                assert(front.contains(front[i]));
                if front[i] != x {
                    let k = choose|k: int| 0 <= k < head.len() && head[k] == front[i];
                    assert(text_before(list[k], list[list.len() - 1]));
                }
            }
        }
        assert forall|y: Text| #[trigger] whole.contains(y) <==> list.contains(y) || y == x by {
            if whole.contains(y) {
                let k = choose|k: int| 0 <= k < whole.len() && whole[k] == y;
                if k < front.len() {
                    assert(front.contains(y));
                    if head.contains(y) {
                        let m = choose|m: int| 0 <= m < head.len() && head[m] == y;
                        assert(list[m] == y);
                    }
                } else {
                    assert(list[list.len() - 1] == y);
                }
            }
            if list.contains(y) || y == x {
                if y == list.last() {
                    assert(whole[front.len() as int] == y);
                } else {
                    if list.contains(y) {
                        let m = choose|m: int| 0 <= m < list.len() && list[m] == y;
                        assert(head[m] == y);
                    }
                    assert(front.contains(y));
                    let k = choose|k: int| 0 <= k < front.len() && front[k] == y;
                    assert(whole[k] == y);
                }
            }
        }
    }
}

// ---------------------------------------------------------------------------
// Numbers
// ---------------------------------------------------------------------------
/// The decimal digit `d`.
pub open spec fn digit(d: nat) -> char {
    (48 + d) as char
}

/// The decimal representation of `n`, without leading zeroes.
pub open spec fn decimal(n: nat) -> Text
    decreases n,
{
    if n < 10 {
        seq![digit(n)]
    } else {
        decimal(n / 10).push(digit(n % 10))
    }
}

fn digit_char(d: u64) -> (r: char)
    requires
        d < 10,
    ensures
        r == digit(d as nat),
{
    (48u8 + d as u8) as char
}

/// The decimal representation of `n`.
pub fn decimal_of(n: u64) -> (r: String)
    ensures
        r@ == decimal(n as nat),
    decreases n,
{
    if n < 10 {
        let mut r: String = String::new();
        r.push(digit_char(n));
        assert(r@ =~= decimal(n as nat));
        r
    } else {
        let mut r: String = decimal_of(n / 10);
        r.push(digit_char(n % 10));
        r
    }
}

/// The decimal representation of a signed number.
pub open spec fn signed_decimal(n: int) -> Text {
    if n < 0 {
        seq!['-'] + decimal((-n) as nat)
    } else {
        decimal(n as nat)
    }
}

/// The decimal representation of `n`.
pub fn signed_decimal_of(n: i32) -> (r: String)
    ensures
        r@ == signed_decimal(n as int),
{
    if n < 0 {
        let mut r: String = String::new();
        r.push('-');
        assert(r@ =~= seq!['-']);
        r.append(decimal_of((-(n as i64)) as u64).as_str());
        r
    } else {
        decimal_of(n as u64)
    }
}

} // verus!
