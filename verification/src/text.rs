//! Character-level helpers shared by the parsers.

use vstd::prelude::*;
use vstd::std_specs::iter::IteratorSpec;

verus! {

/// The text of each string of a list.
pub open spec fn views(list: Seq<String>) -> Seq<Seq<char>> {
    list.map_values(|s: String| s@)
}

/// The text of an optional string.
pub open spec fn option_view(s: Option<String>) -> Option<Seq<char>> {
    match s {
        Some(s) => Some(s@),
        None => None,
    }
}

/// The texts of a list that grew by one string.
pub proof fn lemma_views_push(list: Seq<String>, s: String)
    ensures
        views(list.push(s)) == views(list).push(s@),
{
    assert(views(list.push(s)) =~= views(list).push(s@));
}

/// The characters of `s`, one element each.
pub(crate) fn chars_of(s: &str) -> (r: Vec<char>)
    ensures
        r@ == s@,
{
    let mut v: Vec<char> = Vec::new();
    for c in it: s.chars()
        invariant
            v@ == it.seq().take(it.index() as int),
            it.seq() == s@,
    {
        v.push(c);
    }
    v
}

/// Whether `text` begins with `pattern`.
pub(crate) fn starts_with(text: &Vec<char>, pattern: &str) -> (r: bool)
    ensures
        r == pattern@.is_prefix_of(text@),
{
    let mut i: usize = 0;
    for c in it: pattern.chars()
        invariant
            it.seq() == pattern@,
            i == it.index(),
            i <= text.len(),
            text@.take(i as int) == pattern@.take(i as int),
    {
        if i >= text.len() || text[i] != c {
            assert(!pattern@.is_prefix_of(text@)) by {
                if pattern@.is_prefix_of(text@) {
                    assert(text@.subrange(0, pattern@.len() as int)[i as int] == pattern@[i as int]);
                }
            }
            return false;
        }
        i += 1;
        assert(text@.take(i as int) =~= text@.take(i - 1).push(text@[i - 1]));
        assert(pattern@.take(i as int) =~= pattern@.take(i - 1).push(pattern@[i - 1]));
    }
    assert(pattern@ =~= text@.subrange(0, pattern@.len() as int));
    true
}

/// Whether `text` is exactly `pattern`.
pub(crate) fn equals(text: &Vec<char>, pattern: &str) -> (r: bool)
    ensures
        r == (text@ == pattern@),
{
    let n = pattern.unicode_len();
    let r = n == text.len() && starts_with(text, pattern);
    assert(text@.subrange(0, text@.len() as int) =~= text@);
    r
}

/// Whether `c` occurs in `text`.
pub(crate) fn contains_char(text: &Vec<char>, c: char) -> (r: bool)
    ensures
        r == text@.contains(c),
{
    let mut i: usize = 0;
    while i < text.len()
        invariant
            i <= text.len(),
            forall|j: int| 0 <= j < i ==> text@[j] != c,
        decreases text.len() - i,
    {
        if text[i] == c {
            return true;
        }
        i += 1;
    }
    false
}

/// `String::push` of std appends one character to the string.
pub assume_specification[ String::push ](s: &mut String, c: char)
    ensures
        final(s)@ == old(s)@.push(c),
;

/// The text of each list of characters.
pub open spec fn char_views(list: Seq<Vec<char>>) -> Seq<Seq<char>> {
    list.map_values(|l: Vec<char>| l@)
}

/// The texts of a list that grew by one list of characters.
pub proof fn lemma_char_views_push(list: Seq<Vec<char>>, l: Vec<char>)
    ensures
        char_views(list.push(l)) == char_views(list).push(l@),
{
    assert(char_views(list.push(l)) =~= char_views(list).push(l@));
}

/// The characters of `text` from `from` up to `to`.
pub(crate) fn slice_of(text: &Vec<char>, from: usize, to: usize) -> (r: Vec<char>)
    requires
        from <= to <= text.len(),
    ensures
        r@ == text@.subrange(from as int, to as int),
{
    let mut piece: Vec<char> = Vec::new();
    let mut i = from;
    while i < to
        invariant
            from <= i <= to <= text.len(),
            piece@ == text@.subrange(from as int, i as int),
        decreases to - i,
    {
        piece.push(text[i]);
        i += 1;
        assert(text@.subrange(from as int, i as int) =~= text@.subrange(from as int, i - 1).push(
            text@[i - 1],
        ));
    }
    piece
}

/// Appends the characters of `text` to `s`.
pub(crate) fn push_chars(s: &mut String, text: &Vec<char>)
    ensures
        final(s)@ == old(s)@ + text@,
{
    let mut i: usize = 0;
    assert(old(s)@ + text@.take(0) =~= old(s)@);
    while i < text.len()
        invariant
            i <= text.len(),
            s@ == old(s)@ + text@.take(i as int),
        decreases text.len() - i,
    {
        s.push(text[i]);
        i += 1;
        assert(old(s)@ + text@.take(i as int) =~= (old(s)@ + text@.take(i - 1)).push(
            text@[i - 1],
        ));
    }
    assert(text@.take(text.len() as int) =~= text@);
}

/// The characters of `text` as a string.
pub(crate) fn string_of(text: &Vec<char>) -> (r: String)
    ensures
        r@ == text@,
{
    let mut s = String::new();
    push_chars(&mut s, text);
    assert(Seq::<char>::empty() + text@ =~= text@);
    s
}

/// Whether `text` ends with `pattern`.
pub(crate) fn ends_with(text: &Vec<char>, pattern: &str) -> (r: bool)
    ensures
        r == pattern@.is_suffix_of(text@),
{
    let tail = chars_of(pattern);
    if tail.len() > text.len() {
        return false;
    }
    let offset = text.len() - tail.len();
    let mut i: usize = 0;
    while i < tail.len()
        invariant
            i <= tail.len(),
            tail@ == pattern@,
            offset + tail.len() == text.len(),
            forall|j: int| 0 <= j < i ==> text@[offset + j] == tail@[j],
        decreases tail.len() - i,
    {
        if text[offset + i] != tail[i] {
            assert(!pattern@.is_suffix_of(text@)) by {
                if pattern@.is_suffix_of(text@) {
                    assert(text@.subrange(offset as int, text@.len() as int)[i as int]
                        == pattern@[i as int]);
                }
            }
            return false;
        }
        i += 1;
    }
    assert(pattern@ =~= text@.subrange(offset as int, text@.len() as int));
    true
}

/// Whether `c` is white space: a character with the Unicode property
/// `White_Space`.
pub open spec fn is_whitespace(c: char) -> bool {
    let u = c as int;
    ||| 0x09 <= u <= 0x0D
    ||| u == 0x20
    ||| u == 0x85
    ||| u == 0xA0
    ||| u == 0x1680
    ||| 0x2000 <= u <= 0x200A
    ||| u == 0x2028
    ||| u == 0x2029
    ||| u == 0x202F
    ||| u == 0x205F
    ||| u == 0x3000
}

/// Whether `c` is white space.
pub(crate) fn whitespace(c: char) -> (r: bool)
    ensures
        r == is_whitespace(c),
{
    let u: u32 = c as u32;
    (0x09 <= u && u <= 0x0D) || u == 0x20 || u == 0x85 || u == 0xA0 || u == 0x1680 || (0x2000 <= u
        && u <= 0x200A) || u == 0x2028 || u == 0x2029 || u == 0x202F || u == 0x205F || u
        == 0x3000
}

/// The first position from `from` on that holds no white space, or the
/// length of `text`.
pub open spec fn skip_whitespace(text: Seq<char>, from: int) -> int
    decreases text.len() - from,
{
    if 0 <= from < text.len() && is_whitespace(text[from]) {
        skip_whitespace(text, from + 1)
    } else {
        from
    }
}

/// The end of `text` once the white space before `to` is dropped, down to
/// `floor` at most.
pub open spec fn strip_whitespace(text: Seq<char>, floor: int, to: int) -> int
    decreases to - floor,
{
    if floor < to <= text.len() && is_whitespace(text[to - 1]) {
        strip_whitespace(text, floor, to - 1)
    } else {
        to
    }
}

/// `text` without the white space at either end.
pub open spec fn trim(text: Seq<char>) -> Seq<char> {
    let start = skip_whitespace(text, 0);
    text.subrange(start, strip_whitespace(text, start, text.len() as int))
}

/// The part of `text` from `from` on, without white space at either end.
pub(crate) fn trimmed_tail(text: &Vec<char>, from: usize) -> (r: Vec<char>)
    requires
        from <= text.len(),
    ensures
        r@ == trim(text@.skip(from as int)),
{
    let ghost tail = text@.skip(from as int);
    let n = text.len();
    let mut start = from;
    while start < n && whitespace(text[start])
        invariant
            from <= start <= n,
            n == text.len(),
            tail == text@.skip(from as int),
            skip_whitespace(tail, start - from) == skip_whitespace(tail, 0),
        decreases n - start,
    {
        start += 1;
    }
    let mut end = n;
    while end > start && whitespace(text[end - 1])
        invariant
            start <= end <= n,
            from <= start,
            n == text.len(),
            tail == text@.skip(from as int),
            strip_whitespace(tail, start - from, end - from) == strip_whitespace(
                tail,
                start - from,
                n - from,
            ),
        decreases end,
    {
        end -= 1;
    }
    let r = slice_of(text, start, end);
    assert(r@ =~= tail.subrange(start - from, end - from));
    r
}

/// `line` without a carriage return at its end.
pub open spec fn without_cr(line: Seq<char>) -> Seq<char> {
    if line.len() > 0 && line.last() == '\r' {
        line.drop_last()
    } else {
        line
    }
}

/// The lines of `text` from `at` on, the first of which began at `start`.
pub open spec fn lines_scan(text: Seq<char>, start: int, at: int) -> Seq<Seq<char>>
    decreases text.len() - at,
{
    if at < 0 || at >= text.len() {
        if 0 <= start < text.len() {
            seq![text.subrange(start, text.len() as int)]
        } else {
            Seq::empty()
        }
    } else if text[at] == '\n' {
        seq![without_cr(text.subrange(start, at))] + lines_scan(text, at + 1, at + 1)
    } else {
        lines_scan(text, start, at + 1)
    }
}

/// The lines of `text`. A line ends at a line feed, or at the end of the
/// text if characters are left there; a carriage return just before the
/// line feed is not part of the line.
pub open spec fn lines(text: Seq<char>) -> Seq<Seq<char>> {
    lines_scan(text, 0, 0)
}

/// Splits `text` into its lines.
pub(crate) fn split_lines(text: &Vec<char>) -> (r: Vec<Vec<char>>)
    ensures
        char_views(r@) == lines(text@),
{
    let n = text.len();
    let mut found: Vec<Vec<char>> = Vec::new();
    let mut start: usize = 0;
    let mut at: usize = 0;
    assert(char_views(found@) + lines_scan(text@, 0, 0) =~= lines(text@));
    while at < n
        invariant
            n == text.len(),
            start <= at <= n,
            char_views(found@) + lines_scan(text@, start as int, at as int) == lines(text@),
        decreases n - at,
    {
        if text[at] == '\n' {
            let end = if at > start && text[at - 1] == '\r' {
                at - 1
            } else {
                at
            };
            let line = slice_of(text, start, end);
            proof {
                let whole = text@.subrange(start as int, at as int);
                assert(line@ =~= without_cr(whole));
                lemma_char_views_push(found@, line);
                assert(char_views(found@).push(line@) + lines_scan(text@, at + 1, at + 1)
                    =~= char_views(found@) + lines_scan(text@, start as int, at as int));
            }
            found.push(line);
            start = at + 1;
        }
        at += 1;
    }
    if start < n {
        let line = slice_of(text, start, n);
        proof {
            lemma_char_views_push(found@, line);
            assert(char_views(found@).push(line@) =~= char_views(found@) + lines_scan(
                text@,
                start as int,
                at as int,
            ));
        }
        found.push(line);
    } else {
        assert(char_views(found@) + lines_scan(text@, start as int, at as int) =~= char_views(
            found@,
        ));
    }
    found
}

} // verus!
