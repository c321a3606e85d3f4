//! Character-sequence primitives shared by every tool: conversion between
//! strings and character vectors, substring search, line splitting, joining
//! and decimal rendering. All contracts are stated over `Seq<char>`.

use vstd::prelude::*;
use vstd::string::StringExecFns;

verus! {

/// `needle` occurs in `hay` starting at index `at`.
pub open spec fn occurs_at(needle: Seq<char>, hay: Seq<char>, at: int) -> bool {
    &&& 0 <= at
    &&& at + needle.len() <= hay.len()
    &&& hay.subrange(at, at + needle.len()) == needle
}

/// `needle` occurs somewhere in `hay` as a contiguous run of characters.
pub open spec fn is_substring(needle: Seq<char>, hay: Seq<char>) -> bool {
    exists|at: int| occurs_at(needle, hay, at)
}

/// `s` begins with `prefix`.
pub open spec fn has_prefix(s: Seq<char>, prefix: Seq<char>) -> bool {
    occurs_at(prefix, s, 0)
}

/// `s` ends with `suffix`.
pub open spec fn has_suffix(s: Seq<char>, suffix: Seq<char>) -> bool {
    occurs_at(suffix, s, s.len() - suffix.len())
}

/// The first `n` characters of `s`, or all of `s` when it is shorter.
pub open spec fn first_chars(s: Seq<char>, n: nat) -> Seq<char> {
    if s.len() <= n {
        s
    } else {
        s.take(n as int)
    }
}

/// The first `n` items of `s`, or all of `s` when it is shorter.
pub open spec fn first_n<T>(s: Seq<T>, n: nat) -> Seq<T> {
    if s.len() <= n {
        s
    } else {
        s.take(n as int)
    }
}

/// `line` without one trailing carriage return, if it has one.
pub open spec fn strip_cr(line: Seq<char>) -> Seq<char> {
    if line.len() > 0 && line.last() == '\r' {
        line.drop_last()
    } else {
        line
    }
}

/// The lines of `s` that remain to be produced when the current line began
/// at `start` and scanning has reached `pos`.
pub open spec fn lines_from(s: Seq<char>, start: int, pos: int) -> Seq<Seq<char>>
    decreases s.len() - pos,
{
    if pos >= s.len() {
        if start < s.len() {
            seq![s.subrange(start, s.len() as int)]
        } else {
            Seq::empty()
        }
    } else if s[pos] == '\n' {
        seq![strip_cr(s.subrange(start, pos))] + lines_from(s, pos + 1, pos + 1)
    } else {
        lines_from(s, start, pos + 1)
    }
}

/// The lines of a text. A line ends at a line feed; a carriage return just
/// before that line feed belongs to the line ending. A final line without a
/// line feed is kept as it is, and a text that ends in a line feed has no
/// empty line after it.
pub open spec fn lines_of(s: Seq<char>) -> Seq<Seq<char>> {
    lines_from(s, 0, 0)
}

/// The parts, with `sep` between each two neighbours.
pub open spec fn join_with(parts: Seq<Seq<char>>, sep: Seq<char>) -> Seq<char>
    decreases parts.len(),
{
    if parts.len() == 0 {
        Seq::empty()
    } else if parts.len() == 1 {
        parts[0]
    } else {
        join_with(parts.drop_last(), sep) + sep + parts.last()
    }
}

/// The views of a sequence of strings.
pub open spec fn views(v: Seq<String>) -> Seq<Seq<char>> {
    v.map_values(|s: String| s@)
}

/// The view of an optional text.
pub open spec fn text_view(t: Option<String>) -> Option<Seq<char>> {
    match t {
        Some(s) => Some(s@),
        None => None,
    }
}

/// The views of a sequence of character vectors.
pub open spec fn vec_views(v: Seq<Vec<char>>) -> Seq<Seq<char>> {
    v.map_values(|s: Vec<char>| s@)
}

/// The decimal digit for `d`, which is below ten.
pub open spec fn digit_of(d: nat) -> char {
    if d == 0 {
        '0'
    } else if d == 1 {
        '1'
    } else if d == 2 {
        '2'
    } else if d == 3 {
        '3'
    } else if d == 4 {
        '4'
    } else if d == 5 {
        '5'
    } else if d == 6 {
        '6'
    } else if d == 7 {
        '7'
    } else if d == 8 {
        '8'
    } else {
        '9'
    }
}

/// The decimal numeral of `n`, without leading zeros.
pub open spec fn decimal_of(n: nat) -> Seq<char>
    decreases n,
{
    if n < 10 {
        seq![digit_of(n)]
    } else {
        decimal_of(n / 10).push(digit_of(n % 10))
    }
}

/// The lower-case form of a text under the Unicode case mapping.
pub uninterp spec fn lowercase_of(s: Seq<char>) -> Seq<char>;

/// `String::push` appends one character.
pub assume_specification[ String::push ](s: &mut String, c: char)
    ensures
        final(s)@ == old(s)@.push(c),
;

/// `str::to_lowercase`: the text with every character replaced by its
/// Unicode lower-case mapping. The mapping is not spelled out here; the
/// result is known only as `lowercase_of` of the argument.
#[verifier::external_body]
pub(crate) fn lowercase(s: &str) -> (r: String)
    ensures
        r@ == lowercase_of(s@),
{
    s.to_lowercase()
}

/// The characters of `s`, in order.
pub fn chars_of(s: &str) -> (v: Vec<char>)
    ensures
        v@ == s@,
{
    let mut v: Vec<char> = Vec::new();
    for c in it: s.chars()
        invariant
            it.seq() == s@,
            v@ == it.history(),
    {
        v.push(c);
    }
    assert(v@ =~= s@);
    v
}

/// Appends the characters of `v` to `s`.
pub fn push_chars(s: &mut String, v: &Vec<char>)
    ensures
        final(s)@ == old(s)@ + v@,
{
    let mut i: usize = 0;
    while i < v.len()
        invariant
            i <= v.len(),
            s@ == old(s)@ + v@.take(i as int),
        decreases v.len() - i,
    {
        s.push(v[i]);
        i += 1;
        assert(v@.take(i as int) =~= v@.take(i - 1).push(v@[i - 1]));
        assert(s@ =~= old(s)@ + v@.take(i as int));
    }
    assert(v@.take(v.len() as int) =~= v@);
}

/// The string whose characters are those of `v`, in order.
pub fn string_of(v: &Vec<char>) -> (s: String)
    ensures
        s@ == v@,
{
    let mut s = String::new();
    push_chars(&mut s, v);
    assert(s@ =~= v@);
    s
}

/// Whether `needle` stands in `hay` at index `at`.
fn matches_at(hay: &Vec<char>, needle: &Vec<char>, at: usize) -> (r: bool)
    requires
        at + needle.len() <= hay.len(),
    ensures
        r == occurs_at(needle@, hay@, at as int),
{
    let mut j: usize = 0;
    while j < needle.len()
        invariant
            j <= needle.len(),
            at + needle.len() <= hay.len(),
            forall|k: int| 0 <= k < j ==> hay@[at + k] == needle@[k],
        decreases needle.len() - j,
    {
        if hay[at + j] != needle[j] {
            assert(hay@.subrange(at as int, at + needle@.len())[j as int] == hay@[at + j]);
            return false;
        }
        j += 1;
    }
    assert(hay@.subrange(at as int, at + needle@.len()) =~= needle@);
    true
}

/// Whether `needle` occurs in `hay`.
pub fn contains(hay: &Vec<char>, needle: &Vec<char>) -> (r: bool)
    ensures
        r == is_substring(needle@, hay@),
{
    if needle.len() > hay.len() {
        return false;
    }
    if needle.len() == 0 {
        assert(occurs_at(needle@, hay@, 0)) by {
            assert(hay@.subrange(0, 0) =~= needle@);
        }
        return true;
    }
    let last = hay.len() - needle.len();
    let mut i: usize = 0;
    while i <= last
        invariant
            i <= last + 1,
            last == hay.len() - needle.len(),
            needle.len() > 0,
            forall|k: int| 0 <= k < i ==> !occurs_at(needle@, hay@, k),
        decreases last + 1 - i,
    {
        if matches_at(hay, needle, i) {
            return true;
        }
        i += 1;
    }
    false
}

/// Whether `s` begins with `prefix`.
pub fn starts_with(s: &Vec<char>, prefix: &Vec<char>) -> (r: bool)
    ensures
        r == has_prefix(s@, prefix@),
{
    if prefix.len() > s.len() {
        return false;
    }
    matches_at(s, prefix, 0)
}

/// Whether `s` ends with `suffix`.
pub fn ends_with(s: &Vec<char>, suffix: &Vec<char>) -> (r: bool)
    ensures
        r == has_suffix(s@, suffix@),
{
    if suffix.len() > s.len() {
        return false;
    }
    matches_at(s, suffix, s.len() - suffix.len())
}

/// Whether two character vectors hold the same text.
pub fn same_text(a: &Vec<char>, b: &Vec<char>) -> (r: bool)
    ensures
        r == (a@ == b@),
{
    if a.len() != b.len() {
        return false;
    }
    let r = matches_at(a, b, 0);
    assert(a@.subrange(0, a@.len() as int) =~= a@);
    r
}

/// Whether `needle` occurs in `hay`.
pub fn str_contains(hay: &str, needle: &str) -> (r: bool)
    ensures
        r == is_substring(needle@, hay@),
{
    let h = chars_of(hay);
    let n = chars_of(needle);
    contains(&h, &n)
}

/// Whether `s` begins with `prefix`.
pub fn str_starts_with(s: &str, prefix: &str) -> (r: bool)
    ensures
        r == has_prefix(s@, prefix@),
{
    let a = chars_of(s);
    let b = chars_of(prefix);
    starts_with(&a, &b)
}

/// Whether `s` ends with `suffix`.
pub fn str_ends_with(s: &str, suffix: &str) -> (r: bool)
    ensures
        r == has_suffix(s@, suffix@),
{
    let a = chars_of(s);
    let b = chars_of(suffix);
    ends_with(&a, &b)
}

/// Whether two strings hold the same text.
pub fn str_eq(a: &str, b: &str) -> (r: bool)
    ensures
        r == (a@ == b@),
{
    let x = chars_of(a);
    let y = chars_of(b);
    same_text(&x, &y)
}

/// A copy of the characters of `s` from `from` up to `to`.
pub fn slice_chars(s: &Vec<char>, from: usize, to: usize) -> (r: Vec<char>)
    requires
        from <= to <= s.len(),
    ensures
        r@ == s@.subrange(from as int, to as int),
{
    let mut r: Vec<char> = Vec::new();
    let mut i: usize = from;
    while i < to
        invariant
            from <= i <= to,
            to <= s.len(),
            r@ == s@.subrange(from as int, i as int),
        decreases to - i,
    {
        r.push(s[i]);
        i += 1;
        assert(r@ =~= s@.subrange(from as int, i as int));
    }
    r
}

/// The first `n` characters of `s`, or all of it when it is shorter.
pub fn take_chars(s: &Vec<char>, n: usize) -> (r: Vec<char>)
    ensures
        r@ == first_chars(s@, n as nat),
        r@.len() <= n,
{
    if s.len() <= n {
        let r = slice_chars(s, 0, s.len());
        assert(r@ =~= s@);
        r
    } else {
        let r = slice_chars(s, 0, n);
        assert(r@ =~= s@.take(n as int));
        r
    }
}

/// Splits a text into its lines.
pub fn split_lines(s: &Vec<char>) -> (lines: Vec<Vec<char>>)
    ensures
        vec_views(lines@) == lines_of(s@),
{
    let mut lines: Vec<Vec<char>> = Vec::new();
    let mut start: usize = 0;
    let mut pos: usize = 0;
    while pos < s.len()
        invariant
            start <= pos <= s.len(),
            vec_views(lines@) + lines_from(s@, start as int, pos as int) == lines_of(s@),
        decreases s.len() - pos,
    {
        if s[pos] == '\n' {
            let end = if pos > start && s[pos - 1] == '\r' {
                pos - 1
            } else {
                pos
            };
            let line = slice_chars(s, start, end);
            assert(line@ == strip_cr(s@.subrange(start as int, pos as int))) by {
                let raw = s@.subrange(start as int, pos as int);
                if pos > start && s@[pos - 1] == '\r' {
                    assert(raw.last() == '\r');
                    assert(raw.drop_last() =~= s@.subrange(start as int, pos - 1));
                } else {
                    if raw.len() > 0 {
                        assert(raw.last() == s@[pos - 1]);
                    }
                }
            }
            let ghost before = vec_views(lines@);
            lines.push(line);
            assert(vec_views(lines@) =~= before + seq![line@]);
            assert(lines_from(s@, start as int, pos as int) == seq![line@] + lines_from(
                s@,
                pos + 1,
                pos + 1,
            ));
            assert(vec_views(lines@) + lines_from(s@, pos + 1, pos + 1) =~= before + lines_from(
                s@,
                start as int,
                pos as int,
            ));
            pos += 1;
            start = pos;
        } else {
            pos += 1;
        }
    }
    if start < s.len() {
        let line = slice_chars(s, start, s.len());
        let ghost before = vec_views(lines@);
        lines.push(line);
        assert(vec_views(lines@) =~= before + seq![line@]);
    } else {
        assert(vec_views(lines@) + Seq::<Seq<char>>::empty() =~= vec_views(lines@));
    }
    lines
}

/// Joins the first `count` parts with `sep` between neighbours.
pub fn join_first(parts: &Vec<Vec<char>>, count: usize, sep: &Vec<char>) -> (r: Vec<char>)
    requires
        count <= parts.len(),
    ensures
        r@ == join_with(vec_views(parts@).take(count as int), sep@),
{
    let mut r: Vec<char> = Vec::new();
    let mut i: usize = 0;
    while i < count
        invariant
            i <= count <= parts.len(),
            r@ == join_with(vec_views(parts@).take(i as int), sep@),
        decreases count - i,
    {
        let ghost before = vec_views(parts@).take(i as int);
        let ghost after = vec_views(parts@).take(i + 1);
        assert(after.drop_last() =~= before);
        assert(after.last() == parts@[i as int]@);
        if i > 0 {
            append_chars(&mut r, sep);
        }
        append_chars(&mut r, &parts[i]);
        assert(r@ =~= join_with(after, sep@)) by {
            if i == 0 {
                assert(before.len() == 0);
            } else if i == 1 {
                assert(before.len() == 1);
            }
        }
        i += 1;
    }
    r
}

/// Joins all the parts with `sep` between neighbours.
pub fn join(parts: &Vec<Vec<char>>, sep: &Vec<char>) -> (r: Vec<char>)
    ensures
        r@ == join_with(vec_views(parts@), sep@),
{
    let r = join_first(parts, parts.len(), sep);
    assert(vec_views(parts@).take(parts.len() as int) =~= vec_views(parts@));
    r
}

/// Appends the characters of `tail` to `v`.
pub fn append_chars(v: &mut Vec<char>, tail: &Vec<char>)
    ensures
        final(v)@ == old(v)@ + tail@,
{
    let mut i: usize = 0;
    while i < tail.len()
        invariant
            i <= tail.len(),
            v@ == old(v)@ + tail@.take(i as int),
        decreases tail.len() - i,
    {
        v.push(tail[i]);
        i += 1;
        assert(v@ =~= old(v)@ + tail@.take(i as int));
    }
    assert(tail@.take(tail.len() as int) =~= tail@);
}

/// Joins strings with `sep` between neighbours.
pub fn join_strings(parts: &Vec<String>, sep: &str) -> (r: String)
    ensures
        r@ == join_with(views(parts@), sep@),
{
    let mut r = String::new();
    let mut i: usize = 0;
    while i < parts.len()
        invariant
            i <= parts.len(),
            r@ == join_with(views(parts@).take(i as int), sep@),
        decreases parts.len() - i,
    {
        let ghost before = views(parts@).take(i as int);
        let ghost after = views(parts@).take(i + 1);
        assert(after.drop_last() =~= before);
        assert(after.last() == parts@[i as int]@);
        if i > 0 {
            r.append(sep);
        }
        r.append(parts[i].as_str());
        assert(r@ =~= join_with(after, sep@)) by {
            if i == 0 {
                assert(before.len() == 0);
            } else if i == 1 {
                assert(before.len() == 1);
            }
        }
        i += 1;
    }
    assert(views(parts@).take(parts.len() as int) =~= views(parts@));
    r
}

/// The digit character for `d`.
fn digit(d: u64) -> (c: char)
    requires
        d < 10,
    ensures
        c == digit_of(d as nat),
{
    if d == 0 {
        '0'
    } else if d == 1 {
        '1'
    } else if d == 2 {
        '2'
    } else if d == 3 {
        '3'
    } else if d == 4 {
        '4'
    } else if d == 5 {
        '5'
    } else if d == 6 {
        '6'
    } else if d == 7 {
        '7'
    } else if d == 8 {
        '8'
    } else {
        '9'
    }
}

/// The decimal numeral of `n`.
pub fn decimal(n: u64) -> (r: Vec<char>)
    ensures
        r@ == decimal_of(n as nat),
    decreases n,
{
    if n < 10 {
        let mut r: Vec<char> = Vec::new();
        r.push(digit(n));
        assert(r@ =~= seq![digit_of(n as nat)]);
        r
    } else {
        let mut r = decimal(n / 10);
        r.push(digit(n % 10));
        r
    }
}

/// The character at `i` is marked.
pub open spec fn marked_at(marks: Seq<bool>, i: int) -> bool {
    0 <= i < marks.len() && marks[i]
}

/// The index of the first character at or after `from` that is not
/// marked, or the length of the text where all are.
pub open spec fn lead_end(s: Seq<char>, marks: Seq<bool>, from: int) -> int
    decreases s.len() - from,
{
    if from >= s.len() {
        s.len() as int
    } else if !marked_at(marks, from) {
        from
    } else {
        lead_end(s, marks, from + 1)
    }
}

/// Where the text ends once the marked characters at its end are dropped,
/// looking at the characters before `upto` and never going below `floor`.
pub open spec fn tail_start(marks: Seq<bool>, floor: int, upto: int) -> int
    decreases upto,
{
    if upto <= floor || upto <= 0 {
        floor
    } else if !marked_at(marks, upto - 1) {
        upto
    } else {
        tail_start(marks, floor, upto - 1)
    }
}

/// The text without the marked characters at its start and at its end.
pub open spec fn stripped(s: Seq<char>, marks: Seq<bool>) -> Seq<char> {
    let a = lead_end(s, marks, 0);
    s.subrange(a, tail_start(marks, a, s.len() as int))
}

/// Whether a character is white space, as Unicode classes it: the
/// controls from tab to carriage return, the space, the next-line control,
/// the no-break space, the ogham space mark, the spaces from en quad to
/// hair space, the line and paragraph separators, the narrow no-break
/// space, the medium mathematical space and the ideographic space.
pub open spec fn is_whitespace_char(c: char) -> bool {
    let u = c as u32;
    ||| 0x09 <= u <= 0x0D
    ||| u == 0x20
    ||| u == 0x85
    ||| u == 0xA0
    ||| u == 0x1680
    ||| 0x2000 <= u <= 0x200A
    ||| u == 0x2028
    ||| u == 0x2029
    ||| u == 0x202F
    ||| u == 0x205F
    ||| u == 0x3000
}

/// Whether a character is white space.
pub fn is_white_space(c: char) -> (r: bool)
    ensures
        r == is_whitespace_char(c),
{
    let u: u32 = c as u32;
    (0x09 <= u && u <= 0x0D) || u == 0x20 || u == 0x85 || u == 0xA0 || u == 0x1680 || (0x2000 <= u
        && u <= 0x200A) || u == 0x2028 || u == 0x2029 || u == 0x202F || u == 0x205F || u == 0x3000
}

/// For each character, whether it is white space.
pub open spec fn whitespace_marks(s: Seq<char>) -> Seq<bool> {
    Seq::new(s.len(), |i: int| is_whitespace_char(s[i]))
}

/// For each character, whether it is `c`.
pub open spec fn char_marks(s: Seq<char>, c: char) -> Seq<bool> {
    Seq::new(s.len(), |i: int| s[i] == c)
}

/// The text without the white space at its start and at its end.
pub open spec fn trimmed(s: Seq<char>) -> Seq<char> {
    stripped(s, whitespace_marks(s))
}

/// The index of the first `c` at or after `from`, or the length of the
/// text where there is none.
pub open spec fn index_from(s: Seq<char>, c: char, from: int) -> int
    decreases s.len() - from,
{
    if from >= s.len() {
        s.len() as int
    } else if s[from] == c {
        from
    } else {
        index_from(s, c, from + 1)
    }
}

/// Drops the marked characters at the start and at the end of a text; a
/// character without a mark counts as not marked.
pub fn strip_marked(s: &Vec<char>, marks: &Vec<bool>) -> (r: Vec<char>)
    ensures
        r@ == stripped(s@, marks@),
{
    let mut a: usize = 0;
    while a < s.len() && a < marks.len() && marks[a]
        invariant
            a <= s.len(),
            lead_end(s@, marks@, 0) == lead_end(s@, marks@, a as int),
        decreases s.len() - a,
    {
        a += 1;
    }
    let mut b: usize = s.len();
    while b > a && b - 1 < marks.len() && marks[b - 1]
        invariant
            a <= b <= s.len(),
            tail_start(marks@, a as int, s@.len() as int) == tail_start(marks@, a as int, b as int),
        decreases b,
    {
        b -= 1;
    }
    slice_chars(s, a, b)
}

/// Drops the white space at the start and at the end of a text.
pub fn trim(s: &Vec<char>) -> (r: Vec<char>)
    ensures
        r@ == trimmed(s@),
{
    let mut marks: Vec<bool> = Vec::new();
    let mut i: usize = 0;
    while i < s.len()
        invariant
            i <= s.len(),
            marks@ == whitespace_marks(s@).take(i as int),
        decreases s.len() - i,
    {
        marks.push(is_white_space(s[i]));
        assert(marks@ =~= whitespace_marks(s@).take(i + 1));
        i += 1;
    }
    assert(whitespace_marks(s@).take(s.len() as int) =~= whitespace_marks(s@));
    strip_marked(s, &marks)
}

/// Drops every `c` at the start and at the end of a text.
pub fn strip_char(s: &Vec<char>, c: char) -> (r: Vec<char>)
    ensures
        r@ == stripped(s@, char_marks(s@, c)),
{
    let mut marks: Vec<bool> = Vec::new();
    let mut i: usize = 0;
    while i < s.len()
        invariant
            i <= s.len(),
            marks@ == char_marks(s@, c).take(i as int),
        decreases s.len() - i,
    {
        marks.push(s[i] == c);
        assert(marks@ =~= char_marks(s@, c).take(i + 1));
        i += 1;
    }
    assert(char_marks(s@, c).take(s.len() as int) =~= char_marks(s@, c));
    strip_marked(s, &marks)
}

/// The index of the first `c` at or after `from`, or the length of the
/// text where there is none.
pub fn find_char(s: &Vec<char>, c: char, from: usize) -> (r: usize)
    ensures
        r == index_from(s@, c, from as int),
        r <= s.len(),
        from <= s.len() ==> from <= r,
{
    if from >= s.len() {
        return s.len();
    }
    let mut i: usize = from;
    while i < s.len()
        invariant
            from <= i <= s.len(),
            index_from(s@, c, from as int) == index_from(s@, c, i as int),
        decreases s.len() - i,
    {
        if s[i] == c {
            return i;
        }
        i += 1;
    }
    i
}

} // verus!
