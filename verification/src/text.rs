//! Character sequences: the view of every string this crate reads or writes,
//! and the small verified operations on them that the other modules share.

use vstd::prelude::*;

verus! {

/// `String::push` appends one character.
pub assume_specification[ String::push ](s: &mut String, c: char)
    ensures
        final(s)@ == old(s)@.push(c),
;

/// The characters of `s`, in order.
pub fn chars_of(s: &str) -> (v: Vec<char>)
    ensures
        v@ == s@,
{
    let mut v: Vec<char> = Vec::new();
    for c in it: s.chars()
        invariant
            v@ == it.seq().take(it.index() as int),
            it.seq() == s@,
    {
        v.push(c);
    }
    v
}

/// The string made of the characters of `v`, in order.
pub fn string_of(v: &Vec<char>) -> (s: String)
    ensures
        s@ == v@,
{
    let mut s = String::new();
    let mut i: usize = 0;
    while i < v.len()
        invariant
            i <= v.len(),
            s@ == v@.take(i as int),
        decreases v.len() - i,
    {
        s.push(v[i]);
        i += 1;
    }
    s
}

/// Appends the characters of `part` to `out`.
pub fn append(out: &mut Vec<char>, part: &Vec<char>)
    ensures
        final(out)@ == old(out)@ + part@,
{
    let mut i: usize = 0;
    while i < part.len()
        invariant
            i <= part.len(),
            out@ == old(out)@ + part@.take(i as int),
        decreases part.len() - i,
    {
        out.push(part[i]);
        i += 1;
    }
}

/// Appends the characters of `part` to `out`.
pub fn append_str(out: &mut Vec<char>, part: &str)
    ensures
        final(out)@ == old(out)@ + part@,
{
    for c in it: part.chars()
        invariant
            out@ == old(out)@ + it.seq().take(it.index() as int),
            it.seq() == part@,
    {
        out.push(c);
    }
}

/// Whether two character vectors hold the same text.
pub fn same_text(a: &Vec<char>, b: &Vec<char>) -> (r: bool)
    ensures
        r == (a@ == b@),
{
    if a.len() != b.len() {
        return false;
    }
    let mut i: usize = 0;
    while i < a.len()
        invariant
            i <= a.len(),
            a.len() == b.len(),
            a@.take(i as int) == b@.take(i as int),
        decreases a.len() - i,
    {
        if a[i] != b[i] {
            return false;
        }
        assert(a@.take(i + 1) == a@.take(i as int).push(a@[i as int]));
        assert(b@.take(i + 1) == b@.take(i as int).push(b@[i as int]));
        i += 1;
    }
    assert(a@ == a@.take(a.len() as int));
    assert(b@ == b@.take(b.len() as int));
    true
}

/// White space: the code points with the Unicode property `White_Space`.
pub open spec fn is_space(c: char) -> bool {
    ||| ('\u{9}' <= c && c <= '\u{d}')
    ||| c == ' '
    ||| c == '\u{85}'
    ||| c == '\u{a0}'
    ||| c == '\u{1680}'
    ||| ('\u{2000}' <= c && c <= '\u{200a}')
    ||| c == '\u{2028}'
    ||| c == '\u{2029}'
    ||| c == '\u{202f}'
    ||| c == '\u{205f}'
    ||| c == '\u{3000}'
}

/// Whether `c` is white space.
pub fn is_space_char(c: char) -> (r: bool)
    ensures
        r == is_space(c),
{
    ('\u{9}' <= c && c <= '\u{d}') || c == ' ' || c == '\u{85}' || c == '\u{a0}' || c == '\u{1680}'
        || ('\u{2000}' <= c && c <= '\u{200a}') || c == '\u{2028}' || c == '\u{2029}' || c
        == '\u{202f}' || c == '\u{205f}' || c == '\u{3000}'
}

/// The first index at or after `from` that holds no white space; `s.len()`
/// where only white space follows.
pub open spec fn skip_spaces(s: Seq<char>, from: int) -> int
    decreases s.len() - from,
{
    if from < 0 || from >= s.len() {
        s.len() as int
    } else if is_space(s[from]) {
        skip_spaces(s, from + 1)
    } else {
        from
    }
}

/// The least index `e <= to` such that only white space stands in `s[e..to]`.
pub open spec fn back_spaces(s: Seq<char>, to: int) -> int
    decreases to,
{
    if to <= 0 || to > s.len() {
        0
    } else if is_space(s[to - 1]) {
        back_spaces(s, to - 1)
    } else {
        to
    }
}

/// `s` without its leading and trailing white space.
pub open spec fn trimmed(s: Seq<char>) -> Seq<char> {
    let a = skip_spaces(s, 0);
    let b = back_spaces(s, s.len() as int);
    if a >= b {
        Seq::empty()
    } else {
        s.subrange(a, b)
    }
}

/// The index that `skip_spaces` names.
pub fn skip_spaces_from(s: &Vec<char>, from: usize) -> (r: usize)
    requires
        from <= s.len(),
    ensures
        r == skip_spaces(s@, from as int),
        from <= r <= s.len(),
{
    let mut i: usize = from;
    while i < s.len() && is_space_char(s[i])
        invariant
            from <= i <= s.len(),
            skip_spaces(s@, from as int) == skip_spaces(s@, i as int),
        decreases s.len() - i,
    {
        i += 1;
    }
    i
}

/// `s` without its leading and trailing white space.
pub fn trim(s: &Vec<char>) -> (r: Vec<char>)
    ensures
        r@ == trimmed(s@),
{
    let a: usize = skip_spaces_from(s, 0);
    let mut b: usize = s.len();
    while b > 0 && is_space_char(s[b - 1])
        invariant
            b <= s.len(),
            back_spaces(s@, s.len() as int) == back_spaces(s@, b as int),
        decreases b,
    {
        b -= 1;
    }
    let mut r: Vec<char> = Vec::new();
    if a >= b {
        return r;
    }
    let mut i: usize = a;
    while i < b
        invariant
            a <= i <= b <= s.len(),
            r@ == s@.subrange(a as int, i as int),
        decreases b - i,
    {
        r.push(s[i]);
        i += 1;
    }
    r
}

/// The characters of `s` from index `from` up to index `to`.
pub fn part(s: &Vec<char>, from: usize, to: usize) -> (r: Vec<char>)
    requires
        from <= to <= s.len(),
    ensures
        r@ == s@.subrange(from as int, to as int),
{
    let mut r: Vec<char> = Vec::new();
    let mut i: usize = from;
    while i < to
        invariant
            from <= i <= to <= s.len(),
            r@ == s@.subrange(from as int, i as int),
        decreases to - i,
    {
        r.push(s[i]);
        i += 1;
    }
    r
}

/// Whether `needle` stands in `hay` at index `at`.
pub open spec fn occurs_at(hay: Seq<char>, at: int, needle: Seq<char>) -> bool {
    &&& 0 <= at
    &&& at + needle.len() <= hay.len()
    &&& hay.subrange(at, at + needle.len()) == needle
}

/// Whether `needle` stands in `hay` at index `at`.
pub fn matches_at(hay: &Vec<char>, at: usize, needle: &Vec<char>) -> (r: bool)
    ensures
        r == occurs_at(hay@, at as int, needle@),
{
    if at > hay.len() || needle.len() > hay.len() - at {
        return false;
    }
    let mut i: usize = 0;
    while i < needle.len()
        invariant
            i <= needle.len(),
            at + needle.len() <= hay.len(),
            forall|j: int| 0 <= j < i ==> hay@[at + j] == needle@[j],
        decreases needle.len() - i,
    {
        if hay[at + i] != needle[i] {
            assert(hay@.subrange(at as int, at + needle.len())[i as int] != needle@[i as int]);
            return false;
        }
        i += 1;
    }
    assert(hay@.subrange(at as int, at + needle.len()) =~= needle@);
    true
}

/// Whether `i` is the least index at which `needle` stands in `hay`.
pub open spec fn is_first(hay: Seq<char>, i: int, needle: Seq<char>) -> bool {
    occurs_at(hay, i, needle) && forall|j: int| occurs_at(hay, j, needle) ==> i <= j
}

/// The least index at which `needle` stands in `hay`, if it stands anywhere.
pub fn find_first(hay: &Vec<char>, needle: &Vec<char>) -> (r: Option<usize>)
    ensures
        match r {
            Some(i) => is_first(hay@, i as int, needle@),
            None => forall|j: int| !occurs_at(hay@, j, needle@),
        },
{
    if needle.len() > hay.len() {
        return None;
    }
    let last: usize = hay.len() - needle.len();
    let mut i: usize = 0;
    loop
        invariant
            i <= last,
            last == hay.len() - needle.len(),
            forall|j: int| j < i ==> !occurs_at(hay@, j, needle@),
        decreases last - i,
    {
        if matches_at(hay, i, needle) {
            return Some(i);
        }
        if i == last {
            return None;
        }
        i += 1;
    }
}

/// The decimal digit that stands for `d`, a number below ten.
pub open spec fn digit(d: nat) -> char {
    if d == 0 {
        '0'
    } else if d == 1 {
        '1'
    } else if d == 2 {
        '2'
    } else if d == 3 {
        '3'
    } else if d == 4 {
        '4'
    } else if d == 5 {
        '5'
    } else if d == 6 {
        '6'
    } else if d == 7 {
        '7'
    } else if d == 8 {
        '8'
    } else {
        '9'
    }
}

/// `n` written in decimal, without leading zeros.
pub open spec fn decimal(n: nat) -> Seq<char>
    decreases n,
{
    if n < 10 {
        seq![digit(n)]
    } else {
        decimal(n / 10).push(digit(n % 10))
    }
}

fn digit_char(d: usize) -> (c: char)
    requires
        d < 10,
    ensures
        c == digit(d as nat),
{
    if d == 0 {
        '0'
    } else if d == 1 {
        '1'
    } else if d == 2 {
        '2'
    } else if d == 3 {
        '3'
    } else if d == 4 {
        '4'
    } else if d == 5 {
        '5'
    } else if d == 6 {
        '6'
    } else if d == 7 {
        '7'
    } else if d == 8 {
        '8'
    } else {
        '9'
    }
}

/// Appends `n`, written in decimal, to `out`.
pub fn append_decimal(out: &mut Vec<char>, n: usize)
    ensures
        final(out)@ == old(out)@ + decimal(n as nat),
    decreases n,
{
    if n < 10 {
        out.push(digit_char(n));
        assert(out@ =~= old(out)@ + decimal(n as nat));
    } else {
        append_decimal(out, n / 10);
        out.push(digit_char(n % 10));
        assert(out@ =~= old(out)@ + decimal(n as nat));
    }
}

/// The index of the first line feed of `s` at or after `from`; `s.len()`
/// where none follows.
pub open spec fn line_end(s: Seq<char>, from: int) -> int
    decreases s.len() - from,
{
    if from < 0 || from >= s.len() {
        s.len() as int
    } else if s[from] == '\n' {
        from
    } else {
        line_end(s, from + 1)
    }
}

/// The end of a line is found at the first line feed, or at the end of the
/// text.
pub proof fn lemma_line_end(s: Seq<char>, from: int)
    requires
        0 <= from <= s.len(),
    ensures
        from <= line_end(s, from) <= s.len(),
        forall|i: int| from <= i < line_end(s, from) ==> #[trigger] s[i] != '\n',
        line_end(s, from) < s.len() ==> s[line_end(s, from)] == '\n',
    decreases s.len() - from,
{
    if from < s.len() && s[from] != '\n' {
        lemma_line_end(s, from + 1);
    }
}

/// The lines of `s`: the pieces between its line feeds. A line feed at the
/// very end opens no further line, and the empty text has no line.
pub open spec fn lines(s: Seq<char>) -> Seq<Seq<char>>
    decreases s.len(),
{
    if s.len() == 0 {
        Seq::empty()
    } else {
        let e = line_end(s, 0);
        if e < 0 || e >= s.len() {
            seq![s]
        } else {
            seq![s.take(e)] + lines(s.skip(e + 1))
        }
    }
}

/// The end of a line is the same place whether counted from the start of
/// the text or from a later index.
pub proof fn lemma_line_end_skip(s: Seq<char>, k: int, from: int)
    requires
        0 <= k <= s.len(),
        0 <= from <= s.len() - k,
    ensures
        line_end(s.skip(k), from) + k == line_end(s, from + k),
    decreases s.len() - k - from,
{
    if from < s.len() - k {
        assert(s.skip(k)[from] == s[from + k]);
        if s[from + k] != '\n' {
            lemma_line_end_skip(s, k, from + 1);
        }
    }
}

/// The lines of `text`.
pub fn split_lines(text: &Vec<char>) -> (out: Vec<Vec<char>>)
    ensures
        out@.len() == lines(text@).len(),
        forall|i: int| 0 <= i < out@.len() ==> (#[trigger] out@[i])@ == lines(text@)[i],
{
    let mut out: Vec<Vec<char>> = Vec::new();
    let mut start: usize = 0;
    let ghost mut done: Seq<Seq<char>> = Seq::empty();
    assert(text@.skip(0) =~= text@);
    assert(done + lines(text@) =~= lines(text@));
    while start < text.len()
        invariant
            start <= text.len(),
            done.len() == out@.len(),
            forall|i: int| 0 <= i < out@.len() ==> (#[trigger] out@[i])@ == done[i],
            done + lines(text@.skip(start as int)) == lines(text@),
        decreases text.len() - start,
    {
        let mut line: Vec<char> = Vec::new();
        let mut i: usize = start;
        while i < text.len() && text[i] != '\n'
            invariant
                start <= i <= text.len(),
                line@ == text@.subrange(start as int, i as int),
                line_end(text@, start as int) == line_end(text@, i as int),
            decreases text.len() - i,
        {
            line.push(text[i]);
            i += 1;
        }
        proof {
            let rest = text@.skip(start as int);
            lemma_line_end_skip(text@, start as int, 0);
            let e = line_end(rest, 0);
            assert(e == i - start);
            if i >= text.len() {
                assert(line@ =~= rest);
                assert(lines(rest) == seq![rest]);
                assert(lines(text@.skip(text.len() as int)) == Seq::<Seq<char>>::empty());
                assert(done.push(line@) + Seq::<Seq<char>>::empty() =~= done + seq![rest]);
            } else {
                assert(line@ =~= rest.take(e));
                assert(rest.skip(e + 1) =~= text@.skip(i + 1));
                assert(done.push(line@) + lines(text@.skip(i + 1)) =~= done + lines(rest));
            }
            done = done.push(line@);
        }
        out.push(line);
        if i >= text.len() {
            start = text.len();
        } else {
            start = i + 1;
        }
    }
    proof {
        assert(lines(text@.skip(start as int)) == Seq::<Seq<char>>::empty());
        assert(done =~= lines(text@));
    }
    out
}

} // verus!
