//! The declaration of an index, as it stands in the index table, and how it
//! is read back: the sanitized name of an export, and the slot of its
//! original function.

use vstd::prelude::*;
use crate::export_set::ExportSet;
use crate::exports::{is_alphanumeric, is_digit, is_identifier_text, ExportDescriptor};
use crate::laws::lemma_trimmed_plain;
use crate::tables::{index_line, INDEX_HEAD, INDEX_TYPE};
use crate::text::{
    chars_of, decimal, digit, find_first, is_first, is_space, lines, matches_at, occurs_at, part,
    same_text, split_lines, trim, trimmed,
};

verus! {

/// The end of the run of digits that begins at `from`.
pub open spec fn digits_end(s: Seq<char>, from: int) -> int
    decreases s.len() - from,
{
    if from < 0 || from >= s.len() || !is_digit(s[from]) {
        from
    } else {
        digits_end(s, from + 1)
    }
}

/// The number that the digit `c` stands for.
pub open spec fn digit_value(c: char) -> nat {
    (c as int - 48) as nat
}

/// The number that the digits `s` write in decimal.
pub open spec fn number(s: Seq<char>) -> nat
    decreases s.len(),
{
    if s.len() == 0 {
        0
    } else {
        number(s.drop_last()) * 10 + digit_value(s.last())
    }
}

/// Whether `: usize = `, at least one digit and `;` stand at `j`.
pub open spec fn declares_at(line: Seq<char>, j: int) -> bool {
    &&& occurs_at(line, j, INDEX_TYPE@)
    &&& digits_end(line, j + 10) > j + 10
    &&& digits_end(line, j + 10) < line.len()
    &&& line[digits_end(line, j + 10)] == ';'
}

/// Whether `line` declares an index: `pub const Index_` first stands at
/// `i`; `j` is the last place where the type, a number and `;` stand; and a
/// name stands between the two.
pub open spec fn parses_index(line: Seq<char>, i: int, j: int) -> bool {
    &&& is_first(line, i, INDEX_HEAD@)
    &&& declares_at(line, j)
    &&& forall|m: int| j < m ==> !declares_at(line, m)
    &&& i + 16 < j
}

/// The sanitized name and the index that `line` declares, if it declares an
/// index.
pub open spec fn declared_index(line: Seq<char>) -> Option<(Seq<char>, nat)> {
    if exists|i: int, j: int| parses_index(line, i, j) {
        let (i, j) = choose|i: int, j: int| parses_index(line, i, j);
        Some(
            (
                trimmed(line.subrange(i + 16, j)),
                number(line.subrange(j + 10, digits_end(line, j + 10))),
            ),
        )
    } else {
        None
    }
}

/// The declarations of the lines `ls`, in their order.
pub open spec fn declared(ls: Seq<Seq<char>>) -> Seq<(Seq<char>, nat)>
    decreases ls.len(),
{
    if ls.len() == 0 {
        Seq::empty()
    } else {
        match declared_index(ls.last()) {
            Some(d) => declared(ls.drop_last()).push(d),
            None => declared(ls.drop_last()),
        }
    }
}

/// The sanitized names and indices that the index table `text` declares.
pub open spec fn declared_indices(text: Seq<char>) -> Seq<(Seq<char>, nat)> {
    declared(lines(text))
}

proof fn lemma_digits_end(s: Seq<char>, from: int)
    requires
        0 <= from <= s.len(),
    ensures
        from <= digits_end(s, from) <= s.len(),
        forall|i: int| from <= i < digits_end(s, from) ==> is_digit(#[trigger] s[i]),
        digits_end(s, from) < s.len() ==> !is_digit(s[digits_end(s, from)]),
    decreases s.len() - from,
{
    if from < s.len() && is_digit(s[from]) {
        lemma_digits_end(s, from + 1);
    }
}

proof fn lemma_digits_end_is(s: Seq<char>, from: int, e: int)
    requires
        0 <= from <= e <= s.len(),
        forall|i: int| from <= i < e ==> is_digit(#[trigger] s[i]),
        e == s.len() || !is_digit(s[e]),
    ensures
        digits_end(s, from) == e,
    decreases e - from,
{
    if from < e {
        lemma_digits_end_is(s, from + 1, e);
    }
}

/// The digits of a number begin a number that is no greater.
proof fn lemma_number_prefix(s: Seq<char>, k: int)
    requires
        0 <= k <= s.len(),
    ensures
        number(s.take(k)) <= number(s),
    decreases s.len() - k,
{
    if k == s.len() {
        assert(s.take(k) =~= s);
    } else {
        assert(s.drop_last().take(k) =~= s.take(k));
        lemma_number_prefix(s.drop_last(), k);
    }
}

/// A number written in decimal is made of digits, and they write the number.
pub proof fn lemma_decimal_number(n: nat)
    ensures
        decimal(n).len() > 0,
        forall|i: int| 0 <= i < decimal(n).len() ==> is_digit(#[trigger] decimal(n)[i]),
        number(decimal(n)) == n,
    decreases n,
{
    if n < 10 {
        assert(decimal(n) =~= seq![digit(n)]);
        assert(decimal(n).drop_last() =~= Seq::<char>::empty());
        assert(number(decimal(n)) == number(Seq::<char>::empty()) * 10 + digit_value(digit(n)));
    } else {
        lemma_decimal_number(n / 10);
        let head = decimal(n / 10);
        assert(decimal(n).drop_last() =~= head);
        assert(decimal(n).last() == digit(n % 10));
        assert forall|i: int| 0 <= i < decimal(n).len() implies is_digit(
            #[trigger] decimal(n)[i],
        ) by {
            if i < head.len() {
                assert(decimal(n)[i] == head[i]);
            }
        }
    }
}

/// Round trip: the line that declares the index of an export is read back
/// as the sanitized name of the export and the index, where the name is an
/// identifier.
pub proof fn lemma_index_line_read_back(e: ExportDescriptor, i: nat)
    requires
        e.sanitized_name.len() > 0,
        is_identifier_text(e.sanitized_name),
    ensures
        declared_index(index_line(e, i)) == Some((e.sanitized_name, i)),
{
    reveal_strlit("pub const Index_");
    reveal_strlit(": usize = ");
    reveal_strlit(";");
    lemma_decimal_number(i);
    let c = e.sanitized_name;
    let d = decimal(i);
    let line = index_line(e, i);
    let j0: int = 16 + c.len() as int;
    let d0: int = j0 + 10;
    let k0: int = d0 + d.len() as int;
    assert(line.len() == k0 + 1);
    assert forall|m: int| 0 <= m < 16 implies #[trigger] line[m] == INDEX_HEAD@[m] by {}
    assert forall|m: int| 16 <= m < j0 implies #[trigger] line[m] == c[m - 16] by {}
    assert forall|m: int| j0 <= m < d0 implies #[trigger] line[m] == INDEX_TYPE@[m - j0] by {}
    assert forall|m: int| d0 <= m < k0 implies #[trigger] line[m] == d[m - d0] by {}
    assert(line[k0] == ';');
    assert(occurs_at(line, 0, INDEX_HEAD@)) by {
        assert(line.subrange(0, 16) =~= INDEX_HEAD@);
    }
    assert(occurs_at(line, j0, INDEX_TYPE@)) by {
        assert(line.subrange(j0, j0 + 10) =~= INDEX_TYPE@);
    }
    assert forall|m: int| d0 <= m < k0 implies is_digit(#[trigger] line[m]) by {
        assert(is_digit(d[m - d0]));
    }
    lemma_digits_end_is(line, d0, k0);
    assert(declares_at(line, j0));
    assert forall|m: int| j0 < m implies !declares_at(line, m) by {
        if occurs_at(line, m, INDEX_TYPE@) {
            assert(line.subrange(m, m + 10)[0] == line[m]);
            if d0 <= m < k0 {
                assert(is_digit(d[m - d0]));
            }
        }
    }
    assert(parses_index(line, 0, j0));
    assert(line.subrange(16, j0) =~= c);
    assert(line.subrange(d0, k0) =~= d);
    assert(!is_space(c[0]) && !is_space(c[c.len() - 1])) by {
        assert(is_alphanumeric(c[0]) || c[0] == '_');
        assert(is_alphanumeric(c[c.len() - 1]) || c[c.len() - 1] == '_');
    }
    lemma_trimmed_plain(c);
    lemma_read_back(line, j0, k0, c, i);
}

/// A line that declares an index in one way only declares what stands there.
proof fn lemma_read_back(line: Seq<char>, j0: int, k0: int, c: Seq<char>, i: nat)
    requires
        parses_index(line, 0, j0),
        digits_end(line, j0 + 10) == k0,
        line.subrange(16, j0) == c,
        trimmed(c) == c,
        number(line.subrange(j0 + 10, k0)) == i,
    ensures
        declared_index(line) == Some((c, i)),
{
    assert forall|i2: int, j2: int| parses_index(line, i2, j2) implies i2 == 0 && j2 == j0 by {
        assert(declares_at(line, j2));
        assert(declares_at(line, j0));
    }
    let (i1, j1) = choose|i: int, j: int| parses_index(line, i, j);
    assert(i1 == 0 && j1 == j0);
}

fn digits_end_from(s: &Vec<char>, from: usize) -> (r: usize)
    requires
        from <= s.len(),
    ensures
        r == digits_end(s@, from as int),
        from <= r <= s.len(),
{
    let mut i: usize = from;
    while i < s.len() && '0' <= s[i] && s[i] <= '9'
        invariant
            from <= i <= s.len(),
            digits_end(s@, from as int) == digits_end(s@, i as int),
        decreases s.len() - i,
    {
        i += 1;
    }
    i
}

fn is_declaration(line: &Vec<char>, j: usize, mark: &Vec<char>) -> (r: bool)
    requires
        mark@ == INDEX_TYPE@,
    ensures
        r == declares_at(line@, j as int),
{
    proof {
        reveal_strlit(": usize = ");
    }
    if line.len() < 10 || j > line.len() - 10 || !matches_at(line, j, mark) {
        return false;
    }
    let e: usize = digits_end_from(line, j + 10);
    e > j + 10 && e < line.len() && line[e] == ';'
}

fn last_declaration(line: &Vec<char>) -> (r: Option<usize>)
    ensures
        match r {
            Some(j) => declares_at(line@, j as int) && forall|m: int|
                j < m ==> !declares_at(line@, m),
            None => forall|m: int| !declares_at(line@, m),
        },
{
    let mark = chars_of(INDEX_TYPE);
    let mut j: usize = line.len();
    while j > 0
        invariant
            j <= line.len(),
            mark@ == INDEX_TYPE@,
            forall|m: int| j <= m ==> !declares_at(line@, m),
        decreases j,
    {
        j -= 1;
        if is_declaration(line, j, &mark) {
            return Some(j);
        }
    }
    assert forall|m: int| !declares_at(line@, m) by {}
    None
}

/// The number that the digits of `line` from `from` up to `to` write, where
/// it is no greater than the greatest index.
fn read_number(line: &Vec<char>, from: usize, to: usize) -> (r: Option<usize>)
    requires
        from <= to <= line.len(),
        forall|i: int| from <= i < to ==> is_digit(#[trigger] line@[i]),
    ensures
        match r {
            Some(v) => v == number(line@.subrange(from as int, to as int)),
            None => number(line@.subrange(from as int, to as int)) > usize::MAX,
        },
{
    let ghost digits = line@.subrange(from as int, to as int);
    let mut value: usize = 0;
    let mut i: usize = from;
    assert(digits.take(0) =~= Seq::<char>::empty());
    while i < to
        invariant
            from <= i <= to <= line.len(),
            digits == line@.subrange(from as int, to as int),
            forall|k: int| from <= k < to ==> is_digit(#[trigger] line@[k]),
            value == number(digits.take(i - from)),
        decreases to - i,
    {
        let c = line[i];
        assert(is_digit(line@[i as int]));
        let d: usize = (c as u32 - 48) as usize;
        proof {
            let next = digits.take(i - from + 1);
            assert(next.drop_last() =~= digits.take(i - from));
            assert(next.last() == c);
            assert(number(next) == value * 10 + d);
            lemma_number_prefix(digits, i - from + 1);
        }
        if value > (usize::MAX - d) / 10 {
            return None;
        }
        value = value * 10 + d;
        i += 1;
    }
    assert(digits.take(to - from) =~= digits);
    Some(value)
}

/// The sanitized name that `line` declares an index for, if it declares
/// one, and the index where a slot can have it.
fn declaration_of(line: &Vec<char>) -> (r: Option<(Vec<char>, Option<usize>)>)
    ensures
        match declared_index(line@) {
            Some((name, index)) => r matches Some((n, v)) && n@ == name && (match v {
                Some(x) => x == index,
                None => index > usize::MAX,
            }),
            None => r is None,
        },
{
    proof {
        reveal_strlit("pub const Index_");
    }
    let i: usize = match find_first(line, &chars_of(INDEX_HEAD)) {
        Some(i) => i,
        None => {
            assert forall|i: int, j: int| !parses_index(line@, i, j) by {}
            return None;
        },
    };
    let j: usize = match last_declaration(line) {
        Some(j) => j,
        None => {
            assert forall|i: int, j: int| !parses_index(line@, i, j) by {}
            return None;
        },
    };
    proof {
        assert forall|i2: int, j2: int| parses_index(line@, i2, j2) implies i2 == i && j2
            == j by {
            assert(declares_at(line@, j2));
            assert(declares_at(line@, j as int));
        }
    }
    if j < 17 || i > j - 17 {
        assert forall|i2: int, j2: int| !parses_index(line@, i2, j2) by {}
        return None;
    }
    assert(parses_index(line@, i as int, j as int));
    assert(j + 10 <= line.len()) by {
        reveal_strlit(": usize = ");
    }
    let e: usize = digits_end_from(line, j + 10);
    proof {
        lemma_digits_end(line@, j + 10);
    }
    Some((trim(&part(line, i + 16, j)), read_number(line, j + 10, e)))
}

/// The sanitized name and the index that `line` declares, if it declares an
/// index that a slot can have.
pub fn find_declared_index(line: &Vec<char>) -> (r: Option<(Vec<char>, usize)>)
    ensures
        match declared_index(line@) {
            Some((name, index)) => if index <= usize::MAX {
                r matches Some((n, v)) && n@ == name && v == index
            } else {
                r is None
            },
            None => r is None,
        },
{
    match declaration_of(line) {
        Some((name, Some(index))) => Some((name, index)),
        _ => None,
    }
}

/// Whether `line` declares no index, or the index of an export of `s` with
/// the declared sanitized name.
pub open spec fn line_agrees(s: Seq<ExportDescriptor>, line: Seq<char>) -> bool {
    match declared_index(line) {
        None => true,
        Some((name, index)) => index < s.len() && s[index as int].sanitized_name == name,
    }
}

/// Whether the index table `text` agrees with the exports `s`: every index
/// that it declares is the index of an export with the declared sanitized
/// name.
pub open spec fn indices_agree_with(s: Seq<ExportDescriptor>, text: Seq<char>) -> bool {
    forall|i: int| 0 <= i < lines(text).len() ==> line_agrees(s, #[trigger] lines(text)[i])
}

/// The line that declares the index of an export agrees with the set that
/// holds the export at that index, where the sanitized name is an
/// identifier.
pub proof fn lemma_index_line_agrees(s: Seq<ExportDescriptor>, i: int)
    requires
        0 <= i < s.len(),
        s[i].sanitized_name.len() > 0,
        is_identifier_text(s[i].sanitized_name),
    ensures
        line_agrees(s, index_line(s[i], i as nat)),
{
    lemma_index_line_read_back(s[i], i as nat);
}

/// Whether the index table `text` of a project agrees with the exports
/// that were recovered from its loader table.
pub fn indices_agree(exports: &ExportSet, text: &str) -> (r: bool)
    ensures
        r == indices_agree_with(exports@, text@),
{
    let ls = split_lines(&chars_of(text));
    let count: usize = exports.len();
    let mut i: usize = 0;
    while i < ls.len()
        invariant
            i <= ls.len(),
            count == exports@.len(),
            ls@.len() == lines(text@).len(),
            forall|j: int| 0 <= j < ls@.len() ==> (#[trigger] ls@[j])@ == lines(text@)[j],
            forall|j: int| 0 <= j < i ==> line_agrees(exports@, #[trigger] lines(text@)[j]),
        decreases ls.len() - i,
    {
        assert(ls@[i as int]@ == lines(text@)[i as int]);
        let agrees = match declaration_of(&ls[i]) {
            None => true,
            Some((name, found)) => match found {
                None => false,
                Some(index) => if index < count {
                    let export = exports.get(index);
                    assert(export@.sanitized_name == export.cleaned@);
                    same_text(&chars_of(export.cleaned.as_str()), &name)
                } else {
                    false
                },
            },
        };
        assert(agrees == line_agrees(exports@, lines(text@)[i as int]));
        if !agrees {
            return false;
        }
        i += 1;
    }
    true
}

/// The sanitized names and indices that the index table `text` declares,
/// but for indices that no slot can have.
pub fn recover_indices(text: &str) -> (r: Vec<(Vec<char>, usize)>)
    ensures
        r@.len() <= declared_indices(text@).len(),
        (forall|i: int|
            0 <= i < declared_indices(text@).len() ==> (#[trigger] declared_indices(text@)[i]).1
                <= usize::MAX) ==> r@.len() == declared_indices(text@).len() && forall|i: int|
            0 <= i < r@.len() ==> (#[trigger] r@[i]).0@ == declared_indices(text@)[i].0 && r@[i].1
                == declared_indices(text@)[i].1,
{
    let ls = split_lines(&chars_of(text));
    let mut r: Vec<(Vec<char>, usize)> = Vec::new();
    let ghost mut complete = true;
    let mut i: usize = 0;
    assert(lines(text@).take(0) =~= Seq::<Seq<char>>::empty());
    while i < ls.len()
        invariant
            i <= ls.len(),
            ls@.len() == lines(text@).len(),
            forall|j: int| 0 <= j < ls@.len() ==> (#[trigger] ls@[j])@ == lines(text@)[j],
            r@.len() <= declared(lines(text@).take(i as int)).len(),
            complete ==> r@.len() == declared(lines(text@).take(i as int)).len() && forall|j: int|
                0 <= j < r@.len() ==> (#[trigger] r@[j]).0@ == declared(
                    lines(text@).take(i as int),
                )[j].0 && r@[j].1 == declared(lines(text@).take(i as int))[j].1,
            !complete ==> exists|j: int|
                0 <= j < declared(lines(text@).take(i as int)).len() && (#[trigger] declared(
                    lines(text@).take(i as int),
                )[j]).1 > usize::MAX,
        decreases ls.len() - i,
    {
        let ghost before = declared(lines(text@).take(i as int));
        let ghost after = declared(lines(text@).take(i + 1));
        assert(lines(text@).take(i + 1).drop_last() =~= lines(text@).take(i as int));
        assert(lines(text@).take(i + 1).last() == ls@[i as int]@);
        proof {
            if !complete {
                let j = choose|j: int| 0 <= j < before.len() && (#[trigger] before[j]).1 > usize::MAX;
                assert(after[j] == before[j]);
            }
        }
        match find_declared_index(&ls[i]) {
            Some(found) => {
                r.push(found);
            },
            None => {
                proof {
                    if declared_index(ls@[i as int]@) is Some {
                        assert(after[before.len() as int].1 > usize::MAX);
                        complete = false;
                    }
                }
            },
        }
        i += 1;
    }
    assert(lines(text@).take(ls.len() as int) =~= lines(text@));
    r
}

} // verus!
