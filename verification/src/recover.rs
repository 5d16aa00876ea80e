//! What an existing project tells about itself. Two kinds of line are
//! recognised: the declaration of an interceptor, which names an export that
//! is intercepted, and the call that loads an original function, which names
//! an export and, by its place among such calls, the index of the export.

use vstd::prelude::*;
use crate::export_set::ExportSet;
use crate::exports::{ExportDescriptor, ExportName};
use crate::tables::{loader_line, name_texts, LOAD_HANDLE, LOAD_HEAD, LOAD_TAIL};
use crate::text::{
    append_str, chars_of, find_first, is_first, lines, matches_at, occurs_at, part, skip_spaces,
    skip_spaces_from, split_lines, string_of, trim, trimmed,
};

verus! {

/// What the declaration of an interceptor begins with.
pub const HOOK_MARK: &'static str = "pub extern ";

/// What stands before the name of a declared function.
pub const FN_MARK: &'static str = " fn ";

/// What a loading call begins with, up to the sanitized name.
pub const LOAD_MARK: &'static str = "load_dll_func(Index_";

/// The second argument of a loading call, with its comma.
pub const HANDLE_MARK: &'static str = "dll_handle,";

/// Whether the last `(` of `line` stands at `k`.
pub open spec fn is_last_paren(line: Seq<char>, k: int) -> bool {
    &&& 0 <= k < line.len()
    &&& line[k] == '('
    &&& forall|m: int| k < m < line.len() ==> line[m] != '('
}

/// Whether ` fn ` stands at `j` with at least one character between it and `k`.
pub open spec fn names_at(line: Seq<char>, j: int, k: int) -> bool {
    occurs_at(line, j, FN_MARK@) && j + 4 < k
}

/// Whether `line` declares an interceptor: `pub extern ` first stands at
/// `i`; the last `(` stands at `k`; and `j` is the last place of ` fn ` that
/// leaves a name before `k`, and none of `pub extern ` is taken by it.
pub open spec fn parses_hook(line: Seq<char>, i: int, j: int, k: int) -> bool {
    &&& is_first(line, i, HOOK_MARK@)
    &&& is_last_paren(line, k)
    &&& names_at(line, j, k)
    &&& forall|m: int| j < m ==> !names_at(line, m, k)
    &&& i + 11 <= j
}

/// The name of the export that `line` declares an interceptor for, if it
/// declares one: what stands between ` fn ` and `(`, without the white space
/// around it.
pub open spec fn intercepted_name(line: Seq<char>) -> Option<Seq<char>> {
    if exists|i: int, j: int, k: int| parses_hook(line, i, j, k) {
        let (i, j, k) = choose|i: int, j: int, k: int| parses_hook(line, i, j, k);
        Some(trimmed(line.subrange(j + 4, k)))
    } else {
        None
    }
}

/// Where the original name begins, if the comma at `p` opens the rest of a
/// loading call: the comma, `dll_handle,` and a double quote, with any white
/// space between them.
pub open spec fn name_opens(line: Seq<char>, p: int) -> Option<int> {
    if 0 <= p < line.len() && line[p] == ',' {
        let a = skip_spaces(line, p + 1);
        if occurs_at(line, a, HANDLE_MARK@) {
            let b = skip_spaces(line, a + 11);
            if b < line.len() && line[b] == '"' {
                Some(b + 1)
            } else {
                None
            }
        } else {
            None
        }
    } else {
        None
    }
}

/// Whether a loading call can end at `q`: a double quote, `)`, and after any
/// white space `;`.
pub open spec fn closes_at(line: Seq<char>, q: int) -> bool {
    &&& 0 <= q
    &&& q + 1 < line.len()
    &&& line[q] == '"'
    &&& line[q + 1] == ')'
    &&& skip_spaces(line, q + 2) < line.len()
    &&& line[skip_spaces(line, q + 2)] == ';'
}

/// Whether the comma at `p` opens an original name that ends before `q`.
pub open spec fn splits_at(line: Seq<char>, p: int, q: int) -> bool {
    name_opens(line, p) matches Some(c) && c < q
}

/// Whether `line` holds a loading call: `load_dll_func(Index_` first stands
/// at `i`; `q` is the last place where the call can end; `p` is the last
/// comma that opens an original name before `q`; and a sanitized name stands
/// before `p`.
pub open spec fn parses_load(line: Seq<char>, i: int, p: int, q: int) -> bool {
    &&& is_first(line, i, LOAD_MARK@)
    &&& closes_at(line, q)
    &&& forall|m: int| q < m ==> !closes_at(line, m)
    &&& splits_at(line, p, q)
    &&& forall|m: int| p < m ==> !splits_at(line, m, q)
    &&& i + 20 < p
}

/// The export that `line` loads, if it holds a loading call: the sanitized
/// name without the white space around it, and the original name as it
/// stands between the quotes.
pub open spec fn loaded_export(line: Seq<char>) -> Option<ExportDescriptor> {
    if exists|i: int, p: int, q: int| parses_load(line, i, p, q) {
        let (i, p, q) = choose|i: int, p: int, q: int| parses_load(line, i, p, q);
        Some(
            ExportDescriptor {
                original_name: line.subrange(name_opens(line, p).unwrap(), q),
                sanitized_name: trimmed(line.subrange(i + 20, p)),
            },
        )
    } else {
        None
    }
}

/// The names that the lines `ls` declare interceptors for, in their order.
pub open spec fn intercepted(ls: Seq<Seq<char>>) -> Seq<Seq<char>>
    decreases ls.len(),
{
    if ls.len() == 0 {
        Seq::empty()
    } else {
        match intercepted_name(ls.last()) {
            Some(n) => intercepted(ls.drop_last()).push(n),
            None => intercepted(ls.drop_last()),
        }
    }
}

/// The exports that the lines `ls` load, each once, in the order in which
/// they first occur: the order of their indices.
pub open spec fn recovered(ls: Seq<Seq<char>>) -> Seq<ExportDescriptor>
    decreases ls.len(),
{
    if ls.len() == 0 {
        Seq::empty()
    } else {
        let prior = recovered(ls.drop_last());
        match loaded_export(ls.last()) {
            Some(d) => if prior.contains(d) {
                prior
            } else {
                prior.push(d)
            },
            None => prior,
        }
    }
}

/// The names of the exports that the interceptor file `text` intercepts.
pub open spec fn intercepted_names(text: Seq<char>) -> Seq<Seq<char>> {
    intercepted(lines(text))
}

/// The exports of the project whose loader table is `text`, in the order of
/// their indices.
pub open spec fn recovered_exports(text: Seq<char>) -> Seq<ExportDescriptor> {
    recovered(lines(text))
}

/// Whether `s` holds no line feed.
pub open spec fn single_line(s: Seq<char>) -> bool {
    forall|i: int| 0 <= i < s.len() ==> #[trigger] s[i] != '\n'
}

/// Whether the export `e` survives a round through the loader table: its
/// line is one line, and the line is read back as `e`.
pub open spec fn survives(e: ExportDescriptor) -> bool {
    single_line(loader_line(e)) && loaded_export(loader_line(e)) == Some(e)
}

/// Whether every export of `s` survives a round through the loader table.
pub open spec fn all_survive(s: Seq<ExportDescriptor>) -> bool {
    forall|i: int| 0 <= i < s.len() ==> survives(#[trigger] s[i])
}

fn last_paren(line: &Vec<char>) -> (r: Option<usize>)
    ensures
        match r {
            Some(k) => is_last_paren(line@, k as int),
            None => forall|m: int| 0 <= m < line.len() ==> line@[m] != '(',
        },
{
    let mut k: usize = line.len();
    while k > 0
        invariant
            k <= line.len(),
            forall|m: int| k <= m < line.len() ==> line@[m] != '(',
        decreases k,
    {
        k -= 1;
        if line[k] == '(' {
            return Some(k);
        }
    }
    None
}

fn last_name_mark(line: &Vec<char>, k: usize) -> (r: Option<usize>)
    requires
        k < line.len(),
    ensures
        match r {
            Some(j) => names_at(line@, j as int, k as int) && forall|m: int|
                j < m ==> !names_at(line@, m, k as int),
            None => forall|m: int| !names_at(line@, m, k as int),
        },
{
    if k < 5 {
        assert forall|m: int| !names_at(line@, m, k as int) by {}
        return None;
    }
    let mark = chars_of(FN_MARK);
    let mut j: usize = k - 4;
    while j > 0
        invariant
            j <= k - 4,
            mark@ == FN_MARK@,
            forall|m: int| j <= m ==> !names_at(line@, m, k as int),
        decreases j,
    {
        j -= 1;
        if matches_at(line, j, &mark) {
            return Some(j);
        }
    }
    assert forall|m: int| !names_at(line@, m, k as int) by {}
    None
}

/// The name of the export that `line` declares an interceptor for, if it
/// declares one.
pub fn find_intercepted(line: &Vec<char>) -> (r: Option<Vec<char>>)
    ensures
        match intercepted_name(line@) {
            Some(n) => r matches Some(v) && v@ == n,
            None => r is None,
        },
{
    proof {
        reveal_strlit("pub extern ");
        reveal_strlit(" fn ");
    }
    let first = find_first(line, &chars_of(HOOK_MARK));
    let i: usize = match first {
        Some(i) => i,
        None => {
            assert forall|i: int, j: int, k: int| !parses_hook(line@, i, j, k) by {}
            return None;
        },
    };
    let k: usize = match last_paren(line) {
        Some(k) => k,
        None => {
            assert forall|i: int, j: int, k: int| !parses_hook(line@, i, j, k) by {}
            return None;
        },
    };
    let j: usize = match last_name_mark(line, k) {
        Some(j) => j,
        None => {
            assert forall|i: int, j: int, k2: int| !parses_hook(line@, i, j, k2) by {
                if parses_hook(line@, i, j, k2) {
                    lemma_last_paren_unique(line@, k as int, k2);
                }
            }
            return None;
        },
    };
    proof {
        assert forall|i2: int, j2: int, k2: int| parses_hook(line@, i2, j2, k2) implies i2 == i
            && j2 == j && k2 == k by {
            lemma_last_paren_unique(line@, k as int, k2);
            assert(names_at(line@, j2, k as int));
            assert(names_at(line@, j as int, k2));
        }
    }
    if j < 11 || i > j - 11 {
        assert forall|i2: int, j2: int, k2: int| !parses_hook(line@, i2, j2, k2) by {}
        return None;
    }
    assert(parses_hook(line@, i as int, j as int, k as int));
    Some(trim(&part(line, j + 4, k)))
}

proof fn lemma_last_paren_unique(line: Seq<char>, k1: int, k2: int)
    requires
        is_last_paren(line, k1),
        is_last_paren(line, k2),
    ensures
        k1 == k2,
{
}

fn opens_name(line: &Vec<char>, p: usize) -> (r: Option<usize>)
    requires
        p < line.len(),
    ensures
        match r {
            Some(c) => name_opens(line@, p as int) == Some(c as int) && c <= line.len(),
            None => name_opens(line@, p as int) is None,
        },
{
    proof {
        reveal_strlit("dll_handle,");
    }
    if line[p] != ',' {
        return None;
    }
    let a: usize = skip_spaces_from(line, p + 1);
    if !matches_at(line, a, &chars_of(HANDLE_MARK)) {
        return None;
    }
    let b: usize = skip_spaces_from(line, a + 11);
    if b < line.len() && line[b] == '"' {
        Some(b + 1)
    } else {
        None
    }
}

fn is_close(line: &Vec<char>, q: usize) -> (r: bool)
    requires
        q < line.len(),
    ensures
        r == closes_at(line@, q as int),
{
    if line.len() < 2 || q > line.len() - 2 {
        return false;
    }
    if line[q] != '"' || line[q + 1] != ')' {
        return false;
    }
    let s: usize = skip_spaces_from(line, q + 2);
    s < line.len() && line[s] == ';'
}

fn last_close(line: &Vec<char>) -> (r: Option<usize>)
    ensures
        match r {
            Some(q) => q < line.len() && closes_at(line@, q as int) && forall|m: int|
                q < m ==> !closes_at(line@, m),
            None => forall|m: int| !closes_at(line@, m),
        },
{
    let mut q: usize = line.len();
    while q > 0
        invariant
            q <= line.len(),
            forall|m: int| q <= m ==> !closes_at(line@, m),
        decreases q,
    {
        q -= 1;
        if is_close(line, q) {
            return Some(q);
        }
    }
    None
}

fn last_split(line: &Vec<char>, q: usize) -> (r: Option<(usize, usize)>)
    requires
        q < line.len(),
    ensures
        match r {
            Some((p, c)) => p < line.len() && name_opens(line@, p as int) == Some(c as int) && c
                < q && forall|m: int| p < m ==> !splits_at(line@, m, q as int),
            None => forall|m: int| !splits_at(line@, m, q as int),
        },
{
    let mut p: usize = line.len();
    while p > 0
        invariant
            p <= line.len(),
            forall|m: int| p <= m ==> !splits_at(line@, m, q as int),
        decreases p,
    {
        p -= 1;
        match opens_name(line, p) {
            Some(c) => {
                if c < q {
                    return Some((p, c));
                }
            },
            None => {},
        }
    }
    None
}

/// The export that `line` loads, if it holds a loading call.
pub fn find_loaded(line: &Vec<char>) -> (r: Option<ExportName>)
    ensures
        match loaded_export(line@) {
            Some(d) => r matches Some(e) && e@ == d,
            None => r is None,
        },
{
    proof {
        reveal_strlit("load_dll_func(Index_");
    }
    let i: usize = match find_first(line, &chars_of(LOAD_MARK)) {
        Some(i) => i,
        None => {
            assert forall|i: int, p: int, q: int| !parses_load(line@, i, p, q) by {}
            return None;
        },
    };
    let q: usize = match last_close(line) {
        Some(q) => q,
        None => {
            assert forall|i: int, p: int, q: int| !parses_load(line@, i, p, q) by {}
            return None;
        },
    };
    let (p, c) = match last_split(line, q) {
        Some(found) => found,
        None => {
            assert forall|i: int, p: int, q2: int| !parses_load(line@, i, p, q2) by {
                if parses_load(line@, i, p, q2) {
                    assert(q2 == q);
                }
            }
            return None;
        },
    };
    proof {
        assert forall|i2: int, p2: int, q2: int| parses_load(line@, i2, p2, q2) implies i2 == i
            && p2 == p && q2 == q by {
            assert(q2 == q);
            assert(splits_at(line@, p2, q as int));
            assert(splits_at(line@, p as int, q2));
        }
    }
    if p < 21 || i > p - 21 {
        assert forall|i2: int, p2: int, q2: int| !parses_load(line@, i2, p2, q2) by {}
        return None;
    }
    assert(parses_load(line@, i as int, p as int, q as int));
    let cleaned = trim(&part(line, i + 20, p));
    let original = part(line, c, q);
    Some(ExportName { original: string_of(&original), cleaned: string_of(&cleaned) })
}

/// The names of the exports that the interceptor file `text` intercepts.
pub fn recover_intercepted(text: &str) -> (names: Vec<Vec<char>>)
    ensures
        name_texts(names@) == intercepted_names(text@),
{
    let ls = split_lines(&chars_of(text));
    let mut names: Vec<Vec<char>> = Vec::new();
    let mut i: usize = 0;
    assert(lines(text@).take(0) =~= Seq::<Seq<char>>::empty());
    assert(name_texts(names@) =~= Seq::<Seq<char>>::empty());
    while i < ls.len()
        invariant
            i <= ls.len(),
            ls@.len() == lines(text@).len(),
            forall|j: int| 0 <= j < ls@.len() ==> (#[trigger] ls@[j])@ == lines(text@)[j],
            name_texts(names@) == intercepted(lines(text@).take(i as int)),
        decreases ls.len() - i,
    {
        assert(lines(text@).take(i + 1).drop_last() =~= lines(text@).take(i as int));
        assert(lines(text@).take(i + 1).last() == ls@[i as int]@);
        match find_intercepted(&ls[i]) {
            Some(n) => {
                let ghost before = name_texts(names@);
                let ghost nv = n@;
                names.push(n);
                assert(name_texts(names@) =~= before.push(nv));
            },
            None => {},
        }
        i += 1;
    }
    assert(lines(text@).take(ls.len() as int) =~= lines(text@));
    names
}

/// The exports of the project whose loader table is `text`, in the order of
/// their indices.
pub fn recover_exports(text: &str) -> (exports: ExportSet)
    ensures
        exports.wf(),
        exports@ == recovered_exports(text@),
{
    let ls = split_lines(&chars_of(text));
    let mut exports = ExportSet::new();
    let mut i: usize = 0;
    assert(lines(text@).take(0) =~= Seq::<Seq<char>>::empty());
    while i < ls.len()
        invariant
            i <= ls.len(),
            ls@.len() == lines(text@).len(),
            forall|j: int| 0 <= j < ls@.len() ==> (#[trigger] ls@[j])@ == lines(text@)[j],
            exports.wf(),
            exports@ == recovered(lines(text@).take(i as int)),
        decreases ls.len() - i,
    {
        assert(lines(text@).take(i + 1).drop_last() =~= lines(text@).take(i as int));
        assert(lines(text@).take(i + 1).last() == ls@[i as int]@);
        match find_loaded(&ls[i]) {
            Some(e) => {
                exports.add(e);
            },
            None => {},
        }
        i += 1;
    }
    assert(lines(text@).take(ls.len() as int) =~= lines(text@));
    exports
}

/// Whether the export `e` survives a round through the loader table.
pub fn survives_recovery(e: &ExportName) -> (r: bool)
    ensures
        r == survives(e@),
{
    let mut line: Vec<char> = Vec::new();
    append_str(&mut line, LOAD_HEAD);
    append_str(&mut line, e.cleaned.as_str());
    append_str(&mut line, LOAD_HANDLE);
    append_str(&mut line, e.original.as_str());
    append_str(&mut line, LOAD_TAIL);
    assert(line@ =~= loader_line(e@));
    let mut i: usize = 0;
    while i < line.len()
        invariant
            i <= line.len(),
            line@ == loader_line(e@),
            forall|j: int| 0 <= j < i ==> #[trigger] line@[j] != '\n',
        decreases line.len() - i,
    {
        if line[i] == '\n' {
            assert(loader_line(e@)[i as int] == '\n');
            return false;
        }
        i += 1;
    }
    match find_loaded(&line) {
        Some(found) => found.same(e),
        None => false,
    }
}

/// Whether every export of `exports` survives a round through the loader
/// table: whether the exports can be recovered from the project written
/// for them.
pub fn all_survive_recovery(exports: &ExportSet) -> (r: bool)
    ensures
        r == all_survive(exports@),
{
    let mut i: usize = 0;
    while i < exports.len()
        invariant
            i <= exports@.len(),
            forall|j: int| 0 <= j < i ==> survives(#[trigger] exports@[j]),
        decreases exports@.len() - i,
    {
        if !survives_recovery(exports.get(i)) {
            return false;
        }
        i += 1;
    }
    true
}

} // verus!
