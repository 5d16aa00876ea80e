//! Export names: how a raw name of an export table becomes a descriptor, which
//! names are left out, and the order in which descriptors are numbered.

use vstd::prelude::*;
use crate::text::{chars_of, string_of, trim, trimmed, same_text};

verus! {

/// What identifies an export: the name the library exports it under, and the
/// identifier that generated code uses for it.
pub struct ExportDescriptor {
    pub original_name: Seq<char>,
    pub sanitized_name: Seq<char>,
}

/// An export of the proxied library.
#[derive(Clone, Debug, PartialEq, Eq)]
pub struct ExportName {
    pub original: String,
    pub cleaned: String,
}

impl View for ExportName {
    type V = ExportDescriptor;

    open spec fn view(&self) -> ExportDescriptor {
        ExportDescriptor { original_name: self.original@, sanitized_name: self.cleaned@ }
    }
}

/// Whether `c` is an ASCII letter or digit.
pub open spec fn is_alphanumeric(c: char) -> bool {
    ('a' <= c && c <= 'z') || ('A' <= c && c <= 'Z') || ('0' <= c && c <= '9')
}

/// The character that stands for `c` in an identifier.
pub open spec fn clean_char(c: char) -> char {
    if is_alphanumeric(c) {
        c
    } else {
        '_'
    }
}

/// `s` with every character that is no ASCII letter or digit replaced by `_`.
pub open spec fn sanitized(s: Seq<char>) -> Seq<char> {
    Seq::new(s.len(), |i: int| clean_char(s[i]))
}

/// Whether `s` holds only ASCII letters, digits and `_`.
pub open spec fn is_identifier_text(s: Seq<char>) -> bool {
    forall|i: int| 0 <= i < s.len() ==> is_alphanumeric(#[trigger] s[i]) || s[i] == '_'
}

/// Sanitization: the sanitized form of a name is as long as the name and
/// holds only ASCII letters, digits and `_`.
pub proof fn lemma_sanitized(s: Seq<char>)
    ensures
        sanitized(s).len() == s.len(),
        is_identifier_text(sanitized(s)),
{
}

/// The descriptor of the export named `name`: the name without the white
/// space around it, and its sanitized form.
pub open spec fn named(name: Seq<char>) -> ExportDescriptor {
    ExportDescriptor { original_name: trimmed(name), sanitized_name: sanitized(trimmed(name)) }
}

fn clean(c: char) -> (r: char)
    ensures
        r == clean_char(c),
{
    if ('a' <= c && c <= 'z') || ('A' <= c && c <= 'Z') || ('0' <= c && c <= '9') {
        c
    } else {
        '_'
    }
}

/// `name` with every character that is no ASCII letter or digit replaced
/// by `_`.
pub fn clean_chars(name: &Vec<char>) -> (r: Vec<char>)
    ensures
        r@ == sanitized(name@),
{
    let mut r: Vec<char> = Vec::new();
    let mut i: usize = 0;
    while i < name.len()
        invariant
            i <= name.len(),
            r@ == sanitized(name@.take(i as int)),
        decreases name.len() - i,
    {
        r.push(clean(name[i]));
        assert(r@ =~= sanitized(name@.take(i + 1)));
        i += 1;
    }
    assert(name@.take(name.len() as int) =~= name@);
    r
}

/// The identifier that generated code uses for the export `func_name`: as
/// long as the name, and made of ASCII letters, digits and `_` only.
pub fn clean_func_name(func_name: &str) -> (r: String)
    ensures
        r@ == sanitized(func_name@),
        r@.len() == func_name@.len(),
        is_identifier_text(r@),
{
    let name = chars_of(func_name);
    let cleaned = clean_chars(&name);
    string_of(&cleaned)
}

impl ExportName {
    /// The export named `func_name`, white space around the name set aside.
    pub fn new(func_name: &str) -> (e: Self)
        ensures
            e@ == named(func_name@),
            e.cleaned@.len() == e.original@.len(),
            is_identifier_text(e.cleaned@),
    {
        let name = trim(&chars_of(func_name));
        let cleaned = clean_chars(&name);
        ExportName { original: string_of(&name), cleaned: string_of(&cleaned) }
    }

    /// A copy of this export.
    pub fn duplicate(&self) -> (e: Self)
        ensures
            e@ == self@,
    {
        ExportName { original: self.original.clone(), cleaned: self.cleaned.clone() }
    }

    /// Whether `other` is the same export: the same pair of names.
    pub fn same(&self, other: &ExportName) -> (r: bool)
        ensures
            r == (self@ == other@),
    {
        self.original == other.original && self.cleaned == other.cleaned
    }
}

/// Whether `c` is a decimal digit.
pub open spec fn is_digit(c: char) -> bool {
    '0' <= c && c <= '9'
}

/// Whether `s` is a name with the stdcall decoration, opened by the `@` at
/// index `p`: a name without `@`, then `@` and the decimal size of the
/// arguments.
pub open spec fn decorated_at(s: Seq<char>, p: int) -> bool {
    &&& 0 < p < s.len() - 1
    &&& s[p] == '@'
    &&& forall|i: int| 0 <= i < p ==> s[i] != '@'
    &&& forall|i: int| p < i < s.len() ==> is_digit(#[trigger] s[i])
}

/// `s` without its stdcall decoration, where it has one.
pub open spec fn undecorated(s: Seq<char>) -> Seq<char> {
    if exists|p: int| decorated_at(s, p) {
        s.take(choose|p: int| decorated_at(s, p))
    } else {
        s
    }
}

/// `s` without its stdcall decoration, where it has one.
pub fn undecorate(s: &Vec<char>) -> (r: Vec<char>)
    ensures
        r@ == undecorated(s@),
{
    let mut j: usize = s.len();
    while j > 0 && '0' <= s[j - 1] && s[j - 1] <= '9'
        invariant
            j <= s.len(),
            forall|i: int| j <= i < s.len() ==> is_digit(#[trigger] s@[i]),
        decreases j,
    {
        j -= 1;
    }
    let mut keep: usize = s.len();
    if j >= 2 && j < s.len() && s[j - 1] == '@' {
        let p: usize = j - 1;
        let mut i: usize = 0;
        while i < p && s[i] != '@'
            invariant
                i <= p < s.len(),
                forall|k: int| 0 <= k < i ==> s@[k] != '@',
            decreases p - i,
        {
            i += 1;
        }
        if i == p {
            assert(decorated_at(s@, p as int));
            assert forall|q: int| decorated_at(s@, q) implies q == p by {
                if q < p {
                    assert(s@[q] == '@');
                } else if q > p {
                    assert(s@[p as int] == '@');
                }
            }
            keep = p;
        } else {
            assert forall|q: int| !decorated_at(s@, q) by {
                if decorated_at(s@, q) {
                    if q > i {
                        assert(s@[i as int] == '@');
                    } else if q < p {
                        assert(is_digit(s@[p as int]));
                    }
                }
            }
        }
    } else {
        assert forall|q: int| !decorated_at(s@, q) by {
            if decorated_at(s@, q) {
                if j == 0 {
                    assert(is_digit(s@[q]));
                } else if q >= j {
                    assert(is_digit(s@[q]));
                } else if q < j - 1 {
                    assert(is_digit(s@[j - 1]));
                }
            }
        }
    }
    let mut r: Vec<char> = Vec::new();
    let mut i: usize = 0;
    while i < keep
        invariant
            i <= keep <= s.len(),
            r@ == s@.take(i as int),
        decreases keep - i,
    {
        r.push(s[i]);
        i += 1;
    }
    assert(s@.take(s.len() as int) =~= s@);
    r
}

/// The names that generated support code defines itself: the entry point of
/// the library, the table of original functions, its raw pointer, and the
/// routine that waits until the table is filled.
pub open spec fn is_reserved(name: Seq<char>) -> bool {
    ||| name == "DllMain"@
    ||| name == "ORIGINAL_FUNCS"@
    ||| name == "ORIG_FUNCS_PTR"@
    ||| name == "wait_dll_proxy_init"@
}

/// Whether generated support code defines `name` itself.
pub fn is_reserved_name(name: &Vec<char>) -> (r: bool)
    ensures
        r == is_reserved(name@),
{
    same_text(name, &chars_of("DllMain")) || same_text(name, &chars_of("ORIGINAL_FUNCS"))
        || same_text(name, &chars_of("ORIG_FUNCS_PTR")) || same_text(
        name,
        &chars_of("wait_dll_proxy_init"),
    )
}

/// The descriptor that extraction gives the raw name `raw` of an export
/// table: white space and the stdcall decoration are set aside.
pub open spec fn extracted(raw: Seq<char>) -> ExportDescriptor {
    named(undecorated(trimmed(raw)))
}

} // verus!
