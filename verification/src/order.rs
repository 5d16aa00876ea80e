//! The canonical order of exports. Names compare letter by letter; a letter
//! counts without its case first, and among the two cases of one letter the
//! upper case comes first. Exports compare by sanitized name, then by
//! original name.

use vstd::prelude::*;
use crate::exports::{ExportDescriptor, ExportName};
use crate::text::{chars_of, same_text};

verus! {

/// The place of `c` among the characters when case is set aside: an ASCII
/// upper case letter has the place of its lower case form.
pub open spec fn rank(c: char) -> int {
    if 'A' <= c && c <= 'Z' {
        c as int + 32
    } else {
        c as int
    }
}

/// Whether `a` comes before `b`.
pub open spec fn char_before(a: char, b: char) -> bool {
    rank(a) < rank(b) || (rank(a) == rank(b) && (a as int) < (b as int))
}

/// Whether `a` and `b` agree on their first `k` characters and `a` comes
/// first by what follows: `a` ends there and `b` goes on, or the next
/// character of `a` comes before that of `b`.
pub open spec fn parts_at(a: Seq<char>, b: Seq<char>, k: int) -> bool {
    &&& 0 <= k <= a.len()
    &&& k < b.len()
    &&& forall|i: int| 0 <= i < k ==> a[i] == b[i]
    &&& (k < a.len() ==> char_before(a[k], b[k]))
}

/// Whether the text `a` comes before the text `b`.
pub open spec fn text_before(a: Seq<char>, b: Seq<char>) -> bool {
    exists|k: int| parts_at(a, b, k)
}

/// Whether the export `x` comes before the export `y`.
pub open spec fn precedes(x: ExportDescriptor, y: ExportDescriptor) -> bool {
    text_before(x.sanitized_name, y.sanitized_name) || (x.sanitized_name == y.sanitized_name
        && text_before(x.original_name, y.original_name))
}

/// Whether `s` is in canonical order: each export comes before all later ones.
pub open spec fn ascending(s: Seq<ExportDescriptor>) -> bool {
    forall|i: int, j: int| 0 <= i < j < s.len() ==> precedes(s[i], s[j])
}

/// No text comes before itself.
pub proof fn lemma_text_before_irreflexive(a: Seq<char>)
    ensures
        !text_before(a, a),
{
    assert forall|k: int| !parts_at(a, a, k) by {}
}

/// Coming before is transitive among texts.
pub proof fn lemma_text_before_transitive(a: Seq<char>, b: Seq<char>, c: Seq<char>)
    requires
        text_before(a, b),
        text_before(b, c),
    ensures
        text_before(a, c),
{
    let k1 = choose|k: int| parts_at(a, b, k);
    let k2 = choose|k: int| parts_at(b, c, k);
    if k1 <= k2 {
        if k1 < k2 {
            assert(b[k1] == c[k1]);
        }
        assert(parts_at(a, c, k1));
    } else {
        assert(a[k2] == b[k2]);
        assert(parts_at(a, c, k2));
    }
}

/// The length of the longest common prefix of `a[from..]` and `b[from..]`,
/// counted from the start of the texts.
pub open spec fn first_difference(a: Seq<char>, b: Seq<char>, from: int) -> int
    decreases a.len() - from,
{
    if from < 0 || from >= a.len() || from >= b.len() || a[from] != b[from] {
        from
    } else {
        first_difference(a, b, from + 1)
    }
}

proof fn lemma_first_difference(a: Seq<char>, b: Seq<char>, from: int)
    requires
        0 <= from <= a.len(),
        from <= b.len(),
    ensures
        from <= first_difference(a, b, from) <= a.len(),
        first_difference(a, b, from) <= b.len(),
        forall|i: int| from <= i < first_difference(a, b, from) ==> a[i] == b[i],
        first_difference(a, b, from) < a.len() && first_difference(a, b, from) < b.len()
            ==> a[first_difference(a, b, from)] != b[first_difference(a, b, from)],
    decreases a.len() - from,
{
    if from < a.len() && from < b.len() && a[from] == b[from] {
        lemma_first_difference(a, b, from + 1);
    }
}

/// Of two different texts one comes before the other.
pub proof fn lemma_text_before_total(a: Seq<char>, b: Seq<char>)
    requires
        a != b,
    ensures
        text_before(a, b) || text_before(b, a),
{
    lemma_first_difference(a, b, 0);
    let k = first_difference(a, b, 0);
    if k == a.len() && k == b.len() {
        assert(a =~= b);
    } else if k == a.len() {
        assert(parts_at(a, b, k));
    } else if k == b.len() {
        assert(parts_at(b, a, k));
    } else if char_before(a[k], b[k]) {
        assert(parts_at(a, b, k));
    } else {
        assert(char_before(b[k], a[k]));
        assert(parts_at(b, a, k));
    }
}

/// No export comes before itself.
pub proof fn lemma_precedes_irreflexive(x: ExportDescriptor)
    ensures
        !precedes(x, x),
{
    lemma_text_before_irreflexive(x.sanitized_name);
    lemma_text_before_irreflexive(x.original_name);
}

/// Coming before is transitive.
pub proof fn lemma_precedes_transitive(x: ExportDescriptor, y: ExportDescriptor, z: ExportDescriptor)
    requires
        precedes(x, y),
        precedes(y, z),
    ensures
        precedes(x, z),
{
    if text_before(x.sanitized_name, y.sanitized_name) {
        if text_before(y.sanitized_name, z.sanitized_name) {
            lemma_text_before_transitive(x.sanitized_name, y.sanitized_name, z.sanitized_name);
        }
    } else if text_before(y.sanitized_name, z.sanitized_name) {
    } else {
        lemma_text_before_transitive(x.original_name, y.original_name, z.original_name);
    }
}

/// Of two different exports one comes before the other.
pub proof fn lemma_precedes_total(x: ExportDescriptor, y: ExportDescriptor)
    requires
        x != y,
    ensures
        precedes(x, y) || precedes(y, x),
{
    if x.sanitized_name != y.sanitized_name {
        lemma_text_before_total(x.sanitized_name, y.sanitized_name);
    } else {
        assert(x.original_name != y.original_name);
        lemma_text_before_total(x.original_name, y.original_name);
    }
}

/// An ascending sequence holds no export twice.
pub proof fn lemma_ascending_distinct(s: Seq<ExportDescriptor>)
    requires
        ascending(s),
    ensures
        forall|i: int, j: int| 0 <= i < j < s.len() ==> s[i] != s[j],
{
    assert forall|i: int, j: int| 0 <= i < j < s.len() implies s[i] != s[j] by {
        lemma_precedes_irreflexive(s[i]);
    }
}

/// Two ascending sequences that hold the same exports are equal: the
/// canonical order of a set of exports is unique.
pub proof fn lemma_ascending_unique(s: Seq<ExportDescriptor>, t: Seq<ExportDescriptor>)
    requires
        ascending(s),
        ascending(t),
        forall|x: ExportDescriptor| s.contains(x) <==> t.contains(x),
    ensures
        s == t,
    decreases s.len(),
{
    if s.len() == 0 {
        if t.len() > 0 {
            assert(t.contains(t[0]));
        }
        assert(s =~= t);
    } else if t.len() == 0 {
        assert(s.contains(s[0]));
    } else {
        // The two first elements are the least of the same set.
        assert(s.contains(s[0]));
        assert(t.contains(t[0]));
        let i = choose|i: int| 0 <= i < t.len() && t[i] == s[0];
        let j = choose|j: int| 0 <= j < s.len() && s[j] == t[0];
        if s[0] != t[0] {
            assert(i > 0 && j > 0);
            assert(precedes(t[0], t[i]));
            assert(precedes(s[0], s[j]));
            lemma_precedes_transitive(s[0], t[0], s[0]);
            lemma_precedes_irreflexive(s[0]);
        }
        let s1 = s.drop_first();
        let t1 = t.drop_first();
        assert forall|x: ExportDescriptor| s1.contains(x) <==> t1.contains(x) by {
            lemma_precedes_irreflexive(s[0]);
            if s1.contains(x) {
                let k = choose|k: int| 0 <= k < s1.len() && s1[k] == x;
                assert(s[k + 1] == x);
                assert(precedes(s[0], s[k + 1]));
                assert(s.contains(x));
                let m = choose|m: int| 0 <= m < t.len() && t[m] == x;
                assert(m != 0);
                assert(t1[m - 1] == x);
            }
            if t1.contains(x) {
                let k = choose|k: int| 0 <= k < t1.len() && t1[k] == x;
                assert(t[k + 1] == x);
                assert(precedes(t[0], t[k + 1]));
                assert(t.contains(x));
                let m = choose|m: int| 0 <= m < s.len() && s[m] == x;
                assert(m != 0);
                assert(s1[m - 1] == x);
            }
        }
        assert(ascending(s1)) by {
            assert forall|a: int, b: int| 0 <= a < b < s1.len() implies precedes(s1[a], s1[b]) by {
                assert(precedes(s[a + 1], s[b + 1]));
            }
        }
        assert(ascending(t1)) by {
            assert forall|a: int, b: int| 0 <= a < b < t1.len() implies precedes(t1[a], t1[b]) by {
                assert(precedes(t[a + 1], t[b + 1]));
            }
        }
        lemma_ascending_unique(s1, t1);
        assert(s =~= seq![s[0]] + s1);
        assert(t =~= seq![t[0]] + t1);
    }
}

fn rank_of(c: char) -> (r: u32)
    ensures
        r == rank(c),
{
    if 'A' <= c && c <= 'Z' {
        c as u32 + 32
    } else {
        c as u32
    }
}

fn comes_before(a: char, b: char) -> (r: bool)
    ensures
        r == char_before(a, b),
{
    let ra: u32 = rank_of(a);
    let rb: u32 = rank_of(b);
    ra < rb || (ra == rb && a < b)
}

/// Whether the text `a` comes before the text `b`.
pub fn is_text_before(a: &Vec<char>, b: &Vec<char>) -> (r: bool)
    ensures
        r == text_before(a@, b@),
{
    let mut k: usize = 0;
    while k < a.len() && k < b.len() && a[k] == b[k]
        invariant
            k <= a.len(),
            k <= b.len(),
            forall|i: int| 0 <= i < k ==> a@[i] == b@[i],
        decreases a.len() - k,
    {
        k += 1;
    }
    if k >= b.len() {
        assert forall|m: int| !parts_at(a@, b@, m) by {}
        false
    } else if k >= a.len() {
        assert(parts_at(a@, b@, k as int));
        true
    } else {
        let r = comes_before(a[k], b[k]);
        if r {
            assert(parts_at(a@, b@, k as int));
        } else {
            assert forall|m: int| !parts_at(a@, b@, m) by {
                if parts_at(a@, b@, m) {
                    if m < k {
                        assert(a@[m] == b@[m]);
                    } else if m > k {
                        assert(a@[k as int] == b@[k as int]);
                    }
                }
            }
        }
        r
    }
}

/// Whether the export `a` comes before the export `b`.
pub fn is_before(a: &ExportName, b: &ExportName) -> (r: bool)
    ensures
        r == precedes(a@, b@),
{
    let a_cleaned = chars_of(a.cleaned.as_str());
    let b_cleaned = chars_of(b.cleaned.as_str());
    if is_text_before(&a_cleaned, &b_cleaned) {
        true
    } else {
        same_text(&a_cleaned, &b_cleaned) && is_text_before(
            &chars_of(a.original.as_str()),
            &chars_of(b.original.as_str()),
        )
    }
}

} // verus!
