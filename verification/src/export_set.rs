//! The ordered set of exports of a project. The position of an export in the
//! set is its index: the slot of its original function in the table that the
//! proxy fills when it is loaded.

use vstd::prelude::*;
use crate::exports::{
    clean_chars, extracted, is_reserved, is_reserved_name, undecorate, ExportDescriptor,
    ExportName,
};
use crate::order::{
    ascending, is_text_before, lemma_ascending_distinct, lemma_ascending_unique,
    lemma_precedes_total, lemma_precedes_transitive, precedes,
};
use crate::text::{chars_of, same_text, string_of, trim};

verus! {

/// An export as the characters of its two names.
struct Key {
    cleaned: Vec<char>,
    original: Vec<char>,
}

impl View for Key {
    type V = ExportDescriptor;

    closed spec fn view(&self) -> ExportDescriptor {
        ExportDescriptor { original_name: self.original@, sanitized_name: self.cleaned@ }
    }
}

spec fn descriptors(keys: Seq<Key>) -> Seq<ExportDescriptor> {
    keys.map_values(|k: Key| k@)
}

fn key_precedes(a: &Key, b: &Key) -> (r: bool)
    ensures
        r == precedes(a@, b@),
{
    if is_text_before(&a.cleaned, &b.cleaned) {
        true
    } else {
        same_text(&a.cleaned, &b.cleaned) && is_text_before(&a.original, &b.original)
    }
}

fn key_same(a: &Key, b: &Key) -> (r: bool)
    ensures
        r == (a@ == b@),
{
    same_text(&a.cleaned, &b.cleaned) && same_text(&a.original, &b.original)
}

/// Puts `k` at its place in the ascending `keys`, unless it is there.
fn place(keys: &mut Vec<Key>, k: Key)
    requires
        ascending(descriptors(old(keys)@)),
    ensures
        ascending(descriptors(final(keys)@)),
        forall|x: ExportDescriptor|
            descriptors(final(keys)@).contains(x) <==> descriptors(old(keys)@).contains(x) || x
                == k@,
{
    let ghost before = descriptors(keys@);
    let mut i: usize = 0;
    while i < keys.len() && key_precedes(&keys[i], &k)
        invariant
            i <= keys.len(),
            keys@ == old(keys)@,
            before == descriptors(keys@),
            forall|j: int| 0 <= j < i ==> precedes(#[trigger] before[j], k@),
        decreases keys.len() - i,
    {
        i += 1;
    }
    if i < keys.len() && key_same(&keys[i], &k) {
        assert(before[i as int] == k@);
        return ;
    }
    proof {
        assert forall|j: int| i <= j < before.len() implies precedes(k@, #[trigger] before[j]) by {
            lemma_precedes_total(k@, before[i as int]);
            if j > i {
                lemma_precedes_transitive(k@, before[i as int], before[j]);
            }
        }
    }
    let ghost kd = k@;
    keys.insert(i, k);
    proof {
        let after = descriptors(keys@);
        assert(after =~= before.insert(i as int, kd));
        assert forall|a: int, b: int| 0 <= a < b < after.len() implies precedes(
            after[a],
            after[b],
        ) by {
            let a0 = if a < i { a } else { a - 1 };
            let b0 = if b < i { b } else { b - 1 };
            if a != i && b != i {
                assert(precedes(before[a0], before[b0]));
            } else if a == i {
                assert(after[b] == before[b0]);
            } else {
                assert(after[a] == before[a0]);
            }
        }
        assert forall|x: ExportDescriptor| after.contains(x) <==> before.contains(x) || x
            == kd by {
            if after.contains(x) {
                let m = choose|m: int| 0 <= m < after.len() && after[m] == x;
                if m < i {
                    assert(before[m] == x);
                } else if m > i {
                    assert(before[m - 1] == x);
                }
            }
            if before.contains(x) {
                let m = choose|m: int| 0 <= m < before.len() && before[m] == x;
                if m < i {
                    assert(after[m] == x);
                } else {
                    assert(after[m + 1] == x);
                }
            }
            if x == kd {
                assert(after[i as int] == x);
            }
        }
    }
}

/// What a filtered sequence holds, the sequence held, and it meets the test.
proof fn lemma_filter_holds(s: Seq<ExportDescriptor>, keep: spec_fn(ExportDescriptor) -> bool)
    ensures
        forall|x: ExportDescriptor| s.filter(keep).contains(x) ==> s.contains(x) && keep(x),
    decreases s.len(),
{
    reveal(Seq::filter);
    if s.len() > 0 {
        lemma_filter_holds(s.drop_last(), keep);
        let sub = s.drop_last().filter(keep);
        assert forall|x: ExportDescriptor| s.filter(keep).contains(x) implies s.contains(x)
            && keep(x) by {
            let m = choose|m: int| 0 <= m < s.filter(keep).len() && s.filter(keep)[m] == x;
            if m < sub.len() {
                assert(sub[m] == x);
                assert(sub.contains(x));
                assert(s.drop_last().contains(x));
                let n = choose|n: int| 0 <= n < s.drop_last().len() && s.drop_last()[n] == x;
                assert(s[n] == x);
            } else {
                assert(x == s.last());
                assert(s[s.len() - 1] == x);
            }
        }
    }
}

/// The exports of a project, each once, in the order of their indices.
pub struct ExportSet {
    items: Vec<ExportName>,
}

impl View for ExportSet {
    type V = Seq<ExportDescriptor>;

    closed spec fn view(&self) -> Seq<ExportDescriptor> {
        self.items@.map_values(|e: ExportName| e@)
    }
}

/// The exports that extraction takes from the raw names `names`: the
/// descriptor of each name, but for the reserved ones.
pub open spec fn is_extracted_from(x: ExportDescriptor, names: Seq<Seq<char>>) -> bool {
    exists|i: int|
        0 <= i < names.len() && x == extracted(#[trigger] names[i]) && !is_reserved(
            x.sanitized_name,
        )
}

/// `prior`, followed by the exports of `fresh` that `prior` does not hold, in
/// the order of `fresh`.
pub open spec fn merged(prior: Seq<ExportDescriptor>, fresh: Seq<ExportDescriptor>) -> Seq<
    ExportDescriptor,
> {
    prior + fresh.filter(|x: ExportDescriptor| !prior.contains(x))
}

/// The texts of `names`.
pub open spec fn texts(names: Seq<String>) -> Seq<Seq<char>> {
    names.map_values(|s: String| s@)
}

/// Extraction is determined by the names: two canonical sets taken from
/// the same names, in whatever order the names come, are the same set.
pub proof fn lemma_extraction_unique(
    s: Seq<ExportDescriptor>,
    t: Seq<ExportDescriptor>,
    first: Seq<Seq<char>>,
    second: Seq<Seq<char>>,
)
    requires
        ascending(s),
        ascending(t),
        forall|x: ExportDescriptor| s.contains(x) <==> is_extracted_from(x, first),
        forall|x: ExportDescriptor| t.contains(x) <==> is_extracted_from(x, second),
        forall|n: Seq<char>| first.contains(n) <==> second.contains(n),
    ensures
        s == t,
{
    assert forall|x: ExportDescriptor| s.contains(x) <==> t.contains(x) by {
        if is_extracted_from(x, first) {
            let i = choose|i: int|
                0 <= i < first.len() && x == extracted(#[trigger] first[i]) && !is_reserved(
                    x.sanitized_name,
                );
            assert(first.contains(first[i]));
            let j = choose|j: int| 0 <= j < second.len() && second[j] == first[i];
            assert(x == extracted(second[j]));
        }
        if is_extracted_from(x, second) {
            let i = choose|i: int|
                0 <= i < second.len() && x == extracted(#[trigger] second[i]) && !is_reserved(
                    x.sanitized_name,
                );
            assert(second.contains(second[i]));
            let j = choose|j: int| 0 <= j < first.len() && first[j] == second[i];
            assert(x == extracted(first[j]));
        }
    }
    lemma_ascending_unique(s, t);
}

impl ExportSet {
    /// Whether the set holds no export twice.
    pub open spec fn wf(&self) -> bool {
        self@.no_duplicates()
    }

    /// The set without exports.
    pub fn new() -> (s: Self)
        ensures
            s@ == Seq::<ExportDescriptor>::empty(),
            s.wf(),
    {
        let s = ExportSet { items: Vec::new() };
        assert(s@ =~= Seq::<ExportDescriptor>::empty());
        s
    }

    /// The number of exports, which is the number of slots in the table of
    /// original functions.
    pub fn len(&self) -> (n: usize)
        ensures
            n == self@.len(),
    {
        self.items.len()
    }

    /// The export with index `i`.
    pub fn get(&self, i: usize) -> (e: &ExportName)
        requires
            i < self@.len(),
        ensures
            e@ == self@[i as int],
    {
        &self.items[i]
    }

    /// The index of `e`, where the set holds it.
    pub fn index_of(&self, e: &ExportName) -> (r: Option<usize>)
        ensures
            match r {
                Some(i) => i < self@.len() && self@[i as int] == e@,
                None => !self@.contains(e@),
            },
    {
        let mut i: usize = 0;
        while i < self.items.len()
            invariant
                i <= self.items.len(),
                forall|j: int| 0 <= j < i ==> self@[j] != e@,
            decreases self.items.len() - i,
        {
            if self.items[i].same(e) {
                return Some(i);
            }
            i += 1;
        }
        None
    }

    /// The slot of the export whose sanitized name is `name`: the least
    /// index of such an export, where there is one.
    pub fn slot_of(&self, name: &str) -> (r: Option<usize>)
        ensures
            match r {
                Some(i) => i < self@.len() && self@[i as int].sanitized_name == name@ && forall|
                    j: int,
                | 0 <= j < i ==> (#[trigger] self@[j]).sanitized_name != name@,
                None => forall|j: int|
                    0 <= j < self@.len() ==> (#[trigger] self@[j]).sanitized_name != name@,
            },
    {
        let wanted = chars_of(name);
        let mut i: usize = 0;
        while i < self.items.len()
            invariant
                i <= self.items.len(),
                wanted@ == name@,
                forall|j: int| 0 <= j < i ==> (#[trigger] self@[j]).sanitized_name != name@,
            decreases self.items.len() - i,
        {
            if same_text(&chars_of(self.items[i].cleaned.as_str()), &wanted) {
                return Some(i);
            }
            i += 1;
        }
        None
    }

    /// The original names of the exports, in the order of their indices.
    pub fn originals(&self) -> (names: Vec<String>)
        ensures
            names@.len() == self@.len(),
            forall|i: int|
                0 <= i < names@.len() ==> (#[trigger] names@[i])@ == self@[i].original_name,
    {
        let mut names: Vec<String> = Vec::new();
        let mut i: usize = 0;
        while i < self.items.len()
            invariant
                i <= self.items.len(),
                names@.len() == i,
                forall|j: int|
                    0 <= j < i ==> (#[trigger] names@[j])@ == self@[j].original_name,
            decreases self.items.len() - i,
        {
            names.push(self.items[i].original.clone());
            i += 1;
        }
        names
    }

    /// Whether the set holds `e`.
    pub fn contains(&self, e: &ExportName) -> (r: bool)
        ensures
            r == self@.contains(e@),
    {
        self.index_of(e).is_some()
    }

    /// Gives `e` the next free index, unless the set holds it already.
    /// Returns whether it was added. No other export changes its index.
    pub fn add(&mut self, e: ExportName) -> (added: bool)
        requires
            old(self).wf(),
        ensures
            final(self).wf(),
            added == !old(self)@.contains(e@),
            final(self)@ == if added {
                old(self)@.push(e@)
            } else {
                old(self)@
            },
    {
        if self.contains(&e) {
            return false;
        }
        let ghost d = e@;
        self.items.push(e);
        assert(self@ =~= old(self)@.push(d));
        true
    }

    /// The exports that extraction takes from the raw names of an export
    /// table, in canonical order.
    pub fn from_raw_names(names: &Vec<String>) -> (s: Self)
        ensures
            s.wf(),
            ascending(s@),
            forall|x: ExportDescriptor| s@.contains(x) <==> is_extracted_from(x, texts(names@)),
            forall|i: int| 0 <= i < s@.len() ==> !is_reserved(#[trigger] s@[i].sanitized_name),
    {
        let mut keys: Vec<Key> = Vec::new();
        let mut i: usize = 0;
        assert(descriptors(keys@) =~= Seq::<ExportDescriptor>::empty());
        while i < names.len()
            invariant
                i <= names.len(),
                ascending(descriptors(keys@)),
                forall|x: ExportDescriptor|
                    descriptors(keys@).contains(x) <==> is_extracted_from(
                        x,
                        texts(names@).take(i as int),
                    ),
            decreases names.len() - i,
        {
            let raw = chars_of(names[i].as_str());
            let original = trim(&undecorate(&trim(&raw)));
            let cleaned = clean_chars(&original);
            let ghost seen = texts(names@).take(i as int);
            let ghost next = texts(names@).take(i + 1);
            let ghost was = descriptors(keys@);
            let ghost d = extracted(names@[i as int]@);
            assert(next =~= seen.push(names@[i as int]@));
            if !is_reserved_name(&cleaned) {
                place(&mut keys, Key { cleaned, original });
                assert forall|x: ExportDescriptor|
                    descriptors(keys@).contains(x) <==> is_extracted_from(x, next) by {
                    if is_extracted_from(x, seen) {
                        let j = choose|j: int|
                            0 <= j < seen.len() && x == extracted(#[trigger] seen[j])
                                && !is_reserved(x.sanitized_name);
                        assert(next[j] == seen[j]);
                    }
                    if x == d {
                        assert(next[i as int] == names@[i as int]@);
                    }
                    if is_extracted_from(x, next) {
                        let j = choose|j: int|
                            0 <= j < next.len() && x == extracted(#[trigger] next[j])
                                && !is_reserved(x.sanitized_name);
                        if j < i {
                            assert(seen[j] == next[j]);
                        }
                    }
                }
            } else {
                assert forall|x: ExportDescriptor|
                    descriptors(keys@).contains(x) <==> is_extracted_from(x, next) by {
                    if is_extracted_from(x, seen) {
                        let j = choose|j: int|
                            0 <= j < seen.len() && x == extracted(#[trigger] seen[j])
                                && !is_reserved(x.sanitized_name);
                        assert(next[j] == seen[j]);
                    }
                    if is_extracted_from(x, next) {
                        let j = choose|j: int|
                            0 <= j < next.len() && x == extracted(#[trigger] next[j])
                                && !is_reserved(x.sanitized_name);
                        if j < i {
                            assert(seen[j] == next[j]);
                        }
                    }
                }
            }
            i += 1;
        }
        assert(texts(names@).take(names.len() as int) =~= texts(names@));
        let mut items: Vec<ExportName> = Vec::new();
        let mut j: usize = 0;
        while j < keys.len()
            invariant
                j <= keys.len(),
                items@.len() == j,
                forall|m: int| 0 <= m < j ==> (#[trigger] items@[m])@ == keys@[m]@,
            decreases keys.len() - j,
        {
            items.push(
                ExportName {
                    original: string_of(&keys[j].original),
                    cleaned: string_of(&keys[j].cleaned),
                },
            );
            j += 1;
        }
        let s = ExportSet { items };
        proof {
            assert(s@ =~= descriptors(keys@));
            lemma_ascending_distinct(s@);
            assert forall|m: int| 0 <= m < s@.len() implies !is_reserved(
                #[trigger] s@[m].sanitized_name,
            ) by {
                assert(s@.contains(s@[m]));
            }
        }
        s
    }

    /// This set with the exports of `fresh` merged in. Every export of this
    /// set keeps its index; the exports that only `fresh` holds follow, in
    /// the order of `fresh`.
    pub fn merge(&self, fresh: &ExportSet) -> (r: ExportSet)
        requires
            self.wf(),
            fresh.wf(),
        ensures
            r.wf(),
            r@ == merged(self@, fresh@),
            r@.len() >= self@.len(),
            forall|i: int| 0 <= i < self@.len() ==> r@[i] == self@[i],
    {
        let mut r = ExportSet { items: Vec::new() };
        let mut k: usize = 0;
        assert(r@ =~= self@.take(0));
        while k < self.items.len()
            invariant
                k <= self.items.len(),
                r@ == self@.take(k as int),
            decreases self.items.len() - k,
        {
            let e = self.items[k].duplicate();
            let ghost d = e@;
            let ghost prev = r@;
            r.items.push(e);
            assert(r@ =~= prev.push(d));
            assert(self@.take(k + 1) =~= self@.take(k as int).push(self@[k as int]));
            k += 1;
        }
        assert(self@.take(self.items.len() as int) =~= self@);
        let ghost absent = |x: ExportDescriptor| !self@.contains(x);
        let mut i: usize = 0;
        proof {
            reveal(Seq::filter);
            assert(fresh@.take(0).filter(absent) =~= Seq::<ExportDescriptor>::empty());
            assert(r@ =~= self@ + fresh@.take(0).filter(absent));
        }
        while i < fresh.items.len()
            invariant
                i <= fresh.items.len(),
                self.wf(),
                fresh.wf(),
                r.wf(),
                absent == |x: ExportDescriptor| !self@.contains(x),
                r@ == self@ + fresh@.take(i as int).filter(absent),
            decreases fresh.items.len() - i,
        {
            let e = fresh.items[i].duplicate();
            let ghost d = e@;
            let ghost so_far = fresh@.take(i as int).filter(absent);
            proof {
                reveal(Seq::filter);
                assert(fresh@.take(i + 1).drop_last() =~= fresh@.take(i as int));
                assert(fresh@.take(i + 1).last() == d);
                lemma_filter_holds(fresh@.take(i as int), absent);
                if so_far.contains(d) {
                    assert(fresh@.take(i as int).contains(d));
                    let n = choose|n: int|
                        0 <= n < fresh@.take(i as int).len() && fresh@.take(i as int)[n] == d;
                    assert(fresh@[n] == fresh@[i as int]);
                }
                if r@.contains(d) && !self@.contains(d) {
                    let m = choose|m: int| 0 <= m < r@.len() && r@[m] == d;
                    if m < self@.len() {
                        assert(self@[m] == d);
                    } else {
                        assert(so_far[m - self@.len()] == d);
                    }
                }
                if self@.contains(d) {
                    let m = choose|m: int| 0 <= m < self@.len() && self@[m] == d;
                    assert(r@[m] == d);
                }
            }
            let added = r.add(e);
            proof {
                reveal(Seq::filter);
                if added {
                    assert(r@ =~= self@ + fresh@.take(i + 1).filter(absent));
                }
            }
            i += 1;
        }
        assert(fresh@.take(fresh.items.len() as int) =~= fresh@);
        r
    }
}

} // verus!
