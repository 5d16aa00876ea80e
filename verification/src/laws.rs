//! What holds of the tables and of their recovery: a loader table gives back
//! the exports it was written for, and merging never moves an export that
//! has an index.

use vstd::prelude::*;
use crate::export_set::merged;
use crate::exports::{extracted, is_alphanumeric, is_identifier_text, ExportDescriptor};
use crate::recover::{
    all_survive, closes_at, loaded_export, name_opens, parses_load, recovered,
    recovered_exports, single_line, splits_at, survives, HANDLE_MARK, LOAD_MARK,
};
use crate::tables::{loader_block, loader_line, LOAD_HANDLE, LOAD_HEAD, LOAD_TAIL};
use crate::text::{is_space, lemma_line_end, line_end, lines, occurs_at, skip_spaces, trimmed};

verus! {

/// Whether `s` is empty or ends with a line feed: whether text that follows
/// `s` begins a line.
pub open spec fn ends_line(s: Seq<char>) -> bool {
    s.len() == 0 || s.last() == '\n'
}

/// Whether no line of `text` holds a loading call.
pub open spec fn silent(text: Seq<char>) -> bool {
    forall|i: int| 0 <= i < lines(text).len() ==> loaded_export(#[trigger] lines(text)[i]) is None
}

/// The first line feed of a text is found where it stands.
pub proof fn lemma_line_end_is(s: Seq<char>, e: int)
    requires
        0 <= e < s.len(),
        s[e] == '\n',
        forall|i: int| 0 <= i < e ==> #[trigger] s[i] != '\n',
    ensures
        line_end(s, 0) == e,
{
    lemma_line_end(s, 0);
    let r = line_end(s, 0);
    if r < e {
        assert(s[r] == '\n');
    } else if r > e {
        assert(s[e] != '\n');
    }
}

/// The lines of two texts put together are the lines of the first and then
/// those of the second, where the first ends a line.
pub proof fn lemma_lines_concat(a: Seq<char>, b: Seq<char>)
    requires
        ends_line(a),
    ensures
        lines(a + b) == lines(a) + lines(b),
    decreases a.len(),
{
    if a.len() == 0 {
        assert(a + b =~= b);
        assert(lines(a) + lines(b) =~= lines(b));
    } else {
        lemma_line_end(a, 0);
        let e = line_end(a, 0);
        if e >= a.len() {
            assert(a[a.len() - 1] != '\n');
        }
        assert((a + b)[e] == a[e]);
        assert forall|i: int| 0 <= i < e implies #[trigger] (a + b)[i] != '\n' by {
            assert((a + b)[i] == a[i]);
        }
        lemma_line_end_is(a + b, e);
        let rest = a.skip(e + 1);
        assert((a + b).take(e) =~= a.take(e));
        assert((a + b).skip(e + 1) =~= rest + b);
        if rest.len() > 0 {
            assert(rest.last() == a.last());
        }
        lemma_lines_concat(rest, b);
        assert(lines(a + b) =~= seq![a.take(e)] + (lines(rest) + lines(b)));
        assert(lines(a) =~= seq![a.take(e)] + lines(rest));
        assert(lines(a + b) =~= lines(a) + lines(b));
    }
}

/// A text without line feed, followed by one, is one line.
pub proof fn lemma_lines_of_line(l: Seq<char>)
    requires
        single_line(l),
    ensures
        lines(l + "\n"@) == seq![l],
{
    reveal_strlit("\n");
    let s = l + "\n"@;
    assert(s.len() == l.len() + 1);
    assert(s[l.len() as int] == '\n');
    assert forall|i: int| 0 <= i < l.len() implies #[trigger] s[i] != '\n' by {
        assert(s[i] == l[i]);
    }
    lemma_line_end_is(s, l.len() as int);
    assert(s.take(l.len() as int) =~= l);
    let n: int = l.len() as int + 1;
    assert(s.skip(n) =~= Seq::<char>::empty());
    assert(lines(s.skip(n)) =~= Seq::<Seq<char>>::empty());
    assert(lines(s) =~= seq![l]);
}

/// A loader table ends a line.
pub proof fn lemma_loader_block_ends_line(s: Seq<ExportDescriptor>)
    ensures
        ends_line(loader_block(s)),
{
    reveal_strlit("\n");
    if s.len() > 0 {
        let t = loader_block(s.drop_last()) + loader_line(s.last());
        assert(loader_block(s) == t + "\n"@);
        assert((t + "\n"@).last() == '\n');
    }
}

/// The lines of a loader table are the lines of its exports.
pub proof fn lemma_loader_block_lines(s: Seq<ExportDescriptor>)
    requires
        forall|i: int| 0 <= i < s.len() ==> single_line(loader_line(#[trigger] s[i])),
    ensures
        lines(loader_block(s)) == s.map_values(|e: ExportDescriptor| loader_line(e)),
    decreases s.len(),
{
    let f = |e: ExportDescriptor| loader_line(e);
    if s.len() == 0 {
        assert(lines(loader_block(s)) =~= s.map_values(f));
    } else {
        let head = s.drop_last();
        assert forall|i: int| 0 <= i < head.len() implies single_line(
            loader_line(#[trigger] head[i]),
        ) by {
            assert(head[i] == s[i]);
        }
        lemma_loader_block_lines(head);
        lemma_loader_block_ends_line(head);
        let l = loader_line(s.last());
        assert(single_line(loader_line(s[s.len() - 1])));
        lemma_lines_of_line(l);
        lemma_lines_concat(loader_block(head), l + "\n"@);
        assert(loader_block(s) =~= loader_block(head) + (l + "\n"@));
        assert(head.map_values(f) + seq![l] =~= s.map_values(f));
    }
}

/// Lines without loading call add nothing to what is recovered.
pub proof fn lemma_recovered_silent_after(x: Seq<Seq<char>>, y: Seq<Seq<char>>)
    requires
        forall|i: int| 0 <= i < y.len() ==> loaded_export(#[trigger] y[i]) is None,
    ensures
        recovered(x + y) == recovered(x),
    decreases y.len(),
{
    if y.len() == 0 {
        assert(x + y =~= x);
    } else {
        assert((x + y).drop_last() =~= x + y.drop_last());
        assert((x + y).last() == y[y.len() - 1]);
        lemma_recovered_silent_after(x, y.drop_last());
    }
}

/// Lines without loading call before the others add nothing either.
pub proof fn lemma_recovered_silent_before(x: Seq<Seq<char>>, y: Seq<Seq<char>>)
    requires
        forall|i: int| 0 <= i < x.len() ==> loaded_export(#[trigger] x[i]) is None,
    ensures
        recovered(x + y) == recovered(y),
    decreases y.len(),
{
    if y.len() == 0 {
        lemma_recovered_silent_after(Seq::<Seq<char>>::empty(), x);
        assert(Seq::<Seq<char>>::empty() + x =~= x);
        assert(x + y =~= x);
    } else {
        assert((x + y).drop_last() =~= x + y.drop_last());
        assert((x + y).last() == y.last());
        lemma_recovered_silent_before(x, y.drop_last());
    }
}

/// Round trip: the exports recovered from a loader table are the exports
/// that the table was written for, in the same order, when no export occurs
/// twice and each survives alone.
pub proof fn lemma_loader_round_trip(s: Seq<ExportDescriptor>)
    requires
        s.no_duplicates(),
        all_survive(s),
    ensures
        recovered_exports(loader_block(s)) == s,
    decreases s.len(),
{
    let f = |e: ExportDescriptor| loader_line(e);
    assert forall|i: int| 0 <= i < s.len() implies single_line(loader_line(#[trigger] s[i])) by {
        assert(survives(s[i]));
    }
    lemma_loader_block_lines(s);
    if s.len() == 0 {
        assert(recovered(s.map_values(f)) =~= s);
    } else {
        let head = s.drop_last();
        assert(all_survive(head)) by {
            assert forall|i: int| 0 <= i < head.len() implies survives(#[trigger] head[i]) by {
                assert(head[i] == s[i]);
            }
        }
        lemma_loader_round_trip(head);
        assert forall|i: int| 0 <= i < head.len() implies single_line(
            loader_line(#[trigger] head[i]),
        ) by {
            assert(survives(head[i]));
        }
        lemma_loader_block_lines(head);
        let ls = s.map_values(f);
        assert(ls.drop_last() =~= head.map_values(f));
        assert(ls.last() == loader_line(s.last()));
        assert(survives(s[s.len() - 1]));
        assert(!head.contains(s.last())) by {
            if head.contains(s.last()) {
                let m = choose|m: int| 0 <= m < head.len() && head[m] == s.last();
                assert(s[m] == s[s.len() - 1]);
            }
        }
        assert(recovered(ls) == head.push(s.last()));
        assert(head.push(s.last()) =~= s);
    }
}

/// Round trip through a whole file: around the loader table may stand any
/// text that ends a line before the table and holds no loading call.
pub proof fn lemma_framed_round_trip(head: Seq<char>, s: Seq<ExportDescriptor>, tail: Seq<char>)
    requires
        s.no_duplicates(),
        all_survive(s),
        ends_line(head),
        silent(head),
        silent(tail),
    ensures
        recovered_exports(head + loader_block(s) + tail) == s,
{
    let block = loader_block(s);
    lemma_loader_block_ends_line(s);
    lemma_loader_round_trip(s);
    lemma_lines_concat(head, block);
    if block.len() > 0 {
        assert((head + block).last() == block.last());
    } else {
        assert(head + block =~= head);
    }
    lemma_lines_concat(head + block, tail);
    lemma_recovered_silent_after(lines(head) + lines(block), lines(tail));
    lemma_recovered_silent_before(lines(head), lines(block));
}

/// What is recovered holds no export twice.
pub proof fn lemma_recovered_distinct(ls: Seq<Seq<char>>)
    ensures
        recovered(ls).no_duplicates(),
    decreases ls.len(),
{
    if ls.len() > 0 {
        lemma_recovered_distinct(ls.drop_last());
        let prior = recovered(ls.drop_last());
        match loaded_export(ls.last()) {
            Some(d) => {
                if !prior.contains(d) {
                    let all = prior.push(d);
                    assert forall|i: int, j: int|
                        0 <= i < all.len() && 0 <= j < all.len() && i != j implies all[i]
                        != all[j] by {
                        if i < prior.len() && j < prior.len() {
                        } else if i < prior.len() {
                            assert(prior.contains(prior[i]));
                        } else {
                            assert(prior.contains(prior[j]));
                        }
                    }
                }
            },
            None => {},
        }
    }
}

/// No line holds a line feed.
pub proof fn lemma_lines_single(s: Seq<char>, i: int)
    requires
        0 <= i < lines(s).len(),
    ensures
        single_line(lines(s)[i]),
    decreases s.len(),
{
    lemma_line_end(s, 0);
    let e = line_end(s, 0);
    if e >= s.len() {
        assert(lines(s) == seq![s]);
    } else {
        if i == 0 {
            assert(lines(s)[0] == s.take(e));
        } else {
            assert(lines(s)[i] == lines(s.skip(e + 1))[i - 1]);
            lemma_lines_single(s.skip(e + 1), i - 1);
        }
    }
}

/// Index stability: merging leaves every export of the prior set at its index.
pub proof fn lemma_merge_keeps_indices(
    prior: Seq<ExportDescriptor>,
    fresh: Seq<ExportDescriptor>,
    i: int,
)
    requires
        0 <= i < prior.len(),
    ensures
        i < merged(prior, fresh).len(),
        merged(prior, fresh)[i] == prior[i],
{
}

/// A filter that nothing passes leaves nothing.
proof fn lemma_filter_none(s: Seq<ExportDescriptor>, keep: spec_fn(ExportDescriptor) -> bool)
    requires
        forall|i: int| 0 <= i < s.len() ==> !keep(#[trigger] s[i]),
    ensures
        s.filter(keep) == Seq::<ExportDescriptor>::empty(),
    decreases s.len(),
{
    reveal(Seq::filter);
    if s.len() > 0 {
        assert forall|i: int| 0 <= i < s.drop_last().len() implies !keep(
            #[trigger] s.drop_last()[i],
        ) by {
            assert(s.drop_last()[i] == s[i]);
        }
        lemma_filter_none(s.drop_last(), keep);
        assert(!keep(s[s.len() - 1]));
    }
}

/// Merging the same exports a second time changes nothing.
pub proof fn lemma_merge_absorbs(prior: Seq<ExportDescriptor>, fresh: Seq<ExportDescriptor>)
    ensures
        merged(merged(prior, fresh), fresh) == merged(prior, fresh),
{
    broadcast use vstd::seq_lib::group_filter_ensures;

    let once = merged(prior, fresh);
    let absent = |x: ExportDescriptor| !prior.contains(x);
    let again = |x: ExportDescriptor| !once.contains(x);
    assert forall|i: int| 0 <= i < fresh.len() implies !again(#[trigger] fresh[i]) by {
        let x = fresh[i];
        if prior.contains(x) {
            let m = choose|m: int| 0 <= m < prior.len() && prior[m] == x;
            assert(once[m] == x);
        } else {
            assert(absent(fresh[i]));
            assert(fresh.filter(absent).contains(fresh[i]));
            let m = choose|m: int|
                0 <= m < fresh.filter(absent).len() && fresh.filter(absent)[m] == x;
            assert(once[prior.len() + m] == x);
        }
    }
    lemma_filter_none(fresh, again);
    assert(once + Seq::<ExportDescriptor>::empty() =~= once);
}

/// Merging keeps a set free of repetitions.
pub proof fn lemma_merge_distinct(prior: Seq<ExportDescriptor>, fresh: Seq<ExportDescriptor>)
    requires
        prior.no_duplicates(),
        fresh.no_duplicates(),
    ensures
        merged(prior, fresh).no_duplicates(),
{
    let absent = |x: ExportDescriptor| !prior.contains(x);
    let added = fresh.filter(absent);
    lemma_filter_distinct(fresh, absent);
    lemma_filter_meets(fresh, absent);
    let all = prior + added;
    assert forall|i: int, j: int| 0 <= i < all.len() && 0 <= j < all.len() && i != j implies all[i]
        != all[j] by {
        if i < prior.len() && j >= prior.len() {
            assert(absent(added[j - prior.len()]));
        } else if j < prior.len() && i >= prior.len() {
            assert(absent(added[i - prior.len()]));
        }
    }
}

/// What passes a filter meets its test and stood in the sequence.
proof fn lemma_filter_meets(s: Seq<ExportDescriptor>, keep: spec_fn(ExportDescriptor) -> bool)
    ensures
        forall|i: int|
            0 <= i < s.filter(keep).len() ==> keep(#[trigger] s.filter(keep)[i]) && s.contains(
                s.filter(keep)[i],
            ),
    decreases s.len(),
{
    reveal(Seq::filter);
    if s.len() > 0 {
        lemma_filter_meets(s.drop_last(), keep);
        let sub = s.drop_last().filter(keep);
        assert forall|i: int| 0 <= i < s.filter(keep).len() implies keep(
            #[trigger] s.filter(keep)[i],
        ) && s.contains(s.filter(keep)[i]) by {
            if i < sub.len() {
                assert(s.filter(keep)[i] == sub[i]);
                assert(s.drop_last().contains(sub[i]));
                let n = choose|n: int|
                    0 <= n < s.drop_last().len() && s.drop_last()[n] == sub[i];
                assert(s[n] == sub[i]);
            } else {
                assert(s.filter(keep)[i] == s[s.len() - 1]);
            }
        }
    }
}

/// Filtering keeps a sequence free of repetitions.
proof fn lemma_filter_distinct(s: Seq<ExportDescriptor>, keep: spec_fn(ExportDescriptor) -> bool)
    requires
        s.no_duplicates(),
    ensures
        s.filter(keep).no_duplicates(),
    decreases s.len(),
{
    reveal(Seq::filter);
    if s.len() > 0 {
        let head = s.drop_last();
        assert(head.no_duplicates()) by {
            assert forall|i: int, j: int|
                0 <= i < head.len() && 0 <= j < head.len() && i != j implies head[i]
                != head[j] by {
                assert(head[i] == s[i] && head[j] == s[j]);
            }
        }
        lemma_filter_distinct(head, keep);
        lemma_filter_meets(head, keep);
        let sub = head.filter(keep);
        if keep(s.last()) {
            assert forall|i: int| 0 <= i < sub.len() implies sub[i] != s.last() by {
                assert(head.contains(sub[i]));
                let n = choose|n: int| 0 <= n < head.len() && head[n] == sub[i];
                assert(s[n] == sub[i]);
                assert(s[s.len() - 1] == s.last());
            }
        }
    }
}

/// Whether `o` is an original name that no loading call misreads: not
/// empty, and without comma and line feed.
pub open spec fn plain_original(o: Seq<char>) -> bool {
    o.len() > 0 && forall|i: int| 0 <= i < o.len() ==> #[trigger] o[i] != ',' && o[i] != '\n'
}

/// A text that neither begins nor ends with white space is left as it is
/// when the white space around it is set aside.
pub proof fn lemma_trimmed_plain(s: Seq<char>)
    requires
        s.len() > 0,
        !is_space(s[0]),
        !is_space(s[s.len() - 1]),
    ensures
        trimmed(s) == s,
{
    assert(s.subrange(0, s.len() as int) =~= s);
}

/// An export survives a round through the loader table where its sanitized
/// name is an identifier and its original name holds neither comma nor line
/// feed, and neither is empty.
pub proof fn lemma_plain_names_survive(e: ExportDescriptor)
    requires
        e.sanitized_name.len() > 0,
        is_identifier_text(e.sanitized_name),
        plain_original(e.original_name),
    ensures
        survives(e),
{
    reveal_strlit("    load_dll_func(Index_");
    reveal_strlit(", dll_handle, \"");
    reveal_strlit("\");");
    reveal_strlit("load_dll_func(Index_");
    reveal_strlit("dll_handle,");
    reveal_with_fuel(skip_spaces, 3);
    let c = e.sanitized_name;
    let o = e.original_name;
    let line = loader_line(e);
    let p0: int = 24 + c.len() as int;
    let c0: int = p0 + 15;
    let q: int = c0 + o.len() as int;
    assert(line.len() == q + 3);
    assert forall|m: int| 0 <= m < 24 implies #[trigger] line[m] == LOAD_HEAD@[m] by {}
    assert forall|m: int| 24 <= m < p0 implies #[trigger] line[m] == c[m - 24] by {}
    assert forall|m: int| p0 <= m < c0 implies #[trigger] line[m] == LOAD_HANDLE@[m - p0] by {}
    assert forall|m: int| c0 <= m < q implies #[trigger] line[m] == o[m - c0] by {}
    assert forall|m: int| q <= m < q + 3 implies #[trigger] line[m] == LOAD_TAIL@[m - q] by {}
    // The line is one line.
    assert(single_line(line)) by {
        assert forall|m: int| 0 <= m < line.len() implies #[trigger] line[m] != '\n' by {
            if 24 <= m < p0 {
                assert(is_alphanumeric(c[m - 24]) || c[m - 24] == '_');
            } else if c0 <= m < q {
                assert(o[m - c0] != '\n');
            }
        }
    }
    // The call begins after the indentation.
    assert(occurs_at(line, 4, LOAD_MARK@)) by {
        assert(line.subrange(4, 24) =~= LOAD_MARK@);
    }
    assert forall|j: int| occurs_at(line, j, LOAD_MARK@) implies 4 <= j by {
        if 0 <= j < 4 {
            assert(line.subrange(j, j + 20)[0] == line[j]);
        }
    }
    // The call ends at the last quote.
    assert(closes_at(line, q));
    assert forall|m: int| q < m implies !closes_at(line, m) by {}
    // The comma after the sanitized name opens the original name.
    assert(occurs_at(line, p0 + 2, HANDLE_MARK@)) by {
        assert(line.subrange(p0 + 2, p0 + 13) =~= HANDLE_MARK@);
    }
    assert(skip_spaces(line, p0 + 1) == p0 + 2);
    assert(skip_spaces(line, p0 + 13) == p0 + 14);
    assert(name_opens(line, p0) == Some(c0));
    assert(splits_at(line, p0, q));
    // No later comma does.
    assert forall|m: int| p0 < m implies !splits_at(line, m, q) by {
        if m < line.len() && line[m] == ',' {
            if m < c0 {
                assert(m == p0 + 12);
                assert(!occurs_at(line, p0 + 14, HANDLE_MARK@)) by {
                    if occurs_at(line, p0 + 14, HANDLE_MARK@) {
                        assert(line.subrange(p0 + 14, p0 + 25)[0] == line[p0 + 14]);
                    }
                }
            } else if m < q {
                assert(o[m - c0] != ',');
            }
        }
    }
    assert(parses_load(line, 4, p0, q));
    assert forall|i2: int, p2: int, q2: int| parses_load(line, i2, p2, q2) implies i2 == 4 && p2
        == p0 && q2 == q by {
        assert(q2 == q);
        assert(splits_at(line, p2, q));
        assert(splits_at(line, p0, q2));
    }
    let (i1, p1, q1) = choose|i: int, p: int, q: int| parses_load(line, i, p, q);
    assert(i1 == 4 && p1 == p0 && q1 == q);
    assert(line.subrange(24, p0) =~= c);
    assert(line.subrange(c0, q) =~= o);
    assert(!is_space(c[0]) && !is_space(c[c.len() - 1])) by {
        assert(is_alphanumeric(c[0]) || c[0] == '_');
        assert(is_alphanumeric(c[c.len() - 1]) || c[c.len() - 1] == '_');
    }
    lemma_trimmed_plain(c);
}

/// What extraction takes from a raw name survives a round through the
/// loader table where the name, white space and decoration set aside, holds
/// neither comma nor line feed and is not empty.
pub proof fn lemma_extracted_survives(raw: Seq<char>)
    requires
        plain_original(extracted(raw).original_name),
    ensures
        survives(extracted(raw)),
{
    let e = extracted(raw);
    assert(is_identifier_text(e.sanitized_name)) by {
        assert forall|i: int| 0 <= i < e.sanitized_name.len() implies is_alphanumeric(
            #[trigger] e.sanitized_name[i],
        ) || e.sanitized_name[i] == '_' by {}
    }
    lemma_plain_names_survive(e);
}

} // verus!
