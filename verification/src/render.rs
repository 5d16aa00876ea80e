//! Templates: fixed text with named slots, rendered by Tera. A template of
//! this crate is a list of texts with a slot between each two; the texts hold
//! nothing that Tera reads as a tag, so rendering puts each value in the
//! place of its slot and leaves the rest as it is.

use vstd::prelude::*;
use crate::error::ProxyError;
use crate::text::{append, append_str, same_text, string_of, chars_of};

verus! {

/// `tera::Context`: the values that a template is rendered with.
#[verifier::external_type_specification]
#[verifier::external_body]
pub struct ExContext(tera::Context);

/// `tera::Error`: why a template cannot be rendered.
#[verifier::external_type_specification]
#[verifier::external_body]
pub struct ExTeraError(tera::Error);

/// The text entries of a Tera context, by key.
pub uninterp spec fn context_entries(c: tera::Context) -> Map<Seq<char>, Seq<char>>;

/// What Tera makes of the template `source` with the entries `entries`,
/// without escaping, where it renders the template at all.
pub uninterp spec fn tera_rendering(source: Seq<char>, entries: Map<Seq<char>, Seq<char>>) -> Option<Seq<char>>;

/// No entries.
pub open spec fn no_entries() -> Map<Seq<char>, Seq<char>> {
    Map::empty()
}

/// The entries that hold, for each of the first `k` slots, its value under
/// its name.
pub open spec fn entries_upto(slots: Seq<Seq<char>>, values: Seq<Seq<char>>, k: int) -> Map<
    Seq<char>,
    Seq<char>,
>
    decreases k,
{
    if k <= 0 {
        no_entries()
    } else {
        entries_upto(slots, values, k - 1).insert(slots[k - 1], values[k - 1])
    }
}

/// Whether `c` may stand in the name of a slot.
pub open spec fn is_slot_char(c: char) -> bool {
    ('a' <= c && c <= 'z') || c == '_'
}

/// Whether `n` is the name of a slot: lower case ASCII letters and `_`,
/// beginning with a letter other than `t` and `f`, so that it is no word of
/// the template language.
pub open spec fn is_slot_name(n: Seq<char>) -> bool {
    &&& n.len() > 0
    &&& forall|i: int| 0 <= i < n.len() ==> is_slot_char(#[trigger] n[i])
    &&& n[0] != '_'
    &&& n[0] != 't'
    &&& n[0] != 'f'
}

/// The tag that stands for the slot `n` in the source of a template.
pub open spec fn placeholder(n: Seq<char>) -> Seq<char> {
    seq!['{', '{', ' '] + n + seq![' ', '}', '}']
}

/// The end of the run of slot characters that begins at `from`.
pub open spec fn name_run(src: Seq<char>, from: int) -> int
    decreases src.len() - from,
{
    if from < 0 || from >= src.len() || !is_slot_char(src[from]) {
        from
    } else {
        name_run(src, from + 1)
    }
}

/// The name of the slot whose tag stands at the start of `src`, if one does:
/// two opening braces, a blank, the name, a blank, two closing braces.
pub open spec fn tag_name(src: Seq<char>) -> Option<Seq<char>> {
    if src.len() >= 3 && src[0] == '{' && src[1] == '{' && src[2] == ' ' {
        let e = name_run(src, 3);
        if 3 <= e && e + 2 < src.len() && src[e] == ' ' && src[e + 1] == '}' && src[e + 2]
            == '}' {
            Some(src.subrange(3, e))
        } else {
            None
        }
    } else {
        None
    }
}

/// Whether `src` begins with what the template language reads as the start
/// of a tag, or ends in a single brace.
pub open spec fn opens_tag(src: Seq<char>) -> bool {
    src.len() >= 1 && src[0] == '{' && (src.len() == 1 || src[1] == '{' || src[1] == '%'
        || src[1] == '#')
}

/// Whether `src` is a template of plain text and slots: every tag in it
/// stands for a slot that has an entry in `entries`.
pub open spec fn plain_template(src: Seq<char>, entries: Map<Seq<char>, Seq<char>>) -> bool
    decreases src.len(),
{
    if src.len() == 0 {
        true
    } else {
        match tag_name(src) {
            Some(n) => {
                &&& n.len() + 6 <= src.len()
                &&& is_slot_name(n)
                &&& entries.dom().contains(n)
                &&& plain_template(src.skip((n.len() + 6) as int), entries)
            },
            None => !opens_tag(src) && plain_template(src.skip(1), entries),
        }
    }
}

/// `src` with the entry of each slot in the place of its tag.
pub open spec fn expand(src: Seq<char>, entries: Map<Seq<char>, Seq<char>>) -> Seq<char>
    decreases src.len(),
{
    if src.len() == 0 {
        Seq::empty()
    } else {
        match tag_name(src) {
            Some(n) => if n.len() + 6 <= src.len() {
                entries[n] + expand(src.skip((n.len() + 6) as int), entries)
            } else {
                Seq::empty()
            },
            None => seq![src[0]] + expand(src.skip(1), entries),
        }
    }
}

/// `tera::Context::new`: a context without entries.
#[verifier::external_body]
fn new_context() -> (context: tera::Context)
    ensures
        context_entries(context) == no_entries(),
{
    tera::Context::new()
}

/// `tera::Context::insert` with a text: the context holds the text under the
/// key afterwards, in the place of what it held there, and its other entries
/// as before.
#[verifier::external_body]
fn context_insert(c: &mut tera::Context, key: &str, value: &str)
    ensures
        context_entries(*final(c)) == context_entries(*old(c)).insert(key@, value@),
{
    c.insert(key, value)
}

/// `tera::Tera::one_off` without escaping, on a template of plain text and
/// slots. Whether Tera renders it, and what it makes of it, is a matter of
/// the source and the entries alone; where it renders it, the result is the
/// text with each entry in the place of its tag.
#[verifier::external_body]
fn one_off(source: &str, c: &tera::Context) -> (r: Result<String, tera::Error>)
    requires
        plain_template(source@, context_entries(*c)),
    ensures
        r matches Ok(s) ==> s@ == expand(source@, context_entries(*c)),
        r matches Ok(s) ==> tera_rendering(source@, context_entries(*c)) == Some(s@),
        r is Err ==> tera_rendering(source@, context_entries(*c)) is None,
{
    tera::Tera::one_off(source, c, false)
}

/// Whether the template language reads nothing in `t`: each opening brace is
/// followed by a character that does not make it the start of a tag.
pub open spec fn inert(t: Seq<char>) -> bool {
    forall|i: int|
        0 <= i < t.len() && #[trigger] t[i] == '{' ==> i + 1 < t.len() && t[i + 1] != '{' && t[i
            + 1] != '%' && t[i + 1] != '#'
}

/// The source of the template from its slot `k` on: the text before the
/// slot, its tag, and so on to the last text.
pub open spec fn source_from(texts: Seq<Seq<char>>, slots: Seq<Seq<char>>, k: int) -> Seq<char>
    decreases slots.len() - k,
{
    if k < 0 || k >= slots.len() {
        texts[k]
    } else {
        texts[k] + placeholder(slots[k]) + source_from(texts, slots, k + 1)
    }
}

/// The template from its slot `k` on, with the values in the slots.
pub open spec fn filled_from(texts: Seq<Seq<char>>, values: Seq<Seq<char>>, k: int) -> Seq<char>
    decreases values.len() - k,
{
    if k < 0 || k >= values.len() {
        texts[k]
    } else {
        texts[k] + values[k] + filled_from(texts, values, k + 1)
    }
}

/// The template with the values in its slots.
pub open spec fn filled(texts: Seq<Seq<char>>, values: Seq<Seq<char>>) -> Seq<char> {
    filled_from(texts, values, 0)
}

/// What Tera makes of the template with the values in its slots, where it
/// renders it.
pub open spec fn rendering(
    texts: Seq<Seq<char>>,
    slots: Seq<Seq<char>>,
    values: Seq<Seq<char>>,
) -> Option<Seq<char>> {
    tera_rendering(source_from(texts, slots, 0), entries_upto(slots, values, slots.len() as int))
}

/// The texts of character vectors.
pub open spec fn views(v: Seq<Vec<char>>) -> Seq<Seq<char>> {
    v.map_values(|t: Vec<char>| t@)
}

/// Whether texts and slots make a template: one text more than slots, the
/// texts inert, the slots named properly and differently.
pub open spec fn is_template(texts: Seq<Seq<char>>, slots: Seq<Seq<char>>) -> bool {
    &&& texts.len() == slots.len() + 1
    &&& forall|i: int| 0 <= i < texts.len() ==> inert(#[trigger] texts[i])
    &&& forall|i: int| 0 <= i < slots.len() ==> is_slot_name(#[trigger] slots[i])
    &&& forall|i: int, j: int| 0 <= i < j < slots.len() ==> slots[i] != slots[j]
}

proof fn lemma_name_run(src: Seq<char>, from: int, e: int)
    requires
        0 <= from <= e <= src.len(),
        forall|i: int| from <= i < e ==> is_slot_char(#[trigger] src[i]),
        e == src.len() || !is_slot_char(src[e]),
    ensures
        name_run(src, from) == e,
    decreases e - from,
{
    if from < e {
        lemma_name_run(src, from + 1, e);
    }
}

proof fn lemma_tag_of_placeholder(n: Seq<char>, rest: Seq<char>)
    requires
        is_slot_name(n),
    ensures
        tag_name(placeholder(n) + rest) == Some(n),
        (placeholder(n) + rest).skip((n.len() + 6) as int) == rest,
        (placeholder(n) + rest).len() >= n.len() + 6,
{
    let src = placeholder(n) + rest;
    let e: int = 3 + n.len() as int;
    assert(placeholder(n).len() == n.len() + 6);
    assert forall|i: int| 3 <= i < e implies is_slot_char(#[trigger] src[i]) by {
        assert(src[i] == n[i - 3]);
    }
    assert(src[e] == ' ');
    lemma_name_run(src, 3, e);
    assert(src.subrange(3, e) =~= n);
    assert(src.skip((n.len() + 6) as int) =~= rest);
}

proof fn lemma_expand_text(t: Seq<char>, rest: Seq<char>, entries: Map<Seq<char>, Seq<char>>)
    requires
        inert(t),
    ensures
        expand(t + rest, entries) == t + expand(rest, entries),
        plain_template(rest, entries) ==> plain_template(t + rest, entries),
    decreases t.len(),
{
    if t.len() == 0 {
        assert(t + rest =~= rest);
        assert(t + expand(rest, entries) =~= expand(rest, entries));
    } else {
        let src = t + rest;
        assert(src[0] == t[0]);
        if t[0] == '{' {
            assert(src[1] == t[1]);
        }
        assert(tag_name(src) is None);
        assert(!opens_tag(src));
        let t1 = t.skip(1);
        assert(src.skip(1) =~= t1 + rest);
        assert(inert(t1)) by {
            assert forall|i: int| 0 <= i < t1.len() && #[trigger] t1[i] == '{' implies i + 1
                < t1.len() && t1[i + 1] != '{' && t1[i + 1] != '%' && t1[i + 1] != '#' by {
                assert(t[i + 1] == '{');
                assert(t1[i + 1] == t[i + 2]);
            }
        }
        lemma_expand_text(t1, rest, entries);
        assert(seq![t[0]] + (t1 + expand(rest, entries)) =~= t + expand(rest, entries));
    }
}

/// Rendering a template of this crate fills its slots: what the template
/// language makes of the source is the texts with the values between them.
pub proof fn lemma_expand_template(
    texts: Seq<Seq<char>>,
    slots: Seq<Seq<char>>,
    values: Seq<Seq<char>>,
    entries: Map<Seq<char>, Seq<char>>,
    k: int,
)
    requires
        is_template(texts, slots),
        values.len() == slots.len(),
        0 <= k <= slots.len(),
        forall|i: int|
            0 <= i < slots.len() ==> entries.dom().contains(#[trigger] slots[i]) && entries[slots[i]]
                == values[i],
    ensures
        plain_template(source_from(texts, slots, k), entries),
        expand(source_from(texts, slots, k), entries) == filled_from(texts, values, k),
    decreases slots.len() - k,
{
    let empty = Seq::<char>::empty();
    if k == slots.len() {
        lemma_expand_text(texts[k], empty, entries);
        assert(texts[k] + empty =~= texts[k]);
    } else {
        let rest = source_from(texts, slots, k + 1);
        let n = slots[k];
        lemma_expand_template(texts, slots, values, entries, k + 1);
        lemma_tag_of_placeholder(n, rest);
        let tagged = placeholder(n) + rest;
        assert(plain_template(tagged, entries));
        assert(expand(tagged, entries) == values[k] + filled_from(texts, values, k + 1));
        lemma_expand_text(texts[k], tagged, entries);
        assert(source_from(texts, slots, k) =~= texts[k] + tagged);
        assert(filled_from(texts, values, k) =~= texts[k] + (values[k] + filled_from(
            texts,
            values,
            k + 1,
        )));
    }
}

/// Whether the template language reads nothing in `t`.
pub fn is_inert(t: &Vec<char>) -> (r: bool)
    ensures
        r == inert(t@),
{
    let mut i: usize = 0;
    while i < t.len()
        invariant
            i <= t.len(),
            forall|j: int|
                0 <= j < i && #[trigger] t@[j] == '{' ==> j + 1 < t.len() && t@[j + 1] != '{'
                    && t@[j + 1] != '%' && t@[j + 1] != '#',
        decreases t.len() - i,
    {
        if t[i] == '{' {
            if i + 1 >= t.len() {
                return false;
            }
            let next = t[i + 1];
            if next == '{' || next == '%' || next == '#' {
                return false;
            }
        }
        i += 1;
    }
    true
}

/// Whether `n` is the name of a slot.
pub fn is_slot(n: &Vec<char>) -> (r: bool)
    ensures
        r == is_slot_name(n@),
{
    if n.len() == 0 || n[0] == '_' || n[0] == 't' || n[0] == 'f' {
        return false;
    }
    let mut i: usize = 0;
    while i < n.len()
        invariant
            i <= n.len(),
            forall|j: int| 0 <= j < i ==> is_slot_char(#[trigger] n@[j]),
        decreases n.len() - i,
    {
        let c = n[i];
        if !(('a' <= c && c <= 'z') || c == '_') {
            return false;
        }
        i += 1;
    }
    true
}

/// A template: texts, and between each two of them a slot.
pub struct Template {
    pub texts: Vec<Vec<char>>,
    pub slots: Vec<Vec<char>>,
}

impl Template {
    /// Whether the texts and slots make a template.
    pub open spec fn wf(&self) -> bool {
        is_template(views(self.texts@), views(self.slots@))
    }

    /// Whether the texts and slots make a template.
    pub fn check(&self) -> (r: bool)
        ensures
            r == self.wf(),
    {
        if self.texts.len() == 0 || self.texts.len() - 1 != self.slots.len() {
            return false;
        }
        let mut i: usize = 0;
        while i < self.texts.len()
            invariant
                i <= self.texts.len(),
                forall|j: int| 0 <= j < i ==> inert(#[trigger] views(self.texts@)[j]),
            decreases self.texts.len() - i,
        {
            if !is_inert(&self.texts[i]) {
                assert(!inert(views(self.texts@)[i as int]));
                return false;
            }
            i += 1;
        }
        let mut a: usize = 0;
        while a < self.slots.len()
            invariant
                a <= self.slots.len(),
                forall|j: int| 0 <= j < a ==> is_slot_name(#[trigger] views(self.slots@)[j]),
                forall|i: int, j: int|
                    0 <= i < j < self.slots.len() && i < a ==> views(self.slots@)[i] != views(
                        self.slots@,
                    )[j],
            decreases self.slots.len() - a,
        {
            if !is_slot(&self.slots[a]) {
                assert(!is_slot_name(views(self.slots@)[a as int]));
                return false;
            }
            let mut b: usize = a + 1;
            while b < self.slots.len()
                invariant
                    a < b <= self.slots.len(),
                    forall|j: int|
                        a < j < b ==> views(self.slots@)[a as int] != views(self.slots@)[j],
                decreases self.slots.len() - b,
            {
                if same_text(&self.slots[a], &self.slots[b]) {
                    assert(views(self.slots@)[a as int] == views(self.slots@)[b as int]);
                    return false;
                }
                b += 1;
            }
            a += 1;
        }
        true
    }

    /// The template with `values` in its slots. Rendering is Tera's: this
    /// succeeds exactly where Tera renders the template.
    pub fn render(&self, values: &Vec<Vec<char>>) -> (r: Result<Vec<char>, ProxyError>)
        requires
            self.wf(),
            values.len() == self.slots.len(),
        ensures
            r is Ok <==> rendering(views(self.texts@), views(self.slots@), views(values@))
                is Some,
            r matches Ok(out) ==> out@ == filled(views(self.texts@), views(values@)),
            r matches Err(e) ==> e == ProxyError::TemplateError,
    {
        let ghost texts = views(self.texts@);
        let ghost slots = views(self.slots@);
        let ghost vals = views(values@);
        let n: usize = self.slots.len();
        // The source: from the last text back to the first.
        let mut source: Vec<char> = Vec::new();
        append(&mut source, &self.texts[n]);
        assert(source@ =~= source_from(texts, slots, n as int));
        let mut k: usize = n;
        while k > 0
            invariant
                k <= n,
                n == self.slots.len(),
                self.texts.len() == n + 1,
                texts == views(self.texts@),
                slots == views(self.slots@),
                source@ == source_from(texts, slots, k as int),
            decreases k,
        {
            k -= 1;
            let mut head: Vec<char> = Vec::new();
            append(&mut head, &self.texts[k]);
            append_str(&mut head, "{{ ");
            append(&mut head, &self.slots[k]);
            append_str(&mut head, " }}");
            proof {
                reveal_strlit("{{ ");
                reveal_strlit(" }}");
                assert("{{ "@ =~= seq!['{', '{', ' ']);
                assert(" }}"@ =~= seq![' ', '}', '}']);
                assert(head@ =~= texts[k as int] + placeholder(slots[k as int]));
            }
            append(&mut head, &source);
            source = head;
        }
        let mut context = new_context();
        let mut i: usize = 0;
        while i < n
            invariant
                i <= n,
                n == self.slots.len(),
                values.len() == n,
                self.wf(),
                slots == views(self.slots@),
                vals == views(values@),
                context_entries(context) == entries_upto(slots, vals, i as int),
                forall|j: int|
                    0 <= j < i ==> context_entries(context).dom().contains(#[trigger] slots[j])
                        && context_entries(context)[slots[j]] == vals[j],
            decreases n - i,
        {
            let key = string_of(&self.slots[i]);
            let value = string_of(&values[i]);
            let ghost before = context_entries(context);
            context_insert(&mut context, key.as_str(), value.as_str());
            proof {
                assert(key@ == slots[i as int]);
                assert(value@ == vals[i as int]);
                assert forall|j: int| 0 <= j < i + 1 implies context_entries(
                    context,
                ).dom().contains(#[trigger] slots[j]) && context_entries(context)[slots[j]]
                    == vals[j] by {
                    if j < i {
                        assert(slots[j] != slots[i as int]);
                        assert(before.dom().contains(slots[j]));
                    }
                }
            }
            i += 1;
        }
        proof {
            lemma_expand_template(texts, slots, vals, context_entries(context), 0);
        }
        let text = string_of(&source);
        match one_off(text.as_str(), &context) {
            Ok(s) => Ok(chars_of(s.as_str())),
            Err(_) => Err(ProxyError::TemplateError),
        }
    }
}

} // verus!
