//! The tables of a project, each a block of lines with one entry for an
//! export: the index table, the loader table, the module definition and the
//! table of forwarding trampolines.

use vstd::prelude::*;
use crate::export_set::ExportSet;
use crate::exports::ExportDescriptor;
use crate::hooks::{emit_forward, forward_text, NO_MANGLE};
use crate::text::{append, append_decimal, append_str, chars_of, decimal, same_text};

verus! {

/// What the declaration of an index begins with, up to the sanitized name.
pub const INDEX_HEAD: &'static str = "pub const Index_";

/// From the sanitized name to the index.
pub const INDEX_TYPE: &'static str = ": usize = ";

/// The indentation of a loading call and its beginning, up to the sanitized name.
pub const LOAD_HEAD: &'static str = "    load_dll_func(Index_";

/// From the sanitized name to the original name.
pub const LOAD_HANDLE: &'static str = ", dll_handle, \"";

/// The end of a loading call.
pub const LOAD_TAIL: &'static str = "\");";

/// The indentation of a line of the module definition.
pub const DEF_INDENT: &'static str = "    ";

/// The line that declares the index `i` of the export `e`.
pub open spec fn index_line(e: ExportDescriptor, i: nat) -> Seq<char> {
    INDEX_HEAD@ + e.sanitized_name + INDEX_TYPE@ + decimal(i) + ";"@
}

/// The line that loads the original function of `e` into its slot.
pub open spec fn loader_line(e: ExportDescriptor) -> Seq<char> {
    LOAD_HEAD@ + e.sanitized_name + LOAD_HANDLE@ + e.original_name + LOAD_TAIL@
}

/// The line that exports the generated symbol of `e` under its original name.
pub open spec fn definition_line(e: ExportDescriptor) -> Seq<char> {
    DEF_INDENT@ + e.original_name + "="@ + e.sanitized_name
}

/// The index table: for each export a line with its index, which is its
/// position in the set.
pub open spec fn index_block(s: Seq<ExportDescriptor>) -> Seq<char>
    decreases s.len(),
{
    if s.len() == 0 {
        Seq::empty()
    } else {
        index_block(s.drop_last()) + index_line(s.last(), (s.len() - 1) as nat) + "\n"@
    }
}

/// The loader table: for each export, in the order of the indices, the
/// line that fills its slot.
pub open spec fn loader_block(s: Seq<ExportDescriptor>) -> Seq<char>
    decreases s.len(),
{
    if s.len() == 0 {
        Seq::empty()
    } else {
        loader_block(s.drop_last()) + loader_line(s.last()) + "\n"@
    }
}

/// The module definition: for each export a line that maps its original
/// name to its generated symbol.
pub open spec fn definition_block(s: Seq<ExportDescriptor>) -> Seq<char>
    decreases s.len(),
{
    if s.len() == 0 {
        Seq::empty()
    } else {
        definition_block(s.drop_last()) + definition_line(s.last()) + "\n"@
    }
}

/// The table of forwarding trampolines: the two trampolines of each export
/// whose sanitized name is not among `intercepted`, and a blank line.
pub open spec fn forward_block(s: Seq<ExportDescriptor>, intercepted: Seq<Seq<char>>) -> Seq<
    char,
>
    decreases s.len(),
{
    if s.len() == 0 {
        Seq::empty()
    } else if intercepted.contains(s.last().sanitized_name) {
        forward_block(s.drop_last(), intercepted)
    } else {
        forward_block(s.drop_last(), intercepted) + forward_text(
            NO_MANGLE@,
            s.last().sanitized_name,
        ) + "\n"@
    }
}

/// The texts of `names`.
pub open spec fn name_texts(names: Seq<Vec<char>>) -> Seq<Seq<char>> {
    names.map_values(|n: Vec<char>| n@)
}

/// The index table of `exports`.
pub fn index_table(exports: &ExportSet) -> (out: Vec<char>)
    ensures
        out@ == index_block(exports@),
{
    let mut out: Vec<char> = Vec::new();
    let mut i: usize = 0;
    assert(exports@.take(0) =~= Seq::<ExportDescriptor>::empty());
    while i < exports.len()
        invariant
            i <= exports@.len(),
            out@ == index_block(exports@.take(i as int)),
        decreases exports@.len() - i,
    {
        assert(exports@.take(i + 1).drop_last() =~= exports@.take(i as int));
        let e = exports.get(i);
        let mut line: Vec<char> = Vec::new();
        append_str(&mut line, INDEX_HEAD);
        append_str(&mut line, e.cleaned.as_str());
        append_str(&mut line, INDEX_TYPE);
        append_decimal(&mut line, i);
        append_str(&mut line, ";");
        assert(line@ =~= index_line(exports@[i as int], i as nat));
        append(&mut out, &line);
        append_str(&mut out, "\n");
        i += 1;
    }
    assert(exports@.take(exports@.len() as int) =~= exports@);
    out
}

/// The loader table of `exports`.
pub fn loader_table(exports: &ExportSet) -> (out: Vec<char>)
    ensures
        out@ == loader_block(exports@),
{
    let mut out: Vec<char> = Vec::new();
    let mut i: usize = 0;
    assert(exports@.take(0) =~= Seq::<ExportDescriptor>::empty());
    while i < exports.len()
        invariant
            i <= exports@.len(),
            out@ == loader_block(exports@.take(i as int)),
        decreases exports@.len() - i,
    {
        assert(exports@.take(i + 1).drop_last() =~= exports@.take(i as int));
        let e = exports.get(i);
        let mut line: Vec<char> = Vec::new();
        append_str(&mut line, LOAD_HEAD);
        append_str(&mut line, e.cleaned.as_str());
        append_str(&mut line, LOAD_HANDLE);
        append_str(&mut line, e.original.as_str());
        append_str(&mut line, LOAD_TAIL);
        assert(line@ =~= loader_line(exports@[i as int]));
        append(&mut out, &line);
        append_str(&mut out, "\n");
        i += 1;
    }
    assert(exports@.take(exports@.len() as int) =~= exports@);
    out
}

/// The module definition lines of `exports`.
pub fn definition_table(exports: &ExportSet) -> (out: Vec<char>)
    ensures
        out@ == definition_block(exports@),
{
    let mut out: Vec<char> = Vec::new();
    let mut i: usize = 0;
    assert(exports@.take(0) =~= Seq::<ExportDescriptor>::empty());
    while i < exports.len()
        invariant
            i <= exports@.len(),
            out@ == definition_block(exports@.take(i as int)),
        decreases exports@.len() - i,
    {
        assert(exports@.take(i + 1).drop_last() =~= exports@.take(i as int));
        let e = exports.get(i);
        let mut line: Vec<char> = Vec::new();
        append_str(&mut line, DEF_INDENT);
        append_str(&mut line, e.original.as_str());
        append_str(&mut line, "=");
        append_str(&mut line, e.cleaned.as_str());
        assert(line@ =~= definition_line(exports@[i as int]));
        append(&mut out, &line);
        append_str(&mut out, "\n");
        i += 1;
    }
    assert(exports@.take(exports@.len() as int) =~= exports@);
    out
}

/// Whether `name` is among `names`.
pub fn holds_name(names: &Vec<Vec<char>>, name: &Vec<char>) -> (r: bool)
    ensures
        r == name_texts(names@).contains(name@),
{
    let mut i: usize = 0;
    while i < names.len()
        invariant
            i <= names.len(),
            forall|j: int| 0 <= j < i ==> name_texts(names@)[j] != name@,
        decreases names.len() - i,
    {
        if same_text(&names[i], name) {
            assert(name_texts(names@)[i as int] == name@);
            return true;
        }
        i += 1;
    }
    false
}

/// The forwarding trampolines of the exports of `exports` that are not
/// intercepted.
pub fn forward_table(exports: &ExportSet, intercepted: &Vec<Vec<char>>) -> (out: Vec<char>)
    ensures
        out@ == forward_block(exports@, name_texts(intercepted@)),
{
    let mut out: Vec<char> = Vec::new();
    let no_mangle = chars_of(NO_MANGLE);
    let mut i: usize = 0;
    assert(exports@.take(0) =~= Seq::<ExportDescriptor>::empty());
    while i < exports.len()
        invariant
            i <= exports@.len(),
            no_mangle@ == NO_MANGLE@,
            out@ == forward_block(exports@.take(i as int), name_texts(intercepted@)),
        decreases exports@.len() - i,
    {
        assert(exports@.take(i + 1).drop_last() =~= exports@.take(i as int));
        let name = chars_of(exports.get(i).cleaned.as_str());
        if !holds_name(intercepted, &name) {
            let mut entry: Vec<char> = Vec::new();
            emit_forward(&mut entry, &no_mangle, &name);
            append(&mut out, &entry);
            append_str(&mut out, "\n");
        }
        i += 1;
    }
    assert(exports@.take(exports@.len() as int) =~= exports@);
    out
}

} // verus!
