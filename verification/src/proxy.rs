//! The files of a project: what each holds for a set of exports, which files
//! make a new project, and which are written again when an existing project
//! is brought up to date. The interceptor file is written once, with a new
//! project, and only read afterwards.

use vstd::prelude::*;
use crate::error::{FileSystemProblem, ProxyError};
use crate::export_set::{merged, texts, ExportSet};
use crate::exports::ExportDescriptor;
use crate::laws::{
    ends_line, lemma_framed_round_trip, lemma_line_end_is, lemma_lines_single,
    lemma_merge_absorbs, lemma_merge_distinct, lemma_recovered_distinct, silent,
};
use crate::recover::{
    all_survive, find_loaded, intercepted_names, recover_exports, recover_intercepted,
    recovered_exports, single_line,
};
use crate::render::{filled, filled_from, is_template, rendering, views, Template};
use crate::tables::{
    definition_block, definition_table, forward_block, forward_table, index_block, index_table,
    loader_block, loader_table, name_texts,
};
use crate::templates::{
    BUILD_SCRIPT, CARGO_HEAD, CARGO_MIDDLE, CARGO_TAIL, DEF_HEAD, DEF_MIDDLE, DEF_TAIL,
    FORWARD_HEAD, FORWARD_TAIL, INDICES_HEAD, INDICES_MIDDLE, INDICES_TAIL, INTERCEPTED,
    LIB_HEAD, LIB_TAIL, LOADER_HEAD, LOADER_TAIL, SLOT_DLL_NAME, SLOT_EXPORTS,
    SLOT_EXPORT_COUNT, SLOT_EXPORT_INDICES, SLOT_LIBRARY_NAME, SLOT_LOAD_EXPORTS,
    SLOT_PACKAGE_NAME, SLOT_PROXY_EXPORTS, TOOLCHAIN,
};
use crate::text::{
    append_decimal, chars_of, decimal, lines, matches_at, occurs_at, split_lines, string_of,
};

verus! {

/// `s` in upper case, as `str::to_uppercase` gives it.
pub uninterp spec fn uppercase_of(s: Seq<char>) -> Seq<char>;

/// `str::to_uppercase`: the upper case form of a text.
#[verifier::external_body]
fn to_uppercase(s: &str) -> (r: String)
    ensures
        r@ == uppercase_of(s@),
{
    s.to_uppercase()
}

/// `s` with an underscore in the place of each hyphen.
pub open spec fn underscored(s: Seq<char>) -> Seq<char> {
    Seq::new(
        s.len(),
        |i: int|
            if s[i] == '-' {
                '_'
            } else {
                s[i]
            },
    )
}

/// `s` without the occurrences of `part`, taken from left to right.
pub open spec fn without(s: Seq<char>, part: Seq<char>) -> Seq<char>
    decreases s.len(),
{
    if s.len() == 0 || part.len() == 0 {
        s
    } else if occurs_at(s, 0, part) {
        without(s.skip(part.len() as int), part)
    } else {
        seq![s[0]] + without(s.skip(1), part)
    }
}

/// The name of the library target of the project for the library `dll_name`.
pub open spec fn library_name(dll_name: Seq<char>) -> Seq<char> {
    underscored(without(dll_name, ".dll"@))
}

/// `s` with an underscore in the place of each hyphen.
pub fn replace_hyphens(s: &Vec<char>) -> (r: Vec<char>)
    ensures
        r@ == underscored(s@),
{
    let mut r: Vec<char> = Vec::new();
    let mut i: usize = 0;
    while i < s.len()
        invariant
            i <= s.len(),
            r@ == underscored(s@.take(i as int)),
        decreases s.len() - i,
    {
        if s[i] == '-' {
            r.push('_');
        } else {
            r.push(s[i]);
        }
        assert(r@ =~= underscored(s@.take(i + 1)));
        i += 1;
    }
    assert(s@.take(s.len() as int) =~= s@);
    r
}

/// `s` without the occurrences of `part`, taken from left to right.
pub fn remove_all(s: &Vec<char>, part: &Vec<char>) -> (r: Vec<char>)
    ensures
        r@ == without(s@, part@),
{
    let mut r: Vec<char> = Vec::new();
    if part.len() == 0 {
        crate::text::append(&mut r, s);
        return r;
    }
    let mut i: usize = 0;
    assert(s@.skip(0) =~= s@);
    while i < s.len()
        invariant
            i <= s.len(),
            part.len() > 0,
            r@ + without(s@.skip(i as int), part@) == without(s@, part@),
        decreases s.len() - i,
    {
        let ghost rest = s@.skip(i as int);
        if matches_at(s, i, part) {
            proof {
                assert(rest.subrange(0, part.len() as int) =~= s@.subrange(
                    i as int,
                    i + part.len(),
                ));
                assert(occurs_at(rest, 0, part@));
                assert(rest.skip(part.len() as int) =~= s@.skip(i + part.len()));
            }
            i += part.len();
        } else {
            proof {
                if occurs_at(rest, 0, part@) {
                    assert(rest.subrange(0, part.len() as int) =~= s@.subrange(
                        i as int,
                        i + part.len(),
                    ));
                }
                assert(rest.skip(1) =~= s@.skip(i + 1));
                assert(r@.push(s@[i as int]) + without(s@.skip(i + 1), part@) =~= r@ + (seq![
                    rest[0],
                ] + without(rest.skip(1), part@)));
            }
            r.push(s[i]);
            i += 1;
        }
    }
    assert(r@ + Seq::<char>::empty() =~= r@);
    r
}

/// A file of a project: its path below the folder of the project, with `/`
/// between the parts, and what it holds.
pub struct ProjectFile {
    pub path: String,
    pub content: String,
}

/// The manifest of a project.
pub open spec fn cargo_toml_text(package_name: Seq<char>, target_dll_name: Seq<char>) -> Seq<
    char,
> {
    CARGO_HEAD@ + package_name + CARGO_MIDDLE@ + target_dll_name + CARGO_TAIL@
}

/// The file of the index table: the number of exports, and the table.
pub open spec fn export_indices_text(exports: Seq<ExportDescriptor>) -> Seq<char> {
    INDICES_HEAD@ + decimal(exports.len()) + INDICES_MIDDLE@ + index_block(exports)
        + INDICES_TAIL@
}

/// The root file of the proxy, which names the original library after the
/// package.
pub open spec fn lib_text(package_name: Seq<char>) -> Seq<char> {
    LIB_HEAD@ + uppercase_of(package_name) + LIB_TAIL@
}

/// The file of the loader table.
pub open spec fn orig_exports_text(exports: Seq<ExportDescriptor>) -> Seq<char> {
    LOADER_HEAD@ + loader_block(exports) + LOADER_TAIL@
}

/// The module definition.
pub open spec fn module_def_text(exports: Seq<ExportDescriptor>, dll_name: Seq<char>) -> Seq<
    char,
> {
    DEF_HEAD@ + dll_name + DEF_MIDDLE@ + definition_block(exports) + DEF_TAIL@
}

/// The file of the forwarding trampolines, without those of the exports
/// named in `exclusions`.
pub open spec fn proxied_exports_text(
    exports: Seq<ExportDescriptor>,
    exclusions: Seq<Seq<char>>,
) -> Seq<char> {
    FORWARD_HEAD@ + forward_block(exports, exclusions) + FORWARD_TAIL@
}

/// What Tera makes of the manifest, where it renders it.
pub open spec fn cargo_toml_rendering(
    package_name: Seq<char>,
    target_dll_name: Seq<char>,
) -> Option<Seq<char>> {
    rendering(
        seq![CARGO_HEAD@, CARGO_MIDDLE@, CARGO_TAIL@],
        seq![SLOT_PACKAGE_NAME@, SLOT_LIBRARY_NAME@],
        seq![package_name, target_dll_name],
    )
}

/// What Tera makes of the file of the index table, where it renders it.
pub open spec fn export_indices_rendering(exports: Seq<ExportDescriptor>) -> Option<Seq<char>> {
    rendering(
        seq![INDICES_HEAD@, INDICES_MIDDLE@, INDICES_TAIL@],
        seq![SLOT_EXPORT_COUNT@, SLOT_EXPORT_INDICES@],
        seq![decimal(exports.len()), index_block(exports)],
    )
}

/// What Tera makes of the root file for the library `library`, where it
/// renders it.
pub open spec fn lib_rendering(library: Seq<char>) -> Option<Seq<char>> {
    rendering(seq![LIB_HEAD@, LIB_TAIL@], seq![SLOT_PACKAGE_NAME@], seq![library])
}

/// What Tera makes of the interceptor file of a new project, where it
/// renders it.
pub open spec fn intercepted_exports_rendering() -> Option<Seq<char>> {
    rendering(seq![INTERCEPTED@], Seq::empty(), Seq::empty())
}

/// What Tera makes of the file of the loader table, where it renders it.
pub open spec fn orig_exports_rendering(exports: Seq<ExportDescriptor>) -> Option<Seq<char>> {
    rendering(
        seq![LOADER_HEAD@, LOADER_TAIL@],
        seq![SLOT_LOAD_EXPORTS@],
        seq![loader_block(exports)],
    )
}

/// What Tera makes of the module definition, where it renders it.
pub open spec fn module_def_rendering(
    exports: Seq<ExportDescriptor>,
    dll_name: Seq<char>,
) -> Option<Seq<char>> {
    rendering(
        seq![DEF_HEAD@, DEF_MIDDLE@, DEF_TAIL@],
        seq![SLOT_DLL_NAME@, SLOT_EXPORTS@],
        seq![dll_name, definition_block(exports)],
    )
}

/// What Tera makes of the file of the forwarding trampolines, where it
/// renders it.
pub open spec fn proxied_exports_rendering(
    exports: Seq<ExportDescriptor>,
    exclusions: Seq<Seq<char>>,
) -> Option<Seq<char>> {
    rendering(
        seq![FORWARD_HEAD@, FORWARD_TAIL@],
        seq![SLOT_PROXY_EXPORTS@],
        seq![forward_block(exports, exclusions)],
    )
}

/// Whether the fixed texts of this crate can be rendered and read back: they
/// make templates; the loader table begins a line in its file, and nothing
/// around it reads as a loading call; and the interceptor file of a new
/// project declares no interceptor.
pub open spec fn templates_valid() -> bool {
    &&& is_template(seq![CARGO_HEAD@, CARGO_MIDDLE@, CARGO_TAIL@], seq![
        SLOT_PACKAGE_NAME@,
        SLOT_LIBRARY_NAME@,
    ])
    &&& is_template(seq![INDICES_HEAD@, INDICES_MIDDLE@, INDICES_TAIL@], seq![
        SLOT_EXPORT_COUNT@,
        SLOT_EXPORT_INDICES@,
    ])
    &&& is_template(seq![INTERCEPTED@], Seq::<Seq<char>>::empty())
    &&& is_template(seq![LIB_HEAD@, LIB_TAIL@], seq![SLOT_PACKAGE_NAME@])
    &&& is_template(seq![LOADER_HEAD@, LOADER_TAIL@], seq![SLOT_LOAD_EXPORTS@])
    &&& is_template(seq![FORWARD_HEAD@, FORWARD_TAIL@], seq![SLOT_PROXY_EXPORTS@])
    &&& is_template(seq![DEF_HEAD@, DEF_MIDDLE@, DEF_TAIL@], seq![SLOT_DLL_NAME@, SLOT_EXPORTS@])
    &&& ends_line(LOADER_HEAD@)
    &&& silent(LOADER_HEAD@)
    &&& silent(LOADER_TAIL@)
    &&& intercepted_names(INTERCEPTED@).len() == 0
}

/// The templates of the files of a project.
pub struct ProxyTemplates {
    pub cargo_toml: Template,
    pub export_indices: Template,
    pub intercepted_exports: Template,
    pub lib: Template,
    pub orig_exports: Template,
    pub proxied_exports: Template,
    pub module_def: Template,
}

/// Whether `t` holds the texts `texts` and the slots `slots`.
pub open spec fn holds(t: Template, texts: Seq<Seq<char>>, slots: Seq<Seq<char>>) -> bool {
    views(t.texts@) == texts && views(t.slots@) == slots
}

fn is_silent(text: &Vec<char>) -> (r: bool)
    ensures
        r == silent(text@),
{
    let ls = split_lines(text);
    let mut i: usize = 0;
    while i < ls.len()
        invariant
            i <= ls.len(),
            ls@.len() == lines(text@).len(),
            forall|j: int| 0 <= j < ls@.len() ==> (#[trigger] ls@[j])@ == lines(text@)[j],
            forall|j: int| 0 <= j < i ==> crate::recover::loaded_export(
                #[trigger] lines(text@)[j],
            ) is None,
        decreases ls.len() - i,
    {
        if find_loaded(&ls[i]).is_some() {
            assert(crate::recover::loaded_export(lines(text@)[i as int]) is Some);
            return false;
        }
        i += 1;
    }
    true
}

fn template2(a: &str, b: &str, slot: &str) -> (t: Template)
    ensures
        holds(t, seq![a@, b@], seq![slot@]),
{
    let t = Template { texts: vec![chars_of(a), chars_of(b)], slots: vec![chars_of(slot)] };
    assert(views(t.texts@) =~= seq![a@, b@]);
    assert(views(t.slots@) =~= seq![slot@]);
    t
}

fn template3(a: &str, b: &str, c: &str, first: &str, second: &str) -> (t: Template)
    ensures
        holds(t, seq![a@, b@, c@], seq![first@, second@]),
{
    let t = Template {
        texts: vec![chars_of(a), chars_of(b), chars_of(c)],
        slots: vec![chars_of(first), chars_of(second)],
    };
    assert(views(t.texts@) =~= seq![a@, b@, c@]);
    assert(views(t.slots@) =~= seq![first@, second@]);
    t
}

fn render1(t: &Template, value: Vec<char>) -> (r: Result<String, ProxyError>)
    requires
        t.wf(),
        t.slots.len() == 1,
    ensures
        r is Ok <==> rendering(views(t.texts@), views(t.slots@), seq![value@]) is Some,
        r matches Ok(s) ==> s@ == views(t.texts@)[0] + value@ + views(t.texts@)[1],
        r matches Err(e) ==> e == ProxyError::TemplateError,
{
    let ghost v = value@;
    let values: Vec<Vec<char>> = vec![value];
    assert(views(values@) =~= seq![v]);
    proof {
        reveal_with_fuel(filled_from, 3);
    }
    match t.render(&values) {
        Ok(out) => Ok(string_of(&out)),
        Err(e) => Err(e),
    }
}

fn render2(t: &Template, first: Vec<char>, second: Vec<char>) -> (r: Result<String, ProxyError>)
    requires
        t.wf(),
        t.slots.len() == 2,
    ensures
        r is Ok <==> rendering(views(t.texts@), views(t.slots@), seq![first@, second@]) is Some,
        r matches Ok(s) ==> s@ == views(t.texts@)[0] + first@ + views(t.texts@)[1] + second@
            + views(t.texts@)[2],
        r matches Err(e) ==> e == ProxyError::TemplateError,
{
    let ghost a = first@;
    let ghost b = second@;
    let values: Vec<Vec<char>> = vec![first, second];
    assert(views(values@) =~= seq![a, b]);
    proof {
        reveal_with_fuel(filled_from, 4);
        let tx = views(t.texts@);
        assert(filled(tx, seq![a, b]) =~= tx[0] + a + tx[1] + b + tx[2]);
    }
    match t.render(&values) {
        Ok(out) => Ok(string_of(&out)),
        Err(e) => Err(e),
    }
}

fn all_chars(names: &Vec<String>) -> (r: Vec<Vec<char>>)
    ensures
        name_texts(r@) == texts(names@),
{
    let mut r: Vec<Vec<char>> = Vec::new();
    let mut i: usize = 0;
    while i < names.len()
        invariant
            i <= names.len(),
            name_texts(r@) == texts(names@).take(i as int),
        decreases names.len() - i,
    {
        let ghost before = name_texts(r@);
        let v = chars_of(names[i].as_str());
        r.push(v);
        assert(name_texts(r@) =~= before.push(names@[i as int]@));
        assert(texts(names@).take(i + 1) =~= texts(names@).take(i as int).push(
            names@[i as int]@,
        ));
        i += 1;
    }
    assert(texts(names@).take(names.len() as int) =~= texts(names@));
    r
}

impl ProxyTemplates {
    /// Whether these are the templates of this crate, fit to be rendered and
    /// read back.
    pub open spec fn wf(&self) -> bool {
        &&& templates_valid()
        &&& holds(self.cargo_toml, seq![CARGO_HEAD@, CARGO_MIDDLE@, CARGO_TAIL@], seq![
            SLOT_PACKAGE_NAME@,
            SLOT_LIBRARY_NAME@,
        ])
        &&& holds(self.export_indices, seq![INDICES_HEAD@, INDICES_MIDDLE@, INDICES_TAIL@], seq![
            SLOT_EXPORT_COUNT@,
            SLOT_EXPORT_INDICES@,
        ])
        &&& holds(self.intercepted_exports, seq![INTERCEPTED@], Seq::<Seq<char>>::empty())
        &&& holds(self.lib, seq![LIB_HEAD@, LIB_TAIL@], seq![SLOT_PACKAGE_NAME@])
        &&& holds(self.orig_exports, seq![LOADER_HEAD@, LOADER_TAIL@], seq![SLOT_LOAD_EXPORTS@])
        &&& holds(self.proxied_exports, seq![FORWARD_HEAD@, FORWARD_TAIL@], seq![
            SLOT_PROXY_EXPORTS@,
        ])
        &&& holds(self.module_def, seq![DEF_HEAD@, DEF_MIDDLE@, DEF_TAIL@], seq![
            SLOT_DLL_NAME@,
            SLOT_EXPORTS@,
        ])
    }

    /// The templates of this crate, checked: fails where one of the fixed
    /// texts is unfit, which no build of this crate should see.
    pub fn new() -> (r: Result<Self, ProxyError>)
        ensures
            r is Ok <==> templates_valid(),
            r matches Ok(t) ==> t.wf(),
            r matches Err(e) ==> e == ProxyError::TemplateError,
    {
        let intercepted = Template { texts: vec![chars_of(INTERCEPTED)], slots: Vec::new() };
        assert(views(intercepted.texts@) =~= seq![INTERCEPTED@]);
        assert(views(intercepted.slots@) =~= Seq::<Seq<char>>::empty());
        let t = ProxyTemplates {
            cargo_toml: template3(
                CARGO_HEAD,
                CARGO_MIDDLE,
                CARGO_TAIL,
                SLOT_PACKAGE_NAME,
                SLOT_LIBRARY_NAME,
            ),
            export_indices: template3(
                INDICES_HEAD,
                INDICES_MIDDLE,
                INDICES_TAIL,
                SLOT_EXPORT_COUNT,
                SLOT_EXPORT_INDICES,
            ),
            intercepted_exports: intercepted,
            lib: template2(LIB_HEAD, LIB_TAIL, SLOT_PACKAGE_NAME),
            orig_exports: template2(LOADER_HEAD, LOADER_TAIL, SLOT_LOAD_EXPORTS),
            proxied_exports: template2(FORWARD_HEAD, FORWARD_TAIL, SLOT_PROXY_EXPORTS),
            module_def: template3(DEF_HEAD, DEF_MIDDLE, DEF_TAIL, SLOT_DLL_NAME, SLOT_EXPORTS),
        };
        let head = chars_of(LOADER_HEAD);
        let begins_line = head.len() == 0 || head[head.len() - 1] == '\n';
        let declared = recover_intercepted(INTERCEPTED);
        assert(declared@.len() == name_texts(declared@).len());
        if t.cargo_toml.check() && t.export_indices.check() && t.intercepted_exports.check()
            && t.lib.check() && t.orig_exports.check() && t.proxied_exports.check()
            && t.module_def.check() && begins_line && is_silent(&head) && is_silent(
            &chars_of(LOADER_TAIL),
        ) && declared.len() == 0 {
            Ok(t)
        } else {
            Err(ProxyError::TemplateError)
        }
    }

    /// The manifest of the project `package_name`, whose library target is
    /// `target_dll_name`.
    pub fn get_cargo_toml(&self, package_name: &str, target_dll_name: &str) -> (r: Result<
        String,
        ProxyError,
    >)
        requires
            self.wf(),
        ensures
            r is Ok <==> cargo_toml_rendering(package_name@, target_dll_name@) is Some,
            r matches Ok(s) ==> s@ == cargo_toml_text(package_name@, target_dll_name@),
            r matches Err(e) ==> e == ProxyError::TemplateError,
    {
        render2(&self.cargo_toml, chars_of(package_name), chars_of(target_dll_name))
    }

    /// The file that declares the index of each export.
    pub fn get_export_indices(&self, exports: &ExportSet) -> (r: Result<String, ProxyError>)
        requires
            self.wf(),
        ensures
            r is Ok <==> export_indices_rendering(exports@) is Some,
            r matches Ok(s) ==> s@ == export_indices_text(exports@),
            r matches Err(e) ==> e == ProxyError::TemplateError,
    {
        let mut count: Vec<char> = Vec::new();
        append_decimal(&mut count, exports.len());
        assert(count@ =~= decimal(exports@.len()));
        render2(&self.export_indices, count, index_table(exports))
    }

    /// The root file of the proxy.
    pub fn get_lib(&self, package_name: &str) -> (r: Result<String, ProxyError>)
        requires
            self.wf(),
        ensures
            r is Ok <==> lib_rendering(uppercase_of(package_name@)) is Some,
            r matches Ok(s) ==> s@ == lib_text(package_name@),
            r matches Err(e) ==> e == ProxyError::TemplateError,
    {
        let upper = to_uppercase(package_name);
        self.get_lib_for(upper.as_str())
    }

    /// The root file of the proxy of the library `library`, whose file bears
    /// this name with an underscore after it.
    pub fn get_lib_for(&self, library: &str) -> (r: Result<String, ProxyError>)
        requires
            self.wf(),
        ensures
            r is Ok <==> lib_rendering(library@) is Some,
            r matches Ok(s) ==> s@ == LIB_HEAD@ + library@ + LIB_TAIL@,
            r matches Err(e) ==> e == ProxyError::TemplateError,
    {
        render1(&self.lib, chars_of(library))
    }

    /// The interceptor file of a new project, which declares no interceptor.
    pub fn get_intercepted_exports(&self) -> (r: Result<String, ProxyError>)
        requires
            self.wf(),
        ensures
            r is Ok <==> intercepted_exports_rendering() is Some,
            r matches Ok(s) ==> s@ == INTERCEPTED@ && intercepted_names(s@).len() == 0,
            r matches Err(e) ==> e == ProxyError::TemplateError,
    {
        let values: Vec<Vec<char>> = Vec::new();
        assert(views(values@) =~= Seq::<Seq<char>>::empty());
        match self.intercepted_exports.render(&values) {
            Ok(out) => Ok(string_of(&out)),
            Err(e) => Err(e),
        }
    }

    /// The file that loads the original functions. The exports can be read
    /// back from it, in the order of their indices, where each survives the
    /// round alone.
    pub fn get_orig_exports(&self, exports: &ExportSet) -> (r: Result<String, ProxyError>)
        requires
            self.wf(),
        ensures
            r is Ok <==> orig_exports_rendering(exports@) is Some,
            r matches Ok(s) ==> s@ == orig_exports_text(exports@),
            r matches Ok(s) ==> (exports.wf() && all_survive(exports@) ==> recovered_exports(s@)
                == exports@),
            r matches Err(e) ==> e == ProxyError::TemplateError,
    {
        proof {
            if exports.wf() && all_survive(exports@) {
                lemma_framed_round_trip(LOADER_HEAD@, exports@, LOADER_TAIL@);
            }
        }
        render1(&self.orig_exports, loader_table(exports))
    }

    /// The module definition of the library `dll_name`.
    pub fn get_module_def(&self, exports: &ExportSet, dll_name: &str) -> (r: Result<
        String,
        ProxyError,
    >)
        requires
            self.wf(),
        ensures
            r is Ok <==> module_def_rendering(exports@, dll_name@) is Some,
            r matches Ok(s) ==> s@ == module_def_text(exports@, dll_name@),
            r matches Err(e) ==> e == ProxyError::TemplateError,
    {
        render2(&self.module_def, chars_of(dll_name), definition_table(exports))
    }

    /// The file of the forwarding trampolines: one pair for each export
    /// whose sanitized name is not among `exclusions`.
    pub fn get_proxied_exports(&self, exports: &ExportSet, exclusions: &Vec<String>) -> (r:
        Result<String, ProxyError>)
        requires
            self.wf(),
        ensures
            r is Ok <==> proxied_exports_rendering(exports@, texts(exclusions@)) is Some,
            r matches Ok(s) ==> s@ == proxied_exports_text(exports@, texts(exclusions@)),
            r matches Err(e) ==> e == ProxyError::TemplateError,
    {
        let names = all_chars(exclusions);
        render1(&self.proxied_exports, forward_table(exports, &names))
    }
}

/// A file of a project, as texts.
pub struct FileText {
    pub path: Seq<char>,
    pub content: Seq<char>,
}

impl View for ProjectFile {
    type V = FileText;

    open spec fn view(&self) -> FileText {
        FileText { path: self.path@, content: self.content@ }
    }
}

/// The files `files`, as texts.
pub open spec fn file_texts(files: Seq<ProjectFile>) -> Seq<FileText> {
    files.map_values(|f: ProjectFile| f@)
}

/// What is found at the place of a project: whether the folder exists,
/// whether it holds a manifest, and the three files that are read where they
/// exist.
pub struct ExistingProject {
    pub exists: bool,
    pub has_manifest: bool,
    pub intercepted_exports: Option<String>,
    pub orig_exports: Option<String>,
    pub module_def: Option<String>,
}

/// What is found at the place of a project, as texts.
pub struct ProjectTexts {
    pub exists: bool,
    pub has_manifest: bool,
    pub intercepted_exports: Option<Seq<char>>,
    pub orig_exports: Option<Seq<char>>,
    pub module_def: Option<Seq<char>>,
}

/// The text of `s`, where there is one.
pub open spec fn text_of(s: Option<String>) -> Option<Seq<char>> {
    match s {
        Some(t) => Some(t@),
        None => None,
    }
}

impl View for ExistingProject {
    type V = ProjectTexts;

    open spec fn view(&self) -> ProjectTexts {
        ProjectTexts {
            exists: self.exists,
            has_manifest: self.has_manifest,
            intercepted_exports: text_of(self.intercepted_exports),
            orig_exports: text_of(self.orig_exports),
            module_def: text_of(self.module_def),
        }
    }
}

/// Whether Tera renders each of the files of a new project.
pub open spec fn new_project_renders(
    exports: Seq<ExportDescriptor>,
    dll_name: Seq<char>,
    package_name: Seq<char>,
) -> bool {
    &&& cargo_toml_rendering(package_name, library_name(dll_name)) is Some
    &&& export_indices_rendering(exports) is Some
    &&& intercepted_exports_rendering() is Some
    &&& lib_rendering(uppercase_of(package_name)) is Some
    &&& orig_exports_rendering(exports) is Some
    &&& proxied_exports_rendering(exports, Seq::empty()) is Some
    &&& module_def_rendering(exports, underscored(dll_name)) is Some
}

/// The files of a new project for the library `dll_name`, in the order in
/// which they are written.
pub open spec fn new_project_files(
    exports: Seq<ExportDescriptor>,
    dll_name: Seq<char>,
    package_name: Seq<char>,
) -> Seq<FileText> {
    seq![
        FileText {
            path: "Cargo.toml"@,
            content: cargo_toml_text(package_name, library_name(dll_name)),
        },
        FileText { path: "rust-toolchain.toml"@, content: TOOLCHAIN@ },
        FileText { path: "build.rs"@, content: BUILD_SCRIPT@ },
        FileText { path: "src/export_indices.rs"@, content: export_indices_text(exports) },
        FileText { path: "src/intercepted_exports.rs"@, content: INTERCEPTED@ },
        FileText { path: "src/lib.rs"@, content: lib_text(package_name) },
        FileText { path: "src/orig_exports.rs"@, content: orig_exports_text(exports) },
        FileText {
            path: "src/proxied_exports.rs"@,
            content: proxied_exports_text(exports, Seq::empty()),
        },
        FileText { path: "module.def"@, content: module_def_text(exports, underscored(dll_name)) },
    ]
}

/// The exports that a project had before it is brought up to date.
pub open spec fn prior_exports(p: ProjectTexts) -> Seq<ExportDescriptor> {
    match p.orig_exports {
        Some(t) => recovered_exports(t),
        None => Seq::empty(),
    }
}

/// The names of the exports that a project intercepts.
pub open spec fn prior_intercepted(p: ProjectTexts) -> Seq<Seq<char>> {
    match p.intercepted_exports {
        Some(t) => intercepted_names(t),
        None => Seq::empty(),
    }
}

/// The name of the library in the module definition `text`: what follows
/// `LIBRARY ` on its first line.
pub open spec fn library_of(text: Seq<char>) -> Option<Seq<char>> {
    if lines(text).len() > 0 && occurs_at(lines(text)[0], 0, DEF_HEAD@) {
        Some(lines(text)[0].skip(DEF_HEAD@.len() as int))
    } else {
        None
    }
}

/// The name of the library that a project stands in for, where its module
/// definition tells it.
pub open spec fn prior_library(p: ProjectTexts) -> Option<Seq<char>> {
    match p.module_def {
        Some(t) => library_of(t),
        None => None,
    }
}

/// The exports of a project once `fresh` is merged into it.
pub open spec fn updated_exports(p: ProjectTexts, fresh: Seq<ExportDescriptor>) -> Seq<
    ExportDescriptor,
> {
    merged(prior_exports(p), fresh)
}

/// Whether Tera renders each of the files that bring a project up to date.
pub open spec fn update_renders(p: ProjectTexts, fresh: Seq<ExportDescriptor>) -> bool {
    let all = updated_exports(p, fresh);
    &&& export_indices_rendering(all) is Some
    &&& orig_exports_rendering(all) is Some
    &&& proxied_exports_rendering(all, prior_intercepted(p)) is Some
    &&& match prior_library(p) {
        Some(n) => module_def_rendering(all, n) is Some,
        None => true,
    }
}

/// The files that are written to bring a project up to date: the tables of
/// the merged exports, and the module definition where the name of the
/// library is known. The interceptor file is not among them.
pub open spec fn update_files(p: ProjectTexts, fresh: Seq<ExportDescriptor>) -> Seq<FileText> {
    let all = updated_exports(p, fresh);
    let tables = seq![
        FileText { path: "src/export_indices.rs"@, content: export_indices_text(all) },
        FileText { path: "src/orig_exports.rs"@, content: orig_exports_text(all) },
        FileText {
            path: "src/proxied_exports.rs"@,
            content: proxied_exports_text(all, prior_intercepted(p)),
        },
    ];
    match prior_library(p) {
        Some(n) => tables.push(FileText { path: "module.def"@, content: module_def_text(all, n) }),
        None => tables,
    }
}

fn file(path: &str, content: String) -> (f: ProjectFile)
    ensures
        f@ == (FileText { path: path@, content: content@ }),
{
    ProjectFile { path: string_of(&chars_of(path)), content }
}

/// The files of a new project for the exports of the library `dll_name`.
/// Nothing is to be written where the folder of the project exists.
pub fn create_proxy_project(
    exports: &ExportSet,
    dll_name: &str,
    package_name: &str,
    out_dir_exists: bool,
) -> (r: Result<Vec<ProjectFile>, ProxyError>)
    ensures
        out_dir_exists ==> (r matches Err(e) && e == ProxyError::FileSystemError(
            FileSystemProblem::ProjectAlreadyExists,
        )),
        !out_dir_exists ==> (r is Ok <==> templates_valid() && new_project_renders(
            exports@,
            dll_name@,
            package_name@,
        )),
        !out_dir_exists ==> (r matches Err(e) ==> e == ProxyError::TemplateError),
        !out_dir_exists ==> (r matches Ok(files) ==> file_texts(files@) == new_project_files(
            exports@,
            dll_name@,
            package_name@,
        )),
        r matches Ok(files) ==> (exports.wf() && all_survive(exports@) ==> recovered_exports(
            files@[6].content@,
        ) == exports@),
{
    if out_dir_exists {
        return Err(ProxyError::FileSystemError(FileSystemProblem::ProjectAlreadyExists));
    }
    let templates = match ProxyTemplates::new() {
        Ok(t) => t,
        Err(e) => {
            return Err(e);
        },
    };
    let name = chars_of(dll_name);
    let target = string_of(&replace_hyphens(&remove_all(&name, &chars_of(".dll"))));
    let library = string_of(&replace_hyphens(&name));
    let cargo_toml = match templates.get_cargo_toml(package_name, target.as_str()) {
        Ok(s) => s,
        Err(e) => {
            return Err(e);
        },
    };
    let export_indices = match templates.get_export_indices(exports) {
        Ok(s) => s,
        Err(e) => {
            return Err(e);
        },
    };
    let intercepted_exports = match templates.get_intercepted_exports() {
        Ok(s) => s,
        Err(e) => {
            return Err(e);
        },
    };
    let lib = match templates.get_lib(package_name) {
        Ok(s) => s,
        Err(e) => {
            return Err(e);
        },
    };
    let orig_exports = match templates.get_orig_exports(exports) {
        Ok(s) => s,
        Err(e) => {
            return Err(e);
        },
    };
    let none: Vec<String> = Vec::new();
    assert(texts(none@) =~= Seq::<Seq<char>>::empty());
    let proxied_exports = match templates.get_proxied_exports(exports, &none) {
        Ok(s) => s,
        Err(e) => {
            return Err(e);
        },
    };
    let module_def = match templates.get_module_def(exports, library.as_str()) {
        Ok(s) => s,
        Err(e) => {
            return Err(e);
        },
    };
    let files: Vec<ProjectFile> = vec![
        file("Cargo.toml", cargo_toml),
        file("rust-toolchain.toml", string_of(&chars_of(TOOLCHAIN))),
        file("build.rs", string_of(&chars_of(BUILD_SCRIPT))),
        file("src/export_indices.rs", export_indices),
        file("src/intercepted_exports.rs", intercepted_exports),
        file("src/lib.rs", lib),
        file("src/orig_exports.rs", orig_exports),
        file("src/proxied_exports.rs", proxied_exports),
        file("module.def", module_def),
    ];
    assert(file_texts(files@) =~= new_project_files(exports@, dll_name@, package_name@));
    Ok(files)
}

/// The name of the library in the module definition `text`.
pub fn find_library(text: &str) -> (r: Option<Vec<char>>)
    ensures
        match library_of(text@) {
            Some(n) => r matches Some(v) && v@ == n,
            None => r is None,
        },
{
    let ls = split_lines(&chars_of(text));
    if ls.len() == 0 {
        return None;
    }
    let head = chars_of(DEF_HEAD);
    if !matches_at(&ls[0], 0, &head) {
        return None;
    }
    Some(crate::text::part(&ls[0], head.len(), ls[0].len()))
}

/// The files that bring an existing project up to date with the exports
/// `exports`: the exports that the project has keep their indices, the new
/// ones follow, and the exports that the project intercepts get no
/// forwarding trampoline. Fails where there is no project with a manifest.
pub fn update_proxy_project(exports: &ExportSet, project: &ExistingProject) -> (r: Result<
    Vec<ProjectFile>,
    ProxyError,
>)
    requires
        exports.wf(),
    ensures
        !(project.exists && project.has_manifest) ==> (r matches Err(e) && e
            == ProxyError::FileSystemError(FileSystemProblem::ProjectNotFound)),
        project.exists && project.has_manifest ==> (r is Ok <==> templates_valid()
            && update_renders(project@, exports@)),
        project.exists && project.has_manifest ==> (r matches Err(e) ==> e
            == ProxyError::TemplateError),
        project.exists && project.has_manifest ==> (r matches Ok(files) ==> file_texts(files@)
            == update_files(project@, exports@)),
{
    if !project.exists || !project.has_manifest {
        return Err(ProxyError::FileSystemError(FileSystemProblem::ProjectNotFound));
    }
    let intercepted: Vec<Vec<char>> = match &project.intercepted_exports {
        Some(t) => recover_intercepted(t.as_str()),
        None => Vec::new(),
    };
    assert(name_texts(intercepted@) =~= prior_intercepted(project@));
    let prior = match &project.orig_exports {
        Some(t) => recover_exports(t.as_str()),
        None => ExportSet::new(),
    };
    let all = prior.merge(exports);
    let templates = match ProxyTemplates::new() {
        Ok(t) => t,
        Err(e) => {
            return Err(e);
        },
    };
    let export_indices = match templates.get_export_indices(&all) {
        Ok(s) => s,
        Err(e) => {
            return Err(e);
        },
    };
    let orig_exports = match templates.get_orig_exports(&all) {
        Ok(s) => s,
        Err(e) => {
            return Err(e);
        },
    };
    let proxied_exports = match render1(
        &templates.proxied_exports,
        forward_table(&all, &intercepted),
    ) {
        Ok(s) => s,
        Err(e) => {
            return Err(e);
        },
    };
    let mut files: Vec<ProjectFile> = vec![
        file("src/export_indices.rs", export_indices),
        file("src/orig_exports.rs", orig_exports),
        file("src/proxied_exports.rs", proxied_exports),
    ];
    let library: Option<Vec<char>> = match &project.module_def {
        Some(t) => find_library(t.as_str()),
        None => None,
    };
    match library {
        Some(n) => {
            let name = string_of(&n);
            let module_def = match templates.get_module_def(&all, name.as_str()) {
                Ok(s) => s,
                Err(e) => {
                    return Err(e);
                },
            };
            files.push(file("module.def", module_def));
        },
        None => {},
    }
    assert(file_texts(files@) =~= update_files(project@, exports@));
    Ok(files)
}

/// What is found at the place of a project once the files of an update
/// are written: the loader table and the module definition are the new
/// ones, the interceptor file is as it was.
pub open spec fn after_update(p: ProjectTexts, fresh: Seq<ExportDescriptor>) -> ProjectTexts {
    let all = updated_exports(p, fresh);
    ProjectTexts {
        exists: p.exists,
        has_manifest: p.has_manifest,
        intercepted_exports: p.intercepted_exports,
        orig_exports: Some(orig_exports_text(all)),
        module_def: match prior_library(p) {
            Some(n) => Some(module_def_text(all, n)),
            None => p.module_def,
        },
    }
}

/// The name of the library is read back from a module definition.
pub proof fn lemma_library_round_trip(exports: Seq<ExportDescriptor>, name: Seq<char>)
    requires
        single_line(name),
    ensures
        library_of(module_def_text(exports, name)) == Some(name),
{
    reveal_strlit("LIBRARY ");
    reveal_strlit("\nEXPORTS\n");
    let first = DEF_HEAD@ + name;
    let rest = DEF_MIDDLE@.skip(1) + definition_block(exports) + DEF_TAIL@;
    let text = module_def_text(exports, name);
    assert(text =~= first + seq!['\n'] + rest);
    assert(text[first.len() as int] == '\n');
    assert forall|i: int| 0 <= i < first.len() implies #[trigger] text[i] != '\n' by {
        if i >= 8 {
            assert(text[i] == name[i - 8]);
        }
    }
    lemma_line_end_is(text, first.len() as int);
    assert(text.take(first.len() as int) =~= first);
    assert(lines(text)[0] == first);
    assert(first.subrange(0, 8) =~= DEF_HEAD@);
    assert(first.skip(8) =~= name);
}

/// Round trip: what is read from the files of a new project is what the
/// project was made for. The loader table gives the exports back, in the
/// order of their indices, where no export occurs twice and each survives
/// alone; the interceptor file declares nothing; and the module definition
/// names the library, where the name is one line.
pub proof fn lemma_new_project_round_trip(
    exports: Seq<ExportDescriptor>,
    dll_name: Seq<char>,
    package_name: Seq<char>,
)
    requires
        templates_valid(),
        exports.no_duplicates(),
        all_survive(exports),
    ensures
        recovered_exports(new_project_files(exports, dll_name, package_name)[6].content)
            == exports,
        intercepted_names(new_project_files(exports, dll_name, package_name)[4].content).len()
            == 0,
        single_line(dll_name) ==> library_of(
            new_project_files(exports, dll_name, package_name)[8].content,
        ) == Some(underscored(dll_name)),
{
    lemma_framed_round_trip(LOADER_HEAD@, exports, LOADER_TAIL@);
    if single_line(dll_name) {
        assert(single_line(underscored(dll_name))) by {
            assert forall|i: int| 0 <= i < underscored(dll_name).len() implies #[trigger] underscored(
                dll_name,
            )[i] != '\n' by {
                assert(dll_name[i] != '\n');
            }
        }
        lemma_library_round_trip(exports, underscored(dll_name));
    }
}

/// Index stability: an export that a project has keeps its index when the
/// project is brought up to date, whatever exports are merged in.
pub proof fn lemma_update_keeps_indices(p: ProjectTexts, fresh: Seq<ExportDescriptor>, i: int)
    requires
        0 <= i < prior_exports(p).len(),
    ensures
        i < updated_exports(p, fresh).len(),
        updated_exports(p, fresh)[i] == prior_exports(p)[i],
{
}

/// Idempotence: bringing a project up to date a second time, with the same
/// exports, succeeds where the first time did and writes the same files,
/// where every export of the project survives a round through the loader
/// table.
pub proof fn lemma_update_idempotent(p: ProjectTexts, fresh: Seq<ExportDescriptor>)
    requires
        templates_valid(),
        fresh.no_duplicates(),
        all_survive(updated_exports(p, fresh)),
    ensures
        updated_exports(after_update(p, fresh), fresh) == updated_exports(p, fresh),
        update_files(after_update(p, fresh), fresh) == update_files(p, fresh),
        update_renders(after_update(p, fresh), fresh) == update_renders(p, fresh),
{
    let prior = prior_exports(p);
    let all = updated_exports(p, fresh);
    match p.orig_exports {
        Some(t) => lemma_recovered_distinct(lines(t)),
        None => {},
    }
    lemma_merge_distinct(prior, fresh);
    lemma_framed_round_trip(LOADER_HEAD@, all, LOADER_TAIL@);
    lemma_merge_absorbs(prior, fresh);
    let q = after_update(p, fresh);
    assert(prior_exports(q) == all);
    assert(updated_exports(q, fresh) == all);
    assert(prior_intercepted(q) == prior_intercepted(p));
    match prior_library(p) {
        Some(n) => {
            lemma_lines_single(p.module_def->0, 0);
            assert(single_line(n)) by {
                let first = lines(p.module_def->0)[0];
                assert forall|i: int| 0 <= i < n.len() implies #[trigger] n[i] != '\n' by {
                    assert(n[i] == first[i + DEF_HEAD@.len()]);
                }
            }
            lemma_library_round_trip(all, n);
        },
        None => {},
    }
    assert(prior_library(q) == prior_library(p));
}

} // verus!
