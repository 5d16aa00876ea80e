use proxygen::error::{FileSystemProblem, ProxyError};
use proxygen::export_set::ExportSet;
use proxygen::proxy::{
    create_proxy_project, find_library, remove_all, replace_hyphens, update_proxy_project,
    ExistingProject, ProjectFile, ProxyTemplates,
};
use proxygen::recover::{recover_exports, recover_intercepted};
use proxygen::render::{is_inert, is_slot, Template};
use proxygen::tables::{definition_table, forward_table, index_table, loader_table};
use proxygen::templates::{
    BUILD_SCRIPT, FORWARD_HEAD, INDICES_HEAD, INTERCEPTED, LIB_HEAD, LIB_TAIL, LOADER_HEAD,
    LOADER_TAIL, TOOLCHAIN,
};

fn chars(s: &str) -> Vec<char> {
    s.chars().collect()
}

fn text(v: &Vec<char>) -> String {
    v.iter().collect()
}

fn exports(raw: &[&str]) -> ExportSet {
    ExportSet::from_raw_names(&raw.iter().map(|s| s.to_string()).collect())
}

fn pairs(set: &ExportSet) -> Vec<(String, String)> {
    (0..set.len())
        .map(|i| (set.get(i).cleaned.clone(), set.get(i).original.clone()))
        .collect()
}

fn content<'a>(files: &'a Vec<ProjectFile>, path: &str) -> &'a str {
    let found: Vec<&ProjectFile> = files.iter().filter(|f| f.path == path).collect();
    assert_eq!(found.len(), 1, "{}", path);
    found[0].content.as_str()
}

fn paths(files: &Vec<ProjectFile>) -> Vec<&str> {
    files.iter().map(|f| f.path.as_str()).collect()
}

fn trampolines(name: &str) -> String {
    let one = |arch: &str, load: &str, step: &str, reg: &str| {
        format!(
            "#[cfg(target_arch=\"{arch}\")]\n#[no_mangle]\n#[naked]\npub unsafe extern \"C\" fn {name}() {{\n    asm!(\n        \"call {{wait_dll_proxy_init}}\",\n        \"mov {reg}, {load}\",\n        \"add {reg}, {{orig_index}} * {step}\",\n        \"mov {reg}, {word} ptr [{reg}]\",\n        \"push {reg}\",\n        \"ret\",\n        wait_dll_proxy_init = sym wait_dll_proxy_init,\n        ORIG_FUNCS_PTR = sym ORIG_FUNCS_PTR,\n        orig_index = const Index_{name},\n        options(noreturn)\n    );\n}}\n",
            word = if step == "8" { "qword" } else { "dword" },
        )
    };
    format!(
        "{}\n{}",
        one("x86_64", "qword ptr [rip + {ORIG_FUNCS_PTR}]", "8", "rax"),
        one("x86", "dword ptr [{ORIG_FUNCS_PTR}]", "4", "eax")
    )
}

fn project(intercepted: Option<&str>, loader: Option<&str>, def: Option<&str>) -> ExistingProject {
    ExistingProject {
        exists: true,
        has_manifest: true,
        intercepted_exports: intercepted.map(|s| s.to_string()),
        orig_exports: loader.map(|s| s.to_string()),
        module_def: def.map(|s| s.to_string()),
    }
}

#[test]
fn the_fixed_texts_are_fit() {
    assert!(ProxyTemplates::new().is_ok());
}

#[test]
fn index_table_numbers_the_exports_by_position() {
    assert_eq!(
        text(&index_table(&exports(&["Foo@4", "bar", "a-b"]))),
        "pub const Index_a_b: usize = 0;\npub const Index_bar: usize = 1;\npub const Index_Foo: usize = 2;\n"
    );
    assert_eq!(text(&index_table(&ExportSet::new())), "");
}

#[test]
fn index_table_writes_indices_in_decimal() {
    let raw: Vec<String> = (0..12).map(|i| format!("f{:02}", i)).collect();
    let table = text(&index_table(&ExportSet::from_raw_names(&raw)));
    let lines: Vec<&str> = table.lines().collect();
    assert_eq!(lines.len(), 12);
    assert_eq!(lines[9], "pub const Index_f09: usize = 9;");
    assert_eq!(lines[10], "pub const Index_f10: usize = 10;");
    assert_eq!(lines[11], "pub const Index_f11: usize = 11;");
}

#[test]
fn loader_table_loads_each_export_by_its_original_name() {
    assert_eq!(
        text(&loader_table(&exports(&["??0Foo@@QAE@XZ", "bar"]))),
        "    load_dll_func(Index___0Foo__QAE_XZ, dll_handle, \"??0Foo@@QAE@XZ\");\n    load_dll_func(Index_bar, dll_handle, \"bar\");\n"
    );
}

#[test]
fn definition_table_maps_original_names_to_symbols() {
    assert_eq!(text(&definition_table(&exports(&["a-b", "bar"]))), "    a-b=a_b\n    bar=bar\n");
}

#[test]
fn forward_table_holds_both_encodings_of_each_trampoline() {
    let none: Vec<Vec<char>> = Vec::new();
    assert_eq!(text(&forward_table(&exports(&["bar"]), &none)), format!("{}\n", trampolines("bar")));
}

#[test]
fn forward_table_leaves_intercepted_exports_out() {
    let set = exports(&["bar", "Foo", "baz"]);
    let table = text(&forward_table(&set, &vec![chars("baz"), chars("missing")]));
    assert_eq!(table, format!("{}\n{}\n", trampolines("bar"), trampolines("Foo")));
}

#[test]
fn manifest_names_package_and_library() {
    let templates = ProxyTemplates::new().unwrap();
    assert_eq!(
        templates.get_cargo_toml("my_proxy", "version").unwrap(),
        "[package]\nname = \"my_proxy\"\nversion = \"0.1.0\"\nedition = \"2021\"\n\n[lib]\nname = \"version\"\ncrate-type = [\"cdylib\"]\n\n[dependencies]\nproxygen-macros = \"0.5\"\nwinapi = { version = \"0.3\", features = [\"consoleapi\", \"libloaderapi\", \"minwindef\", \"processthreadsapi\", \"winnt\"] }\n"
    );
}

#[test]
fn values_are_rendered_as_they_are() {
    let templates = ProxyTemplates::new().unwrap();
    let odd = "a<b>&\"c\" {{ d }} {% e %}";
    let rendered = templates.get_cargo_toml(odd, "x").unwrap();
    assert!(rendered.starts_with(&format!("[package]\nname = \"{}\"\n", odd)));
}

#[test]
fn index_file_tells_the_number_of_exports() {
    let templates = ProxyTemplates::new().unwrap();
    assert_eq!(
        templates.get_export_indices(&exports(&["b", "a"])).unwrap(),
        format!("{}2;\n\npub const Index_a: usize = 0;\npub const Index_b: usize = 1;\n", INDICES_HEAD)
    );
    assert_eq!(
        templates.get_export_indices(&ExportSet::new()).unwrap(),
        format!("{}0;\n\n", INDICES_HEAD)
    );
}

#[test]
fn root_file_names_the_library_in_upper_case() {
    let templates = ProxyTemplates::new().unwrap();
    let lib = templates.get_lib("version").unwrap();
    assert_eq!(lib, format!("{}VERSION{}", LIB_HEAD, LIB_TAIL));
    assert!(lib.contains("const ORIGINAL_LIBRARY: &str = \"VERSION_.DLL\\0\";"));
    assert_eq!(templates.get_lib("stra\u{df}e").unwrap(), templates.get_lib_for("STRASSE").unwrap());
    assert_eq!(
        templates.get_lib_for("mixed Case").unwrap(),
        format!("{}mixed Case{}", LIB_HEAD, LIB_TAIL)
    );
}

#[test]
fn new_interceptor_file_declares_nothing() {
    let templates = ProxyTemplates::new().unwrap();
    let file = templates.get_intercepted_exports().unwrap();
    assert_eq!(file, INTERCEPTED);
    assert!(recover_intercepted(&file).is_empty());
}

#[test]
fn loader_file_wraps_the_loader_table() {
    let templates = ProxyTemplates::new().unwrap();
    assert_eq!(
        templates.get_orig_exports(&exports(&["bar"])).unwrap(),
        format!("{}    load_dll_func(Index_bar, dll_handle, \"bar\");\n{}", LOADER_HEAD, LOADER_TAIL)
    );
}

#[test]
fn module_definition_lists_the_exports() {
    let templates = ProxyTemplates::new().unwrap();
    assert_eq!(
        templates.get_module_def(&exports(&["Foo@4", "bar"]), "version.dll").unwrap(),
        "LIBRARY version.dll\nEXPORTS\n    bar=bar\n    Foo=Foo\n"
    );
}

#[test]
fn trampoline_file_skips_exclusions() {
    let templates = ProxyTemplates::new().unwrap();
    let file = templates
        .get_proxied_exports(&exports(&["Foo", "bar"]), &vec!["bar".to_string()])
        .unwrap();
    assert_eq!(file, format!("{}{}\n", FORWARD_HEAD, trampolines("Foo")));
}

#[test]
fn library_name_drops_extension_and_hyphens() {
    assert_eq!(text(&remove_all(&chars("my-lib.dll"), &chars(".dll"))), "my-lib");
    assert_eq!(text(&remove_all(&chars("a.dll.dllb.dl.dll"), &chars(".dll"))), "ab.dl");
    assert_eq!(text(&remove_all(&chars("aaa"), &chars("aa"))), "a");
    assert_eq!(text(&remove_all(&chars("abc"), &chars(""))), "abc");
    assert_eq!(text(&replace_hyphens(&chars("a-b--c_d"))), "a_b__c_d");
}

#[test]
fn generate_into_existing_folder_fails_and_writes_nothing() {
    let r = create_proxy_project(&exports(&["bar"]), "version.dll", "proxy", true);
    assert!(matches!(
        r,
        Err(ProxyError::FileSystemError(FileSystemProblem::ProjectAlreadyExists))
    ));
}

#[test]
fn generate_gives_the_files_of_a_project() {
    let set = exports(&["Foo@4", "bar", "DllMain"]);
    let files = create_proxy_project(&set, "my-lib.dll", "my_proxy", false).unwrap();
    assert_eq!(
        paths(&files),
        vec![
            "Cargo.toml",
            "rust-toolchain.toml",
            "build.rs",
            "src/export_indices.rs",
            "src/intercepted_exports.rs",
            "src/lib.rs",
            "src/orig_exports.rs",
            "src/proxied_exports.rs",
            "module.def",
        ]
    );
    let templates = ProxyTemplates::new().unwrap();
    assert_eq!(content(&files, "Cargo.toml"), templates.get_cargo_toml("my_proxy", "my_lib").unwrap());
    assert_eq!(content(&files, "rust-toolchain.toml"), TOOLCHAIN);
    assert_eq!(content(&files, "build.rs"), BUILD_SCRIPT);
    assert_eq!(content(&files, "src/export_indices.rs"), templates.get_export_indices(&set).unwrap());
    assert_eq!(content(&files, "src/intercepted_exports.rs"), INTERCEPTED);
    assert_eq!(content(&files, "src/lib.rs"), templates.get_lib("my_proxy").unwrap());
    assert_eq!(content(&files, "src/orig_exports.rs"), templates.get_orig_exports(&set).unwrap());
    assert_eq!(
        content(&files, "src/proxied_exports.rs"),
        format!("{}{}\n{}\n", FORWARD_HEAD, trampolines("bar"), trampolines("Foo"))
    );
    assert_eq!(
        content(&files, "module.def"),
        "LIBRARY my_lib.dll\nEXPORTS\n    bar=bar\n    Foo=Foo\n"
    );
}

#[test]
fn a_new_project_gives_its_exports_back() {
    let set = exports(&["Foo@4", "bar", "??0Foo@@QAE@XZ", "a-b", "a.b", "say \"hi\"", "x y"]);
    let files = create_proxy_project(&set, "version.dll", "proxy", false).unwrap();
    let back = recover_exports(content(&files, "src/orig_exports.rs"));
    assert_eq!(pairs(&back), pairs(&set));
    assert!(recover_intercepted(content(&files, "src/intercepted_exports.rs")).is_empty());
    assert_eq!(find_library(content(&files, "module.def")).map(|v| text(&v)), Some("version.dll".to_string()));
}

#[test]
fn a_name_that_reads_as_two_names_does_not_come_back() {
    let set = exports(&["x, dll_handle, \"y"]);
    let files = create_proxy_project(&set, "version.dll", "proxy", false).unwrap();
    let back = recover_exports(content(&files, "src/orig_exports.rs"));
    assert_eq!(back.len(), 1);
    assert_eq!(back.get(0).original, "y");
    assert!(pairs(&back) != pairs(&set));
}

#[test]
fn update_of_a_missing_project_fails() {
    let fresh = ExportSet::new();
    for (exists, has_manifest) in [(false, false), (false, true), (true, false)] {
        let p = ExistingProject {
            exists,
            has_manifest,
            intercepted_exports: None,
            orig_exports: Some("    load_dll_func(Index_a, dll_handle, \"a\");\n".to_string()),
            module_def: None,
        };
        assert!(matches!(
            update_proxy_project(&fresh, &p),
            Err(ProxyError::FileSystemError(FileSystemProblem::ProjectNotFound))
        ));
    }
}

#[test]
fn update_detects_intercepted_export() {
    let created = create_proxy_project(&exports(&["Foo@4", "bar"]), "version.dll", "proxy", false).unwrap();
    let interceptors = format!(
        "{}\n#[pre_hook(sig = \"unknown\")]\n#[no_mangle]\npub extern \"C\" fn bar() {{\n    println!(\"bar was called\");\n}}\n",
        content(&created, "src/intercepted_exports.rs")
    );
    let found: Vec<String> = recover_intercepted(&interceptors).iter().map(text).collect();
    assert_eq!(found, vec!["bar"]);
    let p = project(
        Some(&interceptors),
        Some(content(&created, "src/orig_exports.rs")),
        Some(content(&created, "module.def")),
    );
    let files = update_proxy_project(&ExportSet::new(), &p).unwrap();
    assert_eq!(
        paths(&files),
        vec!["src/export_indices.rs", "src/orig_exports.rs", "src/proxied_exports.rs", "module.def"]
    );
    assert_eq!(
        content(&files, "src/proxied_exports.rs"),
        format!("{}{}\n", FORWARD_HEAD, trampolines("Foo"))
    );
    assert!(content(&files, "src/export_indices.rs").contains("pub const Index_bar: usize = 0;\n"));
    assert!(content(&files, "src/export_indices.rs").contains("pub const Index_Foo: usize = 1;\n"));
    assert!(content(&files, "src/orig_exports.rs")
        .contains("    load_dll_func(Index_bar, dll_handle, \"bar\");\n"));
    assert_eq!(content(&files, "src/orig_exports.rs"), content(&created, "src/orig_exports.rs"));
    assert_eq!(content(&files, "module.def"), content(&created, "module.def"));
}

#[test]
fn merge_appends_new_exports_after_the_old() {
    let created = create_proxy_project(&exports(&["mike", "zulu"]), "version.dll", "proxy", false).unwrap();
    let p = project(
        Some(content(&created, "src/intercepted_exports.rs")),
        Some(content(&created, "src/orig_exports.rs")),
        Some(content(&created, "module.def")),
    );
    let files = update_proxy_project(&exports(&["alpha", "zulu", "mike", "bravo"]), &p).unwrap();
    let templates = ProxyTemplates::new().unwrap();
    let mut expected = exports(&["mike", "zulu"]);
    expected.add(proxygen::exports::ExportName::new("alpha"));
    expected.add(proxygen::exports::ExportName::new("bravo"));
    assert_eq!(
        content(&files, "src/export_indices.rs"),
        format!(
            "{}4;\n\npub const Index_mike: usize = 0;\npub const Index_zulu: usize = 1;\npub const Index_alpha: usize = 2;\npub const Index_bravo: usize = 3;\n",
            INDICES_HEAD
        )
    );
    assert_eq!(content(&files, "src/orig_exports.rs"), templates.get_orig_exports(&expected).unwrap());
    assert_eq!(
        content(&files, "module.def"),
        "LIBRARY version.dll\nEXPORTS\n    mike=mike\n    zulu=zulu\n    alpha=alpha\n    bravo=bravo\n"
    );
}

#[test]
fn merging_twice_gives_the_same_files() {
    let created = create_proxy_project(&exports(&["mike", "zulu"]), "version.dll", "proxy", false).unwrap();
    let fresh = exports(&["alpha", "zulu", "Foo@4", "a-b"]);
    let interceptors = "pub extern \"C\" fn zulu() {\n}\n";
    let p = project(
        Some(interceptors),
        Some(content(&created, "src/orig_exports.rs")),
        Some(content(&created, "module.def")),
    );
    let first = update_proxy_project(&fresh, &p).unwrap();
    let q = project(
        Some(interceptors),
        Some(content(&first, "src/orig_exports.rs")),
        Some(content(&first, "module.def")),
    );
    let second = update_proxy_project(&fresh, &q).unwrap();
    assert_eq!(paths(&first), paths(&second));
    for (a, b) in first.iter().zip(second.iter()) {
        assert_eq!(a.content, b.content, "{}", a.path);
    }
    let third = update_proxy_project(&ExportSet::new(), &q).unwrap();
    for (a, b) in first.iter().zip(third.iter()) {
        assert_eq!(a.content, b.content, "{}", a.path);
    }
}

#[test]
fn update_without_files_starts_from_nothing() {
    let files = update_proxy_project(&exports(&["b", "a"]), &project(None, None, None)).unwrap();
    assert_eq!(
        paths(&files),
        vec!["src/export_indices.rs", "src/orig_exports.rs", "src/proxied_exports.rs"]
    );
    assert_eq!(
        content(&files, "src/orig_exports.rs"),
        format!(
            "{}    load_dll_func(Index_a, dll_handle, \"a\");\n    load_dll_func(Index_b, dll_handle, \"b\");\n{}",
            LOADER_HEAD, LOADER_TAIL
        )
    );
}

#[test]
fn library_is_read_from_the_first_line_of_the_definition() {
    assert_eq!(find_library("LIBRARY a b\nEXPORTS\n").map(|v| text(&v)), Some("a b".to_string()));
    assert_eq!(find_library("LIBRARY \n").map(|v| text(&v)), Some("".to_string()));
    assert_eq!(find_library("EXPORTS\nLIBRARY x\n"), None);
    assert_eq!(find_library(" LIBRARY x\n"), None);
    assert_eq!(find_library(""), None);
}

#[test]
fn templates_refuse_tags_in_their_texts() {
    assert!(is_inert(&chars("fn main() { let x = [1]; } // {}")));
    assert!(!is_inert(&chars("a {{ b }}")));
    assert!(!is_inert(&chars("{% if x %}")));
    assert!(!is_inert(&chars("{# note #}")));
    assert!(!is_inert(&chars("ends with {")));
    assert!(is_slot(&chars("package_name")));
    for bad in ["", "_x", "true", "false_", "Name", "a b", "a1", "t"] {
        assert!(!is_slot(&chars(bad)), "{}", bad);
    }
}

#[test]
fn template_renders_values_between_its_texts() {
    let t = Template {
        texts: vec![chars("a{ "), chars(" } b"), chars("")],
        slots: vec![chars("one"), chars("second_slot")],
    };
    assert!(t.check());
    assert_eq!(
        t.render(&vec![chars("{{ one }}"), chars("\n")]).map(|v| text(&v)),
        Ok("a{ {{ one }} } b\n".to_string())
    );
    let twice = Template { texts: vec![chars(""), chars(""), chars("")], slots: vec![chars("x"), chars("x")] };
    assert!(!twice.check());
    let short = Template { texts: vec![chars("")], slots: vec![chars("x")] };
    assert!(!short.check());
}

#[test]
fn errors_have_messages() {
    for e in [
        ProxyError::ParseError,
        ProxyError::ArchitectureError,
        ProxyError::FileSystemError(FileSystemProblem::ProjectAlreadyExists),
        ProxyError::FileSystemError(FileSystemProblem::ProjectNotFound),
        ProxyError::TemplateError,
    ] {
        assert!(!e.message().is_empty());
    }
}

#[test]
fn rendering_succeeds_for_odd_values_too() {
    let templates = ProxyTemplates::new().unwrap();
    for value in ["", "{{", "{% raw %}", "{# note", "}}", "\"quoted\"", "line\nfeed", "\u{e9}\u{1F600}"] {
        assert_eq!(
            templates.get_lib_for(value),
            Ok(format!("{}{}{}", LIB_HEAD, value, LIB_TAIL)),
            "{:?}",
            value
        );
        assert!(templates.get_cargo_toml(value, value).is_ok(), "{:?}", value);
        assert!(templates.get_module_def(&ExportSet::new(), value).is_ok(), "{:?}", value);
    }
    let odd = exports(&["{{ x }}", "{% y %}", "a\nb", "{#"]);
    assert!(create_proxy_project(&odd, "{{.dll", "{%", false).is_ok());
    assert!(update_proxy_project(&odd, &project(Some("{{"), Some("{%"), Some("LIBRARY {{ x }}\n"))).is_ok());
}
