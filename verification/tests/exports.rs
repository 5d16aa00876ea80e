use proxygen::export_set::ExportSet;
use proxygen::exports::{clean_chars, clean_func_name, is_reserved_name, undecorate, ExportName};
use proxygen::order::{is_before, is_text_before};
use proxygen::text::{chars_of, split_lines, string_of, trim};

fn chars(s: &str) -> Vec<char> {
    s.chars().collect()
}

fn names(raw: &[&str]) -> Vec<String> {
    raw.iter().map(|s| s.to_string()).collect()
}

fn originals(set: &ExportSet) -> Vec<String> {
    let names = set.originals();
    assert_eq!(names.len(), set.len());
    for i in 0..set.len() {
        assert_eq!(names[i], set.get(i).original);
    }
    names
}

#[test]
fn sanitized_name_keeps_letters_and_digits() {
    assert_eq!(clean_func_name("CreateFileW"), "CreateFileW");
    assert_eq!(clean_func_name("abc123XYZ"), "abc123XYZ");
}

#[test]
fn sanitized_name_replaces_everything_else() {
    assert_eq!(clean_func_name("??0Foo@@QAE@XZ"), "__0Foo__QAE_XZ");
    assert_eq!(clean_func_name("a-b.c d"), "a_b_c_d");
    assert_eq!(clean_func_name("_under_"), "_under_");
    assert_eq!(clean_func_name(""), "");
}

#[test]
fn sanitized_name_has_the_length_of_the_name_in_characters() {
    let raw = "f\u{fc}r@8 \u{1F600}";
    let cleaned = clean_func_name(raw);
    assert_eq!(cleaned.chars().count(), raw.chars().count());
    assert_eq!(cleaned, "f_r_8__");
    assert!(cleaned.chars().all(|c| c.is_ascii_alphanumeric() || c == '_'));
}

#[test]
fn clean_chars_agrees_with_clean_func_name() {
    assert_eq!(string_of(&clean_chars(&chars("x+y"))), clean_func_name("x+y"));
}

#[test]
fn new_export_trims_the_name() {
    let e = ExportName::new("  Foo@4\t\n");
    assert_eq!(e.original, "Foo@4");
    assert_eq!(e.cleaned, "Foo_4");
}

#[test]
fn new_export_of_blank_name_is_empty() {
    let e = ExportName::new(" \u{a0}\u{3000} ");
    assert_eq!(e.original, "");
    assert_eq!(e.cleaned, "");
}

#[test]
fn trim_sets_unicode_white_space_aside() {
    assert_eq!(string_of(&trim(&chars("\u{2003}a b\u{85}"))), "a b");
    assert_eq!(string_of(&trim(&chars("\u{200b}a"))), "\u{200b}a");
}

#[test]
fn same_and_duplicate_go_by_both_names() {
    let a = ExportName::new("a-b");
    let b = ExportName::new("a_b");
    assert_eq!(a.cleaned, b.cleaned);
    assert!(!a.same(&b));
    assert!(a.same(&a.duplicate()));
}

#[test]
fn stdcall_decoration_is_stripped() {
    assert_eq!(string_of(&undecorate(&chars("Foo@4"))), "Foo");
    assert_eq!(string_of(&undecorate(&chars("_Bar@128"))), "_Bar");
}

#[test]
fn other_names_keep_their_at_signs() {
    for name in ["Foo", "Foo@", "@Foo@8", "Foo@@16", "??0Foo@@QAE@XZ", "Foo@4x", "@4", "a@b@4", ""] {
        assert_eq!(string_of(&undecorate(&chars(name))), name, "{}", name);
    }
}

#[test]
fn reserved_names_are_the_four_support_symbols() {
    for name in ["DllMain", "ORIGINAL_FUNCS", "ORIG_FUNCS_PTR", "wait_dll_proxy_init"] {
        assert!(is_reserved_name(&chars(name)), "{}", name);
    }
    for name in ["dllmain", "DllMain2", "ORIG_FUNCS", "", "wait_dll_proxy_init_"] {
        assert!(!is_reserved_name(&chars(name)), "{}", name);
    }
}

#[test]
fn names_compare_without_case_first() {
    assert!(is_text_before(&chars("bar"), &chars("Foo")));
    assert!(!is_text_before(&chars("Foo"), &chars("bar")));
    assert!(is_text_before(&chars("Foo"), &chars("foo")));
    assert!(!is_text_before(&chars("foo"), &chars("Foo")));
    assert!(is_text_before(&chars("ab"), &chars("abc")));
    assert!(!is_text_before(&chars("abc"), &chars("ab")));
    assert!(!is_text_before(&chars("abc"), &chars("abc")));
    assert!(is_text_before(&chars(""), &chars("a")));
    assert!(is_text_before(&chars("a_"), &chars("aa")));
}

#[test]
fn dump_exports_scenario() {
    let set = ExportSet::from_raw_names(&names(&["Foo@4", "bar", "DllMain"]));
    assert_eq!(originals(&set), vec!["bar", "Foo"]);
    assert_eq!(set.index_of(&ExportName::new("bar")), Some(0));
    assert_eq!(set.index_of(&ExportName::new("Foo")), Some(1));
    assert_eq!(set.index_of(&ExportName::new("DllMain")), None);
    assert_eq!(set.slot_of("bar"), Some(0));
    assert_eq!(set.slot_of("Foo"), Some(1));
    assert_eq!(set.slot_of("DllMain"), None);
}

#[test]
fn extraction_is_the_same_for_any_order_of_the_names() {
    let a = ExportSet::from_raw_names(&names(&["zeta", "Alpha", "beta", "alpha", "Beta "]));
    let b = ExportSet::from_raw_names(&names(&["Beta ", "alpha", "zeta", "beta", "Alpha"]));
    assert_eq!(originals(&a), vec!["Alpha", "alpha", "Beta", "beta", "zeta"]);
    assert_eq!(originals(&a), originals(&b));
}

#[test]
fn extraction_keeps_each_export_once() {
    let set = ExportSet::from_raw_names(&names(&["f", " f", "f@8", "f\t"]));
    assert_eq!(originals(&set), vec!["f"]);
}

#[test]
fn extraction_keeps_names_that_sanitize_alike() {
    let set = ExportSet::from_raw_names(&names(&["a-b", "a.b", "a_b"]));
    assert_eq!(set.len(), 3);
    assert_eq!(originals(&set), vec!["a-b", "a.b", "a_b"]);
    for i in 0..3 {
        assert_eq!(set.get(i).cleaned, "a_b");
    }
    assert_eq!(set.slot_of("a_b"), Some(0));
}

#[test]
fn extraction_leaves_reserved_names_out() {
    let set = ExportSet::from_raw_names(&names(&[
        "DllMain",
        "ORIGINAL_FUNCS",
        " ORIG_FUNCS_PTR",
        "wait_dll_proxy_init",
        "DllMain@12",
        "Real",
    ]));
    assert_eq!(originals(&set), vec!["Real"]);
}

#[test]
fn extraction_of_nothing_is_empty() {
    let set = ExportSet::from_raw_names(&Vec::new());
    assert_eq!(set.len(), 0);
    assert_eq!(ExportSet::new().len(), 0);
}

#[test]
fn add_appends_what_is_new() {
    let mut set = ExportSet::from_raw_names(&names(&["m", "n"]));
    assert!(set.add(ExportName::new("a")));
    assert!(!set.add(ExportName::new("m")));
    assert_eq!(originals(&set), vec!["m", "n", "a"]);
    assert!(set.contains(&ExportName::new("a")));
    assert!(!set.contains(&ExportName::new("b")));
}

#[test]
fn merge_leaves_every_index_unchanged() {
    let prior = ExportSet::from_raw_names(&names(&["delta", "mike", "zulu"]));
    let fresh = ExportSet::from_raw_names(&names(&["alpha", "mike", "bravo", "zulu"]));
    let merged = prior.merge(&fresh);
    assert_eq!(originals(&merged), vec!["delta", "mike", "zulu", "alpha", "bravo"]);
    for i in 0..prior.len() {
        assert_eq!(merged.index_of(prior.get(i)), Some(i));
    }
}

#[test]
fn merge_with_nothing_new_changes_nothing() {
    let prior = ExportSet::from_raw_names(&names(&["b", "a"]));
    let again = prior.merge(&prior);
    assert_eq!(originals(&again), originals(&prior));
    let empty = ExportSet::new();
    assert_eq!(originals(&prior.merge(&empty)), vec!["a", "b"]);
    assert_eq!(originals(&empty.merge(&prior)), vec!["a", "b"]);
}

#[test]
fn lines_are_split_at_line_feeds() {
    let split = |s: &str| -> Vec<String> {
        split_lines(&chars_of(s)).iter().map(string_of).collect()
    };
    assert_eq!(split(""), Vec::<String>::new());
    assert_eq!(split("a"), vec!["a"]);
    assert_eq!(split("a\n"), vec!["a"]);
    assert_eq!(split("a\nb"), vec!["a", "b"]);
    assert_eq!(split("\n"), vec![""]);
    assert_eq!(split("a\n\nb\n"), vec!["a", "", "b"]);
    assert_eq!(split("a\r\nb"), vec!["a\r", "b"]);
}

#[test]
fn exports_compare_by_sanitized_name_first() {
    let a = ExportName::new("a-b");
    let b = ExportName::new("a.b");
    let c = ExportName::new("a_a");
    assert!(is_before(&a, &b));
    assert!(!is_before(&b, &a));
    assert!(!is_before(&a, &a));
    assert!(is_before(&c, &a));
    assert!(is_before(&ExportName::new("bar"), &ExportName::new("Foo")));
    let set = ExportSet::from_raw_names(&names(&["x", "a.b", "B", "a-b", "b", "a_a"]));
    for i in 0..set.len() {
        for j in 0..set.len() {
            assert_eq!(is_before(set.get(i), set.get(j)), i < j);
        }
    }
}
