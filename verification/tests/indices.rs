use proxygen::export_set::ExportSet;
use proxygen::exports::ExportName;
use proxygen::indices::{find_declared_index, indices_agree, recover_indices};
use proxygen::proxy::ProxyTemplates;
use proxygen::recover::{all_survive_recovery, survives_recovery};
use regex::Regex;

fn chars(s: &str) -> Vec<char> {
    s.chars().collect()
}

fn declared(line: &str) -> Option<(String, usize)> {
    find_declared_index(&chars(line)).map(|(name, index)| (name.iter().collect(), index))
}

const LINES: [&str; 20] = [
    "pub const Index_bar: usize = 0;",
    "pub const Index_Foo_4: usize = 17;",
    "    pub const Index_a: usize = 007; // seven",
    "pub const Index_a : usize = 1;",
    "pub const Index_a: usize = 1: usize = 22;",
    "pub const Index_a: usize = 1; pub const Index_b: usize = 2;",
    "pub const Index_: usize = 1;",
    "pub const Index_a: usize = ;",
    "pub const Index_a: usize = 1",
    "pub const Index_a: usize = x1;",
    "pub const Index_a: usize = 1 ;",
    "pub const Index_a: u32 = 1;",
    "pub const TOTAL_EXPORTS: usize = 3;",
    "const Index_a: usize = 1;",
    ": usize = 1; pub const Index_a",
    "pub const Index_\u{e9}t\u{e9}: usize = 5;",
    "pub const Index_a: usize = 12a; : usize = 3;",
    "",
    "pub const Index_a: usize = 1;\r",
    "pub const Index_a:  usize = 1;",
];

#[test]
fn index_declarations_are_read_as_the_pattern_reads_them() {
    let pattern = Regex::new(r"pub const Index_(.+): usize = ([0-9]+);").unwrap();
    for line in LINES {
        let expected = pattern.captures(line).map(|c| {
            (
                c.get(1).unwrap().as_str().trim().to_string(),
                c.get(2).unwrap().as_str().parse::<usize>().unwrap(),
            )
        });
        assert_eq!(declared(line), expected, "{:?}", line);
    }
}

#[test]
fn index_declaration_names_export_and_slot() {
    assert_eq!(declared("pub const Index_Foo_4: usize = 17;"), Some(("Foo_4".to_string(), 17)));
    assert_eq!(declared("pub const Index_a: usize = 0;"), Some(("a".to_string(), 0)));
    assert_eq!(declared("pub const TOTAL_EXPORTS: usize = 3;"), None);
}

#[test]
fn the_greatest_index_is_read_and_no_greater_one() {
    let greatest = format!("pub const Index_a: usize = {};", usize::MAX);
    assert_eq!(declared(&greatest), Some(("a".to_string(), usize::MAX)));
    let beyond = format!("pub const Index_a: usize = {}0;", usize::MAX);
    assert_eq!(declared(&beyond), None);
    let more = format!("pub const Index_a: usize = {};", usize::MAX as u128 + 1);
    assert_eq!(declared(&more), None);
}

#[test]
fn the_index_file_gives_the_indices_back() {
    let raw: Vec<String> = ["Foo@4", "bar", "a-b", "zulu", "x9", "k", "l", "m", "n", "o", "p"]
        .iter()
        .map(|s| s.to_string())
        .collect();
    let set = ExportSet::from_raw_names(&raw);
    let file = ProxyTemplates::new().unwrap().get_export_indices(&set).unwrap();
    let found: Vec<(String, usize)> =
        recover_indices(&file).into_iter().map(|(n, i)| (n.iter().collect(), i)).collect();
    let expected: Vec<(String, usize)> =
        (0..set.len()).map(|i| (set.get(i).cleaned.clone(), i)).collect();
    assert_eq!(found, expected);
    assert_eq!(found[10], ("zulu".to_string(), 10));
    assert!(recover_indices("").is_empty());
}

#[test]
fn plain_names_survive_recovery() {
    for name in ["bar", "Foo@4", "??0Foo@@QAE@XZ", "a b", "say \"hi\"", "x\"); // y", "a;b"] {
        assert!(survives_recovery(&ExportName::new(name)), "{}", name);
    }
}

#[test]
fn other_names_do_not_survive_recovery() {
    for name in ["", "  ", "x, dll_handle, \"y", "a\nb", "x ,\tdll_handle,\"y"] {
        assert!(!survives_recovery(&ExportName::new(name)), "{:?}", name);
    }
    let odd = ExportName { original: "a".to_string(), cleaned: " a".to_string() };
    assert!(!survives_recovery(&odd));
    let comma = ExportName { original: "a,b".to_string(), cleaned: "a_b".to_string() };
    assert!(survives_recovery(&comma));
}

#[test]
fn a_set_survives_where_each_export_does() {
    let names = |raw: &[&str]| -> Vec<String> { raw.iter().map(|s| s.to_string()).collect() };
    assert!(all_survive_recovery(&ExportSet::from_raw_names(&names(&["a", "b@4", "c d"]))));
    assert!(all_survive_recovery(&ExportSet::new()));
    assert!(!all_survive_recovery(&ExportSet::from_raw_names(&names(&[
        "a",
        "x, dll_handle, \"y",
    ]))));
}

#[test]
fn drawn_index_lines_are_read_as_the_pattern_reads_them() {
    let pattern = Regex::new(r"pub const Index_(.+): usize = ([0-9]+);").unwrap();
    let pieces = ["pub const Index_", ": usize = ", ";", "1", "07", "a", " ", ":", "usize", "="];
    let mut state: u64 = 0x9E37_79B9_7F4A_7C15;
    let mut next = move |bound: usize| -> usize {
        state = state.wrapping_mul(6364136223846793005).wrapping_add(1442695040888963407);
        ((state >> 33) as usize) % bound
    };
    let mut matched = 0;
    for i in 0..4000 {
        let length = 1 + next(8);
        let drawn: String = (0..length).map(|_| pieces[next(pieces.len())]).collect();
        let line = if i % 2 == 0 {
            format!("{}a{}{}", pieces[0], pieces[1], drawn)
        } else {
            drawn
        };
        let expected = pattern.captures(&line).map(|c| {
            (
                c.get(1).unwrap().as_str().trim().to_string(),
                c.get(2).unwrap().as_str().parse::<usize>().unwrap(),
            )
        });
        if expected.is_some() {
            matched += 1;
        }
        assert_eq!(declared(&line), expected, "{:?}", line);
    }
    assert!(matched > 50, "{}", matched);
}

#[test]
fn the_index_table_of_a_project_agrees_with_its_loader_table() {
    let raw: Vec<String> = ["Foo@4", "bar", "a-b", "a.b"].iter().map(|s| s.to_string()).collect();
    let set = ExportSet::from_raw_names(&raw);
    let templates = ProxyTemplates::new().unwrap();
    let indices = templates.get_export_indices(&set).unwrap();
    let loader = templates.get_orig_exports(&set).unwrap();
    assert!(indices_agree(&set, &indices));
    assert!(indices_agree(&proxygen::recover::recover_exports(&loader), &indices));
    assert!(indices_agree(&set, ""));
    assert!(indices_agree(&ExportSet::new(), "pub const TOTAL_EXPORTS: usize = 0;\n"));
}

#[test]
fn an_index_table_that_names_other_slots_does_not_agree() {
    let raw: Vec<String> = ["bar", "Foo"].iter().map(|s| s.to_string()).collect();
    let set = ExportSet::from_raw_names(&raw);
    assert!(indices_agree(&set, "pub const Index_bar: usize = 0;\npub const Index_Foo: usize = 1;\n"));
    assert!(!indices_agree(&set, "pub const Index_Foo: usize = 0;\npub const Index_bar: usize = 1;\n"));
    assert!(!indices_agree(&set, "pub const Index_bar: usize = 0;\npub const Index_Foo: usize = 2;\n"));
    assert!(!indices_agree(&set, "pub const Index_baz: usize = 1;\n"));
    assert!(!indices_agree(&set, &format!("pub const Index_bar: usize = {}0;\n", usize::MAX)));
    assert!(!indices_agree(&ExportSet::new(), "pub const Index_bar: usize = 0;\n"));
}
