use proxygen::error::ProxyError;
use proxygen::export_set::ExportSet;
use proxygen::hooks::Arch;
use proxygen::image::{exports_of, get_exports, tame, DLLFile};

const SECTION_RVA: u32 = 0x1000;
const SECTION_OFFSET: usize = 0x200;

fn put16(image: &mut Vec<u8>, at: usize, value: u16) {
    image[at..at + 2].copy_from_slice(&value.to_le_bytes());
}

fn put32(image: &mut Vec<u8>, at: usize, value: u32) {
    image[at..at + 4].copy_from_slice(&value.to_le_bytes());
}

/// A library image with one section that holds an export table with the
/// names `names`; `ordinals[i]` is the place of the function of `names[i]`.
fn image_with(wide: bool, names: &[&[u8]], ordinals: &[u16], functions: u32) -> Vec<u8> {
    let mut image = vec![0u8; 0x600];
    // DOS header
    put16(&mut image, 0, 0x5A4D);
    put32(&mut image, 0x3C, 0x40);
    // NT headers
    put32(&mut image, 0x40, 0x0000_4550);
    let optional = 0x58;
    let optional_size: usize = if wide { 240 } else { 224 };
    put16(&mut image, 0x44, if wide { 0x8664 } else { 0x014C });
    put16(&mut image, 0x46, 1);
    put16(&mut image, 0x54, optional_size as u16);
    put16(&mut image, 0x56, 0x2102);
    put16(&mut image, optional, if wide { 0x020B } else { 0x010B });
    put32(&mut image, optional + 32, 0x1000);
    put32(&mut image, optional + 36, 0x200);
    put32(&mut image, optional + 56, 0x2000);
    put32(&mut image, optional + 60, 0x200);
    let directories = optional + if wide { 112 } else { 96 };
    put32(&mut image, directories - 4, 16);
    // section header
    let section = optional + optional_size;
    image[section..section + 6].copy_from_slice(b".rdata");
    put32(&mut image, section + 8, 0x400);
    put32(&mut image, section + 12, SECTION_RVA);
    put32(&mut image, section + 16, 0x400);
    put32(&mut image, section + 20, SECTION_OFFSET as u32);
    put32(&mut image, section + 36, 0x4000_0040);
    // export table
    let count = names.len() as u32;
    let functions_at = 40u32;
    let names_at = functions_at + 4 * functions;
    let ordinals_at = names_at + 4 * count;
    let mut text_at = ordinals_at + 2 * count;
    put32(&mut image, directories, SECTION_RVA);
    put32(&mut image, SECTION_OFFSET + 16, 1);
    put32(&mut image, SECTION_OFFSET + 20, functions);
    put32(&mut image, SECTION_OFFSET + 24, count);
    put32(&mut image, SECTION_OFFSET + 28, SECTION_RVA + functions_at);
    put32(&mut image, SECTION_OFFSET + 32, SECTION_RVA + names_at);
    put32(&mut image, SECTION_OFFSET + 36, SECTION_RVA + ordinals_at);
    for i in 0..functions as usize {
        put32(&mut image, SECTION_OFFSET + functions_at as usize + 4 * i, 0x1800 + 16 * i as u32);
    }
    for (i, name) in names.iter().enumerate() {
        put16(&mut image, SECTION_OFFSET + ordinals_at as usize + 2 * i, ordinals[i]);
        if name.is_empty() {
            continue;
        }
        put32(&mut image, SECTION_OFFSET + names_at as usize + 4 * i, SECTION_RVA + text_at);
        let at = SECTION_OFFSET + text_at as usize;
        image[at..at + name.len()].copy_from_slice(name);
        text_at += name.len() as u32 + 1;
    }
    put32(&mut image, directories + 4, text_at);
    image
}

fn originals(set: &ExportSet) -> Vec<String> {
    (0..set.len()).map(|i| set.get(i).original.clone()).collect()
}

#[test]
fn the_image_is_one_that_the_reader_accepts() {
    let image = image_with(true, &[b"Foo@4", b"bar"], &[0, 1], 2);
    let pe = exe::VecPE::from_disk_data(&image);
    let directory = exe::ExportDirectory::parse(&pe).unwrap();
    let map = directory.get_export_map(&pe).unwrap();
    let mut names: Vec<&str> = map.keys().copied().collect();
    names.sort();
    assert_eq!(names, vec!["Foo@4", "bar"]);
}

#[test]
fn exports_of_an_image_scenario() {
    let image = image_with(true, &[b"Foo@4", b"bar", b"DllMain"], &[0, 1, 2], 3);
    let set = get_exports(&image).unwrap();
    assert_eq!(originals(&set), vec!["bar", "Foo"]);
    assert_eq!(set.slot_of("bar"), Some(0));
    assert_eq!(set.slot_of("Foo"), Some(1));
}

#[test]
fn names_are_read_as_they_stand_in_the_table() {
    let image = image_with(false, &[b"zeta ", b"", b" Alpha", b"f@8"], &[3, 0, 1, 2], 4);
    let file = DLLFile::new(&image);
    assert_eq!(file.get_export_names(), Ok(vec![
        "zeta ".to_string(),
        " Alpha".to_string(),
        "f@8".to_string(),
    ]));
    assert_eq!(originals(&file.get_exports().unwrap()), vec!["Alpha", "f", "zeta"]);
}

#[test]
fn the_processor_is_read_from_the_headers() {
    assert_eq!(DLLFile::new(&image_with(true, &[b"a"], &[0], 1)).get_arch(), Ok(Arch::X64));
    assert_eq!(DLLFile::new(&image_with(false, &[b"a"], &[0], 1)).get_arch(), Ok(Arch::X86));
}

#[test]
fn an_unknown_processor_is_an_error() {
    let mut image = image_with(true, &[b"a"], &[0], 1);
    put16(&mut image, 0x58, 0x0107);
    assert_eq!(DLLFile::new(&image).get_arch(), Err(ProxyError::ArchitectureError));
    assert!(matches!(get_exports(&image), Err(ProxyError::ArchitectureError)));
    assert!(matches!(get_exports(&Vec::new()), Err(ProxyError::ArchitectureError)));
    assert!(matches!(get_exports(&vec![0x4D, 0x5A, 0, 0]), Err(ProxyError::ArchitectureError)));
}

#[test]
fn an_image_without_export_directory_is_an_error() {
    let mut image = image_with(true, &[b"a"], &[0], 1);
    let directories = 0x58 + 112;
    put32(&mut image, directories, 0);
    put32(&mut image, directories + 4, 0);
    assert!(matches!(get_exports(&image), Err(ProxyError::ParseError)));
    assert_eq!(DLLFile::new(&image).get_export_names(), Err(ProxyError::ParseError));
}

#[test]
fn a_name_without_function_is_an_error() {
    let image = image_with(true, &[b"a", b"b"], &[0, 7], 2);
    assert!(matches!(get_exports(&image), Err(ProxyError::ParseError)));
}

#[test]
fn an_export_table_without_names_gives_no_exports() {
    let image = image_with(true, &[], &[], 1);
    assert_eq!(get_exports(&image).unwrap().len(), 0);
}

#[test]
fn exports_are_made_of_what_the_reader_gives() {
    assert!(matches!(
        exports_of(None, Some(vec!["a".to_string()])),
        Err(ProxyError::ArchitectureError)
    ));
    assert!(matches!(exports_of(None, None), Err(ProxyError::ArchitectureError)));
    assert!(matches!(exports_of(Some(Arch::X86), None), Err(ProxyError::ParseError)));
    let set = exports_of(Some(Arch::X64), Some(vec!["b".to_string(), "a".to_string()])).unwrap();
    assert_eq!(originals(&set), vec!["a", "b"]);
}

#[test]
fn a_name_that_cannot_be_read_is_passed_over() {
    let mut image = image_with(true, &[b"a", b"b", b"c"], &[0, 9, 2], 3);
    // The second name points outside the image: it is no name, and the place
    // of its function is not looked at.
    let names_at = SECTION_OFFSET + 40 + 4 * 3;
    put32(&mut image, names_at + 4, 0xFFFF_0000);
    let file = DLLFile::new(&image);
    assert_eq!(file.get_export_names(), Ok(vec!["a".to_string(), "c".to_string()]));
    assert_eq!(originals(&file.get_exports().unwrap()), vec!["a", "c"]);
}

#[test]
fn the_same_bytes_give_the_same_exports() {
    let image = image_with(false, &[b"b", b"a@8", b"DllMain"], &[0, 1, 2], 3);
    let first = get_exports(&image).unwrap();
    let second = DLLFile::new(&image.clone()).get_exports().unwrap();
    assert_eq!(originals(&first), vec!["a", "b"]);
    assert_eq!(originals(&first), originals(&second));
}

const SECTION_HEADER: usize = 0x58 + 240;

#[test]
fn the_images_of_these_tests_are_tame() {
    assert!(tame(&image_with(true, &[b"a"], &[0], 1)));
    assert!(tame(&image_with(false, &[b"a", b"b"], &[0, 1], 2)));
    assert!(!tame(&Vec::new()));
    assert!(!tame(&vec![0u8; 63]));
    let mut no_sections = vec![0u8; 64];
    put32(&mut no_sections, 0x3C, 0x20);
    assert!(tame(&no_sections));
    put32(&mut no_sections, 0x3C, 0x2C);
    assert!(!tame(&no_sections));
}

#[test]
fn a_section_that_ends_beyond_all_addresses_makes_the_table_unreadable() {
    let mut image = image_with(true, &[b"a", b"b"], &[0, 1], 2);
    put32(&mut image, SECTION_HEADER + 8, 0xFFFF_FFFF);
    assert!(!tame(&image));
    let file = DLLFile::new(&image);
    assert_eq!(file.get_arch(), Ok(Arch::X64));
    assert_eq!(file.get_export_names(), Err(ProxyError::ParseError));
    assert!(matches!(get_exports(&image), Err(ProxyError::ParseError)));
}

#[test]
fn a_section_whose_data_ends_beyond_all_offsets_makes_the_table_unreadable() {
    let mut image = image_with(true, &[b"a"], &[0], 1);
    put32(&mut image, SECTION_HEADER + 16, 0xFFFF_FF00);
    assert!(!tame(&image));
    assert!(matches!(get_exports(&image), Err(ProxyError::ParseError)));
    let mut image = image_with(true, &[b"a"], &[0], 1);
    put32(&mut image, SECTION_HEADER + 20, 0xFFFF_FF00);
    assert!(!tame(&image));
    assert!(matches!(get_exports(&image), Err(ProxyError::ParseError)));
    let mut image = image_with(true, &[b"a"], &[0], 1);
    put32(&mut image, SECTION_HEADER + 20, 0x201);
    assert!(!tame(&image));
    assert!(matches!(get_exports(&image), Err(ProxyError::ParseError)));
}

#[test]
fn a_section_table_at_an_odd_place_makes_the_table_unreadable() {
    let mut image = image_with(true, &[b"a"], &[0], 1);
    put16(&mut image, 0x54, 241);
    assert!(!tame(&image));
    assert_eq!(DLLFile::new(&image).get_export_names(), Err(ProxyError::ParseError));
    let mut image = image_with(true, &[b"a"], &[0], 1);
    put16(&mut image, 0x46, 0xFFFF);
    assert!(!tame(&image));
    assert_eq!(DLLFile::new(&image).get_export_names(), Err(ProxyError::ParseError));
}

#[test]
fn name_ordinals_at_an_odd_address_make_the_table_unreadable() {
    let mut image = image_with(true, &[b"a", b"b"], &[0, 1], 2);
    let ordinals_at = 40 + 4 * 2 + 4 * 2;
    put32(&mut image, SECTION_OFFSET + 36, SECTION_RVA + ordinals_at + 1);
    assert!(tame(&image));
    assert_eq!(DLLFile::new(&image).get_export_names(), Err(ProxyError::ParseError));
    assert!(matches!(get_exports(&image), Err(ProxyError::ParseError)));
}
