use tokount::matcher::lookup;
use tokount::paths::{extension, file_name, path_excluded, split_names};
use tokount::registry::registry;

fn name_of(reg: &Vec<tokount::grammar::LanguageDef>, idx: usize) -> &str {
    reg[idx].name.as_str()
}

#[test]
fn extension_lookup_finds_rust() {
    let reg = registry();
    let i = lookup(&reg, b"src/main.rs").expect("match");
    assert_eq!(name_of(&reg, i), "Rust");
}

#[test]
fn exact_file_name_beats_extension() {
    let reg = registry();
    let i = lookup(&reg, b"proj/Makefile").expect("match");
    assert_eq!(name_of(&reg, i), "Makefile");
    let j = lookup(&reg, b"rules.mk").expect("match");
    assert_eq!(name_of(&reg, j), "Makefile");
}

#[test]
fn unknown_paths_have_no_language() {
    let reg = registry();
    assert!(lookup(&reg, b"a/b.unknownext").is_none());
    assert!(lookup(&reg, b"no_extension").is_none());
    assert!(lookup(&reg, b".gitignore").is_none());
}

#[test]
fn extension_match_is_case_sensitive() {
    let reg = registry();
    assert!(lookup(&reg, b"X.RS").is_none());
}

#[test]
fn file_name_takes_the_last_segment() {
    assert_eq!(file_name(b"a/b/c.rs"), b"c.rs".to_vec());
    assert_eq!(file_name(b"c.rs"), b"c.rs".to_vec());
    assert_eq!(file_name(b"a/b/"), b"".to_vec());
}

#[test]
fn extension_needs_a_dot_past_the_front() {
    assert_eq!(extension(b"a.rs"), Some(b"rs".to_vec()));
    assert_eq!(extension(b"a.b.c"), Some(b"c".to_vec()));
    assert_eq!(extension(b".gitignore"), None);
    assert_eq!(extension(b"nodot"), None);
    assert_eq!(extension(b".a.b"), Some(b"b".to_vec()));
}

#[test]
fn split_names_drops_empty_pieces() {
    let r = split_names(b"target,,node_modules,");
    assert_eq!(r, vec![b"target".to_vec(), b"node_modules".to_vec()]);
    assert_eq!(split_names(b""), Vec::<Vec<u8>>::new());
    assert_eq!(split_names(b",,"), Vec::<Vec<u8>>::new());
}

#[test]
fn whole_segments_decide_exclusion() {
    let excl = vec![b"target".to_vec()];
    assert!(path_excluded(b"src/target/x.rs", &excl));
    assert!(path_excluded(b"target/x.rs", &excl));
    assert!(path_excluded(b"src/target", &excl));
    assert!(!path_excluded(b"src/targets/x.rs", &excl));
    assert!(!path_excluded(b"src/untarget/x.rs", &excl));
    assert!(!path_excluded(b"src/tar/x.rs", &excl));
}

#[test]
fn exclusion_is_case_sensitive() {
    let excl = vec![b"Target".to_vec()];
    assert!(!path_excluded(b"src/target/x.rs", &excl));
    assert!(path_excluded(b"src/Target/x.rs", &excl));
}
