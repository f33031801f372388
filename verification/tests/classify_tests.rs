use tokount::classify::{classify_file, classify_lines};
use tokount::grammar::LanguageDef;
use tokount::registry::registry;

fn lang_for(path: &[u8]) -> (Vec<LanguageDef>, usize) {
    let reg = registry();
    let idx = tokount::matcher::lookup(&reg, path).expect("language expected");
    (reg, idx)
}

#[test]
fn three_line_file_with_line_comment() {
    let (reg, i) = lang_for(b"x.rs");
    let c = classify_lines(&reg[i], b"// header\n\ncode();\n");
    assert_eq!(c.comment, 1);
    assert_eq!(c.blank, 1);
    assert_eq!(c.code, 1);
}

#[test]
fn unterminated_block_comment_is_tolerated() {
    let (reg, i) = lang_for(b"x.rs");
    let c = classify_lines(&reg[i], b"/* abc");
    assert_eq!(c.comment, 1);
    assert_eq!(c.code, 0);
    assert_eq!(c.blank, 0);
}

#[test]
fn empty_file_counts_nothing() {
    let (reg, i) = lang_for(b"x.rs");
    let c = classify_lines(&reg[i], b"");
    assert_eq!((c.blank, c.comment, c.code), (0, 0, 0));
}

#[test]
fn single_unterminated_code_line() {
    let (reg, i) = lang_for(b"x.rs");
    let c = classify_lines(&reg[i], b"x");
    assert_eq!((c.blank, c.comment, c.code), (0, 0, 1));
}

#[test]
fn whitespace_only_lines_are_blank() {
    let (reg, i) = lang_for(b"x.rs");
    let c = classify_lines(&reg[i], b"   \n\t \n");
    assert_eq!((c.blank, c.comment, c.code), (2, 0, 0));
}

#[test]
fn classifier_is_idempotent() {
    let (reg, i) = lang_for(b"x.rs");
    let content = b"// a\nfn main() {}\n\n/* b\n   c */\n\"s\n\" ;\n";
    let c1 = classify_lines(&reg[i], content);
    let c2 = classify_lines(&reg[i], content);
    assert_eq!((c1.blank, c1.comment, c1.code), (c2.blank, c2.comment, c2.code));
}

#[test]
fn counts_total_the_physical_lines() {
    let (reg, i) = lang_for(b"x.rs");
    let cases: Vec<&[u8]> = vec![
        b"",
        b"x",
        b"\n",
        b"// a\nb\n",
        b"/* a\nb */ c\nd",
        b"\"s\\\"t\n\nu\" v\n",
    ];
    let lines: Vec<usize> = vec![0, 1, 1, 2, 3, 3];
    for (content, want) in cases.iter().zip(lines.iter()) {
        let c = classify_lines(&reg[i], content);
        assert_eq!(c.blank + c.comment + c.code, *want);
    }
}

#[test]
fn nested_block_comments_in_rust() {
    let (reg, i) = lang_for(b"x.rs");
    // The inner close leaves the depth at one, so `x` is still comment.
    let c = classify_lines(&reg[i], b"/* /* */ x\n");
    assert_eq!((c.blank, c.comment, c.code), (0, 1, 0));
}

#[test]
fn unnested_block_comments_in_c() {
    let (reg, i) = lang_for(b"x.c");
    // The first close ends the comment, so `x` is code.
    let c = classify_lines(&reg[i], b"/* /* */ x\n");
    assert_eq!((c.blank, c.comment, c.code), (0, 0, 1));
}

#[test]
fn strings_shield_comment_markers() {
    let (reg, i) = lang_for(b"x.rs");
    let c = classify_lines(&reg[i], b"let s = \"// not a comment\";\n");
    assert_eq!((c.blank, c.comment, c.code), (0, 0, 1));
}

#[test]
fn escapes_keep_the_string_open() {
    let (reg, i) = lang_for(b"x.rs");
    // The escaped quote does not end the string, so the marker stays inert.
    let c = classify_lines(&reg[i], b"let s = \"a\\\" // b\";\n");
    assert_eq!((c.blank, c.comment, c.code), (0, 0, 1));
}

#[test]
fn trailing_comment_counts_as_code() {
    let (reg, i) = lang_for(b"x.rs");
    let c = classify_lines(&reg[i], b"work(); // done\n");
    assert_eq!((c.blank, c.comment, c.code), (0, 0, 1));
}

#[test]
fn code_after_block_close_wins() {
    let (reg, i) = lang_for(b"x.c");
    let c = classify_lines(&reg[i], b"/* c */ x();\n");
    assert_eq!((c.blank, c.comment, c.code), (0, 0, 1));
}

#[test]
fn carried_block_comment_lines() {
    let (reg, i) = lang_for(b"x.c");
    let c = classify_lines(&reg[i], b"/*\n*/\n");
    assert_eq!((c.blank, c.comment, c.code), (0, 2, 0));
}

#[test]
fn multiline_string_counts_as_code() {
    let (reg, i) = lang_for(b"x.rs");
    let c = classify_lines(&reg[i], b"let s = \"a\nb\";\n");
    assert_eq!((c.blank, c.comment, c.code), (0, 0, 2));
}

#[test]
fn hash_comments_in_python() {
    let (reg, i) = lang_for(b"x.py");
    let c = classify_lines(&reg[i], b"# a\nprint(1)  # b\n\n");
    assert_eq!((c.blank, c.comment, c.code), (1, 1, 1));
}

#[test]
fn html_block_comments() {
    let (reg, i) = lang_for(b"x.html");
    let c = classify_lines(&reg[i], b"<!-- hidden\nstill hidden -->\n<p>hi</p>\n");
    assert_eq!((c.blank, c.comment, c.code), (0, 2, 1));
}

#[test]
fn backtick_strings_shield_markers_in_go() {
    let (reg, i) = lang_for(b"x.go");
    let c = classify_lines(&reg[i], b"s := `a // b\nc`\n// real comment\n");
    assert_eq!((c.blank, c.comment, c.code), (0, 1, 2));
}

#[test]
fn json_has_no_comments() {
    let (reg, i) = lang_for(b"x.json");
    let c = classify_lines(&reg[i], b"{\n  \"a\": 1\n}\n");
    assert_eq!((c.blank, c.comment, c.code), (0, 0, 3));
}

#[test]
fn classify_file_accepts_utf8() {
    let (reg, i) = lang_for(b"x.rs");
    let c = classify_file(&reg[i], "// caf\u{e9}\nok();\n".as_bytes()).expect("valid text");
    assert_eq!((c.blank, c.comment, c.code), (0, 1, 1));
}

#[test]
fn classify_file_refuses_bad_bytes() {
    let (reg, i) = lang_for(b"x.rs");
    let r = classify_file(&reg[i], b"ok();\n\xFF\xFE\n");
    assert!(r.is_err());
}
