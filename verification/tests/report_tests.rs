use tokount::aggregate::{Aggregate, FileInput};
use tokount::registry::registry;
use tokount::report::{run_on_files, Report};
use tokount::stats::{LanguageStats, LineCounts};

fn file(path: &[u8], content: &[u8]) -> FileInput {
    FileInput { path: path.to_vec(), content: content.to_vec() }
}

fn stats_of<'a>(r: &'a Report, name: &str) -> Option<&'a LanguageStats> {
    r.entries.iter().find(|e| e.name == name).map(|e| &e.stats)
}

#[test]
fn empty_batch_reports_only_a_zero_sum() {
    let reg = registry();
    let r = run_on_files(&reg, &vec![], &vec![]);
    assert!(r.entries.is_empty());
    assert_eq!(r.sum, LanguageStats { n_files: 0, blank: 0, comment: 0, code: 0 });
}

#[test]
fn sum_equals_the_entry_totals() {
    let reg = registry();
    let files = vec![
        file(b"a/main.rs", b"// top\nfn main() {}\n\n"),
        file(b"a/lib.rs", b"pub fn f() {}\n"),
        file(b"b/util.py", b"# util\nx = 1\n"),
    ];
    let r = run_on_files(&reg, &vec![], &files);
    let rust = stats_of(&r, "Rust").expect("rust entry");
    assert_eq!(*rust, LanguageStats { n_files: 2, blank: 1, comment: 1, code: 2 });
    let py = stats_of(&r, "Python").expect("python entry");
    assert_eq!(*py, LanguageStats { n_files: 1, blank: 0, comment: 1, code: 1 });
    let mut total = LanguageStats { n_files: 0, blank: 0, comment: 0, code: 0 };
    for e in r.entries.iter() {
        total.merge(&e.stats);
    }
    assert_eq!(r.sum, total);
    assert_eq!(r.sum, LanguageStats { n_files: 3, blank: 1, comment: 2, code: 3 });
}

#[test]
fn empty_file_still_counts_as_a_file() {
    let reg = registry();
    let files = vec![file(b"a/empty.rs", b""), file(b"a/full.rs", b"fn a() {}\n")];
    let r = run_on_files(&reg, &vec![], &files);
    let rust = stats_of(&r, "Rust").expect("rust entry");
    assert_eq!(*rust, LanguageStats { n_files: 2, blank: 0, comment: 0, code: 1 });
}

#[test]
fn languages_without_code_are_dropped() {
    let reg = registry();
    let files = vec![file(b"only.c", b"// nothing but comment\n\n")];
    let r = run_on_files(&reg, &vec![], &files);
    assert!(r.entries.is_empty());
    assert_eq!(r.sum, LanguageStats { n_files: 0, blank: 0, comment: 0, code: 0 });
}

fn clone_files(v: &Vec<FileInput>) -> Vec<FileInput> {
    v.iter().map(|f| FileInput { path: f.path.clone(), content: f.content.clone() }).collect()
}

#[test]
fn excluded_directories_reach_no_count() {
    let reg = registry();
    let excl = vec![b"vendor".to_vec()];
    let kept = vec![file(b"src/a.rs", b"fn a() {}\n")];
    let mut with_excluded = clone_files(&kept);
    with_excluded.push(file(b"vendor/b.rs", b"fn b() {}\nfn c() {}\n"));
    with_excluded.push(file(b"src/vendor/deep/c.rs", b"fn d() {}\n"));
    let r1 = run_on_files(&reg, &excl, &kept);
    let r2 = run_on_files(&reg, &excl, &with_excluded);
    assert_eq!(r1.sum, r2.sum);
    assert_eq!(r2.sum.n_files, 1);
    assert_eq!(r2.sum.code, 1);
}

#[test]
fn unmatched_and_undecodable_files_are_skipped() {
    let reg = registry();
    let files = vec![
        file(b"a.rs", b"fn a() {}\n"),
        file(b"notes.unknownext", b"whatever\n"),
        file(b"bad.rs", b"\xFF\xFE\n"),
    ];
    let r = run_on_files(&reg, &vec![], &files);
    assert_eq!(r.sum, LanguageStats { n_files: 1, blank: 0, comment: 0, code: 1 });
}

#[test]
fn file_order_does_not_change_the_report() {
    let reg = registry();
    let a = file(b"x.rs", b"fn a() {}\n// c\n");
    let b = file(b"y.py", b"x = 1\n");
    let c = file(b"z.rs", b"\nfn b() {}\n");
    let fwd = vec![
        FileInput { path: a.path.clone(), content: a.content.clone() },
        FileInput { path: b.path.clone(), content: b.content.clone() },
        FileInput { path: c.path.clone(), content: c.content.clone() },
    ];
    let rev = vec![c, b, a];
    let r1 = run_on_files(&reg, &vec![], &fwd);
    let r2 = run_on_files(&reg, &vec![], &rev);
    assert_eq!(r1.sum, r2.sum);
    for e in r1.entries.iter() {
        let other = r2.entries.iter().find(|o| o.name == e.name).expect("same languages");
        assert_eq!(e.stats, other.stats);
    }
    assert_eq!(r1.entries.len(), r2.entries.len());
}

#[test]
fn partitioned_aggregation_merges_to_the_same_report() {
    let reg = registry();
    let excl: Vec<Vec<u8>> = vec![];
    let part1 = vec![file(b"x.rs", b"fn a() {}\n")];
    let part2 = vec![file(b"y.rs", b"// c\nfn b() {}\n"), file(b"z.py", b"x = 1\n")];
    let mut agg1 = Aggregate::new(&reg);
    for f in part1.iter() {
        agg1.add_file(&reg, &excl, &f.path, &f.content);
    }
    let mut agg2 = Aggregate::new(&reg);
    for f in part2.iter() {
        agg2.add_file(&reg, &excl, &f.path, &f.content);
    }
    agg1.merge_with(&agg2);
    let merged = agg1.finalize(&reg);
    let mut all = clone_files(&part1);
    for f in part2.iter() {
        all.push(FileInput { path: f.path.clone(), content: f.content.clone() });
    }
    let whole = run_on_files(&reg, &excl, &all);
    assert_eq!(merged.sum, whole.sum);
    assert_eq!(merged.entries.len(), whole.entries.len());
    for (e1, e2) in merged.entries.iter().zip(whole.entries.iter()) {
        assert_eq!(e1.name, e2.name);
        assert_eq!(e1.stats, e2.stats);
    }
}

#[test]
fn merge_saturates_instead_of_wrapping() {
    let mut a = LanguageStats { n_files: usize::MAX - 1, blank: 0, comment: 0, code: usize::MAX };
    let b = LanguageStats { n_files: 5, blank: 1, comment: 0, code: 1 };
    a.merge(&b);
    assert_eq!(a.n_files, usize::MAX);
    assert_eq!(a.code, usize::MAX);
    assert_eq!(a.blank, 1);
}

#[test]
fn add_file_counts_one_file() {
    let mut s = LanguageStats { n_files: 0, blank: 0, comment: 0, code: 0 };
    s.add_file(&LineCounts { blank: 2, comment: 3, code: 4 });
    assert_eq!(s, LanguageStats { n_files: 1, blank: 2, comment: 3, code: 4 });
}
