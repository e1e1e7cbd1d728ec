use xyc::error::AnalyzeError;
use xyc::kind::FileKind;
use xyc::scan::{analyze_content, FileStats};
use xyc::summary::summarize;
use xyc::walk::{plan_walk, Walk};

fn rec(path: &str, k: FileKind, content: &str) -> FileStats {
    analyze_content(String::from(path), k, content)
}

#[test]
fn summary_matches_records() {
    let records = vec![
        rec("b.yang", FileKind::Yang, "// a\n\nleaf x;\n"),
        rec("a.xml", FileKind::Xml, "<!-- c -->\n<a/>\n"),
        rec("c.xml", FileKind::Xml, "\n\n"),
    ];
    let s = summarize(&records).unwrap();
    assert_eq!(s.rows.len(), 2);
    assert_eq!(s.rows[0].file_type, FileKind::Xml);
    let x = s.rows[0].totals;
    assert_eq!(x.files, 2);
    assert_eq!(x.lines, records[1].lines + records[2].lines);
    assert_eq!(x.lines, 4);
    assert_eq!(x.characters, 18);
    assert_eq!(x.comments, 1);
    assert_eq!(x.blanks, 2);
    assert_eq!(s.rows[1].file_type, FileKind::Yang);
    let y = s.rows[1].totals;
    assert_eq!(y.files, 1);
    assert_eq!(y.lines, 3);
    assert_eq!(y.characters, 14);
    assert_eq!(y.comments, 1);
    assert_eq!(y.blanks, 1);
    assert_eq!(s.total.files, 3);
    assert_eq!(s.total.lines, 7);
    assert_eq!(s.total.characters, 32);
    assert_eq!(s.total.comments, 2);
    assert_eq!(s.total.blanks, 3);
}

#[test]
fn summary_of_one_kind_has_one_row() {
    let records = vec![rec("a.yang", FileKind::Yang, "x\n")];
    let s = summarize(&records).unwrap();
    assert_eq!(s.rows.len(), 1);
    assert_eq!(s.rows[0].file_type, FileKind::Yang);
    assert_eq!(s.rows[0].totals, s.total);
}

#[test]
fn summary_of_no_records_is_empty() {
    let s = summarize(&Vec::new()).unwrap();
    assert_eq!(s.rows.len(), 0);
    assert_eq!(s.total.files, 0);
    assert_eq!(s.total.lines, 0);
}

#[test]
fn summary_overflow_gives_none() {
    let mut a = rec("a.xml", FileKind::Xml, "");
    a.characters = usize::MAX;
    let b = rec("b.yang", FileKind::Yang, "x");
    assert!(summarize(&vec![a.clone()]).is_some());
    assert!(summarize(&vec![a, b]).is_none());
}

#[test]
fn missing_path_message() {
    let e = AnalyzeError::PathNotFound { path: String::from("nope/dir") };
    assert_eq!(e.message(), "路径不存在或无法访问: nope/dir");
}

#[test]
fn read_error_messages_give_the_reason() {
    let e = AnalyzeError::FileRead { path: String::from("a.xml"), reason: String::from("denied") };
    assert_eq!(e.message(), "denied");
    let d = AnalyzeError::DirectoryRead { path: String::from("d"), reason: String::from("gone") };
    assert_eq!(d.message(), "gone");
}

#[test]
fn walk_plan_for_a_file() {
    assert_eq!(plan_walk("a.xml", true, false, false).unwrap(), Walk::OneFile);
    assert_eq!(plan_walk("a.xml", true, false, true).unwrap(), Walk::OneFile);
}

#[test]
fn walk_plan_for_a_directory() {
    assert_eq!(plan_walk("d", false, true, false).unwrap(), Walk::Listing);
    assert_eq!(plan_walk("d", false, true, true).unwrap(), Walk::Tree);
}

#[test]
fn walk_plan_for_a_missing_path() {
    match plan_walk("no/such", false, false, true) {
        Err(AnalyzeError::PathNotFound { path }) => assert_eq!(path, "no/such"),
        other => panic!("unexpected {:?}", other),
    }
}
