use xyc::kind::FileKind;
use xyc::scan::{analyze_content, classify_line, FileStats, LineClass};

fn scan(k: FileKind, content: &str) -> FileStats {
    analyze_content(String::from("f"), k, content)
}

#[test]
fn empty_file_counts_zero() {
    for k in [FileKind::Xml, FileKind::Yang] {
        let s = scan(k, "");
        assert_eq!(s.lines, 0);
        assert_eq!(s.characters, 0);
        assert_eq!(s.blanks, 0);
        assert_eq!(s.comments, 0);
    }
}

#[test]
fn yang_example_counts() {
    let s = scan(FileKind::Yang, "// header\n\nleaf foo { type string; }\n/* trailing */\n");
    assert_eq!(s.lines, 4);
    assert_eq!(s.blanks, 1);
    assert_eq!(s.comments, 2);
    assert_eq!(s.lines - s.blanks - s.comments, 1);
    assert_eq!(s.file_type, FileKind::Yang);
}

#[test]
fn xml_single_comment_line() {
    let s = scan(FileKind::Xml, "<!-- note -->");
    assert_eq!(s.lines, 1);
    assert_eq!(s.comments, 1);
    assert_eq!(s.blanks, 0);
    assert_eq!(s.characters, 13);
}

#[test]
fn blank_and_comment_within_lines() {
    let text = "\n   \n<!-- a -->\n<x/> <!-- b -->\n<y>\n\t\n";
    let s = scan(FileKind::Xml, text);
    assert_eq!(s.lines, 6);
    assert_eq!(s.blanks, 3);
    assert_eq!(s.comments, 2);
    assert!(s.blanks + s.comments <= s.lines);
}

#[test]
fn path_and_kind_are_kept() {
    let s = analyze_content(String::from("dir/a.xml"), FileKind::Xml, "<a/>");
    assert_eq!(s.file_path, "dir/a.xml");
    assert_eq!(s.file_type, FileKind::Xml);
}

#[test]
fn characters_include_line_feeds() {
    let s = scan(FileKind::Yang, "ab\ncd\n");
    assert_eq!(s.characters, 6);
    assert_eq!(s.lines, 2);
}

#[test]
fn characters_count_scalar_values_not_bytes() {
    let s = scan(FileKind::Yang, "é✓\n");
    assert_eq!(s.characters, 3);
    assert_eq!(s.lines, 1);
}

#[test]
fn final_line_without_feed_is_counted() {
    let s = scan(FileKind::Yang, "a\nb");
    assert_eq!(s.lines, 2);
}

#[test]
fn lone_line_feed_is_one_blank_line() {
    let s = scan(FileKind::Xml, "\n");
    assert_eq!(s.lines, 1);
    assert_eq!(s.blanks, 1);
    assert_eq!(s.characters, 1);
}

#[test]
fn trailing_blank_lines_are_counted() {
    let s = scan(FileKind::Xml, "a\n\n\n");
    assert_eq!(s.lines, 3);
    assert_eq!(s.blanks, 2);
}

#[test]
fn crlf_lines_match_lf_lines() {
    let s = scan(FileKind::Yang, "// c\r\n\r\nleaf x;\r\n");
    assert_eq!(s.lines, 3);
    assert_eq!(s.comments, 1);
    assert_eq!(s.blanks, 1);
    assert_eq!(s.characters, 17);
}

#[test]
fn multi_line_comment_counts_opening_line_only() {
    let s = scan(FileKind::Yang, "/* one\n two\n*/\n");
    assert_eq!(s.lines, 3);
    assert_eq!(s.comments, 1);
    let x = scan(FileKind::Xml, "<!-- one\n two\n-->\n");
    assert_eq!(x.comments, 1);
}

#[test]
fn markers_of_the_other_format_are_code() {
    let s = scan(FileKind::Xml, "// not xml\n/* nor this */\n");
    assert_eq!(s.comments, 0);
    let y = scan(FileKind::Yang, "<!-- not yang -->\n");
    assert_eq!(y.comments, 0);
}

#[test]
fn classify_blank_lines() {
    assert_eq!(classify_line(FileKind::Xml, ""), LineClass::Blank);
    assert_eq!(classify_line(FileKind::Yang, " \t \r"), LineClass::Blank);
    assert_eq!(classify_line(FileKind::Yang, "\u{3000}\u{a0}"), LineClass::Blank);
}

#[test]
fn classify_xml_comment_anywhere() {
    assert_eq!(classify_line(FileKind::Xml, "  <!-- x"), LineClass::Comment);
    assert_eq!(classify_line(FileKind::Xml, "<a> <!-- x --> </a>"), LineClass::Comment);
    assert_eq!(classify_line(FileKind::Xml, "<!-"), LineClass::Code);
    assert_eq!(classify_line(FileKind::Xml, "<a>"), LineClass::Code);
}

#[test]
fn classify_yang_comment_at_start_only() {
    assert_eq!(classify_line(FileKind::Yang, "   // x"), LineClass::Comment);
    assert_eq!(classify_line(FileKind::Yang, "/* x"), LineClass::Comment);
    assert_eq!(classify_line(FileKind::Yang, "leaf a; // x"), LineClass::Code);
    assert_eq!(classify_line(FileKind::Yang, "/"), LineClass::Code);
    assert_eq!(classify_line(FileKind::Yang, "*/"), LineClass::Code);
}
