use mdbook_chm::contents::File;
use mdbook_chm::hhc::ChmContents;
use mdbook_chm::hhc::ChmContentsEntry;
use mdbook_chm::hhk::ChmIndex;
use mdbook_chm::hhk::ChmIndexEntry;
use mdbook_chm::hhp::ChmProject;
use mdbook_chm::language::ChmLanguage;

fn entry(title: &str, file: &str) -> ChmContentsEntry {
    ChmContentsEntry {
        title: title.to_string(),
        file: file.to_string(),
        children: Vec::new(),
        files: Vec::new(),
    }
}

#[test]
fn index_entry_line() {
    let e = ChmIndexEntry { keyword: "A & B".to_string(), file: "a.html".to_string() };
    assert_eq!(
        e.to_text(),
        "    <LI> <OBJECT type=\"text/sitemap\">        <param name=\"Name\" value=\"A &amp; B\">        <param name=\"Local\" value=\"a.html\">        </OBJECT>"
    );
}

#[test]
fn index_file_text() {
    let idx = ChmIndex(vec![ChmIndexEntry {
        keyword: "K".to_string(),
        file: "k.html".to_string(),
    }]);
    let text = idx.to_text();
    assert!(text.starts_with("<!DOCTYPE HTML PUBLIC \"-//IETF//DTD HTML//EN\"><HTML><HEAD>"));
    assert!(text.contains("\n<UL>\n"));
    assert!(text.contains("value=\"K\""));
    assert!(text.ends_with("\n</UL>\n</BODY></HTML>"));
}

#[test]
fn contents_tree_nesting() {
    let mut a = entry("A", "a.html");
    a.children.push(entry("B", "b.html"));
    let contents = ChmContents(vec![a]);
    let text = contents.to_text();
    let expected_a = "\t<LI><OBJECT type=\"text/sitemap\">\n\t\t<param name=\"Name\" value=\"A\">\n\t\t<param name=\"Local\" value=\"a.html\">\n\t</OBJECT>\n\t<UL>\n\t\t<LI><OBJECT type=\"text/sitemap\">\n\t\t\t<param name=\"Name\" value=\"B\">\n\t\t\t<param name=\"Local\" value=\"b.html\">\n\t\t</OBJECT>\n\t</UL>";
    assert!(text.contains(expected_a), "got: {text}");
}

#[test]
fn contents_entry_escapes_values() {
    let e = entry("A<b>", "a&b.html");
    let text = e.format("\t");
    assert!(text.contains("value=\"A&lt;b&gt;\""));
    assert!(text.contains("value=\"a&amp;b.html\""));
}

#[test]
fn flatten_puts_descendants_first() {
    let mut a = entry("A", "a.html");
    let mut b = entry("B", "b.html");
    b.children.push(entry("C", "c.html"));
    a.children.push(b);
    a.children.push(entry("D", "d.html"));
    let flat = a.flatten();
    let titles: Vec<&str> = flat.iter().map(|e| e.title.as_str()).collect();
    assert_eq!(titles, vec!["C", "B", "D", "A"]);
    assert_eq!(flat.len(), 4);
    for e in &flat {
        assert!(e.children.is_empty());
    }
}

#[test]
fn project_manifest_schema() {
    let p = ChmProject {
        title: "My Book".to_string(),
        language: ChmLanguage::EnUs,
        output_path: "book.chm".to_string(),
        index_path: "src\\index.hhk".to_string(),
        contents_path: "src\\contents.hhc".to_string(),
        default_file: "src\\a.html".to_string(),
        files: vec!["src\\a.html".to_string(), "src\\b.html".to_string()],
    };
    let text = p.to_text();
    let expected = "[OPTIONS]\nBinary TOC=Yes\nCompatibility=1.1 or later\nCompiled file=book.chm\nContents file=src\\contents.hhc\nDefault topic=src\\a.html\nDisplay compile progress=Yes\nEnhanced decompilation=Yes\nFull-text search=Yes\nIndex file=src\\index.hhk\nLanguage=409 English (United States)\nTitle=My Book\n\n\n[FILES]\nsrc\\a.html\nsrc\\b.html\n\n[INFOTYPES]";
    assert_eq!(text, expected);
}

#[test]
fn file_kind_checks() {
    let f = File { path: "a.html".to_string(), contents: b"<p>x</p>".to_vec() };
    assert!(f.is_html());
    assert_eq!(f.str_contents(), Some("<p>x</p>".to_string()));
    let raw = File { path: "pic.png".to_string(), contents: vec![1, 2, 3] };
    assert!(!raw.is_html());
    assert_eq!(raw.str_contents(), None);
    let bad = File { path: "b.html".to_string(), contents: vec![0xff, 0xfe] };
    assert_eq!(bad.str_contents(), None);
}

#[test]
fn whole_contents_flatten_covers_both_roots() {
    let mut a = entry("A", "a.html");
    a.children.push(entry("B", "b.html"));
    let c = entry("C", "c.html");
    let contents = ChmContents(vec![a, c]);
    let flat = contents.flatten();
    let titles: Vec<&str> = flat.iter().map(|e| e.title.as_str()).collect();
    assert_eq!(titles, vec!["B", "A", "C"]);
}

#[test]
fn contents_file_has_site_properties_header() {
    let contents = ChmContents(vec![entry("A", "a.html")]);
    let text = contents.to_text();
    assert!(text.starts_with("<!DOCTYPE HTML PUBLIC \"-//IETF//DTD HTML//EN\"><HTML><HEAD>"));
    assert!(text.contains("<OBJECT type=\"text/site properties\">"));
    assert!(text.contains("value=\"0x800025\""));
    assert!(text.ends_with("\n</UL>\n</BODY></HTML>"));
}
