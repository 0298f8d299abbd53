use mdbook_chm::contents::Corpus;
use mdbook_chm::error::ChmError;
use mdbook_chm::markdown::load;
use mdbook_chm::markdown::rewrite_link_target;

#[test]
fn renders_page_from_template() {
    let corpus = Corpus::new();
    let (file, deps) = load("src/a.md", "# Title\n\nHello.", &corpus).unwrap();
    assert_eq!(file.path, "src/a.html");
    assert!(deps.is_empty());
    let html = String::from_utf8(file.contents).unwrap();
    assert!(html.contains("<h1>Title</h1>"));
    assert!(html.contains("<!DOCTYPE html>"));
    assert!(!html.contains("%BODY%"));
}

#[test]
fn image_becomes_dependency_with_parent_dir() {
    let corpus = Corpus::new();
    let (file, deps) = load("src/guide/a.md", "![x](img/pic.png)\n", &corpus).unwrap();
    assert_eq!(deps, vec!["src/guide/img/pic.png".to_string()]);
    let html = String::from_utf8(file.contents).unwrap();
    assert!(html.contains("img/pic.png"));
}

#[test]
fn network_image_is_not_a_dependency() {
    let corpus = Corpus::new();
    let (_, deps) = load("src/a.md", "![x](http://host/pic.png)\n", &corpus).unwrap();
    assert!(deps.is_empty());
}

#[test]
fn relative_markdown_link_rewritten_to_html() {
    let corpus = Corpus::new();
    let (file, _) = load("src/a.md", "[x](other.md)\n", &corpus).unwrap();
    let html = String::from_utf8(file.contents).unwrap();
    assert!(html.contains("href=\"other.html\""), "got: {html}");
}

#[test]
fn network_and_non_markdown_links_stay() {
    assert_eq!(rewrite_link_target("http://host/a.md"), "http://host/a.md");
    assert_eq!(rewrite_link_target("style.css"), "style.css");
    assert_eq!(rewrite_link_target("other.md"), "other.html");
    assert_eq!(rewrite_link_target("dir/other.md"), "dir/other.html");
}

#[test]
fn bare_quote_line_keeps_forced_break() {
    let corpus = Corpus::new();
    let (file, _) = load("src/a.md", "> quoted\n>\n> more\n", &corpus).unwrap();
    let html = String::from_utf8(file.contents).unwrap();
    assert!(html.contains("<blockquote>"));
}

#[test]
fn directive_pulls_text_from_corpus() {
    let mut corpus = Corpus::new();
    corpus.insert(
        "src/snippets/part.md".to_string(),
        b"included words".to_vec(),
    );
    let text = format!("before\n\n{}{}#include snippets/part.md{}{}\n\nafter", '{', '{', '}', '}');
    let (file, _) = load("src/a.md", &text, &corpus).unwrap();
    let html = String::from_utf8(file.contents).unwrap();
    assert!(html.contains("included words"), "got: {html}");
}

#[test]
fn missing_directive_file_fails_with_its_path() {
    let corpus = Corpus::new();
    let text = format!("{}{}#include gone.md{}{}", '{', '{', '}', '}');
    match load("src/a.md", &text, &corpus) {
        Err(ChmError::MissingFile(p)) => assert_eq!(p, "src/gone.md"),
        other => panic!("expected a missing-file failure, got {:?}", other.is_ok()),
    }
}

#[test]
fn non_text_directive_file_fails_with_its_path() {
    let mut corpus = Corpus::new();
    corpus.insert("src/bad.md".to_string(), vec![0xff, 0xfe, 0xfd]);
    let text = format!("{}{}#include bad.md{}{}", '{', '{', '}', '}');
    match load("src/a.md", &text, &corpus) {
        Err(ChmError::InvalidText(p)) => assert_eq!(p, "src/bad.md"),
        other => panic!("expected an invalid-text failure, got ok={}", other.is_ok()),
    }
}
