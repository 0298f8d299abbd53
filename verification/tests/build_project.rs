use mdbook_chm::book::as_chm;
use mdbook_chm::book::topics;
use mdbook_chm::book::Chapter;
use mdbook_chm::book::MdbookChmConfig;
use mdbook_chm::builder::ChmBuilder;
use mdbook_chm::builder::ChmTopicBuilder;
use mdbook_chm::contents::Corpus;
use mdbook_chm::contents::File;
use mdbook_chm::contents::IncludedFiles;
use mdbook_chm::error::ChmError;
use mdbook_chm::language::ChmLanguage;

fn chapter(name: &str, path: Option<&str>, content: &str, subs: Vec<Chapter>) -> Chapter {
    Chapter {
        name: name.to_string(),
        source_path: path.map(|p| p.to_string()),
        content: content.to_string(),
        sub_items: subs,
    }
}

#[test]
fn two_level_tree_produces_all_three_artifacts() {
    let corpus = Corpus::new();
    let chapters = vec![chapter(
        "A",
        Some("a.md"),
        "# A",
        vec![chapter("B", Some("b.md"), "# B", vec![])],
    )];
    let config = MdbookChmConfig::default();
    let builder = as_chm("Book", &config, "out", &chapters, &corpus).unwrap();
    let files = builder.output_files();
    let paths: Vec<&str> = files.iter().map(|f| f.path.as_str()).collect();
    assert_eq!(paths[0], "out/src/project.hpp");
    assert_eq!(paths[1], "out\\src\\contents.hhc");
    assert_eq!(paths[2], "out\\src\\index.hhk");
    // the two rendered pages, children first (flatten order)
    assert_eq!(paths[3], "out/src/src/b.html");
    assert_eq!(paths[4], "out/src/src/a.html");

    let manifest = String::from_utf8(files[0].contents.clone()).unwrap();
    assert!(manifest.contains("[FILES]\nsrc\\b.html\nsrc\\a.html\n"), "got: {manifest}");
    assert!(manifest.contains("Default topic=src\\a.html\n"));
    assert!(manifest.contains("Title=Book\n"));
    assert!(manifest.contains("Language=409 English (United States)\n"));

    let contents = String::from_utf8(files[1].contents.clone()).unwrap();
    // one top-level entry holding one nested entry
    assert_eq!(contents.matches("<LI>").count(), 2);
    let a_pos = contents.find("value=\"A\"").unwrap();
    let ul_pos = contents[a_pos..].find("<UL>").unwrap();
    let b_pos = contents[a_pos..].find("value=\"B\"").unwrap();
    assert!(ul_pos < b_pos);

    let index = String::from_utf8(files[2].contents.clone()).unwrap();
    assert_eq!(index.matches("<LI>").count(), 2);
    assert!(index.contains("value=\"A\""));
    assert!(index.contains("value=\"B\""));
}

#[test]
fn duplicate_source_yields_one_topic() {
    let corpus = Corpus::new();
    let chapters = vec![
        chapter("First", Some("same.md"), "# One", vec![]),
        chapter("Second", Some("same.md"), "# Two", vec![]),
    ];
    let ts = topics(&chapters, &corpus).unwrap();
    assert_eq!(ts.len(), 1);
    assert_eq!(ts[0].0.title, "First");
}

#[test]
fn chapter_without_source_hoists_children() {
    let corpus = Corpus::new();
    let chapters = vec![chapter(
        "Part",
        None,
        "",
        vec![
            chapter("A", Some("a.md"), "# A", vec![]),
            chapter("B", Some("b.md"), "# B", vec![]),
        ],
    )];
    let ts = topics(&chapters, &corpus).unwrap();
    assert_eq!(ts.len(), 2);
    assert_eq!(ts[0].0.title, "A");
    assert_eq!(ts[1].0.title, "B");
}

#[test]
fn unknown_language_falls_back_to_default() {
    let corpus = Corpus::new();
    let config = MdbookChmConfig {
        language_code: "xx-unknown".to_string(),
        output_path: "book.chm".to_string(),
    };
    let builder = as_chm("B", &config, "out", &vec![], &corpus).unwrap();
    let files = builder.output_files();
    let manifest = String::from_utf8(files[0].contents.clone()).unwrap();
    assert!(manifest.contains("Language=409 English (United States)\n"));
}

#[test]
fn builder_derives_companion_paths() {
    let b = ChmBuilder::new("T", ChmLanguage::EnUs, "dir/book");
    let files = b.output_files();
    assert_eq!(files[0].path, "dir/src/project.hpp");
    let manifest = String::from_utf8(files[0].contents.clone()).unwrap();
    assert!(manifest.contains("Compiled file=dir\\book.chm\n"));
    assert!(manifest.contains("Contents file=dir\\src\\contents.hhc\n"));
    assert!(manifest.contains("Index file=dir\\src\\index.hhk\n"));
}

#[test]
fn first_topic_with_files_sets_default() {
    let corpus = Corpus::new();
    let mut b = ChmBuilder::new("T", ChmLanguage::EnUs, "book.chm");
    let t1 = ChmTopicBuilder::new("A", "a.md", b"# A".to_vec(), &corpus).unwrap();
    let t2 = ChmTopicBuilder::new("B", "b.md", b"# B".to_vec(), &corpus).unwrap();
    b.with_contents(t1);
    b.with_contents(t2);
    let files = b.output_files();
    let manifest = String::from_utf8(files[0].contents.clone()).unwrap();
    assert!(manifest.contains("Default topic=a.html\n"));
}

#[test]
fn image_dependency_is_written_to_output_tree() {
    let mut corpus = Corpus::new();
    corpus.insert("src/img/pic.png".to_string(), vec![9, 9, 9]);
    let chapters = vec![chapter("A", Some("a.md"), "![x](img/pic.png)", vec![])];
    let config = MdbookChmConfig::default();
    let builder = as_chm("Book", &config, "out", &chapters, &corpus).unwrap();
    let files = builder.output_files();
    let dep = files
        .iter()
        .find(|f| f.path == "out/src/src/img/pic.png")
        .expect("dependency file present");
    assert_eq!(dep.contents, vec![9, 9, 9]);
}

#[test]
fn missing_image_dependency_fails_build() {
    let corpus = Corpus::new();
    let chapters = vec![chapter("A", Some("a.md"), "![x](img/pic.png)", vec![])];
    let config = MdbookChmConfig::default();
    let r = as_chm("Book", &config, "out", &chapters, &corpus);
    assert!(r.is_err());
    let msg = r.err().unwrap().message();
    assert_eq!(msg, "File not found: src/img/pic.png");
}

#[test]
fn mutually_dependent_documents_report_a_cycle() {
    let mut corpus = Corpus::new();
    corpus.insert("a.md".to_string(), b"![x](b.md)".to_vec());
    corpus.insert("b.md".to_string(), b"![x](a.md)".to_vec());
    let r = ChmTopicBuilder::new("A", "a.md", b"![x](b.md)".to_vec(), &corpus);
    assert!(matches!(r, Err(ChmError::DependencyCycle(_))));
}

#[test]
fn markdown_dependency_is_rendered_in_turn() {
    let mut corpus = Corpus::new();
    corpus.insert("note.md".to_string(), b"# Note".to_vec());
    let t = ChmTopicBuilder::new("A", "a.md", b"![x](note.md)".to_vec(), &corpus).unwrap();
    let paths: Vec<&str> = t.0.files.iter().map(|f| f.path.as_str()).collect();
    assert_eq!(paths, vec!["note.html", "a.html"]);
    let note = String::from_utf8(t.0.files[0].contents.clone()).unwrap();
    assert!(note.contains("<h1>Note</h1>"));
}

#[test]
fn corpus_keeps_the_earliest_entry_for_a_path() {
    let mut corpus = Corpus::new();
    corpus.insert("p".to_string(), vec![1]);
    corpus.insert("p".to_string(), vec![2]);
    assert_eq!(corpus.get("p"), Some(&vec![1]));
    assert_eq!(corpus.get("q"), None);
}

#[test]
fn file_sets_append_in_order() {
    let mut a = IncludedFiles::new();
    let mut b = IncludedFiles::default();
    a.add_file("x.txt", vec![1], &Corpus::new(), 8).unwrap();
    b.add_file("y.txt", vec![2], &Corpus::new(), 8).unwrap();
    a.append(b);
    let paths: Vec<&str> = a.files.iter().map(|f| f.path.as_str()).collect();
    assert_eq!(paths, vec!["x.txt", "y.txt"]);
    let copy: Vec<File> = a.files.iter().map(|f| f.clone()).collect();
    assert_eq!(copy[0].contents, vec![1]);
}

#[test]
fn error_messages_name_the_path() {
    assert_eq!(
        ChmError::MissingFile("a/b".to_string()).message(),
        "File not found: a/b"
    );
    assert_eq!(
        ChmError::InvalidText("x".to_string()).message(),
        "File is not valid UTF-8: x"
    );
    assert_eq!(
        ChmError::DependencyCycle("y".to_string()).message(),
        "Dependency cycle while processing: y"
    );
}
