use mdbook_chm::keyworder::Keyworder;

#[test]
fn disjoint_documents_all_words_visible() {
    let mut k = Keyworder::new();
    k.process("a.md", "alpha beta");
    k.process("b.md", "gamma delta");
    let visible = k.visible_keywords();
    let words: Vec<&str> = visible.iter().map(|p| p.keyword.as_str()).collect();
    assert_eq!(words, vec!["alpha", "beta", "delta", "gamma"]);
    for p in &visible {
        assert_eq!(p.seen_in.len(), 1);
    }
}

#[test]
fn identical_documents_nothing_visible() {
    let mut k = Keyworder::new();
    k.process("a.md", "same words here");
    k.process("b.md", "same words here");
    assert!(k.visible_keywords().is_empty());
}

#[test]
fn repeated_word_in_one_document_counts_once() {
    let mut k = Keyworder::new();
    k.process("a.md", "dup dup dup other");
    let visible = k.visible_keywords();
    let words: Vec<&str> = visible.iter().map(|p| p.keyword.as_str()).collect();
    assert_eq!(words, vec!["dup", "other"]);
    assert_eq!(visible[0].seen_in, vec!["a.md".to_string()]);
}

#[test]
fn shared_words_are_hidden_others_stay() {
    let mut k = Keyworder::new();
    k.process("a.md", "shared only-a");
    k.process("b.md", "shared only-b");
    let visible = k.visible_keywords();
    let words: Vec<&str> = visible.iter().map(|p| p.keyword.as_str()).collect();
    assert_eq!(words, vec!["only-a", "only-b"]);
}

#[test]
fn visible_keywords_sorted_lexicographically() {
    let mut k = Keyworder::new();
    k.process("a.md", "zebra apple Mango");
    let visible = k.visible_keywords();
    let words: Vec<&str> = visible.iter().map(|p| p.keyword.as_str()).collect();
    // code-point order puts upper case first
    assert_eq!(words, vec!["Mango", "apple", "zebra"]);
}
