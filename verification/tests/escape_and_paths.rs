use mdbook_chm::utilities::escape_html;
use mdbook_chm::utilities::extension_of;
use mdbook_chm::utilities::is_absolute_path;
use mdbook_chm::utilities::join_path;
use mdbook_chm::utilities::parent_of;
use mdbook_chm::utilities::replace_all;
use mdbook_chm::utilities::starts_with_str;
use mdbook_chm::utilities::to_windows_path;
use mdbook_chm::utilities::with_extension;

#[test]
fn escape_all_five_specials() {
    assert_eq!(escape_html("&"), "&amp;");
    assert_eq!(escape_html("<"), "&lt;");
    assert_eq!(escape_html(">"), "&gt;");
    assert_eq!(escape_html("\""), "&quot;");
    assert_eq!(escape_html("'"), "&apos;");
}

#[test]
fn escape_mixed_text() {
    assert_eq!(
        escape_html("Tom & Jerry <say> \"hi\" y'all"),
        "Tom &amp; Jerry &lt;say&gt; &quot;hi&quot; y&apos;all"
    );
    assert_eq!(escape_html("plain text stays"), "plain text stays");
    assert_eq!(escape_html(""), "");
}

#[test]
fn escaped_output_has_no_unescaped_specials() {
    let out = escape_html("a<&>'\"b&&<<");
    for c in out.chars() {
        assert!(c != '<' && c != '>' && c != '"' && c != '\'');
    }
    // every ampersand begins one of the five entities
    let bytes: Vec<char> = out.chars().collect();
    for (i, c) in bytes.iter().enumerate() {
        if *c == '&' {
            let rest: String = bytes[i..].iter().collect();
            assert!(
                rest.starts_with("&amp;")
                    || rest.starts_with("&lt;")
                    || rest.starts_with("&gt;")
                    || rest.starts_with("&quot;")
                    || rest.starts_with("&apos;")
            );
        }
    }
}

#[test]
fn windows_paths_use_backslashes() {
    assert_eq!(to_windows_path("a/b/c.html"), "a\\b\\c.html");
    assert_eq!(to_windows_path("no_sep.html"), "no_sep.html");
    assert_eq!(to_windows_path("already\\win"), "already\\win");
}

#[test]
fn extension_handling() {
    assert_eq!(extension_of("a/b/c.md"), Some("md".to_string()));
    assert_eq!(extension_of("a.tar.gz"), Some("gz".to_string()));
    assert_eq!(extension_of("noext"), None);
    assert_eq!(extension_of("dir.v1/noext"), None);
    assert_eq!(extension_of(".hidden"), None);
    assert_eq!(with_extension("book", "chm"), "book.chm");
    assert_eq!(with_extension("book.md", "html"), "book.html");
    assert_eq!(with_extension("dir/book.md", "html"), "dir/book.html");
}

#[test]
fn parents_and_joins() {
    assert_eq!(parent_of("a/b/c"), "a/b");
    assert_eq!(parent_of("c"), "");
    assert_eq!(parent_of(""), ".");
    assert_eq!(parent_of("/x"), "/");
    assert_eq!(join_path("a", "b"), "a/b");
    assert_eq!(join_path("", "b"), "b");
    assert_eq!(join_path("a/", "b"), "a/b");
    assert_eq!(join_path("a", "/abs"), "/abs");
    assert!(is_absolute_path("/x"));
    assert!(is_absolute_path("C:\\x"));
    assert!(!is_absolute_path("x/y"));
}

#[test]
fn replace_all_cases() {
    assert_eq!(replace_all("a>b>c", ">", "-"), "a-b-c");
    assert_eq!(replace_all(">\n>\n", ">\n", ">  \n"), ">  \n>  \n");
    assert_eq!(replace_all("aaaa", "aa", "b"), "bb");
    assert_eq!(replace_all("abc", "x", "y"), "abc");
    assert_eq!(replace_all("abc", "", "y"), "abc");
    assert!(starts_with_str("http://x", "http"));
    assert!(!starts_with_str("img/pic.png", "http"));
}
