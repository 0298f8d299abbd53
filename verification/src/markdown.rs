//! The markdown transformer: renders one document as an HTML page,
//! collects its image dependencies, and rewrites links between documents so
//! that they keep working after conversion.
//!
//! The text handed to [`load`] is preprocessed first: a line ending in a bare
//! block-quote marker gets a forced line break, and `{{#include path}}`
//! directives are replaced, one pass deep, by the named file's text taken
//! from the corpus.

use crate::contents::Corpus;
use crate::contents::File;
use crate::error::BuildIssue;
use crate::error::ChmError;
use crate::utilities::extension_spec;
use crate::utilities::extension_of;
use crate::utilities::has_prefix;
use crate::utilities::is_absolute_path;
use crate::utilities::is_absolute_spec;
use crate::utilities::join_path;
use crate::utilities::join_spec;
use crate::utilities::parent_of;
use crate::utilities::parent_spec;
use crate::utilities::replace_all;
use crate::utilities::replace_all_spec;
use crate::utilities::starts_with_str;
use crate::utilities::str_eq;
use crate::utilities::with_extension;
use crate::utilities::with_extension_spec;
use vstd::prelude::*;
use vstd::string::StrSliceExecFns;
use vstd::utf8::decode_utf8;
use vstd::utf8::encode_utf8;
use vstd::utf8::encode_utf8_decode_utf8;
use vstd::utf8::valid_utf8;

verus! {

/// The fixed page that every rendered document is substituted into.
pub const HTML_TEMPLATE: &'static str = "\n<!DOCTYPE html>\n<html>\n<head>\n    <meta name=\"GENERATOR\" content=\"@rscarson\u{00ae} mdbook-chm\">\n    <meta http-equiv=\"X-UA-Compatible\" content=\"IE=edge\" />\n    <meta charset=\"utf-8\">    \n    <style>\n        body {\n            font-family: \"Segoe UI\", Tahoma, sans-serif;\n            font-size: 16px;\n            line-height: 1.6;\n            margin: 2em;\n            color: #222;\n            background-color: #fff;\n        }\n        h1, h2, h3, h4, h5 {\n            margin-top: 1.5em;\n            margin-bottom: 0.5em;\n            font-weight: 600;\n        }\n        code, pre {\n            background: #f4f4f4;\n            font-family: Consolas, monospace;\n            padding: 2px 4px;\n            border-radius: 4px;\n        }\n        pre {\n            padding: 1em;\n            overflow-x: auto;\n        }\n        a {\n            color: #0645ad;\n            text-decoration: none;\n        }\n        a:hover {\n            text-decoration: underline;\n        }\n        ul, ol {\n            padding-left: 2em;\n        }\n        blockquote {\n            margin: 1em 0;\n            padding-left: 1em;\n            border-left: 4px solid #ccc;\n            color: #666;\n        }\n        table {\n            border-collapse: collapse;\n            width: 100%;\n            margin-top: 1em;\n        }\n        th, td {\n            border: 1px solid #ddd;\n            padding: 0.5em;\n            text-align: left;\n        }\n        th {\n            background-color: #f9f9f9;\n        }\n    </style>\n</head>\n<body>\n    %BODY%\n</body>\n</html>\n";

//
// Trusted surface: comrak parses and renders, regex finds the placeholder
// directives.  Each result that depends on the text alone carries a name.
//

#[verifier::external_type_specification]
#[verifier::external_body]
/// The comrak options value, opaque to the verifier.
pub struct ExComrakOptions<'c>(comrak::Options<'c>);

/// The enabled markdown feature set.  Comrak's raw-HTML pass-through render
/// option is left at its default, so raw HTML in a document is filtered from
/// the rendered page.
#[verifier::external_body]
fn md_options() -> comrak::Options<'static> {
    comrak::Options {
        extension: comrak::options::Extension {
            strikethrough: true, table: true, autolink: true, tasklist: true,
            superscript: true, footnotes: true, description_lists: true,
            multiline_block_quotes: true, alerts: true, math_dollars: true,
            math_code: true, wikilinks_title_after_pipe: true,
            wikilinks_title_before_pipe: true, underline: true, subscript: true,
            spoiler: true, greentext: true, ..Default::default()
        },
        ..Default::default()
    }
}

/// A name for the link targets that comrak's parse of `text` holds, in
/// document order; they depend on the text (and the fixed options) alone.
pub uninterp spec fn md_links_of(text: Seq<char>) -> Seq<Seq<char>>;

/// Relies on `comrak::parse_document`: walking the tree and reading each
/// link node's target, in document order.
#[verifier::external_body]
fn md_link_urls(text: &str) -> (r: Vec<String>)
    ensures
        r.deep_view() == md_links_of(text@),
{
    let opts = md_options();
    let arena = comrak::Arena::new();
    let root = comrak::parse_document(&arena, text, &opts);
    let mut urls = Vec::new();
    for node in root.descendants() {
        if let comrak::nodes::NodeValue::Link(link) = &node.data().value {
            urls.push(link.url.clone());
        }
    }
    urls
}

/// A name for the image targets that comrak's parse of `text` holds, in
/// document order; they depend on the text (and the fixed options) alone.
pub uninterp spec fn md_images_of(text: Seq<char>) -> Seq<Seq<char>>;

/// Relies on `comrak::parse_document`: walking the tree and reading each
/// image node's target, in document order.
#[verifier::external_body]
fn md_image_urls(text: &str) -> (r: Vec<String>)
    ensures
        r.deep_view() == md_images_of(text@),
{
    let opts = md_options();
    let arena = comrak::Arena::new();
    let root = comrak::parse_document(&arena, text, &opts);
    let mut urls = Vec::new();
    for node in root.descendants() {
        if let comrak::nodes::NodeValue::Image(link) = &node.data().value {
            urls.push(link.url.clone());
        }
    }
    urls
}

/// A name for the HTML body comrak renders for `text` after the `i`-th link
/// target is replaced by the `i`-th element of `links`; it depends on those
/// alone.
pub uninterp spec fn md_html_of(text: Seq<char>, links: Seq<Seq<char>>) -> Seq<char>;

/// Relies on `comrak::parse_document` and `comrak::format_html`: the tree of
/// `text` with its link targets replaced in order, rendered as HTML.
/// Formatting into a `String` cannot fail.
#[verifier::external_body]
fn md_render(text: &str, links: &Vec<String>) -> (r: String)
    requires
        links.deep_view().len() == md_links_of(text@).len(),
    ensures
        r@ == md_html_of(text@, links.deep_view()),
{
    let opts = md_options();
    let arena = comrak::Arena::new();
    let root = comrak::parse_document(&arena, text, &opts);
    let mut i: usize = 0;
    for node in root.descendants() {
        if let comrak::nodes::NodeValue::Link(link) = &mut node.data_mut().value {
            link.url = links[i].clone();
            i += 1;
        }
    }
    let mut html = String::new();
    let _ = comrak::format_html(root, &opts, &mut html);
    html
}

/// A name for the placeholder directives of a text: each as the whole token
/// and the trimmed path it names, in order; they depend on the text alone.
pub uninterp spec fn directives_of(text: Seq<char>) -> Seq<(Seq<char>, Seq<char>)>;

/// Relies on `regex::Regex::captures_iter` over the fixed directive pattern
/// and on `str::trim`.  The pattern is a constant, so compiling it cannot
/// fail.
#[verifier::external_body]
fn find_directives(text: &str) -> (r: Vec<(String, String)>)
    ensures
        r.deep_view() == directives_of(text@),
{
    let re = regex::Regex::new("\\{\\{#include\\s+([^}]+)\\}\\}").unwrap();
    let mut out = Vec::new();
    for cap in re.captures_iter(text) {
        let token = cap.get(0).unwrap().as_str().to_string();
        let target = cap.get(1).unwrap().as_str().trim().to_string();
        out.push((token, target));
    }
    out
}

//
// Verified logic.
//

/// A target resolved against the directory of the document naming it.
pub open spec fn resolve_spec(base: Seq<char>, target: Seq<char>) -> Seq<char> {
    if is_absolute_spec(target) {
        target
    } else {
        join_spec(parent_spec(base), target)
    }
}

/// Resolve a target against the directory of the document naming it.
pub fn resolve_target(base: &str, target: &str) -> (r: String)
    ensures
        r@ == resolve_spec(base@, target@),
{
    if is_absolute_path(target) {
        String::from_str(target)
    } else {
        let parent = parent_of(base);
        join_path(parent.as_str(), target)
    }
}

/// How one link target is rewritten: a relative markdown link keeps working
/// after conversion by pointing at the rendered page instead.
pub open spec fn rewrite_spec(url: Seq<char>) -> Seq<char> {
    if has_prefix(url, "http"@) {
        url
    } else if !is_absolute_spec(url) && extension_spec(url) == Some("md"@) {
        with_extension_spec(url, "html"@)
    } else {
        url
    }
}

/// Rewrite one link target for the rendered corpus.
pub fn rewrite_link_target(url: &str) -> (r: String)
    ensures
        r@ == rewrite_spec(url@),
{
    if starts_with_str(url, "http") {
        return String::from_str(url);
    }
    if !is_absolute_path(url) {
        let is_md = match extension_of(url) {
            Some(e) => str_eq(e.as_str(), "md"),
            None => false,
        };
        if is_md {
            return with_extension(url, "html");
        }
    }
    String::from_str(url)
}

/// The rewritten link targets of a parse, in order.
pub open spec fn rewrites_of(links: Seq<Seq<char>>) -> Seq<Seq<char>>
    decreases links,
{
    if links.len() == 0 {
        Seq::empty()
    } else {
        seq![rewrite_spec(links[0])] + rewrites_of(links.skip(1))
    }
}

/// Length and elementwise reading of `rewrites_of`.
pub proof fn lemma_rewrites_of(links: Seq<Seq<char>>)
    ensures
        rewrites_of(links).len() == links.len(),
        forall|i: int| 0 <= i < links.len() ==> rewrites_of(links)[i] == rewrite_spec(links[i]),
    decreases links,
{
    if links.len() > 0 {
        lemma_rewrites_of(links.skip(1));
    }
}

/// The dependency paths taken from a parse's images: network targets are
/// dropped, the rest resolved against the document's directory.
pub open spec fn deps_of(base: Seq<char>, images: Seq<Seq<char>>) -> Seq<Seq<char>>
    decreases images,
{
    if images.len() == 0 {
        Seq::empty()
    } else {
        let rest = deps_of(base, images.skip(1));
        if has_prefix(images[0], "http"@) {
            rest
        } else {
            seq![resolve_spec(base, images[0])] + rest
        }
    }
}

/// `deps_of` over a longer prefix of the same images.
proof fn lemma_deps_of_snoc(base: Seq<char>, images: Seq<Seq<char>>)
    requires
        images.len() > 0,
    ensures
        deps_of(base, images) == deps_of(base, images.drop_last()) + if has_prefix(
            images.last(),
            "http"@,
        ) {
            Seq::<Seq<char>>::empty()
        } else {
            seq![resolve_spec(base, images.last())]
        },
    decreases images,
{
    if images.len() == 1 {
        assert(images.drop_last() =~= Seq::<Seq<char>>::empty());
        assert(images.skip(1) =~= Seq::<Seq<char>>::empty());
        if has_prefix(images[0], "http"@) {
            assert(deps_of(base, images) =~= deps_of(base, images.drop_last()));
        } else {
            assert(deps_of(base, images) =~= deps_of(base, images.drop_last()) + seq![
                resolve_spec(base, images[0]),
            ]);
        }
    } else {
        lemma_deps_of_snoc(base, images.skip(1));
        assert(images.skip(1).drop_last() =~= images.drop_last().skip(1));
        assert(images.skip(1).last() == images.last());
        if has_prefix(images.last(), "http"@) {
            assert(deps_of(base, images.drop_last()) + Seq::<Seq<char>>::empty() =~= deps_of(
                base,
                images.drop_last(),
            ));
            if has_prefix(images[0], "http"@) {
            } else {
                assert(deps_of(base, images) =~= seq![resolve_spec(base, images[0])] + deps_of(
                    base,
                    images.skip(1),
                ));
                assert(deps_of(base, images.drop_last()) =~= seq![resolve_spec(base, images[0])]
                    + deps_of(base, images.drop_last().skip(1)));
            }
        } else {
            if has_prefix(images[0], "http"@) {
            } else {
                assert(deps_of(base, images.drop_last()) =~= seq![resolve_spec(base, images[0])]
                    + deps_of(base, images.drop_last().skip(1)));
                assert(deps_of(base, images) =~= (seq![resolve_spec(base, images[0])] + deps_of(
                    base,
                    images.drop_last().skip(1),
                )) + seq![resolve_spec(base, images.last())]);
            }
        }
    }
}

/// The block-quote line fix applied before parsing.
pub open spec fn quote_fixed(t: Seq<char>) -> Seq<char> {
    replace_all_spec(t, ">\n"@, ">  \n"@)
}

/// One pass of directive expansion: each directive's token is replaced by
/// the named file's text, in order; a missing or non-text file fails with
/// its path.
pub open spec fn expand_spec(
    t: Seq<char>,
    dirs: Seq<(Seq<char>, Seq<char>)>,
    base: Seq<char>,
    corpus: Corpus,
) -> Result<Seq<char>, BuildIssue>
    decreases dirs,
{
    if dirs.len() == 0 {
        Ok(t)
    } else {
        let target = resolve_spec(base, dirs[0].1);
        match corpus.spec_get(target) {
            None => Err(BuildIssue::MissingFile(target)),
            Some(bytes) => if valid_utf8(bytes) {
                expand_spec(
                    replace_all_spec(t, dirs[0].0, decode_utf8(bytes)),
                    dirs.skip(1),
                    base,
                    corpus,
                )
            } else {
                Err(BuildIssue::InvalidText(target))
            },
        }
    }
}

/// The body rendered for an (already expanded) text: its links are
/// rewritten, then comrak formats the tree.
pub open spec fn rendered_body_spec(t: Seq<char>) -> Seq<char> {
    md_html_of(t, rewrites_of(md_links_of(t)))
}

/// The full page for an (already expanded) text.
pub open spec fn page_spec(t: Seq<char>) -> Seq<char> {
    replace_all_spec(HTML_TEMPLATE@, "%BODY%"@, rendered_body_spec(t))
}

/// What `load` produces for a document: the preprocessed text is expanded
/// through the corpus; success gives the rendered page under the `html`
/// name and the resolved image dependencies, and a failed expansion is the
/// build's failure.
pub open spec fn load_spec(path: Seq<char>, contents: Seq<char>, corpus: Corpus) -> Result<
    (crate::contents::FileModel, Seq<Seq<char>>),
    BuildIssue,
> {
    let fixed = quote_fixed(contents);
    match expand_spec(fixed, directives_of(fixed), path, corpus) {
        Err(issue) => Err(issue),
        Ok(expanded) => Ok(
            (
                crate::contents::FileModel {
                    path: with_extension_spec(path, "html"@),
                    contents: encode_utf8(page_spec(expanded)),
                },
                deps_of(path, md_images_of(expanded)),
            ),
        ),
    }
}

/// Load a markdown document, rendering it as an HTML page and returning the
/// resolved image dependencies the caller still has to supply.
pub fn load(path: &str, contents: &str, corpus: &Corpus) -> (r: Result<
    (File, Vec<String>),
    ChmError,
>)
    ensures
        match r {
            Ok(p) => load_spec(path@, contents@, *corpus) == Ok::<_, BuildIssue>(
                (p.0@, p.1.deep_view()),
            ),
            Err(e) => load_spec(path@, contents@, *corpus) matches Err(issue) && e@ == issue,
        },
{
    let fixed = replace_all(contents, ">\n", ">  \n");
    let ghost fixed_view = quote_fixed(contents@);
    let dirs = find_directives(fixed.as_str());
    let ghost dirs_view = directives_of(fixed_view);
    let mut text = fixed;
    let n = dirs.len();
    let mut i: usize = 0;
    proof {
        assert(dirs_view.skip(0) =~= dirs_view);
    }
    while i < n
        invariant
            i <= n,
            n == dirs@.len(),
            dirs.deep_view() == dirs_view,
            fixed_view == quote_fixed(contents@),
            dirs_view == directives_of(fixed_view),
            expand_spec(fixed_view, dirs_view, path@, *corpus) == expand_spec(
                text@,
                dirs_view.skip(i as int),
                path@,
                *corpus,
            ),
        decreases n - i,
    {
        proof {
            assert(dirs_view[i as int] == (dirs@[i as int].0@, dirs@[i as int].1@));
        }
        let target = resolve_target(path, dirs[i].1.as_str());
        match corpus.get(target.as_str()) {
            None => {
                proof {
                    assert(dirs_view.skip(i as int)[0] == dirs_view[i as int]);
                    assert(expand_spec(text@, dirs_view.skip(i as int), path@, *corpus) == Err::<
                        Seq<char>,
                        BuildIssue,
                    >(BuildIssue::MissingFile(target@)));
                }
                return Err(ChmError::MissingFile(target));
            },
            Some(bytes) => {
                match crate::contents::bytes_to_string(bytes) {
                    None => {
                        proof {
                            assert(dirs_view.skip(i as int)[0] == dirs_view[i as int]);
                            assert(expand_spec(text@, dirs_view.skip(i as int), path@, *corpus)
                                == Err::<Seq<char>, BuildIssue>(BuildIssue::InvalidText(target@)));
                        }
                        return Err(ChmError::InvalidText(target));
                    },
                    Some(body) => {
                        proof {
                            assert(dirs_view.skip(i as int)[0] == dirs_view[i as int]);
                            encode_utf8_decode_utf8(body@);
                            assert(decode_utf8(bytes@) == body@);
                            assert(dirs_view.skip(i as int).skip(1) =~= dirs_view.skip(i + 1));
                        }
                        let replaced = replace_all(
                            text.as_str(),
                            dirs[i].0.as_str(),
                            body.as_str(),
                        );
                        text = replaced;
                    },
                }
            },
        }
        i = i + 1;
    }
    proof {
        assert(dirs_view.skip(n as int).len() == 0);
    }
    let expanded = text;
    let links = md_link_urls(expanded.as_str());
    let mut rewritten: Vec<String> = Vec::new();
    let m = links.len();
    let mut j: usize = 0;
    proof {
        lemma_rewrites_of(links.deep_view());
    }
    while j < m
        invariant
            j <= m,
            m == links@.len(),
            rewritten.deep_view() =~= rewrites_of(links.deep_view()).take(j as int),
        decreases m - j,
    {
        proof {
            lemma_rewrites_of(links.deep_view());
        }
        let w = rewrite_link_target(links[j].as_str());
        let ghost rd0 = rewritten.deep_view();
        rewritten.push(w);
        proof {
            lemma_rewrites_of(links.deep_view());
            let lv = links.deep_view();
            assert(rewrites_of(lv).len() == m);
            assert(rd0.len() == j);
            assert(rewritten@.len() == j + 1);
            assert forall|t: int| 0 <= t < j + 1 implies rewritten.deep_view()[t] == rewrites_of(
                lv,
            ).take(j + 1)[t] by {
                if t < j {
                    assert(rewritten@[t] == rewritten@.drop_last()[t]);
                    assert(rewritten.deep_view()[t] == rd0[t]);
                } else {
                    assert(rewritten@[t] == w);
                    assert(lv[t] == links@[t]@);
                }
            }
            assert(rewritten.deep_view() =~= rewrites_of(lv).take(j + 1));
        }
        j = j + 1;
    }
    proof {
        lemma_rewrites_of(links.deep_view());
        assert(rewritten.deep_view() =~= rewrites_of(links.deep_view()));
    }
    let body = md_render(expanded.as_str(), &rewritten);
    let page = replace_all(HTML_TEMPLATE, "%BODY%", body.as_str());
    let html_path = with_extension(path, "html");
    let bytes = page.as_str().as_bytes_vec();
    let images = md_image_urls(expanded.as_str());
    let mut deps: Vec<String> = Vec::new();
    let k_max = images.len();
    let mut k: usize = 0;
    proof {
        assert(images.deep_view().take(0) =~= Seq::<Seq<char>>::empty());
        assert(deps.deep_view() =~= deps_of(path@, images.deep_view().take(0)));
    }
    while k < k_max
        invariant
            k <= k_max,
            k_max == images@.len(),
            deps.deep_view() =~= deps_of(path@, images.deep_view().take(k as int)),
        decreases k_max - k,
    {
        if !starts_with_str(images[k].as_str(), "http") {
            let d = resolve_target(path, images[k].as_str());
            deps.push(d);
        }
        proof {
            let iv = images.deep_view();
            lemma_deps_of_snoc(path@, iv.take(k + 1));
            assert(iv.take(k + 1).drop_last() =~= iv.take(k as int));
            assert(iv.take(k + 1).last() == iv[k as int]);
        }
        k = k + 1;
    }
    proof {
        assert(images.deep_view().take(k_max as int) =~= images.deep_view());
    }
    Ok((File { path: html_path, contents: bytes }, deps))
}

} // verus!
